use butterfly_extractor::cloud_vision::{
    colors_from_answer, colors_from_reply, duplicate_colors, hex_color, request_body,
    CloudVisionError, Color,
};

const REPLY: &str = r#"{
  "responses": [
    {
      "imagePropertiesAnnotation": {
        "dominantColors": {
          "colors": [
            { "color": { "red": 255, "green": 0, "blue": 10 }, "score": 0.5, "pixelFraction": 0.25 },
            { "color": { "red": 18, "green": 171, "blue": 205 }, "score": 0.125, "pixelFraction": 1 }
          ]
        }
      }
    }
  ]
}"#;

#[test]
fn colors_are_read_from_a_reply() {
    let colors = colors_from_reply(200, REPLY).unwrap();
    assert_eq!(
        colors,
        vec![
            Color {
                pixel_fraction: 0.25f64.to_bits(),
                score: 0.5f64.to_bits(),
                hex_color: "#ff000a".to_string(),
            },
            Color {
                pixel_fraction: 1.0f64.to_bits(),
                score: 0.125f64.to_bits(),
                hex_color: "#12abcd".to_string(),
            },
        ]
    );
    assert_eq!(duplicate_colors(&colors), colors);
    assert_eq!(colors[0].duplicate(), colors[0]);
}

#[test]
fn an_exchange_without_answer_is_a_bad_request() {
    assert_eq!(colors_from_answer(&None), Err(CloudVisionError::BadRequest));
    assert_eq!(
        colors_from_answer(&Some((200, REPLY.to_string()))),
        colors_from_reply(200, REPLY)
    );
    assert_eq!(
        colors_from_answer(&Some((403, REPLY.to_string()))),
        Err(CloudVisionError::BadRequest)
    );
}

#[test]
fn an_empty_list_of_colors_is_a_list() {
    let body = r#"{"responses":[{"imagePropertiesAnnotation":{"dominantColors":{"colors":[]}}}]}"#;
    assert_eq!(colors_from_reply(200, body), Ok(Vec::new()));
}

#[test]
fn a_status_other_than_200_is_a_bad_request() {
    assert_eq!(colors_from_reply(404, REPLY), Err(CloudVisionError::BadRequest));
    assert_eq!(colors_from_reply(201, REPLY), Err(CloudVisionError::BadRequest));
    assert_eq!(colors_from_reply(500, "not json"), Err(CloudVisionError::BadRequest));
}

#[test]
fn an_error_object_is_a_failure_of_the_service() {
    let body = r#"{"responses":[{"error":{"code":7,"message":"denied"}}]}"#;
    assert_eq!(colors_from_reply(200, body), Err(CloudVisionError::FailedToParseImage));
    let both = r#"{"responses":[{"error":{},"imagePropertiesAnnotation":{"dominantColors":{"colors":[]}}}]}"#;
    assert_eq!(colors_from_reply(200, both), Err(CloudVisionError::FailedToParseImage));
    let no_object = r#"{"responses":[{"error":"text","imagePropertiesAnnotation":{"dominantColors":{"colors":[]}}}]}"#;
    assert_eq!(colors_from_reply(200, no_object), Ok(Vec::new()));
}

#[test]
fn a_reply_of_another_shape_holds_no_colors() {
    let wrong = [
        "not json",
        "",
        "{}",
        "[]",
        r#"{"responses":[]}"#,
        r#"{"responses":{}}"#,
        r#"{"responses":[{}]}"#,
        r#"{"responses":[{"imagePropertiesAnnotation":{}}]}"#,
        r#"{"responses":[{"imagePropertiesAnnotation":{"dominantColors":{}}}]}"#,
        r#"{"responses":[{"imagePropertiesAnnotation":{"dominantColors":{"colors":{}}}}]}"#,
        r#"{"responses":[{"imagePropertiesAnnotation":{"dominantColors":{"colors":[{}]}}}]}"#,
    ];
    for body in wrong {
        assert_eq!(
            colors_from_reply(200, body),
            Err(CloudVisionError::UnableToParseColorData),
            "{:?}",
            body
        );
    }
}

fn reply_with_entry(entry: &str) -> String {
    format!(
        r#"{{"responses":[{{"imagePropertiesAnnotation":{{"dominantColors":{{"colors":[{}]}}}}}}]}}"#,
        entry
    )
}

#[test]
fn an_entry_needs_all_its_parts() {
    let good = r#"{"color":{"red":1,"green":2,"blue":3},"score":1,"pixelFraction":0}"#;
    assert_eq!(
        colors_from_reply(200, &reply_with_entry(good)),
        Ok(vec![Color {
            pixel_fraction: 0.0f64.to_bits(),
            score: 1.0f64.to_bits(),
            hex_color: "#010203".to_string(),
        }])
    );
    let broken = [
        r#"{"color":{"red":1,"green":2,"blue":3},"score":1}"#,
        r#"{"color":{"red":1,"green":2,"blue":3},"pixelFraction":0}"#,
        r#"{"score":1,"pixelFraction":0}"#,
        r#"{"color":{"green":2,"blue":3},"score":1,"pixelFraction":0}"#,
        r#"{"color":{"red":1,"blue":3},"score":1,"pixelFraction":0}"#,
        r#"{"color":{"red":1,"green":2},"score":1,"pixelFraction":0}"#,
        r#"{"color":{"red":-1,"green":2,"blue":3},"score":1,"pixelFraction":0}"#,
        r#"{"color":{"red":1.5,"green":2,"blue":3},"score":1,"pixelFraction":0}"#,
        r#"{"color":{"red":"1","green":2,"blue":3},"score":1,"pixelFraction":0}"#,
        r#"{"color":{"red":1,"green":2,"blue":3},"score":"1","pixelFraction":0}"#,
        r#"{"color":[1,2,3],"score":1,"pixelFraction":0}"#,
    ];
    for entry in broken {
        assert_eq!(
            colors_from_reply(200, &reply_with_entry(entry)),
            Err(CloudVisionError::UnableToParseColorData),
            "{:?}",
            entry
        );
    }
}

#[test]
fn one_broken_entry_spoils_the_list() {
    let entries = r#"{"color":{"red":1,"green":2,"blue":3},"score":1,"pixelFraction":0},{"score":1}"#;
    assert_eq!(
        colors_from_reply(200, &reply_with_entry(entries)),
        Err(CloudVisionError::UnableToParseColorData)
    );
}

#[test]
fn the_low_eight_bits_of_a_channel_count() {
    let entry = r#"{"color":{"red":256,"green":511,"blue":4096},"score":1,"pixelFraction":0}"#;
    let colors = colors_from_reply(200, &reply_with_entry(entry)).unwrap();
    assert_eq!(colors[0].hex_color, "#00ff00");
}

#[test]
fn hexadecimal_colors() {
    assert_eq!(hex_color(255, 0, 10), "#ff000a");
    assert_eq!(hex_color(0, 0, 0), "#000000");
    assert_eq!(hex_color(255, 255, 255), "#ffffff");
    assert_eq!(hex_color(18, 171, 205), "#12abcd");
    assert_eq!(hex_color(9, 10, 159), "#090a9f");
}

#[test]
fn the_request_names_the_image() {
    assert_eq!(
        request_body("http://biokite.com/worldbutterfly/img/a.jpg"),
        Some(
            "{\"requests\":[{\"image\":{\"source\":{\"imageUri\":\"http://biokite.com/worldbutterfly/img/a.jpg\"}},\"features\":[{\"maxResults\":10,\"type\":\"IMAGE_PROPERTIES\"}]}]}"
                .to_string()
        )
    );
    let quoted = request_body("a\"b\\c").unwrap();
    assert!(quoted.contains("\"imageUri\":\"a\\\"b\\\\c\""));
    let parsed: serde_json::Value = serde_json::from_str(&quoted).unwrap();
    assert_eq!(
        parsed["requests"][0]["image"]["source"]["imageUri"].as_str(),
        Some("a\"b\\c")
    );
    assert_eq!(parsed["requests"][0]["features"][0]["maxResults"].as_u64(), Some(10));
    assert_eq!(parsed["requests"][0]["features"][0]["type"].as_str(), Some("IMAGE_PROPERTIES"));
}

#[test]
fn messages_of_the_service_errors() {
    assert_eq!(CloudVisionError::BadRequest.message(), "Bad request");
    assert_eq!(
        CloudVisionError::FailedToParseImage.message(),
        "Cloud vision api failed to parse image"
    );
    assert_eq!(CloudVisionError::UnableToParseColorData.message(), "Unable to parse data");
}
