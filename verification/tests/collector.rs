use butterfly_extractor::assets::{
    directory_of, get_file_name, is_success, plan_download, site_url, DownloadRequest,
};
use butterfly_extractor::butterfly::Butterfly;
use butterfly_extractor::butterfly_collector::{
    duplicate_butterflies, ButterflyCollector, ButterflyJSON, Warning, WarningCause,
};
use butterfly_extractor::cloud_vision::{CloudVisionError, Color};
use butterfly_extractor::errors::ButterflyError;
use butterfly_extractor::webpage_parser::WebpageParseResult;

fn butterfly(jp: &str, img: &str, pdf: &str, dir: &str) -> Butterfly {
    let mut b = Butterfly::new("region", img, pdf, "#ffffff", "科", dir, "url");
    b.jp_name = jp.to_string();
    b.eng_name = format!("{} in English", jp);
    b
}

fn result(dir: &str, butterflies: Vec<Butterfly>, pdfs: &[&str]) -> WebpageParseResult {
    WebpageParseResult {
        dir_name: dir.to_string(),
        region: "region".to_string(),
        url: "url".to_string(),
        butterflies,
        pdfs: pdfs.iter().map(|p| (p.to_string(), dir.to_string())).collect(),
    }
}

fn two_pages() -> ButterflyCollector {
    ButterflyCollector::from_parse_result(
        vec![
            result(
                "north",
                vec![
                    butterfly("b", "img/b.jpg", "pdf/shared.pdf", "north"),
                    butterfly("a", "img/a.jpg", "pdf/shared.pdf", "north"),
                ],
                &["pdf/shared.pdf"],
            ),
            result(
                "south",
                vec![butterfly("c", "img/ｃ.jpg", "pdf/c.pdf", "south")],
                &["pdf/c.pdf", "pdf/shared.pdf"],
            ),
        ],
        Vec::new(),
    )
}

#[test]
fn pages_are_put_together() {
    let c = two_pages();
    let names: Vec<&str> = c.butterflies.iter().map(|b| b.jp_name.as_str()).collect();
    assert_eq!(names, vec!["b", "a", "c"]);
    assert_eq!(c.region_dirs, vec!["north".to_string(), "south".to_string()]);
    assert_eq!(
        c.pdfs,
        vec![
            ("pdf/shared.pdf".to_string(), "north".to_string()),
            ("pdf/c.pdf".to_string(), "south".to_string()),
            ("pdf/shared.pdf".to_string(), "south".to_string()),
        ]
    );
    assert!(c.warnings.is_empty());
    assert!(c.csv_data_map.is_empty());
    let nothing = ButterflyCollector::from_parse_result(Vec::new(), Vec::new());
    assert!(nothing.butterflies.is_empty());
    assert!(nothing.pdfs.is_empty());
}

#[test]
fn documents_of_several_pages_are_listed_once() {
    let c = ButterflyCollector::from_parse_result(
        vec![
            result("north", Vec::new(), &["pdf/a.pdf", "pdf/b.pdf"]),
            result("north", Vec::new(), &["pdf/b.pdf", "pdf/a.pdf", "pdf/c.pdf"]),
        ],
        Vec::new(),
    );
    let locators: Vec<&str> = c.pdfs.iter().map(|p| p.0.as_str()).collect();
    assert_eq!(locators, vec!["pdf/a.pdf", "pdf/b.pdf", "pdf/c.pdf"]);
}

#[test]
fn file_names_come_from_the_last_piece() {
    assert_eq!(get_file_name("img/a.jpg"), "a.jpg");
    assert_eq!(get_file_name("a.jpg"), "a.jpg");
    assert_eq!(get_file_name("x/y/ＡＢＣ１２.jpg"), "ABC12.jpg");
    assert_eq!(get_file_name("img/"), "");
    assert_eq!(get_file_name(""), "");
    assert_eq!(get_file_name("/"), "");
}

#[test]
fn locators_resolve_against_the_site() {
    assert_eq!(
        site_url("img/a.jpg"),
        Some("http://biokite.com/worldbutterfly/img/a.jpg".to_string())
    );
    assert_eq!(site_url("../x.jpg"), Some("http://biokite.com/x.jpg".to_string()));
    assert_eq!(site_url("/top.jpg"), Some("http://biokite.com/top.jpg".to_string()));
    assert_eq!(
        site_url("http://example.org/far.jpg"),
        Some("http://example.org/far.jpg".to_string())
    );
    assert_eq!(site_url("http://[::1"), None);
}

#[test]
fn directories_and_paths() {
    assert_eq!(directory_of("north", "images"), "./assets/north/images");
    assert_eq!(directory_of("south", "pdf"), "./assets/south/pdf");
    assert_eq!(
        plan_download("img/a.jpg", "north", "images", ButterflyError::ImageNameUnknown),
        Ok(DownloadRequest {
            url: "http://biokite.com/worldbutterfly/img/a.jpg".to_string(),
            file_path: "./assets/north/images/a.jpg".to_string(),
        })
    );
    assert_eq!(
        plan_download("img/", "north", "images", ButterflyError::ImageNameUnknown),
        Err(ButterflyError::ImageNameUnknown)
    );
    assert_eq!(
        plan_download("", "north", "pdf", ButterflyError::FileNameUnknown),
        Err(ButterflyError::FileNameUnknown)
    );
    assert_eq!(
        plan_download("http://[::1", "north", "pdf", ButterflyError::FileNameUnknown),
        Err(ButterflyError::FileNotFound("http://[::1".to_string()))
    );
}

#[test]
fn every_butterfly_has_an_image_download() {
    let mut c = two_pages();
    c.butterflies.push(butterfly("d", "", "", "south"));
    let plans = c.image_downloads();
    assert_eq!(plans.len(), 4);
    assert_eq!(
        plans[0],
        Ok(DownloadRequest {
            url: "http://biokite.com/worldbutterfly/img/b.jpg".to_string(),
            file_path: "./assets/north/images/b.jpg".to_string(),
        })
    );
    assert_eq!(plans[2].as_ref().unwrap().file_path, "./assets/south/images/c.jpg");
    assert_eq!(plans[3], Err(ButterflyError::ImageNameUnknown));
    assert_eq!(
        c.asset_directories("images"),
        vec!["./assets/north/images".to_string(), "./assets/south/images".to_string()]
    );
}

#[test]
fn a_stored_image_is_recorded_in_its_butterfly() {
    let mut c = two_pages();
    let before = c.clone();
    c.record_image(1, Ok("./assets/north/images/a.jpg".to_string()));
    assert_eq!(c.butterflies[1].img_path, Some("./assets/north/images/a.jpg".to_string()));
    assert_eq!(c.butterflies[0], before.butterflies[0]);
    assert_eq!(c.butterflies[2], before.butterflies[2]);
    assert_eq!(c.butterflies[1].jp_name, "a");
    assert!(c.warnings.is_empty());
    assert_eq!(c.pdfs, before.pdfs);
}

#[test]
fn a_failed_image_leaves_the_butterflies_alone() {
    let mut c = two_pages();
    c.record_image(0, Ok("./assets/north/images/b.jpg".to_string()));
    let before = c.clone();
    c.record_image(1, Err(ButterflyError::FileNotFound("./assets/north/images/a.jpg".to_string())));
    assert_eq!(c.butterflies, before.butterflies);
    assert_eq!(c.butterflies[1].img_path, None);
    assert_eq!(c.butterflies.len(), 3);
    assert_eq!(
        c.warnings,
        vec![Warning {
            subject: "a".to_string(),
            cause: WarningCause::Image(ButterflyError::FileNotFound(
                "./assets/north/images/a.jpg".to_string()
            )),
        }]
    );
    let snapshot = c.finalize(1);
    let paths: Vec<Option<&str>> =
        snapshot.butterflies.iter().map(|b| b.img_path.as_deref()).collect();
    assert_eq!(paths, vec![None, Some("./assets/north/images/b.jpg"), None]);
}

#[test]
fn an_index_beyond_the_list_changes_nothing() {
    let mut c = two_pages();
    let before = c.clone();
    c.record_image(3, Ok("x".to_string()));
    c.record_image(usize::MAX, Err(ButterflyError::ImageNameUnknown));
    c.record_pdf(3, Ok("x".to_string()));
    c.record_pdf(9, Err(ButterflyError::FileNameUnknown));
    c.record_colors(3, Ok(Vec::new()));
    c.record_colors(7, Err(CloudVisionError::BadRequest));
    assert_eq!(c, before);
}

#[test]
fn every_document_has_one_download() {
    let c = two_pages();
    let plans = c.pdf_downloads();
    assert_eq!(plans.len(), 3);
    assert_eq!(
        plans[0],
        Ok(DownloadRequest {
            url: "http://biokite.com/worldbutterfly/pdf/shared.pdf".to_string(),
            file_path: "./assets/north/pdf/shared.pdf".to_string(),
        })
    );
    assert_eq!(plans[1].as_ref().unwrap().file_path, "./assets/south/pdf/c.pdf");
    assert_eq!(plans[2].as_ref().unwrap().file_path, "./assets/south/pdf/shared.pdf");
}

#[test]
fn a_stored_document_reaches_all_its_butterflies() {
    let mut c = ButterflyCollector::from_parse_result(
        vec![result(
            "north",
            vec![
                butterfly("b", "img/b.jpg", "pdf/shared.pdf", "north"),
                butterfly("a", "img/a.jpg", "pdf/shared.pdf", "north"),
                butterfly("c", "img/c.jpg", "pdf/c.pdf", "north"),
            ],
            &["pdf/shared.pdf", "pdf/c.pdf"],
        )],
        Vec::new(),
    );
    assert_eq!(c.pdf_downloads().len(), 2);
    c.record_pdf(0, Ok("./assets/north/pdf/shared.pdf".to_string()));
    assert_eq!(c.butterflies[0].pdf_path, "./assets/north/pdf/shared.pdf");
    assert_eq!(c.butterflies[1].pdf_path, "./assets/north/pdf/shared.pdf");
    assert_eq!(c.butterflies[2].pdf_path, "");
    c.record_pdf(1, Err(ButterflyError::FileNotFound("./assets/north/pdf/c.pdf".to_string())));
    assert_eq!(c.butterflies[2].pdf_path, "");
    assert_eq!(c.butterflies[0].pdf_path, "./assets/north/pdf/shared.pdf");
    assert_eq!(
        c.warnings,
        vec![Warning {
            subject: "pdf/c.pdf".to_string(),
            cause: WarningCause::Document(ButterflyError::FileNotFound(
                "./assets/north/pdf/c.pdf".to_string()
            )),
        }]
    );
}

fn color(hex: &str) -> Color {
    Color { pixel_fraction: 0.5f64.to_bits(), score: 0.25f64.to_bits(), hex_color: hex.to_string() }
}

#[test]
fn colors_replace_those_of_one_butterfly() {
    let mut c = two_pages();
    assert_eq!(
        c.color_requests(),
        vec![
            Ok("http://biokite.com/worldbutterfly/img/b.jpg".to_string()),
            Ok("http://biokite.com/worldbutterfly/img/a.jpg".to_string()),
            Ok("http://biokite.com/worldbutterfly/img/%EF%BD%83.jpg".to_string()),
        ]
    );
    let mut lost = c.clone();
    lost.butterflies[0].img_src = "http://[::1".to_string();
    assert_eq!(lost.color_requests()[0], Err(CloudVisionError::BadRequest));
    c.record_colors(1, Ok(vec![color("#010203"), color("#040506")]));
    assert_eq!(c.butterflies[1].dominant_colors.len(), 2);
    c.record_colors(1, Ok(vec![color("#070809")]));
    assert_eq!(c.butterflies[1].dominant_colors, vec![color("#070809")]);
    let once = c.clone();
    c.record_colors(1, Ok(vec![color("#070809")]));
    assert_eq!(c, once);
    assert!(c.butterflies[0].dominant_colors.is_empty());
    c.record_colors(1, Err(CloudVisionError::FailedToParseImage));
    assert_eq!(c.butterflies, once.butterflies);
    assert_eq!(
        c.warnings,
        vec![Warning {
            subject: "a".to_string(),
            cause: WarningCause::Colors(CloudVisionError::FailedToParseImage),
        }]
    );
}

#[test]
fn a_snapshot_is_ordered_and_holds_each_name_once() {
    let mut first_a = butterfly("a", "img/first.jpg", "pdf/1.pdf", "north");
    first_a.category = "first".to_string();
    let mut c = ButterflyCollector::from_parse_result(
        vec![result(
            "north",
            vec![
                butterfly("ギフチョウ", "img/g.jpg", "pdf/g.pdf", "north"),
                first_a.clone(),
                butterfly("アゲハ", "img/ag.jpg", "pdf/ag.pdf", "north"),
                butterfly("a", "img/second.jpg", "pdf/2.pdf", "north"),
                butterfly("Z", "img/z.jpg", "pdf/z.pdf", "north"),
                butterfly("ギフチョウ", "img/g2.jpg", "pdf/g2.pdf", "north"),
            ],
            &["pdf/g.pdf", "pdf/1.pdf"],
        )],
        Vec::new(),
    );
    let snapshot = c.finalize(1_572_000_000);
    let names: Vec<&str> = snapshot.butterflies.iter().map(|b| b.jp_name.as_str()).collect();
    assert_eq!(names, vec!["Z", "a", "アゲハ", "ギフチョウ"]);
    assert_eq!(snapshot.butterflies[1], first_a);
    assert_eq!(snapshot.butterflies[3].img_src, "img/g.jpg");
    assert_eq!(snapshot.butterfly_num, 4);
    assert_eq!(snapshot.pdf_num, 2);
    assert_eq!(snapshot.created_at, 1_572_000_000);
    assert_eq!(c.butterflies, snapshot.butterflies);

    let again = c.finalize(7);
    assert_eq!(again.butterflies, snapshot.butterflies);
    assert_eq!(again.butterfly_num, 4);
    assert_eq!(again.created_at, 7);
}

#[test]
fn an_empty_collection_gives_an_empty_snapshot() {
    let mut c = ButterflyCollector::from_parse_result(Vec::new(), Vec::new());
    let snapshot = c.finalize(0);
    assert!(snapshot.butterflies.is_empty());
    assert_eq!(snapshot.butterfly_num, 0);
    assert_eq!(snapshot.pdf_num, 0);
}

#[test]
fn a_snapshot_becomes_a_collection_again() {
    let mut c = two_pages();
    c.butterflies.push(butterfly("d", "img/d.jpg", "", "south"));
    c.record_image(0, Ok("./assets/north/images/b.jpg".to_string()));
    c.record_colors(2, Ok(vec![color("#010203")]));
    let snapshot = c.finalize(5);
    let restored = snapshot.clone().into_collector(Vec::new());
    assert_eq!(restored.butterflies, snapshot.butterflies);
    assert_eq!(
        restored.pdfs,
        vec![
            ("pdf/shared.pdf".to_string(), "north".to_string()),
            ("pdf/c.pdf".to_string(), "south".to_string()),
            (String::new(), "south".to_string()),
        ]
    );
    assert_eq!(restored.region_dirs, vec!["north".to_string(), "south".to_string()]);
    assert!(restored.warnings.is_empty());
}

#[test]
fn snapshots_and_lists_are_copied() {
    let list = vec![butterfly("a", "i", "p", "d"), butterfly("b", "i", "p", "d")];
    assert_eq!(duplicate_butterflies(&list), list);
    let snapshot = ButterflyJSON::new(&list, 5, 6, 7);
    assert_eq!(snapshot.butterflies, list);
    assert_eq!(snapshot.butterfly_num, 5);
    assert_eq!(snapshot.pdf_num, 6);
    assert_eq!(snapshot.created_at, 7);
}

#[test]
fn a_download_counts_when_answered_with_200_and_stored() {
    let request = DownloadRequest {
        url: "http://biokite.com/worldbutterfly/img/a.jpg".to_string(),
        file_path: "./assets/north/images/a.jpg".to_string(),
    };
    let failure = Err(ButterflyError::FileNotFound("./assets/north/images/a.jpg".to_string()));
    assert!(is_success(200));
    assert!(!is_success(404));
    assert!(!is_success(201));
    assert_eq!(request.outcome(Some(200), true), Ok("./assets/north/images/a.jpg".to_string()));
    assert_eq!(request.outcome(Some(200), false), failure);
    assert_eq!(request.outcome(Some(404), false), failure);
    assert_eq!(request.outcome(Some(404), true), failure);
    assert_eq!(request.outcome(None, false), failure);
    assert_eq!(request.outcome(None, true), failure);
}

#[test]
fn butterflies_without_category_are_found() {
    let mut c = two_pages();
    assert!(c.uncategorized().is_empty());
    c.butterflies[0].category = String::new();
    c.butterflies[2].category = String::new();
    assert_eq!(c.uncategorized(), vec![0, 2]);
}

#[test]
fn outcomes_are_recorded_rank_by_rank() {
    let mut c = two_pages();
    let mut one_by_one = c.clone();
    let failure = ButterflyError::FileNotFound("./assets/north/images/a.jpg".to_string());
    c.fetch_images(vec![
        Ok("./assets/north/images/b.jpg".to_string()),
        Err(failure.clone()),
        Ok("./assets/south/images/c.jpg".to_string()),
        Ok("beyond the butterflies".to_string()),
    ]);
    one_by_one.record_image(0, Ok("./assets/north/images/b.jpg".to_string()));
    one_by_one.record_image(1, Err(failure));
    one_by_one.record_image(2, Ok("./assets/south/images/c.jpg".to_string()));
    assert_eq!(c, one_by_one);
    assert_eq!(c.butterflies[0].img_path, Some("./assets/north/images/b.jpg".to_string()));
    assert_eq!(c.butterflies[1].img_path, None);
    assert_eq!(c.butterflies[2].img_path, Some("./assets/south/images/c.jpg".to_string()));
    assert_eq!(c.warnings.len(), 1);

    let before = c.clone();
    c.fetch_images(Vec::new());
    c.fetch_pdfs(Vec::new());
    c.fetch_dominant_colors(Vec::new());
    assert_eq!(c, before);
}

#[test]
fn documents_and_colors_are_recorded_rank_by_rank() {
    let mut c = two_pages();
    c.fetch_pdfs(vec![
        Ok("./assets/north/pdf/shared.pdf".to_string()),
        Err(ButterflyError::FileNameUnknown),
    ]);
    assert_eq!(c.butterflies[0].pdf_path, "./assets/north/pdf/shared.pdf");
    assert_eq!(c.butterflies[1].pdf_path, "./assets/north/pdf/shared.pdf");
    assert_eq!(c.butterflies[2].pdf_path, "");
    assert_eq!(
        c.warnings,
        vec![Warning {
            subject: "pdf/c.pdf".to_string(),
            cause: WarningCause::Document(ButterflyError::FileNameUnknown),
        }]
    );
    c.fetch_dominant_colors(vec![
        Err(CloudVisionError::BadRequest),
        Ok(vec![color("#010203")]),
        Err(CloudVisionError::UnableToParseColorData),
    ]);
    assert!(c.butterflies[0].dominant_colors.is_empty());
    assert_eq!(c.butterflies[1].dominant_colors, vec![color("#010203")]);
    let subjects: Vec<&str> = c.warnings.iter().map(|w| w.subject.as_str()).collect();
    assert_eq!(subjects, vec!["pdf/c.pdf", "b", "c"]);
}

#[test]
fn every_stored_butterfly_gives_its_document() {
    let stored = vec![butterfly("a", "img/a.jpg", "", "north")];
    let restored = ButterflyJSON::new(&stored, 1, 0, 0).into_collector(Vec::new());
    assert_eq!(restored.pdfs, vec![(String::new(), "north".to_string())]);
    let plans = restored.pdf_downloads();
    assert_eq!(plans, vec![Err(ButterflyError::FileNameUnknown)]);

    let shared = vec![
        butterfly("a", "img/a.jpg", "pdf/x.pdf", "north"),
        butterfly("b", "img/b.jpg", "pdf/x.pdf", "north"),
        butterfly("c", "img/c.jpg", "pdf/x.pdf", "south"),
    ];
    let restored = ButterflyJSON::new(&shared, 3, 0, 0).into_collector(Vec::new());
    assert_eq!(
        restored.pdfs,
        vec![
            ("pdf/x.pdf".to_string(), "north".to_string()),
            ("pdf/x.pdf".to_string(), "south".to_string()),
        ]
    );
}
