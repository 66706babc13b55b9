use butterfly_extractor::butterfly_collector::{Warning, WarningCause};
use butterfly_extractor::csv_data::parse_csv_data;
use butterfly_extractor::errors::{ButterflyError, ImageLoaderError};
use butterfly_extractor::image_loader::{image_address, image_file_path};
use butterfly_extractor::{Client, WebpageParser};

fn client() -> Client {
    Client::new(vec![
        WebpageParser::new("old_north", "旧北区", "http://biokite.com/worldbutterfly/butterfly-PArc.htm"),
        WebpageParser::new("new_north", "新北区", "http://biokite.com/worldbutterfly/butterfly-NArc.htm"),
        WebpageParser::new("new_tropical", "新熱帯区", "http://biokite.com/worldbutterfly/butterfly-NTro.htm"),
    ])
}

fn page(name: &str) -> String {
    format!(
        "<table><tr><td><a href=\"pdf/{0}.pdf\"><img src=\"img/{0}.jpg\"></a></td><td>{0}\n{0} eng</td></tr></table>",
        name
    )
}

#[test]
fn the_client_names_its_pages() {
    assert_eq!(
        client().page_urls(),
        vec![
            "http://biokite.com/worldbutterfly/butterfly-PArc.htm".to_string(),
            "http://biokite.com/worldbutterfly/butterfly-NArc.htm".to_string(),
            "http://biokite.com/worldbutterfly/butterfly-NTro.htm".to_string(),
        ]
    );
    assert!(Client::new(Vec::new()).page_urls().is_empty());
}

#[test]
fn pages_are_collected() {
    let pages = vec![Some(page("x")), Some(page("y")), Some(page("z"))];
    let c = client().collect_datas(&pages, Vec::new());
    let regions: Vec<&str> = c.butterflies.iter().map(|b| b.region.as_str()).collect();
    assert_eq!(regions, vec!["旧北区", "新北区", "新熱帯区"]);
    let names: Vec<&str> = c.butterflies.iter().map(|b| b.eng_name.as_str()).collect();
    assert_eq!(names, vec!["x eng", "y eng", "z eng"]);
    assert_eq!(
        c.region_dirs,
        vec!["old_north".to_string(), "new_north".to_string(), "new_tropical".to_string()]
    );
    assert_eq!(c.pdfs.len(), 3);
    assert!(c.warnings.is_empty());
}

#[test]
fn a_page_that_fails_leaves_the_others_alone() {
    let broken = "<table><tr><td><img></td></tr></table>".to_string();
    let pages = vec![Some(page("x")), Some(broken), None];
    let rows = parse_csv_data("eng,jp,x,span,distribution\nx eng,ｘ,,12,d\n").unwrap();
    let mut c = client().collect_datas(&pages, rows);
    assert_eq!(c.butterflies.len(), 1);
    assert_eq!(c.butterflies[0].region, "旧北区");
    assert_eq!(c.region_dirs, vec!["old_north".to_string()]);
    assert_eq!(
        c.warnings,
        vec![
            Warning {
                subject: "http://biokite.com/worldbutterfly/butterfly-NArc.htm".to_string(),
                cause: WarningCause::Page(ButterflyError::ImageSourceNotFound),
            },
            Warning {
                subject: "http://biokite.com/worldbutterfly/butterfly-NTro.htm".to_string(),
                cause: WarningCause::Page(ButterflyError::FailedToFetchHTML(
                    "http://biokite.com/worldbutterfly/butterfly-NTro.htm".to_string()
                )),
            },
        ]
    );
    c.fetch_csv_info();
    assert_eq!(c.butterflies[0].open_length, 12);
}

#[test]
fn missing_pages_count_as_not_fetched() {
    let c = client().collect_datas(&vec![Some(page("x"))], Vec::new());
    assert_eq!(c.butterflies.len(), 1);
    assert_eq!(c.warnings.len(), 2);
    let none = client().collect_datas(&Vec::new(), Vec::new());
    assert!(none.butterflies.is_empty());
    assert_eq!(none.warnings.len(), 3);
}

#[test]
fn messages_of_the_errors() {
    assert_eq!(
        ButterflyError::ImageSourceNotFound.message(),
        "Image source not found when parsing the page"
    );
    assert_eq!(
        ButterflyError::TextNotFound.message(),
        "Text description of a butterfly could not be extracted"
    );
    assert_eq!(
        ButterflyError::InvalidIndexButterflyNotFound.message(),
        "Index of given butterfly does not exist"
    );
    assert_eq!(
        ButterflyError::FailedToFetchHTML("http://x".to_string()).message(),
        "Failed to fetch html: http://x"
    );
    assert_eq!(ButterflyError::ImageNameUnknown.message(), "Image name unknown");
    assert_eq!(
        ButterflyError::FailedToParseCSVRecord("./butterfly.csv".to_string()).message(),
        "Failed to parse CSV record"
    );
    assert_eq!(
        ButterflyError::FileNotFound("a/b.jpg".to_string()).message(),
        "File not found: a/b.jpg"
    );
    assert_eq!(ButterflyError::FileNameUnknown.message(), "File name unknown");
    assert_eq!(
        ButterflyError::JsonFileNotFound("x.json".to_string()).message(),
        "JSON file not found: x.json"
    );
    assert_eq!(
        ButterflyError::FailedToParseJson("x.json".to_string()).message(),
        "Failed to parse JSON file: x.json"
    );
    assert_eq!(ImageLoaderError::ImageNotFound.message(), "Image not found");
    assert_eq!(ImageLoaderError::ImageNameUnknown.message(), "Image not found");
}

#[test]
fn a_single_image_has_an_address_and_a_file() {
    assert_eq!(image_address("img/a.jpg"), "http://biokite.com/worldbutterfly/img/a.jpg");
    assert_eq!(image_file_path(200, "north", Some("ａ.jpg")), Ok("images/north/a.jpg".to_string()));
    assert_eq!(image_file_path(200, "north", Some("")), Err(ImageLoaderError::ImageNameUnknown));
    assert_eq!(image_file_path(200, "north", None), Err(ImageLoaderError::ImageNameUnknown));
    assert_eq!(image_file_path(404, "north", Some("a.jpg")), Err(ImageLoaderError::ImageNotFound));
    assert_eq!(image_file_path(404, "north", None), Err(ImageLoaderError::ImageNotFound));
}
