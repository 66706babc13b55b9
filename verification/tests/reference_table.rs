use butterfly_extractor::butterfly::Butterfly;
use butterfly_extractor::butterfly_collector::{ButterflyCollector, Warning, WarningCause};
use butterfly_extractor::csv_data::{
    find_row, parse_csv_data, CSVData, EngName, JPName, ReferenceRow,
};
use butterfly_extractor::errors::ButterflyError;

fn fields(list: &[&str]) -> Vec<String> {
    list.iter().map(|s| s.to_string()).collect()
}

#[test]
fn a_record_gives_a_row() {
    let record = fields(&[
        "Parnassius glacialis",
        "雪渓蝶",
        "unused",
        "45",
        "日本　全土",
        "ﾑﾗｻｷｹﾏﾝ",
        "Ｎｏｔｅ１",
    ]);
    let ((jp_name, eng_name), data) = CSVData::new(&record).unwrap();
    assert_eq!(jp_name, JPName("雪渓蝶".to_string()));
    assert_eq!(eng_name, EngName("Parnassius glacialis".to_string()));
    assert_eq!(
        data,
        CSVData {
            distribution: "日本 全土".to_string(),
            open_length: 45,
            diet: Some("ムラサキケマン".to_string()),
            remarks: Some("Note1".to_string()),
        }
    );
}

#[test]
fn diet_and_remarks_may_be_missing_or_empty() {
    let short = fields(&["e", "j", "", "7", "d"]);
    let (_, data) = CSVData::new(&short).unwrap();
    assert_eq!(data.diet, None);
    assert_eq!(data.remarks, None);
    assert_eq!(data.open_length, 7);
    assert_eq!(data.distribution, "d");
    let empty = fields(&["e", "j", "", "7", "", "", ""]);
    let (_, data) = CSVData::new(&empty).unwrap();
    assert_eq!(data.diet, None);
    assert_eq!(data.remarks, None);
    assert_eq!(data.distribution, "");
    let diet_only = fields(&["e", "j", "", "7", "d", "leaf"]);
    let (_, data) = CSVData::new(&diet_only).unwrap();
    assert_eq!(data.diet, Some("leaf".to_string()));
    assert_eq!(data.remarks, None);
}

#[test]
fn a_record_without_its_required_columns_gives_no_row() {
    assert_eq!(CSVData::new(&fields(&[])), None);
    assert_eq!(CSVData::new(&fields(&["e", "j", "", "7"])), None);
    assert_eq!(CSVData::new(&fields(&["e", "j", "", "seven", "d"])), None);
    assert_eq!(CSVData::new(&fields(&["e", "j", "", "", "d"])), None);
    assert_eq!(CSVData::new(&fields(&["e", "j", "", "-7", "d"])), None);
    assert_eq!(CSVData::new(&fields(&["e", "j", "", "4294967296", "d"])), None);
}

const TABLE: &str = "eng,jp,x,span,distribution,diet,remarks\n\
Parnassius glacialis,雪渓蝶,,45,本州,ムラサキケマン,\n\
Luehdorfia japonica,ギフチョウ,,50,\"本州, 中部\",,春\n";

#[test]
fn a_table_is_read_from_text() {
    let rows = parse_csv_data(TABLE).unwrap();
    assert_eq!(rows.len(), 2);
    assert_eq!(rows[0].jp_name.0, "雪渓蝶");
    assert_eq!(rows[0].eng_name.0, "Parnassius glacialis");
    assert_eq!(rows[0].data.open_length, 45);
    assert_eq!(rows[0].data.diet, Some("ムラサキケマン".to_string()));
    assert_eq!(rows[0].data.remarks, None);
    assert_eq!(rows[1].data.distribution, "本州, 中部");
    assert_eq!(rows[1].data.remarks, Some("春".to_string()));
    assert_eq!(parse_csv_data("header,only\n"), Ok(Vec::new()));
    assert_eq!(parse_csv_data(""), Ok(Vec::new()));
}

#[test]
fn a_table_with_a_bad_record_is_refused() {
    let failure = Err(ButterflyError::FailedToParseCSVRecord("./butterfly.csv".to_string()));
    let bad_number = "eng,jp,x,span,distribution\ne,j,,many,d\n";
    assert_eq!(parse_csv_data(bad_number), failure);
    let too_short = "eng,jp,x,span\ne,j,,4\n";
    assert_eq!(parse_csv_data(too_short), failure);
    let uneven = "eng,jp,x,span,distribution\ne,j,,4,d\ne,j,,4,d,extra\n";
    assert_eq!(parse_csv_data(uneven), failure);
}

fn row(jp: &str, eng: &str, span: u32) -> ReferenceRow {
    ReferenceRow {
        jp_name: JPName(jp.to_string()),
        eng_name: EngName(eng.to_string()),
        data: CSVData {
            distribution: format!("where {} lives", eng),
            open_length: span,
            diet: Some("leaves".to_string()),
            remarks: None,
        },
    }
}

#[test]
fn the_last_row_of_a_key_counts() {
    let rows = vec![row("a", "A", 1), row("b", "B", 2), row("a", "A", 3), row("a", "B", 4)];
    assert_eq!(find_row(&rows, "a", "A").map(|d| d.open_length), Some(3));
    assert_eq!(find_row(&rows, "b", "B").map(|d| d.open_length), Some(2));
    assert_eq!(find_row(&rows, "a", "B").map(|d| d.open_length), Some(4));
    assert_eq!(find_row(&rows, "b", "A"), None);
    assert_eq!(find_row(&Vec::new(), "a", "A"), None);
}

fn named(jp: &str, eng: &str) -> Butterfly {
    let mut b = Butterfly::new("旧北区", "img/a.jpg", "pdf/a.pdf", "#ffffff", "科", "old_north", "u");
    b.jp_name = jp.to_string();
    b.eng_name = eng.to_string();
    b
}

fn collector(butterflies: Vec<Butterfly>, rows: Vec<ReferenceRow>) -> ButterflyCollector {
    ButterflyCollector {
        butterflies,
        pdfs: Vec::new(),
        csv_data_map: rows,
        region_dirs: Vec::new(),
        warnings: Vec::new(),
    }
}

#[test]
fn the_reference_table_is_joined_by_both_names() {
    let mut c = collector(
        vec![
            named("雪渓蝶", "Parnassius glacialis"),
            named("雪渓蝶", "Parnassius other"),
            named("ギフチョウ", "Luehdorfia japonica"),
        ],
        vec![row("雪渓蝶", "Parnassius glacialis", 45)],
    );
    c.fetch_csv_info();
    assert_eq!(c.butterflies[0].open_length, 45);
    assert_eq!(c.butterflies[0].distribution, "where Parnassius glacialis lives");
    assert_eq!(c.butterflies[0].diet, Some("leaves".to_string()));
    assert_eq!(c.butterflies[0].remarks, None);
    assert_eq!(c.butterflies[0].jp_name, "雪渓蝶");
    assert_eq!(c.butterflies[1].open_length, 0);
    assert_eq!(c.butterflies[1], named("雪渓蝶", "Parnassius other"));
    assert_eq!(c.butterflies[2], named("ギフチョウ", "Luehdorfia japonica"));
    assert_eq!(
        c.warnings,
        vec![
            Warning { subject: "雪渓蝶".to_string(), cause: WarningCause::ReferenceMissing },
            Warning { subject: "ギフチョウ".to_string(), cause: WarningCause::ReferenceMissing },
        ]
    );
}

#[test]
fn the_join_works_on_extracted_names() {
    let rows = parse_csv_data(TABLE).unwrap();
    let parser = butterfly_extractor::WebpageParser::new("old_north", "旧北区", "u");
    let html = "<table><tr><td><a href=\"p.pdf\"><img src=\"i.jpg\"></a></td>\
<td>雪渓蝶\nＰａｒｎａｓｓｉｕｓ glacialis</td></tr></table>";
    let found = parser.parse_html(html).unwrap();
    let mut c = ButterflyCollector::from_parse_result(vec![found], rows);
    c.fetch_csv_info();
    assert_eq!(c.butterflies[0].open_length, 45);
    assert!(c.warnings.is_empty());
}

#[test]
fn reference_data_is_taken_over() {
    let mut b = named("a", "A");
    let data = row("a", "A", 9).data;
    b.add_additional_data(&data);
    assert_eq!(b.distribution, "where A lives");
    assert_eq!(b.open_length, 9);
    assert_eq!(b.diet, Some("leaves".to_string()));
    assert_eq!(b.remarks, None);
    assert_eq!(b.jp_name, "a");
}
