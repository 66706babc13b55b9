use butterfly_extractor::errors::ButterflyError;
use butterfly_extractor::page::{Cell, Page, Row, Table};
use butterfly_extractor::webpage_parser::{
    add_pdf, find_category, has_pdf, names_from_lines, normalize_color, NameException, ParseRules,
    ReservedMark, WebpageParser,
};

fn empty_cell() -> Cell {
    Cell {
        colspan: None,
        bgcolor: None,
        width: None,
        has_image: false,
        img_src: None,
        href: None,
        text: String::new(),
    }
}

fn image_cell(src: &str, href: &str, bgcolor: Option<&str>) -> Cell {
    Cell {
        bgcolor: bgcolor.map(String::from),
        has_image: true,
        img_src: Some(src.to_string()),
        href: Some(href.to_string()),
        ..empty_cell()
    }
}

fn name_cell(text: &str) -> Cell {
    Cell { text: text.to_string(), ..empty_cell() }
}

fn legend_cell(text: &str, bgcolor: Option<&str>) -> Cell {
    Cell {
        colspan: Some("6".to_string()),
        bgcolor: bgcolor.map(String::from),
        text: text.to_string(),
        ..empty_cell()
    }
}

fn row(cells: Vec<Cell>) -> Row {
    Row { cells }
}

fn table(bgcolor: Option<&str>, rows: Vec<Row>) -> Table {
    Table { bgcolor: bgcolor.map(String::from), rows }
}

fn parser() -> WebpageParser {
    WebpageParser::new("old_north", "旧北区", "http://biokite.com/worldbutterfly/butterfly-PArc.htm")
}

#[test]
fn new_parser_has_plain_rules() {
    let p = parser();
    assert_eq!(p.dir_name, "old_north");
    assert_eq!(p.region, "旧北区");
    assert_eq!(p.url, "http://biokite.com/worldbutterfly/butterfly-PArc.htm");
    assert_eq!(p.rules, ParseRules::new());
    assert_eq!(p.rules.default_color, "#ffffff");
    assert_eq!(p.rules.category_marker, '科');
    assert_eq!(p.rules.reserved, None);
    assert!(p.rules.name_exceptions.is_empty());
}

#[test]
fn images_and_names_pair_in_order() {
    let page = Page {
        tables: vec![table(
            None,
            vec![
                row(vec![
                    image_cell("img/a.jpg", "pdf/a.pdf", None),
                    image_cell("img/b.jpg", "pdf/b.pdf", None),
                    image_cell("img/c.jpg", "pdf/c.pdf", None),
                ]),
                row(vec![
                    name_cell("ギフチョウ\nLuehdorfia japonica"),
                    name_cell("ヒメギフチョウ\nLuehdorfia puziloi"),
                    name_cell("ウスバシロチョウ\nParnassius glacialis"),
                ]),
            ],
        )],
    };
    let found = parser().extract(&page).unwrap();
    assert_eq!(found.butterflies.len(), 3);
    let names: Vec<(&str, &str)> = found
        .butterflies
        .iter()
        .map(|b| (b.jp_name.as_str(), b.eng_name.as_str()))
        .collect();
    assert_eq!(
        names,
        vec![
            ("ギフチョウ", "Luehdorfia japonica"),
            ("ヒメギフチョウ", "Luehdorfia puziloi"),
            ("ウスバシロチョウ", "Parnassius glacialis"),
        ]
    );
    let sources: Vec<&str> = found.butterflies.iter().map(|b| b.img_src.as_str()).collect();
    assert_eq!(sources, vec!["img/a.jpg", "img/b.jpg", "img/c.jpg"]);
}

#[test]
fn names_cross_rows_and_tables() {
    let page = Page {
        tables: vec![
            table(
                None,
                vec![row(vec![
                    image_cell("img/a.jpg", "pdf/a.pdf", None),
                    image_cell("img/b.jpg", "pdf/b.pdf", None),
                ])],
            ),
            table(
                None,
                vec![
                    row(vec![name_cell("A\nAlpha"), empty_cell()]),
                    row(vec![name_cell("  B \n Beta  \nignored")]),
                ],
            ),
        ],
    };
    let found = parser().extract(&page).unwrap();
    assert_eq!(found.butterflies.len(), 2);
    assert_eq!(found.butterflies[0].eng_name, "Alpha");
    assert_eq!(found.butterflies[1].eng_name, "Beta");
    assert_eq!(found.butterflies[1].jp_name, "Ｂ");
}

#[test]
fn unnamed_butterflies_stay_without_names() {
    let page = Page {
        tables: vec![table(
            None,
            vec![row(vec![
                image_cell("img/a.jpg", "pdf/a.pdf", None),
                image_cell("img/b.jpg", "pdf/b.pdf", None),
                name_cell("ギフチョウ\nLuehdorfia japonica"),
            ])],
        )],
    };
    let found = parser().extract(&page).unwrap();
    assert_eq!(found.butterflies.len(), 2);
    assert_eq!(found.butterflies[0].jp_name, "ギフチョウ");
    assert_eq!(found.butterflies[1].jp_name, "");
    assert_eq!(found.butterflies[1].eng_name, "");
}

#[test]
fn fresh_butterfly_has_defaults() {
    let page = Page {
        tables: vec![table(
            Some("ccffcc"),
            vec![row(vec![image_cell("img/a.jpg", "pdf/a.pdf", None)])],
        )],
    };
    let found = parser().extract(&page).unwrap();
    let b = &found.butterflies[0];
    assert_eq!(b.region, "旧北区");
    assert_eq!(b.dir_name, "old_north");
    assert_eq!(b.url, "http://biokite.com/worldbutterfly/butterfly-PArc.htm");
    assert_eq!(b.img_src, "img/a.jpg");
    assert_eq!(b.pdf_src, "pdf/a.pdf");
    assert_eq!(b.bgcolor, "#ccffcc");
    assert_eq!(b.category, "");
    assert_eq!(b.img_path, None);
    assert_eq!(b.pdf_path, "");
    assert_eq!(b.distribution, "");
    assert_eq!(b.open_length, 0);
    assert_eq!(b.diet, None);
    assert_eq!(b.remarks, None);
    assert!(b.dominant_colors.is_empty());
    assert_eq!(found.dir_name, "old_north");
    assert_eq!(found.region, "旧北区");
}

#[test]
fn legend_gives_category_by_color() {
    let page = Page {
        tables: vec![table(
            Some("#ffffff"),
            vec![
                row(vec![
                    legend_cell("■ アゲハチョウ科", Some("#ffcc99")),
                    legend_cell("■ シロチョウ科", Some("ccffff")),
                    legend_cell("no family here", Some("#000000")),
                ]),
                row(vec![
                    image_cell("img/a.jpg", "pdf/a.pdf", Some("ffcc99")),
                    image_cell("img/b.jpg", "pdf/b.pdf", Some("#ccffff")),
                    image_cell("img/c.jpg", "pdf/c.pdf", Some("#000000")),
                ]),
                row(vec![image_cell("img/d.jpg", "pdf/d.pdf", Some("#ffcc99"))]),
            ],
        )],
    };
    let found = parser().extract(&page).unwrap();
    let categories: Vec<&str> = found.butterflies.iter().map(|b| b.category.as_str()).collect();
    assert_eq!(categories, vec!["科", "科", "", "科"]);
    let colors: Vec<&str> = found.butterflies.iter().map(|b| b.bgcolor.as_str()).collect();
    assert_eq!(colors, vec!["#ffcc99", "#ccffff", "#000000", "#ffcc99"]);
}

#[test]
fn legend_label_runs_from_the_marker_to_the_end() {
    let page = Page {
        tables: vec![table(
            None,
            vec![
                row(vec![legend_cell("アゲハチョウ科 Papilionidae", Some("#ffcc99"))]),
                row(vec![image_cell("img/a.jpg", "pdf/a.pdf", Some("#ffcc99"))]),
            ],
        )],
    };
    let found = parser().extract(&page).unwrap();
    assert_eq!(found.butterflies[0].category, "科 Papilionidae");
}

#[test]
fn later_legend_row_replaces_the_category_of_its_color() {
    let page = Page {
        tables: vec![table(
            None,
            vec![
                row(vec![legend_cell("科 one", Some("#aaaaaa"))]),
                row(vec![image_cell("img/a.jpg", "pdf/a.pdf", Some("#aaaaaa"))]),
                row(vec![legend_cell("科 two", Some("#aaaaaa"))]),
                row(vec![image_cell("img/b.jpg", "pdf/b.pdf", Some("#aaaaaa"))]),
            ],
        )],
    };
    let found = parser().extract(&page).unwrap();
    assert_eq!(found.butterflies[0].category, "科 one");
    assert_eq!(found.butterflies[1].category, "科 two");
}

#[test]
fn legend_ends_with_its_table() {
    let page = Page {
        tables: vec![
            table(
                None,
                vec![
                    row(vec![legend_cell("科 one", Some("#aaaaaa"))]),
                    row(vec![image_cell("img/a.jpg", "pdf/a.pdf", Some("#aaaaaa"))]),
                ],
            ),
            table(None, vec![row(vec![image_cell("img/b.jpg", "pdf/b.pdf", Some("#aaaaaa"))])]),
        ],
    };
    let found = parser().extract(&page).unwrap();
    assert_eq!(found.butterflies[0].category, "科 one");
    assert_eq!(found.butterflies[1].category, "");
}

#[test]
fn cells_without_color_take_the_color_of_the_table() {
    let page = Page {
        tables: vec![
            table(
                Some("ffff99"),
                vec![
                    row(vec![legend_cell("科 of the table", None)]),
                    row(vec![image_cell("img/a.jpg", "pdf/a.pdf", None)]),
                ],
            ),
            table(None, vec![row(vec![image_cell("img/b.jpg", "pdf/b.pdf", None)])]),
        ],
    };
    let found = parser().extract(&page).unwrap();
    assert_eq!(found.butterflies[0].bgcolor, "#ffff99");
    assert_eq!(found.butterflies[0].category, "科 of the table");
    assert_eq!(found.butterflies[1].bgcolor, "#ffffff");
}

fn rules_with_reserved() -> ParseRules {
    ParseRules {
        reserved: Some(ReservedMark {
            color: "ffff66".to_string(),
            width: "120".to_string(),
            category: "タテハチョウ科".to_string(),
        }),
        ..ParseRules::new()
    }
}

#[test]
fn reserved_combination_opens_no_legend() {
    let p = WebpageParser::with_rules("d", "r", "u", rules_with_reserved());
    let reserved = Cell {
        colspan: Some("2".to_string()),
        bgcolor: Some("#ffff66".to_string()),
        width: Some("120".to_string()),
        has_image: true,
        img_src: Some("img/wide.jpg".to_string()),
        href: Some("pdf/wide.pdf".to_string()),
        text: String::new(),
    };
    assert!(!p.is_category_section(&row(vec![reserved.clone()])));
    let other_width = Cell { width: Some("121".to_string()), ..reserved.clone() };
    assert!(p.is_category_section(&row(vec![other_width])));
    let other_color = Cell { bgcolor: Some("#ffff67".to_string()), ..reserved.clone() };
    assert!(p.is_category_section(&row(vec![other_color])));
    let no_span = Cell { colspan: None, ..reserved.clone() };
    assert!(!p.is_category_section(&row(vec![no_span])));
    assert!(!p.is_category_section(&row(vec![])));

    let page = Page { tables: vec![table(None, vec![row(vec![reserved])])] };
    let found = p.extract(&page).unwrap();
    assert_eq!(found.butterflies.len(), 1);
    assert_eq!(found.butterflies[0].category, "タテハチョウ科");
    assert_eq!(found.butterflies[0].bgcolor, "#ffff66");
}

#[test]
fn legend_goes_before_the_category_of_the_reserved_color() {
    let p = WebpageParser::with_rules("d", "r", "u", rules_with_reserved());
    let page = Page {
        tables: vec![table(
            None,
            vec![
                row(vec![legend_cell("科 from the legend", Some("#ffff66"))]),
                row(vec![image_cell("img/a.jpg", "pdf/a.pdf", Some("#ffff66"))]),
            ],
        )],
    };
    let found = p.extract(&page).unwrap();
    assert_eq!(found.butterflies[0].category, "科 from the legend");
}

#[test]
fn image_without_source_is_an_error() {
    let broken = Cell { has_image: true, ..empty_cell() };
    let page = Page { tables: vec![table(None, vec![row(vec![broken])])] };
    assert_eq!(parser().extract(&page), Err(ButterflyError::ImageSourceNotFound));
}

#[test]
fn text_of_one_line_is_an_error() {
    let page = Page {
        tables: vec![table(
            None,
            vec![row(vec![image_cell("img/a.jpg", "pdf/a.pdf", None), name_cell("only one line")])],
        )],
    };
    assert_eq!(parser().extract(&page), Err(ButterflyError::TextNotFound));
}

#[test]
fn more_names_than_images_is_an_error() {
    let page = Page {
        tables: vec![table(
            None,
            vec![row(vec![
                image_cell("img/a.jpg", "pdf/a.pdf", None),
                name_cell("A\nAlpha"),
                name_cell("B\nBeta"),
            ])],
        )],
    };
    assert_eq!(parser().extract(&page), Err(ButterflyError::InvalidIndexButterflyNotFound));
}

#[test]
fn name_before_any_image_is_an_error() {
    let page = Page { tables: vec![table(None, vec![row(vec![name_cell("A\nAlpha")])])] };
    assert_eq!(parser().extract(&page), Err(ButterflyError::InvalidIndexButterflyNotFound));
}

#[test]
fn blank_cells_and_empty_pages_give_nothing() {
    let page = Page {
        tables: vec![table(None, vec![row(vec![name_cell(" \n\t\u{3000} "), empty_cell()])])],
    };
    let found = parser().extract(&page).unwrap();
    assert!(found.butterflies.is_empty());
    assert!(found.pdfs.is_empty());
    let nothing = parser().extract(&Page { tables: vec![] }).unwrap();
    assert!(nothing.butterflies.is_empty());
}

#[test]
fn text_in_a_legend_row_names_nobody() {
    let page = Page {
        tables: vec![table(
            None,
            vec![
                row(vec![image_cell("img/a.jpg", "pdf/a.pdf", None)]),
                row(vec![legend_cell("科", None), name_cell("A\nAlpha")]),
            ],
        )],
    };
    let found = parser().extract(&page).unwrap();
    assert_eq!(found.butterflies[0].jp_name, "");
}

#[test]
fn exceptions_go_before_lines() {
    let rules = ParseRules {
        name_exceptions: vec![
            NameException {
                text: "ヒメアカタテハ Cynthia cardui".to_string(),
                jp_name: "ヒメアカタテハ".to_string(),
                eng_name: "Cynthia cardui".to_string(),
            },
            NameException {
                text: "A\nB".to_string(),
                jp_name: "first".to_string(),
                eng_name: "entry".to_string(),
            },
            NameException {
                text: "A\nB".to_string(),
                jp_name: "second".to_string(),
                eng_name: "entry".to_string(),
            },
        ],
        ..ParseRules::new()
    };
    let p = WebpageParser::with_rules("d", "r", "u", rules);
    assert_eq!(
        p.split_names("ヒメアカタテハ Cynthia cardui"),
        Some(("ヒメアカタテハ".to_string(), "Cynthia cardui".to_string()))
    );
    assert_eq!(p.split_names("A\nB"), Some(("first".to_string(), "entry".to_string())));
    assert_eq!(p.split_names("A\nC"), Some(("A".to_string(), "C".to_string())));
    assert_eq!(p.split_names("ヒメアカタテハ Cynthia cardui "), None);

    let page = Page {
        tables: vec![table(
            None,
            vec![row(vec![
                image_cell("img/a.jpg", "pdf/a.pdf", None),
                name_cell("ヒメアカタテハ Cynthia cardui"),
            ])],
        )],
    };
    let found = p.extract(&page).unwrap();
    assert_eq!(found.butterflies[0].jp_name, "ヒメアカタテハ");
    assert_eq!(found.butterflies[0].eng_name, "Cynthia cardui");
}

#[test]
fn lines_are_split_and_trimmed() {
    assert_eq!(
        names_from_lines(" ギフチョウ \r\n\tLuehdorfia japonica\u{3000}\nrest"),
        Some(("ギフチョウ".to_string(), "Luehdorfia japonica".to_string()))
    );
    assert_eq!(names_from_lines("a\n"), Some(("a".to_string(), String::new())));
    assert_eq!(names_from_lines("\nb"), Some((String::new(), "b".to_string())));
    assert_eq!(names_from_lines("\n"), Some((String::new(), String::new())));
    assert_eq!(names_from_lines("no line break"), None);
    assert_eq!(names_from_lines(""), None);
}

#[test]
fn documents_are_listed_once() {
    let page = Page {
        tables: vec![table(
            None,
            vec![row(vec![
                image_cell("img/a.jpg", "pdf/shared.pdf", None),
                image_cell("img/b.jpg", "pdf/shared.pdf", None),
                image_cell("img/c.jpg", "pdf/other.pdf", None),
                Cell { href: None, ..image_cell("img/d.jpg", "", None) },
            ])],
        )],
    };
    let found = parser().extract(&page).unwrap();
    assert_eq!(
        found.pdfs,
        vec![
            ("pdf/shared.pdf".to_string(), "old_north".to_string()),
            ("pdf/other.pdf".to_string(), "old_north".to_string()),
            (String::new(), "old_north".to_string()),
        ]
    );
    assert_eq!(found.butterflies[0].pdf_src, "pdf/shared.pdf");
    assert_eq!(found.butterflies[1].pdf_src, "pdf/shared.pdf");
    assert_eq!(found.butterflies[3].pdf_src, "");
}

#[test]
fn colors_get_one_form() {
    assert_eq!(normalize_color("ffcc99"), "#ffcc99");
    assert_eq!(normalize_color("#ffcc99"), "#ffcc99");
    assert_eq!(normalize_color(""), "#");
    assert_eq!(normalize_color("#"), "#");
    assert_eq!(normalize_color("white"), "#white");
}

#[test]
fn last_entry_of_a_color_counts() {
    let legend = vec![
        ("#a".to_string(), "one".to_string()),
        ("#b".to_string(), "two".to_string()),
        ("#a".to_string(), "three".to_string()),
    ];
    assert_eq!(find_category(&legend, "#a"), Some(&"three".to_string()));
    assert_eq!(find_category(&legend, "#b"), Some(&"two".to_string()));
    assert_eq!(find_category(&legend, "#c"), None);
    assert_eq!(find_category(&Vec::new(), "#a"), None);
}

#[test]
fn a_document_is_added_once() {
    let mut pdfs: Vec<(String, String)> = Vec::new();
    assert!(!has_pdf(&pdfs, "a.pdf", "north"));
    add_pdf(&mut pdfs, "a.pdf", "north");
    add_pdf(&mut pdfs, "a.pdf", "south");
    add_pdf(&mut pdfs, "a.pdf", "north");
    assert_eq!(
        pdfs,
        vec![
            ("a.pdf".to_string(), "north".to_string()),
            ("a.pdf".to_string(), "south".to_string()),
        ]
    );
    assert!(has_pdf(&pdfs, "a.pdf", "south"));
    assert!(!has_pdf(&pdfs, "b.pdf", "south"));
}

#[test]
fn extraction_from_html() {
    let html = r##"<html><body>
<table bgcolor="#ffffff">
  <tr><td colspan="2" bgcolor="#ffcc99">&#9632; アゲハチョウ科</td></tr>
  <tr>
    <td bgcolor="#ffcc99"><a href="pdf/gifu.pdf"><img src="img/gifu.jpg"></a></td>
    <td bgcolor="#ffcc99"><a href="pdf/gifu.pdf"><img src="img/hime.jpg"></a></td>
  </tr>
  <tr>
    <td>ギフチョウ
Luehdorfia japonica</td>
    <td>ヒメギフチョウ
Luehdorfia puziloi</td>
  </tr>
</table>
</body></html>"##;
    let found = parser().parse_html(html).unwrap();
    assert_eq!(found.butterflies.len(), 2);
    assert_eq!(found.butterflies[0].jp_name, "ギフチョウ");
    assert_eq!(found.butterflies[0].eng_name, "Luehdorfia japonica");
    assert_eq!(found.butterflies[1].jp_name, "ヒメギフチョウ");
    assert_eq!(found.butterflies[1].eng_name, "Luehdorfia puziloi");
    assert_eq!(found.butterflies[0].category, "科");
    assert_eq!(found.butterflies[1].img_src, "img/hime.jpg");
    assert_eq!(found.pdfs, vec![("pdf/gifu.pdf".to_string(), "old_north".to_string())]);
}

#[test]
fn broken_html_gives_the_error_of_its_page() {
    let html = "<table><tr><td><img></td></tr></table>";
    assert_eq!(parser().parse_html(html), Err(ButterflyError::ImageSourceNotFound));
    let empty = parser().parse_html("").unwrap();
    assert!(empty.butterflies.is_empty());
}

#[test]
fn a_page_of_images_then_names_is_extracted_whole() {
    let count = 7;
    let mut images = Vec::new();
    let mut names = Vec::new();
    for i in 0..count {
        images.push(image_cell(&format!("img/{}.jpg", i), &format!("pdf/{}.pdf", i), None));
        names.push(name_cell(&format!("name {}\nspecies {}", i, i)));
    }
    let page = Page {
        tables: vec![
            table(None, vec![row(images)]),
            table(None, vec![row(vec![legend_cell("科", None)]), row(names)]),
        ],
    };
    let found = parser().extract(&page).unwrap();
    assert_eq!(found.butterflies.len(), count);
    for i in 0..count {
        assert_eq!(found.butterflies[i].img_src, format!("img/{}.jpg", i));
        assert_eq!(found.butterflies[i].eng_name, format!("species {}", i));
    }
    assert_eq!(found.pdfs.len(), count);
}

#[test]
fn a_later_legend_row_leaves_earlier_butterflies_alone() {
    let page = Page {
        tables: vec![table(
            None,
            vec![
                row(vec![legend_cell("科 one", Some("#aaaaaa"))]),
                row(vec![image_cell("img/a.jpg", "pdf/a.pdf", Some("#aaaaaa"))]),
                row(vec![legend_cell("科 other colour", Some("#bbbbbb"))]),
                row(vec![image_cell("img/b.jpg", "pdf/b.pdf", Some("#aaaaaa"))]),
                row(vec![legend_cell("科 two", Some("#aaaaaa"))]),
                row(vec![
                    image_cell("img/c.jpg", "pdf/c.pdf", Some("#aaaaaa")),
                    name_cell("A\nAlpha"),
                ]),
            ],
        )],
    };
    let found = parser().extract(&page).unwrap();
    let categories: Vec<&str> = found.butterflies.iter().map(|b| b.category.as_str()).collect();
    assert_eq!(categories, vec!["科 one", "科 one", "科 two"]);
    assert_eq!(found.butterflies[0].eng_name, "Alpha");
}
