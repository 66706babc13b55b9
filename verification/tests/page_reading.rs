use butterfly_extractor::page::parse_page;

const SAMPLE: &str = r##"<html><body>
<table bgcolor="#ccffcc">
  <tr><td colspan="3" bgcolor="#ffcc99" width="600">Legend</td></tr>
  <tr>
    <td bgcolor="#ffcc99"><a href="pdf/a.pdf"><img src="img/a.jpg"></a></td>
    <td>Alpha<br>
Beta</td>
    <td><table><tr><td>inner one</td><td>inner two</td></tr></table></td>
  </tr>
</table>
<table><tr><td><img alt="no source"></td></tr></table>
</body></html>"##;

#[test]
fn reads_top_level_tables_only() {
    let page = parse_page(SAMPLE);
    assert_eq!(page.tables.len(), 2);
    assert_eq!(page.tables[0].bgcolor.as_deref(), Some("#ccffcc"));
    assert_eq!(page.tables[1].bgcolor, None);
}

#[test]
fn reads_rows_and_cells_outside_nested_tables() {
    let page = parse_page(SAMPLE);
    let table = &page.tables[0];
    assert_eq!(table.rows.len(), 2);
    assert_eq!(table.rows[0].cells.len(), 1);
    assert_eq!(table.rows[1].cells.len(), 3);
}

#[test]
fn reads_cell_attributes_image_link_and_text() {
    let page = parse_page(SAMPLE);
    let legend = &page.tables[0].rows[0].cells[0];
    assert_eq!(legend.colspan.as_deref(), Some("3"));
    assert_eq!(legend.bgcolor.as_deref(), Some("#ffcc99"));
    assert_eq!(legend.width.as_deref(), Some("600"));
    assert!(!legend.has_image);
    assert_eq!(legend.text, "Legend");

    let image = &page.tables[0].rows[1].cells[0];
    assert!(image.has_image);
    assert_eq!(image.img_src.as_deref(), Some("img/a.jpg"));
    assert_eq!(image.href.as_deref(), Some("pdf/a.pdf"));
    assert_eq!(image.colspan, None);

    let names = &page.tables[0].rows[1].cells[1];
    assert!(!names.has_image);
    assert_eq!(names.text, "Alpha\nBeta");

    let holder = &page.tables[0].rows[1].cells[2];
    assert_eq!(holder.text, "inner oneinner two");
}

#[test]
fn reads_image_without_source() {
    let page = parse_page(SAMPLE);
    let cell = &page.tables[1].rows[0].cells[0];
    assert!(cell.has_image);
    assert_eq!(cell.img_src, None);
    assert_eq!(cell.href, None);
}

#[test]
fn tables_come_in_the_order_of_the_document() {
    // A table that opens between the rows of an open table ends that table:
    // the two stand side by side, and the rows that follow belong to neither.
    let html = r##"<table bgcolor="#111111"><div><table bgcolor="#222222"><tr><td>in</td></tr></table></div><tr><td>out</td></tr></table><table bgcolor="#333333"><tr><td>last</td></tr></table>"##;
    let page = parse_page(html);
    let colors: Vec<Option<&str>> = page.tables.iter().map(|t| t.bgcolor.as_deref()).collect();
    assert_eq!(colors, vec![Some("#111111"), Some("#222222"), Some("#333333")]);
    assert!(page.tables[0].rows.is_empty());
    assert_eq!(page.tables[1].rows[0].cells[0].text, "in");
    assert_eq!(page.tables[2].rows[0].cells[0].text, "last");
}

#[test]
fn a_text_without_markup_is_a_page_without_tables() {
    assert!(parse_page("").tables.is_empty());
    assert!(parse_page("no tables here").tables.is_empty());
}
