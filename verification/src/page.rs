//! The table markup of a page as plain values, and its reading from HTML.
//!
//! A page is a list of top-level tables; a table is a list of rows; a row is
//! a list of cells. A cell holds what the extraction looks at: three
//! attributes, whether it shows an image and where from, the target of its
//! link, and its text. Tables nested inside a cell are not tables of the page:
//! what they show belongs to the cell that holds them.
use vstd::prelude::*;
use crate::csv_data::optional_text;

verus! {

/// Declares `scraper::Html` as a type whose inside is not looked into.
#[verifier::external_type_specification]
#[verifier::external_body]
pub struct ExHtml(scraper::Html);

/// Declares `scraper::ElementRef` as a type whose inside is not looked into.
#[verifier::external_type_specification]
#[verifier::external_body]
pub struct ExElementRef<'a>(scraper::ElementRef<'a>);

/// The document that `scraper` builds from a text.
pub uninterp spec fn parsed_document(text: Seq<char>) -> scraper::Html;

/// The root element of a document: its `html` element.
pub uninterp spec fn document_root(doc: scraper::Html) -> scraper::ElementRef<'static>;

/// The descendants of an element that match a selector with the element as
/// its scope, in document order; `None` where the text is no selector.
pub uninterp spec fn element_matches(el: scraper::ElementRef, selector: Seq<char>) -> Option<
    Seq<scraper::ElementRef<'static>>,
>;

/// The value of an attribute of an element, if it has the attribute.
pub uninterp spec fn element_attribute(el: scraper::ElementRef, name: Seq<char>) -> Option<
    Seq<char>,
>;

/// The text nodes below an element, concatenated in document order.
pub uninterp spec fn element_text(el: scraper::ElementRef) -> Seq<char>;

/// The place of an element in its document: the number that identifies its
/// node.
pub uninterp spec fn element_place(el: scraper::ElementRef) -> nat;

/// `scraper::Html::parse_document`: the document is a function of the text.
/// Parsing never fails; malformed markup is repaired as a browser would.
#[verifier::external_body]
pub(crate) fn parse_document(text: &str) -> (doc: scraper::Html)
    ensures
        doc == parsed_document(text@),
{
    scraper::Html::parse_document(text)
}

/// `scraper::Html::root_element`. It is asked of parsed documents only:
/// parsing always gives a document an `html` element, and the call fails on
/// a document without one.
#[verifier::external_body]
pub(crate) fn root_of<'a>(doc: &'a scraper::Html) -> (root: scraper::ElementRef<'a>)
    requires
        exists|text: Seq<char>| *doc == #[trigger] parsed_document(text),
    ensures
        root == document_root(*doc),
{
    doc.root_element()
}

/// `scraper::ElementRef::select` with the selector that
/// `scraper::Selector::parse` reads from the text, the matches collected in
/// order.
#[verifier::external_body]
pub(crate) fn select_in_element<'a>(el: scraper::ElementRef<'a>, selector: &str) -> (found: Option<
    Vec<scraper::ElementRef<'a>>,
>)
    ensures
        match found {
            Some(list) => element_matches(el, selector@) == Some(list@),
            None => element_matches(el, selector@) is None,
        },
{
    scraper::Selector::parse(selector).ok().map(|s| el.select(&s).collect())
}

/// `scraper::ElementRef::attr`.
#[verifier::external_body]
pub(crate) fn attribute(el: scraper::ElementRef, name: &str) -> (value: Option<String>)
    ensures
        optional_text(value) == element_attribute(el, name@),
{
    el.attr(name).map(String::from)
}

/// `scraper::ElementRef::text`, the pieces collected into one string.
#[verifier::external_body]
pub(crate) fn text_content(el: scraper::ElementRef) -> (text: String)
    ensures
        text@ == element_text(el),
{
    el.text().collect()
}

/// `ego_tree::NodeRef::id` of two elements, compared: the identifier of a
/// node is its place in the document, so two elements of one document have
/// the same place exactly when they are the same element.
#[verifier::external_body]
pub(crate) fn same_place(a: scraper::ElementRef, b: scraper::ElementRef) -> (r: bool)
    ensures
        r == (element_place(a) == element_place(b)),
{
    a.id() == b.id()
}

/// One cell of a table row.
#[derive(Debug, PartialEq, Eq, Clone)]
pub struct Cell {
    /// The cell's `colspan` attribute: the mark of a cell that spans columns.
    pub colspan: Option<String>,
    /// The cell's `bgcolor` attribute.
    pub bgcolor: Option<String>,
    /// The cell's `width` attribute.
    pub width: Option<String>,
    /// Whether the cell holds an image.
    pub has_image: bool,
    /// The `src` attribute of the cell's first image.
    pub img_src: Option<String>,
    /// The `href` attribute of the cell's first link.
    pub href: Option<String>,
    /// The text in the cell.
    pub text: String,
}

/// A cell as plain values.
#[verifier::ext_equal]
pub struct CellView {
    pub colspan: Option<Seq<char>>,
    pub bgcolor: Option<Seq<char>>,
    pub width: Option<Seq<char>>,
    pub has_image: bool,
    pub img_src: Option<Seq<char>>,
    pub href: Option<Seq<char>>,
    pub text: Seq<char>,
}

impl View for Cell {
    type V = CellView;

    open spec fn view(&self) -> CellView {
        CellView {
            colspan: optional_text(self.colspan),
            bgcolor: optional_text(self.bgcolor),
            width: optional_text(self.width),
            has_image: self.has_image,
            img_src: optional_text(self.img_src),
            href: optional_text(self.href),
            text: self.text@,
        }
    }
}

/// One row of a table.
#[derive(Debug, PartialEq, Eq, Clone)]
pub struct Row {
    pub cells: Vec<Cell>,
}

impl View for Row {
    type V = Seq<CellView>;

    open spec fn view(&self) -> Seq<CellView> {
        self.cells@.map_values(|c: Cell| c@)
    }
}

/// One top-level table of a page.
#[derive(Debug, PartialEq, Eq, Clone)]
pub struct Table {
    /// The table's `bgcolor` attribute.
    pub bgcolor: Option<String>,
    pub rows: Vec<Row>,
}

/// A table as plain values: its colour and its rows, each row as its cells.
#[verifier::ext_equal]
pub struct TableView {
    pub bgcolor: Option<Seq<char>>,
    pub rows: Seq<Seq<CellView>>,
}

impl View for Table {
    type V = TableView;

    open spec fn view(&self) -> TableView {
        TableView {
            bgcolor: optional_text(self.bgcolor),
            rows: self.rows@.map_values(|r: Row| r@),
        }
    }
}

/// The tables of a page, in document order.
#[derive(Debug, PartialEq, Eq, Clone)]
pub struct Page {
    pub tables: Vec<Table>,
}

impl View for Page {
    type V = Seq<TableView>;

    open spec fn view(&self) -> Seq<TableView> {
        self.tables@.map_values(|t: Table| t@)
    }
}

/// The matches of a selector below an element; none where the text is no
/// selector.
pub open spec fn matches_in(el: scraper::ElementRef, selector: Seq<char>) -> Seq<
    scraper::ElementRef<'static>,
> {
    match element_matches(el, selector) {
        Some(list) => list,
        None => Seq::empty(),
    }
}

/// Whether a list holds an element at the place of `el`.
pub open spec fn is_placed_among(
    list: Seq<scraper::ElementRef<'static>>,
    el: scraper::ElementRef,
) -> bool {
    exists|k: int| 0 <= k < list.len() && element_place(#[trigger] list[k]) == element_place(el)
}

/// The elements of `all` that are not among `nested`, in order.
pub open spec fn outside_of(
    all: Seq<scraper::ElementRef<'static>>,
    nested: Seq<scraper::ElementRef<'static>>,
) -> Seq<scraper::ElementRef<'static>>
    decreases all.len(),
{
    if all.len() == 0 {
        all
    } else if is_placed_among(nested, all.last()) {
        outside_of(all.drop_last(), nested)
    } else {
        outside_of(all.drop_last(), nested).push(all.last())
    }
}

/// The cell that a `td` element stands for.
pub open spec fn cell_of(el: scraper::ElementRef) -> CellView {
    let images = matches_in(el, "img"@);
    let links = matches_in(el, "a"@);
    CellView {
        colspan: element_attribute(el, "colspan"@),
        bgcolor: element_attribute(el, "bgcolor"@),
        width: element_attribute(el, "width"@),
        has_image: images.len() > 0,
        img_src: if images.len() > 0 {
            element_attribute(images[0], "src"@)
        } else {
            None
        },
        href: if links.len() > 0 {
            element_attribute(links[0], "href"@)
        } else {
            None
        },
        text: element_text(el),
    }
}

/// The `td` elements of a row that do not lie in a table nested in the row.
pub open spec fn cell_elements(row: scraper::ElementRef) -> Seq<scraper::ElementRef<'static>> {
    outside_of(matches_in(row, "td"@), matches_in(row, ":scope table td"@))
}

/// The row that a `tr` element stands for.
pub open spec fn row_of(row: scraper::ElementRef) -> Seq<CellView> {
    cell_elements(row).map_values(|c: scraper::ElementRef<'static>| cell_of(c))
}

/// The `tr` elements of a table that do not lie in a table nested in it.
pub open spec fn row_elements(table: scraper::ElementRef) -> Seq<scraper::ElementRef<'static>> {
    outside_of(matches_in(table, "tr"@), matches_in(table, ":scope table tr"@))
}

/// The table that a `table` element stands for.
pub open spec fn table_of(table: scraper::ElementRef) -> TableView {
    TableView {
        bgcolor: element_attribute(table, "bgcolor"@),
        rows: row_elements(table).map_values(|r: scraper::ElementRef<'static>| row_of(r)),
    }
}

/// The `table` elements of a document that do not lie in another table, in
/// document order.
pub open spec fn table_elements(doc: scraper::Html) -> Seq<scraper::ElementRef<'static>> {
    let root = document_root(doc);
    outside_of(matches_in(root, "table"@), matches_in(root, "table table"@))
}

/// The page that a document stands for.
pub open spec fn page_of(doc: scraper::Html) -> Seq<TableView> {
    table_elements(doc).map_values(|t: scraper::ElementRef<'static>| table_of(t))
}

/// The matches of a selector below an element.
fn select_all<'a>(el: scraper::ElementRef<'a>, selector: &str) -> (found: Vec<
    scraper::ElementRef<'a>,
>)
    ensures
        found@ == matches_in(el, selector@),
{
    match select_in_element(el, selector) {
        Some(list) => list,
        None => Vec::new(),
    }
}

/// Whether a list holds an element at the place of `el`.
fn is_among<'a>(el: scraper::ElementRef<'a>, list: &Vec<scraper::ElementRef<'a>>) -> (r: bool)
    ensures
        r == is_placed_among(list@, el),
{
    let mut i: usize = 0;
    while i < list.len()
        invariant
            i <= list.len(),
            forall|k: int| 0 <= k < i ==> element_place(#[trigger] list@[k]) != element_place(el),
        decreases list.len() - i,
    {
        if same_place(list[i], el) {
            return true;
        }
        i += 1;
    }
    false
}

/// The elements of `all` that are not among `nested`, in order.
fn keep_outside<'a>(all: Vec<scraper::ElementRef<'a>>, nested: &Vec<scraper::ElementRef<'a>>) -> (r:
    Vec<scraper::ElementRef<'a>>)
    ensures
        r@ == outside_of(all@, nested@),
{
    let mut out: Vec<scraper::ElementRef<'a>> = Vec::new();
    let mut i: usize = 0;
    assert(all@.take(0) =~= Seq::empty());
    while i < all.len()
        invariant
            i <= all.len(),
            out@ == outside_of(all@.take(i as int), nested@),
        decreases all.len() - i,
    {
        proof {
            let next = all@.take(i + 1);
            assert(next.drop_last() =~= all@.take(i as int));
            assert(next.last() == all@[i as int]);
        }
        if !is_among(all[i], nested) {
            out.push(all[i]);
        }
        i += 1;
    }
    assert(all@.take(all.len() as int) =~= all@);
    out
}

/// Reads one cell.
fn read_cell(el: scraper::ElementRef) -> (cell: Cell)
    ensures
        cell@ == cell_of(el),
{
    let images = select_all(el, "img");
    let links = select_all(el, "a");
    let has_image = images.len() > 0;
    let img_src = if has_image {
        attribute(images[0], "src")
    } else {
        None
    };
    let href = if links.len() > 0 {
        attribute(links[0], "href")
    } else {
        None
    };
    Cell {
        colspan: attribute(el, "colspan"),
        bgcolor: attribute(el, "bgcolor"),
        width: attribute(el, "width"),
        has_image,
        img_src,
        href,
        text: text_content(el),
    }
}

/// Reads the cells of one row.
fn read_row(el: scraper::ElementRef) -> (row: Row)
    ensures
        row@ == row_of(el),
{
    let nested = select_all(el, ":scope table td");
    let elements = keep_outside(select_all(el, "td"), &nested);
    let mut cells: Vec<Cell> = Vec::new();
    let mut i: usize = 0;
    while i < elements.len()
        invariant
            i <= elements.len(),
            cells.len() == i,
            forall|k: int| 0 <= k < i ==> (#[trigger] cells@[k])@ == cell_of(elements@[k]),
        decreases elements.len() - i,
    {
        cells.push(read_cell(elements[i]));
        i += 1;
    }
    let row = Row { cells };
    assert(row@ =~= row_of(el));
    row
}

/// Reads the rows of one table.
fn read_table(el: scraper::ElementRef) -> (table: Table)
    ensures
        table@ == table_of(el),
{
    let nested = select_all(el, ":scope table tr");
    let elements = keep_outside(select_all(el, "tr"), &nested);
    let mut rows: Vec<Row> = Vec::new();
    let mut i: usize = 0;
    while i < elements.len()
        invariant
            i <= elements.len(),
            rows.len() == i,
            forall|k: int| 0 <= k < i ==> (#[trigger] rows@[k])@ == row_of(elements@[k]),
        decreases elements.len() - i,
    {
        rows.push(read_row(elements[i]));
        i += 1;
    }
    let table = Table { bgcolor: attribute(el, "bgcolor"), rows };
    assert(table@.rows =~= table_of(el).rows);
    table
}

/// Reads the tables of a page from its HTML.
pub fn parse_page(html: &str) -> (page: Page)
    ensures
        page@ == page_of(parsed_document(html@)),
{
    let doc = parse_document(html);
    let root = root_of(&doc);
    let nested = select_all(root, "table table");
    let elements = keep_outside(select_all(root, "table"), &nested);
    let mut tables: Vec<Table> = Vec::new();
    let mut i: usize = 0;
    while i < elements.len()
        invariant
            i <= elements.len(),
            tables.len() == i,
            forall|k: int| 0 <= k < i ==> (#[trigger] tables@[k])@ == table_of(elements@[k]),
        decreases elements.len() - i,
    {
        tables.push(read_table(elements[i]));
        i += 1;
    }
    let page = Page { tables };
    assert(page@ =~= page_of(doc));
    page
}

} // verus!
