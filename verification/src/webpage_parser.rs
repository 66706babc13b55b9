//! Extraction of butterflies from the tables of one page.
//!
//! A page is walked table by table, row by row, cell by cell. A table has a
//! colour of its own. A row with a cell that spans columns is a legend row: it
//! names the category that a colour stands for in the rest of its table. Any
//! other row is a content row: a cell with an image starts a butterfly, and a
//! cell with text names the oldest butterfly of the page that has not been
//! named yet.
use vstd::prelude::*;
use vstd::string::StringExecFns;
use crate::butterfly::{butterfly_views, Butterfly, ButterflyView};
use crate::butterfly_collector::documents_of;
use crate::documents::{
    law_page_documents_are_derived, law_page_lists_documents_once, lists_documents,
};
use crate::errors::{ButterflyError, ButterflyErrorView};
use crate::page::{
    page_of, parse_page, parsed_document, Cell, CellView, Page, Row, Table, TableView,
};
use crate::pairing::{law_names_follow_images, page_image_cells, page_name_cells, paired};
use crate::shape::{law_extraction_succeeds_when_shaped, well_shaped};
use crate::text::{
    blank, chars_of, find_char, index_of, is_blank, string_of, trim, trimmed,
};

verus! {

/// A cell text that is known not to follow the layout of two lines, with the
/// names it stands for.
#[derive(Debug, PartialEq, Eq, Clone)]
pub struct NameException {
    /// The whole text of the cell.
    pub text: String,
    /// The Japanese name it stands for.
    pub jp_name: String,
    /// The English name it stands for.
    pub eng_name: String,
}

/// An exception as plain values.
#[verifier::ext_equal]
pub struct NameExceptionView {
    pub text: Seq<char>,
    pub jp_name: Seq<char>,
    pub eng_name: Seq<char>,
}

impl View for NameException {
    type V = NameExceptionView;

    open spec fn view(&self) -> NameExceptionView {
        NameExceptionView { text: self.text@, jp_name: self.jp_name@, eng_name: self.eng_name@ }
    }
}

/// The one combination of colour and width that marks a cell which spans
/// columns and still opens no legend, with the category that the colour
/// stands for where no legend names one.
#[derive(Debug, PartialEq, Eq, Clone)]
pub struct ReservedMark {
    pub color: String,
    pub width: String,
    pub category: String,
}

/// The reserved combination as plain values.
#[verifier::ext_equal]
pub struct ReservedMarkView {
    pub color: Seq<char>,
    pub width: Seq<char>,
    pub category: Seq<char>,
}

impl View for ReservedMark {
    type V = ReservedMarkView;

    open spec fn view(&self) -> ReservedMarkView {
        ReservedMarkView { color: self.color@, width: self.width@, category: self.category@ }
    }
}

/// What the extraction knows of the site's markup.
#[derive(Debug, PartialEq, Eq, Clone)]
pub struct ParseRules {
    /// The colour of a table that names none.
    pub default_color: String,
    /// The character at which the category starts in the text of a legend
    /// cell.
    pub category_marker: char,
    /// The reserved combination, if the site has one.
    pub reserved: Option<ReservedMark>,
    /// The cell texts with names of their own.
    pub name_exceptions: Vec<NameException>,
}

/// The rules as plain values.
#[verifier::ext_equal]
pub struct ParseRulesView {
    pub default_color: Seq<char>,
    pub category_marker: char,
    pub reserved: Option<ReservedMarkView>,
    pub name_exceptions: Seq<NameExceptionView>,
}

impl View for ParseRules {
    type V = ParseRulesView;

    open spec fn view(&self) -> ParseRulesView {
        ParseRulesView {
            default_color: self.default_color@,
            category_marker: self.category_marker,
            reserved: match self.reserved {
                Some(m) => Some(m@),
                None => None,
            },
            name_exceptions: self.name_exceptions@.map_values(|e: NameException| e@),
        }
    }
}

impl ParseRulesView {
    /// The rules of a site without a reserved combination and without
    /// exceptions: tables are white unless they say otherwise, and a category
    /// starts at the character for a family, U+79D1.
    pub open spec fn plain() -> ParseRulesView {
        ParseRulesView {
            default_color: "#ffffff"@,
            category_marker: '\u{79d1}',
            reserved: None,
            name_exceptions: Seq::empty(),
        }
    }
}

impl ParseRules {
    /// The rules of a site without a reserved combination and without
    /// exceptions.
    pub fn new() -> (r: ParseRules)
        ensures
            r@ == ParseRulesView::plain(),
    {
        let r = ParseRules {
            default_color: String::from_str("#ffffff"),
            category_marker: '\u{79d1}',
            reserved: None,
            name_exceptions: Vec::new(),
        };
        assert(r@.name_exceptions =~= Seq::empty());
        r
    }
}

/// Parser of one page of the site.
#[derive(Debug, PartialEq, Eq, Clone)]
pub struct WebpageParser {
    /// Directory used to store assets
    pub dir_name: String,
    /// Name of the region
    pub region: String,
    /// Url of region page
    pub url: String,
    /// What is known of the page's markup
    pub rules: ParseRules,
}

/// A parser as plain values.
#[verifier::ext_equal]
pub struct WebpageParserView {
    pub dir_name: Seq<char>,
    pub region: Seq<char>,
    pub url: Seq<char>,
    pub rules: ParseRulesView,
}

impl View for WebpageParser {
    type V = WebpageParserView;

    open spec fn view(&self) -> WebpageParserView {
        WebpageParserView {
            dir_name: self.dir_name@,
            region: self.region@,
            url: self.url@,
            rules: self.rules@,
        }
    }
}

/// What was found on one page.
#[derive(Debug, PartialEq, Eq, Clone)]
pub struct WebpageParseResult {
    /// Directory used to store assets
    pub dir_name: String,
    /// Name of the region
    pub region: String,
    /// Url of region page
    pub url: String,
    /// The butterflies, in the order of their images on the page
    pub butterflies: Vec<Butterfly>,
    /// The documents that the page links to, each with the directory of its
    /// region, none of them twice
    pub pdfs: Vec<(String, String)>,
}

/// What was found on a page, as plain values.
#[verifier::ext_equal]
pub struct WebpageParseResultView {
    pub dir_name: Seq<char>,
    pub region: Seq<char>,
    pub url: Seq<char>,
    pub butterflies: Seq<ButterflyView>,
    pub pdfs: Seq<(Seq<char>, Seq<char>)>,
}

impl View for WebpageParseResult {
    type V = WebpageParseResultView;

    open spec fn view(&self) -> WebpageParseResultView {
        WebpageParseResultView {
            dir_name: self.dir_name@,
            region: self.region@,
            url: self.url@,
            butterflies: butterfly_views(self.butterflies@),
            pdfs: pdf_views(self.pdfs@),
        }
    }
}

/// The views of a list of documents.
pub open spec fn pdf_views(list: Seq<(String, String)>) -> Seq<(Seq<char>, Seq<char>)> {
    list.map_values(|p: (String, String)| (p.0@, p.1@))
}

/// A colour in its one stored form: with a leading `#`.
pub open spec fn color_token(s: Seq<char>) -> Seq<char> {
    if s.len() > 0 && s[0] == '#' {
        s
    } else {
        seq!['#'] + s
    }
}

/// The colour of a table: its own, or the default.
pub open spec fn table_color(bgcolor: Option<Seq<char>>, rules: ParseRulesView) -> Seq<char> {
    match bgcolor {
        Some(c) => color_token(c),
        None => color_token(rules.default_color),
    }
}

/// The colour of a cell: its own, or that of its table.
pub open spec fn cell_color(cell: CellView, table_color: Seq<char>) -> Seq<char> {
    match cell.bgcolor {
        Some(c) => color_token(c),
        None => table_color,
    }
}

/// Whether a cell carries the reserved combination of colour and width.
pub open spec fn is_reserved(cell: CellView, rules: ParseRulesView) -> bool {
    match rules.reserved {
        Some(m) => cell.bgcolor is Some && color_token(cell.bgcolor->0) == color_token(m.color)
            && cell.width == Some(m.width),
        None => false,
    }
}

/// Whether a cell marks its row as a legend row: it spans columns and does
/// not carry the reserved combination.
pub open spec fn is_legend_marker(cell: CellView, rules: ParseRulesView) -> bool {
    cell.colspan is Some && !is_reserved(cell, rules)
}

/// Whether a row is a legend row.
pub open spec fn is_legend_row(row: Seq<CellView>, rules: ParseRulesView) -> bool {
    exists|i: int| 0 <= i < row.len() && is_legend_marker(#[trigger] row[i], rules)
}

/// The category that a legend gives for a colour: that of its last entry for
/// the colour.
pub open spec fn legend_lookup(legend: Seq<(Seq<char>, Seq<char>)>, color: Seq<char>) -> Option<
    Seq<char>,
>
    decreases legend.len(),
{
    if legend.len() == 0 {
        None
    } else if legend.last().0 == color {
        Some(legend.last().1)
    } else {
        legend_lookup(legend.drop_last(), color)
    }
}

/// Whether the text of a legend cell names a category.
pub open spec fn names_category(text: Seq<char>, marker: char) -> bool {
    index_of(text, marker, 0) < text.len()
}

/// The category in the text of a legend cell: the text from the first marker
/// on.
pub open spec fn legend_label(text: Seq<char>, marker: char) -> Seq<char> {
    text.subrange(index_of(text, marker, 0), text.len() as int)
}

/// The legend after one cell of a legend row.
pub open spec fn legend_cell(
    legend: Seq<(Seq<char>, Seq<char>)>,
    cell: CellView,
    table_color: Seq<char>,
    rules: ParseRulesView,
) -> Seq<(Seq<char>, Seq<char>)> {
    if names_category(cell.text, rules.category_marker) {
        legend.push(
            (cell_color(cell, table_color), legend_label(cell.text, rules.category_marker)),
        )
    } else {
        legend
    }
}

/// The legend after the cells of a legend row, taken from left to right.
pub open spec fn after_legend_cells(
    legend: Seq<(Seq<char>, Seq<char>)>,
    cells: Seq<CellView>,
    table_color: Seq<char>,
    rules: ParseRulesView,
) -> Seq<(Seq<char>, Seq<char>)>
    decreases cells.len(),
{
    if cells.len() == 0 {
        legend
    } else {
        after_legend_cells(
            legend_cell(legend, cells[0], table_color, rules),
            cells.drop_first(),
            table_color,
            rules,
        )
    }
}

/// The category of a colour: what the legend says; without an entry, the
/// category of the reserved colour for that colour and no category for any
/// other.
pub open spec fn category_for(
    legend: Seq<(Seq<char>, Seq<char>)>,
    color: Seq<char>,
    rules: ParseRulesView,
) -> Seq<char> {
    match legend_lookup(legend, color) {
        Some(label) => label,
        None => match rules.reserved {
            Some(m) => if color == color_token(m.color) {
                m.category
            } else {
                Seq::empty()
            },
            None => Seq::empty(),
        },
    }
}

/// The names of the first exception whose text is the given text.
pub open spec fn exception_for(exceptions: Seq<NameExceptionView>, text: Seq<char>) -> Option<
    (Seq<char>, Seq<char>),
>
    decreases exceptions.len(),
{
    if exceptions.len() == 0 {
        None
    } else if exceptions[0].text == text {
        Some((exceptions[0].jp_name, exceptions[0].eng_name))
    } else {
        exception_for(exceptions.drop_first(), text)
    }
}

/// The names in a text of at least two lines: its first line and its second,
/// each without the white space around it.
pub open spec fn line_names(text: Seq<char>) -> Option<(Seq<char>, Seq<char>)> {
    let first_end = index_of(text, '\n', 0);
    if first_end >= text.len() {
        None
    } else {
        let second_end = index_of(text, '\n', first_end + 1);
        Some(
            (
                trimmed(text.subrange(0, first_end)),
                trimmed(text.subrange(first_end + 1, second_end)),
            ),
        )
    }
}

/// The Japanese and the English name in the text of a cell: those of an
/// exception where the whole text is one, else those of its first two lines.
pub open spec fn split_names(text: Seq<char>, exceptions: Seq<NameExceptionView>) -> Option<
    (Seq<char>, Seq<char>),
> {
    match exception_for(exceptions, text) {
        Some(names) => Some(names),
        None => line_names(text),
    }
}

/// What has been gathered from a page so far.
#[verifier::ext_equal]
pub struct Extraction {
    /// The butterflies, in the order of their images.
    pub butterflies: Seq<ButterflyView>,
    /// The documents linked so far, none of them twice.
    pub pdfs: Seq<(Seq<char>, Seq<char>)>,
    /// How many butterflies have been named: the next text cell names the
    /// butterfly at this index.
    pub named: nat,
}

impl Extraction {
    /// Nothing gathered yet.
    pub open spec fn start() -> Extraction {
        Extraction { butterflies: Seq::empty(), pdfs: Seq::empty(), named: 0 }
    }
}

/// A list of documents with one more, unless it is there already.
pub open spec fn with_pdf(pdfs: Seq<(Seq<char>, Seq<char>)>, pdf: (Seq<char>, Seq<char>)) -> Seq<
    (Seq<char>, Seq<char>),
> {
    if pdfs.contains(pdf) {
        pdfs
    } else {
        pdfs.push(pdf)
    }
}

/// The locator of the document of an image cell: the target of its link, or
/// the empty text where it has no link.
pub open spec fn locator_of(cell: CellView) -> Seq<char> {
    match cell.href {
        Some(h) => h,
        None => Seq::empty(),
    }
}

/// The butterfly that an image cell starts.
pub open spec fn butterfly_of(
    parser: WebpageParserView,
    table_color: Seq<char>,
    legend: Seq<(Seq<char>, Seq<char>)>,
    cell: CellView,
) -> ButterflyView {
    let color = cell_color(cell, table_color);
    ButterflyView::fresh(
        parser.region,
        cell.img_src->0,
        locator_of(cell),
        color,
        category_for(legend, color, parser.rules),
        parser.dir_name,
        parser.url,
    )
}

/// What one cell of a content row adds.
///
/// A cell with an image starts a butterfly and lists the butterfly's
/// document, which is the locator of the cell with the parser's directory; an
/// image without source is an error. A cell without image whose text is not blank
/// names the next butterfly; a text without names is an error, and so is a
/// text when every butterfly has its names. Any other cell adds nothing.
pub open spec fn content_cell(
    parser: WebpageParserView,
    table_color: Seq<char>,
    legend: Seq<(Seq<char>, Seq<char>)>,
    st: Extraction,
    cell: CellView,
) -> Result<Extraction, ButterflyErrorView> {
    if cell.has_image {
        if cell.img_src is None {
            Err(ButterflyErrorView::ImageSourceNotFound)
        } else {
            Ok(
                Extraction {
                    butterflies: st.butterflies.push(
                        butterfly_of(parser, table_color, legend, cell),
                    ),
                    pdfs: with_pdf(st.pdfs, (locator_of(cell), parser.dir_name)),
                    named: st.named,
                },
            )
        }
    } else if !is_blank(cell.text) {
        match split_names(cell.text, parser.rules.name_exceptions) {
            None => Err(ButterflyErrorView::TextNotFound),
            Some(names) => if st.named >= st.butterflies.len() {
                Err(ButterflyErrorView::InvalidIndexButterflyNotFound)
            } else {
                Ok(
                    Extraction {
                        butterflies: st.butterflies.update(
                            st.named as int,
                            st.butterflies[st.named as int].named(names.0, names.1),
                        ),
                        pdfs: st.pdfs,
                        named: st.named + 1,
                    },
                )
            },
        }
    } else {
        Ok(st)
    }
}

/// What the cells of a content row add, taken from left to right; the first
/// error ends the walk.
pub open spec fn after_content_cells(
    parser: WebpageParserView,
    table_color: Seq<char>,
    legend: Seq<(Seq<char>, Seq<char>)>,
    st: Extraction,
    cells: Seq<CellView>,
) -> Result<Extraction, ButterflyErrorView>
    decreases cells.len(),
{
    if cells.len() == 0 {
        Ok(st)
    } else {
        match content_cell(parser, table_color, legend, st, cells[0]) {
            Ok(next) => after_content_cells(parser, table_color, legend, next, cells.drop_first()),
            Err(e) => Err(e),
        }
    }
}

/// The walk through one table: the legend of the table and what has been
/// gathered from the page.
#[verifier::ext_equal]
pub struct TableProgress {
    pub legend: Seq<(Seq<char>, Seq<char>)>,
    pub gathered: Extraction,
}

/// What one row adds: a legend row extends the legend, a content row extends
/// what has been gathered.
pub open spec fn row_step(
    parser: WebpageParserView,
    table_color: Seq<char>,
    progress: TableProgress,
    row: Seq<CellView>,
) -> Result<TableProgress, ButterflyErrorView> {
    if is_legend_row(row, parser.rules) {
        Ok(
            TableProgress {
                legend: after_legend_cells(progress.legend, row, table_color, parser.rules),
                gathered: progress.gathered,
            },
        )
    } else {
        match after_content_cells(parser, table_color, progress.legend, progress.gathered, row) {
            Ok(st) => Ok(TableProgress { legend: progress.legend, gathered: st }),
            Err(e) => Err(e),
        }
    }
}

/// What the rows of a table add, taken from top to bottom.
pub open spec fn after_rows(
    parser: WebpageParserView,
    table_color: Seq<char>,
    progress: TableProgress,
    rows: Seq<Seq<CellView>>,
) -> Result<TableProgress, ButterflyErrorView>
    decreases rows.len(),
{
    if rows.len() == 0 {
        Ok(progress)
    } else {
        match row_step(parser, table_color, progress, rows[0]) {
            Ok(next) => after_rows(parser, table_color, next, rows.drop_first()),
            Err(e) => Err(e),
        }
    }
}

/// What one table adds: its rows, walked with the table's colour and a legend
/// that starts empty.
pub open spec fn table_step(parser: WebpageParserView, st: Extraction, table: TableView) -> Result<
    Extraction,
    ButterflyErrorView,
> {
    match after_rows(
        parser,
        table_color(table.bgcolor, parser.rules),
        TableProgress { legend: Seq::empty(), gathered: st },
        table.rows,
    ) {
        Ok(progress) => Ok(progress.gathered),
        Err(e) => Err(e),
    }
}

/// What the tables of a page add, taken in document order.
pub open spec fn after_tables(parser: WebpageParserView, st: Extraction, tables: Seq<TableView>)
    -> Result<Extraction, ButterflyErrorView>
    decreases tables.len(),
{
    if tables.len() == 0 {
        Ok(st)
    } else {
        match table_step(parser, st, tables[0]) {
            Ok(next) => after_tables(parser, next, tables.drop_first()),
            Err(e) => Err(e),
        }
    }
}

/// What a page holds.
pub open spec fn extraction(parser: WebpageParserView, page: Seq<TableView>) -> Result<
    Extraction,
    ButterflyErrorView,
> {
    after_tables(parser, Extraction::start(), page)
}

/// Brings a colour to its stored form.
pub fn normalize_color(color: &str) -> (r: String)
    ensures
        r@ == color_token(color@),
{
    let v = chars_of(color);
    if v.len() > 0 && v[0] == '#' {
        String::from_str(color)
    } else {
        let mut out = String::new();
        out.push('#');
        out.append(color);
        assert(out@ =~= seq!['#'] + color@);
        out
    }
}

/// The category that a legend gives for a colour.
pub fn find_category<'a>(legend: &'a Vec<(String, String)>, color: &str) -> (r: Option<&'a String>)
    ensures
        match r {
            Some(label) => legend_lookup(pdf_views(legend@), color@) == Some(label@),
            None => legend_lookup(pdf_views(legend@), color@) is None,
        },
{
    let mut i: usize = legend.len();
    assert(pdf_views(legend@).take(i as int) =~= pdf_views(legend@));
    while i > 0
        invariant
            i <= legend.len(),
            legend_lookup(pdf_views(legend@), color@) == legend_lookup(
                pdf_views(legend@).take(i as int),
                color@,
            ),
        decreases i,
    {
        let entry = &legend[i - 1];
        proof {
            let prefix = pdf_views(legend@).take(i as int);
            assert(prefix.last() == (entry.0@, entry.1@));
            assert(prefix.drop_last() =~= pdf_views(legend@).take(i - 1));
        }
        if *entry.0.as_str() == *color {
            return Some(&entry.1);
        }
        i -= 1;
    }
    None
}

/// The names in a text of at least two lines.
pub fn names_from_lines(text: &str) -> (r: Option<(String, String)>)
    ensures
        match r {
            Some((jp_name, eng_name)) => line_names(text@) == Some((jp_name@, eng_name@)),
            None => line_names(text@) is None,
        },
{
    let v = chars_of(text);
    let first_end = find_char(&v, '\n', 0);
    if first_end >= v.len() {
        None
    } else {
        let second_end = find_char(&v, '\n', first_end + 1);
        let first = string_of(&v, 0, first_end);
        let second = string_of(&v, first_end + 1, second_end);
        Some((trim(first.as_str()), trim(second.as_str())))
    }
}

/// What has been gathered from a page so far.
struct Harvest {
    butterflies: Vec<Butterfly>,
    pdfs: Vec<(String, String)>,
    named: usize,
}

impl View for Harvest {
    type V = Extraction;

    closed spec fn view(&self) -> Extraction {
        Extraction {
            butterflies: butterfly_views(self.butterflies@),
            pdfs: pdf_views(self.pdfs@),
            named: self.named as nat,
        }
    }
}

/// Whether a document is in a list.
pub fn has_pdf(pdfs: &Vec<(String, String)>, pdf_src: &str, dir_name: &str) -> (r: bool)
    ensures
        r == pdf_views(pdfs@).contains((pdf_src@, dir_name@)),
{
    let mut i: usize = 0;
    while i < pdfs.len()
        invariant
            i <= pdfs.len(),
            forall|k: int| 0 <= k < i ==> pdf_views(pdfs@)[k] != (pdf_src@, dir_name@),
        decreases pdfs.len() - i,
    {
        let entry = &pdfs[i];
        assert(pdf_views(pdfs@)[i as int] == (entry.0@, entry.1@));
        if *entry.0.as_str() == *pdf_src && *entry.1.as_str() == *dir_name {
            return true;
        }
        i += 1;
    }
    false
}

/// Adds a document to a list unless it is there already.
pub fn add_pdf(pdfs: &mut Vec<(String, String)>, pdf_src: &str, dir_name: &str)
    ensures
        pdf_views(final(pdfs)@) == with_pdf(pdf_views(old(pdfs)@), (pdf_src@, dir_name@)),
{
    if !has_pdf(pdfs, pdf_src, dir_name) {
        let ghost before = pdf_views(pdfs@);
        pdfs.push((String::from_str(pdf_src), String::from_str(dir_name)));
        assert(pdf_views(pdfs@) =~= before.push((pdf_src@, dir_name@)));
    }
}

impl WebpageParser {
    /// A parser for the page at `url`, whose butterflies belong to `region`
    /// and whose assets go to the directory `dir_name`, with the rules of a
    /// site without a reserved combination and without exceptions.
    pub fn new(dir_name: &str, region: &str, url: &str) -> (r: WebpageParser)
        ensures
            r@.dir_name == dir_name@,
            r@.region == region@,
            r@.url == url@,
            r@.rules == ParseRulesView::plain(),
    {
        WebpageParser {
            dir_name: String::from_str(dir_name),
            region: String::from_str(region),
            url: String::from_str(url),
            rules: ParseRules::new(),
        }
    }

    /// A parser with rules of its own.
    pub fn with_rules(dir_name: &str, region: &str, url: &str, rules: ParseRules) -> (r:
        WebpageParser)
        ensures
            r@.dir_name == dir_name@,
            r@.region == region@,
            r@.url == url@,
            r@.rules == rules@,
    {
        WebpageParser {
            dir_name: String::from_str(dir_name),
            region: String::from_str(region),
            url: String::from_str(url),
            rules,
        }
    }

    /// The Japanese and the English name in the text of a cell.
    pub fn split_names(&self, text: &str) -> (r: Option<(String, String)>)
        ensures
            match r {
                Some((jp_name, eng_name)) => split_names(text@, self@.rules.name_exceptions)
                    == Some((jp_name@, eng_name@)),
                None => split_names(text@, self@.rules.name_exceptions) is None,
            },
    {
        let exceptions = &self.rules.name_exceptions;
        let ghost all = self@.rules.name_exceptions;
        let mut i: usize = 0;
        assert(all.skip(0) =~= all);
        while i < exceptions.len()
            invariant
                i <= exceptions.len(),
                all == exceptions@.map_values(|e: NameException| e@),
                all == self@.rules.name_exceptions,
                exception_for(all, text@) == exception_for(all.skip(i as int), text@),
            decreases exceptions.len() - i,
        {
            let entry = &exceptions[i];
            proof {
                assert(all.skip(i as int)[0] == entry@);
                assert(all.skip(i as int).drop_first() =~= all.skip(i + 1));
            }
            if *entry.text.as_str() == *text {
                return Some((entry.jp_name.clone(), entry.eng_name.clone()));
            }
            i += 1;
        }
        names_from_lines(text)
    }

    /// Whether a cell carries the reserved combination.
    fn cell_is_reserved(&self, cell: &Cell) -> (r: bool)
        ensures
            r == is_reserved(cell@, self@.rules),
    {
        match &self.rules.reserved {
            Some(mark) => match (&cell.bgcolor, &cell.width) {
                (Some(color), Some(width)) => {
                    let own = normalize_color(color.as_str());
                    let reserved = normalize_color(mark.color.as_str());
                    *own.as_str() == *reserved.as_str() && *width.as_str() == *mark.width.as_str()
                },
                _ => false,
            },
            None => false,
        }
    }

    /// Whether a row is a legend row.
    pub fn is_category_section(&self, row: &Row) -> (r: bool)
        ensures
            r == is_legend_row(row@, self@.rules),
    {
        let mut i: usize = 0;
        while i < row.cells.len()
            invariant
                i <= row.cells.len(),
                forall|k: int| 0 <= k < i ==> !is_legend_marker(#[trigger] row@[k], self@.rules),
            decreases row.cells.len() - i,
        {
            let cell = &row.cells[i];
            assert(row@[i as int] == cell@);
            if cell.colspan.is_some() && !self.cell_is_reserved(cell) {
                return true;
            }
            i += 1;
        }
        false
    }

    /// The colour of a table.
    fn color_of_table(&self, table: &Table) -> (r: String)
        ensures
            r@ == table_color(table@.bgcolor, self@.rules),
    {
        match &table.bgcolor {
            Some(c) => normalize_color(c.as_str()),
            None => normalize_color(self.rules.default_color.as_str()),
        }
    }

    /// The colour of a cell in a table of the given colour.
    fn color_of_cell(&self, cell: &Cell, table_color: &str) -> (r: String)
        ensures
            r@ == cell_color(cell@, table_color@),
    {
        match &cell.bgcolor {
            Some(c) => normalize_color(c.as_str()),
            None => String::from_str(table_color),
        }
    }

    /// The category of a colour.
    fn category_of(&self, legend: &Vec<(String, String)>, color: &str) -> (r: String)
        ensures
            r@ == category_for(pdf_views(legend@), color@, self@.rules),
    {
        match find_category(legend, color) {
            Some(label) => label.clone(),
            None => match &self.rules.reserved {
                Some(mark) => {
                    let reserved = normalize_color(mark.color.as_str());
                    if *reserved.as_str() == *color {
                        mark.category.clone()
                    } else {
                        String::new()
                    }
                },
                None => String::new(),
            },
        }
    }

    /// Takes the cells of a legend row into the legend.
    fn read_legend_row(&self, legend: &mut Vec<(String, String)>, row: &Row, table_color: &str)
        ensures
            pdf_views(final(legend)@) == after_legend_cells(
                pdf_views(old(legend)@),
                row@,
                table_color@,
                self@.rules,
            ),
    {
        let mut i: usize = 0;
        assert(row@.skip(0) =~= row@);
        while i < row.cells.len()
            invariant
                i <= row.cells.len(),
                after_legend_cells(pdf_views(old(legend)@), row@, table_color@, self@.rules)
                    == after_legend_cells(
                    pdf_views(legend@),
                    row@.skip(i as int),
                    table_color@,
                    self@.rules,
                ),
            decreases row.cells.len() - i,
        {
            let cell = &row.cells[i];
            proof {
                assert(row@.skip(i as int)[0] == cell@);
                assert(row@.skip(i as int).drop_first() =~= row@.skip(i + 1));
            }
            let v = chars_of(cell.text.as_str());
            let at = find_char(&v, self.rules.category_marker, 0);
            if at < v.len() {
                let color = self.color_of_cell(cell, table_color);
                let label = string_of(&v, at, v.len());
                let ghost before = pdf_views(legend@);
                legend.push((color, label));
                assert(pdf_views(legend@) =~= before.push(
                    (
                        cell_color(cell@, table_color@),
                        legend_label(cell@.text, self@.rules.category_marker),
                    ),
                ));
            }
            i += 1;
        }
    }

    /// Takes one cell of a content row into what has been gathered.
    fn read_content_cell(
        &self,
        st: &mut Harvest,
        legend: &Vec<(String, String)>,
        cell: &Cell,
        table_color: &str,
    ) -> (r: Result<(), ButterflyError>)
        ensures
            match r {
                Ok(_) => content_cell(self@, table_color@, pdf_views(legend@), old(st)@, cell@)
                    == Ok::<Extraction, ButterflyErrorView>(final(st)@),
                Err(e) => content_cell(self@, table_color@, pdf_views(legend@), old(st)@, cell@)
                    == Err::<Extraction, ButterflyErrorView>(e@),
            },
    {
        if cell.has_image {
            let img_src = match &cell.img_src {
                Some(src) => src,
                None => {
                    return Err(ButterflyError::ImageSourceNotFound);
                },
            };
            let color = self.color_of_cell(cell, table_color);
            let category = self.category_of(legend, color.as_str());
            let ghost before = st@;
            proof {
                reveal_strlit("");
                assert(""@ =~= Seq::<char>::empty());
            }
            let pdf_src: &str = match &cell.href {
                Some(href) => href.as_str(),
                None => "",
            };
            add_pdf(&mut st.pdfs, pdf_src, self.dir_name.as_str());
            let butterfly = Butterfly::new(
                self.region.as_str(),
                img_src.as_str(),
                pdf_src,
                color.as_str(),
                category.as_str(),
                self.dir_name.as_str(),
                self.url.as_str(),
            );
            st.butterflies.push(butterfly);
            assert(st@.butterflies =~= before.butterflies.push(
                butterfly_of(self@, table_color@, pdf_views(legend@), cell@),
            ));
            Ok(())
        } else if !blank(cell.text.as_str()) {
            let (jp_name, eng_name) = match self.split_names(cell.text.as_str()) {
                Some(names) => names,
                None => {
                    return Err(ButterflyError::TextNotFound);
                },
            };
            if st.named >= st.butterflies.len() {
                return Err(ButterflyError::InvalidIndexButterflyNotFound);
            }
            let ghost before = st@;
            let at = st.named;
            st.butterflies[at].add_names(jp_name.as_str(), eng_name.as_str());
            st.named = at + 1;
            assert(st@.butterflies =~= before.butterflies.update(
                at as int,
                before.butterflies[at as int].named(jp_name@, eng_name@),
            ));
            Ok(())
        } else {
            Ok(())
        }
    }

    /// Takes the cells of a content row into what has been gathered.
    fn read_content_row(
        &self,
        st: &mut Harvest,
        legend: &Vec<(String, String)>,
        row: &Row,
        table_color: &str,
    ) -> (r: Result<(), ButterflyError>)
        ensures
            match r {
                Ok(_) => after_content_cells(
                    self@,
                    table_color@,
                    pdf_views(legend@),
                    old(st)@,
                    row@,
                ) == Ok::<Extraction, ButterflyErrorView>(final(st)@),
                Err(e) => after_content_cells(
                    self@,
                    table_color@,
                    pdf_views(legend@),
                    old(st)@,
                    row@,
                ) == Err::<Extraction, ButterflyErrorView>(e@),
            },
    {
        let mut i: usize = 0;
        assert(row@.skip(0) =~= row@);
        while i < row.cells.len()
            invariant
                i <= row.cells.len(),
                after_content_cells(self@, table_color@, pdf_views(legend@), old(st)@, row@)
                    == after_content_cells(
                    self@,
                    table_color@,
                    pdf_views(legend@),
                    st@,
                    row@.skip(i as int),
                ),
            decreases row.cells.len() - i,
        {
            let cell = &row.cells[i];
            proof {
                assert(row@.skip(i as int)[0] == cell@);
                assert(row@.skip(i as int).drop_first() =~= row@.skip(i + 1));
            }
            match self.read_content_cell(st, legend, cell, table_color) {
                Ok(_) => {},
                Err(e) => {
                    return Err(e);
                },
            }
            i += 1;
        }
        Ok(())
    }

    /// Takes the rows of a table into what has been gathered.
    fn read_table(&self, st: &mut Harvest, table: &Table) -> (r: Result<(), ButterflyError>)
        ensures
            match r {
                Ok(_) => table_step(self@, old(st)@, table@) == Ok::<
                    Extraction,
                    ButterflyErrorView,
                >(final(st)@),
                Err(e) => table_step(self@, old(st)@, table@) == Err::<
                    Extraction,
                    ButterflyErrorView,
                >(e@),
            },
    {
        let color = self.color_of_table(table);
        let mut legend: Vec<(String, String)> = Vec::new();
        let ghost rows = table@.rows;
        let ghost start = TableProgress { legend: Seq::empty(), gathered: st@ };
        let mut i: usize = 0;
        assert(rows.skip(0) =~= rows);
        assert(pdf_views(legend@) =~= Seq::empty());
        while i < table.rows.len()
            invariant
                i <= table.rows.len(),
                rows == table@.rows,
                start == (TableProgress { legend: Seq::empty(), gathered: old(st)@ }),
                color@ == table_color(table@.bgcolor, self@.rules),
                after_rows(self@, color@, start, rows) == after_rows(
                    self@,
                    color@,
                    TableProgress { legend: pdf_views(legend@), gathered: st@ },
                    rows.skip(i as int),
                ),
            decreases table.rows.len() - i,
        {
            let row = &table.rows[i];
            proof {
                assert(rows.skip(i as int)[0] == row@);
                assert(rows.skip(i as int).drop_first() =~= rows.skip(i + 1));
            }
            if self.is_category_section(row) {
                self.read_legend_row(&mut legend, row, color.as_str());
            } else {
                match self.read_content_row(st, &legend, row, color.as_str()) {
                    Ok(_) => {},
                    Err(e) => {
                        return Err(e);
                    },
                }
            }
            i += 1;
        }
        Ok(())
    }

    /// Gathers the butterflies and the documents of a page.
    ///
    /// The result holds the butterflies in the order of their images, each
    /// named by the text cell that has the same rank among the text cells as
    /// its image has among the images, and the documents in the order of
    /// their first link, each once. The walk succeeds exactly on a well
    /// shaped page; the first error found ends it and is returned.
    pub fn extract(&self, page: &Page) -> (r: Result<WebpageParseResult, ButterflyError>)
        ensures
            match r {
                Ok(found) => {
                    &&& extraction(self@, page@) is Ok
                    &&& butterfly_views(found.butterflies@) == extraction(
                        self@,
                        page@,
                    )->Ok_0.butterflies
                    &&& pdf_views(found.pdfs@) == extraction(self@, page@)->Ok_0.pdfs
                    &&& found.dir_name@ == self@.dir_name
                    &&& found.region@ == self@.region
                    &&& found.url@ == self@.url
                    &&& paired(
                        extraction(self@, page@)->Ok_0,
                        page_image_cells(page@, self@.rules),
                        page_name_cells(page@, self@.rules),
                        self@.rules.name_exceptions,
                    )
                    &&& lists_documents(found@.butterflies, found@.pdfs)
                    &&& found@.pdfs == documents_of(found@.butterflies)
                },
                Err(e) => extraction(self@, page@) == Err::<Extraction, ButterflyErrorView>(e@),
            },
            r is Ok <==> well_shaped(page@, self@.rules),
    {
        proof {
            law_extraction_succeeds_when_shaped(self@, page@);
        }
        let mut st = Harvest { butterflies: Vec::new(), pdfs: Vec::new(), named: 0 };
        let ghost tables = page@;
        let mut i: usize = 0;
        assert(tables.skip(0) =~= tables);
        assert(st@ =~= Extraction::start());
        while i < page.tables.len()
            invariant
                i <= page.tables.len(),
                tables == page@,
                extraction(self@, page@) is Ok <==> well_shaped(page@, self@.rules),
                extraction(self@, page@) == after_tables(self@, st@, tables.skip(i as int)),
            decreases page.tables.len() - i,
        {
            let table = &page.tables[i];
            proof {
                assert(tables.skip(i as int)[0] == table@);
                assert(tables.skip(i as int).drop_first() =~= tables.skip(i + 1));
            }
            match self.read_table(&mut st, table) {
                Ok(_) => {},
                Err(e) => {
                    return Err(e);
                },
            }
            i += 1;
        }
        proof {
            law_names_follow_images(self@, page@);
            law_page_lists_documents_once(self@, page@);
            law_page_documents_are_derived(self@, page@);
        }
        Ok(
            WebpageParseResult {
                dir_name: self.dir_name.clone(),
                region: self.region.clone(),
                url: self.url.clone(),
                butterflies: st.butterflies,
                pdfs: st.pdfs,
            },
        )
    }

    /// Gathers the butterflies and the documents of a page from its HTML.
    pub fn parse_html(&self, html: &str) -> (r: Result<WebpageParseResult, ButterflyError>)
        ensures
            match r {
                Ok(found) => {
                    let page = page_of(parsed_document(html@));
                    &&& extraction(self@, page) is Ok
                    &&& butterfly_views(found.butterflies@) == extraction(
                        self@,
                        page,
                    )->Ok_0.butterflies
                    &&& pdf_views(found.pdfs@) == extraction(self@, page)->Ok_0.pdfs
                    &&& found.dir_name@ == self@.dir_name
                    &&& found.region@ == self@.region
                    &&& found.url@ == self@.url
                },
                Err(e) => extraction(self@, page_of(parsed_document(html@))) == Err::<
                    Extraction,
                    ButterflyErrorView,
                >(e@),
            },
    {
        let page = parse_page(html);
        self.extract(&page)
    }
}

} // verus!
