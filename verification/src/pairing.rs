//! How the butterflies of a page relate to its cells: every image cell of a
//! content row gives one butterfly, and the text cells name the butterflies in
//! the order of their images.
use vstd::prelude::*;
use crate::page::{CellView, TableView};
use crate::text::is_blank;
use crate::webpage_parser::{
    after_content_cells, after_rows, after_tables, content_cell, extraction, is_legend_row,
    line_names, row_step, split_names, table_color, table_step, Extraction, NameExceptionView,
    ParseRulesView, TableProgress, WebpageParserView,
};
use crate::width::{eng_name_form, jp_name_form};

verus! {

/// Whether a cell of a content row starts a butterfly.
pub open spec fn is_image_cell(cell: CellView) -> bool {
    cell.has_image
}

/// Whether a cell of a content row names a butterfly.
pub open spec fn is_name_cell(cell: CellView) -> bool {
    !cell.has_image && !is_blank(cell.text)
}

/// The image cells among the cells of a row, from left to right.
pub open spec fn image_cells(cells: Seq<CellView>) -> Seq<CellView>
    decreases cells.len(),
{
    if cells.len() == 0 {
        Seq::empty()
    } else if is_image_cell(cells[0]) {
        seq![cells[0]] + image_cells(cells.drop_first())
    } else {
        image_cells(cells.drop_first())
    }
}

/// The name cells among the cells of a row, from left to right.
pub open spec fn name_cells(cells: Seq<CellView>) -> Seq<CellView>
    decreases cells.len(),
{
    if cells.len() == 0 {
        Seq::empty()
    } else if is_name_cell(cells[0]) {
        seq![cells[0]] + name_cells(cells.drop_first())
    } else {
        name_cells(cells.drop_first())
    }
}

/// The image cells of the content rows among some rows, from top to bottom.
pub open spec fn row_image_cells(rows: Seq<Seq<CellView>>, rules: ParseRulesView) -> Seq<CellView>
    decreases rows.len(),
{
    if rows.len() == 0 {
        Seq::empty()
    } else if is_legend_row(rows[0], rules) {
        row_image_cells(rows.drop_first(), rules)
    } else {
        image_cells(rows[0]) + row_image_cells(rows.drop_first(), rules)
    }
}

/// The name cells of the content rows among some rows, from top to bottom.
pub open spec fn row_name_cells(rows: Seq<Seq<CellView>>, rules: ParseRulesView) -> Seq<CellView>
    decreases rows.len(),
{
    if rows.len() == 0 {
        Seq::empty()
    } else if is_legend_row(rows[0], rules) {
        row_name_cells(rows.drop_first(), rules)
    } else {
        name_cells(rows[0]) + row_name_cells(rows.drop_first(), rules)
    }
}

/// The image cells of a page, in the order of the walk.
pub open spec fn page_image_cells(tables: Seq<TableView>, rules: ParseRulesView) -> Seq<CellView>
    decreases tables.len(),
{
    if tables.len() == 0 {
        Seq::empty()
    } else {
        row_image_cells(tables[0].rows, rules) + page_image_cells(tables.drop_first(), rules)
    }
}

/// The name cells of a page, in the order of the walk.
pub open spec fn page_name_cells(tables: Seq<TableView>, rules: ParseRulesView) -> Seq<CellView>
    decreases tables.len(),
{
    if tables.len() == 0 {
        Seq::empty()
    } else {
        row_name_cells(tables[0].rows, rules) + page_name_cells(tables.drop_first(), rules)
    }
}

/// The Japanese name in the text of a cell; empty where the text has no
/// names.
pub open spec fn jp_name_in(text: Seq<char>, exceptions: Seq<NameExceptionView>) -> Seq<char> {
    match split_names(text, exceptions) {
        Some(names) => names.0,
        None => Seq::empty(),
    }
}

/// The English name in the text of a cell; empty where the text has no names.
pub open spec fn eng_name_in(text: Seq<char>, exceptions: Seq<NameExceptionView>) -> Seq<char> {
    match split_names(text, exceptions) {
        Some(names) => names.1,
        None => Seq::empty(),
    }
}

/// Whether what has been gathered pairs the given image cells with the given
/// name cells: there is one butterfly for each image cell, with the source of
/// that image; the butterfly at the rank of a name cell has the stored forms
/// of that cell's names; the butterflies after them have no names.
pub open spec fn paired(
    st: Extraction,
    images: Seq<CellView>,
    names: Seq<CellView>,
    exceptions: Seq<NameExceptionView>,
) -> bool {
    &&& st.butterflies.len() == images.len()
    &&& st.named == names.len()
    &&& names.len() <= images.len()
    &&& forall|i: int|
        0 <= i < images.len() ==> (#[trigger] images[i]).img_src == Some(
            st.butterflies[i].img_src,
        )
    &&& forall|i: int|
        0 <= i < names.len() ==> {
            &&& split_names((#[trigger] names[i]).text, exceptions) is Some
            &&& st.butterflies[i].jp_name == jp_name_form(jp_name_in(names[i].text, exceptions))
            &&& st.butterflies[i].eng_name == eng_name_form(eng_name_in(names[i].text, exceptions))
        }
    &&& forall|i: int|
        names.len() <= i < images.len() ==> {
            &&& (#[trigger] st.butterflies[i]).jp_name.len() == 0
            &&& st.butterflies[i].eng_name.len() == 0
        }
}

/// One cell of a content row keeps images and names paired.
proof fn lemma_cell_keeps_pairing(
    parser: WebpageParserView,
    color: Seq<char>,
    legend: Seq<(Seq<char>, Seq<char>)>,
    st: Extraction,
    cell: CellView,
    images: Seq<CellView>,
    names: Seq<CellView>,
)
    requires
        paired(st, images, names, parser.rules.name_exceptions),
        content_cell(parser, color, legend, st, cell) is Ok,
    ensures
        paired(
            content_cell(parser, color, legend, st, cell)->Ok_0,
            if is_image_cell(cell) {
                images.push(cell)
            } else {
                images
            },
            if is_name_cell(cell) {
                names.push(cell)
            } else {
                names
            },
            parser.rules.name_exceptions,
        ),
{
    let next = content_cell(parser, color, legend, st, cell)->Ok_0;
    let exceptions = parser.rules.name_exceptions;
    if is_image_cell(cell) {
        let grown = images.push(cell);
        assert forall|i: int| 0 <= i < grown.len() implies (#[trigger] grown[i]).img_src == Some(
            next.butterflies[i].img_src,
        ) by {
            if i < images.len() {
                assert(grown[i] == images[i]);
            }
        }
        assert forall|i: int| names.len() <= i < grown.len() implies {
            &&& (#[trigger] next.butterflies[i]).jp_name.len() == 0
            &&& next.butterflies[i].eng_name.len() == 0
        } by {
            if i < images.len() {
                assert(next.butterflies[i] == st.butterflies[i]);
            }
        }
        assert forall|i: int| 0 <= i < names.len() implies {
            &&& split_names((#[trigger] names[i]).text, exceptions) is Some
            &&& next.butterflies[i].jp_name == jp_name_form(jp_name_in(names[i].text, exceptions))
            &&& next.butterflies[i].eng_name == eng_name_form(eng_name_in(names[i].text, exceptions))
        } by {
            assert(next.butterflies[i] == st.butterflies[i]);
        }
    } else if is_name_cell(cell) {
        let grown = names.push(cell);
        let at = st.named as int;
        let found = split_names(cell.text, exceptions)->0;
        assert(st.butterflies[at].jp_name.len() == 0);
        assert(st.butterflies[at].eng_name.len() == 0);
        assert(next.butterflies[at].eng_name =~= eng_name_form(found.1));
        assert forall|i: int| 0 <= i < grown.len() implies {
            &&& split_names((#[trigger] grown[i]).text, exceptions) is Some
            &&& next.butterflies[i].jp_name == jp_name_form(jp_name_in(grown[i].text, exceptions))
            &&& next.butterflies[i].eng_name == eng_name_form(eng_name_in(grown[i].text, exceptions))
        } by {
            if i < names.len() {
                assert(grown[i] == names[i]);
                assert(next.butterflies[i] == st.butterflies[i]);
            }
        }
        assert forall|i: int| 0 <= i < images.len() implies (#[trigger] images[i]).img_src
            == Some(next.butterflies[i].img_src) by {
            if i != at {
                assert(next.butterflies[i] == st.butterflies[i]);
            }
        }
        assert forall|i: int| grown.len() <= i < images.len() implies {
            &&& (#[trigger] next.butterflies[i]).jp_name.len() == 0
            &&& next.butterflies[i].eng_name.len() == 0
        } by {
            assert(next.butterflies[i] == st.butterflies[i]);
        }
    }
}

/// The cells of a content row keep images and names paired.
proof fn lemma_cells_keep_pairing(
    parser: WebpageParserView,
    color: Seq<char>,
    legend: Seq<(Seq<char>, Seq<char>)>,
    st: Extraction,
    cells: Seq<CellView>,
    images: Seq<CellView>,
    names: Seq<CellView>,
)
    requires
        paired(st, images, names, parser.rules.name_exceptions),
        after_content_cells(parser, color, legend, st, cells) is Ok,
    ensures
        paired(
            after_content_cells(parser, color, legend, st, cells)->Ok_0,
            images + image_cells(cells),
            names + name_cells(cells),
            parser.rules.name_exceptions,
        ),
    decreases cells.len(),
{
    if cells.len() == 0 {
        assert(images + image_cells(cells) =~= images);
        assert(names + name_cells(cells) =~= names);
    } else {
        let cell = cells[0];
        let next = content_cell(parser, color, legend, st, cell)->Ok_0;
        lemma_cell_keeps_pairing(parser, color, legend, st, cell, images, names);
        let images_next = if is_image_cell(cell) {
            images.push(cell)
        } else {
            images
        };
        let names_next = if is_name_cell(cell) {
            names.push(cell)
        } else {
            names
        };
        lemma_cells_keep_pairing(
            parser,
            color,
            legend,
            next,
            cells.drop_first(),
            images_next,
            names_next,
        );
        assert(images_next + image_cells(cells.drop_first()) =~= images + image_cells(cells));
        assert(names_next + name_cells(cells.drop_first()) =~= names + name_cells(cells));
    }
}

/// The rows of a table keep images and names paired.
proof fn lemma_rows_keep_pairing(
    parser: WebpageParserView,
    color: Seq<char>,
    progress: TableProgress,
    rows: Seq<Seq<CellView>>,
    images: Seq<CellView>,
    names: Seq<CellView>,
)
    requires
        paired(progress.gathered, images, names, parser.rules.name_exceptions),
        after_rows(parser, color, progress, rows) is Ok,
    ensures
        paired(
            after_rows(parser, color, progress, rows)->Ok_0.gathered,
            images + row_image_cells(rows, parser.rules),
            names + row_name_cells(rows, parser.rules),
            parser.rules.name_exceptions,
        ),
    decreases rows.len(),
{
    if rows.len() == 0 {
        assert(images + row_image_cells(rows, parser.rules) =~= images);
        assert(names + row_name_cells(rows, parser.rules) =~= names);
    } else {
        let row = rows[0];
        let next = row_step(parser, color, progress, row)->Ok_0;
        if is_legend_row(row, parser.rules) {
            lemma_rows_keep_pairing(parser, color, next, rows.drop_first(), images, names);
        } else {
            lemma_cells_keep_pairing(
                parser,
                color,
                progress.legend,
                progress.gathered,
                row,
                images,
                names,
            );
            lemma_rows_keep_pairing(
                parser,
                color,
                next,
                rows.drop_first(),
                images + image_cells(row),
                names + name_cells(row),
            );
            assert((images + image_cells(row)) + row_image_cells(rows.drop_first(), parser.rules)
                =~= images + row_image_cells(rows, parser.rules));
            assert((names + name_cells(row)) + row_name_cells(rows.drop_first(), parser.rules)
                =~= names + row_name_cells(rows, parser.rules));
        }
    }
}

/// The tables of a page keep images and names paired.
proof fn lemma_tables_keep_pairing(
    parser: WebpageParserView,
    st: Extraction,
    tables: Seq<TableView>,
    images: Seq<CellView>,
    names: Seq<CellView>,
)
    requires
        paired(st, images, names, parser.rules.name_exceptions),
        after_tables(parser, st, tables) is Ok,
    ensures
        paired(
            after_tables(parser, st, tables)->Ok_0,
            images + page_image_cells(tables, parser.rules),
            names + page_name_cells(tables, parser.rules),
            parser.rules.name_exceptions,
        ),
    decreases tables.len(),
{
    if tables.len() == 0 {
        assert(images + page_image_cells(tables, parser.rules) =~= images);
        assert(names + page_name_cells(tables, parser.rules) =~= names);
    } else {
        let table = tables[0];
        let next = table_step(parser, st, table)->Ok_0;
        lemma_rows_keep_pairing(
            parser,
            table_color(table.bgcolor, parser.rules),
            TableProgress { legend: Seq::empty(), gathered: st },
            table.rows,
            images,
            names,
        );
        lemma_tables_keep_pairing(
            parser,
            next,
            tables.drop_first(),
            images + row_image_cells(table.rows, parser.rules),
            names + row_name_cells(table.rows, parser.rules),
        );
        assert((images + row_image_cells(table.rows, parser.rules)) + page_image_cells(
            tables.drop_first(),
            parser.rules,
        ) =~= images + page_image_cells(tables, parser.rules));
        assert((names + row_name_cells(table.rows, parser.rules)) + page_name_cells(
            tables.drop_first(),
            parser.rules,
        ) =~= names + page_name_cells(tables, parser.rules));
    }
}

/// Images and names are paired by their order on the page.
///
/// Where the extraction of a page succeeds, it gives one butterfly for each
/// image cell, in their order and with the source of that image. The page has
/// no more name cells than image cells, and the butterfly at the rank of a
/// name cell has the stored forms of the two names in that cell's text. A
/// butterfly beyond the name cells has no names. So a page with as many name
/// cells as image cells gives that many butterflies, all named.
pub proof fn law_names_follow_images(parser: WebpageParserView, page: Seq<TableView>)
    requires
        extraction(parser, page) is Ok,
    ensures
        paired(
            extraction(parser, page)->Ok_0,
            page_image_cells(page, parser.rules),
            page_name_cells(page, parser.rules),
            parser.rules.name_exceptions,
        ),
{
    let none = Seq::<CellView>::empty();
    lemma_tables_keep_pairing(parser, Extraction::start(), page, none, none);
    assert(none + page_image_cells(page, parser.rules) =~= page_image_cells(page, parser.rules));
    assert(none + page_name_cells(page, parser.rules) =~= page_name_cells(page, parser.rules));
}

/// A text that is an exception has the names of the exception, whatever its
/// lines are: the names of a text are those of the first exception with that
/// text.
pub proof fn law_exception_names(exceptions: Seq<NameExceptionView>, i: int, text: Seq<char>)
    requires
        0 <= i < exceptions.len(),
        exceptions[i].text == text,
        forall|j: int| 0 <= j < i ==> (#[trigger] exceptions[j]).text != text,
    ensures
        split_names(text, exceptions) == Some((exceptions[i].jp_name, exceptions[i].eng_name)),
    decreases i,
{
    if i > 0 {
        let rest = exceptions.drop_first();
        assert(exceptions[0].text != text);
        assert(rest[i - 1] == exceptions[i]);
        assert forall|j: int| 0 <= j < i - 1 implies (#[trigger] rest[j]).text != text by {
            assert(rest[j] == exceptions[j + 1]);
        }
        law_exception_names(rest, i - 1, text);
    }
}

/// A text that is no exception is split by its lines.
///
/// Where no exception has the whole text, the names of the text are those of
/// its first two lines, each without the white space around it; a text that
/// only holds the text of an exception among other characters is such a text.
pub proof fn law_other_texts_are_split_by_lines(
    exceptions: Seq<NameExceptionView>,
    text: Seq<char>,
)
    requires
        forall|j: int| 0 <= j < exceptions.len() ==> (#[trigger] exceptions[j]).text != text,
    ensures
        split_names(text, exceptions) == line_names(text),
    decreases exceptions.len(),
{
    if exceptions.len() > 0 {
        let rest = exceptions.drop_first();
        assert(exceptions[0].text != text);
        assert forall|j: int| 0 <= j < rest.len() implies (#[trigger] rest[j]).text != text by {
            assert(rest[j] == exceptions[j + 1]);
        }
        law_other_texts_are_split_by_lines(rest, text);
    }
}

} // verus!
