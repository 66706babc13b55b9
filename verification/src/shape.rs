//! When the extraction of a page succeeds: exactly when every image has a
//! source, every text that should name a butterfly holds names, and no text
//! comes before the image of the butterfly that it names.
use vstd::prelude::*;
use crate::page::{CellView, TableView};
use crate::pairing::{
    image_cells, is_image_cell, is_name_cell, law_names_follow_images, name_cells,
    page_image_cells, page_name_cells, paired, row_image_cells, row_name_cells,
};
use crate::text::index_of;
use crate::webpage_parser::{
    after_content_cells, after_rows, after_tables, content_cell, extraction, is_legend_row,
    row_step, split_names, table_color, table_step, Extraction, NameExceptionView,
    ParseRulesView, TableProgress, WebpageParserView,
};

verus! {

/// The cells of the content rows among some rows, row after row, each row
/// from left to right.
pub open spec fn rows_content(rows: Seq<Seq<CellView>>, rules: ParseRulesView) -> Seq<CellView>
    decreases rows.len(),
{
    if rows.len() == 0 {
        Seq::empty()
    } else if is_legend_row(rows[0], rules) {
        rows_content(rows.drop_first(), rules)
    } else {
        rows[0] + rows_content(rows.drop_first(), rules)
    }
}

/// The cells of the content rows of a page, in the order of the walk.
pub open spec fn page_content(tables: Seq<TableView>, rules: ParseRulesView) -> Seq<CellView>
    decreases tables.len(),
{
    if tables.len() == 0 {
        Seq::empty()
    } else {
        rows_content(tables[0].rows, rules) + page_content(tables.drop_first(), rules)
    }
}

/// Whether content cells can be walked after `images` image cells and `names`
/// name cells: every image cell has a source, every name cell holds names,
/// and before every name cell lie more image cells than name cells.
pub open spec fn walkable(
    cells: Seq<CellView>,
    images: nat,
    names: nat,
    exceptions: Seq<NameExceptionView>,
) -> bool
    decreases cells.len(),
{
    if cells.len() == 0 {
        true
    } else if is_image_cell(cells[0]) {
        cells[0].img_src is Some && walkable(cells.drop_first(), images + 1, names, exceptions)
    } else if is_name_cell(cells[0]) {
        split_names(cells[0].text, exceptions) is Some && names < images && walkable(
            cells.drop_first(),
            images,
            names + 1,
            exceptions,
        )
    } else {
        walkable(cells.drop_first(), images, names, exceptions)
    }
}

/// Whether a page can be walked from its start.
pub open spec fn well_shaped(page: Seq<TableView>, rules: ParseRulesView) -> bool {
    walkable(page_content(page, rules), 0, 0, rules.name_exceptions)
}

/// Whether the content cells of a page are images first and names after them:
/// before the place `m` lie no name cells, and the image cells there have
/// sources; from `m` on lie no image cells, and the name cells there hold
/// names; and there are no more name cells than image cells.
pub open spec fn images_before_names(
    cells: Seq<CellView>,
    m: int,
    exceptions: Seq<NameExceptionView>,
) -> bool {
    &&& 0 <= m <= cells.len()
    &&& forall|k: int|
        0 <= k < m ==> !is_name_cell(#[trigger] cells[k]) && (is_image_cell(cells[k])
            ==> cells[k].img_src is Some)
    &&& forall|k: int|
        m <= k < cells.len() ==> !is_image_cell(#[trigger] cells[k]) && (is_name_cell(cells[k])
            ==> split_names(cells[k].text, exceptions) is Some)
    &&& name_cells(cells).len() <= image_cells(cells).len()
}

/// The image cells and the name cells of two runs of cells, one after the
/// other, are those of the first followed by those of the second.
pub proof fn lemma_cells_of_concat(a: Seq<CellView>, b: Seq<CellView>)
    ensures
        image_cells(a + b) == image_cells(a) + image_cells(b),
        name_cells(a + b) == name_cells(a) + name_cells(b),
    decreases a.len(),
{
    if a.len() == 0 {
        assert(a + b =~= b);
        assert(image_cells(a) + image_cells(b) =~= image_cells(b));
        assert(name_cells(a) + name_cells(b) =~= name_cells(b));
    } else {
        assert((a + b)[0] == a[0]);
        assert((a + b).drop_first() =~= a.drop_first() + b);
        lemma_cells_of_concat(a.drop_first(), b);
        assert(image_cells(a + b) =~= image_cells(a) + image_cells(b));
        assert(name_cells(a + b) =~= name_cells(a) + name_cells(b));
    }
}

/// Two runs of cells, one after the other, can be walked exactly when the
/// first can and the second can after it.
pub proof fn lemma_walkable_concat(
    a: Seq<CellView>,
    b: Seq<CellView>,
    images: nat,
    names: nat,
    exceptions: Seq<NameExceptionView>,
)
    ensures
        walkable(a + b, images, names, exceptions) == (walkable(a, images, names, exceptions)
            && walkable(
            b,
            images + image_cells(a).len(),
            names + name_cells(a).len(),
            exceptions,
        )),
    decreases a.len(),
{
    if a.len() == 0 {
        assert(a + b =~= b);
    } else {
        assert((a + b)[0] == a[0]);
        assert((a + b).drop_first() =~= a.drop_first() + b);
        if is_image_cell(a[0]) {
            lemma_walkable_concat(a.drop_first(), b, images + 1, names, exceptions);
        } else if is_name_cell(a[0]) {
            lemma_walkable_concat(a.drop_first(), b, images, names + 1, exceptions);
        } else {
            lemma_walkable_concat(a.drop_first(), b, images, names, exceptions);
        }
    }
}

/// The walk of the cells of a content row succeeds exactly when the cells can
/// be walked, and then adds a butterfly for each image cell and names one for
/// each name cell.
proof fn lemma_cells_walk(
    parser: WebpageParserView,
    color: Seq<char>,
    legend: Seq<(Seq<char>, Seq<char>)>,
    st: Extraction,
    cells: Seq<CellView>,
)
    ensures
        after_content_cells(parser, color, legend, st, cells) is Ok <==> walkable(
            cells,
            st.butterflies.len(),
            st.named,
            parser.rules.name_exceptions,
        ),
        after_content_cells(parser, color, legend, st, cells) is Ok ==> {
            let end = after_content_cells(parser, color, legend, st, cells)->Ok_0;
            &&& end.butterflies.len() == st.butterflies.len() + image_cells(cells).len()
            &&& end.named == st.named + name_cells(cells).len()
        },
    decreases cells.len(),
{
    if cells.len() > 0 {
        if content_cell(parser, color, legend, st, cells[0]) is Ok {
            let next = content_cell(parser, color, legend, st, cells[0])->Ok_0;
            lemma_cells_walk(parser, color, legend, next, cells.drop_first());
        }
    }
}

/// The walk of the rows of a table succeeds exactly when the cells of its
/// content rows can be walked.
proof fn lemma_rows_walk(
    parser: WebpageParserView,
    color: Seq<char>,
    progress: TableProgress,
    rows: Seq<Seq<CellView>>,
)
    ensures
        after_rows(parser, color, progress, rows) is Ok <==> walkable(
            rows_content(rows, parser.rules),
            progress.gathered.butterflies.len(),
            progress.gathered.named,
            parser.rules.name_exceptions,
        ),
        after_rows(parser, color, progress, rows) is Ok ==> {
            let end = after_rows(parser, color, progress, rows)->Ok_0.gathered;
            &&& end.butterflies.len() == progress.gathered.butterflies.len() + image_cells(
                rows_content(rows, parser.rules),
            ).len()
            &&& end.named == progress.gathered.named + name_cells(
                rows_content(rows, parser.rules),
            ).len()
        },
    decreases rows.len(),
{
    if rows.len() > 0 {
        let rest = rows.drop_first();
        if is_legend_row(rows[0], parser.rules) {
            let next = row_step(parser, color, progress, rows[0])->Ok_0;
            lemma_rows_walk(parser, color, next, rest);
        } else {
            lemma_cells_walk(parser, color, progress.legend, progress.gathered, rows[0]);
            lemma_walkable_concat(
                rows[0],
                rows_content(rest, parser.rules),
                progress.gathered.butterflies.len(),
                progress.gathered.named,
                parser.rules.name_exceptions,
            );
            lemma_cells_of_concat(rows[0], rows_content(rest, parser.rules));
            if row_step(parser, color, progress, rows[0]) is Ok {
                let next = row_step(parser, color, progress, rows[0])->Ok_0;
                lemma_rows_walk(parser, color, next, rest);
            }
        }
    }
}

/// The walk of the tables of a page succeeds exactly when the cells of their
/// content rows can be walked.
proof fn lemma_tables_walk(parser: WebpageParserView, st: Extraction, tables: Seq<TableView>)
    ensures
        after_tables(parser, st, tables) is Ok <==> walkable(
            page_content(tables, parser.rules),
            st.butterflies.len(),
            st.named,
            parser.rules.name_exceptions,
        ),
        after_tables(parser, st, tables) is Ok ==> {
            let end = after_tables(parser, st, tables)->Ok_0;
            &&& end.butterflies.len() == st.butterflies.len() + image_cells(
                page_content(tables, parser.rules),
            ).len()
            &&& end.named == st.named + name_cells(page_content(tables, parser.rules)).len()
        },
    decreases tables.len(),
{
    if tables.len() > 0 {
        let rest = tables.drop_first();
        let first = rows_content(tables[0].rows, parser.rules);
        lemma_rows_walk(
            parser,
            table_color(tables[0].bgcolor, parser.rules),
            TableProgress { legend: Seq::empty(), gathered: st },
            tables[0].rows,
        );
        lemma_walkable_concat(
            first,
            page_content(rest, parser.rules),
            st.butterflies.len(),
            st.named,
            parser.rules.name_exceptions,
        );
        lemma_cells_of_concat(first, page_content(rest, parser.rules));
        if table_step(parser, st, tables[0]) is Ok {
            let next = table_step(parser, st, tables[0])->Ok_0;
            lemma_tables_walk(parser, next, rest);
        }
    }
}

/// The extraction of a page succeeds exactly when the page is well shaped.
///
/// It succeeds if and only if, in the order of the walk through the content
/// rows, every image cell has a source, every name cell holds names, and
/// before every name cell lie more image cells than name cells. It then gives
/// as many butterflies as the page has image cells.
pub proof fn law_extraction_succeeds_when_shaped(parser: WebpageParserView, page: Seq<TableView>)
    ensures
        extraction(parser, page) is Ok <==> well_shaped(page, parser.rules),
        extraction(parser, page) is Ok ==> extraction(parser, page)->Ok_0.butterflies.len()
            == image_cells(page_content(page, parser.rules)).len(),
{
    lemma_tables_walk(parser, Extraction::start(), page);
}

/// Cells without name cells, whose image cells have sources, can be walked
/// from anywhere.
proof fn lemma_images_walk(
    cells: Seq<CellView>,
    images: nat,
    names: nat,
    exceptions: Seq<NameExceptionView>,
)
    requires
        forall|k: int|
            0 <= k < cells.len() ==> !is_name_cell(#[trigger] cells[k]) && (is_image_cell(cells[k])
                ==> cells[k].img_src is Some),
    ensures
        walkable(cells, images, names, exceptions),
        name_cells(cells).len() == 0,
    decreases cells.len(),
{
    if cells.len() > 0 {
        let rest = cells.drop_first();
        assert(!is_name_cell(cells[0]));
        assert forall|k: int| 0 <= k < rest.len() implies !is_name_cell(#[trigger] rest[k]) && (
        is_image_cell(rest[k]) ==> rest[k].img_src is Some) by {
            assert(rest[k] == cells[k + 1]);
        }
        if is_image_cell(cells[0]) {
            lemma_images_walk(rest, images + 1, names, exceptions);
        } else {
            lemma_images_walk(rest, images, names, exceptions);
        }
    }
}

/// Cells without image cells, whose name cells hold names, can be walked
/// where enough butterflies wait for their names.
proof fn lemma_names_walk(
    cells: Seq<CellView>,
    images: nat,
    names: nat,
    exceptions: Seq<NameExceptionView>,
)
    requires
        forall|k: int|
            0 <= k < cells.len() ==> !is_image_cell(#[trigger] cells[k]) && (is_name_cell(cells[k])
                ==> split_names(cells[k].text, exceptions) is Some),
        names + name_cells(cells).len() <= images,
    ensures
        walkable(cells, images, names, exceptions),
        image_cells(cells).len() == 0,
    decreases cells.len(),
{
    if cells.len() > 0 {
        let rest = cells.drop_first();
        assert(!is_image_cell(cells[0]));
        assert forall|k: int| 0 <= k < rest.len() implies !is_image_cell(#[trigger] rest[k]) && (
        is_name_cell(rest[k]) ==> split_names(rest[k].text, exceptions) is Some) by {
            assert(rest[k] == cells[k + 1]);
        }
        if is_name_cell(cells[0]) {
            lemma_names_walk(rest, images, names + 1, exceptions);
        } else {
            lemma_names_walk(rest, images, names, exceptions);
        }
    }
}

/// A page of images followed by their names is extracted.
///
/// Where the content cells of a page are images first, each with a source,
/// and names after them, each a text that holds names, and the names are no
/// more than the images, the extraction succeeds and gives as many
/// butterflies as the page has image cells.
pub proof fn law_images_before_names_succeed(
    parser: WebpageParserView,
    page: Seq<TableView>,
    m: int,
)
    requires
        images_before_names(page_content(page, parser.rules), m, parser.rules.name_exceptions),
    ensures
        extraction(parser, page) is Ok,
        extraction(parser, page)->Ok_0.butterflies.len() == image_cells(
            page_content(page, parser.rules),
        ).len(),
{
    let cells = page_content(page, parser.rules);
    let exceptions = parser.rules.name_exceptions;
    let head = cells.take(m);
    let tail = cells.skip(m);
    assert(head + tail =~= cells);
    assert forall|k: int| 0 <= k < head.len() implies !is_name_cell(#[trigger] head[k]) && (
    is_image_cell(head[k]) ==> head[k].img_src is Some) by {
        assert(head[k] == cells[k]);
    }
    assert forall|k: int| 0 <= k < tail.len() implies !is_image_cell(#[trigger] tail[k]) && (
    is_name_cell(tail[k]) ==> split_names(tail[k].text, exceptions) is Some) by {
        assert(tail[k] == cells[k + m]);
    }
    lemma_cells_of_concat(head, tail);
    lemma_images_walk(head, 0, 0, exceptions);
    lemma_tail_has_no_images(tail);
    lemma_names_walk(tail, image_cells(head).len(), 0, exceptions);
    lemma_walkable_concat(head, tail, 0, 0, exceptions);
    law_extraction_succeeds_when_shaped(parser, page);
}

/// Cells without image cells have no image cells among them.
proof fn lemma_tail_has_no_images(cells: Seq<CellView>)
    requires
        forall|k: int| 0 <= k < cells.len() ==> !is_image_cell(#[trigger] cells[k]),
    ensures
        image_cells(cells).len() == 0,
    decreases cells.len(),
{
    if cells.len() > 0 {
        let rest = cells.drop_first();
        assert(!is_image_cell(cells[0]));
        assert forall|k: int| 0 <= k < rest.len() implies !is_image_cell(#[trigger] rest[k]) by {
            assert(rest[k] == cells[k + 1]);
        }
        lemma_tail_has_no_images(rest);
    }
}

/// A text of two lines holds names: a text with a line break has names,
/// whether or not it is an exception.
pub proof fn law_two_lines_hold_names(text: Seq<char>, exceptions: Seq<NameExceptionView>)
    requires
        index_of(text, '\n', 0) < text.len(),
    ensures
        split_names(text, exceptions) is Some,
{
}

/// The image cells and the name cells of the content rows are those of the
/// rows taken one by one.
proof fn lemma_rows_cells_agree(rows: Seq<Seq<CellView>>, rules: ParseRulesView)
    ensures
        image_cells(rows_content(rows, rules)) == row_image_cells(rows, rules),
        name_cells(rows_content(rows, rules)) == row_name_cells(rows, rules),
    decreases rows.len(),
{
    if rows.len() > 0 {
        lemma_rows_cells_agree(rows.drop_first(), rules);
        if !is_legend_row(rows[0], rules) {
            lemma_cells_of_concat(rows[0], rows_content(rows.drop_first(), rules));
        }
    }
}

/// The image cells and the name cells of a page are those among its content
/// cells.
pub proof fn law_page_cells_agree(page: Seq<TableView>, rules: ParseRulesView)
    ensures
        image_cells(page_content(page, rules)) == page_image_cells(page, rules),
        name_cells(page_content(page, rules)) == page_name_cells(page, rules),
    decreases page.len(),
{
    if page.len() > 0 {
        law_page_cells_agree(page.drop_first(), rules);
        lemma_rows_cells_agree(page[0].rows, rules);
        lemma_cells_of_concat(
            rows_content(page[0].rows, rules),
            page_content(page.drop_first(), rules),
        );
    }
}

/// A page of images followed by as many names gives its butterflies, named
/// in order.
///
/// Where the content cells of a page are images first, each with a source,
/// and names after them, each a text that holds names, and the names are no
/// more than the images, the extraction succeeds; it gives one butterfly for
/// each image cell, in their order and with the source of that image; and the
/// butterfly at the rank of a name cell has the stored forms of the names in
/// that cell's text and of no other.
pub proof fn law_images_before_names_are_paired(
    parser: WebpageParserView,
    page: Seq<TableView>,
    m: int,
)
    requires
        images_before_names(page_content(page, parser.rules), m, parser.rules.name_exceptions),
    ensures
        extraction(parser, page) is Ok,
        paired(
            extraction(parser, page)->Ok_0,
            image_cells(page_content(page, parser.rules)),
            name_cells(page_content(page, parser.rules)),
            parser.rules.name_exceptions,
        ),
{
    law_images_before_names_succeed(parser, page, m);
    law_names_follow_images(parser, page);
    law_page_cells_agree(page, parser.rules);
}

} // verus!
