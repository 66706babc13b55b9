//! How a legend row decides the category of the butterflies below it.
use vstd::prelude::*;
use crate::page::CellView;
use crate::webpage_parser::{
    after_content_cells, after_legend_cells, after_rows, category_for, cell_color, content_cell,
    is_legend_row, legend_cell, legend_label, legend_lookup, names_category, row_step, Extraction,
    ParseRulesView, TableProgress, WebpageParserView,
};

verus! {

/// Whether a cell of a legend row names the category of a colour.
pub open spec fn sets_color(
    cell: CellView,
    color: Seq<char>,
    table_color: Seq<char>,
    rules: ParseRulesView,
) -> bool {
    names_category(cell.text, rules.category_marker) && cell_color(cell, table_color) == color
}

/// Whether every butterfly from the rank `from` on has the category that the
/// legend gives for its colour.
pub open spec fn categorized(
    st: Extraction,
    from: int,
    legend: Seq<(Seq<char>, Seq<char>)>,
    rules: ParseRulesView,
) -> bool {
    forall|k: int|
        from <= k < st.butterflies.len() ==> (#[trigger] st.butterflies[k]).category
            == category_for(legend, st.butterflies[k].bgcolor, rules)
}

/// Cells that name no category for a colour leave the category of that colour
/// as it is.
proof fn lemma_other_cells_keep_color(
    legend: Seq<(Seq<char>, Seq<char>)>,
    cells: Seq<CellView>,
    color: Seq<char>,
    table_color: Seq<char>,
    rules: ParseRulesView,
)
    requires
        forall|j: int| 0 <= j < cells.len() ==> !sets_color(#[trigger] cells[j], color, table_color, rules),
    ensures
        legend_lookup(after_legend_cells(legend, cells, table_color, rules), color)
            == legend_lookup(legend, color),
    decreases cells.len(),
{
    if cells.len() > 0 {
        let next = legend_cell(legend, cells[0], table_color, rules);
        assert(!sets_color(cells[0], color, table_color, rules));
        if names_category(cells[0].text, rules.category_marker) {
            assert(next.drop_last() =~= legend);
        }
        assert forall|j: int| 0 <= j < cells.drop_first().len() implies !sets_color(
            #[trigger] cells.drop_first()[j],
            color,
            table_color,
            rules,
        ) by {
            assert(cells.drop_first()[j] == cells[j + 1]);
        }
        lemma_other_cells_keep_color(next, cells.drop_first(), color, table_color, rules);
    }
}

/// The last cell of a legend row that names a category for a colour decides
/// the category of that colour.
///
/// After the row, the legend gives for the colour of the cell at `i` the text
/// of that cell from the marker on, provided that no cell to its right names
/// a category for the same colour.
pub proof fn law_legend_row_names_color(
    legend: Seq<(Seq<char>, Seq<char>)>,
    row: Seq<CellView>,
    i: int,
    table_color: Seq<char>,
    rules: ParseRulesView,
)
    requires
        0 <= i < row.len(),
        names_category(row[i].text, rules.category_marker),
        forall|j: int|
            i < j < row.len() ==> !sets_color(
                #[trigger] row[j],
                cell_color(row[i], table_color),
                table_color,
                rules,
            ),
    ensures
        legend_lookup(
            after_legend_cells(legend, row, table_color, rules),
            cell_color(row[i], table_color),
        ) == Some(legend_label(row[i].text, rules.category_marker)),
    decreases i,
{
    let color = cell_color(row[i], table_color);
    let next = legend_cell(legend, row[0], table_color, rules);
    let rest = row.drop_first();
    if i == 0 {
        assert forall|j: int| 0 <= j < rest.len() implies !sets_color(
            #[trigger] rest[j],
            color,
            table_color,
            rules,
        ) by {
            assert(rest[j] == row[j + 1]);
        }
        lemma_other_cells_keep_color(next, rest, color, table_color, rules);
    } else {
        assert(rest[i - 1] == row[i]);
        assert forall|j: int| i - 1 < j < rest.len() implies !sets_color(
            #[trigger] rest[j],
            cell_color(rest[i - 1], table_color),
            table_color,
            rules,
        ) by {
            assert(rest[j] == row[j + 1]);
        }
        law_legend_row_names_color(next, rest, i - 1, table_color, rules);
    }
}

/// One cell of a content row keeps the butterflies categorized.
proof fn lemma_cell_keeps_categories(
    parser: WebpageParserView,
    color: Seq<char>,
    legend: Seq<(Seq<char>, Seq<char>)>,
    st: Extraction,
    cell: CellView,
    from: int,
)
    requires
        0 <= from <= st.butterflies.len(),
        categorized(st, from, legend, parser.rules),
        content_cell(parser, color, legend, st, cell) is Ok,
    ensures
        categorized(content_cell(parser, color, legend, st, cell)->Ok_0, from, legend, parser.rules),
        content_cell(parser, color, legend, st, cell)->Ok_0.butterflies.len()
            >= st.butterflies.len(),
{
    let next = content_cell(parser, color, legend, st, cell)->Ok_0;
    assert forall|k: int| from <= k < next.butterflies.len() implies (
    #[trigger] next.butterflies[k]).category == category_for(
        legend,
        next.butterflies[k].bgcolor,
        parser.rules,
    ) by {
        if k < st.butterflies.len() {
            assert(st.butterflies[k].category == category_for(
                legend,
                st.butterflies[k].bgcolor,
                parser.rules,
            ));
        }
    }
}

/// The cells of a content row keep the butterflies categorized.
proof fn lemma_cells_keep_categories(
    parser: WebpageParserView,
    color: Seq<char>,
    legend: Seq<(Seq<char>, Seq<char>)>,
    st: Extraction,
    cells: Seq<CellView>,
    from: int,
)
    requires
        0 <= from <= st.butterflies.len(),
        categorized(st, from, legend, parser.rules),
        after_content_cells(parser, color, legend, st, cells) is Ok,
    ensures
        categorized(
            after_content_cells(parser, color, legend, st, cells)->Ok_0,
            from,
            legend,
            parser.rules,
        ),
        after_content_cells(parser, color, legend, st, cells)->Ok_0.butterflies.len()
            >= st.butterflies.len(),
    decreases cells.len(),
{
    if cells.len() > 0 {
        let next = content_cell(parser, color, legend, st, cells[0])->Ok_0;
        lemma_cell_keeps_categories(parser, color, legend, st, cells[0], from);
        lemma_cells_keep_categories(parser, color, legend, next, cells.drop_first(), from);
    }
}

/// Content rows keep the legend and keep the butterflies categorized.
proof fn lemma_content_rows_keep_categories(
    parser: WebpageParserView,
    color: Seq<char>,
    progress: TableProgress,
    rows: Seq<Seq<CellView>>,
    from: int,
)
    requires
        0 <= from <= progress.gathered.butterflies.len(),
        categorized(progress.gathered, from, progress.legend, parser.rules),
        forall|i: int| 0 <= i < rows.len() ==> !is_legend_row(#[trigger] rows[i], parser.rules),
        after_rows(parser, color, progress, rows) is Ok,
    ensures
        after_rows(parser, color, progress, rows)->Ok_0.legend == progress.legend,
        categorized(
            after_rows(parser, color, progress, rows)->Ok_0.gathered,
            from,
            progress.legend,
            parser.rules,
        ),
        after_rows(parser, color, progress, rows)->Ok_0.gathered.butterflies.len()
            >= progress.gathered.butterflies.len(),
    decreases rows.len(),
{
    if rows.len() > 0 {
        let next = row_step(parser, color, progress, rows[0])->Ok_0;
        assert(!is_legend_row(rows[0], parser.rules));
        lemma_cells_keep_categories(
            parser,
            color,
            progress.legend,
            progress.gathered,
            rows[0],
            from,
        );
        assert forall|i: int| 0 <= i < rows.drop_first().len() implies !is_legend_row(
            #[trigger] rows.drop_first()[i],
            parser.rules,
        ) by {
            assert(rows.drop_first()[i] == rows[i + 1]);
        }
        lemma_content_rows_keep_categories(parser, color, next, rows.drop_first(), from);
    }
}

/// A legend holds for the content rows below it.
///
/// Take a legend row and the content rows that follow it in its table up to
/// the next legend row. Where their walk succeeds, the legend at its end is
/// the legend after the legend row, every butterfly that was there before is
/// still there, and every butterfly that these rows add has the category
/// which that legend gives for the butterfly's colour.
pub proof fn law_legend_holds_below(
    parser: WebpageParserView,
    table_color: Seq<char>,
    progress: TableProgress,
    legend_row: Seq<CellView>,
    rows: Seq<Seq<CellView>>,
)
    requires
        is_legend_row(legend_row, parser.rules),
        forall|i: int| 0 <= i < rows.len() ==> !is_legend_row(#[trigger] rows[i], parser.rules),
        after_rows(parser, table_color, progress, seq![legend_row] + rows) is Ok,
    ensures
        ({
            let legend = after_legend_cells(
                progress.legend,
                legend_row,
                table_color,
                parser.rules,
            );
            let end = after_rows(parser, table_color, progress, seq![legend_row] + rows)->Ok_0;
            &&& end.legend == legend
            &&& end.gathered.butterflies.len() >= progress.gathered.butterflies.len()
            &&& categorized(
                end.gathered,
                progress.gathered.butterflies.len() as int,
                legend,
                parser.rules,
            )
        }),
{
    let all = seq![legend_row] + rows;
    let legend = after_legend_cells(progress.legend, legend_row, table_color, parser.rules);
    let next = TableProgress { legend, gathered: progress.gathered };
    assert(all[0] == legend_row);
    assert(all.drop_first() =~= rows);
    assert(row_step(parser, table_color, progress, legend_row) == Ok::<
        TableProgress,
        crate::errors::ButterflyErrorView,
    >(next));
    lemma_content_rows_keep_categories(
        parser,
        table_color,
        next,
        rows,
        progress.gathered.butterflies.len() as int,
    );
}

/// Whether every butterfly from the rank `from` on that has the given colour
/// has the given category.
pub open spec fn colored(st: Extraction, from: int, color: Seq<char>, label: Seq<char>) -> bool {
    forall|k: int|
        from <= k < st.butterflies.len() && (#[trigger] st.butterflies[k]).bgcolor == color
            ==> st.butterflies[k].category == label
}

/// Whether no cell of a row names a category for a colour.
pub open spec fn leaves_color(
    row: Seq<CellView>,
    color: Seq<char>,
    table_color: Seq<char>,
    rules: ParseRulesView,
) -> bool {
    forall|j: int| 0 <= j < row.len() ==> !sets_color(#[trigger] row[j], color, table_color, rules)
}

/// One cell of a content row keeps the butterflies of a colour in the
/// category that the legend gives for the colour.
proof fn lemma_cell_keeps_color(
    parser: WebpageParserView,
    table_color: Seq<char>,
    legend: Seq<(Seq<char>, Seq<char>)>,
    st: Extraction,
    cell: CellView,
    from: int,
    color: Seq<char>,
    label: Seq<char>,
)
    requires
        0 <= from <= st.butterflies.len(),
        legend_lookup(legend, color) == Some(label),
        colored(st, from, color, label),
        content_cell(parser, table_color, legend, st, cell) is Ok,
    ensures
        colored(content_cell(parser, table_color, legend, st, cell)->Ok_0, from, color, label),
        content_cell(parser, table_color, legend, st, cell)->Ok_0.butterflies.len()
            >= st.butterflies.len(),
{
    let next = content_cell(parser, table_color, legend, st, cell)->Ok_0;
    assert forall|k: int|
        from <= k < next.butterflies.len() && (#[trigger] next.butterflies[k]).bgcolor
            == color implies next.butterflies[k].category == label by {
        if k < st.butterflies.len() {
            assert(st.butterflies[k].bgcolor == color ==> st.butterflies[k].category == label);
        }
    }
}

/// The cells of a content row keep the butterflies of a colour in the
/// category that the legend gives for the colour.
proof fn lemma_cells_keep_color(
    parser: WebpageParserView,
    table_color: Seq<char>,
    legend: Seq<(Seq<char>, Seq<char>)>,
    st: Extraction,
    cells: Seq<CellView>,
    from: int,
    color: Seq<char>,
    label: Seq<char>,
)
    requires
        0 <= from <= st.butterflies.len(),
        legend_lookup(legend, color) == Some(label),
        colored(st, from, color, label),
        after_content_cells(parser, table_color, legend, st, cells) is Ok,
    ensures
        colored(
            after_content_cells(parser, table_color, legend, st, cells)->Ok_0,
            from,
            color,
            label,
        ),
        after_content_cells(parser, table_color, legend, st, cells)->Ok_0.butterflies.len()
            >= st.butterflies.len(),
    decreases cells.len(),
{
    if cells.len() > 0 {
        let next = content_cell(parser, table_color, legend, st, cells[0])->Ok_0;
        lemma_cell_keeps_color(parser, table_color, legend, st, cells[0], from, color, label);
        lemma_cells_keep_color(
            parser,
            table_color,
            legend,
            next,
            cells.drop_first(),
            from,
            color,
            label,
        );
    }
}

/// Rows that name no other category for a colour keep the category of the
/// colour, in the legend and in the butterflies of that colour.
proof fn lemma_rows_keep_color(
    parser: WebpageParserView,
    table_color: Seq<char>,
    progress: TableProgress,
    rows: Seq<Seq<CellView>>,
    from: int,
    color: Seq<char>,
    label: Seq<char>,
)
    requires
        0 <= from <= progress.gathered.butterflies.len(),
        legend_lookup(progress.legend, color) == Some(label),
        colored(progress.gathered, from, color, label),
        forall|i: int|
            0 <= i < rows.len() && is_legend_row(#[trigger] rows[i], parser.rules) ==> leaves_color(
                rows[i],
                color,
                table_color,
                parser.rules,
            ),
        after_rows(parser, table_color, progress, rows) is Ok,
    ensures
        legend_lookup(after_rows(parser, table_color, progress, rows)->Ok_0.legend, color) == Some(
            label,
        ),
        colored(after_rows(parser, table_color, progress, rows)->Ok_0.gathered, from, color, label),
        after_rows(parser, table_color, progress, rows)->Ok_0.gathered.butterflies.len()
            >= progress.gathered.butterflies.len(),
    decreases rows.len(),
{
    if rows.len() > 0 {
        let next = row_step(parser, table_color, progress, rows[0])->Ok_0;
        if is_legend_row(rows[0], parser.rules) {
            assert(leaves_color(rows[0], color, table_color, parser.rules));
            lemma_other_cells_keep_color(
                progress.legend,
                rows[0],
                color,
                table_color,
                parser.rules,
            );
        } else {
            lemma_cells_keep_color(
                parser,
                table_color,
                progress.legend,
                progress.gathered,
                rows[0],
                from,
                color,
                label,
            );
        }
        assert forall|i: int|
            0 <= i < rows.drop_first().len() && is_legend_row(
                #[trigger] rows.drop_first()[i],
                parser.rules,
            ) implies leaves_color(rows.drop_first()[i], color, table_color, parser.rules) by {
            assert(rows.drop_first()[i] == rows[i + 1]);
        }
        lemma_rows_keep_color(parser, table_color, next, rows.drop_first(), from, color, label);
    }
}

/// A category holds for its colour until a legend row names another.
///
/// Take a point in the walk of a table at which the legend gives a category
/// for a colour, and the rows from there on up to, and without, the next
/// legend row that names a category for that colour. Where their walk
/// succeeds, the legend at its end still gives that category for the colour,
/// every butterfly that was there before is still there, and every butterfly
/// of that colour which these rows add has that category.
pub proof fn law_category_holds_for_color(
    parser: WebpageParserView,
    table_color: Seq<char>,
    progress: TableProgress,
    rows: Seq<Seq<CellView>>,
    color: Seq<char>,
    label: Seq<char>,
)
    requires
        legend_lookup(progress.legend, color) == Some(label),
        forall|i: int|
            0 <= i < rows.len() && is_legend_row(#[trigger] rows[i], parser.rules) ==> leaves_color(
                rows[i],
                color,
                table_color,
                parser.rules,
            ),
        after_rows(parser, table_color, progress, rows) is Ok,
    ensures
        legend_lookup(after_rows(parser, table_color, progress, rows)->Ok_0.legend, color) == Some(
            label,
        ),
        colored(
            after_rows(parser, table_color, progress, rows)->Ok_0.gathered,
            progress.gathered.butterflies.len() as int,
            color,
            label,
        ),
        after_rows(parser, table_color, progress, rows)->Ok_0.gathered.butterflies.len()
            >= progress.gathered.butterflies.len(),
{
    lemma_rows_keep_color(
        parser,
        table_color,
        progress,
        rows,
        progress.gathered.butterflies.len() as int,
        color,
        label,
    );
}

/// Whether every butterfly that was made is still there, with the category,
/// the colour and the image it was made with.
pub open spec fn keeps_made(before: Extraction, after: Extraction) -> bool {
    &&& after.butterflies.len() >= before.butterflies.len()
    &&& forall|k: int|
        0 <= k < before.butterflies.len() ==> {
            &&& (#[trigger] after.butterflies[k]).category == before.butterflies[k].category
            &&& after.butterflies[k].bgcolor == before.butterflies[k].bgcolor
            &&& after.butterflies[k].img_src == before.butterflies[k].img_src
        }
}

/// The cells of a content row leave the butterflies that were made as they
/// were made.
proof fn lemma_cells_keep_made(
    parser: WebpageParserView,
    table_color: Seq<char>,
    legend: Seq<(Seq<char>, Seq<char>)>,
    st: Extraction,
    cells: Seq<CellView>,
)
    requires
        after_content_cells(parser, table_color, legend, st, cells) is Ok,
    ensures
        keeps_made(st, after_content_cells(parser, table_color, legend, st, cells)->Ok_0),
    decreases cells.len(),
{
    if cells.len() > 0 {
        let next = content_cell(parser, table_color, legend, st, cells[0])->Ok_0;
        let end = after_content_cells(parser, table_color, legend, st, cells)->Ok_0;
        lemma_cells_keep_made(parser, table_color, legend, next, cells.drop_first());
        assert forall|k: int| 0 <= k < st.butterflies.len() implies {
            &&& (#[trigger] end.butterflies[k]).category == st.butterflies[k].category
            &&& end.butterflies[k].bgcolor == st.butterflies[k].bgcolor
            &&& end.butterflies[k].img_src == st.butterflies[k].img_src
        } by {
            assert(next.butterflies[k].category == st.butterflies[k].category);
            assert(next.butterflies[k].bgcolor == st.butterflies[k].bgcolor);
            assert(next.butterflies[k].img_src == st.butterflies[k].img_src);
        }
    }
}

/// Later rows do not touch what earlier rows made.
///
/// Where the walk of some rows of a table succeeds, be they legend rows or
/// content rows, every butterfly that was there before is still there, with
/// the category, the colour and the image it was made with: a later legend
/// row changes the category of no butterfly.
pub proof fn law_rows_keep_made(
    parser: WebpageParserView,
    table_color: Seq<char>,
    progress: TableProgress,
    rows: Seq<Seq<CellView>>,
)
    requires
        after_rows(parser, table_color, progress, rows) is Ok,
    ensures
        keeps_made(
            progress.gathered,
            after_rows(parser, table_color, progress, rows)->Ok_0.gathered,
        ),
    decreases rows.len(),
{
    if rows.len() > 0 {
        let next = row_step(parser, table_color, progress, rows[0])->Ok_0;
        let end = after_rows(parser, table_color, progress, rows)->Ok_0.gathered;
        if !is_legend_row(rows[0], parser.rules) {
            lemma_cells_keep_made(
                parser,
                table_color,
                progress.legend,
                progress.gathered,
                rows[0],
            );
        }
        law_rows_keep_made(parser, table_color, next, rows.drop_first());
        assert forall|k: int| 0 <= k < progress.gathered.butterflies.len() implies {
            &&& (#[trigger] end.butterflies[k]).category == progress.gathered.butterflies[k].category
            &&& end.butterflies[k].bgcolor == progress.gathered.butterflies[k].bgcolor
            &&& end.butterflies[k].img_src == progress.gathered.butterflies[k].img_src
        } by {
            assert(next.gathered.butterflies[k].category
                == progress.gathered.butterflies[k].category);
            assert(next.gathered.butterflies[k].bgcolor
                == progress.gathered.butterflies[k].bgcolor);
            assert(next.gathered.butterflies[k].img_src
                == progress.gathered.butterflies[k].img_src);
        }
    }
}

/// The walk of rows followed by more rows is the walk of the first followed
/// by the walk of the others.
pub proof fn lemma_rows_walk_in_parts(
    parser: WebpageParserView,
    table_color: Seq<char>,
    progress: TableProgress,
    rows: Seq<Seq<CellView>>,
    later: Seq<Seq<CellView>>,
)
    ensures
        after_rows(parser, table_color, progress, rows + later) == match after_rows(
            parser,
            table_color,
            progress,
            rows,
        ) {
            Ok(mid) => after_rows(parser, table_color, mid, later),
            Err(e) => Err(e),
        },
    decreases rows.len(),
{
    if rows.len() == 0 {
        assert(rows + later =~= later);
    } else {
        assert((rows + later)[0] == rows[0]);
        assert((rows + later).drop_first() =~= rows.drop_first() + later);
        match row_step(parser, table_color, progress, rows[0]) {
            Ok(next) => {
                lemma_rows_walk_in_parts(parser, table_color, next, rows.drop_first(), later);
            },
            Err(_) => {},
        }
    }
}

/// A legend row decides the category of its colour until it is replaced, and
/// for good in the butterflies made until then.
///
/// Take a legend row whose cell at `i` is the last of the row to name a
/// category for its colour; then the rows below it up to, and without, the
/// next legend row that names a category for that colour; then any further
/// rows of the table, among them legend rows for that colour. Where the walk
/// of all of them succeeds, every butterfly of that colour which the rows
/// between the two legend rows add has, at the end of the walk, the category
/// that the cell at `i` names: the text of the cell from the marker on.
pub proof fn law_legend_decides_until_replaced(
    parser: WebpageParserView,
    table_color: Seq<char>,
    progress: TableProgress,
    legend_row: Seq<CellView>,
    i: int,
    rows: Seq<Seq<CellView>>,
    later: Seq<Seq<CellView>>,
)
    requires
        is_legend_row(legend_row, parser.rules),
        0 <= i < legend_row.len(),
        names_category(legend_row[i].text, parser.rules.category_marker),
        forall|j: int|
            i < j < legend_row.len() ==> !sets_color(
                #[trigger] legend_row[j],
                cell_color(legend_row[i], table_color),
                table_color,
                parser.rules,
            ),
        forall|r: int|
            0 <= r < rows.len() && is_legend_row(#[trigger] rows[r], parser.rules) ==> leaves_color(
                rows[r],
                cell_color(legend_row[i], table_color),
                table_color,
                parser.rules,
            ),
        after_rows(parser, table_color, progress, (seq![legend_row] + rows) + later) is Ok,
    ensures
        after_rows(parser, table_color, progress, seq![legend_row] + rows) is Ok,
        ({
            let made = after_rows(
                parser,
                table_color,
                progress,
                seq![legend_row] + rows,
            )->Ok_0.gathered.butterflies.len();
            let end = after_rows(
                parser,
                table_color,
                progress,
                (seq![legend_row] + rows) + later,
            )->Ok_0.gathered;
            &&& progress.gathered.butterflies.len() <= made <= end.butterflies.len()
            &&& forall|k: int|
                progress.gathered.butterflies.len() <= k < made && (
                #[trigger] end.butterflies[k]).bgcolor == cell_color(legend_row[i], table_color)
                    ==> end.butterflies[k].category == legend_label(
                    legend_row[i].text,
                    parser.rules.category_marker,
                )
        }),
{
    let color = cell_color(legend_row[i], table_color);
    let label = legend_label(legend_row[i].text, parser.rules.category_marker);
    let first = seq![legend_row] + rows;
    lemma_rows_walk_in_parts(parser, table_color, progress, first, later);
    let mid = after_rows(parser, table_color, progress, first)->Ok_0;
    let end = after_rows(parser, table_color, progress, first + later)->Ok_0.gathered;
    let legend = after_legend_cells(progress.legend, legend_row, table_color, parser.rules);
    let below = TableProgress { legend, gathered: progress.gathered };
    assert(first[0] == legend_row);
    assert(first.drop_first() =~= rows);
    assert(row_step(parser, table_color, progress, legend_row) == Ok::<
        TableProgress,
        crate::errors::ButterflyErrorView,
    >(below));
    law_legend_row_names_color(progress.legend, legend_row, i, table_color, parser.rules);
    law_category_holds_for_color(parser, table_color, below, rows, color, label);
    law_rows_keep_made(parser, table_color, mid, later);
    assert forall|k: int|
        progress.gathered.butterflies.len() <= k < mid.gathered.butterflies.len() && (
        #[trigger] end.butterflies[k]).bgcolor == color implies end.butterflies[k].category
        == label by {
        assert(mid.gathered.butterflies[k].bgcolor == color);
        assert(mid.gathered.butterflies[k].category == label);
    }
}

} // verus!
