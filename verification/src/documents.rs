//! The list of documents: every document that a butterfly links to is listed,
//! and none is listed twice, so that each is fetched once.
use vstd::prelude::*;
use crate::butterfly::ButterflyView;
use crate::butterfly_collector::{
    documents_of, gathered_pdfs, lemma_documents_no_duplicates,
    lemma_gathered_pdfs_no_duplicates, lemma_with_pdf_no_duplicates,
    with_pdfs,
};
use crate::page::{CellView, TableView};
use crate::webpage_parser::{
    after_content_cells, after_rows, after_tables, content_cell, extraction, is_legend_row,
    locator_of, row_step, table_color, table_step, Extraction, TableProgress,
    WebpageParseResultView, WebpageParserView,
};

verus! {

/// Whether a list of documents holds the document of every butterfly, its
/// locator with its directory, and holds none twice.
pub open spec fn lists_documents(
    butterflies: Seq<ButterflyView>,
    pdfs: Seq<(Seq<char>, Seq<char>)>,
) -> bool {
    &&& pdfs.no_duplicates()
    &&& forall|k: int|
        0 <= k < butterflies.len() ==> pdfs.contains(
            ((#[trigger] butterflies[k]).pdf_src, butterflies[k].dir_name),
        )
}

/// One cell keeps the list of documents complete and free of duplicates.
proof fn lemma_cell_lists_documents(
    parser: WebpageParserView,
    color: Seq<char>,
    legend: Seq<(Seq<char>, Seq<char>)>,
    st: Extraction,
    cell: CellView,
)
    requires
        lists_documents(st.butterflies, st.pdfs),
        content_cell(parser, color, legend, st, cell) is Ok,
    ensures
        lists_documents(
            content_cell(parser, color, legend, st, cell)->Ok_0.butterflies,
            content_cell(parser, color, legend, st, cell)->Ok_0.pdfs,
        ),
{
    let next = content_cell(parser, color, legend, st, cell)->Ok_0;
    if cell.has_image {
        lemma_with_pdf_no_duplicates(st.pdfs, (locator_of(cell), parser.dir_name));
        assert forall|k: int| 0 <= k < next.butterflies.len() implies next.pdfs.contains(
            ((#[trigger] next.butterflies[k]).pdf_src, next.butterflies[k].dir_name),
        ) by {
            if k < st.butterflies.len() {
                assert(next.butterflies[k] == st.butterflies[k]);
                assert(st.pdfs.contains((st.butterflies[k].pdf_src, st.butterflies[k].dir_name)));
            }
        }
    } else {
        assert forall|k: int| 0 <= k < next.butterflies.len() implies next.pdfs.contains(
            ((#[trigger] next.butterflies[k]).pdf_src, next.butterflies[k].dir_name),
        ) by {
            assert(st.pdfs.contains((st.butterflies[k].pdf_src, st.butterflies[k].dir_name)));
            assert(next.butterflies[k].pdf_src == st.butterflies[k].pdf_src);
            assert(next.butterflies[k].dir_name == st.butterflies[k].dir_name);
        }
    }
}

/// The cells of a row keep the list of documents complete and free of
/// duplicates.
proof fn lemma_cells_list_documents(
    parser: WebpageParserView,
    color: Seq<char>,
    legend: Seq<(Seq<char>, Seq<char>)>,
    st: Extraction,
    cells: Seq<CellView>,
)
    requires
        lists_documents(st.butterflies, st.pdfs),
        after_content_cells(parser, color, legend, st, cells) is Ok,
    ensures
        lists_documents(
            after_content_cells(parser, color, legend, st, cells)->Ok_0.butterflies,
            after_content_cells(parser, color, legend, st, cells)->Ok_0.pdfs,
        ),
    decreases cells.len(),
{
    if cells.len() > 0 {
        let next = content_cell(parser, color, legend, st, cells[0])->Ok_0;
        lemma_cell_lists_documents(parser, color, legend, st, cells[0]);
        lemma_cells_list_documents(parser, color, legend, next, cells.drop_first());
    }
}

/// The rows of a table keep the list of documents complete and free of
/// duplicates.
proof fn lemma_rows_list_documents(
    parser: WebpageParserView,
    color: Seq<char>,
    progress: TableProgress,
    rows: Seq<Seq<CellView>>,
)
    requires
        lists_documents(progress.gathered.butterflies, progress.gathered.pdfs),
        after_rows(parser, color, progress, rows) is Ok,
    ensures
        lists_documents(
            after_rows(parser, color, progress, rows)->Ok_0.gathered.butterflies,
            after_rows(parser, color, progress, rows)->Ok_0.gathered.pdfs,
        ),
    decreases rows.len(),
{
    if rows.len() > 0 {
        let next = row_step(parser, color, progress, rows[0])->Ok_0;
        if !is_legend_row(rows[0], parser.rules) {
            lemma_cells_list_documents(
                parser,
                color,
                progress.legend,
                progress.gathered,
                rows[0],
            );
        }
        lemma_rows_list_documents(parser, color, next, rows.drop_first());
    }
}

/// The tables of a page keep the list of documents complete and free of
/// duplicates.
proof fn lemma_tables_list_documents(
    parser: WebpageParserView,
    st: Extraction,
    tables: Seq<TableView>,
)
    requires
        lists_documents(st.butterflies, st.pdfs),
        after_tables(parser, st, tables) is Ok,
    ensures
        lists_documents(
            after_tables(parser, st, tables)->Ok_0.butterflies,
            after_tables(parser, st, tables)->Ok_0.pdfs,
        ),
    decreases tables.len(),
{
    if tables.len() > 0 {
        let next = table_step(parser, st, tables[0])->Ok_0;
        lemma_rows_list_documents(
            parser,
            table_color(tables[0].bgcolor, parser.rules),
            TableProgress { legend: Seq::empty(), gathered: st },
            tables[0].rows,
        );
        lemma_tables_list_documents(parser, next, tables.drop_first());
    }
}

/// A page lists each of its documents once.
///
/// Where the extraction of a page succeeds, its list of documents holds the
/// document of every butterfly, and holds no document twice: two butterflies
/// with one locator and one directory share one entry.
pub proof fn law_page_lists_documents_once(parser: WebpageParserView, page: Seq<TableView>)
    requires
        extraction(parser, page) is Ok,
    ensures
        lists_documents(
            extraction(parser, page)->Ok_0.butterflies,
            extraction(parser, page)->Ok_0.pdfs,
        ),
{
    lemma_tables_list_documents(parser, Extraction::start(), page);
}

/// A list with more documents holds what it held and what was added, and
/// stays free of duplicates.
proof fn lemma_with_pdfs_holds(
    pdfs: Seq<(Seq<char>, Seq<char>)>,
    more: Seq<(Seq<char>, Seq<char>)>,
)
    requires
        pdfs.no_duplicates(),
    ensures
        with_pdfs(pdfs, more).no_duplicates(),
        forall|p: (Seq<char>, Seq<char>)| pdfs.contains(p) ==> with_pdfs(pdfs, more).contains(p),
        forall|i: int| 0 <= i < more.len() ==> with_pdfs(pdfs, more).contains(#[trigger] more[i]),
    decreases more.len(),
{
    if more.len() > 0 {
        let before = with_pdfs(pdfs, more.drop_last());
        lemma_with_pdfs_holds(pdfs, more.drop_last());
        lemma_with_pdf_no_duplicates(before, more.last());
        assert forall|i: int| 0 <= i < more.len() implies with_pdfs(pdfs, more).contains(
            #[trigger] more[i],
        ) by {
            if i < more.len() - 1 {
                assert(more.drop_last()[i] == more[i]);
                assert(before.contains(more[i]));
            }
        }
    }
}

/// Whether a list of documents holds the documents of every page of a list.
pub open spec fn holds_pages(
    results: Seq<WebpageParseResultView>,
    pdfs: Seq<(Seq<char>, Seq<char>)>,
) -> bool {
    forall|r: int, i: int|
        0 <= r < results.len() && 0 <= i < results[r].pdfs.len() ==> pdfs.contains(
            #[trigger] results[r].pdfs[i],
        )
}

/// The pages together list each of their documents once.
///
/// The documents of a list of pages hold every document of every page, and
/// hold no document twice: a document that several pages or several
/// butterflies link to from one directory is fetched once.
pub proof fn law_pages_list_documents_once(results: Seq<WebpageParseResultView>)
    ensures
        gathered_pdfs(results).no_duplicates(),
        holds_pages(results, gathered_pdfs(results)),
    decreases results.len(),
{
    lemma_gathered_pdfs_no_duplicates(results);
    if results.len() > 0 {
        let before = gathered_pdfs(results.drop_last());
        law_pages_list_documents_once(results.drop_last());
        lemma_with_pdfs_holds(before, results.last().pdfs);
        assert forall|r: int, i: int|
            0 <= r < results.len() && 0 <= i < results[r].pdfs.len() implies gathered_pdfs(
            results,
        ).contains(#[trigger] results[r].pdfs[i]) by {
            if r < results.len() - 1 {
                assert(results.drop_last()[r] == results[r]);
                assert(before.contains(results.drop_last()[r].pdfs[i]));
            }
        }
    }
}

/// A restored collection lists each of its documents once.
///
/// The documents derived from stored butterflies hold the document of every
/// butterfly, and hold no document twice.
pub proof fn law_restored_documents_once(list: Seq<ButterflyView>)
    ensures
        lists_documents(list, documents_of(list)),
    decreases list.len(),
{
    lemma_documents_no_duplicates(list);
    if list.len() > 0 {
        let before = documents_of(list.drop_last());
        law_restored_documents_once(list.drop_last());
        lemma_with_pdf_no_duplicates(before, (list.last().pdf_src, list.last().dir_name));
        assert forall|k: int| 0 <= k < list.len() implies documents_of(list).contains(
            ((#[trigger] list[k]).pdf_src, list[k].dir_name),
        ) by {
            if k < list.len() - 1 {
                assert(list.drop_last()[k] == list[k]);
                assert(before.contains((list[k].pdf_src, list[k].dir_name)));
            }
        }
    }
}

/// The documents of a list depend on the locators and the directories of its
/// butterflies alone.
proof fn lemma_documents_same_keys(a: Seq<ButterflyView>, b: Seq<ButterflyView>)
    requires
        a.len() == b.len(),
        forall|k: int|
            0 <= k < a.len() ==> (#[trigger] a[k]).pdf_src == b[k].pdf_src && a[k].dir_name
                == b[k].dir_name,
    ensures
        documents_of(a) == documents_of(b),
    decreases a.len(),
{
    if a.len() > 0 {
        assert(a.last().pdf_src == b.last().pdf_src && a.last().dir_name == b.last().dir_name) by {
            assert(a[a.len() - 1].pdf_src == b[a.len() - 1].pdf_src);
        }
        assert forall|k: int| 0 <= k < a.drop_last().len() implies (
        #[trigger] a.drop_last()[k]).pdf_src == b.drop_last()[k].pdf_src && a.drop_last()[k].dir_name
            == b.drop_last()[k].dir_name by {
            assert(a[k].pdf_src == b[k].pdf_src);
        }
        lemma_documents_same_keys(a.drop_last(), b.drop_last());
    }
}

/// The cells of a content row keep the documents those of the butterflies.
proof fn lemma_cells_derive_documents(
    parser: WebpageParserView,
    color: Seq<char>,
    legend: Seq<(Seq<char>, Seq<char>)>,
    st: Extraction,
    cells: Seq<CellView>,
)
    requires
        st.pdfs == documents_of(st.butterflies),
        after_content_cells(parser, color, legend, st, cells) is Ok,
    ensures
        after_content_cells(parser, color, legend, st, cells)->Ok_0.pdfs == documents_of(
            after_content_cells(parser, color, legend, st, cells)->Ok_0.butterflies,
        ),
    decreases cells.len(),
{
    if cells.len() > 0 {
        let cell = cells[0];
        let next = content_cell(parser, color, legend, st, cell)->Ok_0;
        if cell.has_image {
            assert(next.butterflies.drop_last() =~= st.butterflies);
        } else {
            lemma_documents_same_keys(st.butterflies, next.butterflies);
        }
        lemma_cells_derive_documents(parser, color, legend, next, cells.drop_first());
    }
}

/// The rows of a table keep the documents those of the butterflies.
proof fn lemma_rows_derive_documents(
    parser: WebpageParserView,
    color: Seq<char>,
    progress: TableProgress,
    rows: Seq<Seq<CellView>>,
)
    requires
        progress.gathered.pdfs == documents_of(progress.gathered.butterflies),
        after_rows(parser, color, progress, rows) is Ok,
    ensures
        after_rows(parser, color, progress, rows)->Ok_0.gathered.pdfs == documents_of(
            after_rows(parser, color, progress, rows)->Ok_0.gathered.butterflies,
        ),
    decreases rows.len(),
{
    if rows.len() > 0 {
        let next = row_step(parser, color, progress, rows[0])->Ok_0;
        if !is_legend_row(rows[0], parser.rules) {
            lemma_cells_derive_documents(
                parser,
                color,
                progress.legend,
                progress.gathered,
                rows[0],
            );
        }
        lemma_rows_derive_documents(parser, color, next, rows.drop_first());
    }
}

/// The tables of a page keep the documents those of the butterflies.
proof fn lemma_tables_derive_documents(
    parser: WebpageParserView,
    st: Extraction,
    tables: Seq<TableView>,
)
    requires
        st.pdfs == documents_of(st.butterflies),
        after_tables(parser, st, tables) is Ok,
    ensures
        after_tables(parser, st, tables)->Ok_0.pdfs == documents_of(
            after_tables(parser, st, tables)->Ok_0.butterflies,
        ),
    decreases tables.len(),
{
    if tables.len() > 0 {
        let next = table_step(parser, st, tables[0])->Ok_0;
        lemma_rows_derive_documents(
            parser,
            table_color(tables[0].bgcolor, parser.rules),
            TableProgress { legend: Seq::empty(), gathered: st },
            tables[0].rows,
        );
        lemma_tables_derive_documents(parser, next, tables.drop_first());
    }
}

/// The documents of a page are the documents of its butterflies.
///
/// Where the extraction of a page succeeds, its list of documents is the list
/// that is derived from its butterflies, locator and directory of each: what
/// a page lists and what is derived from its stored butterflies is the same.
pub proof fn law_page_documents_are_derived(parser: WebpageParserView, page: Seq<TableView>)
    requires
        extraction(parser, page) is Ok,
    ensures
        extraction(parser, page)->Ok_0.pdfs == documents_of(
            extraction(parser, page)->Ok_0.butterflies,
        ),
{
    lemma_tables_derive_documents(parser, Extraction::start(), page);
}

} // verus!
