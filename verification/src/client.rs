//! Client used to retrieve butterfly data.
use vstd::prelude::*;
use crate::butterfly_collector::{
    gathered_butterflies, gathered_dirs, gathered_pdfs, result_views, warning_views,
    ButterflyCollector, Warning, WarningCause, WarningCauseView, WarningView,
};
use crate::csv_data::{optional_text, row_views, ReferenceRow};
use crate::errors::{ButterflyError, ButterflyErrorView};
use crate::page::{page_of, parsed_document};
use crate::webpage_parser::{
    extraction, WebpageParseResult, WebpageParseResultView, WebpageParser, WebpageParserView,
};

verus! {

/// Client used to retrieve butterfly data
///
/// A client is made of the parsers of the pages to read. It names the pages
/// to fetch with `page_urls` and gathers the butterflies of the fetched pages
/// with `collect_datas`.
#[derive(Debug)]
pub struct Client {
    targets: Vec<WebpageParser>,
}

/// The views of a list of parsers.
pub open spec fn parser_views(list: Seq<WebpageParser>) -> Seq<WebpageParserView> {
    list.map_values(|p: WebpageParser| p@)
}

/// The text of the page at `i`; none where the list has no such page.
pub open spec fn html_at(pages: Seq<Option<String>>, i: int) -> Option<Seq<char>> {
    if 0 <= i < pages.len() {
        optional_text(pages[i])
    } else {
        None
    }
}

/// What a parser finds in the text of its page. A page that was not fetched
/// is an error that names the page; a page that was fetched gives what its
/// extraction gives.
pub open spec fn page_outcome(parser: WebpageParserView, html: Option<Seq<char>>) -> Result<
    WebpageParseResultView,
    ButterflyErrorView,
> {
    match html {
        None => Err(ButterflyErrorView::FailedToFetchHTML(parser.url)),
        Some(text) => match extraction(parser, page_of(parsed_document(text))) {
            Ok(found) => Ok(
                WebpageParseResultView {
                    dir_name: parser.dir_name,
                    region: parser.region,
                    url: parser.url,
                    butterflies: found.butterflies,
                    pdfs: found.pdfs,
                },
            ),
            Err(e) => Err(e),
        },
    }
}

/// What the first `n` parsers find, those left out whose page gives an
/// error.
pub open spec fn page_results(
    targets: Seq<WebpageParserView>,
    pages: Seq<Option<String>>,
    n: int,
) -> Seq<WebpageParseResultView>
    decreases n,
{
    if n <= 0 {
        Seq::empty()
    } else {
        match page_outcome(targets[n - 1], html_at(pages, n - 1)) {
            Ok(found) => page_results(targets, pages, n - 1).push(found),
            Err(_) => page_results(targets, pages, n - 1),
        }
    }
}

/// The warnings for those of the first `n` parsers whose page gives an
/// error: each names the page and holds the error.
pub open spec fn page_warnings(
    targets: Seq<WebpageParserView>,
    pages: Seq<Option<String>>,
    n: int,
) -> Seq<WarningView>
    decreases n,
{
    if n <= 0 {
        Seq::empty()
    } else {
        match page_outcome(targets[n - 1], html_at(pages, n - 1)) {
            Ok(_) => page_warnings(targets, pages, n - 1),
            Err(e) => page_warnings(targets, pages, n - 1).push(
                WarningView { subject: targets[n - 1].url, cause: WarningCauseView::Page(e) },
            ),
        }
    }
}

/// One page that is read gives the collection its butterflies.
///
/// With one parser whose page was fetched and is extracted, the butterflies
/// of the collection are those of the page, in their order, and there is no
/// warning.
pub proof fn law_one_page_is_collected(targets: Seq<WebpageParserView>, pages: Seq<Option<String>>)
    requires
        targets.len() == 1,
        page_outcome(targets[0], html_at(pages, 0)) is Ok,
    ensures
        gathered_butterflies(page_results(targets, pages, 1)) == page_outcome(
            targets[0],
            html_at(pages, 0),
        )->Ok_0.butterflies,
        page_warnings(targets, pages, 1) == Seq::<WarningView>::empty(),
{
    let found = page_outcome(targets[0], html_at(pages, 0))->Ok_0;
    let results = page_results(targets, pages, 1);
    assert(page_results(targets, pages, 0) =~= Seq::empty());
    assert(results =~= seq![found]);
    assert(results.drop_last() =~= Seq::empty());
    assert(gathered_butterflies(results.drop_last()) =~= Seq::empty());
    assert(gathered_butterflies(results) =~= found.butterflies);
    assert(page_warnings(targets, pages, 0) =~= Seq::empty());
}

impl Client {
    /// The parsers of this client.
    pub closed spec fn targets(&self) -> Seq<WebpageParserView> {
        parser_views(self.targets@)
    }

    /// Create an new instance of `Client`
    pub fn new(targets: Vec<WebpageParser>) -> (r: Client)
        ensures
            r.targets() == parser_views(targets@),
    {
        Client { targets }
    }

    /// The addresses of the pages to fetch, one for each parser and in their
    /// order.
    pub fn page_urls(&self) -> (r: Vec<String>)
        ensures
            r.len() == self.targets().len(),
            forall|i: int| 0 <= i < r.len() ==> (#[trigger] r@[i])@ == self.targets()[i].url,
    {
        let mut out: Vec<String> = Vec::new();
        let mut i: usize = 0;
        while i < self.targets.len()
            invariant
                i <= self.targets.len(),
                out.len() == i,
                forall|k: int| 0 <= k < i ==> (#[trigger] out@[k])@ == self.targets()[k].url,
            decreases self.targets.len() - i,
        {
            out.push(self.targets[i].url.clone());
            i += 1;
        }
        out
    }

    /// Collect datas from the pages of the butterfly website
    ///
    /// `pages` holds the text of each parser's page, in the order of the
    /// parsers, and `None` for a page that could not be fetched. A page that
    /// could not be fetched or read is left out and reported in a warning;
    /// the other pages are not affected by it.
    pub fn collect_datas(&self, pages: &Vec<Option<String>>, csv_data_map: Vec<ReferenceRow>) -> (r:
        ButterflyCollector)
        ensures
            r@.butterflies == gathered_butterflies(
                page_results(self.targets(), pages@, self.targets().len() as int),
            ),
            r@.pdfs == gathered_pdfs(
                page_results(self.targets(), pages@, self.targets().len() as int),
            ),
            r@.region_dirs == gathered_dirs(
                page_results(self.targets(), pages@, self.targets().len() as int),
            ),
            r@.warnings == page_warnings(self.targets(), pages@, self.targets().len() as int),
            r@.csv_data_map == row_views(csv_data_map@),
            r@.well_formed(),
    {
        let mut results: Vec<WebpageParseResult> = Vec::new();
        let mut warnings: Vec<Warning> = Vec::new();
        let mut i: usize = 0;
        proof {
            assert(result_views(results@) =~= Seq::empty());
            assert(warning_views(warnings@) =~= Seq::empty());
        }
        while i < self.targets.len()
            invariant
                i <= self.targets.len(),
                result_views(results@) == page_results(self.targets(), pages@, i as int),
                warning_views(warnings@) == page_warnings(self.targets(), pages@, i as int),
            decreases self.targets.len() - i,
        {
            let target = &self.targets[i];
            assert(self.targets()[i as int] == target@);
            let ghost old_results = result_views(results@);
            let ghost old_warnings = warning_views(warnings@);
            let outcome = if i < pages.len() {
                match &pages[i] {
                    Some(html) => target.parse_html(html.as_str()),
                    None => Err(ButterflyError::FailedToFetchHTML(target.url.clone())),
                }
            } else {
                Err(ButterflyError::FailedToFetchHTML(target.url.clone()))
            };
            match outcome {
                Ok(found) => {
                    results.push(found);
                    assert(result_views(results@) =~= old_results.push(found@));
                    assert(page_outcome(target@, html_at(pages@, i as int)) == Ok::<
                        WebpageParseResultView,
                        ButterflyErrorView,
                    >(found@));
                },
                Err(e) => {
                    let subject = target.url.clone();
                    warnings.push(Warning { subject, cause: WarningCause::Page(e) });
                    assert(warning_views(warnings@) =~= old_warnings.push(
                        WarningView { subject: target@.url, cause: WarningCauseView::Page(e@) },
                    ));
                },
            }
            i += 1;
        }
        let mut collector = ButterflyCollector::from_parse_result(results, csv_data_map);
        collector.warnings = warnings;
        collector
    }
}

} // verus!
