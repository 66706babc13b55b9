//! # Butterfly Collector
//!
//! This module exports `ButterflyCollector` which is used to retrieve assets
//! based upon the data that were previously extraced.
//!
//! The collector does not fetch anything itself. For each kind of asset it
//! hands out what is to be fetched, and it records each outcome: a success in
//! the butterflies concerned, a failure as a warning. A failure never touches
//! a butterfly.
//!
//! You should call `finalize` when all the data has been acquired.
use vstd::prelude::*;
use vstd::string::StringExecFns;
use crate::assets::{
    directory_of, download_for, plan_download, resolved_url, site_url, asset_directory,
    DownloadRequest, DownloadRequestView,
};
use crate::butterfly::{butterfly_views, Butterfly, ButterflyView};
use crate::cloud_vision::{color_views, CloudVisionError, Color, ColorView};
use crate::constants::{BUTTERFLY_URL, IMAGE_DIRECTORY, PDF_DIRECTORY};
use crate::csv_data::{find_row, lookup, row_views, ReferenceRow, ReferenceRowView};
use crate::errors::{ButterflyError, ButterflyErrorView};
use crate::ordering::{law_ordered_list_is_settled, settled};
use crate::text::{chars_of, lemma_lex_irreflexive, lemma_lex_total, lex_lt, precedes};
use crate::webpage_parser::{
    add_pdf, pdf_views, with_pdf, WebpageParseResult, WebpageParseResultView,
};

verus! {

/// Why an item was left as it was.
#[derive(Debug, PartialEq, Eq, Clone)]
pub enum WarningCause {
    /// No row of the reference table has the butterfly's names.
    ReferenceMissing,
    /// The image could not be fetched or stored.
    Image(ButterflyError),
    /// The document could not be fetched or stored.
    Document(ButterflyError),
    /// The colours of the image could not be analysed.
    Colors(CloudVisionError),
    /// The page could not be fetched or read.
    Page(ButterflyError),
}

/// The cause of a warning as plain values.
#[verifier::ext_equal]
pub enum WarningCauseView {
    ReferenceMissing,
    Image(ButterflyErrorView),
    Document(ButterflyErrorView),
    Colors(CloudVisionError),
    Page(ButterflyErrorView),
}

impl View for WarningCause {
    type V = WarningCauseView;

    open spec fn view(&self) -> WarningCauseView {
        match *self {
            WarningCause::ReferenceMissing => WarningCauseView::ReferenceMissing,
            WarningCause::Image(e) => WarningCauseView::Image(e@),
            WarningCause::Document(e) => WarningCauseView::Document(e@),
            WarningCause::Colors(e) => WarningCauseView::Colors(e),
            WarningCause::Page(e) => WarningCauseView::Page(e@),
        }
    }
}

/// A failure that concerns one item and leaves the rest of the batch alone.
#[derive(Debug, PartialEq, Eq, Clone)]
pub struct Warning {
    /// What the failure concerns: the Japanese name of a butterfly, the
    /// locator of a document, or the address of a page.
    pub subject: String,
    /// What went wrong.
    pub cause: WarningCause,
}

/// A warning as plain values.
#[verifier::ext_equal]
pub struct WarningView {
    pub subject: Seq<char>,
    pub cause: WarningCauseView,
}

impl View for Warning {
    type V = WarningView;

    open spec fn view(&self) -> WarningView {
        WarningView { subject: self.subject@, cause: self.cause@ }
    }
}

/// The views of a list of warnings.
pub open spec fn warning_views(list: Seq<Warning>) -> Seq<WarningView> {
    list.map_values(|w: Warning| w@)
}

/// The views of a list of strings.
pub open spec fn text_views(list: Seq<String>) -> Seq<Seq<char>> {
    list.map_values(|s: String| s@)
}

/// # Butterfly Collector
///
/// Holds the butterflies of all pages with what has been acquired for them.
#[derive(Debug, PartialEq, Eq, Clone)]
pub struct ButterflyCollector {
    /// Collections of butterflies
    pub butterflies: Vec<Butterfly>,
    /// Pdf collection: each document with the directory of its region, none
    /// of them twice
    pub pdfs: Vec<(String, String)>,
    /// Datas parsed from csv file
    pub csv_data_map: Vec<ReferenceRow>,
    /// List of region directories
    pub region_dirs: Vec<String>,
    /// The failures met so far, oldest first
    pub warnings: Vec<Warning>,
}

/// A collector as plain values.
#[verifier::ext_equal]
pub struct CollectorView {
    pub butterflies: Seq<ButterflyView>,
    pub pdfs: Seq<(Seq<char>, Seq<char>)>,
    pub csv_data_map: Seq<ReferenceRowView>,
    pub region_dirs: Seq<Seq<char>>,
    pub warnings: Seq<WarningView>,
}

impl View for ButterflyCollector {
    type V = CollectorView;

    open spec fn view(&self) -> CollectorView {
        CollectorView {
            butterflies: butterfly_views(self.butterflies@),
            pdfs: pdf_views(self.pdfs@),
            csv_data_map: row_views(self.csv_data_map@),
            region_dirs: text_views(self.region_dirs@),
            warnings: warning_views(self.warnings@),
        }
    }
}

impl CollectorView {
    /// No document is listed twice.
    pub open spec fn well_formed(self) -> bool {
        self.pdfs.no_duplicates()
    }
}

/// The butterflies of a list of pages, page after page.
pub open spec fn gathered_butterflies(results: Seq<WebpageParseResultView>) -> Seq<ButterflyView>
    decreases results.len(),
{
    if results.len() == 0 {
        Seq::empty()
    } else {
        gathered_butterflies(results.drop_last()) + results.last().butterflies
    }
}

/// A list of documents with the documents of another list, each added unless
/// it is there already.
pub open spec fn with_pdfs(pdfs: Seq<(Seq<char>, Seq<char>)>, more: Seq<(Seq<char>, Seq<char>)>)
    -> Seq<(Seq<char>, Seq<char>)>
    decreases more.len(),
{
    if more.len() == 0 {
        pdfs
    } else {
        with_pdf(with_pdfs(pdfs, more.drop_last()), more.last())
    }
}

/// The documents of a list of pages, each once, in the order of their first
/// occurrence.
pub open spec fn gathered_pdfs(results: Seq<WebpageParseResultView>) -> Seq<(Seq<char>, Seq<char>)>
    decreases results.len(),
{
    if results.len() == 0 {
        Seq::empty()
    } else {
        with_pdfs(gathered_pdfs(results.drop_last()), results.last().pdfs)
    }
}

/// The directories of a list of pages.
pub open spec fn gathered_dirs(results: Seq<WebpageParseResultView>) -> Seq<Seq<char>> {
    results.map_values(|r: WebpageParseResultView| r.dir_name)
}

/// Adding a document keeps a list free of duplicates.
pub proof fn lemma_with_pdf_no_duplicates(
    pdfs: Seq<(Seq<char>, Seq<char>)>,
    pdf: (Seq<char>, Seq<char>),
)
    requires
        pdfs.no_duplicates(),
    ensures
        with_pdf(pdfs, pdf).no_duplicates(),
        with_pdf(pdfs, pdf).contains(pdf),
        forall|p: (Seq<char>, Seq<char>)| pdfs.contains(p) ==> with_pdf(pdfs, pdf).contains(p),
{
    if !pdfs.contains(pdf) {
        let next = pdfs.push(pdf);
        assert(next[pdfs.len() as int] == pdf);
        assert forall|p: (Seq<char>, Seq<char>)| pdfs.contains(p) implies next.contains(p) by {
            let i = choose|i: int| 0 <= i < pdfs.len() && pdfs[i] == p;
            assert(next[i] == p);
        }
    }
}

/// Adding documents keeps a list free of duplicates.
pub proof fn lemma_with_pdfs_no_duplicates(
    pdfs: Seq<(Seq<char>, Seq<char>)>,
    more: Seq<(Seq<char>, Seq<char>)>,
)
    requires
        pdfs.no_duplicates(),
    ensures
        with_pdfs(pdfs, more).no_duplicates(),
    decreases more.len(),
{
    if more.len() > 0 {
        lemma_with_pdfs_no_duplicates(pdfs, more.drop_last());
        lemma_with_pdf_no_duplicates(with_pdfs(pdfs, more.drop_last()), more.last());
    }
}

/// The documents of a list of pages hold no duplicates.
pub proof fn lemma_gathered_pdfs_no_duplicates(results: Seq<WebpageParseResultView>)
    ensures
        gathered_pdfs(results).no_duplicates(),
    decreases results.len(),
{
    if results.len() > 0 {
        lemma_gathered_pdfs_no_duplicates(results.drop_last());
        lemma_with_pdfs_no_duplicates(gathered_pdfs(results.drop_last()), results.last().pdfs);
    }
}

/// The views of a list of page results.
pub open spec fn result_views(list: Seq<WebpageParseResult>) -> Seq<WebpageParseResultView> {
    list.map_values(|r: WebpageParseResult| r@)
}

/// Adds the documents of a list, each unless it is there already.
fn add_pdfs(pdfs: &mut Vec<(String, String)>, more: &Vec<(String, String)>)
    ensures
        pdf_views(final(pdfs)@) == with_pdfs(pdf_views(old(pdfs)@), pdf_views(more@)),
{
    let mut i: usize = 0;
    assert(pdf_views(more@).take(0) =~= Seq::empty());
    while i < more.len()
        invariant
            i <= more.len(),
            pdf_views(pdfs@) == with_pdfs(pdf_views(old(pdfs)@), pdf_views(more@).take(i as int)),
        decreases more.len() - i,
    {
        let entry = &more[i];
        proof {
            let next = pdf_views(more@).take(i + 1);
            assert(next.drop_last() =~= pdf_views(more@).take(i as int));
            assert(next.last() == (entry.0@, entry.1@));
        }
        add_pdf(pdfs, entry.0.as_str(), entry.1.as_str());
        i += 1;
    }
    assert(pdf_views(more@).take(more.len() as int) =~= pdf_views(more@));
}

/// A butterfly with the facts that the reference table has for its names,
/// or as it is where the table has none.
pub open spec fn joined(b: ButterflyView, rows: Seq<ReferenceRowView>) -> ButterflyView {
    match lookup(rows, b.jp_name, b.eng_name) {
        Some(data) => b.with_reference(data),
        None => b,
    }
}

/// The warnings for the butterflies whose names the reference table does not
/// have, in the order of the butterflies.
pub open spec fn missing_references(list: Seq<ButterflyView>, rows: Seq<ReferenceRowView>) -> Seq<
    WarningView,
>
    decreases list.len(),
{
    if list.len() == 0 {
        Seq::empty()
    } else if lookup(rows, list.last().jp_name, list.last().eng_name) is None {
        missing_references(list.drop_last(), rows).push(
            WarningView { subject: list.last().jp_name, cause: WarningCauseView::ReferenceMissing },
        )
    } else {
        missing_references(list.drop_last(), rows)
    }
}

/// The view of a planned download.
pub open spec fn request_view(r: Result<DownloadRequest, ButterflyError>) -> Result<
    DownloadRequestView,
    ButterflyErrorView,
> {
    match r {
        Ok(request) => Ok(request@),
        Err(e) => Err(e@),
    }
}

/// The view of the outcome of a download.
pub open spec fn outcome_view(o: Result<String, ButterflyError>) -> Result<
    Seq<char>,
    ButterflyErrorView,
> {
    match o {
        Ok(path) => Ok(path@),
        Err(e) => Err(e@),
    }
}

/// The view of the outcome of a colour analysis.
pub open spec fn colors_view(o: Result<Vec<Color>, CloudVisionError>) -> Result<
    Seq<ColorView>,
    CloudVisionError,
> {
    match o {
        Ok(colors) => Ok(color_views(colors@)),
        Err(e) => Err(e),
    }
}

/// The view of the address of an image to analyse.
pub open spec fn address_view(r: Result<String, CloudVisionError>) -> Result<
    Seq<char>,
    CloudVisionError,
> {
    match r {
        Ok(url) => Ok(url@),
        Err(e) => Err(e),
    }
}

/// The address of a butterfly's image for its analysis: the locator of the
/// image resolved against the site's address.
pub open spec fn color_request(b: ButterflyView) -> Result<Seq<char>, CloudVisionError> {
    match resolved_url(BUTTERFLY_URL@, b.img_src) {
        Some(url) => Ok(url),
        None => Err(CloudVisionError::BadRequest),
    }
}

/// The download of a butterfly's image.
pub open spec fn image_download(b: ButterflyView) -> Result<
    DownloadRequestView,
    ButterflyErrorView,
> {
    download_for(b.img_src, b.dir_name, IMAGE_DIRECTORY@, ButterflyErrorView::ImageNameUnknown)
}

/// The download of a document.
pub open spec fn pdf_download(pdf: (Seq<char>, Seq<char>)) -> Result<
    DownloadRequestView,
    ButterflyErrorView,
> {
    download_for(pdf.0, pdf.1, PDF_DIRECTORY@, ButterflyErrorView::FileNameUnknown)
}

/// A butterfly with the path of its image.
pub open spec fn with_image_path(b: ButterflyView, path: Seq<char>) -> ButterflyView {
    ButterflyView { img_path: Some(path), ..b }
}

/// A butterfly with the path of its document, if its document is the one
/// behind the locator.
pub open spec fn with_document_path(b: ButterflyView, locator: Seq<char>, path: Seq<char>)
    -> ButterflyView {
    if b.pdf_src == locator {
        ButterflyView { pdf_path: path, ..b }
    } else {
        b
    }
}

/// A butterfly with the colours of its image in place of those it had.
pub open spec fn with_colors(b: ButterflyView, colors: Seq<ColorView>) -> ButterflyView {
    ButterflyView { dominant_colors: colors, ..b }
}

impl CollectorView {
    /// The collector with one more warning.
    pub open spec fn warned(self, subject: Seq<char>, cause: WarningCauseView) -> CollectorView {
        CollectorView { warnings: self.warnings.push(WarningView { subject, cause }), ..self }
    }

    /// The collector after the outcome of the download of the image of the
    /// butterfly at `index`: a path is stored in that butterfly and nowhere
    /// else, a failure adds a warning and changes no butterfly. An index
    /// beyond the butterflies changes nothing.
    pub open spec fn after_image(self, index: int, outcome: Result<Seq<char>, ButterflyErrorView>)
        -> CollectorView {
        if 0 <= index < self.butterflies.len() {
            match outcome {
                Ok(path) => CollectorView {
                    butterflies: self.butterflies.update(
                        index,
                        with_image_path(self.butterflies[index], path),
                    ),
                    ..self
                },
                Err(e) => self.warned(self.butterflies[index].jp_name, WarningCauseView::Image(e)),
            }
        } else {
            self
        }
    }

    /// The collector after the outcome of the download of the document at
    /// `index`: a path is stored in every butterfly with that document, a
    /// failure adds a warning and changes no butterfly. An index beyond the
    /// documents changes nothing.
    pub open spec fn after_pdf(self, index: int, outcome: Result<Seq<char>, ButterflyErrorView>)
        -> CollectorView {
        if 0 <= index < self.pdfs.len() {
            match outcome {
                Ok(path) => CollectorView {
                    butterflies: self.butterflies.map_values(
                        |b: ButterflyView| with_document_path(b, self.pdfs[index].0, path),
                    ),
                    ..self
                },
                Err(e) => self.warned(self.pdfs[index].0, WarningCauseView::Document(e)),
            }
        } else {
            self
        }
    }

    /// The collector after the outcome of the analysis of the image of the
    /// butterfly at `index`: colours replace those of that butterfly, a
    /// failure adds a warning and changes no butterfly. An index beyond the
    /// butterflies changes nothing.
    pub open spec fn after_colors(
        self,
        index: int,
        outcome: Result<Seq<ColorView>, CloudVisionError>,
    ) -> CollectorView {
        if 0 <= index < self.butterflies.len() {
            match outcome {
                Ok(colors) => CollectorView {
                    butterflies: self.butterflies.update(
                        index,
                        with_colors(self.butterflies[index], colors),
                    ),
                    ..self
                },
                Err(e) => self.warned(self.butterflies[index].jp_name, WarningCauseView::Colors(e)),
            }
        } else {
            self
        }
    }
}

/// Index of the first butterfly at or after `from` whose Japanese name does
/// not come before `name`, or the length of the list if there is none.
pub open spec fn insertion_point(list: Seq<ButterflyView>, name: Seq<char>, from: int) -> int
    decreases list.len() - from,
{
    if from < 0 || from >= list.len() {
        list.len() as int
    } else if !lex_lt(list[from].jp_name, name) {
        from
    } else {
        insertion_point(list, name, from + 1)
    }
}

/// A list in the order of its Japanese names with one more butterfly: it is
/// left out where a butterfly of the same name is in the list, and else
/// stands before the first butterfly whose name does not come before its own.
pub open spec fn placed(list: Seq<ButterflyView>, b: ButterflyView) -> Seq<ButterflyView> {
    let k = insertion_point(list, b.jp_name, 0);
    if k < list.len() && list[k].jp_name == b.jp_name {
        list
    } else {
        list.insert(k, b)
    }
}

/// The butterflies of a list in the order of their Japanese names, of each
/// name the one that comes first in the list.
pub open spec fn sorted_unique(list: Seq<ButterflyView>) -> Seq<ButterflyView>
    decreases list.len(),
{
    if list.len() == 0 {
        Seq::empty()
    } else {
        placed(sorted_unique(list.drop_last()), list.last())
    }
}

/// The documents of a list of butterflies: the locator of each butterfly with
/// its directory, each pair once, in the order of their first occurrence.
pub open spec fn documents_of(list: Seq<ButterflyView>) -> Seq<(Seq<char>, Seq<char>)>
    decreases list.len(),
{
    if list.len() == 0 {
        Seq::empty()
    } else {
        with_pdf(documents_of(list.drop_last()), (list.last().pdf_src, list.last().dir_name))
    }
}

/// A list of texts with one more, unless it is there already.
pub open spec fn with_text(list: Seq<Seq<char>>, text: Seq<char>) -> Seq<Seq<char>> {
    if list.contains(text) {
        list
    } else {
        list.push(text)
    }
}

/// The directories of a list of butterflies, each once, in the order of
/// their first occurrence.
pub open spec fn directories_of(list: Seq<ButterflyView>) -> Seq<Seq<char>>
    decreases list.len(),
{
    if list.len() == 0 {
        Seq::empty()
    } else {
        with_text(directories_of(list.drop_last()), list.last().dir_name)
    }
}

/// The documents of a list of butterflies hold no duplicates.
pub proof fn lemma_documents_no_duplicates(list: Seq<ButterflyView>)
    ensures
        documents_of(list).no_duplicates(),
    decreases list.len(),
{
    if list.len() > 0 {
        lemma_documents_no_duplicates(list.drop_last());
        lemma_with_pdf_no_duplicates(
            documents_of(list.drop_last()),
            (list.last().pdf_src, list.last().dir_name),
        );
    }
}

///Struct used to export data as JSON
#[derive(Debug, PartialEq, Eq, Clone)]
pub struct ButterflyJSON {
    /// List of butterflies
    pub butterflies: Vec<Butterfly>,
    /// Number of butterfly data
    pub butterfly_num: usize,
    /// Number of pdf files
    pub pdf_num: usize,
    /// Posix time
    pub created_at: u64,
}

/// A snapshot as plain values.
#[verifier::ext_equal]
pub struct SnapshotView {
    pub butterflies: Seq<ButterflyView>,
    pub butterfly_num: usize,
    pub pdf_num: usize,
    pub created_at: u64,
}

impl View for ButterflyJSON {
    type V = SnapshotView;

    open spec fn view(&self) -> SnapshotView {
        SnapshotView {
            butterflies: butterfly_views(self.butterflies@),
            butterfly_num: self.butterfly_num,
            pdf_num: self.pdf_num,
            created_at: self.created_at,
        }
    }
}

/// A copy of a list of butterflies.
pub fn duplicate_butterflies(list: &Vec<Butterfly>) -> (r: Vec<Butterfly>)
    ensures
        butterfly_views(r@) == butterfly_views(list@),
{
    let mut out: Vec<Butterfly> = Vec::new();
    let mut i: usize = 0;
    while i < list.len()
        invariant
            i <= list.len(),
            out.len() == i,
            forall|k: int| 0 <= k < i ==> (#[trigger] out@[k])@ == list@[k]@,
        decreases list.len() - i,
    {
        out.push(list[i].duplicate());
        i += 1;
    }
    assert(butterfly_views(out@) =~= butterfly_views(list@));
    out
}

/// Whether a text is in a list.
fn has_text(list: &Vec<String>, text: &str) -> (r: bool)
    ensures
        r == text_views(list@).contains(text@),
{
    let mut i: usize = 0;
    while i < list.len()
        invariant
            i <= list.len(),
            forall|k: int| 0 <= k < i ==> text_views(list@)[k] != text@,
        decreases list.len() - i,
    {
        assert(text_views(list@)[i as int] == list@[i as int]@);
        if *list[i].as_str() == *text {
            return true;
        }
        i += 1;
    }
    false
}

/// Puts one more butterfly into a list in the order of its Japanese names.
/// `keys` holds the characters of the names, index by index.
fn place(out: &mut Vec<Butterfly>, keys: &mut Vec<Vec<char>>, butterfly: Butterfly)
    requires
        old(keys).len() == old(out).len(),
        forall|k: int| 0 <= k < old(out).len() ==> (#[trigger] old(keys)@[k])@ == old(out)@[k]@.jp_name,
    ensures
        butterfly_views(final(out)@) == placed(butterfly_views(old(out)@), butterfly@),
        final(keys).len() == final(out).len(),
        forall|k: int|
            0 <= k < final(out).len() ==> (#[trigger] final(keys)@[k])@ == final(out)@[k]@.jp_name,
{
    let key = chars_of(butterfly.jp_name.as_str());
    let ghost list = butterfly_views(out@);
    let mut k: usize = 0;
    while k < keys.len() && precedes(&keys[k], &key)
        invariant
            k <= keys.len(),
            keys.len() == out.len(),
            list == butterfly_views(out@),
            key@ == butterfly@.jp_name,
            forall|j: int| 0 <= j < out.len() ==> (#[trigger] keys@[j])@ == out@[j]@.jp_name,
            insertion_point(list, key@, 0) == insertion_point(list, key@, k as int),
        decreases keys.len() - k,
    {
        assert(list[k as int].jp_name == keys@[k as int]@);
        k += 1;
    }
    if k < keys.len() {
        assert(list[k as int].jp_name == keys@[k as int]@);
        proof {
            lemma_lex_total(key@, keys@[k as int]@);
            lemma_lex_irreflexive(key@);
        }
        if !precedes(&key, &keys[k]) {
            return;
        }
    }
    out.insert(k, butterfly);
    keys.insert(k, key);
    assert(butterfly_views(out@) =~= list.insert(k as int, butterfly@));
}

impl ButterflyJSON {
    /// Create an instance of `ButterflyJSON`
    pub fn new(
        butterflies: &Vec<Butterfly>,
        butterfly_num: usize,
        pdf_num: usize,
        created_at: u64,
    ) -> (r: Self)
        ensures
            r@ == (SnapshotView {
                butterflies: butterfly_views(butterflies@),
                butterfly_num,
                pdf_num,
                created_at,
            }),
    {
        ButterflyJSON {
            butterflies: duplicate_butterflies(butterflies),
            butterfly_num,
            pdf_num,
            created_at,
        }
    }

    /// Convert itself into `ButterflyCollector`: the butterflies as they are
    /// stored, their documents and directories derived from them, and the
    /// rows of the reference table.
    pub fn into_collector(self, csv_data_map: Vec<ReferenceRow>) -> (r: ButterflyCollector)
        ensures
            r@.butterflies == self@.butterflies,
            r@.pdfs == documents_of(self@.butterflies),
            r@.region_dirs == directories_of(self@.butterflies),
            r@.csv_data_map == row_views(csv_data_map@),
            r@.warnings == Seq::<WarningView>::empty(),
            r@.well_formed(),
    {
        let butterflies = self.butterflies;
        let ghost list = butterfly_views(butterflies@);
        let mut region_dirs: Vec<String> = Vec::new();
        let mut pdfs: Vec<(String, String)> = Vec::new();
        let mut i: usize = 0;
        proof {
            assert(list.take(0) =~= Seq::empty());
            assert(pdf_views(pdfs@) =~= Seq::empty());
            assert(text_views(region_dirs@) =~= Seq::empty());
        }
        while i < butterflies.len()
            invariant
                i <= butterflies.len(),
                list == butterfly_views(butterflies@),
                pdf_views(pdfs@) == documents_of(list.take(i as int)),
                text_views(region_dirs@) == directories_of(list.take(i as int)),
            decreases butterflies.len() - i,
        {
            let butterfly = &butterflies[i];
            proof {
                let next = list.take(i + 1);
                assert(next.drop_last() =~= list.take(i as int));
                assert(next.last() == butterfly@);
            }
            if !has_text(&region_dirs, butterfly.dir_name.as_str()) {
                let ghost before = text_views(region_dirs@);
                region_dirs.push(butterfly.dir_name.clone());
                assert(text_views(region_dirs@) =~= before.push(butterfly@.dir_name));
            }
            add_pdf(&mut pdfs, butterfly.pdf_src.as_str(), butterfly.dir_name.as_str());
            i += 1;
        }
        proof {
            assert(list.take(list.len() as int) =~= list);
            lemma_documents_no_duplicates(list);
        }
        let warnings: Vec<Warning> = Vec::new();
        assert(warning_views(warnings@) =~= Seq::empty());
        ButterflyCollector { butterflies, pdfs, csv_data_map, region_dirs, warnings }
    }
}

/// The views of the outcomes of a batch of downloads.
pub open spec fn outcome_views(list: Seq<Result<String, ButterflyError>>) -> Seq<
    Result<Seq<char>, ButterflyErrorView>,
> {
    list.map_values(|o: Result<String, ButterflyError>| outcome_view(o))
}

/// The views of the outcomes of a batch of analyses.
pub open spec fn colors_views(list: Seq<Result<Vec<Color>, CloudVisionError>>) -> Seq<
    Result<Seq<ColorView>, CloudVisionError>,
> {
    list.map_values(|o: Result<Vec<Color>, CloudVisionError>| colors_view(o))
}

impl CollectorView {
    /// The collector after the outcomes of the downloads of the images, the
    /// outcome at each rank recorded for the butterfly at that rank, in the
    /// order of the ranks.
    pub open spec fn after_images(self, outcomes: Seq<Result<Seq<char>, ButterflyErrorView>>)
        -> CollectorView
        decreases outcomes.len(),
    {
        if outcomes.len() == 0 {
            self
        } else {
            self.after_images(outcomes.drop_last()).after_image(
                outcomes.len() - 1,
                outcomes.last(),
            )
        }
    }

    /// The collector after the outcomes of the downloads of the documents,
    /// the outcome at each rank recorded for the document at that rank, in
    /// the order of the ranks.
    pub open spec fn after_pdfs(self, outcomes: Seq<Result<Seq<char>, ButterflyErrorView>>)
        -> CollectorView
        decreases outcomes.len(),
    {
        if outcomes.len() == 0 {
            self
        } else {
            self.after_pdfs(outcomes.drop_last()).after_pdf(outcomes.len() - 1, outcomes.last())
        }
    }

    /// The collector after the outcomes of the analyses of the images, the
    /// outcome at each rank recorded for the butterfly at that rank, in the
    /// order of the ranks.
    pub open spec fn after_analyses(self, outcomes: Seq<Result<Seq<ColorView>, CloudVisionError>>)
        -> CollectorView
        decreases outcomes.len(),
    {
        if outcomes.len() == 0 {
            self
        } else {
            self.after_analyses(outcomes.drop_last()).after_colors(
                outcomes.len() - 1,
                outcomes.last(),
            )
        }
    }
}

/// The ranks of the butterflies without category, ascending.
pub open spec fn without_category(list: Seq<ButterflyView>) -> Seq<usize>
    decreases list.len(),
{
    if list.len() == 0 {
        Seq::empty()
    } else if list.last().category.len() == 0 {
        without_category(list.drop_last()).push((list.len() - 1) as usize)
    } else {
        without_category(list.drop_last())
    }
}

impl ButterflyCollector {
    /// The ranks of the butterflies whose colour no legend names: they have
    /// no category.
    pub fn uncategorized(&self) -> (r: Vec<usize>)
        ensures
            r@ == without_category(self@.butterflies),
    {
        let ghost list = self@.butterflies;
        let mut out: Vec<usize> = Vec::new();
        let mut i: usize = 0;
        assert(list.take(0) =~= Seq::empty());
        while i < self.butterflies.len()
            invariant
                i <= self.butterflies.len(),
                list == self@.butterflies,
                out@ == without_category(list.take(i as int)),
            decreases self.butterflies.len() - i,
        {
            proof {
                let next = list.take(i + 1);
                assert(next.drop_last() =~= list.take(i as int));
                assert(next.last() == self.butterflies@[i as int]@);
            }
            if self.butterflies[i].category.as_str().is_empty() {
                out.push(i);
            }
            i += 1;
        }
        assert(list.take(list.len() as int) =~= list);
        out
    }

    /// Create new instance of `ButterflyCollector` from given
    /// `Vec<WebpageParseResult>` and the rows of the reference table.
    pub fn from_parse_result(
        parse_results: Vec<WebpageParseResult>,
        csv_data_map: Vec<ReferenceRow>,
    ) -> (r: ButterflyCollector)
        ensures
            r@.butterflies == gathered_butterflies(result_views(parse_results@)),
            r@.pdfs == gathered_pdfs(result_views(parse_results@)),
            r@.region_dirs == gathered_dirs(result_views(parse_results@)),
            r@.csv_data_map == row_views(csv_data_map@),
            r@.warnings == Seq::<WarningView>::empty(),
            r@.well_formed(),
    {
        let ghost all = result_views(parse_results@);
        let mut rest = parse_results;
        let mut butterflies: Vec<Butterfly> = Vec::new();
        let mut pdfs: Vec<(String, String)> = Vec::new();
        let mut region_dirs: Vec<String> = Vec::new();
        let ghost mut done: int = 0;
        proof {
            assert(all.take(0) =~= Seq::empty());
            assert(all.skip(0) =~= all);
            assert(butterfly_views(butterflies@) =~= Seq::empty());
            assert(pdf_views(pdfs@) =~= Seq::empty());
            assert(text_views(region_dirs@) =~= Seq::empty());
        }
        while rest.len() > 0
            invariant
                0 <= done <= all.len(),
                result_views(rest@) == all.skip(done),
                butterfly_views(butterflies@) == gathered_butterflies(all.take(done)),
                pdf_views(pdfs@) == gathered_pdfs(all.take(done)),
                text_views(region_dirs@) == gathered_dirs(all.take(done)),
            decreases rest.len(),
        {
            let ghost before = result_views(rest@);
            let mut result = rest.remove(0);
            proof {
                assert(before[0] == result@);
                assert(result_views(rest@) =~= before.drop_first());
                assert(all.skip(done).drop_first() =~= all.skip(done + 1));
                let next = all.take(done + 1);
                assert(next.drop_last() =~= all.take(done));
                assert(next.last() == result@);
            }
            let ghost old_list = butterfly_views(butterflies@);
            let ghost old_dirs = text_views(region_dirs@);
            butterflies.append(&mut result.butterflies);
            region_dirs.push(result.dir_name);
            add_pdfs(&mut pdfs, &result.pdfs);
            proof {
                done = done + 1;
                assert(butterfly_views(butterflies@) =~= old_list + all[done - 1].butterflies);
                assert(text_views(region_dirs@) =~= old_dirs.push(all[done - 1].dir_name));
                assert(gathered_dirs(all.take(done)) =~= gathered_dirs(all.take(done - 1)).push(
                    all[done - 1].dir_name,
                ));
            }
        }
        proof {
            assert(all.take(done) =~= all);
            lemma_gathered_pdfs_no_duplicates(all);
        }
        let warnings: Vec<Warning> = Vec::new();
        assert(warning_views(warnings@) =~= Seq::empty());
        ButterflyCollector { butterflies, pdfs, csv_data_map, region_dirs, warnings }
    }

    /// Fetch data from CSV data map: every butterfly whose names the
    /// reference table has takes over the table's facts; for every other one
    /// a warning is added.
    pub fn fetch_csv_info(&mut self)
        ensures
            final(self)@.butterflies.len() == old(self)@.butterflies.len(),
            forall|i: int|
                0 <= i < old(self)@.butterflies.len() ==> #[trigger] final(self)@.butterflies[i]
                    == joined(old(self)@.butterflies[i], old(self)@.csv_data_map),
            final(self)@.warnings == old(self)@.warnings + missing_references(
                old(self)@.butterflies,
                old(self)@.csv_data_map,
            ),
            final(self)@.pdfs == old(self)@.pdfs,
            final(self)@.csv_data_map == old(self)@.csv_data_map,
            final(self)@.region_dirs == old(self)@.region_dirs,
            old(self)@.well_formed() ==> final(self)@.well_formed(),
    {
        let ghost list = self@.butterflies;
        let ghost rows = self@.csv_data_map;
        let mut i: usize = 0;
        proof {
            assert(list.take(0) =~= Seq::empty());
            assert(self@.warnings =~= old(self)@.warnings + missing_references(list.take(0), rows));
        }
        while i < self.butterflies.len()
            invariant
                i <= self.butterflies.len(),
                list == old(self)@.butterflies,
                rows == old(self)@.csv_data_map,
                self@.butterflies.len() == list.len(),
                forall|k: int| 0 <= k < i ==> #[trigger] self@.butterflies[k] == joined(list[k], rows),
                forall|k: int| i <= k < list.len() ==> #[trigger] self@.butterflies[k] == list[k],
                self@.warnings == old(self)@.warnings + missing_references(
                    list.take(i as int),
                    rows,
                ),
                self@.pdfs == old(self)@.pdfs,
                self@.csv_data_map == rows,
                self@.region_dirs == old(self)@.region_dirs,
            decreases self.butterflies.len() - i,
        {
            let ghost before = self@;
            proof {
                let next = list.take(i + 1);
                assert(next.drop_last() =~= list.take(i as int));
                assert(next.last() == list[i as int]);
                assert(self@.butterflies[i as int] == list[i as int]);
            }
            let found = find_row(
                &self.csv_data_map,
                self.butterflies[i].jp_name.as_str(),
                self.butterflies[i].eng_name.as_str(),
            );
            match found {
                Some(additional_data) => {
                    self.butterflies[i].add_additional_data(additional_data);
                    proof {
                        assert(self@.butterflies =~= before.butterflies.update(
                            i as int,
                            joined(list[i as int], rows),
                        ));
                    }
                },
                None => {
                    let subject = self.butterflies[i].jp_name.clone();
                    self.warnings.push(Warning { subject, cause: WarningCause::ReferenceMissing });
                    proof {
                        assert(self@.warnings =~= before.warnings.push(
                            WarningView {
                                subject: list[i as int].jp_name,
                                cause: WarningCauseView::ReferenceMissing,
                            },
                        ));
                    }
                },
            }
            i += 1;
        }
        proof {
            assert(list.take(list.len() as int) =~= list);
        }
    }

    /// Adds a warning.
    fn warn(&mut self, subject: String, cause: WarningCause)
        ensures
            final(self)@ == old(self)@.warned(subject@, cause@),
    {
        let ghost before = self@;
        self.warnings.push(Warning { subject, cause });
        assert(self@.warnings =~= before.warnings.push(
            WarningView { subject: subject@, cause: cause@ },
        ));
    }

    /// The directories that hold one kind of asset, one for each region.
    pub fn asset_directories(&self, kind: &str) -> (r: Vec<String>)
        ensures
            r.len() == self@.region_dirs.len(),
            forall|i: int|
                0 <= i < r.len() ==> (#[trigger] r@[i])@ == asset_directory(
                    self@.region_dirs[i],
                    kind@,
                ),
    {
        let mut out: Vec<String> = Vec::new();
        let mut i: usize = 0;
        while i < self.region_dirs.len()
            invariant
                i <= self.region_dirs.len(),
                out.len() == i,
                forall|k: int|
                    0 <= k < i ==> (#[trigger] out@[k])@ == asset_directory(
                        self@.region_dirs[k],
                        kind@,
                    ),
            decreases self.region_dirs.len() - i,
        {
            out.push(directory_of(self.region_dirs[i].as_str(), kind));
            i += 1;
        }
        out
    }

    /// The downloads of the images, one for each butterfly and in their
    /// order; an error stands where a butterfly's image cannot be fetched.
    pub fn image_downloads(&self) -> (r: Vec<Result<DownloadRequest, ButterflyError>>)
        ensures
            r.len() == self@.butterflies.len(),
            forall|i: int|
                0 <= i < r.len() ==> request_view(#[trigger] r@[i]) == image_download(
                    self@.butterflies[i],
                ),
    {
        let mut out: Vec<Result<DownloadRequest, ButterflyError>> = Vec::new();
        let mut i: usize = 0;
        while i < self.butterflies.len()
            invariant
                i <= self.butterflies.len(),
                out.len() == i,
                forall|k: int|
                    0 <= k < i ==> request_view(#[trigger] out@[k]) == image_download(
                        self@.butterflies[k],
                    ),
            decreases self.butterflies.len() - i,
        {
            let butterfly = &self.butterflies[i];
            assert(self@.butterflies[i as int] == butterfly@);
            out.push(
                plan_download(
                    butterfly.img_src.as_str(),
                    butterfly.dir_name.as_str(),
                    IMAGE_DIRECTORY,
                    ButterflyError::ImageNameUnknown,
                ),
            );
            i += 1;
        }
        out
    }

    /// Records the outcome of the download of the image of the butterfly at
    /// `index`: the path of the stored file, or why there is none.
    pub fn record_image(&mut self, index: usize, outcome: Result<String, ButterflyError>)
        ensures
            final(self)@ == old(self)@.after_image(index as int, outcome_view(outcome)),
            old(self)@.well_formed() ==> final(self)@.well_formed(),
    {
        if index < self.butterflies.len() {
            let ghost before = self@;
            match outcome {
                Ok(img_path) => {
                    self.butterflies[index].img_path = Some(img_path);
                    assert(self@.butterflies =~= before.butterflies.update(
                        index as int,
                        with_image_path(before.butterflies[index as int], img_path@),
                    ));
                },
                Err(e) => {
                    let subject = self.butterflies[index].jp_name.clone();
                    self.warn(subject, WarningCause::Image(e));
                },
            }
        }
    }

    /// The downloads of the documents, one for each document and in their
    /// order; an error stands where a document cannot be fetched.
    pub fn pdf_downloads(&self) -> (r: Vec<Result<DownloadRequest, ButterflyError>>)
        ensures
            r.len() == self@.pdfs.len(),
            forall|i: int|
                0 <= i < r.len() ==> request_view(#[trigger] r@[i]) == pdf_download(self@.pdfs[i]),
    {
        let mut out: Vec<Result<DownloadRequest, ButterflyError>> = Vec::new();
        let mut i: usize = 0;
        while i < self.pdfs.len()
            invariant
                i <= self.pdfs.len(),
                out.len() == i,
                forall|k: int|
                    0 <= k < i ==> request_view(#[trigger] out@[k]) == pdf_download(self@.pdfs[k]),
            decreases self.pdfs.len() - i,
        {
            let pdf = &self.pdfs[i];
            assert(self@.pdfs[i as int] == (pdf.0@, pdf.1@));
            out.push(
                plan_download(
                    pdf.0.as_str(),
                    pdf.1.as_str(),
                    PDF_DIRECTORY,
                    ButterflyError::FileNameUnknown,
                ),
            );
            i += 1;
        }
        out
    }

    /// Records the outcome of the download of the document at `index`: the
    /// path of the stored file, or why there is none.
    pub fn record_pdf(&mut self, index: usize, outcome: Result<String, ButterflyError>)
        ensures
            final(self)@ == old(self)@.after_pdf(index as int, outcome_view(outcome)),
            old(self)@.well_formed() ==> final(self)@.well_formed(),
    {
        if index < self.pdfs.len() {
            let ghost before = self@;
            match outcome {
                Ok(pdf_path) => {
                    let ghost locator = before.pdfs[index as int].0;
                    assert(locator == self.pdfs@[index as int].0@);
                    let mut i: usize = 0;
                    while i < self.butterflies.len()
                        invariant
                            i <= self.butterflies.len(),
                            index < self.pdfs.len(),
                            locator == self.pdfs@[index as int].0@,
                            self@.butterflies.len() == before.butterflies.len(),
                            forall|k: int|
                                0 <= k < i ==> #[trigger] self@.butterflies[k]
                                    == with_document_path(
                                    before.butterflies[k],
                                    locator,
                                    pdf_path@,
                                ),
                            forall|k: int|
                                i <= k < before.butterflies.len() ==> #[trigger] self@.butterflies[k]
                                    == before.butterflies[k],
                            self@.pdfs == before.pdfs,
                            self@.csv_data_map == before.csv_data_map,
                            self@.region_dirs == before.region_dirs,
                            self@.warnings == before.warnings,
                        decreases self.butterflies.len() - i,
                    {
                        let ghost current = self@;
                        assert(current.butterflies[i as int] == self.butterflies@[i as int]@);
                        if *self.butterflies[i].pdf_src.as_str() == *self.pdfs[index].0.as_str() {
                            self.butterflies[i].pdf_path = pdf_path.clone();
                            assert(self@.butterflies =~= current.butterflies.update(
                                i as int,
                                with_document_path(current.butterflies[i as int], locator, pdf_path@),
                            ));
                        }
                        i += 1;
                    }
                    assert(self@.butterflies =~= before.butterflies.map_values(
                        |b: ButterflyView| with_document_path(b, locator, pdf_path@),
                    ));
                },
                Err(e) => {
                    let subject = self.pdfs[index].0.clone();
                    self.warn(subject, WarningCause::Document(e));
                },
            }
        }
    }

    /// The addresses of the images to analyse, one for each butterfly and in
    /// their order; a bad request stands where a butterfly's image has no
    /// address.
    pub fn color_requests(&self) -> (r: Vec<Result<String, CloudVisionError>>)
        ensures
            r.len() == self@.butterflies.len(),
            forall|i: int|
                0 <= i < r.len() ==> address_view(#[trigger] r@[i]) == color_request(
                    self@.butterflies[i],
                ),
    {
        let mut out: Vec<Result<String, CloudVisionError>> = Vec::new();
        let mut i: usize = 0;
        while i < self.butterflies.len()
            invariant
                i <= self.butterflies.len(),
                out.len() == i,
                forall|k: int|
                    0 <= k < i ==> address_view(#[trigger] out@[k]) == color_request(
                        self@.butterflies[k],
                    ),
            decreases self.butterflies.len() - i,
        {
            let butterfly = &self.butterflies[i];
            assert(self@.butterflies[i as int] == butterfly@);
            let request = match site_url(butterfly.img_src.as_str()) {
                Some(url) => Ok(url),
                None => Err(CloudVisionError::BadRequest),
            };
            out.push(request);
            i += 1;
        }
        out
    }

    /// Records the outcome of the analysis of the image of the butterfly at
    /// `index`: its dominant colours, or why there are none.
    pub fn record_colors(&mut self, index: usize, outcome: Result<Vec<Color>, CloudVisionError>)
        ensures
            final(self)@ == old(self)@.after_colors(index as int, colors_view(outcome)),
            old(self)@.well_formed() ==> final(self)@.well_formed(),
    {
        if index < self.butterflies.len() {
            let ghost before = self@;
            match outcome {
                Ok(colors) => {
                    self.butterflies[index].dominant_colors = colors;
                    assert(self@.butterflies =~= before.butterflies.update(
                        index as int,
                        with_colors(before.butterflies[index as int], color_views(colors@)),
                    ));
                },
                Err(e) => {
                    let subject = self.butterflies[index].jp_name.clone();
                    self.warn(subject, WarningCause::Colors(e));
                },
            }
        }
    }

    ///Fetch images of butterflies
    ///
    /// Records the outcomes of the downloads that `image_downloads` plans:
    /// the outcome at each rank is that of the butterfly at that rank.
    pub fn fetch_images(&mut self, outcomes: Vec<Result<String, ButterflyError>>)
        ensures
            final(self)@ == old(self)@.after_images(outcome_views(outcomes@)),
            old(self)@.well_formed() ==> final(self)@.well_formed(),
    {
        let ghost all = outcome_views(outcomes@);
        let mut rest = outcomes;
        let mut index: usize = 0;
        proof {
            assert(all.len() == rest.len());
            assert(all.take(0) =~= Seq::empty());
            assert(all.skip(0) =~= all);
        }
        while rest.len() > 0
            invariant
                index + rest.len() == all.len(),
                all.len() <= usize::MAX,
                outcome_views(rest@) == all.skip(index as int),
                self@ == old(self)@.after_images(all.take(index as int)),
                old(self)@.well_formed() ==> self@.well_formed(),
            decreases rest.len(),
        {
            let ghost before = outcome_views(rest@);
            let outcome = rest.remove(0);
            proof {
                assert(before[0] == outcome_view(outcome));
                assert(outcome_views(rest@) =~= before.drop_first());
                assert(all.skip(index as int).drop_first() =~= all.skip(index + 1));
                let next = all.take(index + 1);
                assert(next.drop_last() =~= all.take(index as int));
                assert(next.last() == outcome_view(outcome));
            }
            self.record_image(index, outcome);
            index += 1;
        }
        proof {
            assert(all.take(index as int) =~= all);
        }
    }

    /// Download PDF files
    ///
    /// Records the outcomes of the downloads that `pdf_downloads` plans: the
    /// outcome at each rank is that of the document at that rank.
    pub fn fetch_pdfs(&mut self, outcomes: Vec<Result<String, ButterflyError>>)
        ensures
            final(self)@ == old(self)@.after_pdfs(outcome_views(outcomes@)),
            old(self)@.well_formed() ==> final(self)@.well_formed(),
    {
        let ghost all = outcome_views(outcomes@);
        let mut rest = outcomes;
        let mut index: usize = 0;
        proof {
            assert(all.len() == rest.len());
            assert(all.take(0) =~= Seq::empty());
            assert(all.skip(0) =~= all);
        }
        while rest.len() > 0
            invariant
                index + rest.len() == all.len(),
                all.len() <= usize::MAX,
                outcome_views(rest@) == all.skip(index as int),
                self@ == old(self)@.after_pdfs(all.take(index as int)),
                old(self)@.well_formed() ==> self@.well_formed(),
            decreases rest.len(),
        {
            let ghost before = outcome_views(rest@);
            let outcome = rest.remove(0);
            proof {
                assert(before[0] == outcome_view(outcome));
                assert(outcome_views(rest@) =~= before.drop_first());
                assert(all.skip(index as int).drop_first() =~= all.skip(index + 1));
                let next = all.take(index + 1);
                assert(next.drop_last() =~= all.take(index as int));
                assert(next.last() == outcome_view(outcome));
            }
            self.record_pdf(index, outcome);
            index += 1;
        }
        proof {
            assert(all.take(index as int) =~= all);
        }
    }

    /// Use Google Cloud Vision API to fetch dominant colors
    ///
    /// Records the outcomes of the analyses of the images that
    /// `color_requests` names: the outcome at each rank is that of the
    /// butterfly at that rank.
    pub fn fetch_dominant_colors(&mut self, outcomes: Vec<Result<Vec<Color>, CloudVisionError>>)
        ensures
            final(self)@ == old(self)@.after_analyses(colors_views(outcomes@)),
            old(self)@.well_formed() ==> final(self)@.well_formed(),
    {
        let ghost all = colors_views(outcomes@);
        let mut rest = outcomes;
        let mut index: usize = 0;
        proof {
            assert(all.len() == rest.len());
            assert(all.take(0) =~= Seq::empty());
            assert(all.skip(0) =~= all);
        }
        while rest.len() > 0
            invariant
                index + rest.len() == all.len(),
                all.len() <= usize::MAX,
                colors_views(rest@) == all.skip(index as int),
                self@ == old(self)@.after_analyses(all.take(index as int)),
                old(self)@.well_formed() ==> self@.well_formed(),
            decreases rest.len(),
        {
            let ghost before = colors_views(rest@);
            let outcome = rest.remove(0);
            proof {
                assert(before[0] == colors_view(outcome));
                assert(colors_views(rest@) =~= before.drop_first());
                assert(all.skip(index as int).drop_first() =~= all.skip(index + 1));
                let next = all.take(index + 1);
                assert(next.drop_last() =~= all.take(index as int));
                assert(next.last() == colors_view(outcome));
            }
            self.record_colors(index, outcome);
            index += 1;
        }
        proof {
            assert(all.take(index as int) =~= all);
        }
    }

    /// Freezes the collection into a snapshot stamped with `created_at`.
    ///
    /// The butterflies are put in the order of their Japanese names, and of
    /// several with one name the first stays: the names of the result ascend
    /// strictly, each of its butterflies is the first of its name, and every
    /// name is kept. The snapshot holds them so, with their number and the
    /// number of documents.
    pub fn finalize(&mut self, created_at: u64) -> (r: ButterflyJSON)
        ensures
            final(self)@ == (CollectorView {
                butterflies: sorted_unique(old(self)@.butterflies),
                ..old(self)@
            }),
            r@ == (SnapshotView {
                butterflies: sorted_unique(old(self)@.butterflies),
                butterfly_num: final(self).butterflies.len(),
                pdf_num: old(self).pdfs.len(),
                created_at,
            }),
            r.butterfly_num == sorted_unique(old(self)@.butterflies).len(),
            settled(old(self)@.butterflies, final(self)@.butterflies),
            old(self)@.well_formed() ==> final(self)@.well_formed(),
    {
        let pdf_num: usize = self.pdfs.len();
        let ghost list = self@.butterflies;
        let mut rest: Vec<Butterfly> = Vec::new();
        std::mem::swap(&mut self.butterflies, &mut rest);
        let mut out: Vec<Butterfly> = Vec::new();
        let mut keys: Vec<Vec<char>> = Vec::new();
        let ghost mut done: int = 0;
        proof {
            assert(list.take(0) =~= Seq::empty());
            assert(list.skip(0) =~= list);
            assert(butterfly_views(out@) =~= Seq::empty());
        }
        while rest.len() > 0
            invariant
                0 <= done <= list.len(),
                butterfly_views(rest@) == list.skip(done),
                butterfly_views(out@) == sorted_unique(list.take(done)),
                keys.len() == out.len(),
                forall|k: int| 0 <= k < out.len() ==> (#[trigger] keys@[k])@ == out@[k]@.jp_name,
            decreases rest.len(),
        {
            let ghost before = butterfly_views(rest@);
            let butterfly = rest.remove(0);
            proof {
                assert(before[0] == butterfly@);
                assert(butterfly_views(rest@) =~= before.drop_first());
                assert(list.skip(done).drop_first() =~= list.skip(done + 1));
                let next = list.take(done + 1);
                assert(next.drop_last() =~= list.take(done));
                assert(next.last() == butterfly@);
            }
            place(&mut out, &mut keys, butterfly);
            proof {
                done = done + 1;
            }
        }
        proof {
            assert(list.take(done) =~= list);
            law_ordered_list_is_settled(list);
        }
        let snapshot = ButterflyJSON::new(&out, out.len(), pdf_num, created_at);
        self.butterflies = out;
        snapshot
    }
}

} // verus!
