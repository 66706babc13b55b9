//! Where an asset is fetched from and where it is stored.
use vstd::prelude::*;
use vstd::string::StringExecFns;
use crate::constants::{ASSET_DIRECTORY, BUTTERFLY_URL};
use crate::csv_data::optional_text;
use crate::errors::{ButterflyError, ButterflyErrorView};
use crate::text::{chars_of, last_index_of, string_of};
use crate::width::{narrow, narrowed};

verus! {

/// The address that a reference resolves to against a base address, as
/// `url` computes it; `None` where the base is no address or the reference
/// cannot be resolved against it.
pub uninterp spec fn resolved_url(base: Seq<char>, locator: Seq<char>) -> Option<Seq<char>>;

/// `Url::join` on the address that `Url::parse` reads from the base, the
/// result written out as a string.
#[verifier::external_body]
pub(crate) fn resolve_url(base: &str, locator: &str) -> (r: Option<String>)
    ensures
        optional_text(r) == resolved_url(base@, locator@),
{
    reqwest::Url::parse(base).ok().and_then(|b| b.join(locator).ok()).map(String::from)
}

/// One download: the address to fetch and the file to write.
#[derive(Debug, PartialEq, Eq, Clone)]
pub struct DownloadRequest {
    pub url: String,
    pub file_path: String,
}

/// A download as plain texts.
#[verifier::ext_equal]
pub struct DownloadRequestView {
    pub url: Seq<char>,
    pub file_path: Seq<char>,
}

impl View for DownloadRequest {
    type V = DownloadRequestView;

    open spec fn view(&self) -> DownloadRequestView {
        DownloadRequestView { url: self.url@, file_path: self.file_path@ }
    }
}

/// What a download comes to. A file counts as fetched where the site
/// answered with the status 200 and the answer was written to the file; any
/// other course is a failure that names the file.
pub open spec fn transfer_outcome(request: DownloadRequestView, status: Option<u16>, stored: bool)
    -> Result<Seq<char>, ButterflyErrorView> {
    if status == Some(200u16) && stored {
        Ok(request.file_path)
    } else {
        Err(ButterflyErrorView::FileNotFound(request.file_path))
    }
}

/// Whether an answer of the site with this status carries what was asked for:
/// only the status 200 does.
pub fn is_success(status: u16) -> (r: bool)
    ensures
        r == (status == 200),
{
    status == 200
}

impl DownloadRequest {
    /// What the download came to: `status` is the status of the site's
    /// answer, if it answered, and `stored` tells whether the answer was
    /// written to the file.
    pub fn outcome(&self, status: Option<u16>, stored: bool) -> (r: Result<String, ButterflyError>)
        ensures
            match r {
                Ok(path) => transfer_outcome(self@, status, stored) == Ok::<
                    Seq<char>,
                    ButterflyErrorView,
                >(path@),
                Err(e) => transfer_outcome(self@, status, stored) == Err::<
                    Seq<char>,
                    ButterflyErrorView,
                >(e@),
            },
    {
        match status {
            Some(code) => {
                if is_success(code) && stored {
                    Ok(self.file_path.clone())
                } else {
                    Err(ButterflyError::FileNotFound(self.file_path.clone()))
                }
            },
            None => Err(ButterflyError::FileNotFound(self.file_path.clone())),
        }
    }
}

/// The last piece of a locator cut at `/`: the whole locator if it has no
/// `/`, nothing if it ends in one.
pub open spec fn last_segment(locator: Seq<char>) -> Seq<char> {
    locator.subrange(
        last_index_of(locator, '/', locator.len() as int) + 1,
        locator.len() as int,
    )
}

/// The name of the file that a locator stands for: its last piece, in half
/// width.
pub open spec fn file_name_of(locator: Seq<char>) -> Seq<char> {
    narrowed(last_segment(locator))
}

/// The directory of one kind of asset of one region.
pub open spec fn asset_directory(dir_name: Seq<char>, kind: Seq<char>) -> Seq<char> {
    ASSET_DIRECTORY@ + seq!['/'] + dir_name + seq!['/'] + kind
}

/// The path of an asset's file.
pub open spec fn asset_path(dir_name: Seq<char>, kind: Seq<char>, file_name: Seq<char>) -> Seq<
    char,
> {
    asset_directory(dir_name, kind) + seq!['/'] + file_name
}

/// The download of the asset behind a locator: it is fetched from the
/// locator resolved against the site's address and stored under its file
/// name in the directory of its kind and region. There is none where the
/// locator does not resolve, nor where it names no file.
pub open spec fn download_for(
    locator: Seq<char>,
    dir_name: Seq<char>,
    kind: Seq<char>,
    unnamed: ButterflyErrorView,
) -> Result<DownloadRequestView, ButterflyErrorView> {
    match resolved_url(BUTTERFLY_URL@, locator) {
        None => Err(ButterflyErrorView::FileNotFound(locator)),
        Some(url) => if file_name_of(locator).len() == 0 {
            Err(unnamed)
        } else {
            Ok(
                DownloadRequestView {
                    url,
                    file_path: asset_path(dir_name, kind, file_name_of(locator)),
                },
            )
        },
    }
}

/// The address of an asset of the site.
pub fn site_url(locator: &str) -> (r: Option<String>)
    ensures
        optional_text(r) == resolved_url(BUTTERFLY_URL@, locator@),
{
    resolve_url(BUTTERFLY_URL, locator)
}

/// Extract file name from given `url_path`
pub fn get_file_name(url_path: &str) -> (r: String)
    ensures
        r@ == file_name_of(url_path@),
{
    let v = chars_of(url_path);
    let mut i: usize = v.len();
    while i > 0 && v[i - 1] != '/'
        invariant
            i <= v.len(),
            last_index_of(v@, '/', v.len() as int) == last_index_of(v@, '/', i as int),
        decreases i,
    {
        i -= 1;
    }
    let segment = string_of(&v, i, v.len());
    narrow(segment.as_str())
}

/// The directory of one kind of asset of one region.
pub fn directory_of(dir_name: &str, kind: &str) -> (r: String)
    ensures
        r@ == asset_directory(dir_name@, kind@),
{
    let mut out = String::from_str(ASSET_DIRECTORY);
    out.push('/');
    out.append(dir_name);
    out.push('/');
    out.append(kind);
    assert(out@ =~= asset_directory(dir_name@, kind@));
    out
}

/// Plans the download of the asset behind a locator. `unnamed` is the error
/// for a locator that names no file.
pub fn plan_download(locator: &str, dir_name: &str, kind: &str, unnamed: ButterflyError) -> (r:
    Result<DownloadRequest, ButterflyError>)
    ensures
        match r {
            Ok(request) => download_for(locator@, dir_name@, kind@, unnamed@) == Ok::<
                DownloadRequestView,
                ButterflyErrorView,
            >(request@),
            Err(e) => download_for(locator@, dir_name@, kind@, unnamed@) == Err::<
                DownloadRequestView,
                ButterflyErrorView,
            >(e@),
        },
{
    let url = match site_url(locator) {
        Some(url) => url,
        None => {
            return Err(ButterflyError::FileNotFound(String::from_str(locator)));
        },
    };
    let file_name = get_file_name(locator);
    if file_name.as_str().is_empty() {
        return Err(unnamed);
    }
    let mut file_path = directory_of(dir_name, kind);
    file_path.push('/');
    file_path.append(file_name.as_str());
    assert(file_path@ =~= asset_path(dir_name@, kind@, file_name_of(locator@)));
    Ok(DownloadRequest { url, file_path })
}

} // verus!
