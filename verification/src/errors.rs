//! The errors of the catalogue's operations.
use vstd::prelude::*;
use vstd::string::StringExecFns;

verus! {

/// List of errors that could occur when processing data.
#[derive(Debug, PartialEq, Eq, Clone)]
pub enum ButterflyError {
    /// Image source was not found when extracting.
    ImageSourceNotFound,
    /// Text data was not found when extracting.
    TextNotFound,
    /// Butterfly was not found.
    InvalidIndexButterflyNotFound,
    /// Failed to fetch html data.
    FailedToFetchHTML(String),
    /// Name of the image is unknown.
    ImageNameUnknown,
    /// Failed to parse CSV file.
    FailedToParseCSVRecord(String),
    /// File not found.
    FileNotFound(String),
    /// File name was unknown.
    FileNameUnknown,
    /// JSON file not found.
    JsonFileNotFound(String),
    /// Failed to parse JSON file.
    FailedToParseJson(String),
}

/// An error as plain values.
#[verifier::ext_equal]
pub enum ButterflyErrorView {
    ImageSourceNotFound,
    TextNotFound,
    InvalidIndexButterflyNotFound,
    FailedToFetchHTML(Seq<char>),
    ImageNameUnknown,
    FailedToParseCSVRecord(Seq<char>),
    FileNotFound(Seq<char>),
    FileNameUnknown,
    JsonFileNotFound(Seq<char>),
    FailedToParseJson(Seq<char>),
}

impl View for ButterflyError {
    type V = ButterflyErrorView;

    open spec fn view(&self) -> ButterflyErrorView {
        match *self {
            ButterflyError::ImageSourceNotFound => ButterflyErrorView::ImageSourceNotFound,
            ButterflyError::TextNotFound => ButterflyErrorView::TextNotFound,
            ButterflyError::InvalidIndexButterflyNotFound => {
                ButterflyErrorView::InvalidIndexButterflyNotFound
            },
            ButterflyError::FailedToFetchHTML(s) => ButterflyErrorView::FailedToFetchHTML(s@),
            ButterflyError::ImageNameUnknown => ButterflyErrorView::ImageNameUnknown,
            ButterflyError::FailedToParseCSVRecord(s) => ButterflyErrorView::FailedToParseCSVRecord(
                s@,
            ),
            ButterflyError::FileNotFound(s) => ButterflyErrorView::FileNotFound(s@),
            ButterflyError::FileNameUnknown => ButterflyErrorView::FileNameUnknown,
            ButterflyError::JsonFileNotFound(s) => ButterflyErrorView::JsonFileNotFound(s@),
            ButterflyError::FailedToParseJson(s) => ButterflyErrorView::FailedToParseJson(s@),
        }
    }
}

/// The message that describes an error.
pub open spec fn error_text(e: ButterflyErrorView) -> Seq<char> {
    match e {
        ButterflyErrorView::ImageSourceNotFound => "Image source not found when parsing the page"@,
        ButterflyErrorView::TextNotFound => {
            "Text description of a butterfly could not be extracted"@
        },
        ButterflyErrorView::InvalidIndexButterflyNotFound => {
            "Index of given butterfly does not exist"@
        },
        ButterflyErrorView::FailedToFetchHTML(s) => "Failed to fetch html: "@ + s,
        ButterflyErrorView::ImageNameUnknown => "Image name unknown"@,
        ButterflyErrorView::FailedToParseCSVRecord(_) => "Failed to parse CSV record"@,
        ButterflyErrorView::FileNotFound(s) => "File not found: "@ + s,
        ButterflyErrorView::FileNameUnknown => "File name unknown"@,
        ButterflyErrorView::JsonFileNotFound(s) => "JSON file not found: "@ + s,
        ButterflyErrorView::FailedToParseJson(s) => "Failed to parse JSON file: "@ + s,
    }
}

/// One text after another.
fn joined(head: &str, tail: &str) -> (r: String)
    ensures
        r@ == head@ + tail@,
{
    let mut out = String::from_str(head);
    out.append(tail);
    out
}

impl ButterflyError {
    /// The message that describes this error.
    pub fn message(&self) -> (r: String)
        ensures
            r@ == error_text(self@),
    {
        match self {
            ButterflyError::ImageSourceNotFound => String::from_str(
                "Image source not found when parsing the page",
            ),
            ButterflyError::TextNotFound => String::from_str(
                "Text description of a butterfly could not be extracted",
            ),
            ButterflyError::InvalidIndexButterflyNotFound => String::from_str(
                "Index of given butterfly does not exist",
            ),
            ButterflyError::FailedToFetchHTML(s) => joined("Failed to fetch html: ", s.as_str()),
            ButterflyError::ImageNameUnknown => String::from_str("Image name unknown"),
            ButterflyError::FailedToParseCSVRecord(_) => String::from_str(
                "Failed to parse CSV record",
            ),
            ButterflyError::FileNotFound(s) => joined("File not found: ", s.as_str()),
            ButterflyError::FileNameUnknown => String::from_str("File name unknown"),
            ButterflyError::JsonFileNotFound(s) => joined("JSON file not found: ", s.as_str()),
            ButterflyError::FailedToParseJson(s) => joined(
                "Failed to parse JSON file: ",
                s.as_str(),
            ),
        }
    }
}

/// What can go wrong when one image is loaded.
#[derive(Debug, PartialEq, Eq, Structural, Clone, Copy)]
pub enum ImageLoaderError {
    /// The site answered with a status other than 200.
    ImageNotFound,
    /// The address of the image names no file.
    ImageNameUnknown,
}

impl ImageLoaderError {
    /// The message that describes this error; it is the same for both.
    pub fn message(&self) -> (r: String)
        ensures
            r@ == "Image not found"@,
    {
        String::from_str("Image not found")
    }
}

} // verus!
