//! Fixed names and addresses.
use vstd::prelude::*;

verus! {

/// Url of the website.
pub const BUTTERFLY_URL: &'static str = "http://biokite.com/worldbutterfly/";

/// Directory which stores the downloaded files.
pub const ASSET_DIRECTORY: &'static str = "./assets";

/// Directory which stores the images.
pub const IMAGE_DIRECTORY: &'static str = "images";

/// Directory which stores the pdf files.
pub const PDF_DIRECTORY: &'static str = "pdf";

/// Number of threads used for fetching google cloud vision api.
pub const GCV_THEAD_POOL_NUM: u32 = 30;

/// Number of threads used for fetching images and pdf files.
pub const DOWNLOAD_THREAD_POOL_NUM: u32 = 100;

/// Path to CSV file.
pub const CSV_FILE_PATH: &'static str = "./butterfly.csv";

/// Google Cloud Vision API.
pub const CLOUD_VISION_URI: &'static str = "https://vision.googleapis.com/v1/images:annotate";

/// Path to API key.
pub const API_KEY_FILE_PATH: &'static str = "./secrets/vision_api.key";

} // verus!
