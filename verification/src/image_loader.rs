//! Loading of a single image into the `images/` directory.
use vstd::prelude::*;
use vstd::string::StringExecFns;
use crate::errors::ImageLoaderError;
use crate::width::{narrow, narrowed};

verus! {

/// Address of the site.
pub const HOST_URL: &'static str = "http://biokite.com/worldbutterfly/";

/// Directory of the images.
pub const DIRECTORY_NAME: &'static str = "images/";

/// The address of an image: the site's address followed by the image's
/// locator.
pub fn image_address(url: &str) -> (r: String)
    ensures
        r@ == HOST_URL@ + url@,
{
    let mut out = String::from_str(HOST_URL);
    out.append(url);
    out
}

/// Where a fetched image is stored: in the sub-directory, under the last
/// piece of the address it came from, the whole path in half width. An
/// answer other than 200 is no image, and an address without a last piece
/// names no file.
pub open spec fn image_destination(status: u16, subdir: Seq<char>, name: Option<Seq<char>>)
    -> Result<Seq<char>, ImageLoaderError> {
    if status != 200 {
        Err(ImageLoaderError::ImageNotFound)
    } else {
        match name {
            Some(n) => if n.len() == 0 {
                Err(ImageLoaderError::ImageNameUnknown)
            } else {
                Ok(narrowed(DIRECTORY_NAME@ + subdir + seq!['/'] + n))
            },
            None => Err(ImageLoaderError::ImageNameUnknown),
        }
    }
}

/// Decides where a fetched image is stored, from the status of the answer
/// and the last piece of the address that answered.
pub fn image_file_path(status: u16, subdir: &str, name: Option<&str>) -> (r: Result<
    String,
    ImageLoaderError,
>)
    ensures
        match r {
            Ok(path) => image_destination(
                status,
                subdir@,
                match name {
                    Some(n) => Some(n@),
                    None => None,
                },
            ) == Ok::<Seq<char>, ImageLoaderError>(path@),
            Err(e) => image_destination(
                status,
                subdir@,
                match name {
                    Some(n) => Some(n@),
                    None => None,
                },
            ) == Err::<Seq<char>, ImageLoaderError>(e),
        },
{
    if status != 200 {
        return Err(ImageLoaderError::ImageNotFound);
    }
    match name {
        None => Err(ImageLoaderError::ImageNameUnknown),
        Some(name) => {
            if name.is_empty() {
                return Err(ImageLoaderError::ImageNameUnknown);
            }
            let mut file_path = String::from_str(DIRECTORY_NAME);
            file_path.append(subdir);
            file_path.push('/');
            file_path.append(name);
            assert(file_path@ =~= DIRECTORY_NAME@ + subdir@ + seq!['/'] + name@);
            Ok(narrow(file_path.as_str()))
        },
    }
}

} // verus!
