//! Profile images: what may be uploaded, where it is kept, and how it is
//! handed out again.
//!
//! Images travel as `data:` URLs, which are read and written by `dataurl`.

use vstd::prelude::*;
use vstd::string::*;

verus! {

/// The only kind of image that is accepted.
pub const IMAGE_MEDIA_TYPE: &'static str = "image/webp";

/// Why an upload is refused.
#[derive(Clone, Copy, Debug, PartialEq, Eq, Structural)]
pub enum ImageError {
    /// What was uploaded is no `data:` URL.
    NotADataUrl,
    /// What was uploaded is something else than a WebP image.
    NotWebp,
}

impl ImageError {
    /// The text that the requester is shown.
    pub fn message(&self) -> (text: &'static str)
        ensures
            text@ == (match *self {
                ImageError::NotADataUrl => "No image uploaded"@,
                ImageError::NotWebp => "Image wasn't a WebP"@,
            }),
    {
        match self {
            ImageError::NotADataUrl => "No image uploaded",
            ImageError::NotWebp => "Image wasn't a WebP",
        }
    }
}

/// What a `data:` URL says: the kind of its content, and the content.
#[derive(Debug, PartialEq, Eq)]
pub struct DataUrlParts {
    pub media_type: String,
    pub data: Vec<u8>,
}

impl DeepView for DataUrlParts {
    type V = (Seq<char>, Seq<u8>);

    open spec fn deep_view(&self) -> (Seq<char>, Seq<u8>) {
        (self.media_type@, self.data@)
    }
}

// ---------------------------------------------------------------------------
// What is taken on trust from dataurl
// ---------------------------------------------------------------------------

/// What `DataUrl::parse` makes of `input`: the media type, as `media_type`
/// reports it, and the data; nothing where it reports an error.
pub uninterp spec fn data_url_parts(input: Seq<char>) -> Option<(Seq<char>, Seq<u8>)>;

/// The text of the `data:` URL that `dataurl` writes for `data` with the
/// media type `media_type`; nothing where `set_media_type` refuses the type.
pub uninterp spec fn data_url_text(media_type: Seq<char>, data: Seq<u8>) -> Option<Seq<char>>;

/// Calls `DataUrl::parse` and picks, from what it gives, the media type and
/// the data.
#[verifier::external_body]
fn parse_data_url(input: &str) -> (parts: Option<DataUrlParts>)
    ensures
        parts.deep_view() == data_url_parts(input@),
{
    match dataurl::DataUrl::parse(input) {
        Ok(url) => Some(
            DataUrlParts { media_type: url.media_type().to_string(), data: url.into_data() },
        ),
        Err(_) => None,
    }
}

/// Calls `DataUrl::new`, `set_data` and `set_media_type` on the new URL, and
/// `to_string` on the result.
#[verifier::external_body]
fn write_data_url(media_type: &str, data: &[u8]) -> (text: Option<String>)
    ensures
        text.deep_view() == data_url_text(media_type@, data@),
{
    let mut url = dataurl::DataUrl::new();
    url.set_data(data);
    match url.set_media_type(Some(media_type)) {
        Ok(()) => Some(url.to_string()),
        Err(_) => None,
    }
}

// ---------------------------------------------------------------------------
// Uploading and handing out
// ---------------------------------------------------------------------------

/// What is kept of an upload, from what reading it as a `data:` URL gave:
/// the content, provided that it is a WebP image.
pub open spec fn uploaded(parts: Option<(Seq<char>, Seq<u8>)>) -> Result<Seq<u8>, ImageError> {
    match parts {
        None => Err(ImageError::NotADataUrl),
        Some((media_type, data)) => if media_type == IMAGE_MEDIA_TYPE@ {
            Ok(data)
        } else {
            Err(ImageError::NotWebp)
        },
    }
}

/// `Ok` of the view of the bytes, `Err` of an error.
pub open spec fn bytes_view(outcome: Result<Vec<u8>, ImageError>) -> Result<Seq<u8>, ImageError> {
    match outcome {
        Ok(bytes) => Ok(bytes@),
        Err(error) => Err(error),
    }
}

/// Decides what is kept of an upload, from what reading it gave.
pub fn accept_image(parts: Option<DataUrlParts>) -> (outcome: Result<Vec<u8>, ImageError>)
    ensures
        bytes_view(outcome) == uploaded(parts.deep_view()),
{
    match parts {
        None => Err(ImageError::NotADataUrl),
        Some(parts) => {
            if parts.media_type == String::from_str(IMAGE_MEDIA_TYPE) {
                Ok(parts.data)
            } else {
                Err(ImageError::NotWebp)
            }
        },
    }
}

/// Reads an upload: the bytes to keep as the image of the uploader.
pub fn upload_image(data: &str) -> (outcome: Result<Vec<u8>, ImageError>)
    ensures
        bytes_view(outcome) == uploaded(data_url_parts(data@)),
{
    accept_image(parse_data_url(data))
}

/// Where the image of `username` is kept.
pub fn image_path(username: &str) -> (path: String)
    ensures
        path@ == "data/img/"@ + username@ + ".webp"@,
{
    let mut path = String::from_str("data/img/");
    path.append(username);
    path.append(".webp");
    path
}

/// Wraps the bytes of a stored image into the `data:` URL that is handed
/// out.
pub fn get_image(bytes: &[u8]) -> (text: Option<String>)
    ensures
        text.deep_view() == data_url_text(IMAGE_MEDIA_TYPE@, bytes@),
{
    write_data_url(IMAGE_MEDIA_TYPE, bytes)
}

} // verus!
