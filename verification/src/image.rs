use vstd::prelude::*;
use vstd::string::{StringExecFns, StrSliceExecFns};
use base64::Engine;
use crate::text::str_eq;

verus! {

/// Why a submitted image was rejected.
#[derive(Clone, Copy, Debug, PartialEq, Eq, Structural)]
pub enum ImageError {
    /// The submitted data was empty.
    EmptyData,
    /// The data was not valid standard base64.
    InvalidData,
    /// The decoded bytes are neither a PNG nor a JPEG.
    UnsupportedType,
}

/// What base64's standard-alphabet engine decodes a string to, when it
/// decodes at all; the result depends on the characters alone.
pub uninterp spec fn base64_decoding(s: Seq<char>) -> Option<Seq<u8>>;

/// What content sniffing makes of a byte run: its MIME type, when the
/// leading bytes match a known signature; the result depends on the bytes
/// alone.
pub uninterp spec fn sniffed_mime(bytes: Seq<u8>) -> Option<Seq<char>>;

/// Relies on base64: `Engine::decode` with the standard alphabet either
/// decodes the whole input or reports an error.
#[verifier::external_body]
fn base64_decode(data: &str) -> (r: Option<Vec<u8>>)
    ensures
        match r {
            Some(b) => base64_decoding(data@) == Some(b@),
            None => base64_decoding(data@) is None,
        },
{
    match base64::engine::general_purpose::STANDARD.decode(data) {
        Ok(v) => Some(v),
        Err(_) => None,
    }
}

/// Relies on infer::get: the detected type, read off the leading magic
/// bytes, rendered as its MIME type.
#[verifier::external_body]
fn sniff_mime(bytes: &Vec<u8>) -> (r: Option<String>)
    ensures
        match r {
            Some(m) => sniffed_mime(bytes@) == Some(m@),
            None => sniffed_mime(bytes@) is None,
        },
{
    infer::get(bytes.as_slice()).map(|t| t.mime_type().to_string())
}

/// Whether a sniffed MIME type is one the avatar upload accepts.
pub open spec fn spec_accepted_mime(m: Seq<char>) -> bool {
    m == "image/png"@ || m == "image/jpeg"@
}

/// A validated image submission, held as the `data:` URL that the upload
/// endpoint expects.
#[derive(Debug)]
pub struct Base64Image(String);

impl Base64Image {
    /// The data URL this validated submission carries.
    pub closed spec fn spec_str(self) -> Seq<char> {
        self.0@
    }

    /// Validates a base64 image submission: the data must be non-empty,
    /// decode as standard base64, and carry PNG or JPEG magic bytes. What
    /// comes out is the `data:<mime>;base64,<data>` URL of the submission.
    pub fn new(data: String) -> (r: Result<Base64Image, ImageError>)
        ensures
            match r {
                Ok(img) => {
                    &&& data@.len() > 0
                    &&& base64_decoding(data@) matches Some(bytes)
                    &&& sniffed_mime(base64_decoding(data@)->0) matches Some(mime)
                        && spec_accepted_mime(mime) && img.spec_str() == "data:"@ + mime
                        + ";base64,"@ + data@
                },
                Err(e) => {
                    ||| e == ImageError::EmptyData && data@.len() == 0
                    ||| e == ImageError::InvalidData && data@.len() > 0 && base64_decoding(data@)
                        is None
                    ||| (e == ImageError::UnsupportedType && data@.len() > 0 && base64_decoding(
                        data@,
                    ) is Some && sniffed_mime(base64_decoding(data@)->0) is None)
                    ||| (e == ImageError::UnsupportedType && data@.len() > 0 && base64_decoding(
                        data@,
                    ) is Some && (sniffed_mime(base64_decoding(data@)->0) matches Some(mime)
                        && !spec_accepted_mime(mime)))
                },
            },
    {
        if data.as_str().is_empty() {
            return Err(ImageError::EmptyData);
        }
        let bytes = match base64_decode(data.as_str()) {
            Some(b) => b,
            None => {
                return Err(ImageError::InvalidData);
            },
        };
        let mime = match sniff_mime(&bytes) {
            Some(m) => m,
            None => {
                return Err(ImageError::UnsupportedType);
            },
        };
        if str_eq(mime.as_str(), "image/png") || str_eq(mime.as_str(), "image/jpeg") {
            let url = String::from_str("data:").concat(mime.as_str()).concat(";base64,").concat(
                data.as_str(),
            );
            Ok(Base64Image(url))
        } else {
            Err(ImageError::UnsupportedType)
        }
    }

    /// Hands the data URL out.
    pub fn into_inner(self) -> (r: String)
        ensures
            r@ == self.spec_str(),
    {
        self.0
    }
}

/// What the image host reports back for a stored image.
#[derive(Debug)]
pub struct UploadedImage {
    pub url: String,
    pub public_id: String,
}

impl UploadedImage {
    pub fn new(url: String, public_id: String) -> (r: Self)
        ensures
            r.url@ == url@,
            r.public_id@ == public_id@,
    {
        Self { url, public_id }
    }
}

/// The request body of an avatar upload.
#[derive(Debug)]
pub struct UploadBase64Image {
    pub base64_string: String,
}

/// How an upload is to be stored: the folder, the public id and the
/// transformation to apply, each optional.
#[derive(Debug)]
pub struct UploadImageOptions {
    pub folder: Option<String>,
    pub public_id: Option<String>,
    pub transformation: Option<String>,
}

} // verus!
