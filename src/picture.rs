//! Photos: an image file's bytes, decoded in the format its path's extension
//! names and encoded again as PNG.
use vstd::prelude::*;
use crate::message::{FileProbe, Message, MessageError, MessageView};

verus! {

/// The PNG encoding of the image that `bytes` hold in the format the
/// extension of `path` names; `None` when the extension names no supported
/// format, the bytes do not decode in it, or encoding fails.
pub uninterp spec fn png_of(path: Seq<char>, bytes: Seq<u8>) -> Option<Seq<u8>>;

/// Relies on `image::ImageFormat::from_path` (the format from the path's
/// extension), `image::load_from_memory_with_format` (decoding) and
/// `image::DynamicImage::write_to` with `ImageOutputFormat::Png` (encoding):
/// together a function of the path and the bytes alone.
#[verifier::external_body]
fn to_png(path: &str, bytes: &[u8]) -> (r: Option<Vec<u8>>)
    ensures
        match r {
            Some(v) => png_of(path@, bytes@) == Some(v@),
            None => png_of(path@, bytes@) is None,
        },
{
    let format = image::ImageFormat::from_path(path).ok()?;
    let img = image::load_from_memory_with_format(bytes, format).ok()?;
    let mut buf: Vec<u8> = Vec::new();
    img.write_to(&mut std::io::Cursor::new(&mut buf), image::ImageOutputFormat::Png).ok()?;
    Some(buf)
}

/// The message for a photo once its PNG encoding is known: a `Photo` with
/// those bytes, or `UnsupportedImage` when there is none.
pub fn photo_from_png(png: Option<Vec<u8>>) -> (r: Result<Message, MessageError>)
    ensures
        png matches Some(b) ==> (r matches Ok(m) && m@ == MessageView::Photo { data: b@ }),
        png is None ==> r == Err::<Message, MessageError>(MessageError::UnsupportedImage),
{
    match png {
        Some(data) => Ok(Message::Photo { data }),
        None => Err(MessageError::UnsupportedImage),
    }
}

impl Message {
    /// Builds the message for `.image <path>` from what reading the file gave.
    /// A file that is missing or unreadable is `FileReadFailed`. Otherwise the
    /// bytes are decoded in the format the path's extension names and encoded
    /// again as PNG (`png_of`): the result is a `Photo` with that encoding, or
    /// `UnsupportedImage` when there is none.
    pub fn from_image(path: &str, probe: FileProbe) -> (r: Result<Message, MessageError>)
        ensures
            !(probe is Contents) ==> r == Err::<Message, MessageError>(MessageError::FileReadFailed),
            probe matches FileProbe::Contents(b) ==> match png_of(path@, b@) {
                Some(p) => r matches Ok(m) && m@ == MessageView::Photo { data: p },
                None => r == Err::<Message, MessageError>(MessageError::UnsupportedImage),
            },
    {
        match probe {
            FileProbe::Contents(b) => photo_from_png(to_png(path, b.as_slice())),
            _ => Err(MessageError::FileReadFailed),
        }
    }
}

} // verus!
