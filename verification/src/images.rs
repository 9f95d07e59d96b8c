//! The picture-compressing command: which messages link a picture, and when a
//! picture is shrunk before it is compressed.

use vstd::prelude::*;
use crate::pattern::{captures, regex_captures};

verus! {

/// A message that is only a link to a picture (by its extension), matched
/// without regard to case.
pub const IMAGE_URL_PATTERN: &'static str = "(?i)^https?:\\/\\/.+\\.(?:jpg|png|jpeg|gif|webp|avif)(\\?.*)?$";

/// Whether a message is a link to a picture.
pub fn links_image(content: &str) -> (res: bool)
    ensures
        res == regex_captures(IMAGE_URL_PATTERN@, content@) is Some,
{
    captures(IMAGE_URL_PATTERN, content).is_some()
}

/// The largest width and height a compressed picture keeps.
pub const MAX_SIDE: u32 = 400;

/// Whether a picture is shrunk to fit 400 by 400 before it is compressed.
pub fn needs_shrink(width: u32, height: u32) -> (res: bool)
    ensures
        res == (width > MAX_SIDE || height > MAX_SIDE),
{
    width > MAX_SIDE || height > MAX_SIDE
}

/// The reply of the mathematics commands when the service has no answer.
pub fn no_answer_message(input: &str) -> (res: String)
    ensures
        res@ == "\u{26A0} `No suitable answer found for \""@ + input@ + "\"`"@,
{
    let mut s = "\u{26A0} `No suitable answer found for \"".to_string();
    s.append(input);
    s.append("\"`");
    s
}

/// The MIME types the picture library reads a format from.
pub open spec fn image_mime_text(mime: Seq<char>) -> bool {
    ||| mime == "image/avif"@
    ||| mime == "image/jpeg"@
    ||| mime == "image/png"@
    ||| mime == "image/gif"@
    ||| mime == "image/webp"@
    ||| mime == "image/tiff"@
    ||| mime == "image/x-targa"@
    ||| mime == "image/x-tga"@
    ||| mime == "image/vnd-ms.dds"@
    ||| mime == "image/bmp"@
    ||| mime == "image/x-icon"@
    ||| mime == "image/vnd.microsoft.icon"@
    ||| mime == "image/vnd.radiance"@
    ||| mime == "image/x-exr"@
    ||| mime == "image/x-portable-bitmap"@
    ||| mime == "image/x-portable-graymap"@
    ||| mime == "image/x-portable-pixmap"@
    ||| mime == "image/x-portable-anymap"@
    ||| mime == "image/x-qoi"@
}

/// Whether `image::ImageFormat::from_mime_type` knows a format for `mime`:
/// claimed to be exactly the MIME types of its table.
#[verifier::external_body]
fn image_mime(mime: &str) -> (res: bool)
    ensures
        res == image_mime_text(mime@),
{
    image::ImageFormat::from_mime_type(mime).is_some()
}

/// Whether an attachment's content type names a picture format.
pub open spec fn typed_image(content_type: Option<String>) -> bool {
    content_type matches Some(m) && image_mime_text(m@)
}

/// A recent message of the channel: the content types of its attachments, in
/// order, and its text.
pub struct PostedMessage {
    pub attachment_types: Vec<Option<String>>,
    pub content: String,
}

/// Where the picture to compress comes from.
#[derive(Debug, PartialEq, Eq, Structural, Clone, Copy)]
pub enum ImageSource {
    /// The picture uploaded with the command.
    Upload,
    /// Attachment `.1` of recent message `.0`.
    Attachment(usize, usize),
    /// The picture recent message `.0` links to.
    Link(usize),
}

/// The first attachment, from `k` on, whose type names a picture format.
pub open spec fn first_typed_from(types: Seq<Option<String>>, k: int) -> Option<int>
    decreases types.len() - k,
{
    if k < 0 || k >= types.len() {
        None
    } else if typed_image(types[k]) {
        Some(k)
    } else {
        first_typed_from(types, k + 1)
    }
}

/// The newest picture among the recent messages from `i` on (newest first): in
/// a message, a picture attachment, else a link to a picture.
pub open spec fn newest_from(messages: Seq<PostedMessage>, i: int) -> Option<ImageSource>
    decreases messages.len() - i,
{
    if i < 0 || i >= messages.len() {
        None
    } else {
        match first_typed_from(messages[i].attachment_types@, 0) {
            Some(k) => Some(ImageSource::Attachment(i as usize, k as usize)),
            None => if regex_captures(IMAGE_URL_PATTERN@, messages[i].content@) is Some {
                Some(ImageSource::Link(i as usize))
            } else {
                newest_from(messages, i + 1)
            },
        }
    }
}

fn first_typed(types: &Vec<Option<String>>) -> (res: Option<usize>)
    ensures
        match first_typed_from(types@, 0) {
            Some(k) => res == Some(k as usize),
            None => res is None,
        },
{
    let mut k: usize = 0;
    while k < types.len()
        invariant
            k <= types@.len(),
            first_typed_from(types@, 0) == first_typed_from(types@, k as int),
        decreases types.len() - k,
    {
        let typed = match &types[k] {
            Some(m) => image_mime(m.as_str()),
            None => false,
        };
        if typed {
            return Some(k);
        }
        k = k + 1;
    }
    None
}

/// The picture the compressing command works on: the upload where its type
/// names a picture format, else the newest picture among the recent messages
/// (newest first), `None` where there is none.
pub fn newest_image(upload_type: Option<&str>, messages: &Vec<PostedMessage>) -> (res: Option<ImageSource>)
    ensures
        (upload_type matches Some(m) && image_mime_text(m@)) ==> res == Some(ImageSource::Upload),
        !(upload_type matches Some(m) && image_mime_text(m@)) ==> res == newest_from(messages@, 0),
{
    if let Some(m) = upload_type {
        if image_mime(m) {
            return Some(ImageSource::Upload);
        }
    }
    let mut i: usize = 0;
    while i < messages.len()
        invariant
            i <= messages@.len(),
            !(upload_type matches Some(m) && image_mime_text(m@)),
            newest_from(messages@, 0) == newest_from(messages@, i as int),
        decreases messages.len() - i,
    {
        let message = &messages[i];
        match first_typed(&message.attachment_types) {
            Some(k) => {
                return Some(ImageSource::Attachment(i, k));
            },
            None => {},
        }
        if links_image(message.content.as_str()) {
            return Some(ImageSource::Link(i));
        }
        i = i + 1;
    }
    None
}

/// A content type as characters.
pub open spec fn mime_view(mime: Option<&str>) -> Option<Seq<char>> {
    match mime {
        Some(m) => Some(m@),
        None => None,
    }
}

/// Bytes or an error text, as sequences.
pub open spec fn bytes_view(r: Result<Vec<u8>, String>) -> Result<Seq<u8>, Seq<char>> {
    match r {
        Ok(b) => Ok(b@),
        Err(e) => Err(e@),
    }
}

/// The width and height of the picture `bytes` hold, read in the format the
/// content type names (guessed from the bytes where there is none), or the
/// text of the decoding error.
pub uninterp spec fn picture_dims(bytes: Seq<u8>, mime: Option<Seq<char>>) -> Result<(u32, u32), Seq<char>>;

/// The picture `bytes` hold, read as for `picture_dims`, made RGB and written
/// as a JPEG of quality 1, or the text of the error.
pub uninterp spec fn jpeg_of(bytes: Seq<u8>, mime: Option<Seq<char>>) -> Result<Seq<u8>, Seq<char>>;

/// As `jpeg_of`, the picture first shrunk to fit 400 by 400 (keeping its
/// proportions, nearest-neighbour sampling).
pub uninterp spec fn shrunk_jpeg_of(bytes: Seq<u8>, mime: Option<Seq<char>>) -> Result<Seq<u8>, Seq<char>>;

/// Reads a picture's size with `image::load_from_memory_with_format` (the
/// format from `ImageFormat::from_mime_type`), or `image::load_from_memory`
/// without a content type: claimed to be the named size or error text.
#[verifier::external_body]
fn picture_size(bytes: &[u8], mime: Option<&str>) -> (res: Result<(u32, u32), String>)
    requires
        mime matches Some(m) ==> image_mime_text(m@),
    ensures
        match res {
            Ok(d) => picture_dims(bytes@, mime_view(mime)) == Ok::<(u32, u32), Seq<char>>(d),
            Err(e) => picture_dims(bytes@, mime_view(mime)) == Err::<(u32, u32), Seq<char>>(e@),
        },
{
    let picture = match mime.and_then(image::ImageFormat::from_mime_type) {
        Some(format) => image::load_from_memory_with_format(bytes, format),
        None => image::load_from_memory(bytes),
    };
    match picture {
        Ok(p) => Ok((p.width(), p.height())),
        Err(e) => Err(e.to_string()),
    }
}

/// Reads a picture as `picture_size` does, converts it with `into_rgb8` and
/// writes it with `image::codecs::jpeg::JpegEncoder::new_with_quality(_, 1)`:
/// claimed to be the named bytes or error text.
#[verifier::external_body]
fn encode_jpeg(bytes: &[u8], mime: Option<&str>) -> (res: Result<Vec<u8>, String>)
    requires
        mime matches Some(m) ==> image_mime_text(m@),
    ensures
        bytes_view(res) == jpeg_of(bytes@, mime_view(mime)),
{
    let picture = match mime.and_then(image::ImageFormat::from_mime_type) {
        Some(format) => image::load_from_memory_with_format(bytes, format),
        None => image::load_from_memory(bytes),
    };
    let rgb = match picture {
        Ok(p) => p.into_rgb8(),
        Err(e) => return Err(e.to_string()),
    };
    let mut out = Vec::new();
    match image::codecs::jpeg::JpegEncoder::new_with_quality(&mut out, 1).encode(&rgb, rgb.width(), rgb.height(), image::ExtendedColorType::Rgb8) {
        Ok(()) => Ok(out),
        Err(e) => Err(e.to_string()),
    }
}

/// As `encode_jpeg`, with `DynamicImage::resize(400, 400, FilterType::Nearest)`
/// before the conversion: claimed to be the named bytes or error text.
#[verifier::external_body]
fn encode_shrunk_jpeg(bytes: &[u8], mime: Option<&str>) -> (res: Result<Vec<u8>, String>)
    requires
        mime matches Some(m) ==> image_mime_text(m@),
    ensures
        bytes_view(res) == shrunk_jpeg_of(bytes@, mime_view(mime)),
{
    let picture = match mime.and_then(image::ImageFormat::from_mime_type) {
        Some(format) => image::load_from_memory_with_format(bytes, format),
        None => image::load_from_memory(bytes),
    };
    let rgb = match picture {
        Ok(p) => p.resize(MAX_SIDE, MAX_SIDE, image::imageops::FilterType::Nearest).into_rgb8(),
        Err(e) => return Err(e.to_string()),
    };
    let mut out = Vec::new();
    match image::codecs::jpeg::JpegEncoder::new_with_quality(&mut out, 1).encode(&rgb, rgb.width(), rgb.height(), image::ExtendedColorType::Rgb8) {
        Ok(()) => Ok(out),
        Err(e) => Err(e.to_string()),
    }
}

/// What compressing a picture gives: the text of the decoding error, else its
/// JPEG, shrunk first where it is wider or taller than 400.
pub open spec fn compressed(bytes: Seq<u8>, mime: Option<Seq<char>>) -> Result<Seq<u8>, Seq<char>> {
    match picture_dims(bytes, mime) {
        Err(e) => Err(e),
        Ok((w, h)) => if w > MAX_SIDE || h > MAX_SIDE {
            shrunk_jpeg_of(bytes, mime)
        } else {
            jpeg_of(bytes, mime)
        },
    }
}

/// Compresses a picture to a JPEG of the lowest quality, first shrinking it to
/// fit 400 by 400 where it is larger; the picture is read in the format its
/// content type names, or the format guessed from its bytes without one.
pub fn compress_picture(bytes: &[u8], mime: Option<&str>) -> (res: Result<Vec<u8>, String>)
    requires
        mime matches Some(m) ==> image_mime_text(m@),
    ensures
        bytes_view(res) == compressed(bytes@, mime_view(mime)),
{
    match picture_size(bytes, mime) {
        Err(e) => Err(e),
        Ok((w, h)) => if needs_shrink(w, h) {
            encode_shrunk_jpeg(bytes, mime)
        } else {
            encode_jpeg(bytes, mime)
        },
    }
}

} // verus!
