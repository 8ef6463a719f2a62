//! The outside calls that the library makes, each behind a contract that says
//! what is relied upon.
use vstd::prelude::*;

use crate::image_head::{can_decode, counts_fit};

verus! {

/// Whether `c` is a digit of a lower-case hexadecimal number.
pub open spec fn is_hex(c: char) -> bool {
    ('0' <= c <= '9') || ('a' <= c <= 'f')
}

/// Whether `s` is a random (version 4) UUID in its usual form: groups of 8, 4,
/// 4, 4 and 12 lower-case hexadecimal digits, with the version and the variant
/// in their places.
pub open spec fn is_uuid(s: Seq<char>) -> bool {
    &&& s.len() == 36
    &&& forall|i: int|
        0 <= i < 36 ==> if i == 8 || i == 13 || i == 18 || i == 23 {
            #[trigger] s[i] == '-'
        } else {
            is_hex(s[i])
        }
    &&& s[14] == '4'
    &&& (s[19] == '8' || s[19] == '9' || s[19] == 'a' || s[19] == 'b')
}

/// `chrono::Utc::now` and `DateTime::timestamp_millis`: milliseconds since the
/// epoch. The reading rests on the machine's clock, so nothing is claimed of it.
/// A clock that stands before the epoch makes the call panic.
#[verifier::external_body]
pub(crate) fn now_millis() -> (r: i64) {
    chrono::Utc::now().timestamp_millis()
}

/// `chrono::Utc::now` and `DateTime::timestamp`: seconds since the epoch, read
/// from the same clock as [`now_millis`]; nothing is claimed of it either.
#[verifier::external_body]
pub(crate) fn now_seconds() -> (r: i64) {
    chrono::Utc::now().timestamp()
}

/// `uuid::Uuid::new_v4`, printed: a fresh random identifier. Its digits rest on
/// chance; only the form of the text is claimed. A system that gives no random
/// bytes makes the call panic.
#[verifier::external_body]
pub(crate) fn new_uuid() -> (r: String)
    ensures
        is_uuid(r@),
{
    uuid::Uuid::new_v4().to_string()
}

/// A parsed accelerator: its modifiers as bits, and the number that identifies
/// the whole combination.
#[derive(Debug, Clone, Copy, PartialEq, Eq, Structural)]
pub struct Hotkey {
    pub mods: u32,
    pub id: u32,
}

/// What the hot-key parser makes of an accelerator on macOS or elsewhere: the
/// modifiers and the number of the combination, or its complaint. The two
/// differ in what `CmdOrCtrl` stands for.
pub uninterp spec fn hotkey_of(accelerator: Seq<char>, macos: bool) -> Result<
    (u32, u32),
    Seq<char>,
>;

/// The view of a parser's answer.
pub open spec fn hotkey_answer(r: Result<Hotkey, String>) -> Result<(u32, u32), Seq<char>> {
    match r {
        Ok(k) => Ok((k.mods, k.id)),
        Err(e) => Err(e@),
    }
}

/// `global_hotkey::hotkey::HotKey::try_from`: the combination that an
/// accelerator such as `Ctrl+Shift+Space` stands for, or why it stands for none.
/// Claimed: the answer is that of the named parser, for this platform; and a
/// text without a plus sign is read as a bare key, so it carries no modifier.
#[verifier::external_body]
pub(crate) fn parse_hotkey(accelerator: &str) -> (r: Result<Hotkey, String>)
    ensures
        exists|macos: bool| hotkey_answer(r) == #[trigger] hotkey_of(accelerator@, macos),
        !accelerator@.contains('+') && r is Ok ==> r.unwrap().mods == 0,
{
    match global_hotkey::hotkey::HotKey::try_from(accelerator) {
        Ok(k) => Ok(Hotkey { mods: k.mods.bits(), id: k.id() }),
        Err(e) => Err(e.to_string()),
    }
}

/// The width and height that the image decoders read in the head of a file, if
/// they recognise it. They go by the bytes alone, as long as no decoding hook is
/// registered, which nothing in this program does.
pub uninterp spec fn image_size_of(bytes: Seq<u8>) -> Option<(u32, u32)>;

/// `image::ImageReader` with `with_guessed_format` and `into_dimensions`: the
/// size of an image from its file's bytes. Claimed: the answer is the named one.
/// Two of the readers of a file's head count unchecked, and panic where a count
/// overflows in a build that looks for it, so the counts must fit. That of TIFF
/// multiplies the strips or tiles by the planes (`tiff`, `Image::from_reader`).
/// That of JPEG counts the bytes before a marker and the offsets of a metadata
/// block in 32 bits (`zune-jpeg`, `decode_headers_internal` and
/// `reassemble_extended_xmp`). The readers of the heads of GIF (`gif`, up to the
/// end of the header) and PNG (`png`, up to the first image data) add and
/// multiply only within what they have checked.
#[verifier::external_body]
pub(crate) fn image_size(bytes: &Vec<u8>) -> (r: Option<(u32, u32)>)
    requires
        counts_fit(bytes@),
    ensures
        r == image_size_of(bytes@),
{
    image::ImageReader::new(std::io::Cursor::new(bytes.as_slice()))
        .with_guessed_format()
        .ok()
        .and_then(|reader| reader.into_dimensions().ok())
}

/// What decoding an image file and encoding it as PNG gives: the new bytes, the
/// width and the height; `None` where either fails. It goes by the bytes alone,
/// as long as no decoding hook is registered, which nothing in this program does.
pub uninterp spec fn png_of(bytes: Seq<u8>) -> Option<(Seq<u8>, u32, u32)>;

/// The view of a conversion to PNG.
pub open spec fn png_answer(r: Option<(Vec<u8>, u32, u32)>) -> Option<(Seq<u8>, u32, u32)> {
    match r {
        Some((data, w, h)) => Some((data@, w, h)),
        None => None,
    }
}

/// `image::ImageReader` with `with_guessed_format` and `decode`, then
/// `DynamicImage::write_to` as PNG. Claimed: the answer is the named one. Beside
/// what [`image_size`] asks for, two kinds of pixels must not be there. The JPEG
/// decoder multiplies coefficients by quantisers of 16 bits unchecked
/// (`zune-jpeg`, `decode_mcu_block`). The TIFF decoder tells the lowest tiles by
/// a number that runs on over the planes, so in every plane but the first it
/// takes them to be whole, and asserts that there is room for them (`tiff`,
/// `TileAttributes::get_padding`, `Image::expand_chunk`).
#[verifier::external_body]
pub(crate) fn transcode_png(bytes: &Vec<u8>) -> (r: Option<(Vec<u8>, u32, u32)>)
    requires
        can_decode(bytes@),
    ensures
        png_answer(r) == png_of(bytes@),
{
    let reader = image::ImageReader::new(std::io::Cursor::new(bytes.as_slice()));
    let img = reader.with_guessed_format().ok()?.decode().ok()?;
    let mut out = std::io::Cursor::new(Vec::new());
    img.write_to(&mut out, image::ImageFormat::Png).ok()?;
    Some((out.into_inner(), img.width(), img.height()))
}

/// What encoding RGBA pixels as PNG gives; `None` where it fails.
pub uninterp spec fn rgba_png_of(width: u32, height: u32, rgba: Seq<u8>) -> Option<Seq<u8>>;

/// The view of an encoded image.
pub open spec fn bytes_of(r: Option<Vec<u8>>) -> Option<Seq<u8>> {
    match r {
        Some(data) => Some(data@),
        None => None,
    }
}

/// `image::RgbaImage::from_raw`, then `ImageBuffer::write_to` as PNG. Claimed:
/// the answer is the named one, and there is none where the pixels are fewer
/// than the size asks for.
#[verifier::external_body]
pub(crate) fn encode_rgba_png(width: u32, height: u32, rgba: Vec<u8>) -> (r: Option<Vec<u8>>)
    ensures
        bytes_of(r) == rgba_png_of(width, height, rgba@),
        rgba@.len() < 4 * width * height ==> r is None,
{
    let img = image::RgbaImage::from_raw(width, height, rgba)?;
    let mut out = std::io::Cursor::new(Vec::new());
    img.write_to(&mut out, image::ImageFormat::Png).ok()?;
    Some(out.into_inner())
}

} // verus!
