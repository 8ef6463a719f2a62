//! What the clipboard offers, and which of it is taken: an image before text,
//! and of several forms of an image the one that loses least.
use vstd::prelude::*;

use crate::external::{
    bytes_of, encode_rgba_png, image_size, image_size_of, png_answer, png_of, rgba_png_of,
    transcode_png,
};
use crate::image_head::{
    can_decode, counts_fit, has_fitting_counts, has_tiff_head, is_decodable,
};
use crate::path::{extensions_are_cut_off, is_extension_dot, stem, stem_text};
use crate::platform::Platform;
use crate::text::{
    after_last, blank_texts_trim_to_nothing, folded, is_white_space, lemma_after_last,
    same_folded, same_ignoring_case, tail_after, trim, trimmed,
};
use crate::todo::text_of;

verus! {

/// What a clipboard image records.
#[verifier::ext_equal]
pub struct ImageView {
    pub data: Seq<u8>,
    pub ext: Seq<char>,
    pub mime: Seq<char>,
    pub width: Option<u32>,
    pub height: Option<u32>,
    pub name: Option<Seq<char>>,
}

/// An image from the clipboard, ready to be written to a file.
#[derive(Debug)]
pub struct ClipboardImage {
    /// The bytes of the file.
    pub data: Vec<u8>,
    /// The file's extension, without a dot: `gif`, `png` or `jpg`.
    pub ext: &'static str,
    pub mime: &'static str,
    pub width: Option<u32>,
    pub height: Option<u32>,
    /// A title to suggest, such as the name of the file it was copied from.
    pub name: Option<String>,
}

impl View for ClipboardImage {
    type V = ImageView;

    open spec fn view(&self) -> ImageView {
        ImageView {
            data: self.data@,
            ext: self.ext@,
            mime: self.mime@,
            width: self.width,
            height: self.height,
            name: text_of(self.name),
        }
    }
}

/// The view of an optional image.
pub open spec fn image_of(r: Option<ClipboardImage>) -> Option<ImageView> {
    match r {
        Some(v) => Some(v@),
        None => None,
    }
}

/// What the clipboard holds.
#[derive(Debug)]
pub enum ClipboardContent {
    Text(String),
    Image(ClipboardImage),
    Empty,
}

/// The largest image that is taken, in bytes.
pub const MAX_IMAGE_BYTES: usize = 26_214_400;

/// Whether an image's file is neither empty nor too large.
pub open spec fn is_fit(bytes: Seq<u8>) -> bool {
    0 < bytes.len() <= MAX_IMAGE_BYTES
}

/// The image formats that are kept as they are.
#[derive(Debug, Clone, Copy, PartialEq, Eq, Structural)]
pub enum ImageKind {
    Gif,
    Png,
    Jpeg,
}

/// The extension that files of a format get.
pub open spec fn kind_ext(kind: ImageKind) -> Seq<char> {
    match kind {
        ImageKind::Gif => "gif"@,
        ImageKind::Png => "png"@,
        ImageKind::Jpeg => "jpg"@,
    }
}

/// The media type of a format.
pub open spec fn kind_mime(kind: ImageKind) -> Seq<char> {
    match kind {
        ImageKind::Gif => "image/gif"@,
        ImageKind::Png => "image/png"@,
        ImageKind::Jpeg => "image/jpeg"@,
    }
}

impl ImageKind {
    /// The extension that files of this format get.
    pub fn ext(self) -> (r: &'static str)
        ensures
            r@ == kind_ext(self),
    {
        match self {
            ImageKind::Gif => "gif",
            ImageKind::Png => "png",
            ImageKind::Jpeg => "jpg",
        }
    }

    /// The media type of this format.
    pub fn mime(self) -> (r: &'static str)
        ensures
            r@ == kind_mime(self),
    {
        match self {
            ImageKind::Gif => "image/gif",
            ImageKind::Png => "image/png",
            ImageKind::Jpeg => "image/jpeg",
        }
    }
}

/// The width and the height, each on its own.
pub open spec fn split_size(size: Option<(u32, u32)>) -> (Option<u32>, Option<u32>) {
    match size {
        Some((w, h)) => (Some(w), Some(h)),
        None => (None, None),
    }
}

/// The size of an image from its file's bytes, where its head can be read.
pub open spec fn probed_size(bytes: Seq<u8>) -> (Option<u32>, Option<u32>) {
    if counts_fit(bytes) {
        split_size(image_size_of(bytes))
    } else {
        (None, None)
    }
}

/// The size of an image from its file's bytes; nothing where it cannot be told.
pub fn probe_dims(data: &Vec<u8>) -> (r: (Option<u32>, Option<u32>))
    ensures
        r == if counts_fit(data@) {
            split_size(image_size_of(data@))
        } else {
            (None, None)
        },
{
    if !has_fitting_counts(data) {
        return (None, None);
    }
    match image_size(data) {
        Some((w, h)) => (Some(w), Some(h)),
        None => (None, None),
    }
}

/// An image kept as it is, with its size.
pub open spec fn kept_image(
    kind: ImageKind,
    bytes: Seq<u8>,
    dims: (Option<u32>, Option<u32>),
    name: Option<Seq<char>>,
) -> Option<ImageView> {
    if is_fit(bytes) {
        Some(
            ImageView {
                data: bytes,
                ext: kind_ext(kind),
                mime: kind_mime(kind),
                width: dims.0,
                height: dims.1,
                name,
            },
        )
    } else {
        None
    }
}

/// An image kept as it is, with a size that is already known.
pub fn keep_image_sized(
    kind: ImageKind,
    data: Vec<u8>,
    dims: (Option<u32>, Option<u32>),
    name: Option<String>,
) -> (r: Option<ClipboardImage>)
    ensures
        image_of(r) == kept_image(kind, data@, dims, text_of(name)),
{
    if data.len() == 0 || data.len() > MAX_IMAGE_BYTES {
        return None;
    }
    Some(
        ClipboardImage {
            data,
            ext: kind.ext(),
            mime: kind.mime(),
            width: dims.0,
            height: dims.1,
            name,
        },
    )
}

/// An image kept as it is, unless it is empty or too large.
pub fn keep_image(kind: ImageKind, data: Vec<u8>, name: Option<String>) -> (r: Option<
    ClipboardImage,
>)
    ensures
        image_of(r) == kept_image(kind, data@, probed_size(data@), text_of(name)),
{
    if data.len() == 0 || data.len() > MAX_IMAGE_BYTES {
        return None;
    }
    let dims = probe_dims(&data);
    keep_image_sized(kind, data, dims, name)
}

/// The format that a file's name stands for, by its extension.
pub open spec fn kind_of_file(file: Seq<char>) -> Option<ImageKind> {
    let ext = after_last(file, '.', '.');
    if !(exists|i: int| is_extension_dot(file, i)) {
        None
    } else if same_folded(ext, "gif"@) {
        Some(ImageKind::Gif)
    } else if same_folded(ext, "png"@) {
        Some(ImageKind::Png)
    } else if same_folded(ext, "jpg"@) || same_folded(ext, "jpeg"@) {
        Some(ImageKind::Jpeg)
    } else {
        None
    }
}

/// The format that a file's name stands for, by its extension; `None` where it
/// has none or is not an image's.
pub fn image_file_kind(file: &str) -> (r: Option<ImageKind>)
    ensures
        r == kind_of_file(file@),
{
    let base = stem_text(file);
    let same = base.as_str().unicode_len() == file.unicode_len();
    proof {
        if exists|i: int| is_extension_dot(file@, i) {
            let i = choose|i: int| is_extension_dot(file@, i);
            assert(stem(file@) == file@.take(i));
            assert(stem(file@).len() < file@.len());
        }
    }
    if same {
        return None;
    }
    let ext = tail_after(file, '.', '.');
    let e = ext.as_str();
    if same_ignoring_case(e, "gif") {
        Some(ImageKind::Gif)
    } else if same_ignoring_case(e, "png") {
        Some(ImageKind::Png)
    } else if same_ignoring_case(e, "jpg") || same_ignoring_case(e, "jpeg") {
        Some(ImageKind::Jpeg)
    } else {
        None
    }
}

/// The image in a copied file: kept as it is, with the file's name as a title.
pub open spec fn file_image_of(
    file: Seq<char>,
    bytes: Seq<u8>,
    dims: (Option<u32>, Option<u32>),
) -> Option<ImageView> {
    match kind_of_file(file) {
        Some(kind) => kept_image(kind, bytes, dims, Some(stem(file))),
        None => None,
    }
}

/// The image in a copied file, if its name is that of an image.
pub fn read_image_file(file: &str, data: Vec<u8>) -> (r: Option<ClipboardImage>)
    ensures
        image_of(r) == file_image_of(file@, data@, probed_size(data@)),
{
    match image_file_kind(file) {
        Some(kind) => keep_image(kind, data, Some(stem_text(file))),
        None => None,
    }
}

/// An image that was turned into PNG, unless that made it too large.
pub open spec fn png_image_of(encoded: Option<(Seq<u8>, u32, u32)>) -> Option<ImageView> {
    match encoded {
        Some((data, w, h)) => if data.len() <= MAX_IMAGE_BYTES {
            Some(
                ImageView {
                    data,
                    ext: "png"@,
                    mime: "image/png"@,
                    width: Some(w),
                    height: Some(h),
                    name: None,
                },
            )
        } else {
            None
        },
        None => None,
    }
}

/// An image that was turned into PNG, unless that failed or made it too large.
pub fn take_png(encoded: Option<(Vec<u8>, u32, u32)>) -> (r: Option<ClipboardImage>)
    ensures
        image_of(r) == png_image_of(png_answer(encoded)),
{
    match encoded {
        Some((data, w, h)) => {
            if data.len() > MAX_IMAGE_BYTES {
                return None;
            }
            Some(
                ClipboardImage {
                    data,
                    ext: "png",
                    mime: "image/png",
                    width: Some(w),
                    height: Some(h),
                    name: None,
                },
            )
        },
        None => None,
    }
}

/// A TIFF image as PNG: browsers do not show TIFF. One that is empty, too large or
/// more than the decoder can take is not looked at.
pub fn transcode_tiff_to_png(bytes: &Vec<u8>) -> (r: Option<ClipboardImage>)
    ensures
        image_of(r) == if is_fit(bytes@) && can_decode(bytes@) {
            png_image_of(png_of(bytes@))
        } else {
            None
        },
{
    if bytes.len() == 0 || bytes.len() > MAX_IMAGE_BYTES || !is_decodable(bytes) {
        return None;
    }
    take_png(transcode_png(bytes))
}

/// The size beside the bytes, where there are any.
pub open spec fn with_size(data: Option<Seq<u8>>, w: u32, h: u32) -> Option<
    (Seq<u8>, u32, u32),
> {
    match data {
        Some(d) => Some((d, w, h)),
        None => None,
    }
}

/// Bare pixels as PNG.
pub fn read_plugin_image(width: u32, height: u32, rgba: Vec<u8>) -> (r: Option<ClipboardImage>)
    ensures
        image_of(r) == png_image_of(with_size(rgba_png_of(width, height, rgba@), width, height)),
        rgba@.len() < 4 * width * height ==> r is None,
{
    match encode_rgba_png(width, height, rgba) {
        Some(data) => take_png(Some((data, width, height))),
        None => None,
    }
}

/// One form in which the clipboard may hold something.
#[derive(Debug, Clone, Copy, PartialEq, Eq, Structural)]
pub enum Probe {
    /// The bytes of an image file of a format that is kept.
    Raw(ImageKind),
    /// A reference to a copied file.
    FileUrl,
    /// The bytes of a TIFF image.
    Tiff,
    /// Bare pixels.
    Pixels,
    /// Text.
    Text,
}

/// What the clipboard gave for a probe.
#[derive(Debug)]
pub enum Offer {
    Nothing,
    Bytes(Vec<u8>),
    /// A copied file: its own name and its bytes.
    File(String, Vec<u8>),
    Pixels(u32, u32, Vec<u8>),
    Text(String),
}

/// What to do after a probe.
#[derive(Debug)]
pub enum ReadStep {
    /// Ask the clipboard for this next.
    Try(Probe),
    /// This is what the clipboard holds.
    Found(ClipboardContent),
}

/// The form to ask for first: only macOS hands out files as they are.
pub open spec fn first_probe_on(platform: Platform) -> Probe {
    match platform {
        Platform::MacOs => Probe::Raw(ImageKind::Gif),
        _ => Probe::Pixels,
    }
}

/// The form to ask for after `probe`; `None` after the last.
pub open spec fn probe_after(probe: Probe) -> Option<Probe> {
    match probe {
        Probe::Raw(ImageKind::Gif) => Some(Probe::Raw(ImageKind::Png)),
        Probe::Raw(ImageKind::Png) => Some(Probe::Raw(ImageKind::Jpeg)),
        Probe::Raw(ImageKind::Jpeg) => Some(Probe::FileUrl),
        Probe::FileUrl => Some(Probe::Tiff),
        Probe::Tiff => Some(Probe::Pixels),
        Probe::Pixels => Some(Probe::Text),
        Probe::Text => None,
    }
}

/// The form to ask for first.
pub fn first_probe(platform: Platform) -> (r: Probe)
    ensures
        r == first_probe_on(platform),
{
    match platform {
        Platform::MacOs => Probe::Raw(ImageKind::Gif),
        _ => Probe::Pixels,
    }
}

fn next_probe(probe: Probe) -> (r: Option<Probe>)
    ensures
        r == probe_after(probe),
{
    match probe {
        Probe::Raw(ImageKind::Gif) => Some(Probe::Raw(ImageKind::Png)),
        Probe::Raw(ImageKind::Png) => Some(Probe::Raw(ImageKind::Jpeg)),
        Probe::Raw(ImageKind::Jpeg) => Some(Probe::FileUrl),
        Probe::FileUrl => Some(Probe::Tiff),
        Probe::Tiff => Some(Probe::Pixels),
        Probe::Pixels => Some(Probe::Text),
        Probe::Text => None,
    }
}

/// The image that an offer makes, if it makes one.
pub open spec fn offered_image(probe: Probe, offer: Offer) -> Option<ImageView> {
    match (probe, offer) {
        (Probe::Raw(kind), Offer::Bytes(data)) => kept_image(
            kind,
            data@,
            probed_size(data@),
            None,
        ),
        (Probe::FileUrl, Offer::File(file, data)) => file_image_of(
            file@,
            data@,
            probed_size(data@),
        ),
        (Probe::Tiff, Offer::Bytes(data)) => if is_fit(data@) && can_decode(data@) {
            png_image_of(png_of(data@))
        } else {
            None
        },
        (Probe::Pixels, Offer::Pixels(w, h, rgba)) => png_image_of(
            with_size(rgba_png_of(w, h, rgba@), w, h),
        ),
        _ => None,
    }
}

/// Whether an offer is text that is more than white space.
pub open spec fn offered_text(probe: Probe, offer: Offer) -> bool {
    probe == Probe::Text && offer is Text && trimmed(offer->Text_0@).len() > 0
}

/// What to do with what the clipboard gave: take it, or ask for the next form.
/// Text is taken as it stands. After the last form the clipboard is empty.
pub fn read(probe: Probe, offer: Offer) -> (r: ReadStep)
    ensures
        match offered_image(probe, offer) {
            Some(image) => r is Found && r->Found_0 is Image && r->Found_0->Image_0@ == image,
            None => if offered_text(probe, offer) {
                r is Found && r->Found_0 is Text && r->Found_0->Text_0@ == offer->Text_0@
            } else {
                match probe_after(probe) {
                    Some(next) => r == ReadStep::Try(next),
                    None => r is Found && r->Found_0 is Empty,
                }
            },
        },
{
    let image: Option<ClipboardImage> = match (probe, offer) {
        (Probe::Raw(kind), Offer::Bytes(data)) => keep_image(kind, data, None),
        (Probe::FileUrl, Offer::File(file, data)) => read_image_file(file.as_str(), data),
        (Probe::Tiff, Offer::Bytes(data)) => transcode_tiff_to_png(&data),
        (Probe::Pixels, Offer::Pixels(w, h, rgba)) => read_plugin_image(w, h, rgba),
        (Probe::Text, Offer::Text(text)) => {
            if trim(text.as_str()).as_str().unicode_len() > 0 {
                return ReadStep::Found(ClipboardContent::Text(text));
            }
            None
        },
        _ => None,
    };
    match image {
        Some(image) => ReadStep::Found(ClipboardContent::Image(image)),
        None => match next_probe(probe) {
            Some(next) => ReadStep::Try(next),
            None => ReadStep::Found(ClipboardContent::Empty),
        },
    }
}

/// How many forms are left to ask for.
pub open spec fn probes_left(probe: Probe) -> nat {
    match probe {
        Probe::Raw(ImageKind::Gif) => 6,
        Probe::Raw(ImageKind::Png) => 5,
        Probe::Raw(ImageKind::Jpeg) => 4,
        Probe::FileUrl => 3,
        Probe::Tiff => 2,
        Probe::Pixels => 1,
        Probe::Text => 0,
    }
}

/// What the clipboard is found to hold.
pub enum Found {
    Image(ImageView),
    Text(Seq<char>),
    Empty,
}

/// What is found when the clipboard is asked from `probe` on and gives
/// `offers(p)` for each form `p`.
pub open spec fn found(probe: Probe, offers: spec_fn(Probe) -> Offer) -> Found
    decreases probes_left(probe),
{
    match offered_image(probe, offers(probe)) {
        Some(image) => Found::Image(image),
        None => if offered_text(probe, offers(probe)) {
            Found::Text(offers(probe)->Text_0@)
        } else {
            match probe_after(probe) {
                Some(next) => if probes_left(next) < probes_left(probe) {
                    found(next, offers)
                } else {
                    Found::Empty
                },
                None => Found::Empty,
            }
        },
    }
}

/// A GIF that is fit to be taken is taken as it is, whatever else the clipboard
/// of a Mac holds beside it.
pub proof fn gif_wins(offers: spec_fn(Probe) -> Offer)
    requires
        offers(Probe::Raw(ImageKind::Gif)) is Bytes,
        is_fit(offers(Probe::Raw(ImageKind::Gif))->Bytes_0@),
    ensures
        found(first_probe_on(Platform::MacOs), offers) is Image,
        found(first_probe_on(Platform::MacOs), offers)->Image_0.data == offers(
            Probe::Raw(ImageKind::Gif),
        )->Bytes_0@,
        found(first_probe_on(Platform::MacOs), offers)->Image_0.ext == "gif"@,
{
}

/// Where any form that is asked for makes an image, an image is what is found:
/// text beside it is not taken.
pub proof fn images_come_before_text(
    platform: Platform,
    offers: spec_fn(Probe) -> Offer,
    probe: Probe,
)
    requires
        probes_left(probe) <= probes_left(first_probe_on(platform)),
        offered_image(probe, offers(probe)) is Some,
    ensures
        found(first_probe_on(platform), offers) is Image,
{
    reveal_with_fuel(found, 8);
}

/// Every image that is taken has one of the three extensions, and its file is
/// not too large.
pub proof fn taken_images_are_fit(probe: Probe, offer: Offer)
    requires
        offered_image(probe, offer) is Some,
    ensures
        offered_image(probe, offer).unwrap().data.len() <= MAX_IMAGE_BYTES,
        ({
            let ext = offered_image(probe, offer).unwrap().ext;
            ext == "gif"@ || ext == "png"@ || ext == "jpg"@
        }),
{
}

/// Only the head of a TIFF file can keep it from the decoders: of every other file
/// that is not too large, the size is the one that they read.
pub proof fn other_files_are_measured(bytes: Seq<u8>)
    requires
        is_fit(bytes),
        !has_tiff_head(bytes),
    ensures
        probed_size(bytes) == split_size(image_size_of(bytes)),
{
}

/// The place of a form in the order in which the clipboard is asked: files as
/// they are first, then a copied file, a TIFF image, bare pixels, and text last.
pub open spec fn turn(probe: Probe) -> int {
    match probe {
        Probe::Raw(ImageKind::Gif) => 0,
        Probe::Raw(ImageKind::Png) => 1,
        Probe::Raw(ImageKind::Jpeg) => 2,
        Probe::FileUrl => 3,
        Probe::Tiff => 4,
        Probe::Pixels => 5,
        Probe::Text => 6,
    }
}

/// Whether a form is asked for on a platform: only macOS hands out files.
pub open spec fn is_asked_for(platform: Platform, probe: Probe) -> bool {
    platform == Platform::MacOs || probe == Probe::Pixels || probe == Probe::Text
}

/// Of all forms that are asked for on a platform, the first that makes an image
/// is what is found.
pub proof fn the_first_image_is_found(
    platform: Platform,
    offers: spec_fn(Probe) -> Offer,
    probe: Probe,
)
    requires
        is_asked_for(platform, probe),
        offered_image(probe, offers(probe)) is Some,
        forall|p: Probe|
            turn(p) < turn(probe) && is_asked_for(platform, p) ==> offered_image(
                p,
                #[trigger] offers(p),
            ) is None,
    ensures
        found(first_probe_on(platform), offers) == Found::Image(
            offered_image(probe, offers(probe)).unwrap(),
        ),
{
    reveal_with_fuel(found, 8);
    assert(offered_image(Probe::Raw(ImageKind::Gif), offers(Probe::Raw(ImageKind::Gif))) is None
        || turn(probe) <= 0 || !is_asked_for(platform, Probe::Raw(ImageKind::Gif)));
    assert(offered_image(Probe::Raw(ImageKind::Png), offers(Probe::Raw(ImageKind::Png))) is None
        || turn(probe) <= 1 || !is_asked_for(platform, Probe::Raw(ImageKind::Gif)));
    assert(offered_image(Probe::Raw(ImageKind::Jpeg), offers(Probe::Raw(ImageKind::Jpeg))) is None
        || turn(probe) <= 2 || !is_asked_for(platform, Probe::Raw(ImageKind::Gif)));
    assert(offered_image(Probe::FileUrl, offers(Probe::FileUrl)) is None || turn(probe) <= 3
        || !is_asked_for(platform, Probe::FileUrl));
    assert(offered_image(Probe::Tiff, offers(Probe::Tiff)) is None || turn(probe) <= 4
        || !is_asked_for(platform, Probe::Tiff));
    assert(offered_image(Probe::Pixels, offers(Probe::Pixels)) is None || turn(probe) <= 5);
}

/// Where no form makes an image, text that is more than white space is found as
/// it stands; and where there is none, the clipboard is empty.
pub proof fn text_is_found_without_images(
    platform: Platform,
    offers: spec_fn(Probe) -> Offer,
)
    requires
        forall|p: Probe|
            is_asked_for(platform, p) ==> offered_image(p, #[trigger] offers(p)) is None,
    ensures
        ({
            let offer = offers(Probe::Text);
            let r = found(first_probe_on(platform), offers);
            if offer is Text && exists|i: int|
                0 <= i < offer->Text_0@.len() && !is_white_space(#[trigger] offer->Text_0@[i]) {
                r == Found::Text(offer->Text_0@)
            } else {
                r is Empty
            }
        }),
{
    reveal_with_fuel(found, 8);
    let offer = offers(Probe::Text);
    let gif = offers(Probe::Raw(ImageKind::Gif));
    let png = offers(Probe::Raw(ImageKind::Png));
    let jpeg = offers(Probe::Raw(ImageKind::Jpeg));
    let file = offers(Probe::FileUrl);
    let tiff = offers(Probe::Tiff);
    let pixels = offers(Probe::Pixels);
    if offer is Text {
        blank_texts_trim_to_nothing(offer->Text_0@);
    }
}

/// Pixels of some size that come with enough bytes, whose encoding as PNG goes
/// well and is not too large, are an image of that size with that encoding as
/// its data. On every platform that is what is found, unless an earlier form
/// makes an image.
pub proof fn pixels_are_found_on_every_platform(
    platform: Platform,
    offers: spec_fn(Probe) -> Offer,
    width: u32,
    height: u32,
    rgba: Vec<u8>,
    data: Seq<u8>,
)
    requires
        width > 0,
        height > 0,
        rgba@.len() >= 4 * width * height,
        offers(Probe::Pixels) == Offer::Pixels(width, height, rgba),
        rgba_png_of(width, height, rgba@) == Some(data),
        data.len() <= 25 * 1024 * 1024,
        platform == Platform::MacOs ==> {
            &&& offered_image(
                Probe::Raw(ImageKind::Gif),
                offers(Probe::Raw(ImageKind::Gif)),
            ) is None
            &&& offered_image(
                Probe::Raw(ImageKind::Png),
                offers(Probe::Raw(ImageKind::Png)),
            ) is None
            &&& offered_image(
                Probe::Raw(ImageKind::Jpeg),
                offers(Probe::Raw(ImageKind::Jpeg)),
            ) is None
            &&& offered_image(Probe::FileUrl, offers(Probe::FileUrl)) is None
            &&& offered_image(Probe::Tiff, offers(Probe::Tiff)) is None
        },
    ensures
        ({
            let r = found(first_probe_on(platform), offers);
            &&& r is Image
            &&& r->Image_0.data == data
            &&& r->Image_0.width == Some(width)
            &&& r->Image_0.height == Some(height)
            &&& r->Image_0.ext == "png"@
            &&& r->Image_0.mime == "image/png"@
            &&& r->Image_0.name is None
        }),
{
    reveal_with_fuel(found, 8);
}

/// A file of a format that is kept, neither empty nor larger than 25 MiB, is an
/// image as it is, with the extension and media type of its format; any other
/// is none.
pub proof fn files_are_kept_as_they_are(kind: ImageKind, data: Vec<u8>)
    ensures
        ({
            let r = offered_image(Probe::Raw(kind), Offer::Bytes(data));
            &&& r is Some <==> 0 < data@.len() <= 25 * 1024 * 1024
            &&& r is Some ==> {
                let image = r.unwrap();
                &&& image.data == data@
                &&& image.width == probed_size(data@).0
                &&& image.height == probed_size(data@).1
                &&& image.name is None
                &&& kind == ImageKind::Gif ==> image.ext == "gif"@ && image.mime == "image/gif"@
                &&& kind == ImageKind::Png ==> image.ext == "png"@ && image.mime == "image/png"@
                &&& kind == ImageKind::Jpeg ==> image.ext == "jpg"@ && image.mime
                    == "image/jpeg"@
            }
        }),
{
}

/// A copied file whose name ends in a dot and the extension of an image, in
/// whatever case, is that image as it is, under the name in front of the dot. The
/// extensions `jpg` and `jpeg` stand for the same format.
pub proof fn copied_files_are_kept_as_they_are(
    file: String,
    data: Vec<u8>,
    base: Seq<char>,
    ext: Seq<char>,
)
    requires
        base.len() > 0,
        !ext.contains('.'),
        file@ == base + seq!['.'] + ext,
    ensures
        ({
            let r = offered_image(Probe::FileUrl, Offer::File(file, data));
            let jpeg = same_folded(ext, "jpg"@) || same_folded(ext, "jpeg"@);
            let known = same_folded(ext, "gif"@) || same_folded(ext, "png"@) || jpeg;
            &&& r is Some <==> known && 0 < data@.len() <= 25 * 1024 * 1024
            &&& r is Some ==> {
                let image = r.unwrap();
                &&& image.data == data@
                &&& image.name == Some(base)
                &&& image.width == probed_size(data@).0
                &&& image.height == probed_size(data@).1
                &&& same_folded(ext, "gif"@) ==> image.ext == "gif"@ && image.mime
                    == "image/gif"@
                &&& same_folded(ext, "png"@) ==> image.ext == "png"@ && image.mime
                    == "image/png"@
                &&& jpeg ==> image.ext == "jpg"@ && image.mime == "image/jpeg"@
            }
        }),
{
    extensions_are_cut_off(base, ext);
    let k = base.len() as int;
    assert(file@[k] == '.');
    assert forall|j: int| k < j < file@.len() implies file@[j] != '.' by {
        assert(file@[j] == ext[j - k - 1]);
        assert(ext.contains(ext[j - k - 1]));
    }
    assert(is_extension_dot(file@, k));
    lemma_after_last(file@, '.', '.', k + 1);
    assert(file@.skip(k + 1) =~= ext);
    assert(after_last(file@, '.', '.') == ext);
    assert(stem(file@) == base);
    reveal_strlit("gif");
    reveal_strlit("png");
    reveal_strlit("jpg");
    reveal_strlit("jpeg");
    assert(folded("gif"@[0]) != folded("png"@[0]));
    assert(folded("gif"@[0]) != folded("jpg"@[0]));
    assert(folded("png"@[0]) != folded("jpg"@[0]));
    if same_folded(ext, "gif"@) {
        assert(folded(ext[0]) == folded("gif"@[0]));
        assert(!same_folded(ext, "png"@) && !same_folded(ext, "jpg"@) && !same_folded(ext, "jpeg"@));
    } else if same_folded(ext, "png"@) {
        assert(folded(ext[0]) == folded("png"@[0]));
        assert(!same_folded(ext, "jpg"@) && !same_folded(ext, "jpeg"@));
    }
}

/// A copied file without an extension is no image.
pub proof fn files_without_extension_are_no_images(file: String, data: Vec<u8>)
    requires
        forall|i: int| 0 < i < file@.len() ==> #[trigger] file@[i] != '.',
    ensures
        offered_image(Probe::FileUrl, Offer::File(file, data)) is None,
{
    if exists|i: int| is_extension_dot(file@, i) {
        let i = choose|i: int| is_extension_dot(file@, i);
        assert(file@[i] == '.');
    }
}

/// A TIFF image that the decoder can take becomes the PNG that decoding and
/// encoding it gives, with its size, unless it or that is empty or too large.
pub proof fn tiff_images_become_png(data: Vec<u8>)
    ensures
        ({
            let r = offered_image(Probe::Tiff, Offer::Bytes(data));
            let taken = 0 < data@.len() <= 25 * 1024 * 1024 && can_decode(data@);
            match png_of(data@) {
                Some((png, w, h)) => {
                    &&& r is Some <==> taken && png.len() <= 25 * 1024 * 1024
                    &&& r is Some ==> {
                        let image = r.unwrap();
                        &&& image.data == png
                        &&& image.width == Some(w)
                        &&& image.height == Some(h)
                        &&& image.ext == "png"@
                        &&& image.mime == "image/png"@
                        &&& image.name is None
                    }
                },
                None => r is None,
            }
        }),
{
}

/// Nothing, and text, make no image, whatever was asked for.
pub proof fn text_makes_no_image(probe: Probe, text: String)
    ensures
        offered_image(probe, Offer::Nothing) is None,
        offered_image(probe, Offer::Text(text)) is None,
        offered_text(probe, Offer::Nothing) == false,
{
}

/// The size that the decoders read is recorded as it is, width and height each
/// in its place.
pub proof fn sizes_are_recorded_as_read(w: u32, h: u32, data: Seq<u8>)
    ensures
        split_size(Some((w, h))) == (Some(w), Some(h)),
        split_size(None) == (None::<u32>, None::<u32>),
        with_size(Some(data), w, h) == Some((data, w, h)),
        with_size(None, w, h) is None,
        counts_fit(data) ==> probed_size(data) == split_size(image_size_of(data)),
        !counts_fit(data) ==> probed_size(data) == (None::<u32>, None::<u32>),
{
}

/// The view of an image records everything that it holds.
pub proof fn image_views_are_whole(image: ClipboardImage)
    ensures
        image@.data == image.data@,
        image@.ext == image.ext@,
        image@.mime == image.mime@,
        image@.width == image.width,
        image@.height == image.height,
        image.name is None <==> image@.name is None,
        image.name is Some ==> image@.name == Some(image.name.unwrap()@),
        image_of(Some(image)) == Some(image@),
        image_of(None) is None,
{
}

/// Bare pixels make an image exactly where their encoding as PNG goes well and is
/// not too large.
pub proof fn pixels_make_an_image_where_they_can_be_encoded(
    width: u32,
    height: u32,
    rgba: Vec<u8>,
)
    ensures
        ({
            let r = offered_image(Probe::Pixels, Offer::Pixels(width, height, rgba));
            match rgba_png_of(width, height, rgba@) {
                Some(data) => {
                    &&& r is Some <==> data.len() <= 25 * 1024 * 1024
                    &&& r is Some ==> r.unwrap().data == data && r.unwrap().width == Some(width)
                        && r.unwrap().height == Some(height) && r.unwrap().ext == "png"@
                        && r.unwrap().mime == "image/png"@ && r.unwrap().name is None
                },
                None => r is None,
            }
        }),
{
}

/// Each form is answered in one way only: what comes in another makes no image.
pub proof fn other_answers_make_no_image(probe: Probe, offer: Offer)
    requires
        offered_image(probe, offer) is Some,
    ensures
        probe is Raw || probe is Tiff ==> offer is Bytes,
        probe is FileUrl ==> offer is File,
        probe is Pixels ==> offer is Pixels,
        !(probe is Text),
        !(offer is Nothing),
        !(offer is Text),
{
}

/// Text is taken exactly where text was asked for and some character of it is not
/// white space.
pub proof fn text_is_taken_where_asked_for(probe: Probe, offer: Offer)
    ensures
        offered_text(probe, offer) <==> probe == Probe::Text && offer is Text && exists|i: int|
            0 <= i < offer->Text_0@.len() && !is_white_space(#[trigger] offer->Text_0@[i]),
{
    if offer is Text {
        blank_texts_trim_to_nothing(offer->Text_0@);
    }
}

/// The view of an encoding is its bytes as they are, with the width and the
/// height each in its place.
pub proof fn encodings_are_viewed_as_they_are(data: Vec<u8>, w: u32, h: u32)
    ensures
        png_answer(Some((data, w, h))) == Some((data@, w, h)),
        png_answer(None) is None,
        bytes_of(Some(data)) == Some(data@),
        bytes_of(None) is None,
{
}

/// An image that is kept has the given size and name, whatever they are, and its
/// bytes as they are; only an empty or too large one is not kept.
pub proof fn kept_images_are_as_given(
    kind: ImageKind,
    bytes: Seq<u8>,
    width: Option<u32>,
    height: Option<u32>,
    name: Option<Seq<char>>,
)
    ensures
        ({
            let r = kept_image(kind, bytes, (width, height), name);
            &&& r is Some <==> 1 <= bytes.len() <= 25 * 1024 * 1024
            &&& r is Some ==> {
                let image = r.unwrap();
                &&& image.data == bytes
                &&& image.width == width
                &&& image.height == height
                &&& image.name == name
                &&& kind == ImageKind::Gif ==> image.ext == "gif"@ && image.mime == "image/gif"@
                &&& kind == ImageKind::Png ==> image.ext == "png"@ && image.mime == "image/png"@
                &&& kind == ImageKind::Jpeg ==> image.ext == "jpg"@ && image.mime
                    == "image/jpeg"@
            }
        }),
{
}

} // verus!
