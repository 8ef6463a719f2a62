//! Which of the clipboard's forms is taken.
use usticky::clipboard::{
    first_probe, image_file_kind, keep_image, keep_image_sized, probe_dims, read, read_image_file,
    read_plugin_image, take_png, transcode_tiff_to_png, ClipboardContent, ImageKind, Offer, Probe,
    ReadStep, MAX_IMAGE_BYTES,
};
use usticky::image_head::{has_fitting_counts, is_decodable};
use usticky::platform::Platform;

fn encode(w: u32, h: u32, format: image::ImageFormat) -> Vec<u8> {
    let img = image::RgbImage::from_fn(w, h, |x, y| image::Rgb([x as u8, y as u8, 7]));
    let mut out = std::io::Cursor::new(Vec::new());
    img.write_to(&mut out, format).unwrap();
    out.into_inner()
}

#[test]
fn sizes_are_read_from_the_bytes() {
    assert_eq!(
        probe_dims(&encode(3, 5, image::ImageFormat::Png)),
        (Some(3), Some(5))
    );
    assert_eq!(
        probe_dims(&encode(9, 2, image::ImageFormat::Gif)),
        (Some(9), Some(2))
    );
    assert_eq!(probe_dims(&vec![1, 2, 3]), (None, None));
    assert_eq!(probe_dims(&vec![]), (None, None));
}

#[test]
fn tiff_becomes_png() {
    let tiff = encode(4, 6, image::ImageFormat::Tiff);
    let img = transcode_tiff_to_png(&tiff).unwrap();
    assert_eq!((img.ext, img.mime), ("png", "image/png"));
    assert_eq!((img.width, img.height), (Some(4), Some(6)));
    assert_eq!(img.name, None);
    assert_eq!(&img.data[1..4], b"PNG");
    assert_ne!(img.data, tiff);
    assert!(transcode_tiff_to_png(&vec![0; 20]).is_none());
    assert!(transcode_tiff_to_png(&vec![]).is_none());
}

const BYTE: u16 = 1;
const SHORT: u16 = 3;
const LONG: u16 = 4;
const LONG8: u16 = 16;

/// An entry of a directory: tag, type, number of values, value.
type Entry = (u16, u16, u32, u32);

/// A TIFF file of one directory, with `rest` behind it.
fn tiff(low_first: bool, entries: &[Entry], rest: &[u8]) -> Vec<u8> {
    let short = |n: u16| if low_first { n.to_le_bytes() } else { n.to_be_bytes() };
    let long = |n: u32| if low_first { n.to_le_bytes() } else { n.to_be_bytes() };
    let mut out = if low_first { b"II*\0".to_vec() } else { b"MM\0*".to_vec() };
    out.extend(long(8));
    out.extend(short(entries.len() as u16));
    for &(tag, kind, count, value) in entries {
        out.extend(short(tag));
        out.extend(short(kind));
        out.extend(long(count));
        match kind {
            BYTE => out.extend([value as u8, 0, 0, 0]),
            SHORT => {
                out.extend(short(value as u16));
                out.extend([0, 0]);
            }
            _ => out.extend(long(value)),
        }
    }
    out.extend(long(0));
    out.extend(rest);
    out
}

/// Where what stands behind a directory of `n` entries begins.
fn behind(n: u32) -> u32 {
    8 + 2 + 12 * n + 4
}

/// Gray strips of one row each, in planes.
fn strips(height: u32, samples: u32, planar: u32) -> Vec<Entry> {
    vec![
        (256, LONG, 1, 1),
        (257, LONG, 1, height),
        (262, SHORT, 1, 1),
        (277, SHORT, 1, samples),
        (278, LONG, 1, 1),
        (284, SHORT, 1, planar),
        (273, LONG, 1, 0),
        (279, LONG, 1, 0),
    ]
}

fn tiles(width: u32, height: u32, side: u32) -> Vec<Entry> {
    vec![
        (256, LONG, 1, width),
        (257, LONG, 1, height),
        (262, SHORT, 1, 1),
        (322, LONG, 1, side),
        (323, LONG, 1, side),
        (324, LONG, 1, 0),
        (325, LONG, 1, 0),
    ]
}

#[test]
fn strips_that_cannot_be_counted_are_not_looked_at() {
    for low_first in [true, false] {
        let file = |entries: &[Entry]| tiff(low_first, entries, &[]);
        let bad = file(&strips(u32::MAX, 2, 2));
        assert!(!has_fitting_counts(&bad));
        assert!(!is_decodable(&bad));
        assert_eq!(probe_dims(&bad), (None, None));
        assert!(transcode_tiff_to_png(&bad).is_none());
        let kept = keep_image(ImageKind::Png, bad.clone(), None).unwrap();
        assert_eq!((kept.width, kept.height), (None, None));
        let named = read_image_file("a.png", bad.clone()).unwrap();
        assert_eq!((named.width, named.height), (None, None));
        assert!(matches!(
            read(Probe::Tiff, Offer::Bytes(bad)),
            ReadStep::Try(Probe::Pixels)
        ));
        assert!(has_fitting_counts(&file(&strips(u32::MAX, 2, 1))));
        assert!(has_fitting_counts(&file(&strips(u32::MAX, 1, 2))));
        assert!(has_fitting_counts(&file(&strips(u32::MAX / 2, 2, 2))));
        assert!(!has_fitting_counts(&file(&strips(u32::MAX / 2 + 1, 2, 2))));
        assert_eq!(probe_dims(&file(&strips(u32::MAX, 2, 1))), (None, None));
    }
}

#[test]
fn tiles_that_cannot_be_counted_are_not_looked_at() {
    for low_first in [true, false] {
        let file = |entries: &[Entry]| tiff(low_first, entries, &[]);
        assert!(!has_fitting_counts(&file(&tiles(u32::MAX, u32::MAX, 1))));
        assert!(!has_fitting_counts(&file(&tiles(u32::MAX, u32::MAX, 65_536))));
        assert!(has_fitting_counts(&file(&tiles(u32::MAX, u32::MAX, 65_537))));
        assert!(!has_fitting_counts(&file(&tiles(1, 1, 0))));
        assert_eq!(probe_dims(&file(&tiles(u32::MAX, u32::MAX, 1))), (None, None));
    }
}

#[test]
fn directories_are_read_as_they_stand() {
    let file = |entries: &[Entry], rest: &[u8]| tiff(true, entries, rest);
    let twice = |first: Entry, second: Entry| {
        let mut e = strips(u32::MAX, 2, 1);
        e.push(first);
        e.push(second);
        has_fitting_counts(&file(&e, &[]))
    };
    // Of several entries the last counts, unless its type is unknown.
    assert!(twice((284, SHORT, 1, 2), (284, SHORT, 1, 1)));
    assert!(!twice((284, SHORT, 1, 1), (284, SHORT, 1, 2)));
    assert!(!twice((284, BYTE, 1, 2), (284, 99, 1, 1)));
    // A number must stand alone, and be one.
    assert!(!twice((257, LONG, 2, 1), (700, BYTE, 1, 0)));
    assert!(!twice((284, SHORT, 1, 3), (700, BYTE, 1, 0)));
    assert!(!twice((257, 11, 1, 1), (700, BYTE, 1, 0)));
    // Eight bytes stand elsewhere.
    let mut far = strips(u32::MAX, 2, 2);
    far[4] = (278, LONG8, 1, behind(8));
    assert!(has_fitting_counts(&file(&far, &[3, 0, 0, 0, 0, 0, 0, 0])));
    assert!(!has_fitting_counts(&file(&far, &[2, 0, 0, 0, 0, 0, 0, 0])));
    assert!(!has_fitting_counts(&file(&far, &[3, 0, 0, 0, 1, 0, 0, 0])));
    assert!(!has_fitting_counts(&file(&far, &[3, 0, 0, 0])));
    // Without rows per strip there is one strip.
    let mut whole = strips(u32::MAX, 9, 2);
    whole.remove(4);
    assert!(has_fitting_counts(&file(&whole, &[])));
    // A directory that breaks off says nothing.
    let full = file(&whole, &[]);
    assert!(!has_fitting_counts(&full[..full.len() - 1].to_vec()));
    assert!(!has_fitting_counts(&b"II*\0".to_vec()));
    assert!(has_fitting_counts(&b"II*".to_vec()));
    assert!(has_fitting_counts(&vec![]));
}

#[test]
fn files_of_either_byte_order_are_read() {
    for low_first in [true, false] {
        let n = 8;
        let file = tiff(
            low_first,
            &[
                (256, SHORT, 1, 2),
                (257, SHORT, 1, 3),
                (258, SHORT, 1, 8),
                (259, SHORT, 1, 1),
                (262, SHORT, 1, 1),
                (273, LONG, 1, behind(n)),
                (277, SHORT, 1, 1),
                (279, LONG, 1, 6),
            ],
            &[0, 50, 100, 150, 200, 250],
        );
        assert_eq!(probe_dims(&file), (Some(2), Some(3)));
        let png = transcode_tiff_to_png(&file).unwrap();
        assert_eq!((png.width, png.height), (Some(2), Some(3)));
        let pixels = image::load_from_memory(&png.data).unwrap().to_luma8();
        assert_eq!(pixels.into_raw(), vec![0, 50, 100, 150, 200, 250]);
    }
}

/// An RGB image of tiles of 16 by 16, a plane for each color.
fn planes(height: u32) -> Vec<u8> {
    let n = 10;
    let count = 3 * height.div_ceil(16);
    let list = behind(n);
    let data = list + 8 * count;
    let mut rest = vec![];
    for i in 0..count {
        rest.extend((data + 256 * i).to_le_bytes());
    }
    for _ in 0..count {
        rest.extend(256u32.to_le_bytes());
    }
    for i in 0..count {
        rest.extend([i as u8; 256]);
    }
    let entries = [
        (256, LONG, 1, 16),
        (257, LONG, 1, height),
        (258, SHORT, 1, 8),
        (262, SHORT, 1, 2),
        (277, SHORT, 1, 3),
        (284, SHORT, 1, 2),
        (322, LONG, 1, 16),
        (323, LONG, 1, 16),
        (324, LONG, count, list),
        (325, LONG, count, list + 4 * count),
    ];
    tiff(true, &entries, &rest)
}

#[test]
fn planes_of_whole_tiles_are_decoded() {
    let whole = planes(32);
    assert!(is_decodable(&whole));
    let png = transcode_tiff_to_png(&whole).unwrap();
    assert_eq!((png.width, png.height), (Some(16), Some(32)));
    let pixels = image::load_from_memory(&png.data).unwrap().to_rgb8();
    assert_eq!(pixels.get_pixel(0, 0).0, [0, 2, 4]);
    assert_eq!(pixels.get_pixel(15, 31).0, [1, 3, 5]);
    let padded = planes(20);
    assert_eq!(probe_dims(&padded), (Some(16), Some(20)));
    assert!(!is_decodable(&padded));
    assert!(transcode_tiff_to_png(&padded).is_none());
}

#[test]
fn jpeg_is_measured_but_not_decoded() {
    let jpeg = encode(5, 3, image::ImageFormat::Jpeg);
    assert_eq!(probe_dims(&jpeg), (Some(5), Some(3)));
    assert!(has_fitting_counts(&jpeg));
    assert!(!is_decodable(&jpeg));
    assert!(transcode_tiff_to_png(&jpeg).is_none());
    let mut compressed = strips(1, 1, 1);
    assert!(is_decodable(&tiff(true, &compressed, &[])));
    compressed.push((259, SHORT, 1, 7));
    assert!(has_fitting_counts(&tiff(true, &compressed, &[])));
    assert!(!is_decodable(&tiff(true, &compressed, &[])));
    for format in [image::ImageFormat::Png, image::ImageFormat::Gif] {
        let other = encode(5, 3, format);
        assert!(is_decodable(&other));
        let png = transcode_tiff_to_png(&other).unwrap();
        assert_eq!((png.width, png.height), (Some(5), Some(3)));
    }
}

#[test]
fn pixels_become_png() {
    let img = read_plugin_image(2, 3, vec![200; 24]).unwrap();
    assert_eq!((img.width, img.height), (Some(2), Some(3)));
    assert_eq!(&img.data[1..4], b"PNG");
    assert_eq!(probe_dims(&img.data), (Some(2), Some(3)));
    assert!(read_plugin_image(2, 3, vec![200; 23]).is_none());
    assert!(read_plugin_image(0, 3, vec![]).is_none());
    assert!(read_plugin_image(u32::MAX, u32::MAX, vec![]).is_none());
}

#[test]
fn images_that_are_too_large_are_left() {
    let kept = keep_image(ImageKind::Jpeg, vec![0; MAX_IMAGE_BYTES], None).unwrap();
    assert_eq!((kept.ext, kept.mime), ("jpg", "image/jpeg"));
    assert_eq!((kept.width, kept.height), (None, None));
    assert!(keep_image(ImageKind::Gif, vec![0; MAX_IMAGE_BYTES + 1], None).is_none());
    assert!(keep_image(ImageKind::Gif, vec![], None).is_none());
    assert!(take_png(Some((vec![0; MAX_IMAGE_BYTES + 1], 1, 1))).is_none());
    assert!(take_png(None).is_none());
    assert_eq!(MAX_IMAGE_BYTES, 25 * 1024 * 1024);
    let sized = keep_image_sized(ImageKind::Gif, vec![1], (Some(8), None), None).unwrap();
    assert_eq!((sized.width, sized.height), (Some(8), None));
}

#[test]
fn copied_files_go_by_their_extension() {
    assert_eq!(image_file_kind("a.GIF"), Some(ImageKind::Gif));
    assert_eq!(image_file_kind("a.b.png"), Some(ImageKind::Png));
    assert_eq!(image_file_kind("a.Jpeg"), Some(ImageKind::Jpeg));
    assert_eq!(image_file_kind("a.jpg"), Some(ImageKind::Jpeg));
    for other in ["a.txt", "png", ".png", "a.", "a.png.txt", ""] {
        assert_eq!(image_file_kind(other), None, "{}", other);
    }
    let png = encode(1, 1, image::ImageFormat::Png);
    let img = read_image_file("holiday.2024.PNG", png.clone()).unwrap();
    assert_eq!(img.name.as_deref(), Some("holiday.2024"));
    assert_eq!(img.data, png);
    assert_eq!((img.width, img.height), (Some(1), Some(1)));
    assert!(read_image_file("x.txt", png).is_none());
}

#[test]
fn forms_are_asked_for_in_order() {
    assert_eq!(first_probe(Platform::MacOs), Probe::Raw(ImageKind::Gif));
    assert_eq!(first_probe(Platform::Windows), Probe::Pixels);
    assert_eq!(first_probe(Platform::Linux), Probe::Pixels);
    let mut probe = first_probe(Platform::MacOs);
    let mut seen = vec![probe];
    loop {
        match read(probe, Offer::Nothing) {
            ReadStep::Try(p) => {
                probe = p;
                seen.push(p);
            }
            ReadStep::Found(ClipboardContent::Empty) => break,
            ReadStep::Found(_) => panic!("nothing was offered"),
        }
    }
    assert_eq!(
        seen,
        vec![
            Probe::Raw(ImageKind::Gif),
            Probe::Raw(ImageKind::Png),
            Probe::Raw(ImageKind::Jpeg),
            Probe::FileUrl,
            Probe::Tiff,
            Probe::Pixels,
            Probe::Text
        ]
    );
}

#[test]
fn an_animation_is_kept_as_it_is() {
    let gif = encode(2, 2, image::ImageFormat::Gif);
    match read(Probe::Raw(ImageKind::Gif), Offer::Bytes(gif.clone())) {
        ReadStep::Found(ClipboardContent::Image(img)) => {
            assert_eq!(img.data, gif);
            assert_eq!((img.ext, img.mime), ("gif", "image/gif"));
            assert_eq!((img.width, img.height), (Some(2), Some(2)));
        }
        _ => panic!("expected the image"),
    }
}

#[test]
fn text_is_taken_as_it_stands_unless_blank() {
    match read(Probe::Text, Offer::Text(" hi ".to_string())) {
        ReadStep::Found(ClipboardContent::Text(t)) => assert_eq!(t, " hi "),
        _ => panic!("expected the text"),
    }
    assert!(matches!(
        read(Probe::Text, Offer::Text(" \n ".to_string())),
        ReadStep::Found(ClipboardContent::Empty)
    ));
    assert!(matches!(
        read(Probe::Pixels, Offer::Pixels(1, 1, vec![])),
        ReadStep::Try(Probe::Text)
    ));
    assert!(matches!(
        read(
            Probe::FileUrl,
            Offer::File("a.txt".to_string(), vec![1, 2, 3])
        ),
        ReadStep::Try(Probe::Tiff)
    ));
}
