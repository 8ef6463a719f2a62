//! What the head of an image file says of its size, as far as it decides whether
//! the file may be handed to the image decoders: they multiply some of these
//! numbers unchecked, and trust some of them.
use vstd::arithmetic::div_mod::{lemma_fundamental_div_mod, lemma_mod_bound};
use vstd::prelude::*;

verus! {

/// Whether a file begins as a TIFF file whose numbers have their low byte first.
pub open spec fn is_low_first(bytes: Seq<u8>) -> bool {
    bytes.len() >= 4 && bytes[0] == 0x49 && bytes[1] == 0x49 && bytes[2] == 0x2a && bytes[3] == 0
}

/// Whether a file begins as a TIFF file whose numbers have their high byte first.
pub open spec fn is_high_first(bytes: Seq<u8>) -> bool {
    bytes.len() >= 4 && bytes[0] == 0x4d && bytes[1] == 0x4d && bytes[2] == 0 && bytes[3] == 0x2a
}

/// Whether a file begins as a TIFF file.
pub open spec fn has_tiff_head(bytes: Seq<u8>) -> bool {
    is_low_first(bytes) || is_high_first(bytes)
}

/// Whether a file begins as a JPEG file.
pub open spec fn has_jpeg_head(bytes: Seq<u8>) -> bool {
    bytes.len() >= 3 && bytes[0] == 0xff && bytes[1] == 0xd8 && bytes[2] == 0xff
}

/// The number in the two bytes from `at` on.
pub open spec fn short_at(bytes: Seq<u8>, at: int) -> int {
    if is_low_first(bytes) {
        bytes[at] + 0x100 * bytes[at + 1]
    } else {
        0x100 * bytes[at] + bytes[at + 1]
    }
}

/// The number in the four bytes from `at` on.
pub open spec fn long_at(bytes: Seq<u8>, at: int) -> int {
    if is_low_first(bytes) {
        short_at(bytes, at) + 0x1_0000 * short_at(bytes, at + 2)
    } else {
        0x1_0000 * short_at(bytes, at) + short_at(bytes, at + 2)
    }
}

/// The number in the eight bytes from `at` on.
pub open spec fn long8_at(bytes: Seq<u8>, at: int) -> int {
    if is_low_first(bytes) {
        long_at(bytes, at) + 0x1_0000_0000 * long_at(bytes, at + 4)
    } else {
        0x1_0000_0000 * long_at(bytes, at) + long_at(bytes, at + 4)
    }
}

/// Where the first directory of a TIFF file begins.
pub open spec fn directory_at(bytes: Seq<u8>) -> int {
    long_at(bytes, 4)
}

/// How many entries the first directory has.
pub open spec fn entry_count(bytes: Seq<u8>) -> int {
    short_at(bytes, directory_at(bytes))
}

/// Where entry `i` of the first directory begins: two bytes each for its tag and
/// its type, four for the number of values, four for the value.
pub open spec fn entry_at(bytes: Seq<u8>, i: int) -> int {
    directory_at(bytes) + 2 + 12 * i
}

/// Whether the first directory is there in full, the place of the next one
/// behind it included.
pub open spec fn has_directory(bytes: Seq<u8>) -> bool {
    &&& bytes.len() >= 8
    &&& directory_at(bytes) + 2 <= bytes.len()
    &&& entry_at(bytes, entry_count(bytes)) + 4 <= bytes.len()
}

/// Whether a type of values is known. Entries of other types are passed over.
pub open spec fn is_known_type(kind: int) -> bool {
    1 <= kind <= 13 || 16 <= kind <= 18
}

/// Where the entry for `tag` begins among the first `n`: of several it is the
/// last.
pub open spec fn find_entry(bytes: Seq<u8>, tag: int, n: nat) -> Option<int>
    decreases n,
{
    if n == 0 {
        None
    } else {
        let at = entry_at(bytes, n - 1);
        if short_at(bytes, at) == tag && is_known_type(short_at(bytes, at + 2)) {
            Some(at)
        } else {
            find_entry(bytes, tag, (n - 1) as nat)
        }
    }
}

/// Where the entry for `tag` begins, if the first directory has one.
pub open spec fn entry_of(bytes: Seq<u8>, tag: int) -> Option<int> {
    find_entry(bytes, tag, entry_count(bytes) as nat)
}

/// The number in the entry that begins at `at`, if it holds just one and that
/// fits in 32 bits. A number of eight bytes stands elsewhere, where the entry
/// points to.
pub open spec fn number_in(bytes: Seq<u8>, at: int) -> Option<int> {
    let kind = short_at(bytes, at + 2);
    let place = long_at(bytes, at + 8);
    if long_at(bytes, at + 4) != 1 {
        None
    } else if kind == 1 || kind == 7 {
        Some(bytes[at + 8] as int)
    } else if kind == 3 {
        Some(short_at(bytes, at + 8))
    } else if kind == 4 || kind == 13 {
        Some(place)
    } else if (kind == 16 || kind == 18) && place + 8 <= bytes.len() && long8_at(bytes, place)
        <= u32::MAX {
        Some(long8_at(bytes, place))
    } else {
        None
    }
}

/// The number for `tag`: `missing` where the directory has no entry for it.
pub open spec fn number_of(bytes: Seq<u8>, tag: int, missing: Option<int>) -> Option<int> {
    match entry_of(bytes, tag) {
        Some(at) => number_in(bytes, at),
        None => missing,
    }
}

/// The tags of the entries that are read.
pub const IMAGE_WIDTH: u16 = 256;

pub const IMAGE_LENGTH: u16 = 257;

pub const COMPRESSION: u16 = 259;

pub const SAMPLES_PER_PIXEL: u16 = 277;

pub const ROWS_PER_STRIP: u16 = 278;

pub const PLANAR_CONFIGURATION: u16 = 284;

pub const TILE_WIDTH: u16 = 322;

pub const TILE_LENGTH: u16 = 323;

pub const TILE_OFFSETS: u16 = 324;

/// Into how many planes the samples are parted: one, unless each sample of a
/// pixel has a plane of its own.
pub open spec fn planes_of(bytes: Seq<u8>) -> Option<int> {
    match number_of(bytes, PLANAR_CONFIGURATION as int, Some(1)) {
        Some(c) => if c == 1 {
            Some(1)
        } else if c == 2 {
            number_of(bytes, SAMPLES_PER_PIXEL as int, Some(1))
        } else {
            None
        },
        None => None,
    }
}

/// How many pieces of `part` it takes to cover `whole`.
pub open spec fn pieces(whole: int, part: int) -> int {
    (whole - 1) / part + 1
}

/// How many tiles or strips a TIFF file's image is made of, over all its planes.
/// There is no number where the file does not say what it takes to tell: such a
/// file the decoder refuses.
pub open spec fn chunk_count(bytes: Seq<u8>) -> Option<int> {
    let width = number_of(bytes, IMAGE_WIDTH as int, None);
    let height = number_of(bytes, IMAGE_LENGTH as int, None);
    let planes = planes_of(bytes);
    let rows = number_of(bytes, ROWS_PER_STRIP as int, height);
    let tile_width = number_of(bytes, TILE_WIDTH as int, None);
    let tile_length = number_of(bytes, TILE_LENGTH as int, None);
    if !has_directory(bytes) || width is None || height is None || planes is None || width.unwrap()
        == 0 || height.unwrap() == 0 || planes.unwrap() == 0 {
        None
    } else if entry_of(bytes, TILE_OFFSETS as int) is Some {
        if tile_width is None || tile_length is None || tile_width.unwrap() == 0
            || tile_length.unwrap() == 0 {
            None
        } else {
            Some(
                pieces(height.unwrap(), tile_length.unwrap()) * pieces(
                    width.unwrap(),
                    tile_width.unwrap(),
                ) * planes.unwrap(),
            )
        }
    } else if rows is None || rows.unwrap() == 0 {
        None
    } else {
        Some(pieces(height.unwrap(), rows.unwrap()) * planes.unwrap())
    }
}

/// Whether the decoders can count what they count in a file's head: the bytes of
/// a JPEG file in a signed number of 32 bits, the tiles or strips of a TIFF file
/// in an unsigned one.
pub open spec fn counts_fit(bytes: Seq<u8>) -> bool {
    &&& bytes.len() <= i32::MAX
    &&& has_tiff_head(bytes) ==> chunk_count(bytes) is Some && chunk_count(bytes).unwrap()
        <= u32::MAX
}

/// Whether a TIFF file's pixels are compressed as JPEG.
pub open spec fn holds_jpeg(bytes: Seq<u8>) -> bool {
    number_of(bytes, COMPRESSION as int, None) == Some(7int)
}

/// Whether a TIFF file has several planes of tiles of which the lowest reach
/// below the image.
pub open spec fn has_padded_planes(bytes: Seq<u8>) -> bool {
    let height = number_of(bytes, IMAGE_LENGTH as int, None).unwrap();
    let tile_length = number_of(bytes, TILE_LENGTH as int, None).unwrap();
    &&& entry_of(bytes, TILE_OFFSETS as int) is Some
    &&& planes_of(bytes).unwrap() > 1
    &&& height % tile_length != 0
}

/// Whether the decoders can be handed a file to decode in full: its counts fit,
/// its pixels are not compressed as JPEG, and no plane of tiles but the first
/// has tiles that reach below the image.
pub open spec fn can_decode(bytes: Seq<u8>) -> bool {
    &&& counts_fit(bytes)
    &&& !has_jpeg_head(bytes)
    &&& has_tiff_head(bytes) ==> !holds_jpeg(bytes) && !has_padded_planes(bytes)
}

fn starts_low_first(bytes: &Vec<u8>) -> (r: bool)
    ensures
        r == is_low_first(bytes@),
{
    bytes.len() >= 4 && bytes[0] == 0x49 && bytes[1] == 0x49 && bytes[2] == 0x2a && bytes[3] == 0
}

fn starts_as_tiff(bytes: &Vec<u8>) -> (r: bool)
    ensures
        r == has_tiff_head(bytes@),
{
    starts_low_first(bytes) || (bytes.len() >= 4 && bytes[0] == 0x4d && bytes[1] == 0x4d && bytes[2]
        == 0 && bytes[3] == 0x2a)
}

fn read_short(bytes: &Vec<u8>, at: usize) -> (r: u16)
    requires
        at + 2 <= bytes.len(),
    ensures
        r == short_at(bytes@, at as int),
{
    let (a, b) = (bytes[at] as u16, bytes[at + 1] as u16);
    if starts_low_first(bytes) {
        a + 0x100 * b
    } else {
        0x100 * a + b
    }
}

fn read_long(bytes: &Vec<u8>, at: usize) -> (r: u32)
    requires
        at + 4 <= bytes.len(),
    ensures
        r == long_at(bytes@, at as int),
{
    let (a, b) = (read_short(bytes, at) as u32, read_short(bytes, at + 2) as u32);
    if starts_low_first(bytes) {
        a + 0x1_0000 * b
    } else {
        0x1_0000 * a + b
    }
}

fn read_long8(bytes: &Vec<u8>, at: usize) -> (r: u64)
    requires
        at + 8 <= bytes.len(),
    ensures
        r == long8_at(bytes@, at as int),
{
    let (a, b) = (read_long(bytes, at) as u64, read_long(bytes, at + 4) as u64);
    if starts_low_first(bytes) {
        a + 0x1_0000_0000 * b
    } else {
        0x1_0000_0000 * a + b
    }
}

/// The place and the number of entries of the first directory, if it is there in
/// full.
fn read_directory(bytes: &Vec<u8>) -> (r: Option<(usize, usize)>)
    requires
        bytes@.len() <= i32::MAX,
    ensures
        r is Some == has_directory(bytes@),
        r is Some ==> r.unwrap().0 == directory_at(bytes@) && r.unwrap().1 == entry_count(bytes@),
{
    if bytes.len() < 8 {
        return None;
    }
    let start: u32 = read_long(bytes, 4);
    if start as u64 + 2 > bytes.len() as u64 {
        return None;
    }
    let start: usize = start as usize;
    let count: usize = read_short(bytes, start) as usize;
    if (start + 6) as u64 + 12 * count as u64 > bytes.len() as u64 {
        return None;
    }
    Some((start, count))
}

fn read_entry(bytes: &Vec<u8>, tag: u16) -> (r: Option<usize>)
    requires
        bytes@.len() <= i32::MAX,
        has_directory(bytes@),
    ensures
        match r {
            Some(at) => entry_of(bytes@, tag as int) == Some(at as int) && at + 12
                <= bytes@.len(),
            None => entry_of(bytes@, tag as int) is None,
        },
{
    let (start, count) = match read_directory(bytes) {
        Some(d) => d,
        None => return None,
    };
    let mut n: usize = count;
    while n > 0
        invariant
            n <= count,
            start == directory_at(bytes@),
            count == entry_count(bytes@),
            has_directory(bytes@),
            bytes@.len() <= i32::MAX,
            entry_of(bytes@, tag as int) == find_entry(bytes@, tag as int, n as nat),
        decreases n,
    {
        n -= 1;
        let at: usize = start + 2 + 12 * n;
        assert(at == entry_at(bytes@, n as int));
        let kind: u16 = read_short(bytes, at + 2);
        if read_short(bytes, at) == tag && ((1 <= kind && kind <= 13) || (16 <= kind && kind
            <= 18)) {
            return Some(at);
        }
    }
    None
}

fn read_number_in(bytes: &Vec<u8>, at: usize) -> (r: Option<u32>)
    requires
        at + 12 <= bytes.len() <= i32::MAX,
    ensures
        match r {
            Some(n) => number_in(bytes@, at as int) == Some(n as int),
            None => number_in(bytes@, at as int) is None,
        },
{
    if read_long(bytes, at + 4) != 1 {
        return None;
    }
    let kind: u16 = read_short(bytes, at + 2);
    let place: u32 = read_long(bytes, at + 8);
    if kind == 1 || kind == 7 {
        return Some(bytes[at + 8] as u32);
    }
    if kind == 3 {
        return Some(read_short(bytes, at + 8) as u32);
    }
    if kind == 4 || kind == 13 {
        return Some(place);
    }
    if (kind == 16 || kind == 18) && place as u64 + 8 <= bytes.len() as u64 {
        let n: u64 = read_long8(bytes, place as usize);
        if n <= u32::MAX as u64 {
            return Some(n as u32);
        }
    }
    None
}

/// The view of an optional number.
pub open spec fn number_view(n: Option<u32>) -> Option<int> {
    match n {
        Some(n) => Some(n as int),
        None => None,
    }
}

fn read_number(bytes: &Vec<u8>, tag: u16, missing: Option<u32>) -> (r: Option<u32>)
    requires
        bytes@.len() <= i32::MAX,
        has_directory(bytes@),
    ensures
        number_view(r) == number_of(bytes@, tag as int, number_view(missing)),
{
    match read_entry(bytes, tag) {
        Some(at) => read_number_in(bytes, at),
        None => missing,
    }
}

fn read_planes(bytes: &Vec<u8>) -> (r: Option<u32>)
    requires
        bytes@.len() <= i32::MAX,
        has_directory(bytes@),
    ensures
        number_view(r) == planes_of(bytes@),
{
    match read_number(bytes, PLANAR_CONFIGURATION, Some(1)) {
        Some(c) => {
            if c == 1 {
                Some(1)
            } else if c == 2 {
                read_number(bytes, SAMPLES_PER_PIXEL, Some(1))
            } else {
                None
            }
        },
        None => None,
    }
}

fn read_pieces(whole: u32, part: u32) -> (r: u128)
    requires
        whole > 0,
        part > 0,
    ensures
        r == pieces(whole as int, part as int),
        1 <= r <= u32::MAX,
{
    let q: u32 = (whole - 1) / part;
    assert(q <= whole - 1) by (nonlinear_arith)
        requires
            q == (whole - 1) / part as int,
            whole > 0,
            part > 0,
    ;
    q as u128 + 1
}

/// How many tiles or strips a TIFF file's image is made of, if the file says
/// what it takes to tell.
fn read_chunk_count(bytes: &Vec<u8>) -> (r: Option<u128>)
    requires
        bytes@.len() <= i32::MAX,
    ensures
        match r {
            Some(n) => chunk_count(bytes@) == Some(n as int),
            None => chunk_count(bytes@) is None,
        },
{
    if read_directory(bytes).is_none() {
        return None;
    }
    let width: u32 = match read_number(bytes, IMAGE_WIDTH, None) {
        Some(n) => n,
        None => return None,
    };
    let height: u32 = match read_number(bytes, IMAGE_LENGTH, None) {
        Some(n) => n,
        None => return None,
    };
    let planes: u32 = match read_planes(bytes) {
        Some(n) => n,
        None => return None,
    };
    if width == 0 || height == 0 || planes == 0 {
        return None;
    }
    if read_entry(bytes, TILE_OFFSETS).is_some() {
        match (read_number(bytes, TILE_WIDTH, None), read_number(bytes, TILE_LENGTH, None)) {
            (Some(tile_width), Some(tile_length)) => {
                if tile_width == 0 || tile_length == 0 {
                    return None;
                }
                let down: u128 = read_pieces(height, tile_length);
                let across: u128 = read_pieces(width, tile_width);
                assert(down * across <= 0xffff_ffff * 0xffff_ffff) by (nonlinear_arith)
                    requires
                        down <= 0xffff_ffff,
                        across <= 0xffff_ffff,
                ;
                let tiles: u128 = down * across;
                assert(tiles * planes <= 0xffff_ffff * 0xffff_ffff * 0xffff_ffff)
                    by (nonlinear_arith)
                    requires
                        tiles <= 0xffff_ffff * 0xffff_ffff,
                        planes <= 0xffff_ffff,
                ;
                Some(tiles * planes as u128)
            },
            _ => None,
        }
    } else {
        match read_number(bytes, ROWS_PER_STRIP, Some(height)) {
            Some(rows) => {
                if rows == 0 {
                    return None;
                }
                let strips: u128 = read_pieces(height, rows);
                assert(strips * planes <= 0xffff_ffff * 0xffff_ffff) by (nonlinear_arith)
                    requires
                        strips <= 0xffff_ffff,
                        planes <= 0xffff_ffff,
                ;
                Some(strips * planes as u128)
            },
            None => None,
        }
    }
}

/// Whether the decoders can count what they count in a file's head.
pub fn has_fitting_counts(bytes: &Vec<u8>) -> (r: bool)
    ensures
        r == counts_fit(bytes@),
{
    if bytes.len() as u64 > i32::MAX as u64 {
        return false;
    }
    if !starts_as_tiff(bytes) {
        return true;
    }
    match read_chunk_count(bytes) {
        Some(n) => n <= u32::MAX as u128,
        None => false,
    }
}

/// Whether the decoders can be handed a file to decode in full.
pub fn is_decodable(bytes: &Vec<u8>) -> (r: bool)
    ensures
        r == can_decode(bytes@),
{
    if !has_fitting_counts(bytes) {
        return false;
    }
    if bytes.len() >= 3 && bytes[0] == 0xff && bytes[1] == 0xd8 && bytes[2] == 0xff {
        return false;
    }
    if !starts_as_tiff(bytes) {
        return true;
    }
    if let Some(method) = read_number(bytes, COMPRESSION, None) {
        if method == 7 {
            return false;
        }
    }
    if read_entry(bytes, TILE_OFFSETS).is_none() {
        return true;
    }
    match (
        read_planes(bytes),
        read_number(bytes, IMAGE_LENGTH, None),
        read_number(bytes, TILE_LENGTH, None),
    ) {
        (Some(planes), Some(height), Some(tile_length)) => planes <= 1 || tile_length == 0 || height
            % tile_length == 0,
        _ => false,
    }
}

/// The heads by which files are told apart, byte for byte.
pub proof fn heads_are_told_by_their_bytes(bytes: Seq<u8>)
    ensures
        is_low_first(bytes) <==> bytes.len() >= 4 && bytes.take(4) == seq![
            0x49u8,
            0x49u8,
            42u8,
            0u8,
        ],
        has_tiff_head(bytes) <==> bytes.len() >= 4 && (bytes.take(4) == seq![
            0x49u8,
            0x49u8,
            42u8,
            0u8,
        ] || bytes.take(4) == seq![0x4du8, 0x4du8, 0u8, 42u8]),
        has_jpeg_head(bytes) <==> bytes.len() >= 3 && bytes.take(3) == seq![
            0xffu8,
            0xd8u8,
            0xffu8,
        ],
{
    let low = seq![0x49u8, 0x49u8, 42u8, 0u8];
    let high = seq![0x4du8, 0x4du8, 0u8, 42u8];
    let jpeg = seq![0xffu8, 0xd8u8, 0xffu8];
    if bytes.len() >= 4 {
        let head = bytes.take(4);
        assert(head[0] == bytes[0] && head[1] == bytes[1] && head[2] == bytes[2] && head[3]
            == bytes[3]);
        if is_low_first(bytes) {
            assert(head =~= low);
        }
        if is_high_first(bytes) {
            assert(head =~= high);
        }
        if head == low {
            assert(low[0] == 0x49 && low[1] == 0x49 && low[2] == 42 && low[3] == 0);
        }
        if head == high {
            assert(high[0] == 0x4d && high[1] == 0x4d && high[2] == 0 && high[3] == 42);
        }
    }
    if bytes.len() >= 3 {
        let head = bytes.take(3);
        assert(head[0] == bytes[0] && head[1] == bytes[1] && head[2] == bytes[2]);
        if has_jpeg_head(bytes) {
            assert(head =~= jpeg);
        }
        if head == jpeg {
            assert(jpeg[0] == 0xff && jpeg[1] == 0xd8 && jpeg[2] == 0xff);
        }
    }
}

/// A number in two, four or eight bytes is the sum of its bytes, each with its
/// weight: the first byte weighs least where the file says so by its head, and
/// else most.
pub proof fn numbers_are_sums_of_bytes(bytes: Seq<u8>, at: int)
    ensures
        is_low_first(bytes) ==> {
            &&& short_at(bytes, at) == bytes[at] + 256 * bytes[at + 1]
            &&& long_at(bytes, at) == bytes[at] + 256 * bytes[at + 1] + 65536 * bytes[at + 2]
                + 16777216 * bytes[at + 3]
            &&& long8_at(bytes, at) == long_at(bytes, at) + 4294967296 * long_at(bytes, at + 4)
        },
        !is_low_first(bytes) ==> {
            &&& short_at(bytes, at) == 256 * bytes[at] + bytes[at + 1]
            &&& long_at(bytes, at) == 16777216 * bytes[at] + 65536 * bytes[at + 1] + 256 * bytes[at
                + 2] + bytes[at + 3]
            &&& long8_at(bytes, at) == 4294967296 * long_at(bytes, at) + long_at(bytes, at + 4)
        },
{
}

/// A directory of `n` entries takes twelve bytes for each, two in front of them
/// for their number, and four behind them; it begins where the four bytes behind
/// the head say.
pub proof fn directories_have_twelve_bytes_for_each_entry(bytes: Seq<u8>, i: int)
    ensures
        ({
            let start = long_at(bytes, 4);
            &&& directory_at(bytes) == start
            &&& entry_count(bytes) == short_at(bytes, start)
            &&& entry_at(bytes, i) == start + 2 + 12 * i
            &&& has_directory(bytes) <==> bytes.len() >= 8 && start + 2 <= bytes.len() && start + 6
                + 12 * short_at(bytes, start) <= bytes.len()
        }),
{
}

/// Whether entry `i` of the first directory is for `tag` and of a type that is
/// known.
pub open spec fn is_entry_for(bytes: Seq<u8>, tag: int, i: int) -> bool {
    let at = long_at(bytes, 4) + 2 + 12 * i;
    let kind = short_at(bytes, at + 2);
    short_at(bytes, at) == tag && 1 <= kind <= 18 && kind != 14 && kind != 15
}

/// Of the entries for a tag it is the last that counts.
pub proof fn the_last_entry_counts(bytes: Seq<u8>, tag: int, i: int)
    requires
        0 <= i < short_at(bytes, long_at(bytes, 4)),
        is_entry_for(bytes, tag, i),
        forall|j: int|
            i < j < short_at(bytes, long_at(bytes, 4)) ==> !#[trigger] is_entry_for(bytes, tag, j),
    ensures
        entry_of(bytes, tag) == Some(long_at(bytes, 4) + 2 + 12 * i),
{
    lemma_last_entry(bytes, tag, i, entry_count(bytes) as nat);
}

proof fn lemma_last_entry(bytes: Seq<u8>, tag: int, i: int, n: nat)
    requires
        0 <= i < n,
        is_entry_for(bytes, tag, i),
        forall|j: int| i < j < n ==> !#[trigger] is_entry_for(bytes, tag, j),
    ensures
        find_entry(bytes, tag, n) == Some(entry_at(bytes, i)),
    decreases n,
{
    assert(is_entry_for(bytes, tag, n - 1) <==> i == n - 1);
    if i < n - 1 {
        lemma_last_entry(bytes, tag, i, (n - 1) as nat);
    }
}

/// A tag that no entry is for has no entry.
pub proof fn tags_without_entry_have_none(bytes: Seq<u8>, tag: int)
    requires
        forall|j: int|
            0 <= j < short_at(bytes, long_at(bytes, 4)) ==> !#[trigger] is_entry_for(
                bytes,
                tag,
                j,
            ),
    ensures
        entry_of(bytes, tag) is None,
{
    lemma_no_entry(bytes, tag, entry_count(bytes) as nat);
}

proof fn lemma_no_entry(bytes: Seq<u8>, tag: int, n: nat)
    requires
        forall|j: int| 0 <= j < n ==> !#[trigger] is_entry_for(bytes, tag, j),
    ensures
        find_entry(bytes, tag, n) is None,
    decreases n,
{
    if n > 0 {
        assert(!is_entry_for(bytes, tag, n - 1));
        lemma_no_entry(bytes, tag, (n - 1) as nat);
    }
}

/// An entry of one value holds it as its type says: in a byte, in two or in four,
/// or in eight bytes elsewhere. Of any other type, or of several values, it holds
/// no number.
pub proof fn entries_hold_numbers_by_type(bytes: Seq<u8>, at: int)
    ensures
        ({
            let kind = short_at(bytes, at + 2);
            let count = long_at(bytes, at + 4);
            let place = long_at(bytes, at + 8);
            let n = number_in(bytes, at);
            &&& count != 1 ==> n is None
            &&& count == 1 && (kind == 1 || kind == 7) ==> n == Some(bytes[at + 8] as int)
            &&& count == 1 && kind == 3 ==> n == Some(short_at(bytes, at + 8))
            &&& count == 1 && (kind == 4 || kind == 13) ==> n == Some(place)
            &&& count == 1 && (kind == 16 || kind == 18) ==> {
                let fits = place + 8 <= bytes.len() && long8_at(bytes, place) < 0x1_0000_0000;
                &&& fits ==> n == Some(long8_at(bytes, place))
                &&& !fits ==> n is None
            }
            &&& n is Some ==> kind == 1 || kind == 3 || kind == 4 || kind == 7 || kind == 13 || kind
                == 16 || kind == 18
        }),
{
}

/// A tag's number is the one that its entry holds; only where it has no entry is
/// it the one that is taken instead.
pub proof fn entries_decide_where_there_are_any(bytes: Seq<u8>, tag: int, missing: Option<int>)
    ensures
        entry_of(bytes, tag) is Some ==> number_of(bytes, tag, missing) == number_in(
            bytes,
            entry_of(bytes, tag).unwrap(),
        ),
        entry_of(bytes, tag) is None ==> number_of(bytes, tag, missing) == missing,
{
}

/// Samples that stand together, as they do where the file does not say, are one
/// plane; those that stand apart are as many planes as a pixel has samples.
pub proof fn planes_are_counted(bytes: Seq<u8>)
    ensures
        ({
            let layout = number_of(bytes, 284, Some(1));
            &&& layout == Some(1int) ==> planes_of(bytes) == Some(1int)
            &&& layout == Some(2int) ==> planes_of(bytes) == number_of(bytes, 277, Some(1))
            &&& layout != Some(1int) && layout != Some(2int) ==> planes_of(bytes) is None
        }),
{
}

/// The pieces that it takes are enough, and one fewer would not be.
pub proof fn pieces_just_cover_the_whole(whole: int, part: int, n: int)
    requires
        whole > 0,
        part > 0,
    ensures
        n == pieces(whole, part) <==> n * part >= whole && (n - 1) * part < whole,
{
    let q = (whole - 1) / part;
    lemma_fundamental_div_mod(whole - 1, part);
    assert(part * q <= whole - 1 < part * q + part) by {
        assert(0 <= (whole - 1) % part < part) by {
            lemma_mod_bound(whole - 1, part);
        }
    }
    if n * part >= whole && (n - 1) * part < whole {
        assert(n == q + 1) by (nonlinear_arith)
            requires
                part > 0,
                part * q <= whole - 1,
                whole - 1 < part * q + part,
                n * part >= whole,
                (n - 1) * part < whole,
        ;
    }
    if n == q + 1 {
        assert(n * part == part * q + part) by (nonlinear_arith)
            requires
                n == q + 1,
        ;
        assert((n - 1) * part == part * q) by (nonlinear_arith)
            requires
                n == q + 1,
        ;
    }
}

/// Of a file that is not TIFF the bytes alone are counted.
pub proof fn other_files_count_by_their_length(bytes: Seq<u8>)
    requires
        !has_tiff_head(bytes),
    ensures
        counts_fit(bytes) <==> bytes.len() <= 0x7fff_ffff,
        can_decode(bytes) <==> bytes.len() <= 0x7fff_ffff && !has_jpeg_head(bytes),
{
}

/// The counts of a TIFF file in strips fit where the strips that cover its height,
/// over all planes, can be counted in 32 bits.
pub proof fn strips_are_counted(
    bytes: Seq<u8>,
    width: int,
    height: int,
    rows: int,
    planes: int,
    n: int,
)
    requires
        has_tiff_head(bytes),
        bytes.len() <= 0x7fff_ffff,
        has_directory(bytes),
        entry_of(bytes, 324) is None,
        number_of(bytes, 256, None) == Some(width),
        number_of(bytes, 257, None) == Some(height),
        number_of(bytes, 278, Some(height)) == Some(rows),
        planes_of(bytes) == Some(planes),
        width > 0,
        height > 0,
        rows > 0,
        planes != 0,
        n * rows >= height,
        (n - 1) * rows < height,
    ensures
        counts_fit(bytes) <==> n * planes < 0x1_0000_0000,
        can_decode(bytes) <==> counts_fit(bytes) && number_of(bytes, 259, None) != Some(7int),
{
    pieces_just_cover_the_whole(height, rows, n);
    assert(!has_jpeg_head(bytes));
}

/// The counts of a TIFF file in tiles fit where the tiles that cover it, over all
/// planes, can be counted in 32 bits. Of several planes the height must be a
/// number of whole tiles for the file to be decoded.
pub proof fn tiles_are_counted(
    bytes: Seq<u8>,
    width: int,
    height: int,
    tile_width: int,
    tile_length: int,
    planes: int,
    across: int,
    down: int,
)
    requires
        has_tiff_head(bytes),
        bytes.len() <= 0x7fff_ffff,
        has_directory(bytes),
        entry_of(bytes, 324) is Some,
        number_of(bytes, 256, None) == Some(width),
        number_of(bytes, 257, None) == Some(height),
        number_of(bytes, 322, None) == Some(tile_width),
        number_of(bytes, 323, None) == Some(tile_length),
        planes_of(bytes) == Some(planes),
        width > 0,
        height > 0,
        tile_width > 0,
        tile_length > 0,
        planes != 0,
        across * tile_width >= width,
        (across - 1) * tile_width < width,
        down * tile_length >= height,
        (down - 1) * tile_length < height,
    ensures
        counts_fit(bytes) <==> down * across * planes < 0x1_0000_0000,
        can_decode(bytes) <==> counts_fit(bytes) && number_of(bytes, 259, None) != Some(7int) && (
        planes <= 1 || height % tile_length == 0),
{
    pieces_just_cover_the_whole(width, tile_width, across);
    pieces_just_cover_the_whole(height, tile_length, down);
    assert(!has_jpeg_head(bytes));
}

/// A TIFF file whose counts fit has a directory, and a size and a division of its
/// pixels none of which is zero.
pub proof fn fitting_counts_are_of_something(bytes: Seq<u8>)
    requires
        has_tiff_head(bytes),
        counts_fit(bytes),
    ensures
        bytes.len() <= 0x7fff_ffff,
        has_directory(bytes),
        number_of(bytes, 256, None) is Some && number_of(bytes, 256, None).unwrap() != 0,
        number_of(bytes, 257, None) is Some && number_of(bytes, 257, None).unwrap() != 0,
        planes_of(bytes) is Some && planes_of(bytes).unwrap() != 0,
        entry_of(bytes, 324) is Some ==> {
            &&& number_of(bytes, 322, None) is Some && number_of(bytes, 322, None).unwrap() != 0
            &&& number_of(bytes, 323, None) is Some && number_of(bytes, 323, None).unwrap() != 0
        },
        entry_of(bytes, 324) is None ==> {
            let rows = number_of(bytes, 278, number_of(bytes, 257, None));
            rows is Some && rows.unwrap() != 0
        },
{
}

/// The view of an optional number is that number.
pub proof fn optional_numbers_are_viewed_as_they_are(n: u32)
    ensures
        number_view(Some(n)) == Some(n as int),
        number_view(None) is None,
{
}

} // verus!
