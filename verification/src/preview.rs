//! The preview beside the floating window: how large it is, where it opens,
//! and which window shows which todo.
use vstd::prelude::*;

use crate::errors::CommandError;
use crate::sections::lookup;
use crate::store::Store;
use crate::todo::{Todo, TodoView};
use crate::window::{clamp, clamped};

verus! {

/// The height of a preview, in logical pixels. Where it is not fixed, it is a
/// measure plus a margin, brought into a range.
#[derive(Debug, Clone, Copy, PartialEq, Eq, Structural)]
pub enum PreviewHeight {
    Fixed(u32),
    /// The measured height of the text.
    OfText { extra: u32, least: u32, most: u32 },
    /// The height of the image at the preview's width, `num / den`.
    OfImage { num: u64, den: u64, extra: u32, least: u32, most: u32 },
}

/// The height of an image's preview, brought into its range.
#[derive(Debug, Clone, Copy, PartialEq, Eq, Structural)]
pub enum ImageHeight {
    /// One end of the range.
    End(u32),
    /// Within the range: `num / den` and a margin, as they are.
    Within { num: u64, den: u64, extra: u32 },
}

/// `num / den` and `extra`, brought into the range from `least` to `most`. Both
/// sides are compared `den` times over, so nothing is rounded.
pub open spec fn image_height_of(
    num: u64,
    den: u64,
    extra: u32,
    least: u32,
    most: u32,
) -> ImageHeight {
    if num + extra * den < least * den {
        ImageHeight::End(least)
    } else if num + extra * den > most * den {
        ImageHeight::End(most)
    } else {
        ImageHeight::Within { num, den, extra }
    }
}

/// `num / den` and `extra`, brought into the range from `least` to `most`.
pub fn image_height(num: u64, den: u64, extra: u32, least: u32, most: u32) -> (r: ImageHeight)
    ensures
        r == image_height_of(num, den, extra, least, most),
{
    assert(extra * den <= 0xffff_ffff * 0xffff_ffff_ffff_ffff && least * den <= 0xffff_ffff
        * 0xffff_ffff_ffff_ffff && most * den <= 0xffff_ffff * 0xffff_ffff_ffff_ffff)
        by (nonlinear_arith)
        requires
            extra <= 0xffff_ffff,
            least <= 0xffff_ffff,
            most <= 0xffff_ffff,
            den <= 0xffff_ffff_ffff_ffff,
    ;
    let height: u128 = num as u128 + extra as u128 * den as u128;
    if height < least as u128 * den as u128 {
        ImageHeight::End(least)
    } else if height > most as u128 * den as u128 {
        ImageHeight::End(most)
    } else {
        ImageHeight::Within { num, den, extra }
    }
}

/// The size of a preview, in logical pixels.
#[derive(Debug, Clone, Copy, PartialEq, Eq, Structural)]
pub struct PreviewSize {
    pub width: u32,
    pub height: PreviewHeight,
}

/// The size of a preview that shows `t`: an image keeps its proportions, text
/// is as high as it was measured to be, and anything else gets the usual size.
pub open spec fn preview_size_of(t: TodoView, measured: bool) -> PreviewSize {
    match t.attachment {
        Some(a) => match (a.width, a.height) {
            (Some(w), Some(h)) => if w > 0 && h > 0 {
                let width = clamped(w as int, 240, 640);
                PreviewSize {
                    width: width as u32,
                    height: PreviewHeight::OfImage {
                        num: (width * h) as u64,
                        den: w as u64,
                        extra: 178,
                        least: 200,
                        most: 720,
                    },
                }
            } else {
                PreviewSize { width: 460, height: PreviewHeight::Fixed(340) }
            },
            _ => PreviewSize { width: 460, height: PreviewHeight::Fixed(340) },
        },
        None => if measured {
            PreviewSize {
                width: 460,
                height: PreviewHeight::OfText { extra: 74, least: 130, most: 720 },
            }
        } else {
            PreviewSize { width: 460, height: PreviewHeight::Fixed(340) }
        },
    }
}

/// The size of a preview; `measured` says whether the front end measured the
/// text.
pub fn preview_logical_size(todo: &Todo, measured: bool) -> (r: PreviewSize)
    ensures
        r == preview_size_of(todo@, measured),
{
    match &todo.attachment {
        Some(a) => match (a.width, a.height) {
            (Some(w), Some(h)) => {
                if w > 0 && h > 0 {
                    let width: u32 = if w < 240 {
                        240
                    } else if w > 640 {
                        640
                    } else {
                        w
                    };
                    assert(width * h <= 640 * 0xffff_ffff) by (nonlinear_arith)
                        requires
                            width <= 640,
                            h <= 0xffff_ffff,
                    ;
                    PreviewSize {
                        width,
                        height: PreviewHeight::OfImage {
                            num: width as u64 * h as u64,
                            den: w as u64,
                            extra: 178,
                            least: 200,
                            most: 720,
                        },
                    }
                } else {
                    PreviewSize { width: 460, height: PreviewHeight::Fixed(340) }
                }
            },
            _ => PreviewSize { width: 460, height: PreviewHeight::Fixed(340) },
        },
        None => {
            if measured {
                PreviewSize {
                    width: 460,
                    height: PreviewHeight::OfText { extra: 74, least: 130, most: 720 },
                }
            } else {
                PreviewSize { width: 460, height: PreviewHeight::Fixed(340) }
            }
        },
    }
}

/// A preview is 240 to 640 pixels wide. That of an image shows it in its own
/// proportions: the width is to the image's height as its own width is to the
/// image's width.
pub proof fn preview_keeps_proportions(t: TodoView, measured: bool)
    ensures
        240 <= preview_size_of(t, measured).width <= 640,
        match preview_size_of(t, measured).height {
            PreviewHeight::OfImage { num, den, extra: _, least: _, most: _ } => {
                let a = t.attachment.unwrap();
                &&& den == a.width.unwrap()
                &&& num == preview_size_of(t, measured).width * a.height.unwrap()
            },
            _ => true,
        },
{
    if t.attachment is Some && t.attachment.unwrap().width is Some
        && t.attachment.unwrap().height is Some {
        let w = t.attachment.unwrap().width.unwrap();
        let h = t.attachment.unwrap().height.unwrap();
        let width = clamped(w as int, 240, 640);
        assert(0 <= width * h <= 640 * 0xffff_ffff) by (nonlinear_arith)
            requires
                0 <= width <= 640,
                0 <= h <= 0xffff_ffff,
        ;
    }
}

/// The preview of an image is 200 to 720 pixels high: `num / den` and the margin
/// are that where they are within the range, and else one of its ends is taken.
pub proof fn image_previews_stay_in_range(t: TodoView, measured: bool)
    ensures
        match preview_size_of(t, measured).height {
            PreviewHeight::OfImage { num, den, extra, least, most } => match image_height_of(
                num,
                den,
                extra,
                least,
                most,
            ) {
                ImageHeight::End(h) => h == 200 || h == 720,
                ImageHeight::Within { num, den, extra } => den > 0 && 200 * den <= num + extra * den
                    <= 720 * den,
            },
            _ => true,
        },
{
}

/// The gap between the floating window and its preview, in pixels.
pub const GAP: i32 = 12;

/// Where a preview opens, in physical pixels: `fx` and `fw` are the floating
/// window's, `pw` and `ph` the preview's, the rest is the work area and the
/// height at which the card stands.
#[derive(Debug, Clone, Copy, PartialEq, Eq, Structural)]
pub struct Placement {
    pub fx: i32,
    pub fw: i32,
    pub pw: i32,
    pub ph: i32,
    pub mx: i32,
    pub my: i32,
    pub mw: i32,
    pub mh: i32,
    pub anchor: i32,
}

/// The left edge of a preview on the left side.
pub open spec fn left_side(p: Placement) -> int {
    p.fx - p.pw - GAP
}

/// The left edge of a preview on the right side.
pub open spec fn right_side(p: Placement) -> int {
    p.fx + p.fw + GAP
}

/// The larger of two numbers.
pub open spec fn larger(a: int, b: int) -> int {
    if a > b {
        a
    } else {
        b
    }
}

/// Where the preview opens: at the card's height, on the left where there is
/// room, else on the right where there is room, else on the right as far as
/// the work area goes.
pub open spec fn position_of(p: Placement) -> (int, int) {
    let y = clamped(p.anchor as int, p.my as int, larger(p.my + p.mh - p.ph, p.my as int));
    let x = if left_side(p) >= p.mx {
        left_side(p)
    } else if right_side(p) + p.pw <= p.mx + p.mw {
        right_side(p)
    } else {
        clamped(right_side(p), p.mx as int, larger(p.mx + p.mw - p.pw, p.mx as int))
    };
    (x, y)
}

/// Whether `n` is a number of the window system.
pub open spec fn fits(n: int) -> bool {
    i32::MIN <= n <= i32::MAX
}

/// Whether placing the preview stays within the numbers of the window system.
pub open spec fn can_place_preview(p: Placement) -> bool {
    &&& fits(p.my + p.mh)
    &&& fits(p.my + p.mh - p.ph)
    &&& fits(p.fx - p.pw)
    &&& fits(left_side(p))
    &&& left_side(p) < p.mx ==> {
        &&& fits(p.fx + p.fw)
        &&& fits(right_side(p))
        &&& fits(right_side(p) + p.pw)
        &&& fits(p.mx + p.mw)
        &&& right_side(p) + p.pw > p.mx + p.mw ==> fits(p.mx + p.mw - p.pw)
    }
}

/// Where the preview opens.
pub fn preview_position(p: Placement) -> (r: (i32, i32))
    requires
        can_place_preview(p),
    ensures
        (r.0 as int, r.1 as int) == position_of(p),
{
    let low: i32 = p.my + p.mh - p.ph;
    let y: i32 = clamp(
        p.anchor,
        p.my,
        if low > p.my {
            low
        } else {
            p.my
        },
    );
    let left: i32 = p.fx - p.pw - GAP;
    if left >= p.mx {
        return (left, y);
    }
    let right: i32 = p.fx + p.fw + GAP;
    if right + p.pw <= p.mx + p.mw {
        return (right, y);
    }
    let far: i32 = p.mx + p.mw - p.pw;
    (
        clamp(
            right,
            p.mx,
            if far > p.mx {
                far
            } else {
                p.mx
            },
        ),
        y,
    )
}

/// A preview that is no larger than the work area opens inside it, top to
/// bottom; and left to right too, unless it stands beside a floating window
/// that is outside itself. It covers the floating window only where neither
/// side has room.
pub proof fn preview_stays_in_view(p: Placement)
    requires
        0 <= p.pw <= p.mw,
        0 <= p.ph <= p.mh,
        p.fw >= 0,
    ensures
        p.my <= position_of(p).1,
        position_of(p).1 + p.ph <= p.my + p.mh,
        p.mx <= p.fx && p.fx + p.fw <= p.mx + p.mw ==> p.mx <= position_of(p).0 && position_of(
            p,
        ).0 + p.pw <= p.mx + p.mw,
        position_of(p).0 + p.pw + GAP <= p.fx || position_of(p).0 >= p.fx + p.fw + GAP || (
        left_side(p) < p.mx && right_side(p) + p.pw > p.mx + p.mw),
{
}

/// The label of the window that a todo is pinned in.
pub open spec fn pin_label_of(id: Seq<char>) -> Seq<char> {
    "preview-pin-"@ + id
}

/// The label of the window that a todo is pinned in.
pub fn pin_label(id: &str) -> (r: String)
    ensures
        r@ == pin_label_of(id@),
{
    let mut r = "preview-pin-".to_owned();
    r.append(id);
    r
}

/// Two todos are never pinned in the same window, and no pinned window is the
/// hover preview.
pub proof fn pin_labels_are_distinct(a: Seq<char>, b: Seq<char>)
    ensures
        pin_label_of(a) == pin_label_of(b) ==> a == b,
        pin_label_of(a) != "preview"@,
{
    reveal_strlit("preview-pin-");
    reveal_strlit("preview");
    let n = "preview-pin-"@.len() as int;
    assert(pin_label_of(a).len() >= 12);
    if pin_label_of(a) == pin_label_of(b) {
        assert(pin_label_of(a).skip(n) == a);
        assert(pin_label_of(b).skip(n) == b);
    }
}

/// The page that shows a todo.
pub fn preview_url(id: &str, pinned: bool) -> (r: String)
    ensures
        r@ == if pinned {
            "preview.html?id="@ + id@ + "&pinned=1"@
        } else {
            "preview.html?id="@ + id@
        },
{
    let mut r = "preview.html?id=".to_owned();
    r.append(id);
    if pinned {
        r.append("&pinned=1");
    }
    r
}

/// Which todo a preview is to show. A todo that is pinned in a window of its
/// own gets no second one.
pub fn open_preview_window(store: &Store, id: &str, is_pinned: bool) -> (r: Result<
    Option<Todo>,
    CommandError,
>)
    ensures
        if is_pinned {
            r == Ok::<Option<Todo>, CommandError>(None)
        } else {
            match lookup(store@.data.todos, id@) {
                Some(t) => r is Ok && r.unwrap() is Some && r.unwrap().unwrap()@ == t,
                None => r is Err && r->Err_0 is NotFound,
            }
        },
{
    if is_pinned {
        return Ok(None);
    }
    match store.find(id) {
        Some(t) => Ok(Some(t)),
        None => Err(CommandError::NotFound),
    }
}

/// How a preview comes to be seen.
#[derive(Debug, Clone, Copy, PartialEq, Eq, Structural)]
pub enum Presentation {
    /// There is a preview window: move it, show it with or without taking the
    /// focus, and hand it the todo. `refresh` asks the floating window to
    /// redraw what is behind it.
    Reuse { focus: bool, refresh: bool },
    /// There is none: create one, focused or not, and redraw.
    Create { focus: bool },
}

/// How a preview comes to be seen. The redraw flickers, so it is asked for only
/// when a window comes on screen.
pub fn present_preview(is_open: bool, was_visible: bool, pinned: bool) -> (r: Presentation)
    ensures
        r == if is_open {
            Presentation::Reuse { focus: pinned, refresh: !was_visible }
        } else {
            Presentation::Create { focus: pinned }
        },
{
    if is_open {
        Presentation::Reuse { focus: pinned, refresh: !was_visible }
    } else {
        Presentation::Create { focus: pinned }
    }
}

/// Whether to close the preview: not while it is being edited, unless forced.
pub fn close_preview_window(is_open: bool, focused: bool, force: Option<bool>) -> (r: bool)
    ensures
        r == (is_open && (force == Some(true) || !focused)),
{
    let forced = match force {
        Some(f) => f,
        None => false,
    };
    is_open && (forced || !focused)
}

/// What pinning a preview comes to.
#[derive(Debug, Clone, Copy, PartialEq, Eq, Structural)]
pub enum PinPlan {
    /// The todo has a pinned window: bring that one up.
    FocusPinned,
    /// Create one where the preview is.
    AtPreview,
    /// Create one beside the floating window.
    BesideFloating,
}

/// What pinning a preview comes to. The hover preview is closed in any case.
pub fn pin_preview(has_pinned: bool, has_preview: bool) -> (r: PinPlan)
    ensures
        r == if has_pinned {
            PinPlan::FocusPinned
        } else if has_preview {
            PinPlan::AtPreview
        } else {
            PinPlan::BesideFloating
        },
{
    if has_pinned {
        PinPlan::FocusPinned
    } else if has_preview {
        PinPlan::AtPreview
    } else {
        PinPlan::BesideFloating
    }
}

/// The todo that a preview window is to show as soon as it can: a window that
/// is still loading misses the message.
#[derive(Debug)]
pub struct PendingPreview {
    pub todo: Option<String>,
}

impl PendingPreview {
    /// Nothing is to be shown.
    pub fn new() -> (r: PendingPreview)
        ensures
            r.todo is None,
    {
        PendingPreview { todo: None }
    }

    /// Notes what is to be shown, in place of anything noted before.
    pub fn put(&mut self, id: &str)
        ensures
            final(self).todo is Some,
            final(self).todo.unwrap()@ == id@,
    {
        self.todo = Some(id.to_owned());
    }

    /// Hands out what is to be shown, once.
    pub fn take_pending_preview_todo(&mut self) -> (r: Option<String>)
        ensures
            r == old(self).todo,
            final(self).todo is None,
    {
        self.todo.take()
    }
}

/// The preview of an image is as wide as the image, but no less than 240 and no
/// more than 640 pixels; its height is what the image's proportions make of that,
/// with 178 pixels for the rest, in a range from 200 to 720.
pub proof fn image_previews_are_as_wide_as_the_image(
    t: TodoView,
    measured: bool,
    w: u32,
    h: u32,
)
    requires
        t.attachment is Some,
        t.attachment.unwrap().width == Some(w),
        t.attachment.unwrap().height == Some(h),
        w > 0,
        h > 0,
    ensures
        ({
            let size = preview_size_of(t, measured);
            &&& w <= 240 ==> size.width == 240
            &&& 240 <= w <= 640 ==> size.width == w
            &&& w >= 640 ==> size.width == 640
            &&& size.height is OfImage
            &&& size.height->OfImage_num == size.width * h
            &&& size.height->OfImage_den == w
            &&& size.height->OfImage_extra == 178
            &&& size.height->OfImage_least == 200
            &&& size.height->OfImage_most == 720
        }),
{
    let width = clamped(w as int, 240, 640);
    assert(0 <= width * h <= 640 * 0xffff_ffff) by (nonlinear_arith)
        requires
            0 <= width <= 640,
            0 <= h <= 0xffff_ffff,
    ;
}

/// Text that was measured is shown at that height and 74 pixels more, in a range
/// from 130 to 720. Text that was not, and an image of unknown or no size, get
/// 340 pixels. All of them are 460 wide.
pub proof fn other_previews_have_the_usual_width(t: TodoView, measured: bool)
    requires
        t.attachment is None || t.attachment.unwrap().width is None
            || t.attachment.unwrap().height is None || t.attachment.unwrap().width == Some(0u32)
            || t.attachment.unwrap().height == Some(0u32),
    ensures
        preview_size_of(t, measured).width == 460,
        t.attachment is None && measured ==> preview_size_of(t, measured).height
            == (PreviewHeight::OfText { extra: 74, least: 130, most: 720 }),
        t.attachment is Some || !measured ==> preview_size_of(t, measured).height
            == PreviewHeight::Fixed(340),
{
}

/// An image's height is left as it is where the height and the margin, counted in
/// parts of `den`, are within the range, both ends included; what is less comes to
/// the lower end, and what is more to the upper one.
pub proof fn image_heights_change_only_outside_the_range(
    num: u64,
    den: u64,
    extra: u32,
    least: u32,
    most: u32,
)
    ensures
        ({
            let r = image_height_of(num, den, extra, least, most);
            &&& r is Within <==> least * den <= num + extra * den <= most * den
            &&& r is Within ==> r->num == num && r->den == den && r->extra == extra
            &&& num + extra * den < least * den ==> r == ImageHeight::End(least)
            &&& num + extra * den >= least * den && num + extra * den > most * den ==> r
                == ImageHeight::End(most)
        }),
{
}

/// The preview opens 12 pixels left of the floating window where the work area
/// has that much room; else 12 pixels right of it where it has; and else at the
/// right end of the work area, or at the left end where it is wider than that.
pub proof fn previews_open_on_the_left_first(p: Placement)
    ensures
        ({
            let x = position_of(p).0;
            let left = p.fx - 12 - p.pw;
            let right = p.fx + p.fw + 12;
            let end = p.mx + p.mw;
            &&& p.mx <= left ==> x == left
            &&& p.mx > left && right + p.pw <= end ==> x == right
            &&& p.mx > left && right + p.pw > end && p.pw <= p.mw ==> x == end - p.pw
            &&& p.mx > left && right + p.pw > end && p.pw > p.mw ==> x == p.mx
        }),
{
}

/// The preview opens at the card's height, but not above the work area, nor lower
/// than where it ends with the work area, as far as it is not taller than that.
pub proof fn previews_open_at_the_card(p: Placement)
    ensures
        ({
            let y = position_of(p).1;
            let lowest = p.my + p.mh - p.ph;
            &&& p.ph > p.mh ==> y == p.my
            &&& p.ph <= p.mh && p.anchor < p.my ==> y == p.my
            &&& p.ph <= p.mh && p.anchor > lowest ==> y == lowest
            &&& p.my <= p.anchor <= lowest ==> y == p.anchor
        }),
{
}

/// Where every number is far from the largest that the window system has, a
/// preview can be placed, whatever the numbers.
pub proof fn ordinary_previews_can_be_placed(p: Placement)
    requires
        -100_000_000 <= p.fx <= 100_000_000,
        -100_000_000 <= p.fw <= 100_000_000,
        -100_000_000 <= p.pw <= 100_000_000,
        -100_000_000 <= p.ph <= 100_000_000,
        -100_000_000 <= p.mx <= 100_000_000,
        -100_000_000 <= p.my <= 100_000_000,
        -100_000_000 <= p.mw <= 100_000_000,
        -100_000_000 <= p.mh <= 100_000_000,
    ensures
        can_place_preview(p),
{
}

/// A preview cannot be placed only where an edge that is asked for lies beyond
/// the numbers of the window system; those of the right side are asked for only
/// where there is no room on the left.
pub proof fn refused_previews_overflow(p: Placement)
    requires
        !can_place_preview(p),
    ensures
        ({
            let lowest = p.my + p.mh - p.ph;
            let left = p.fx - p.pw - 12;
            let right = p.fx + p.fw + 12;
            let small = -0x8000_0000int;
            let large = 0x7fff_ffffint;
            ||| p.my + p.mh < small
            ||| p.my + p.mh > large
            ||| lowest < small
            ||| lowest > large
            ||| left < small
            ||| left + 12 > large
            ||| left < p.mx && (p.fx + p.fw < small || right > large || right + p.pw < small || right
                + p.pw > large || p.mx + p.mw < small || p.mx + p.mw > large)
            ||| left < p.mx && right + p.pw > p.mx + p.mw && (p.mx + p.mw - p.pw < small || p.mx
                + p.mw - p.pw > large)
        }),
{
}

/// The label of a pinned window is the todo's id behind a fixed word.
pub proof fn pin_labels_hold_the_id(id: Seq<char>)
    ensures
        pin_label_of(id).len() == 12 + id.len(),
        pin_label_of(id).take(12) == "preview-pin-"@,
        pin_label_of(id).skip(12) == id,
{
    reveal_strlit("preview-pin-");
    assert("preview-pin-"@.len() == 12);
    assert(pin_label_of(id).take(12) =~= "preview-pin-"@);
    assert(pin_label_of(id).skip(12) =~= id);
}

} // verus!
