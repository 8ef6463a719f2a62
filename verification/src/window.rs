//! Where the floating window stands and how large it is, and what its events
//! lead to.
use vstd::prelude::*;

use crate::errors::CommandError;
use crate::quick_add::{lower_actions, QuickAdd, WindowAction};
use crate::store::{effective_pin_mode, newer, next_generation, Store};
use crate::todo::{StoreDataView, WindowGeom};

verus! {

/// A display: its corner and its size, in physical pixels.
#[derive(Debug, Clone, Copy, PartialEq, Eq, Structural)]
pub struct Monitor {
    pub x: i32,
    pub y: i32,
    pub width: u32,
    pub height: u32,
}

/// The display that is assumed where none is known.
pub open spec fn assumed_monitor() -> Monitor {
    Monitor { x: 0, y: 0, width: 1920, height: 1080 }
}

/// A display, the assumed one where none is known.
pub fn monitor_or_default(monitor: Option<Monitor>) -> (r: Monitor)
    ensures
        r == match monitor {
            Some(m) => m,
            None => assumed_monitor(),
        },
{
    match monitor {
        Some(m) => m,
        None => Monitor { x: 0, y: 0, width: 1920, height: 1080 },
    }
}

/// The display that the window goes back to: the primary one, else the first.
pub fn home_monitor(primary: Option<Monitor>, first: Option<Monitor>) -> (r: Result<
    Monitor,
    CommandError,
>)
    ensures
        match newer(primary, first) {
            Some(m) => r == Ok::<Monitor, CommandError>(m),
            None => r is Err && r->Err_0 is NoPrimaryMonitor,
        },
{
    match primary {
        Some(m) => Ok(m),
        None => match first {
            Some(m) => Ok(m),
            None => Err(CommandError::NoPrimaryMonitor),
        },
    }
}

/// The display under the window: the one it is on, else the primary one.
pub fn monitor_under(current: Option<Monitor>, primary: Option<Monitor>) -> (r: Result<
    Monitor,
    CommandError,
>)
    ensures
        match newer(current, primary) {
            Some(m) => r == Ok::<Monitor, CommandError>(m),
            None => r is Err && r->Err_0 is NoMonitor,
        },
{
    match current {
        Some(m) => Ok(m),
        None => match primary {
            Some(m) => Ok(m),
            None => Err(CommandError::NoMonitor),
        },
    }
}

/// The size that was saved, where both extents are known and not zero.
pub open spec fn saved_size_of(geom: WindowGeom) -> Option<(u32, u32)> {
    match (geom.width, geom.height) {
        (Some(w), Some(h)) => if w > 0 && h > 0 {
            Some((w, h))
        } else {
            None
        },
        _ => None,
    }
}

/// The size that was saved, if it is of use.
pub fn saved_size(geom: &WindowGeom) -> (r: Option<(u32, u32)>)
    ensures
        r == saved_size_of(*geom),
{
    match (geom.width, geom.height) {
        (Some(w), Some(h)) => {
            if w > 0 && h > 0 {
                Some((w, h))
            } else {
                None
            }
        },
        _ => None,
    }
}

/// Half of a number, rounded towards zero.
pub open spec fn half(n: int) -> int {
    if n >= 0 {
        n / 2
    } else {
        -((-n) / 2)
    }
}

/// Where an extent starts that is centered in another one.
pub open spec fn centered(start: i32, outer: u32, inner: u32) -> int {
    start + half((outer as i32) - (inner as i32))
}

/// Whether centering stays within the numbers of the window system.
pub open spec fn can_center(start: i32, outer: u32, inner: u32) -> bool {
    &&& i32::MIN <= (outer as i32) - (inner as i32) <= i32::MAX
    &&& i32::MIN <= centered(start, outer, inner) <= i32::MAX
}

/// Where an extent starts that is centered in another one.
fn center(start: i32, outer: u32, inner: u32) -> (r: i32)
    requires
        can_center(start, outer, inner),
    ensures
        r == centered(start, outer, inner),
{
    let d: i64 = (outer as i32) as i64 - (inner as i32) as i64;
    let h: i64 = if d >= 0 {
        d / 2
    } else {
        -((-d) / 2)
    };
    (start as i64 + h) as i32
}

/// What a reset of the window comes to.
#[derive(Debug, Clone, Copy, PartialEq, Eq, Structural)]
pub struct ResetPlan {
    pub x: i32,
    pub y: i32,
    pub width: u32,
    pub height: u32,
    /// Whether the window is moved now; a hidden one is only recorded, since
    /// moving it would bring it up.
    pub move_now: bool,
}

/// Where the window goes when it is put back in the middle of a display. Its
/// size is the saved one, else the one that it has. Once it is there,
/// [`finish_reset`] records that; where it could not be moved, nothing changes.
pub fn reset_floating_window(
    saved: &WindowGeom,
    monitor: Monitor,
    outer: (u32, u32),
    visible: bool,
) -> (r: ResetPlan)
    requires
        ({
            let size = match saved_size_of(*saved) {
                Some(s) => s,
                None => outer,
            };
            can_center(monitor.x, monitor.width, size.0) && can_center(
                monitor.y,
                monitor.height,
                size.1,
            )
        }),
    ensures
        (r.width, r.height) == match saved_size_of(*saved) {
            Some(s) => s,
            None => outer,
        },
        r.x == centered(monitor.x, monitor.width, r.width),
        r.y == centered(monitor.y, monitor.height, r.height),
        r.move_now == visible,
{
    let (width, height): (u32, u32) = match saved_size(saved) {
        Some(s) => s,
        None => outer,
    };
    let x: i32 = center(monitor.x, monitor.width, width);
    let y: i32 = center(monitor.y, monitor.height, height);
    ResetPlan { x, y, width, height, move_now: visible }
}

/// Ends a reset: records the window's new place and its size.
pub fn finish_reset(store: &mut Store, plan: ResetPlan)
    ensures
        final(store)@.data == (StoreDataView {
            window_geom: WindowGeom {
                x: Some(plan.x),
                y: Some(plan.y),
                width: Some(plan.width),
                height: Some(plan.height),
            },
            ..old(store)@.data
        }),
        final(store)@.data_path == old(store)@.data_path,
        final(store)@.generation == next_generation(next_generation(old(store)@.generation)),
{
    store.update_window_pos(Some(plan.x), Some(plan.y));
    store.update_window_size(Some(plan.width), Some(plan.height));
}

/// A centered extent has as much room before as behind it, to the pixel; and it
/// stays inside the outer one where it fits.
pub proof fn centered_is_central(start: i32, outer: u32, inner: u32)
    requires
        outer <= i32::MAX,
        inner <= i32::MAX,
    ensures
        ({
            let before = centered(start, outer, inner) - start;
            let behind = (start + outer) - (centered(start, outer, inner) + inner);
            &&& -1 <= behind - before <= 1
            &&& inner <= outer ==> before >= 0 && behind >= 0
        }),
{
    assert(outer as i32 == outer);
    assert(inner as i32 == inner);
}

/// The room that is left below the window, in pixels.
pub const BOTTOM_MARGIN: i32 = 12;

/// The least height of the window, in pixels.
pub const MIN_HEIGHT: u32 = 160;

/// The largest height that a window may have whose top is at `top`.
pub open spec fn height_limit(monitor: Monitor, top: i32) -> int {
    let room = monitor.y + (monitor.height as i32) - BOTTOM_MARGIN - top;
    let capped = if room < (monitor.height as i32) {
        room
    } else {
        (monitor.height as i32) as int
    };
    if capped > MIN_HEIGHT {
        capped
    } else {
        MIN_HEIGHT as int
    }
}

/// Whether the room below a window stays within the numbers of the window
/// system.
pub open spec fn can_measure(monitor: Monitor, top: i32) -> bool {
    &&& i32::MIN <= monitor.y + (monitor.height as i32) <= i32::MAX
    &&& i32::MIN <= monitor.y + (monitor.height as i32) - BOTTOM_MARGIN
    &&& i32::MIN <= monitor.y + (monitor.height as i32) - BOTTOM_MARGIN - top <= i32::MAX
}

/// What a change of the window's height comes to.
#[derive(Debug, Clone, Copy, PartialEq, Eq, Structural)]
pub struct ResizePlan {
    pub height: u32,
    /// Whether the window has come to, or left, the bottom of the display; the
    /// front end is told only then.
    pub bottomed: Option<bool>,
}

/// The height that a window gets: what its content asks for, but not beyond the
/// bottom of the display. The top stays where it is.
pub fn resize_floating_window(
    monitor: Monitor,
    top: i32,
    current_height: u32,
    wanted_height: u32,
) -> (r: ResizePlan)
    requires
        can_measure(monitor, top),
    ensures
        r.height == if wanted_height <= height_limit(monitor, top) {
            wanted_height as int
        } else {
            height_limit(monitor, top)
        },
        r.bottomed == if (current_height >= height_limit(monitor, top)) != (r.height
            >= height_limit(monitor, top)) {
            Some(r.height >= height_limit(monitor, top))
        } else {
            None
        },
{
    let h: i32 = monitor.height as i32;
    let room: i32 = monitor.y + h - BOTTOM_MARGIN - top;
    let capped: i32 = if room < h {
        room
    } else {
        h
    };
    let limit: u32 = if capped > 160 {
        capped as u32
    } else {
        MIN_HEIGHT
    };
    let height: u32 = if wanted_height < limit {
        wanted_height
    } else {
        limit
    };
    let was = current_height >= limit;
    let is_now = height >= limit;
    ResizePlan {
        height,
        bottomed: if was != is_now {
            Some(is_now)
        } else {
            None
        },
    }
}

/// However much is asked for, the window ends above the bottom of the display,
/// or is no higher than its least height.
pub proof fn resized_window_stays_on_screen(monitor: Monitor, top: i32, wanted: u32)
    requires
        monitor.height <= i32::MAX,
    ensures
        ({
            let limit = height_limit(monitor, top);
            let height = if wanted <= limit {
                wanted as int
            } else {
                limit
            };
            top + height <= monitor.y + monitor.height - BOTTOM_MARGIN || height <= MIN_HEIGHT
        }),
{
    assert(monitor.height as i32 == monitor.height);
}

/// `v` brought into the range from `lo` to `hi`.
pub open spec fn clamped(v: int, lo: int, hi: int) -> int {
    if v < lo {
        lo
    } else if v > hi {
        hi
    } else {
        v
    }
}

/// `v` brought into the range from `lo` to `hi`.
pub fn clamp(v: i32, lo: i32, hi: i32) -> (r: i32)
    requires
        lo <= hi,
    ensures
        r == clamped(v as int, lo as int, hi as int),
{
    if v < lo {
        lo
    } else if v > hi {
        hi
    } else {
        v
    }
}

/// The difference, but not below the smallest number.
pub open spec fn floored(a: i32, b: int) -> int {
    if a - b < i32::MIN {
        i32::MIN as int
    } else {
        a - b
    }
}

/// The difference, but not below the smallest number.
fn floor(a: i32, b: i32) -> (r: i32)
    requires
        b >= 0,
    ensures
        r == floored(a, b as int),
{
    if a < i32::MIN + b {
        i32::MIN
    } else {
        a - b
    }
}

/// Where the window stands and how large it is at start-up.
#[derive(Debug, Clone, Copy, PartialEq, Eq)]
pub struct StartGeometry {
    pub position: Option<(i32, i32)>,
    pub size: Option<(u32, u32)>,
}

/// Whether the far edges of a display stay within the numbers of the window
/// system, and the range of positions on it is not empty.
pub open spec fn can_place(m: Monitor) -> bool {
    &&& m.x + (m.width as i32) <= i32::MAX
    &&& m.y + (m.height as i32) <= i32::MAX
    &&& floored(m.x, 50) <= m.x + (m.width as i32) - 50
    &&& floored(m.y, 10) <= m.y + (m.height as i32) - 10
}

/// Where the window was saved, brought back onto the display: a display that it
/// was on may be gone. The size is taken as it was saved.
pub fn restore_geometry(geom: &WindowGeom, monitor: Monitor) -> (r: StartGeometry)
    requires
        geom.x is Some && geom.y is Some ==> can_place(monitor),
    ensures
        r.size == saved_size_of(*geom),
        match (geom.x, geom.y) {
            (Some(x), Some(y)) => r.position is Some && r.position.unwrap().0 == clamped(
                x as int,
                floored(monitor.x, 50),
                monitor.x + (monitor.width as i32) - 50,
            ) && r.position.unwrap().1 == clamped(
                y as int,
                floored(monitor.y, 10),
                monitor.y + (monitor.height as i32) - 10,
            ),
            _ => r.position is None,
        },
{
    let position: Option<(i32, i32)> = match (geom.x, geom.y) {
        (Some(x), Some(y)) => Some(
            (
                clamp(
                    x,
                    floor(monitor.x, 50),
                    monitor.x + (monitor.width as i32) - 50,
                ),
                clamp(
                    y,
                    floor(monitor.y, 10),
                    monitor.y + (monitor.height as i32) - 10,
                ),
            ),
        ),
        _ => None,
    };
    StartGeometry { position, size: saved_size(geom) }
}

/// Wherever it was saved, the window comes back with its corner on the display
/// or just left of or above it, so that it can be reached.
pub proof fn restored_window_is_reachable(m: Monitor, x: i32, y: i32)
    requires
        can_place(m),
        m.width <= i32::MAX,
        m.height <= i32::MAX,
    ensures
        ({
            let cx = clamped(x as int, floored(m.x, 50), m.x + (m.width as i32) - 50);
            let cy = clamped(y as int, floored(m.y, 10), m.y + (m.height as i32) - 10);
            &&& m.x - 50 <= cx <= m.x + m.width - 50
            &&& m.y - 10 <= cy <= m.y + m.height - 10
        }),
{
    assert(m.width as i32 == m.width);
    assert(m.height as i32 == m.height);
}

/// What the window system says of the floating window.
#[derive(Debug, Clone, Copy, PartialEq, Eq, Structural)]
pub enum WindowEvent {
    Moved(i32, i32),
    Resized(u32, u32),
    CloseRequested,
    FocusLost,
}

/// What an event of the floating window leads to.
#[derive(Debug)]
pub struct EventOutcome {
    /// Keep the window from being closed.
    pub prevent_close: bool,
    /// Let the geometry be saved once the window is still.
    pub geometry_changed: bool,
    pub actions: Vec<WindowAction>,
}

/// The actions of closing the window: it is hidden instead, and its preview
/// goes with it.
pub open spec fn close_actions(has_preview: bool) -> Seq<WindowAction> {
    if has_preview {
        seq![WindowAction::Hide, WindowAction::ClosePreview]
    } else {
        seq![WindowAction::Hide]
    }
}

/// Takes in an event of the floating window. Moves and resizes are recorded at
/// once and saved later; a size of zero is no size. Losing the focus ends a
/// quick note. Closing only hides.
pub fn on_window_event(
    store: &mut Store,
    quick: &mut QuickAdd,
    event: WindowEvent,
    has_preview: bool,
) -> (r: EventOutcome)
    ensures
        match event {
            WindowEvent::Moved(x, y) => !r.prevent_close && r.geometry_changed && r.actions@.len()
                == 0 && *final(quick) == *old(quick) && final(store)@ == old(store)@.with_data(
                StoreDataView {
                    window_geom: WindowGeom {
                        x: Some(x),
                        y: Some(y),
                        ..old(store)@.data.window_geom
                    },
                    ..old(store)@.data
                },
            ),
            WindowEvent::Resized(w, h) => !r.prevent_close && r.actions@.len() == 0
                && *final(quick) == *old(quick) && r.geometry_changed == (w > 0 && h > 0)
                && final(store)@ == if w > 0 && h > 0 {
                old(store)@.with_data(
                    StoreDataView {
                        window_geom: WindowGeom {
                            width: Some(w),
                            height: Some(h),
                            ..old(store)@.data.window_geom
                        },
                        ..old(store)@.data
                    },
                )
            } else {
                old(store)@
            },
            WindowEvent::CloseRequested => r.prevent_close && !r.geometry_changed && r.actions@
                == close_actions(has_preview) && *final(quick) == *old(quick) && final(store)@
                == old(store)@,
            WindowEvent::FocusLost => !r.prevent_close && !r.geometry_changed && r.actions@
                == lower_actions(
                old(quick).active,
                effective_pin_mode(old(store)@.data.pin_mode),
            ) && !final(quick).active && final(store)@ == old(store)@,
        },
{
    let mut r = EventOutcome {
        prevent_close: false,
        geometry_changed: false,
        actions: Vec::new(),
    };
    match event {
        WindowEvent::Moved(x, y) => {
            store.update_window_pos(Some(x), Some(y));
            r.geometry_changed = true;
        },
        WindowEvent::Resized(w, h) => {
            if w > 0 && h > 0 {
                store.update_window_size(Some(w), Some(h));
                r.geometry_changed = true;
            }
        },
        WindowEvent::CloseRequested => {
            r.prevent_close = true;
            r.actions.push(WindowAction::Hide);
            if has_preview {
                r.actions.push(WindowAction::ClosePreview);
            }
        },
        WindowEvent::FocusLost => {
            r.actions = quick.blur_dismiss_floating_window(store.pin_mode());
        },
    }
    r
}

/// A window gets the height that its content asks for exactly where that is no
/// more than the least height, or the window then ends above the margin at the
/// bottom of its display and is no higher than the display: the limit is reached,
/// not only kept.
pub proof fn wanted_heights_are_granted_where_there_is_room(monitor: Monitor, top: i32, wanted: u32)
    ensures
        wanted <= height_limit(monitor, top) <==> wanted <= 160 || (top + wanted <= monitor.y + (
        monitor.height as i32) - 12 && wanted <= monitor.height as i32),
        monitor.height <= i32::MAX ==> (wanted <= height_limit(monitor, top) <==> wanted <= 160 || (
        top + wanted <= monitor.y + monitor.height - 12 && wanted <= monitor.height)),
        height_limit(monitor, top) >= 160,
{
    if monitor.height <= i32::MAX {
        assert(monitor.height as i32 == monitor.height);
    }
}

/// What is asked of a display before a window on it can be measured, centered or
/// placed holds of every display of an ordinary size and place.
pub proof fn ordinary_displays_can_be_used(m: Monitor, top: i32, width: u32, height: u32)
    requires
        -0x1000_0000 <= m.x <= 0x1000_0000,
        -0x1000_0000 <= m.y <= 0x1000_0000,
        m.width <= 0x1000_0000,
        m.height <= 0x1000_0000,
        -0x1000_0000 <= top <= 0x1000_0000,
        width <= 0x1000_0000,
        height <= 0x1000_0000,
    ensures
        can_measure(m, top),
        can_center(m.x, m.width, width),
        can_center(m.y, m.height, height),
        can_place(m),
{
    assert(m.width as i32 == m.width);
    assert(m.height as i32 == m.height);
    assert(width as i32 == width);
    assert(height as i32 == height);
}

/// A display is refused only where an edge that is asked for lies beyond the
/// numbers of the window system.
pub proof fn refused_displays_overflow(m: Monitor, top: i32)
    ensures
        ({
            let right = m.x + (m.width as i32);
            let bottom = m.y + (m.height as i32);
            &&& can_measure(m, top) <==> i32::MIN <= bottom - 12 && bottom <= i32::MAX && i32::MIN
                <= bottom - 12 - top <= i32::MAX
            &&& can_place(m) <==> m.x <= right && i32::MIN <= right - 50 && right <= i32::MAX && m.y
                <= bottom && i32::MIN <= bottom - 10 && bottom <= i32::MAX
        }),
{
}

/// Of an odd pixel, a window that fits has it behind, one that is too large in
/// front.
pub proof fn odd_pixels_stand_behind(start: i32, outer: u32, inner: u32)
    requires
        outer <= i32::MAX,
        inner <= i32::MAX,
    ensures
        ({
            let before = centered(start, outer, inner) - start;
            let behind = (start + outer) - (centered(start, outer, inner) + inner);
            &&& before + behind == outer - inner
            &&& inner <= outer ==> 0 <= before && (behind == before || behind == before + 1)
            &&& inner > outer ==> before <= 0 && (behind == before || behind == before - 1)
        }),
{
    assert(outer as i32 == outer);
    assert(inner as i32 == inner);
}

/// A number that is brought into a range stays where it is within the range, and
/// else becomes the end that is nearer.
pub proof fn clamping_moves_as_little_as_possible(v: int, lo: int, hi: int)
    requires
        lo <= hi,
    ensures
        lo <= clamped(v, lo, hi) <= hi,
        lo <= v <= hi ==> clamped(v, lo, hi) == v,
        v <= lo ==> clamped(v, lo, hi) == lo,
        v >= hi ==> clamped(v, lo, hi) == hi,
{
}

/// A difference is exact, unless it would fall below the smallest number: then it
/// is that number.
pub proof fn differences_stop_at_the_smallest(a: i32, b: int)
    ensures
        a - b >= i32::MIN ==> floored(a, b) == a - b,
        a - b < i32::MIN ==> floored(a, b) == i32::MIN,
{
}

/// A window that was saved where it can be reached comes back just there: from 50
/// pixels left of its display to 50 pixels before its right edge, and from 10
/// above it to 10 above its lower edge.
pub proof fn reachable_windows_come_back_in_place(m: Monitor, x: i32, y: i32)
    requires
        m.width <= i32::MAX,
        m.height <= i32::MAX,
    ensures
        m.x - 50 <= x <= m.x + m.width - 50 ==> clamped(
            x as int,
            floored(m.x, 50),
            m.x + (m.width as i32) - 50,
        ) == x,
        m.y - 10 <= y <= m.y + m.height - 10 ==> clamped(
            y as int,
            floored(m.y, 10),
            m.y + (m.height as i32) - 10,
        ) == y,
{
    assert(m.width as i32 == m.width);
    assert(m.height as i32 == m.height);
}

/// A saved size is of use where both extents are known and neither is zero, and
/// is then taken as it is.
pub proof fn saved_sizes_are_taken_as_they_are(geom: WindowGeom)
    ensures
        saved_size_of(geom) is Some <==> geom.width is Some && geom.height is Some
            && geom.width.unwrap() > 0 && geom.height.unwrap() > 0,
        saved_size_of(geom) is Some ==> saved_size_of(geom).unwrap().0 == geom.width.unwrap()
            && saved_size_of(geom).unwrap().1 == geom.height.unwrap(),
{
}

/// Where no display is known, one of 1920 by 1080 pixels is assumed at the
/// origin.
pub proof fn the_assumed_display()
    ensures
        assumed_monitor().x == 0,
        assumed_monitor().y == 0,
        assumed_monitor().width == 1920,
        assumed_monitor().height == 1080,
{
}

/// Closing the window hides it, first of all, and closes its preview, where there
/// is one; it does nothing else.
pub proof fn closing_only_hides(has_preview: bool)
    ensures
        ({
            let a = close_actions(has_preview);
            &&& a.len() > 0 && a[0] == WindowAction::Hide
            &&& a.contains(WindowAction::ClosePreview) <==> has_preview
            &&& a.len() == if has_preview {
                2int
            } else {
                1int
            }
        }),
{
    let a = close_actions(has_preview);
    if has_preview {
        assert(a[1] == WindowAction::ClosePreview);
    }
}

/// A centered extent starts half of the difference behind the outer one, in whole
/// pixels towards it; extents are counted as the window system counts them.
pub proof fn centering_halves_the_difference(start: i32, outer: u32, inner: u32)
    ensures
        ({
            let room = (outer as i32) - (inner as i32);
            let before = centered(start, outer, inner) - start;
            &&& room >= 0 ==> 2 * before == room || 2 * before == room - 1
            &&& room < 0 ==> 2 * before == room || 2 * before == room + 1
            &&& can_center(start, outer, inner) <==> i32::MIN <= room <= i32::MAX && i32::MIN
                <= start + before <= i32::MAX
        }),
{
}

} // verus!
