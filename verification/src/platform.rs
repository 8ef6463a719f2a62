//! What differs between operating systems: in which layer the floating window
//! lives for each pin mode, and how that is put to the window system.
use vstd::prelude::*;

use crate::todo::PinMode;

verus! {

/// The operating system that the program runs on.
#[derive(Debug, Clone, Copy, PartialEq, Eq, Structural)]
pub enum Platform {
    MacOs,
    Windows,
    Linux,
}

/// A window layer of macOS.
#[derive(Debug, Clone, Copy, PartialEq, Eq, Structural)]
pub enum Level {
    /// Just below ordinary windows, above the desktop.
    BelowNormal,
    /// Among ordinary windows.
    Normal,
    /// Above ordinary windows.
    Floating,
}

/// The window level just below ordinary windows.
pub const LEVEL_BELOW_NORMAL: i32 = -1;

/// The window level of ordinary windows.
pub const LEVEL_NORMAL: i32 = 0;

/// The window level of floating windows.
pub const LEVEL_FLOATING: i32 = 3;

impl Level {
    /// The number of the layer.
    pub fn value(self) -> (r: i32)
        ensures
            r == match self {
                Level::BelowNormal => LEVEL_BELOW_NORMAL,
                Level::Normal => LEVEL_NORMAL,
                Level::Floating => LEVEL_FLOATING,
            },
    {
        match self {
            Level::BelowNormal => LEVEL_BELOW_NORMAL,
            Level::Normal => LEVEL_NORMAL,
            Level::Floating => LEVEL_FLOATING,
        }
    }
}

/// Whether hovering moves the window between layers, and whether the next look
/// at the pointer must report what it sees.
#[derive(Debug, Clone, Copy, PartialEq, Eq, Structural)]
pub struct Layering {
    pub switching: bool,
    pub force_report: bool,
}

/// The layer of a pin mode while the window is not hovered.
pub open spec fn level_of(mode: PinMode) -> Level {
    match mode {
        PinMode::PinTop => Level::Floating,
        PinMode::PinBottom => Level::BelowNormal,
        PinMode::Normal => Level::Normal,
    }
}

/// The layering under a pin mode: only a window at the bottom moves with the
/// pointer, and entering that mode asks for a report.
pub open spec fn layering_of(before: Layering, mode: PinMode) -> Layering {
    match mode {
        PinMode::PinBottom => Layering { switching: true, force_report: true },
        _ => Layering { switching: false, ..before },
    }
}

impl Layering {
    /// At start-up nothing moves the window.
    pub fn new() -> (r: Layering)
        ensures
            !r.switching,
            !r.force_report,
    {
        Layering { switching: false, force_report: false }
    }

    /// Keeps the window above all others.
    pub fn set_window_pin_top(&mut self) -> (r: Level)
        ensures
            *final(self) == layering_of(*old(self), PinMode::PinTop),
            r == level_of(PinMode::PinTop),
    {
        self.switching = false;
        Level::Floating
    }

    /// Keeps the window below all others, except while it is hovered.
    pub fn set_window_pin_bottom(&mut self) -> (r: Level)
        ensures
            *final(self) == layering_of(*old(self), PinMode::PinBottom),
            r == level_of(PinMode::PinBottom),
    {
        self.switching = true;
        self.force_report = true;
        Level::BelowNormal
    }

    /// Treats the window like any other.
    pub fn set_window_normal(&mut self) -> (r: Level)
        ensures
            *final(self) == layering_of(*old(self), PinMode::Normal),
            r == level_of(PinMode::Normal),
    {
        self.switching = false;
        Level::Normal
    }

    /// Puts the window in the layer of a pin mode.
    pub fn apply_pin_mode(&mut self, mode: PinMode) -> (r: Level)
        ensures
            *final(self) == layering_of(*old(self), mode),
            r == level_of(mode),
    {
        match mode {
            PinMode::PinTop => self.set_window_pin_top(),
            PinMode::PinBottom => self.set_window_pin_bottom(),
            PinMode::Normal => self.set_window_normal(),
        }
    }

    /// Lifts the window above all others for a quick note, and stops hovering
    /// from taking it down again.
    pub fn raise_for_quick_add(&mut self) -> (r: Level)
        ensures
            *final(self) == (Layering { switching: false, ..*old(self) }),
            r == Level::Floating,
    {
        self.switching = false;
        Level::Floating
    }

    /// Puts the window back in the layer of its pin mode after a quick note.
    pub fn restore_level_after_quick_add(&mut self, mode: PinMode) -> (r: Level)
        ensures
            *final(self) == layering_of(*old(self), mode),
            r == level_of(mode),
    {
        self.apply_pin_mode(mode)
    }

    /// Tells whether a report was asked for, and forgets the request.
    pub fn take_force_report(&mut self) -> (r: bool)
        ensures
            r == old(self).force_report,
            *final(self) == (Layering { force_report: false, ..*old(self) }),
    {
        let r = self.force_report;
        self.force_report = false;
        r
    }
}

/// A quick note leaves no trace in the layering: raised and restored, the
/// window moves with the pointer exactly as if the pin mode had been chosen
/// anew.
pub proof fn quick_note_leaves_no_trace(before: Layering, mode: PinMode)
    ensures
        layering_of(Layering { switching: false, ..before }, mode) == layering_of(before, mode),
{
}

/// Whether the application in front is the one to go back to after a quick
/// note: not where there is none, nor where it is this program itself; the one
/// remembered before then stays.
pub fn save_previous_app_for_quick_add(frontmost: Option<i32>, ours: i32) -> (r: bool)
    ensures
        r == (frontmost is Some && frontmost != Some(ours)),
{
    match frontmost {
        Some(pid) => pid != ours,
        None => false,
    }
}

/// A place in the window order of Windows.
#[derive(Debug, Clone, Copy, PartialEq, Eq, Structural)]
pub enum ZOrder {
    /// Above all other windows.
    TopMost,
    /// Below all ordinary windows.
    Bottom,
    /// Where it is, but no longer above all others.
    NotTopMost,
}

/// The place of a pin mode while the window is not hovered.
pub fn z_order_of(mode: PinMode) -> (r: ZOrder)
    ensures
        r == match mode {
            PinMode::PinTop => ZOrder::TopMost,
            PinMode::PinBottom => ZOrder::Bottom,
            PinMode::Normal => ZOrder::NotTopMost,
        },
{
    match mode {
        PinMode::PinTop => ZOrder::TopMost,
        PinMode::PinBottom => ZOrder::Bottom,
        PinMode::Normal => ZOrder::NotTopMost,
    }
}

/// The bit of a window's extended style that keeps it above all others.
pub const WS_EX_TOPMOST: i64 = 8;

/// The extended style for a place in the window order: the topmost bit is set
/// or cleared, every other bit stays.
pub open spec fn style_for(z: ZOrder, style: i64) -> i64 {
    match z {
        ZOrder::TopMost => style | WS_EX_TOPMOST,
        _ => style & !WS_EX_TOPMOST,
    }
}

/// The extended style for a place in the window order.
pub fn apply_z_order(z: ZOrder, style: i64) -> (r: i64)
    ensures
        r == style_for(z, style),
{
    match z {
        ZOrder::TopMost => style | WS_EX_TOPMOST,
        ZOrder::Bottom => style & !WS_EX_TOPMOST,
        ZOrder::NotTopMost => style & !WS_EX_TOPMOST,
    }
}

/// Changing the place in the window order sets or clears the topmost bit and
/// keeps every other bit of the style.
pub proof fn style_keeps_other_bits(z: ZOrder, style: i64)
    ensures
        (style_for(z, style) & WS_EX_TOPMOST != 0) <==> z is TopMost,
        style_for(z, style) & !WS_EX_TOPMOST == style & !WS_EX_TOPMOST,
{
    assert((style | 8) & 8 != 0) by (bit_vector);
    assert((style & !8) & 8 == 0) by (bit_vector);
    assert((style | 8) & !8 == style & !8) by (bit_vector);
    assert((style & !8) & !8 == style & !8) by (bit_vector);
}

/// A rectangle by its edges; the right and the bottom edge lie outside.
#[derive(Debug, Clone, Copy, PartialEq, Eq, Structural)]
pub struct Edges {
    pub left: i32,
    pub top: i32,
    pub right: i32,
    pub bottom: i32,
}

/// Whether a point lies in a rectangle.
pub open spec fn in_rect(x: i32, y: i32, r: Edges) -> bool {
    r.left <= x < r.right && r.top <= y < r.bottom
}

/// Tells whether a point lies in a rectangle.
pub fn point_in_rect(x: i32, y: i32, rect: &Edges) -> (r: bool)
    ensures
        r == in_rect(x, y, *rect),
{
    x >= rect.left && x < rect.right && y >= rect.top && y < rect.bottom
}

/// What Windows says of the pointer and the floating window. Windows are
/// numbers, zero where there is none; the pointer and the rectangle are `None`
/// where the system could not tell.
#[derive(Debug, Clone, Copy)]
pub struct PointerFacts {
    pub ours: usize,
    pub pointer: Option<(i32, i32)>,
    pub rect: Option<Edges>,
    /// The window under the pointer.
    pub topmost: usize,
    /// The outermost window that it belongs to.
    pub root: usize,
}

/// Whether the pointer is over a part of the floating window that no other
/// window covers; `None` where that cannot be told.
pub open spec fn pointer_inside(f: PointerFacts) -> Option<bool> {
    if f.ours == 0 || f.pointer is None || f.rect is None {
        None
    } else {
        let (x, y) = f.pointer.unwrap();
        Some(
            in_rect(x, y, f.rect.unwrap()) && f.topmost != 0 && f.ours == (if f.root == 0 {
                f.topmost
            } else {
                f.root
            }),
        )
    }
}

/// Tells whether the pointer is over an uncovered part of the floating window.
pub fn is_cursor_inside_floating(facts: &PointerFacts) -> (r: Option<bool>)
    ensures
        r == pointer_inside(*facts),
{
    if facts.ours == 0 {
        return None;
    }
    match (facts.pointer, facts.rect) {
        (Some((x, y)), Some(rect)) => {
            if !point_in_rect(x, y, &rect) {
                return Some(false);
            }
            if facts.topmost == 0 {
                return Some(false);
            }
            if facts.root == 0 {
                return Some(facts.topmost == facts.ours);
            }
            Some(facts.root == facts.ours)
        },
        _ => None,
    }
}

/// Each pin mode has a layer of its own: above the ordinary windows, below them,
/// or among them. The numbers of the layers rise in that order.
pub proof fn pin_modes_have_layers_of_their_own()
    ensures
        level_of(PinMode::PinTop) == Level::Floating,
        level_of(PinMode::PinBottom) == Level::BelowNormal,
        level_of(PinMode::Normal) == Level::Normal,
        LEVEL_BELOW_NORMAL == -1,
        LEVEL_NORMAL == 0,
        LEVEL_FLOATING == 3,
{
}

/// Only a window that is pinned to the bottom moves with the pointer, and only
/// pinning it there asks for a report; a report that was asked for before is
/// still owed.
pub proof fn only_bottom_windows_move_with_the_pointer(before: Layering, mode: PinMode)
    ensures
        layering_of(before, mode).switching <==> mode == PinMode::PinBottom,
        layering_of(before, mode).force_report <==> mode == PinMode::PinBottom
            || before.force_report,
{
}

/// The style of a topmost window has the bit of value eight, that of any other
/// has not; no other bit is touched.
pub proof fn topmost_windows_have_one_bit_more(z: ZOrder, style: i64)
    ensures
        style_for(z, style) & 8 != 0 <==> z == ZOrder::TopMost,
        style_for(z, style) & !8i64 == style & !8i64,
{
    assert((style | 8) & 8 != 0) by (bit_vector);
    assert((style & !8) & 8 == 0) by (bit_vector);
    assert((style | 8) & !8 == style & !8) by (bit_vector);
    assert((style & !8) & !8 == style & !8) by (bit_vector);
}

/// A rectangle holds its left and its top edge, but not its right and its bottom
/// one; so two that share an edge share no point.
pub proof fn rectangles_side_by_side_are_apart(x: i32, y: i32, a: Edges, b: Edges)
    ensures
        in_rect(x, y, a) <==> a.left <= x && x < a.right && a.top <= y && y < a.bottom,
        a.right == b.left || a.bottom == b.top ==> !(in_rect(x, y, a) && in_rect(x, y, b)),
{
}

/// Without the window's number, the pointer or the window's edges nothing can be
/// told. Else the pointer is over the window exactly where it is within its edges
/// and the window under it is the floating window or belongs to it.
pub proof fn covered_windows_are_not_hovered(f: PointerFacts)
    ensures
        pointer_inside(f) is None <==> f.ours == 0 || f.pointer is None || f.rect is None,
        pointer_inside(f) is Some ==> {
            let (x, y) = f.pointer.unwrap();
            let r = f.rect.unwrap();
            let within = r.left <= x && x < r.right && r.top <= y && y < r.bottom;
            &&& !within ==> pointer_inside(f) == Some(false)
            &&& f.topmost == 0 ==> pointer_inside(f) == Some(false)
            &&& within && f.topmost != 0 && f.root != 0 ==> pointer_inside(f) == Some(
                f.root == f.ours,
            )
            &&& within && f.topmost != 0 && f.root == 0 ==> pointer_inside(f) == Some(
                f.topmost == f.ours,
            )
        },
{
}

} // verus!
