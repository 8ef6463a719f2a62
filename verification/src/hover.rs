//! Following the pointer over the floating window: when the front end is told
//! that the window is hovered, and when a window pinned to the bottom is raised.
use vstd::prelude::*;

use crate::platform::{Level, ZOrder};

verus! {

/// How often the pointer is looked at, in milliseconds.
pub const TICK_MS: u64 = 50;

/// How many looks in a row must find the pointer outside before it counts as
/// gone. A single look that finds it inside counts at once.
pub const EXIT_TICKS: u8 = 2;

/// How many looks in a row may fail before the pointer counts as gone.
pub const FAILURE_TICKS: u8 = 3;

/// What one look at the pointer found.
#[derive(Debug, Clone, Copy, PartialEq, Eq, Structural)]
pub enum Sample {
    /// It could not be told in time.
    Unknown,
    /// The pointer is over the window or not; `has_frame` says whether the
    /// window's frame is known too.
    Known { inside: bool, has_frame: bool },
    /// The window is not on show, so nothing can be over it.
    Hidden,
}

/// What is remembered between two looks.
#[derive(Debug, Clone, Copy, PartialEq, Eq, Structural)]
pub struct HoverTracker {
    /// Whether the window counts as hovered.
    pub last_inside: bool,
    /// What the latest looks found, where that differs from `last_inside`, and
    /// how many they are.
    pub pending_value: bool,
    pub pending_ticks: u8,
    /// How many looks in a row have failed.
    pub failures: u8,
}

/// What is to be done after one look.
#[derive(Debug, Clone, Copy, PartialEq, Eq, Structural)]
pub struct HoverTick {
    /// Tell the front end that the window is hovered, or no longer.
    pub report: Option<bool>,
    /// Tell the front end where the pointer is.
    pub position: bool,
    /// Move the window to this layer.
    pub level: Option<Level>,
}

/// Nothing to be done.
pub open spec fn quiet() -> HoverTick {
    HoverTick { report: None, position: false, level: None }
}

/// The state and the actions once `inside` is taken to be so.
pub open spec fn settled(inside: bool, position: bool, failures: u8, switching: bool) -> (
    HoverTracker,
    HoverTick,
) {
    (
        HoverTracker {
            last_inside: inside,
            pending_value: inside,
            pending_ticks: 0,
            failures,
        },
        HoverTick {
            report: Some(inside),
            position,
            level: if !switching {
                None
            } else if inside {
                Some(Level::Floating)
            } else {
                Some(Level::BelowNormal)
            },
        },
    )
}

/// One more, up to the largest number.
pub open spec fn one_more(n: u8) -> u8 {
    if n < u8::MAX {
        (n + 1) as u8
    } else {
        n
    }
}

/// How many looks in a row have now found the pointer on the other side.
pub open spec fn looks_in_a_row(t: HoverTracker, inside: bool) -> u8 {
    if t.pending_value == inside {
        one_more(t.pending_ticks)
    } else {
        1
    }
}

/// What one look leads to.
///
/// - A failed look changes nothing, until the third in a row ends the hovering.
/// - A look that finds what is known already reports the pointer's position
///   while the window is hovered.
/// - A look that finds the pointer inside counts at once; outside, two in a row
///   are needed.
/// - A forced look counts at once whatever it finds.
/// - A hidden window is not hovered, at once; it is never raised.
pub open spec fn hover_step(
    tracker: HoverTracker,
    force: bool,
    sample: Sample,
    switching: bool,
) -> (HoverTracker, HoverTick) {
    let t = if force {
        HoverTracker { pending_ticks: 0, pending_value: false, ..tracker }
    } else {
        tracker
    };
    match sample {
        Sample::Unknown => {
            let failures = one_more(t.failures);
            if failures >= FAILURE_TICKS && t.last_inside {
                settled(false, false, failures, switching)
            } else {
                (HoverTracker { failures, ..t }, quiet())
            }
        },
        Sample::Known { inside, has_frame } => if force {
            settled(inside, inside && has_frame, 0, switching)
        } else if inside == t.last_inside {
            (
                HoverTracker { pending_ticks: 0, failures: 0, ..t },
                HoverTick { position: inside && has_frame, ..quiet() },
            )
        } else if inside || looks_in_a_row(t, inside) >= EXIT_TICKS {
            settled(inside, inside && has_frame, 0, switching)
        } else {
            (
                HoverTracker {
                    pending_value: inside,
                    pending_ticks: looks_in_a_row(t, inside),
                    failures: 0,
                    ..t
                },
                quiet(),
            )
        },
        Sample::Hidden => if force || t.last_inside {
            settled(false, false, 0, switching)
        } else {
            (HoverTracker { pending_ticks: 0, failures: 0, ..t }, quiet())
        },
    }
}

impl HoverTracker {
    /// At start-up the window does not count as hovered.
    pub fn new() -> (r: HoverTracker)
        ensures
            r == (HoverTracker {
                last_inside: false,
                pending_value: false,
                pending_ticks: 0,
                failures: 0,
            }),
    {
        HoverTracker { last_inside: false, pending_value: false, pending_ticks: 0, failures: 0 }
    }

    fn settle(&mut self, inside: bool, position: bool, switching: bool) -> (r: HoverTick)
        ensures
            (*final(self), r) == settled(inside, position, old(self).failures, switching),
    {
        self.last_inside = inside;
        self.pending_value = inside;
        self.pending_ticks = 0;
        let level: Option<Level> = if !switching {
            None
        } else if inside {
            Some(Level::Floating)
        } else {
            Some(Level::BelowNormal)
        };
        HoverTick { report: Some(inside), position, level }
    }

    /// Takes in one look at the pointer. `force` asks for a report of whatever
    /// it found; `switching` says whether hovering moves the window between
    /// layers.
    pub fn tick(&mut self, force: bool, sample: Sample, switching: bool) -> (r: HoverTick)
        ensures
            (*final(self), r) == hover_step(*old(self), force, sample, switching),
    {
        if force {
            self.pending_ticks = 0;
            self.pending_value = false;
        }
        match sample {
            Sample::Unknown => {
                self.failures = self.failures.saturating_add(1);
                if self.failures >= FAILURE_TICKS && self.last_inside {
                    return self.settle(false, false, switching);
                }
                HoverTick { report: None, position: false, level: None }
            },
            Sample::Known { inside, has_frame } => {
                self.failures = 0;
                let position = inside && has_frame;
                if force {
                    return self.settle(inside, position, switching);
                }
                if inside == self.last_inside {
                    self.pending_ticks = 0;
                    return HoverTick { report: None, position, level: None };
                }
                if self.pending_value != inside {
                    self.pending_value = inside;
                    self.pending_ticks = 1;
                } else {
                    self.pending_ticks = self.pending_ticks.saturating_add(1);
                }
                if inside || self.pending_ticks >= EXIT_TICKS {
                    return self.settle(inside, position, switching);
                }
                HoverTick { report: None, position: false, level: None }
            },
            Sample::Hidden => {
                self.failures = 0;
                if force || self.last_inside {
                    return self.settle(false, false, switching);
                }
                self.pending_ticks = 0;
                HoverTick { report: None, position: false, level: None }
            },
        }
    }
}

/// What holds of a tracker at all times: looks are pending only while a hovered
/// window was once not found under the pointer.
pub open spec fn tracker_ok(t: HoverTracker) -> bool {
    t.pending_ticks == 0 || (t.pending_ticks == 1 && !t.pending_value && t.last_inside)
}

/// Every look keeps the tracker in order.
pub proof fn tracker_stays_ok(t: HoverTracker, force: bool, sample: Sample, switching: bool)
    requires
        tracker_ok(t),
    ensures
        tracker_ok(hover_step(t, force, sample, switching).0),
{
}

/// However short, a visit of the pointer is noticed: the first look that finds
/// it inside is reported, with its position, and raises a window that moves
/// with the pointer.
pub proof fn short_visits_are_noticed(t: HoverTracker, has_frame: bool, switching: bool)
    requires
        !t.last_inside,
    ensures
        ({
            let (after, tick) = hover_step(
                t,
                false,
                Sample::Known { inside: true, has_frame },
                switching,
            );
            &&& after.last_inside
            &&& tick.report == Some(true)
            &&& tick.position == has_frame
            &&& tick.level == if switching {
                Some(Level::Floating)
            } else {
                None
            }
        }),
{
}

/// A single look that finds the pointer outside is not believed; a second one
/// right after it is.
pub proof fn leaving_takes_two_looks(
    t: HoverTracker,
    frame1: bool,
    frame2: bool,
    switching: bool,
)
    requires
        tracker_ok(t),
        t.last_inside,
        t.pending_ticks == 0,
    ensures
        ({
            let out1 = Sample::Known { inside: false, has_frame: frame1 };
            let out2 = Sample::Known { inside: false, has_frame: frame2 };
            let (one, tick1) = hover_step(t, false, out1, switching);
            let (two, tick2) = hover_step(one, false, out2, switching);
            &&& one.last_inside && tick1 == quiet()
            &&& !two.last_inside && tick2.report == Some(false)
        }),
{
}

/// A look that finds the pointer inside again wipes out one that did not: the
/// window never flickers on a single stray look.
pub proof fn a_stray_look_is_forgotten(t: HoverTracker, frame: bool, switching: bool)
    requires
        tracker_ok(t),
        t.last_inside,
        t.pending_ticks == 0,
    ensures
        ({
            let out = Sample::Known { inside: false, has_frame: frame };
            let back = Sample::Known { inside: true, has_frame: frame };
            let (one, tick1) = hover_step(t, false, out, switching);
            let (two, tick2) = hover_step(one, false, back, switching);
            let (three, tick3) = hover_step(two, false, out, switching);
            &&& tick1.report is None && tick2.report is None && tick3.report is None
            &&& three.last_inside
        }),
{
}

/// The tracker after `n` failed looks in a row.
pub open spec fn after_failures(t: HoverTracker, n: nat, switching: bool) -> HoverTracker
    decreases n,
{
    if n == 0 {
        t
    } else {
        hover_step(
            after_failures(t, (n - 1) as nat, switching),
            false,
            Sample::Unknown,
            switching,
        ).0
    }
}

/// Two failed looks in a row leave a hovered window hovered, the third ends it,
/// and no failed look ever starts it.
pub proof fn failures_are_ridden_out(t: HoverTracker, switching: bool)
    requires
        t.failures == 0,
    ensures
        after_failures(t, 1, switching).last_inside == t.last_inside,
        after_failures(t, 2, switching).last_inside == t.last_inside,
        !after_failures(t, 3, switching).last_inside,
{
    reveal_with_fuel(after_failures, 4);
}

/// Without a forced look, the front end is told of a change and of nothing
/// else; whatever it is told last is what counts. The window changes layer with
/// such a report only, and only where it moves with the pointer.
pub proof fn reports_are_changes(
    t: HoverTracker,
    force: bool,
    sample: Sample,
    switching: bool,
)
    ensures
        ({
            let (after, tick) = hover_step(t, force, sample, switching);
            &&& tick.report is Some ==> after.last_inside == tick.report.unwrap()
            &&& tick.report is None ==> after.last_inside == t.last_inside
            &&& !force && tick.report is Some ==> after.last_inside != t.last_inside
            &&& tick.level is Some <==> tick.report is Some && switching
            &&& tick.level == Some(Level::Floating) ==> after.last_inside
            &&& tick.level == Some(Level::BelowNormal) ==> !after.last_inside
            &&& tick.position ==> after.last_inside
        }),
{
}

/// A hidden window does not count as hovered, is not raised, and is forgotten to
/// have been hovered: once it is on show again, the first look that finds the
/// pointer inside is noticed.
pub proof fn hidden_windows_are_not_hovered(
    t: HoverTracker,
    force: bool,
    has_frame: bool,
    switching: bool,
)
    ensures
        ({
            let (after, tick) = hover_step(t, force, Sample::Hidden, switching);
            let back = hover_step(
                after,
                false,
                Sample::Known { inside: true, has_frame },
                switching,
            );
            &&& !after.last_inside && after.failures == 0
            &&& tick.report == if force || t.last_inside {
                Some(false)
            } else {
                None
            }
            &&& !tick.position
            &&& tick.level != Some(Level::Floating)
            &&& back.0.last_inside && back.1.report == Some(true)
        }),
{
}

/// A lowering that was asked for and waits for the next look. Lowering the
/// window at once would let it sink for a moment where the pointer is back by
/// then.
#[derive(Debug, Clone, Copy, PartialEq, Eq, Structural)]
pub struct LayerDelay {
    pub lowering: bool,
}

/// The layer that the window is moved to after a look that asks for `wanted`. To
/// rise is done at once. To sink is done one look later, unless the window is
/// hovered again by then or no longer moves with the pointer.
pub open spec fn layer_now(
    waiting: bool,
    wanted: Option<Level>,
    inside: bool,
    switching: bool,
) -> Option<Level> {
    if wanted is Some && wanted != Some(Level::BelowNormal) {
        wanted
    } else if waiting && switching && !inside {
        Some(Level::BelowNormal)
    } else {
        None
    }
}

impl LayerDelay {
    /// At start-up nothing waits.
    pub fn new() -> (r: LayerDelay)
        ensures
            !r.lowering,
    {
        LayerDelay { lowering: false }
    }

    /// Takes in the layer that a look asks for, and tells which one the window
    /// is moved to now. `inside` says whether it counts as hovered after that
    /// look.
    pub fn next(&mut self, wanted: Option<Level>, inside: bool, switching: bool) -> (r: Option<
        Level,
    >)
        ensures
            r == layer_now(old(self).lowering, wanted, inside, switching),
            final(self).lowering == (wanted == Some(Level::BelowNormal)),
    {
        let waiting = self.lowering;
        self.lowering = false;
        match wanted {
            Some(Level::BelowNormal) => {
                self.lowering = true;
            },
            Some(level) => return Some(level),
            None => {},
        }
        if waiting && switching && !inside {
            Some(Level::BelowNormal)
        } else {
            None
        }
    }
}

/// A window that the pointer has left sinks one look after that was settled, and
/// only if that look does not find the pointer back, nor the window in another
/// pin mode: then it does not sink at all.
pub proof fn coming_back_skips_the_lowering(t: HoverTracker, frame: bool, switching: bool)
    requires
        tracker_ok(t),
        t.last_inside,
        t.pending_ticks == 1,
    ensures
        ({
            let out = Sample::Known { inside: false, has_frame: frame };
            let back = Sample::Known { inside: true, has_frame: frame };
            let (left, tick) = hover_step(t, false, out, true);
            let (inside, again) = hover_step(left, false, back, switching);
            let (outside, still) = hover_step(left, false, out, switching);
            &&& tick.level == Some(Level::BelowNormal)
            &&& layer_now(false, tick.level, left.last_inside, true) is None
            &&& layer_now(true, again.level, inside.last_inside, switching)
                != Some(Level::BelowNormal)
            &&& layer_now(true, still.level, outside.last_inside, switching) == if switching {
                Some(Level::BelowNormal)
            } else {
                None
            }
        }),
{
}

/// A forced look reports what it finds, unless it fails.
pub proof fn forced_looks_report(t: HoverTracker, inside: bool, frame: bool, switching: bool)
    ensures
        hover_step(
            t,
            true,
            Sample::Known { inside, has_frame: frame },
            switching,
        ).1.report == Some(inside),
{
}

/// The answer to one question to the main thread, which may come late.
#[derive(Debug, Clone, Copy, PartialEq, Eq, Structural)]
pub struct HitSlot {
    /// The number of the question that is being asked.
    pub round: u64,
    pub answer: Option<Sample>,
}

impl HitSlot {
    /// A slot before the first question.
    pub fn new() -> (r: HitSlot)
        ensures
            r == (HitSlot { round: 0, answer: None }),
    {
        HitSlot { round: 0, answer: None }
    }

    /// Asks a new question: forgets the last answer and hands out the number
    /// that the new one must carry.
    pub fn begin(&mut self) -> (r: u64)
        ensures
            r == old(self).round.wrapping_add(1),
            *final(self) == (HitSlot { round: r, answer: None }),
    {
        self.round = self.round.wrapping_add(1);
        self.answer = None;
        self.round
    }

    /// Takes in an answer; one to an earlier question is dropped.
    pub fn put(&mut self, round: u64, sample: Sample)
        ensures
            *final(self) == if round == old(self).round {
                HitSlot { answer: Some(sample), ..*old(self) }
            } else {
                *old(self)
            },
    {
        if round == self.round {
            self.answer = Some(sample);
        }
    }

    /// Notes that the question could not be asked, unless it was answered.
    pub fn fail(&mut self, round: u64)
        ensures
            *final(self) == if round == old(self).round && old(self).answer is None {
                HitSlot { answer: Some(Sample::Unknown), ..*old(self) }
            } else {
                *old(self)
            },
    {
        if round == self.round && self.answer.is_none() {
            self.answer = Some(Sample::Unknown);
        }
    }

    /// The answer so far; unknown where there is none.
    pub fn read(&self) -> (r: Sample)
        ensures
            r == match self.answer {
                Some(s) => s,
                None => Sample::Unknown,
            },
    {
        match self.answer {
            Some(s) => s,
            None => Sample::Unknown,
        }
    }

    /// Tells whether an answer is there.
    pub fn is_answered(&self) -> (r: bool)
        ensures
            r == self.answer is Some,
    {
        self.answer.is_some()
    }
}

/// What the main thread found: `None` where it could not look, else the number
/// of the floating window and of the topmost window under the pointer. A window
/// that is not on screen has the number zero.
pub open spec fn sample_of(found: Option<(i64, i64)>) -> Sample {
    match found {
        Some((ours, topmost)) => if ours == 0 {
            Sample::Unknown
        } else {
            Sample::Known { inside: topmost == ours, has_frame: true }
        },
        None => Sample::Unknown,
    }
}

/// What a hit test amounts to: the pointer is inside where the floating window
/// is the topmost one under it.
pub fn is_floating_topmost_at_with_status(found: Option<(i64, i64)>) -> (r: Sample)
    ensures
        r == sample_of(found),
{
    match found {
        Some((ours, topmost)) => {
            if ours == 0 {
                Sample::Unknown
            } else {
                Sample::Known { inside: topmost == ours, has_frame: true }
            }
        },
        None => Sample::Unknown,
    }
}

/// What a look comes to, given whether the window is on show and what the main
/// thread found.
pub fn look_at_window(visible: bool, found: Option<(i64, i64)>) -> (r: Sample)
    ensures
        r == if visible {
            sample_of(found)
        } else {
            Sample::Hidden
        },
{
    if visible {
        is_floating_topmost_at_with_status(found)
    } else {
        Sample::Hidden
    }
}

/// The window tracker of Windows: only whether the window counts as hovered.
#[derive(Debug, Clone, Copy, PartialEq, Eq, Structural)]
pub struct SimpleTracker {
    pub last_inside: bool,
}

/// What is to be done after one look on Windows.
#[derive(Debug, Clone, Copy, PartialEq, Eq, Structural)]
pub struct SimpleTick {
    pub report: Option<bool>,
    /// Put the window in this place of the window order.
    pub z_order: Option<ZOrder>,
}

/// What one look leads to on Windows: a change is reported; a window that moves
/// with the pointer is raised at every look while it is hovered, and dropped
/// once when it is left. A failed look does nothing.
pub open spec fn simple_step(
    t: SimpleTracker,
    inside: Option<bool>,
    switching: bool,
) -> (SimpleTracker, SimpleTick) {
    match inside {
        None => (t, SimpleTick { report: None, z_order: None }),
        Some(inside) => (
            SimpleTracker { last_inside: inside },
            SimpleTick {
                report: if inside != t.last_inside {
                    Some(inside)
                } else {
                    None
                },
                z_order: if switching && inside {
                    Some(ZOrder::TopMost)
                } else if switching && t.last_inside {
                    Some(ZOrder::Bottom)
                } else {
                    None
                },
            },
        ),
    }
}

impl SimpleTracker {
    /// At start-up the window does not count as hovered.
    pub fn new() -> (r: SimpleTracker)
        ensures
            !r.last_inside,
    {
        SimpleTracker { last_inside: false }
    }

    /// Takes in one look at the pointer.
    pub fn tick(&mut self, inside: Option<bool>, switching: bool) -> (r: SimpleTick)
        ensures
            (*final(self), r) == simple_step(*old(self), inside, switching),
    {
        match inside {
            None => SimpleTick { report: None, z_order: None },
            Some(inside) => {
                let report: Option<bool> = if inside != self.last_inside {
                    Some(inside)
                } else {
                    None
                };
                let z_order: Option<ZOrder> = if !switching {
                    None
                } else if inside {
                    Some(ZOrder::TopMost)
                } else if self.last_inside {
                    Some(ZOrder::Bottom)
                } else {
                    None
                };
                self.last_inside = inside;
                SimpleTick { report, z_order }
            },
        }
    }
}

/// A look that finds what is known already ends every doubt and is told to
/// nobody; while the window is hovered, it tells the pointer's position where the
/// window's frame is known.
pub proof fn looks_that_agree_end_every_doubt(t: HoverTracker, has_frame: bool, switching: bool)
    ensures
        ({
            let (after, tick) = hover_step(
                t,
                false,
                Sample::Known { inside: t.last_inside, has_frame },
                switching,
            );
            &&& after.last_inside == t.last_inside
            &&& after.pending_ticks == 0
            &&& after.failures == 0
            &&& tick.report is None
            &&& tick.level is None
            &&& tick.position <==> t.last_inside && has_frame
        }),
{
}

/// A look that finds the pointer inside a window that is not hovered starts
/// afresh: no doubt and no failure is left from before.
pub proof fn visits_start_afresh(t: HoverTracker, has_frame: bool, switching: bool)
    requires
        !t.last_inside,
    ensures
        ({
            let after = hover_step(
                t,
                false,
                Sample::Known { inside: true, has_frame },
                switching,
            ).0;
            &&& after.last_inside
            &&& after.pending_ticks == 0
            &&& after.failures == 0
        }),
{
}

/// The first look that misses the pointer over a hovered window only counts; any
/// further one in a row ends the hovering and lowers a window that moves with the
/// pointer.
pub proof fn looks_outside_are_counted(t: HoverTracker, has_frame: bool, switching: bool)
    requires
        t.last_inside,
    ensures
        ({
            let (after, tick) = hover_step(
                t,
                false,
                Sample::Known { inside: false, has_frame },
                switching,
            );
            &&& after.failures == 0
            &&& !after.pending_value
            &&& !tick.position
            &&& if !t.pending_value && t.pending_ticks >= 1 {
                &&& !after.last_inside
                &&& after.pending_ticks == 0
                &&& tick.report == Some(false)
                &&& switching ==> tick.level == Some(Level::BelowNormal)
                &&& !switching ==> tick.level is None
            } else {
                &&& after.last_inside
                &&& after.pending_ticks == 1
                &&& tick.report is None
                &&& tick.level is None
            }
        }),
{
}

/// A failed look is one more failure. A hovered window is given up at the third in
/// a row and at every later one; nothing else changes, and nobody is told.
pub proof fn failed_looks_are_counted(t: HoverTracker, force: bool, switching: bool)
    ensures
        ({
            let (after, tick) = hover_step(t, force, Sample::Unknown, switching);
            &&& t.failures < 255 ==> after.failures == t.failures + 1
            &&& t.failures == 255 ==> after.failures == 255
            &&& !tick.position
            &&& if t.last_inside && t.failures >= 2 {
                &&& !after.last_inside
                &&& !after.pending_value
                &&& after.pending_ticks == 0
                &&& tick.report == Some(false)
                &&& switching ==> tick.level == Some(Level::BelowNormal)
                &&& !switching ==> tick.level is None
            } else {
                &&& after.last_inside == t.last_inside
                &&& force ==> after.pending_ticks == 0 && !after.pending_value
                &&& !force ==> after.pending_ticks == t.pending_ticks && after.pending_value
                    == t.pending_value
                &&& tick.report is None
                &&& tick.level is None
            }
        }),
{
}

/// A forced look that does not fail settles what it finds, and moves a window that
/// moves with the pointer to the layer that goes with it.
pub proof fn forced_looks_settle(t: HoverTracker, inside: bool, has_frame: bool, switching: bool)
    ensures
        ({
            let (after, tick) = hover_step(
                t,
                true,
                Sample::Known { inside, has_frame },
                switching,
            );
            &&& after.last_inside == inside
            &&& after.pending_ticks == 0
            &&& after.failures == 0
            &&& tick.report == Some(inside)
            &&& tick.position <==> inside && has_frame
            &&& !switching ==> tick.level is None
            &&& switching && inside ==> tick.level == Some(Level::Floating)
            &&& switching && !inside ==> tick.level == Some(Level::BelowNormal)
        }),
{
}

/// Hiding a hovered window lowers it where it moves with the pointer; hiding one
/// that is not hovered moves it only where a report is forced.
pub proof fn hidden_windows_are_lowered(t: HoverTracker, force: bool, switching: bool)
    ensures
        ({
            let (after, tick) = hover_step(t, force, Sample::Hidden, switching);
            &&& after.pending_ticks == 0
            &&& tick.level == Some(Level::BelowNormal) <==> switching && (force || t.last_inside)
            &&& !(switching && (force || t.last_inside)) ==> tick.level is None
        }),
{
}

/// To rise is never put off; to sink is put off by one look, and given up where
/// the window is hovered by then or no longer moves with the pointer.
pub proof fn rising_is_not_put_off(
    waiting: bool,
    wanted: Option<Level>,
    inside: bool,
    switching: bool,
)
    ensures
        ({
            let r = layer_now(waiting, wanted, inside, switching);
            &&& wanted is Some && wanted != Some(Level::BelowNormal) ==> r == wanted
            &&& wanted is None || wanted == Some(Level::BelowNormal) ==> {
                &&& r is None || r == Some(Level::BelowNormal)
                &&& r is Some <==> waiting && switching && !inside
            }
        }),
{
}

/// The pointer is inside exactly where the topmost window under it is the floating
/// window; without a number for that window, or without an answer, it cannot be
/// told.
pub proof fn the_topmost_window_decides(ours: i64, topmost: i64)
    ensures
        sample_of(None) is Unknown,
        ours == 0 ==> sample_of(Some((ours, topmost))) is Unknown,
        ours != 0 ==> {
            let s = sample_of(Some((ours, topmost)));
            &&& s is Known
            &&& s->inside <==> ours == topmost
            &&& s->has_frame
        },
{
}

/// On Windows every look that does not fail is believed at once, and told exactly
/// where it changes something. A window that moves with the pointer is put on top
/// as long as it is hovered, and at the bottom when it is left.
pub proof fn looks_on_windows_count_at_once(t: SimpleTracker, inside: bool, switching: bool)
    ensures
        ({
            let (after, tick) = simple_step(t, Some(inside), switching);
            &&& after.last_inside == inside
            &&& tick.report is Some <==> inside != t.last_inside
            &&& tick.report is Some ==> tick.report == Some(inside)
            &&& tick.z_order == Some(ZOrder::TopMost) <==> switching && inside
            &&& tick.z_order == Some(ZOrder::Bottom) <==> switching && !inside && t.last_inside
            &&& tick.z_order is Some ==> switching && (inside || t.last_inside)
        }),
        simple_step(t, None, switching).0 == t,
        simple_step(t, None, switching).1.report is None,
        simple_step(t, None, switching).1.z_order is None,
{
}

/// The pointer is looked at twenty times a second.
pub proof fn looks_come_twenty_times_a_second()
    ensures
        TICK_MS * 20 == 1000,
{
}

} // verus!
