//! Calling up the floating window for a quick note and putting it away again,
//! and keeping the shortcut for that bound.
use vstd::prelude::*;

use crate::commands::parse_shortcut;
use crate::errors::CommandError;
use crate::external::{hotkey_of, Hotkey};
use crate::platform::Platform;
use crate::store::{effective_shortcut, Store};
use crate::todo::PinMode;

verus! {

/// One thing to do with the windows, in order.
#[derive(Debug, Clone, Copy, PartialEq, Eq, Structural)]
pub enum WindowAction {
    /// Remember which application is in front.
    SavePreviousApp,
    /// Lift the floating window above all others.
    RaiseLevel,
    Show,
    Focus,
    /// Tell the front end that a quick note was asked for.
    AnnounceQuickAdd,
    Hide,
    ClosePreview,
    /// Put the floating window back in the layer of its pin mode.
    RestoreLevel(PinMode),
    /// Bring the remembered application back to the front.
    ActivatePreviousApp,
}

/// Whether the floating window is up for a quick note.
#[derive(Debug, Clone, Copy, PartialEq, Eq, Structural)]
pub struct QuickAdd {
    pub active: bool,
}

/// The actions that call the window up for a quick note.
pub open spec fn show_actions() -> Seq<WindowAction> {
    seq![
        WindowAction::SavePreviousApp,
        WindowAction::RaiseLevel,
        WindowAction::Show,
        WindowAction::Focus,
        WindowAction::AnnounceQuickAdd,
    ]
}

/// The actions that lower a window that was up for a quick note.
pub open spec fn lower_actions(active: bool, mode: PinMode) -> Seq<WindowAction> {
    if active {
        seq![WindowAction::RestoreLevel(mode)]
    } else {
        Seq::empty()
    }
}

/// The actions of putting the window out of sight: it is hidden first, so that
/// it is not seen sinking, together with its preview; where it was up for a
/// quick note its layer is then restored and the user taken back.
pub open spec fn hide_actions(
    active: bool,
    has_window: bool,
    has_preview: bool,
    mode: PinMode,
) -> Seq<WindowAction> {
    (if has_window {
        seq![WindowAction::Hide]
    } else {
        Seq::empty()
    }) + (if has_preview {
        seq![WindowAction::ClosePreview]
    } else {
        Seq::empty()
    }) + (if active {
        seq![WindowAction::RestoreLevel(mode), WindowAction::ActivatePreviousApp]
    } else {
        Seq::empty()
    })
}

impl QuickAdd {
    /// At start-up nothing was called up.
    pub fn new() -> (r: QuickAdd)
        ensures
            !r.active,
    {
        QuickAdd { active: false }
    }

    /// Calls the window up for a quick note.
    pub fn quick_show_floating_window(&mut self, has_window: bool) -> (r: Vec<WindowAction>)
        ensures
            r@ == if has_window {
                show_actions()
            } else {
                Seq::empty()
            },
            final(self).active == (has_window || old(self).active),
    {
        let mut r: Vec<WindowAction> = Vec::new();
        if has_window {
            self.active = true;
            r.push(WindowAction::SavePreviousApp);
            r.push(WindowAction::RaiseLevel);
            r.push(WindowAction::Show);
            r.push(WindowAction::Focus);
            r.push(WindowAction::AnnounceQuickAdd);
        }
        r
    }

    /// Lowers the window without hiding it and takes the user back to where
    /// they were.
    pub fn toggle_dismiss_floating_window(&mut self, mode: PinMode) -> (r: Vec<WindowAction>)
        ensures
            r@ == lower_actions(old(self).active, mode).push(WindowAction::ActivatePreviousApp),
            !final(self).active,
    {
        let mut r = self.blur_dismiss_floating_window(mode);
        r.push(WindowAction::ActivatePreviousApp);
        r
    }

    /// Lowers the window when it loses the focus. The user has gone elsewhere,
    /// so they are not taken back.
    pub fn blur_dismiss_floating_window(&mut self, mode: PinMode) -> (r: Vec<WindowAction>)
        ensures
            r@ == lower_actions(old(self).active, mode),
            !final(self).active,
    {
        let mut r: Vec<WindowAction> = Vec::new();
        if self.active {
            self.active = false;
            r.push(WindowAction::RestoreLevel(mode));
        }
        r
    }

    /// Puts the window out of sight.
    pub fn hide_dismiss_floating_window(
        &mut self,
        has_window: bool,
        has_preview: bool,
        mode: PinMode,
    ) -> (r: Vec<WindowAction>)
        ensures
            r@ == hide_actions(old(self).active, has_window, has_preview, mode),
            !final(self).active,
    {
        let was_active = self.active;
        self.active = false;
        let mut r: Vec<WindowAction> = Vec::new();
        if has_window {
            r.push(WindowAction::Hide);
        }
        if has_preview {
            r.push(WindowAction::ClosePreview);
        }
        if was_active {
            r.push(WindowAction::RestoreLevel(mode));
            r.push(WindowAction::ActivatePreviousApp);
        }
        assert(r@ =~= hide_actions(was_active, has_window, has_preview, mode));
        r
    }

    /// Shows the window and gives it the focus, in whatever layer it is: a
    /// hidden one is in that of its pin mode, one that was up for a quick note
    /// stays raised. It no longer counts as up for a quick note, so losing the
    /// focus does not move it.
    pub fn show_floating_window_normal(&mut self, has_window: bool) -> (r: Vec<WindowAction>)
        ensures
            r@ == if has_window {
                seq![WindowAction::Show, WindowAction::Focus]
            } else {
                Seq::empty()
            },
            final(self).active == (!has_window && old(self).active),
    {
        let mut r: Vec<WindowAction> = Vec::new();
        if has_window {
            self.active = false;
            r.push(WindowAction::Show);
            r.push(WindowAction::Focus);
        }
        r
    }

    /// The shortcut was pressed: calls the window up, or lowers it where it is
    /// up already. The state is claimed before anything is shown, so that two
    /// presses in quick succession never both show.
    pub fn on_shortcut(&mut self, has_window: bool, mode: PinMode) -> (r: Vec<WindowAction>)
        ensures
            old(self).active ==> r@ == lower_actions(true, mode).push(
                WindowAction::ActivatePreviousApp,
            ) && !final(self).active,
            !old(self).active ==> final(self).active && r@ == if has_window {
                show_actions()
            } else {
                Seq::empty()
            },
    {
        if self.active {
            self.toggle_dismiss_floating_window(mode)
        } else {
            self.active = true;
            self.quick_show_floating_window(has_window)
        }
    }

    /// The shortcut that was put back after a failed change was pressed: as
    /// [`QuickAdd::on_shortcut`], but the state is claimed only where there is a
    /// window to show.
    pub fn on_fallback_shortcut(&mut self, has_window: bool, mode: PinMode) -> (r: Vec<
        WindowAction,
    >)
        ensures
            old(self).active ==> r@ == lower_actions(true, mode).push(
                WindowAction::ActivatePreviousApp,
            ) && !final(self).active,
            !old(self).active ==> final(self).active == has_window && r@ == if has_window {
                show_actions()
            } else {
                Seq::empty()
            },
    {
        if self.active {
            return self.toggle_dismiss_floating_window(mode);
        }
        self.quick_show_floating_window(has_window)
    }
}

/// What happens to the floating window, as far as quick notes are concerned.
#[derive(Debug, Clone, Copy, PartialEq, Eq, Structural)]
pub enum QuickEvent {
    Shortcut,
    Blur,
    Hidden,
    ShownNormally,
}

/// Whether the window is up for a quick note after an event, given that there
/// is a window.
pub open spec fn active_after(active: bool, event: QuickEvent) -> bool {
    match event {
        QuickEvent::Shortcut => !active,
        _ => false,
    }
}

/// How an event changes the layer of the window: raised, restored, or left
/// alone.
pub enum LayerChange {
    Raised,
    Restored,
    Same,
}

/// How an event changes the layer of the window, given that there is one.
pub open spec fn layer_change(active: bool, event: QuickEvent) -> LayerChange {
    match event {
        QuickEvent::Shortcut => if active {
            LayerChange::Restored
        } else {
            LayerChange::Raised
        },
        QuickEvent::Blur => if active {
            LayerChange::Restored
        } else {
            LayerChange::Same
        },
        QuickEvent::Hidden => if active {
            LayerChange::Restored
        } else {
            LayerChange::Same
        },
        QuickEvent::ShownNormally => LayerChange::Same,
    }
}

/// Whether a list of actions changes the layer in a given way.
pub open spec fn changes_layer(actions: Seq<WindowAction>, mode: PinMode) -> LayerChange {
    if actions.contains(WindowAction::RaiseLevel) {
        LayerChange::Raised
    } else if actions.contains(WindowAction::RestoreLevel(mode)) {
        LayerChange::Restored
    } else {
        LayerChange::Same
    }
}

/// The actions of an event, given that there is a window.
pub open spec fn event_actions(
    active: bool,
    event: QuickEvent,
    has_preview: bool,
    mode: PinMode,
) -> Seq<WindowAction> {
    match event {
        QuickEvent::Shortcut => if active {
            lower_actions(true, mode).push(WindowAction::ActivatePreviousApp)
        } else {
            show_actions()
        },
        QuickEvent::Blur => lower_actions(active, mode),
        QuickEvent::Hidden => hide_actions(active, true, has_preview, mode),
        QuickEvent::ShownNormally => seq![WindowAction::Show, WindowAction::Focus],
    }
}

/// Takes in an event, given that there is a window.
pub fn handle_event(state: &mut QuickAdd, event: QuickEvent, has_preview: bool, mode: PinMode) -> (r:
    Vec<WindowAction>)
    ensures
        final(state).active == active_after(old(state).active, event),
        r@ == event_actions(old(state).active, event, has_preview, mode),
{
    match event {
        QuickEvent::Shortcut => state.on_shortcut(true, mode),
        QuickEvent::Blur => state.blur_dismiss_floating_window(mode),
        QuickEvent::Hidden => state.hide_dismiss_floating_window(true, has_preview, mode),
        QuickEvent::ShownNormally => state.show_floating_window_normal(true),
    }
}

/// Calling the window up raises it; putting away a window that was called up
/// puts it back in the layer of its pin mode; nothing else moves it.
pub proof fn layer_follows_the_state(
    active: bool,
    event: QuickEvent,
    has_preview: bool,
    mode: PinMode,
)
    ensures
        changes_layer(event_actions(active, event, has_preview, mode), mode) == layer_change(
            active,
            event,
        ),
{
    let show = show_actions();
    assert(show[1] == WindowAction::RaiseLevel);
    let lower = lower_actions(true, mode).push(WindowAction::ActivatePreviousApp);
    assert(lower[0] == WindowAction::RestoreLevel(mode));
    let blur = lower_actions(true, mode);
    assert(blur[0] == WindowAction::RestoreLevel(mode));
    let hide = hide_actions(true, true, has_preview, mode);
    assert(hide[if has_preview {
        2int
    } else {
        1int
    }] == WindowAction::RestoreLevel(mode));
}

/// Pressing the shortcut twice leaves the window as it was before, in its own
/// layer; losing the focus after that changes nothing more.
pub proof fn second_press_undoes_the_first()
    ensures
        active_after(active_after(false, QuickEvent::Shortcut), QuickEvent::Shortcut) == false,
        layer_change(false, QuickEvent::Shortcut) is Raised,
        layer_change(active_after(false, QuickEvent::Shortcut), QuickEvent::Shortcut) is Restored,
        layer_change(
            active_after(active_after(false, QuickEvent::Shortcut), QuickEvent::Shortcut),
            QuickEvent::Blur,
        ) is Same,
{
}

/// The state after a series of events.
pub open spec fn active_after_all(events: Seq<QuickEvent>) -> bool
    decreases events.len(),
{
    if events.len() == 0 {
        false
    } else {
        active_after(active_after_all(events.drop_last()), events.last())
    }
}

/// How often the window was raised less how often it was restored.
pub open spec fn raised_balance(events: Seq<QuickEvent>) -> int
    decreases events.len(),
{
    if events.len() == 0 {
        0
    } else {
        raised_balance(events.drop_last()) + match layer_change(
            active_after_all(events.drop_last()),
            events.last(),
        ) {
            LayerChange::Raised => 1int,
            LayerChange::Restored => -1int,
            LayerChange::Same => 0int,
        }
    }
}

/// Raising and restoring alternate: as long as a window that is up for a quick
/// note is not shown normally, it is raised exactly while it is up, so it never
/// stays above other windows by mistake.
pub proof fn raises_are_restored(events: Seq<QuickEvent>)
    requires
        forall|i: int|
            0 <= i < events.len() && events[i] == QuickEvent::ShownNormally ==> !active_after_all(
                #[trigger] events.take(i),
            ),
    ensures
        raised_balance(events) == if active_after_all(events) {
            1int
        } else {
            0int
        },
    decreases events.len(),
{
    if events.len() > 0 {
        let init = events.drop_last();
        assert forall|i: int|
            0 <= i < init.len() && init[i]
                == QuickEvent::ShownNormally implies !active_after_all(
            #[trigger] init.take(i),
        ) by {
            assert(init.take(i) == events.take(i));
        }
        raises_are_restored(init);
        assert(events.take(events.len() - 1) == init);
    }
}

/// What to do about the shortcut's binding.
#[derive(Debug)]
pub enum BindingPlan {
    /// The shortcut cannot be read: the old binding stays, and the user is told
    /// why.
    Keep(CommandError),
    /// Clear all bindings and bind the shortcut; where that fails, bind the
    /// fallback, if there is one.
    Replace { accelerator: String, hotkey: Hotkey, fallback: Option<(String, Hotkey)> },
}

/// The plan for binding a shortcut whose reading is `parsed`, with the previous
/// shortcut and its reading to fall back on.
pub fn plan_binding(
    accelerator: String,
    parsed: Result<Hotkey, CommandError>,
    previous: Option<(String, Result<Hotkey, CommandError>)>,
) -> (r: BindingPlan)
    ensures
        match parsed {
            Err(e) => r == BindingPlan::Keep(e),
            Ok(k) => r is Replace && r->Replace_accelerator == accelerator && r->Replace_hotkey
                == k && r->Replace_fallback == match previous {
                Some((s, Ok(p))) => Some((s, p)),
                _ => None,
            },
        },
{
    match parsed {
        Err(e) => BindingPlan::Keep(e),
        Ok(hotkey) => {
            let fallback = match previous {
                Some((s, Ok(p))) => Some((s, p)),
                _ => None,
            };
            BindingPlan::Replace { accelerator, hotkey, fallback }
        },
    }
}

/// The plan for binding the shortcut in force. It is read before any binding is
/// cleared, so an unreadable one leaves the old binding alone.
pub fn register_quick_add_shortcut(
    store: &Store,
    platform: Platform,
    previous: Option<String>,
) -> (r: BindingPlan)
    ensures
        exists|macos: bool|
            match #[trigger] hotkey_of(
                effective_shortcut(store@.data.quick_add_shortcut, platform),
                macos,
            ) {
                Err(e) => r is Keep && r->Keep_0 is InvalidShortcut
                    && r->Keep_0->InvalidShortcut_accelerator@ == effective_shortcut(
                    store@.data.quick_add_shortcut,
                    platform,
                ) && r->Keep_0->InvalidShortcut_reason@ == e,
                Ok(k) => r is Replace && r->Replace_accelerator@ == effective_shortcut(
                    store@.data.quick_add_shortcut,
                    platform,
                ) && r->Replace_hotkey.mods == k.0 && r->Replace_hotkey.id == k.1,
            },
        r is Replace ==> match previous {
            Some(s) => exists|macos: bool|
                match #[trigger] hotkey_of(s@, macos) {
                    Ok(k) => r->Replace_fallback is Some && r->Replace_fallback.unwrap().0@ == s@
                        && r->Replace_fallback.unwrap().1.mods == k.0
                        && r->Replace_fallback.unwrap().1.id == k.1,
                    Err(_) => r->Replace_fallback is None,
                },
            None => r->Replace_fallback is None,
        },
{
    let accelerator = store.quick_add_shortcut(platform);
    let parsed = parse_shortcut(accelerator.as_str());
    let previous = match previous {
        Some(s) => {
            let p = parse_shortcut(s.as_str());
            Some((s, p))
        },
        None => None,
    };
    plan_binding(accelerator, parsed, previous)
}

/// Calling the window up takes five actions: the application in front is
/// remembered before the window is lifted, shown and focused, and the front end
/// is told last.
pub proof fn calling_up_takes_five_actions()
    ensures
        show_actions().len() == 5,
        show_actions()[0] == WindowAction::SavePreviousApp,
        show_actions()[1] == WindowAction::RaiseLevel,
        show_actions()[2] == WindowAction::Show,
        show_actions()[3] == WindowAction::Focus,
        show_actions()[4] == WindowAction::AnnounceQuickAdd,
{
}

/// Lowering puts a window that is up in the layer of the given pin mode, and does
/// nothing to one that is not.
pub proof fn only_raised_windows_are_lowered(mode: PinMode)
    ensures
        lower_actions(false, mode).len() == 0,
        lower_actions(true, mode).len() == 1,
        lower_actions(true, mode)[0] == WindowAction::RestoreLevel(mode),
{
}

/// Hiding is done to each window that there is, the floating one first. Only after
/// that is a window that was up lowered to the layer of the pin mode, and the user
/// taken back last.
pub proof fn windows_are_hidden_before_they_sink(
    active: bool,
    has_window: bool,
    has_preview: bool,
    mode: PinMode,
)
    ensures
        ({
            let r = hide_actions(active, has_window, has_preview, mode);
            let windows = (if has_window {
                1int
            } else {
                0int
            }) + (if has_preview {
                1int
            } else {
                0int
            });
            &&& has_window ==> r[0] == WindowAction::Hide
            &&& has_preview ==> r[windows - 1] == WindowAction::ClosePreview
            &&& !active ==> r.len() == windows
            &&& active ==> {
                &&& r.len() == windows + 2
                &&& r[windows] == WindowAction::RestoreLevel(mode)
                &&& r[windows + 1] == WindowAction::ActivatePreviousApp
            }
        }),
{
}

/// The window is up after an event exactly where that is the shortcut, pressed
/// while the window was not up.
pub proof fn only_the_shortcut_calls_up(active: bool, event: QuickEvent)
    ensures
        active_after(active, event) <==> event == QuickEvent::Shortcut && !active,
{
}

/// What each event does: the shortcut calls the window up, or lowers it and takes
/// the user back; losing the focus only lowers it; being shown plainly does not
/// move it.
pub proof fn events_do_what_they_are_for(
    active: bool,
    has_preview: bool,
    mode: PinMode,
)
    ensures
        ({
            let pressed = event_actions(active, QuickEvent::Shortcut, has_preview, mode);
            let left = event_actions(active, QuickEvent::Blur, has_preview, mode);
            let hidden = event_actions(active, QuickEvent::Hidden, has_preview, mode);
            let shown = event_actions(active, QuickEvent::ShownNormally, has_preview, mode);
            &&& !active ==> pressed.len() == 5 && pressed[0] == WindowAction::SavePreviousApp
                && pressed[1] == WindowAction::RaiseLevel && pressed[2] == WindowAction::Show
                && pressed[3] == WindowAction::Focus && pressed[4]
                == WindowAction::AnnounceQuickAdd
            &&& active ==> pressed =~= seq![
                WindowAction::RestoreLevel(mode),
                WindowAction::ActivatePreviousApp,
            ]
            &&& active ==> left =~= seq![WindowAction::RestoreLevel(mode)]
            &&& !active ==> left.len() == 0
            &&& hidden.len() > 0 && hidden[0] == WindowAction::Hide
            &&& has_preview ==> hidden.len() > 1 && hidden[1] == WindowAction::ClosePreview
            &&& active ==> hidden[hidden.len() - 2] == WindowAction::RestoreLevel(mode)
                && hidden[hidden.len() - 1] == WindowAction::ActivatePreviousApp
            &&& shown =~= seq![WindowAction::Show, WindowAction::Focus]
        }),
{
}

} // verus!
