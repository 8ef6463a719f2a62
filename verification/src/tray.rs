//! The tray icon's menu: what it holds, what its entries do, and how the
//! shortcut is shown in it.
use vstd::prelude::*;

use crate::platform::Platform;
use crate::store::{
    default_quick_add_shortcut, effective_pin_mode, effective_shortcut, Store,
};
use crate::text::{
    characters, folded, same_folded, same_ignoring_case, same_text, trim, trimmed,
};
use crate::todo::{pin_mode_named, PinMode};

verus! {

/// What an entry of the menu records.
#[verifier::ext_equal]
pub enum EntryView {
    Item(Seq<char>, Seq<char>),
    Check(Seq<char>, Seq<char>, bool),
    Shortcut(Seq<char>, Seq<char>, Seq<char>),
    Separator,
    Settings(Seq<char>),
}

/// An entry of the menu. Labels are keys of translated texts.
#[derive(Debug)]
pub enum TrayEntry {
    /// An item: its id and its label.
    Item(&'static str, &'static str),
    /// An item with a check mark that is shown or not.
    Check(&'static str, &'static str, bool),
    /// An item whose label is followed by a shortcut in brackets.
    Shortcut(&'static str, &'static str, String),
    Separator,
    /// The settings submenu: its label.
    Settings(&'static str),
}

impl View for TrayEntry {
    type V = EntryView;

    open spec fn view(&self) -> EntryView {
        match *self {
            TrayEntry::Item(id, label) => EntryView::Item(id@, label@),
            TrayEntry::Check(id, label, on) => EntryView::Check(id@, label@, on),
            TrayEntry::Shortcut(id, label, shown) => EntryView::Shortcut(id@, label@, shown@),
            TrayEntry::Separator => EntryView::Separator,
            TrayEntry::Settings(label) => EntryView::Settings(label@),
        }
    }
}

/// The views of a list of entries.
pub open spec fn entry_views(s: Seq<TrayEntry>) -> Seq<EntryView> {
    Seq::new(s.len(), |i: int| s[i]@)
}

/// The menu and its settings submenu.
#[derive(Debug)]
pub struct TrayMenu {
    pub top: Vec<TrayEntry>,
    pub settings: Vec<TrayEntry>,
}

/// The entries of the menu itself.
pub open spec fn top_entries() -> Seq<EntryView> {
    seq![
        EntryView::Item("toggle"@, "tray.toggle"@),
        EntryView::Item("reset_position"@, "tray.reset_position"@),
        EntryView::Separator,
        EntryView::Settings("tray.settings"@),
        EntryView::Separator,
        EntryView::Item("quit"@, "tray.quit"@),
    ]
}

/// The entries of the settings submenu: the pin modes, the one in force
/// checked, the settings panel, and the shortcut.
pub open spec fn settings_entries(mode: PinMode, shown: Seq<char>) -> Seq<EntryView> {
    seq![
        EntryView::Check("pin_top"@, "tray.pin.top"@, mode == PinMode::PinTop),
        EntryView::Check("pin_bottom"@, "tray.pin.bottom"@, mode == PinMode::PinBottom),
        EntryView::Check("normal"@, "tray.pin.normal"@, mode == PinMode::Normal),
        EntryView::Separator,
        EntryView::Item("settings"@, "tray.open_settings"@),
        EntryView::Separator,
        EntryView::Shortcut("change_shortcut"@, "tray.quick_add_change"@, shown),
    ]
}

/// The menu for a pin mode and a shortcut.
fn menu_for(mode: PinMode, shortcut: &str, platform: Platform) -> (r: TrayMenu)
    ensures
        entry_views(r.top@) == top_entries(),
        entry_views(r.settings@) == settings_entries(mode, shown_shortcut(shortcut@, platform)),
{
    let mut top: Vec<TrayEntry> = Vec::new();
    top.push(TrayEntry::Item("toggle", "tray.toggle"));
    top.push(TrayEntry::Item("reset_position", "tray.reset_position"));
    top.push(TrayEntry::Separator);
    top.push(TrayEntry::Settings("tray.settings"));
    top.push(TrayEntry::Separator);
    top.push(TrayEntry::Item("quit", "tray.quit"));
    let mut settings: Vec<TrayEntry> = Vec::new();
    settings.push(TrayEntry::Check("pin_top", "tray.pin.top", mode == PinMode::PinTop));
    settings.push(TrayEntry::Check("pin_bottom", "tray.pin.bottom", mode == PinMode::PinBottom));
    settings.push(TrayEntry::Check("normal", "tray.pin.normal", mode == PinMode::Normal));
    settings.push(TrayEntry::Separator);
    settings.push(TrayEntry::Item("settings", "tray.open_settings"));
    settings.push(TrayEntry::Separator);
    let shown = format_shortcut_for_display(shortcut, platform);
    settings.push(TrayEntry::Shortcut("change_shortcut", "tray.quick_add_change", shown));
    proof {
        assert(entry_views(top@) =~= top_entries());
        assert(entry_views(settings@) =~= settings_entries(
            mode,
            shown_shortcut(shortcut@, platform),
        ));
    }
    TrayMenu { top, settings }
}

/// The menu as things stand: the pin mode in force is checked, and the shortcut
/// in force is shown. Before the store is there, the defaults stand in.
pub fn build_tray_menu(store: Option<&Store>, platform: Platform) -> (r: TrayMenu)
    ensures
        entry_views(r.top@) == top_entries(),
        entry_views(r.settings@) == match store {
            Some(s) => settings_entries(
                effective_pin_mode(s@.data.pin_mode),
                shown_shortcut(
                    effective_shortcut(s@.data.quick_add_shortcut, platform),
                    platform,
                ),
            ),
            None => settings_entries(
                effective_pin_mode(None),
                shown_shortcut(effective_shortcut(None, platform), platform),
            ),
        },
{
    match store {
        Some(s) => menu_for(s.pin_mode(), s.quick_add_shortcut(platform).as_str(), platform),
        None => menu_for(
            PinMode::default(),
            default_quick_add_shortcut(platform).as_str(),
            platform,
        ),
    }
}

/// What an entry of the menu does.
#[derive(Debug, Clone, Copy, PartialEq, Eq, Structural)]
pub enum TrayAction {
    ToggleWindow,
    ResetPosition,
    OpenSettings,
    SetPinMode(PinMode),
    Quit,
    Nothing,
}

/// What the entry with a given id does. The shortcut is changed in the settings
/// panel, since a menu cannot catch keys.
pub open spec fn action_of(id: Seq<char>) -> TrayAction {
    if id == "toggle"@ {
        TrayAction::ToggleWindow
    } else if id == "reset_position"@ {
        TrayAction::ResetPosition
    } else if id == "settings"@ || id == "change_shortcut"@ {
        TrayAction::OpenSettings
    } else if pin_mode_named(id) is Some {
        TrayAction::SetPinMode(pin_mode_named(id).unwrap())
    } else if id == "quit"@ {
        TrayAction::Quit
    } else {
        TrayAction::Nothing
    }
}

/// What the entry with a given id does.
pub fn on_menu_event(id: &str) -> (r: TrayAction)
    ensures
        r == action_of(id@),
{
    if same_text(id, "toggle") {
        TrayAction::ToggleWindow
    } else if same_text(id, "reset_position") {
        TrayAction::ResetPosition
    } else if same_text(id, "settings") || same_text(id, "change_shortcut") {
        TrayAction::OpenSettings
    } else {
        match PinMode::from_str_opt(id) {
            Some(mode) => TrayAction::SetPinMode(mode),
            None => {
                if same_text(id, "quit") {
                    TrayAction::Quit
                } else {
                    TrayAction::Nothing
                }
            },
        }
    }
}

/// The id of an entry, if it has one.
pub open spec fn id_of(e: EntryView) -> Option<Seq<char>> {
    match e {
        EntryView::Item(id, _) => Some(id),
        EntryView::Check(id, _, _) => Some(id),
        EntryView::Shortcut(id, _, _) => Some(id),
        _ => None,
    }
}

/// Every entry of the menu that can be chosen does something; a checked pin
/// mode is the one in force, and choosing a pin mode's entry asks for that mode.
pub proof fn every_entry_acts(mode: PinMode, shown: Seq<char>)
    ensures
        forall|i: int|
            0 <= i < top_entries().len() && id_of(#[trigger] top_entries()[i]) is Some
                ==> action_of(id_of(top_entries()[i]).unwrap()) != TrayAction::Nothing,
        forall|i: int|
            0 <= i < settings_entries(mode, shown).len() && id_of(
                #[trigger] settings_entries(mode, shown)[i],
            ) is Some ==> action_of(id_of(settings_entries(mode, shown)[i]).unwrap())
                != TrayAction::Nothing,
        forall|i: int|
            0 <= i < settings_entries(mode, shown).len() ==> match #[trigger] settings_entries(
                mode,
                shown,
            )[i] {
                EntryView::Check(id, _, on) => on == (action_of(id) == TrayAction::SetPinMode(
                    mode,
                )),
                _ => true,
            },
{
    reveal_strlit("toggle");
    reveal_strlit("reset_position");
    reveal_strlit("settings");
    reveal_strlit("change_shortcut");
    reveal_strlit("quit");
    reveal_strlit("pin_top");
    reveal_strlit("pin_bottom");
    reveal_strlit("normal");
    assert("toggle"@.len() == 6 && "toggle"@[0] == 't');
    assert("normal"@.len() == 6 && "normal"@[0] == 'n');
    assert("reset_position"@.len() == 14);
    assert("settings"@.len() == 8);
    assert("change_shortcut"@.len() == 15);
    assert("quit"@.len() == 4);
    assert("pin_top"@.len() == 7);
    assert("pin_bottom"@.len() == 10);
}

/// What showing or hiding the floating window from the tray comes to.
#[derive(Debug, Clone, Copy, PartialEq, Eq, Structural)]
pub enum ToggleAction {
    Nothing,
    Hide,
    /// Show the window and give it the focus, in the layer that it is in and
    /// not for a quick note.
    ShowNormally,
}

/// The menu's toggle: hides a visible window and shows a hidden one plainly.
pub fn toggle_from_menu(has_window: bool, visible: bool) -> (r: ToggleAction)
    ensures
        r == if !has_window {
            ToggleAction::Nothing
        } else if visible {
            ToggleAction::Hide
        } else {
            ToggleAction::ShowNormally
        },
{
    if !has_window {
        ToggleAction::Nothing
    } else if visible {
        ToggleAction::Hide
    } else {
        ToggleAction::ShowNormally
    }
}

/// A click on the icon: only the release of the left button counts. It hides a
/// visible window and shows a hidden one plainly, since one that is up for a
/// quick note sinks as soon as it loses the focus.
pub fn toggle_from_icon(left: bool, released: bool, has_window: bool, visible: bool) -> (r:
    ToggleAction)
    ensures
        r == if !left || !released || !has_window {
            ToggleAction::Nothing
        } else if visible {
            ToggleAction::Hide
        } else {
            ToggleAction::ShowNormally
        },
{
    if !left || !released || !has_window {
        ToggleAction::Nothing
    } else if visible {
        ToggleAction::Hide
    } else {
        ToggleAction::ShowNormally
    }
}

/// Tells whether the menu may be built anew: not while it is open, where it
/// would be taken from under the pointer.
pub fn may_rebuild(menu_open: bool) -> (r: bool)
    ensures
        r == !menu_open,
{
    !menu_open
}

/// The parts of a text between the characters `c`.
pub open spec fn split(s: Seq<char>, c: char) -> Seq<Seq<char>>
    decreases s.len(),
{
    if s.len() == 0 {
        seq![Seq::empty()]
    } else {
        let r = split(s.drop_last(), c);
        if s.last() == c {
            r.push(Seq::empty())
        } else {
            r.drop_last().push(r.last().push(s.last()))
        }
    }
}

/// Whether a token differs from one of the four words at most in case.
pub open spec fn any_folded(
    t: Seq<char>,
    a: Seq<char>,
    b: Seq<char>,
    c: Seq<char>,
    d: Seq<char>,
) -> bool {
    same_folded(t, a) || same_folded(t, b) || same_folded(t, c) || same_folded(t, d)
}

/// How a key of an accelerator is shown on a Mac: modifiers by their signs, any
/// other key by its name.
pub open spec fn key_sign(t: Seq<char>) -> Seq<char> {
    if any_folded(t, "cmd"@, "command"@, "super"@, "meta"@) || any_folded(
        t,
        "cmdorctrl"@,
        "cmdorcontrol"@,
        "commandorctrl"@,
        "commandorcontrol"@,
    ) {
        "⌘"@
    } else if same_folded(t, "ctrl"@) || same_folded(t, "control"@) {
        "⌃"@
    } else if same_folded(t, "shift"@) {
        "⇧"@
    } else if same_folded(t, "alt"@) || same_folded(t, "option"@) || same_folded(t, "opt"@) {
        "⌥"@
    } else {
        t
    }
}

/// The signs of a list of keys, one after the other.
pub open spec fn key_signs(parts: Seq<Seq<char>>) -> Seq<char>
    decreases parts.len(),
{
    if parts.len() == 0 {
        Seq::empty()
    } else {
        key_signs(parts.drop_last()) + key_sign(trimmed(parts.last()))
    }
}

/// How an accelerator is shown: by its signs on a Mac, as it stands elsewhere.
pub open spec fn shown_shortcut(s: Seq<char>, platform: Platform) -> Seq<char> {
    match platform {
        Platform::MacOs => key_signs(split(s, '+')),
        _ => s,
    }
}

fn is_one_of(t: &str, a: &str, b: &str, c: &str, d: &str) -> (r: bool)
    ensures
        r == any_folded(t@, a@, b@, c@, d@),
{
    same_ignoring_case(t, a) || same_ignoring_case(t, b) || same_ignoring_case(t, c)
        || same_ignoring_case(t, d)
}

fn sign_of(t: &str) -> (r: String)
    ensures
        r@ == key_sign(t@),
{
    if is_one_of(t, "cmd", "command", "super", "meta") || is_one_of(
        t,
        "cmdorctrl",
        "cmdorcontrol",
        "commandorctrl",
        "commandorcontrol",
    ) {
        "⌘".to_owned()
    } else if same_ignoring_case(t, "ctrl") || same_ignoring_case(t, "control") {
        "⌃".to_owned()
    } else if same_ignoring_case(t, "shift") {
        "⇧".to_owned()
    } else if same_ignoring_case(t, "alt") || same_ignoring_case(t, "option")
        || same_ignoring_case(t, "opt") {
        "⌥".to_owned()
    } else {
        t.to_owned()
    }
}

/// How an accelerator is shown.
pub fn format_shortcut_for_display(s: &str, platform: Platform) -> (r: String)
    ensures
        r@ == shown_shortcut(s@, platform),
{
    match platform {
        Platform::MacOs => {},
        _ => {
            return s.to_owned();
        },
    }
    let chars = characters(s);
    let n: usize = chars.len();
    let mut out = String::new();
    let mut start: usize = 0;
    for i in 0..n
        invariant
            n == chars.len(),
            chars@ == s@,
            start <= i <= n,
            split(s@.take(i as int), '+').len() > 0,
            split(s@.take(i as int), '+').last() == s@.subrange(start as int, i as int),
            key_signs(split(s@.take(i as int), '+').drop_last()) == out@,
    {
        let ghost before = split(s@.take(i as int), '+');
        let ghost after = split(s@.take(i as int + 1), '+');
        proof {
            assert(s@.take(i as int + 1).drop_last() == s@.take(i as int));
            assert(s@.take(i as int + 1).last() == s@[i as int]);
        }
        if chars[i] == '+' {
            let part = trim(s.substring_char(start, i));
            let sign = sign_of(part.as_str());
            out.append(sign.as_str());
            proof {
                assert(after == before.push(Seq::empty()));
                assert(after.drop_last() == before);
                assert(s@.subrange(i as int + 1, i as int + 1) == Seq::<char>::empty());
            }
            start = i + 1;
        } else {
            proof {
                assert(after.drop_last() == before.drop_last());
                assert(s@.subrange(start as int, i as int).push(s@[i as int]) == s@.subrange(
                    start as int,
                    i as int + 1,
                ));
            }
        }
    }
    let part = trim(s.substring_char(start, n));
    let sign = sign_of(part.as_str());
    out.append(sign.as_str());
    proof {
        assert(s@.take(n as int) == s@);
    }
    out
}

/// The view of an entry records everything that it holds, and that of a list one
/// view for each entry, in order.
pub proof fn entry_views_are_whole(e: TrayEntry, s: Seq<TrayEntry>)
    ensures
        match e {
            TrayEntry::Item(id, label) => e@ == EntryView::Item(id@, label@),
            TrayEntry::Check(id, label, on) => e@ == EntryView::Check(id@, label@, on),
            TrayEntry::Shortcut(id, label, shown) => e@ == EntryView::Shortcut(
                id@,
                label@,
                shown@,
            ),
            TrayEntry::Separator => e@ is Separator,
            TrayEntry::Settings(label) => e@ == EntryView::Settings(label@),
        },
        entry_views(s).len() == s.len(),
        forall|i: int| 0 <= i < s.len() ==> #[trigger] entry_views(s)[i] == s[i]@,
{
}

/// The menu shows or hides the window, resets its place, opens the settings and
/// quits, in that order.
pub proof fn the_menu_has_six_entries()
    ensures
        top_entries().len() == 6,
        top_entries()[0] == EntryView::Item("toggle"@, "tray.toggle"@),
        top_entries()[1] == EntryView::Item("reset_position"@, "tray.reset_position"@),
        top_entries()[2] is Separator,
        top_entries()[3] == EntryView::Settings("tray.settings"@),
        top_entries()[4] is Separator,
        top_entries()[5] == EntryView::Item("quit"@, "tray.quit"@),
{
}

/// The settings list the three pin modes, of which just the one in force is
/// checked, then the settings panel, then the shortcut as it is shown.
pub proof fn the_settings_show_what_is_in_force(mode: PinMode, shown: Seq<char>)
    ensures
        ({
            let r = settings_entries(mode, shown);
            &&& r.len() == 7
            &&& r[0] == EntryView::Check("pin_top"@, "tray.pin.top"@, mode is PinTop)
            &&& r[1] == EntryView::Check("pin_bottom"@, "tray.pin.bottom"@, mode is PinBottom)
            &&& r[2] == EntryView::Check("normal"@, "tray.pin.normal"@, mode is Normal)
            &&& r[3] is Separator
            &&& r[4] == EntryView::Item("settings"@, "tray.open_settings"@)
            &&& r[5] is Separator
            &&& r[6] == EntryView::Shortcut(
                "change_shortcut"@,
                "tray.quick_add_change"@,
                shown,
            )
        }),
{
}

/// What each id of the menu does; every other text does nothing.
pub proof fn ids_do_what_they_say(id: Seq<char>)
    ensures
        action_of("toggle"@) == TrayAction::ToggleWindow,
        action_of("reset_position"@) == TrayAction::ResetPosition,
        action_of("settings"@) == TrayAction::OpenSettings,
        action_of("change_shortcut"@) == TrayAction::OpenSettings,
        action_of("pin_top"@) == TrayAction::SetPinMode(PinMode::PinTop),
        action_of("pin_bottom"@) == TrayAction::SetPinMode(PinMode::PinBottom),
        action_of("normal"@) == TrayAction::SetPinMode(PinMode::Normal),
        action_of("quit"@) == TrayAction::Quit,
        id != "toggle"@ && id != "reset_position"@ && id != "settings"@ && id
            != "change_shortcut"@ && id != "pin_top"@ && id != "pin_bottom"@ && id != "normal"@
            && id != "quit"@ ==> action_of(id) == TrayAction::Nothing,
{
    reveal_strlit("toggle");
    reveal_strlit("reset_position");
    reveal_strlit("settings");
    reveal_strlit("change_shortcut");
    reveal_strlit("quit");
    reveal_strlit("pin_top");
    reveal_strlit("pin_bottom");
    reveal_strlit("normal");
    assert("toggle"@.len() == 6 && "toggle"@[0] == 't');
    assert("normal"@.len() == 6 && "normal"@[0] == 'n');
    assert("reset_position"@.len() == 14);
    assert("settings"@.len() == 8);
    assert("change_shortcut"@.len() == 15);
    assert("quit"@.len() == 4);
    assert("pin_top"@.len() == 7);
    assert("pin_bottom"@.len() == 10);
}

/// A text without the character is one part, the text itself.
pub proof fn texts_without_it_are_one_part(s: Seq<char>, c: char)
    requires
        !s.contains(c),
    ensures
        split(s, c) == seq![s],
    decreases s.len(),
{
    if s.len() == 0 {
        assert(s =~= Seq::empty());
    } else {
        let init = s.drop_last();
        assert(s[s.len() - 1] == s.last());
        if init.contains(c) {
            let i = choose|i: int| 0 <= i < init.len() && init[i] == c;
            assert(s[i] == c);
        }
        texts_without_it_are_one_part(init, c);
        assert(split(init, c).last() == init);
        assert(init.push(s.last()) =~= s);
        assert(split(s, c) =~= seq![s]);
    }
}

/// The parts of two texts with the character between them are those of the one
/// and then those of the other.
pub proof fn parts_are_joined_by_the_character(a: Seq<char>, c: char, b: Seq<char>)
    ensures
        split(a + seq![c] + b, c) == split(a, c) + split(b, c),
    decreases b.len(),
{
    let s = a + seq![c] + b;
    if b.len() == 0 {
        assert(s =~= a.push(c));
        assert(s.drop_last() =~= a);
        assert(split(b, c) =~= seq![Seq::<char>::empty()]);
        assert(split(s, c) =~= split(a, c) + split(b, c));
    } else {
        let init = b.drop_last();
        parts_are_joined_by_the_character(a, c, init);
        lemma_split_has_parts(init, c);
        assert(s.drop_last() =~= a + seq![c] + init);
        assert(s.last() == b.last());
        let r = split(a, c) + split(init, c);
        assert(r.last() == split(init, c).last());
        assert(r.drop_last() =~= split(a, c) + split(init, c).drop_last());
        assert(split(s, c) =~= split(a, c) + split(b, c));
    }
}

proof fn lemma_split_has_parts(s: Seq<char>, c: char)
    ensures
        split(s, c).len() > 0,
    decreases s.len(),
{
    if s.len() > 0 {
        lemma_split_has_parts(s.drop_last(), c);
    }
}

proof fn lemma_signs_are_joined(a: Seq<Seq<char>>, b: Seq<Seq<char>>)
    ensures
        key_signs(a + b) == key_signs(a) + key_signs(b),
    decreases b.len(),
{
    if b.len() == 0 {
        assert(a + b =~= a);
        assert(key_signs(a) + key_signs(b) =~= key_signs(a));
    } else {
        assert((a + b).drop_last() =~= a + b.drop_last());
        assert((a + b).last() == b.last());
        lemma_signs_are_joined(a, b.drop_last());
        assert(key_signs(a + b) =~= key_signs(a) + key_signs(b));
    }
}

/// On a Mac a shortcut is shown key by key: a single key by the sign of its
/// trimmed name, and keys with a plus sign between them one after the other,
/// without it. Elsewhere a shortcut is shown as it stands.
pub proof fn shortcuts_are_shown_key_by_key(a: Seq<char>, b: Seq<char>)
    ensures
        !a.contains('+') ==> shown_shortcut(a, Platform::MacOs) == key_sign(trimmed(a)),
        shown_shortcut(a + seq!['+'] + b, Platform::MacOs) == shown_shortcut(a, Platform::MacOs)
            + shown_shortcut(b, Platform::MacOs),
        shown_shortcut(a, Platform::Windows) == a,
        shown_shortcut(a, Platform::Linux) == a,
{
    if !a.contains('+') {
        texts_without_it_are_one_part(a, '+');
        let parts = seq![a];
        assert(parts.drop_last() =~= Seq::empty());
        assert(key_signs(parts.drop_last()) =~= Seq::empty());
        assert(key_signs(parts) =~= key_sign(trimmed(a)));
    }
    parts_are_joined_by_the_character(a, '+', b);
    lemma_signs_are_joined(split(a, '+'), split(b, '+'));
}

proof fn lemma_words_differ(t: Seq<char>, a: Seq<char>, b: Seq<char>, k: int)
    requires
        a.len() != b.len() || (0 <= k < a.len() && folded(a[k]) != folded(b[k])),
        same_folded(t, a),
    ensures
        !same_folded(t, b),
{
    if a.len() == b.len() {
        assert(folded(t[k]) == folded(a[k]));
    }
}

/// The names of the modifiers are shown by their signs, in whatever case they are
/// written.
pub proof fn modifiers_are_shown_by_signs(t: Seq<char>)
    ensures
        same_folded(t, "cmd"@) || same_folded(t, "command"@) || same_folded(t, "super"@)
            || same_folded(t, "meta"@) ==> key_sign(t) == "⌘"@,
        same_folded(t, "cmdorctrl"@) || same_folded(t, "cmdorcontrol"@) || same_folded(
            t,
            "commandorctrl"@,
        ) || same_folded(t, "commandorcontrol"@) ==> key_sign(t) == "⌘"@,
        same_folded(t, "ctrl"@) || same_folded(t, "control"@) ==> key_sign(t) == "⌃"@,
        same_folded(t, "shift"@) ==> key_sign(t) == "⇧"@,
        same_folded(t, "alt"@) || same_folded(t, "option"@) || same_folded(t, "opt"@) ==> key_sign(
            t,
        ) == "⌥"@,
{
    reveal_strlit("cmd");
    reveal_strlit("command");
    reveal_strlit("super");
    reveal_strlit("meta");
    reveal_strlit("cmdorctrl");
    reveal_strlit("cmdorcontrol");
    reveal_strlit("commandorctrl");
    reveal_strlit("commandorcontrol");
    reveal_strlit("ctrl");
    reveal_strlit("control");
    reveal_strlit("shift");
    reveal_strlit("alt");
    reveal_strlit("option");
    reveal_strlit("opt");
    if same_folded(t, "ctrl"@) {
        lemma_words_differ(t, "ctrl"@, "meta"@, 0);
    }
    if same_folded(t, "control"@) {
        lemma_words_differ(t, "control"@, "command"@, 2);
    }
    if same_folded(t, "shift"@) {
        lemma_words_differ(t, "shift"@, "super"@, 1);
    }
    if same_folded(t, "alt"@) {
        lemma_words_differ(t, "alt"@, "cmd"@, 0);
    }
    if same_folded(t, "opt"@) {
        lemma_words_differ(t, "opt"@, "cmd"@, 0);
    }
}

/// A key that is no modifier is shown by its name.
pub proof fn other_keys_are_shown_by_name(t: Seq<char>)
    requires
        !same_folded(t, "cmd"@),
        !same_folded(t, "command"@),
        !same_folded(t, "super"@),
        !same_folded(t, "meta"@),
        !same_folded(t, "cmdorctrl"@),
        !same_folded(t, "cmdorcontrol"@),
        !same_folded(t, "commandorctrl"@),
        !same_folded(t, "commandorcontrol"@),
        !same_folded(t, "ctrl"@),
        !same_folded(t, "control"@),
        !same_folded(t, "shift"@),
        !same_folded(t, "alt"@),
        !same_folded(t, "option"@),
        !same_folded(t, "opt"@),
    ensures
        key_sign(t) == t,
{
}

} // verus!
