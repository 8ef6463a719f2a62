//! The commands of the front end.
use usticky::clipboard::{ClipboardContent, ClipboardImage};
use usticky::commands::{
    accept_shortcut, add_todo, choose_image_title, delete_todo, finish_paste, get_app_locale,
    get_attachments_dir, get_pin_mode, get_quick_add_shortcut, get_todos, parse_shortcut,
    parse_status, paste_from_clipboard, purge_attachment, reorder_todos, restore_todo,
    set_app_locale, set_floating_hover_raise, set_pin_mode_core, set_quick_add_shortcut,
    settle_restore, settle_shortcut, update_todo, validate_title, PasteStep,
};
use usticky::errors::{CommandError, Wording};
use usticky::external::Hotkey;
use usticky::path::DataPath;
use usticky::platform::Platform;
use usticky::store::Store;
use usticky::todo::{PinMode, StoreData, Todo, TodoStatus};

fn empty() -> Store {
    Store::from_data(StoreData::default(), None)
}

fn kept() -> Store {
    Store::from_data(
        StoreData::default(),
        Some(DataPath {
            anchor: "/".to_string(),
            names: vec!["d".to_string(), "todos.json".to_string()],
        }),
    )
}

fn titles(s: &Store) -> Vec<String> {
    s.todos().iter().map(|t| t.title.clone()).collect()
}

fn png() -> ClipboardImage {
    ClipboardImage {
        data: vec![1, 2, 3],
        ext: "png",
        mime: "image/png",
        width: Some(4),
        height: Some(5),
        name: Some("  shot  ".to_string()),
    }
}

fn key(e: &CommandError) -> &'static str {
    match e.wording() {
        Wording::Key(k) => k,
        Wording::Text(t) => t,
        _ => "",
    }
}

#[test]
fn titles_are_trimmed_and_bounded() {
    assert_eq!(validate_title("  a b\u{3000}\n").unwrap(), "a b");
    assert!(matches!(
        validate_title(" \t\u{a0}"),
        Err(CommandError::EmptyTitle)
    ));
    assert!(matches!(validate_title(""), Err(CommandError::EmptyTitle)));
    let longest = "字".repeat(114514);
    assert_eq!(validate_title(&longest).unwrap(), longest);
    let too_long = "字".repeat(114515);
    assert!(matches!(
        validate_title(&too_long),
        Err(CommandError::TooLong)
    ));
    let padded = format!("  {longest}  ");
    assert_eq!(validate_title(&padded).unwrap(), longest);
}

#[test]
fn a_valid_title_stays_as_it_is() {
    let t = validate_title("  x ").unwrap();
    assert_eq!(validate_title(&t).unwrap(), t);
}

#[test]
fn trimming_agrees_with_unicode_white_space() {
    for n in 0..0x3100u32 {
        if let Some(c) = char::from_u32(n) {
            let s = format!("{c}x{c}");
            let expected = s.trim().to_string();
            assert_eq!(validate_title(&s).unwrap(), expected, "{:x}", n);
        }
    }
}

#[test]
fn statuses_are_known_by_name() {
    assert_eq!(parse_status("pending").unwrap(), TodoStatus::Pending);
    assert_eq!(parse_status("done").unwrap(), TodoStatus::Done);
    match parse_status("Done") {
        Err(CommandError::InvalidStatus(s)) => assert_eq!(s, "Done"),
        _ => panic!("expected an invalid status"),
    }
}

#[test]
fn adding_checks_the_title() {
    let mut s = empty();
    let t = add_todo(&mut s, "  buy milk ").unwrap();
    assert_eq!(t.title, "buy milk");
    assert!(add_todo(&mut s, "   ").is_err());
    assert_eq!(titles(&s), vec!["buy milk"]);
    assert_eq!(get_todos(&s).todos.len(), 1);
}

#[test]
fn editing_checks_title_before_status_before_id() {
    let mut s = empty();
    let id = add_todo(&mut s, "a").unwrap().id;
    let bad = update_todo(
        &mut s,
        "ghost",
        Some(" ".to_string()),
        Some("nope".to_string()),
    );
    assert!(matches!(bad, Err(CommandError::EmptyTitle)));
    let bad = update_todo(&mut s, "ghost", None, Some("nope".to_string()));
    assert!(matches!(bad, Err(CommandError::InvalidStatus(_))));
    let bad = update_todo(&mut s, "ghost", None, None);
    assert!(matches!(bad, Err(CommandError::NotFound)));
    let same = update_todo(&mut s, &id, None, None).unwrap();
    assert!(!same.changed);
    assert_eq!(same.todo.title, "a");
    assert_eq!(s.generation(), 1);
    let done = update_todo(
        &mut s,
        &id,
        Some(" b ".to_string()),
        Some("done".to_string()),
    )
    .unwrap();
    assert!(done.changed);
    assert_eq!(done.todo.title, "b");
    assert_eq!(done.todo.status, TodoStatus::Done);
}

#[test]
fn a_failed_restoration_is_taken_back() {
    let mut s = empty();
    add_todo(&mut s, "a").unwrap();
    let id = add_todo(&mut s, "b").unwrap().id;
    let gone = delete_todo(&mut s, &id).unwrap();
    assert!(matches!(
        delete_todo(&mut s, &id),
        Err(CommandError::NotFound)
    ));
    let back = restore_todo(&mut s, gone.clone()).unwrap();
    assert!(back.inserted);
    assert_eq!(titles(&s), vec!["a", "b"]);
    let again = restore_todo(&mut s, gone.clone()).unwrap();
    assert!(!again.inserted);
    match settle_restore(&mut s, back.todo, Some("disk full".to_string())) {
        Err(CommandError::RestoreFailed(e)) => assert_eq!(e, "disk full"),
        _ => panic!("expected a failed restoration"),
    }
    assert_eq!(titles(&s), vec!["a"]);
    let back = restore_todo(&mut s, gone).unwrap();
    let t: Todo = settle_restore(&mut s, back.todo, None).unwrap();
    assert_eq!(t.title, "b");
    assert_eq!(titles(&s), vec!["a", "b"]);
}

#[test]
fn only_plain_names_are_purged() {
    let s = kept();
    let p = purge_attachment(&s, "x.png").unwrap().unwrap();
    assert_eq!(p.names, vec!["d", "attachments", "x.png"]);
    for bad in ["", "a/b", "a\\b", "..", "a..b", "C:x", "a\0b"] {
        assert!(
            matches!(
                purge_attachment(&s, bad),
                Err(CommandError::InvalidAttachmentName)
            ),
            "{}",
            bad
        );
    }
    assert!(purge_attachment(&empty(), "x.png").unwrap().is_none());
}

#[test]
fn reordering_through_the_command() {
    let mut s = empty();
    let a = add_todo(&mut s, "a").unwrap().id;
    let b = add_todo(&mut s, "b").unwrap().id;
    reorder_todos(&mut s, &[b.clone(), a.clone()]).unwrap();
    assert_eq!(titles(&s), vec!["b", "a"]);
    assert!(matches!(
        reorder_todos(&mut s, &[a]),
        Err(CommandError::NotOneSection)
    ));
}

#[test]
fn only_offered_locales_are_taken() {
    let mut s = empty();
    assert_eq!(get_app_locale(&s, "en-US".to_string()), "en-US");
    assert!(matches!(
        set_app_locale(&mut s, "fr"),
        Err(CommandError::UnsupportedLocale)
    ));
    set_app_locale(&mut s, "zh-CN").unwrap();
    assert_eq!(get_app_locale(&s, "en".to_string()), "zh-CN");
    set_app_locale(&mut s, "en").unwrap();
    assert_eq!(s.locale(), Some("en"));
}

#[test]
fn pin_modes_are_chosen_by_name() {
    let mut s = empty();
    assert_eq!(get_pin_mode(&s), "pin_bottom");
    assert_eq!(set_floating_hover_raise(&s, true), Some(true));
    assert_eq!(
        set_pin_mode_core(&mut s, "pin_top").unwrap(),
        PinMode::PinTop
    );
    assert_eq!(get_pin_mode(&s), "pin_top");
    assert_eq!(set_floating_hover_raise(&s, true), None);
    match set_pin_mode_core(&mut s, "sideways") {
        Err(CommandError::InvalidPinMode(m)) => assert_eq!(m, "sideways"),
        _ => panic!("expected an invalid pin mode"),
    }
    assert_eq!(get_pin_mode(&s), "pin_top");
}

#[test]
fn shortcuts_are_read_by_the_key_parser() {
    let k = parse_shortcut("Ctrl+Shift+Space").unwrap();
    assert_eq!(k.mods, 0x208);
    let k2 = parse_shortcut("alt + super+K").unwrap();
    assert_eq!(k2.mods, 0x2001);
    assert_ne!(k.id, k2.id);
    assert_eq!(parse_shortcut("F12").unwrap().mods, 0);
    match parse_shortcut("Ctrl+") {
        Err(CommandError::InvalidShortcut {
            accelerator,
            reason,
        }) => {
            assert_eq!(accelerator, "Ctrl+");
            assert_eq!(reason, "Found empty token while parsing hotkey: Ctrl+");
        }
        _ => panic!("expected an unreadable shortcut"),
    }
}

#[test]
fn a_shortcut_needs_a_modifier() {
    let mut s = empty();
    assert!(matches!(
        set_quick_add_shortcut(&mut s, "F12", Platform::Linux),
        Err(CommandError::ShortcutNoModifier)
    ));
    assert!(matches!(
        set_quick_add_shortcut(&mut s, "Shift+A", Platform::Linux),
        Err(CommandError::ShortcutNoModifier)
    ));
    assert!(matches!(
        set_quick_add_shortcut(&mut s, "Ctrl+Nope", Platform::Linux),
        Err(CommandError::InvalidShortcut { .. })
    ));
    assert_eq!(s.generation(), 0);
    let previous = set_quick_add_shortcut(&mut s, "Alt+N", Platform::Linux).unwrap();
    assert_eq!(previous, "Ctrl+Shift+Space");
    assert_eq!(get_quick_add_shortcut(&s, Platform::Linux), "Alt+N");
}

#[test]
fn each_strong_modifier_counts() {
    for mods in [0x1u32, 0x8, 0x40, 0x2000, 0x2049, 0x201] {
        let mut s = empty();
        let parsed = Ok(Hotkey { mods, id: 1 });
        assert!(accept_shortcut(&mut s, "x", parsed, Platform::MacOs).is_ok());
    }
    for mods in [0u32, 0x200, 0x2, 0x4] {
        let mut s = empty();
        let parsed = Ok(Hotkey { mods, id: 1 });
        assert!(accept_shortcut(&mut s, "x", parsed, Platform::MacOs).is_err());
    }
}

#[test]
fn a_shortcut_that_is_not_written_is_taken_back() {
    let mut s = empty();
    let previous = set_quick_add_shortcut(&mut s, "Alt+N", Platform::MacOs).unwrap();
    match settle_shortcut(&mut s, previous, Some("no space".to_string())) {
        Err(CommandError::PersistFailed(e)) => assert_eq!(e, "no space"),
        _ => panic!("expected a failed write"),
    }
    assert_eq!(
        get_quick_add_shortcut(&s, Platform::MacOs),
        "Cmd+Shift+Space"
    );
    let previous = set_quick_add_shortcut(&mut s, "Alt+N", Platform::MacOs).unwrap();
    settle_shortcut(&mut s, previous, None).unwrap();
    assert_eq!(get_quick_add_shortcut(&s, Platform::MacOs), "Alt+N");
}

#[test]
fn pasting_text_makes_a_todo() {
    let mut s = empty();
    let content = ClipboardContent::Text("  line\nline ".to_string());
    match paste_from_clipboard(&mut s, content) {
        PasteStep::Pasted(o) => {
            assert_eq!(o.kind, "text");
            assert_eq!(o.title, "line\nline");
        }
        _ => panic!("expected a paste"),
    }
    assert_eq!(titles(&s), vec!["line\nline"]);
    let content = ClipboardContent::Text("字".repeat(114515));
    assert!(matches!(
        paste_from_clipboard(&mut s, content),
        PasteStep::Failed(CommandError::TooLong)
    ));
    assert!(matches!(
        paste_from_clipboard(&mut s, ClipboardContent::Empty),
        PasteStep::Failed(CommandError::EmptyClipboard)
    ));
}

#[test]
fn pasting_an_image_goes_through_a_file() {
    let mut s = kept();
    let pending = match paste_from_clipboard(&mut s, ClipboardContent::Image(png())) {
        PasteStep::WriteImage(p) => p,
        _ => panic!("expected an image to write"),
    };
    assert_eq!(s.generation(), 0);
    assert_eq!(pending.dir.names, vec!["d", "attachments"]);
    assert_eq!(pending.path.names[2], pending.file);
    assert!(pending.file.ends_with(".png"));
    assert_eq!(pending.file.len(), 40);
    let file = pending.file.clone();
    assert!(purge_attachment(&s, &file).is_ok());
    let o = finish_paste(&mut s, pending, None).unwrap();
    assert_eq!((o.kind.as_str(), o.title.as_str()), ("image", "shot"));
    let a = s.todos()[0].attachment.clone().unwrap();
    assert_eq!(
        (a.file.clone(), a.mime, a.width, a.height),
        (file, "image/png".to_string(), Some(4), Some(5))
    );
    assert!(s.purge_orphan_attachments(&[a.file.clone()]).is_empty());
    let id = s.todos()[0].id.clone();
    let gone = delete_todo(&mut s, &id).unwrap();
    assert!(s.todos().is_empty());
    let back = restore_todo(&mut s, gone).unwrap();
    assert!(back.inserted);
    assert_eq!(s.todos()[0].attachment.clone().unwrap().file, a.file);
    assert_eq!((s.todos()[0].id.clone(), s.todos()[0].order), (id, 0));
}

#[test]
fn an_image_needs_a_place_to_go() {
    let mut s = empty();
    assert!(matches!(
        paste_from_clipboard(&mut s, ClipboardContent::Image(png())),
        PasteStep::Failed(CommandError::NoAttachmentsDir)
    ));
    assert!(matches!(
        get_attachments_dir(&s),
        Err(CommandError::NoAttachmentsDir)
    ));
    assert_eq!(
        get_attachments_dir(&kept()).unwrap().names,
        vec!["d", "attachments"]
    );
}

#[test]
fn an_image_is_titled_by_what_was_typed_first() {
    let name = Some(" name ".to_string());
    let t = |typed: Option<&str>, name: &Option<String>| {
        choose_image_title(typed.map(|s| s.to_string()), name)
    };
    assert_eq!(t(Some(" typed "), &name).unwrap(), "typed");
    assert_eq!(t(Some("  "), &name).unwrap(), "name");
    assert_eq!(t(None, &name).unwrap(), "name");
    assert_eq!(t(None, &None).unwrap(), "");
    assert_eq!(t(None, &Some("   ".to_string())).unwrap(), "");
    let long = "x".repeat(114515);
    assert!(matches!(
        t(Some(&long), &None),
        Err(CommandError::TooLong)
    ));
}

#[test]
fn errors_are_worded() {
    assert_eq!(key(&CommandError::NotFound), "commands.error.not_found");
    assert_eq!(key(&CommandError::EmptyTitle), "commands.error.empty_title");
    assert_eq!(key(&CommandError::TooLong), "commands.error.too_long");
    assert_eq!(
        key(&CommandError::UnsupportedLocale),
        "commands.error.unsupported_locale"
    );
    assert_eq!(
        key(&CommandError::ShortcutNoModifier),
        "commands.error.shortcut_no_modifier"
    );
    assert_eq!(
        key(&CommandError::NoAttachmentsDir),
        "commands.error.no_attachments_dir"
    );
    assert_eq!(
        key(&CommandError::NoPrimaryMonitor),
        "commands.error.no_primary_monitor"
    );
    assert_eq!(
        key(&CommandError::NotOneSection),
        "reorder ids must be a permutation of a single section"
    );
    assert_eq!(key(&CommandError::EmptyClipboard), "empty");
    assert_eq!(key(&CommandError::NoDataPath), "data path not initialized");
    assert_eq!(
        key(&CommandError::InvalidAttachmentName),
        "invalid attachment file name"
    );
    assert_eq!(
        key(&CommandError::NoMonitor),
        "no monitor for floating window"
    );
    assert_eq!(
        key(&CommandError::NoFloatingWindow),
        "floating window missing"
    );
    match CommandError::InvalidStatus("x".to_string()).wording() {
        Wording::TextAnd(a, b) => assert_eq!((a, b.as_str()), ("invalid status: ", "x")),
        _ => panic!("expected a text and a value"),
    }
}
