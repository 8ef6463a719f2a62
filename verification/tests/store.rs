//! The store: adding, deleting, restoring, sorting and its plain fields.
use usticky::path::DataPath;
use usticky::platform::Platform;
use usticky::store::{default_quick_add_shortcut, LoadAction, LoadOutcome, Store};
use usticky::todo::{
    PinMode, StoreData, Todo, TodoAttachment, TodoPriority, TodoStatus, WindowGeom,
};

fn todo(id: &str, status: TodoStatus, order: i32) -> Todo {
    Todo {
        id: id.to_string(),
        title: format!("title {id}"),
        status,
        priority: TodoPriority::P1,
        created_at: 10,
        updated_at: 20,
        due_at: Some(30),
        tags: vec!["tag".to_string()],
        order,
        attachment: None,
    }
}

fn store(todos: Vec<Todo>) -> Store {
    Store::from_data(
        StoreData {
            todos,
            ..StoreData::default()
        },
        None,
    )
}

fn path(names: &[&str]) -> DataPath {
    DataPath {
        anchor: "/".to_string(),
        names: names.iter().map(|n| n.to_string()).collect(),
    }
}

fn ids(store: &Store) -> Vec<String> {
    store.todos().iter().map(|t| t.id.clone()).collect()
}

fn image(file: &str) -> TodoAttachment {
    TodoAttachment {
        file: file.to_string(),
        mime: "image/png".to_string(),
        width: Some(3),
        height: None,
    }
}

#[test]
fn added_todos_have_fresh_ids_and_follow_each_other() {
    let mut s = store(vec![]);
    let a = s.add("a".to_string());
    let b = s.add_with_attachment("b".to_string(), Some(image("x.png")));
    assert_ne!(a.id, b.id);
    for t in [&a, &b] {
        let id: Vec<char> = t.id.chars().collect();
        assert_eq!(id.len(), 36);
        for (i, c) in id.iter().enumerate() {
            match i {
                8 | 13 | 18 | 23 => assert_eq!(*c, '-'),
                14 => assert_eq!(*c, '4'),
                19 => assert!(['8', '9', 'a', 'b'].contains(c)),
                _ => assert!(c.is_ascii_digit() || ('a'..='f').contains(c)),
            }
        }
        assert_eq!(t.created_at, t.updated_at);
        assert!(t.created_at > 1_500_000_000_000);
        assert_eq!(t.status, TodoStatus::Pending);
        assert_eq!(t.priority, TodoPriority::P2);
        assert_eq!(t.due_at, None);
        assert!(t.tags.is_empty());
    }
    assert_eq!((a.order, b.order), (0, 1));
    assert_eq!(b.attachment.unwrap().file, "x.png");
    assert_eq!(s.todos().len(), 2);
    assert_eq!(s.generation(), 2);
}

#[test]
fn deleting_hands_back_the_first_match() {
    let mut s = store(vec![
        todo("a", TodoStatus::Pending, 0),
        todo("b", TodoStatus::Pending, 1),
    ]);
    assert_eq!(s.delete("b").unwrap().title, "title b");
    assert!(s.delete("b").is_none());
    assert_eq!(ids(&s), vec!["a"]);
    assert_eq!(s.generation(), 1);
}

#[test]
fn a_deleted_todo_comes_back_in_its_place() {
    let mut s = store(vec![
        todo("a", TodoStatus::Pending, 0),
        todo("d", TodoStatus::Done, 0),
        todo("b", TodoStatus::Pending, 1),
        todo("c", TodoStatus::Pending, 2),
    ]);
    let b = s.delete("b").unwrap();
    let back = s.restore(b).unwrap();
    assert_eq!(back.title, "title b");
    assert_eq!(back.tags, vec!["tag"]);
    assert_eq!(ids(&s), vec!["a", "d", "b", "c"]);
    let c = s.delete("c").unwrap();
    s.restore(c).unwrap();
    assert_eq!(ids(&s), vec!["a", "d", "b", "c"]);
}

#[test]
fn a_todo_is_not_restored_twice() {
    let mut s = store(vec![todo("a", TodoStatus::Pending, 0)]);
    assert!(s.restore(todo("a", TodoStatus::Done, 5)).is_none());
    assert_eq!(s.todos()[0].status, TodoStatus::Pending);
    assert_eq!(s.generation(), 0);
}

#[test]
fn a_restored_attachment_keeps_a_safe_name_only() {
    let cases: Vec<(&str, Option<&str>)> = vec![
        ("ok.png", Some("ok.png")),
        ("../../etc/evil.JPG", Some("evil.JPG")),
        ("C:\\dir\\x.webp", Some("x.webp")),
        ("notes.txt", None),
        ("noext", None),
        ("dir/", None),
        ("x.jpeg", Some("x.jpeg")),
        ("x.gif", Some("x.gif")),
    ];
    for (given, kept) in cases {
        let mut s = store(vec![]);
        let mut t = todo("a", TodoStatus::Pending, 0);
        t.attachment = Some(image(given));
        let back = s.restore(t).unwrap();
        let file = back.attachment.map(|a| a.file);
        assert_eq!(file.as_deref(), kept, "{}", given);
    }
}

#[test]
fn sorting_is_stable() {
    let s = store(vec![
        todo("c", TodoStatus::Pending, 5),
        todo("x", TodoStatus::Done, 0),
        todo("a", TodoStatus::Pending, 1),
        todo("d", TodoStatus::Pending, 5),
        todo("b", TodoStatus::Pending, 1),
    ]);
    let sorted: Vec<String> = s
        .todos_sorted(TodoStatus::Pending)
        .into_iter()
        .map(|t| t.id)
        .collect();
    assert_eq!(sorted, vec!["a", "b", "c", "d"]);
    assert_eq!(s.todos_sorted(TodoStatus::Done).len(), 1);
}

#[test]
fn a_ranked_section_is_its_own_sort() {
    let mut s = store(vec![]);
    for t in ["a", "b", "c"] {
        s.add(t.to_string());
    }
    let first = s.todos()[0].id.clone();
    s.update(&first, None, Some(TodoStatus::Done)).unwrap();
    s.update(&first, None, Some(TodoStatus::Pending)).unwrap();
    let listed: Vec<String> = s.todos().iter().map(|t| t.title.clone()).collect();
    let sorted: Vec<String> = s
        .todos_sorted(TodoStatus::Pending)
        .into_iter()
        .map(|t| t.title)
        .collect();
    assert_eq!(listed, vec!["b", "c", "a"]);
    assert_eq!(sorted, listed);
}

#[test]
fn geometry_is_recorded_field_by_field() {
    let mut s = store(vec![]);
    assert_eq!(*s.last_window_geom(), WindowGeom::default());
    s.update_window_pos(Some(-5), None);
    s.update_window_size(None, Some(7));
    assert_eq!(
        *s.last_window_geom(),
        WindowGeom {
            x: Some(-5),
            y: None,
            width: None,
            height: Some(7)
        }
    );
    s.update_window_pos(None, Some(1));
    s.update_window_size(Some(2), None);
    assert_eq!(
        *s.last_window_geom(),
        WindowGeom {
            x: Some(-5),
            y: Some(1),
            width: Some(2),
            height: Some(7)
        }
    );
    assert_eq!(s.generation(), 4);
}

#[test]
fn choices_fall_back_to_defaults() {
    let mut s = store(vec![]);
    assert_eq!(s.pin_mode(), PinMode::PinBottom);
    assert_eq!(s.quick_add_shortcut(Platform::MacOs), "Cmd+Shift+Space");
    assert_eq!(s.quick_add_shortcut(Platform::Windows), "Ctrl+Shift+Space");
    assert_eq!(
        default_quick_add_shortcut(Platform::Linux),
        "Ctrl+Shift+Space"
    );
    assert_eq!(s.locale(), None);
    s.set_pin_mode(PinMode::Normal);
    s.set_quick_add_shortcut("Alt+X".to_string());
    s.set_locale("zh-CN".to_string());
    assert_eq!(s.pin_mode(), PinMode::Normal);
    assert_eq!(s.quick_add_shortcut(Platform::MacOs), "Alt+X");
    assert_eq!(s.locale(), Some("zh-CN"));
    assert_eq!(s.data_clone().pin_mode, Some(PinMode::Normal));
}

#[test]
fn pin_modes_are_known_by_name() {
    for m in [PinMode::PinTop, PinMode::PinBottom, PinMode::Normal] {
        assert_eq!(PinMode::from_str_opt(m.name()), Some(m));
    }
    assert_eq!(PinMode::from_str_opt("PinTop"), None);
    assert_eq!(PinMode::from_str_opt(""), None);
    assert_eq!(PinMode::default(), PinMode::PinBottom);
}

#[test]
fn attachments_live_beside_the_document() {
    let s = Store::from_data(
        StoreData::default(),
        Some(path(&["data", "usticky", "todos.json"])),
    );
    let dir = s.attachments_dir().unwrap();
    assert_eq!(dir.anchor, "/");
    assert_eq!(dir.names, vec!["data", "usticky", "attachments"]);
    assert!(store(vec![]).attachments_dir().is_none());
    assert!(Store::from_data(StoreData::default(), Some(path(&[])))
        .attachments_dir()
        .is_none());
    assert_eq!(
        s.data_path_clone().unwrap().names,
        vec!["data", "usticky", "todos.json"]
    );
}

#[test]
fn loading_starts_from_what_was_found() {
    let p = || path(&["d", "todos.json"]);
    let mut data = StoreData::default();
    data.todos.push(todo("a", TodoStatus::Done, 3));
    data.locale = Some("en".to_string());
    let (s, action) = Store::load_or_init(p(), LoadOutcome::Loaded(data));
    assert_eq!(ids(&s), vec!["a"]);
    assert_eq!(s.locale(), Some("en"));
    assert!(matches!(action, LoadAction::Nothing));
    let (s, action) = Store::load_or_init(p(), LoadOutcome::Corrupt);
    assert!(s.todos().is_empty());
    assert!(matches!(action, LoadAction::BackUp));
    let (s, action) = Store::load_or_init(p(), LoadOutcome::Missing);
    assert!(s.todos().is_empty());
    match action {
        LoadAction::CreateDir(dir) => assert_eq!(dir.names, vec!["d"]),
        _ => panic!("expected a directory to create"),
    }
    let (_, action) = Store::load_or_init(path(&[]), LoadOutcome::Missing);
    assert!(matches!(action, LoadAction::Nothing));
}

#[test]
fn a_write_carries_the_generation() {
    let mut s = Store::from_data(StoreData::default(), Some(path(&["todos.json"])));
    s.add("a".to_string());
    s.set_locale("en".to_string());
    let job = s.persist().unwrap();
    assert_eq!(job.generation, 2);
    assert_eq!(job.path.names, vec!["todos.json"]);
    assert_eq!(job.data.todos.len(), 1);
}

#[test]
fn snapshots_and_lookups_copy() {
    let s = store(vec![todo("a", TodoStatus::Pending, 0)]);
    let snap = s.snapshot();
    assert_eq!(snap.todos[0].title, "title a");
    assert!(snap.fetched_at > 1_500_000_000_000);
    assert_eq!(snap.clone().todos.len(), 1);
    let then = s.snapshot_at(-7);
    assert_eq!(then.fetched_at, -7);
    assert_eq!(then.todos[0].title, "title a");
    assert_eq!(s.find("a").unwrap().order, 0);
    assert!(s.find("b").is_none());
}

#[test]
fn left_over_files_are_found_and_live_ones_spared() {
    let mut t = todo("a", TodoStatus::Pending, 0);
    t.attachment = Some(image("live.png"));
    let s = store(vec![t, todo("b", TodoStatus::Done, 0)]);
    let files: Vec<String> = ["live.png", "dead.png", "..", "a/b.png", "gone.gif"]
        .iter()
        .map(|f| f.to_string())
        .collect();
    assert_eq!(
        s.purge_orphan_attachments(&files),
        vec!["dead.png", "gone.gif"]
    );
}

#[test]
fn whatever_is_done_the_list_stays_in_order() {
    let mut s = store(vec![]);
    for t in ["a", "b", "c", "d", "e"] {
        s.add(t.to_string());
    }
    let by_title = |s: &Store, t: &str| {
        s.todos()
            .iter()
            .find(|x| x.title == t)
            .map(|x| x.id.clone())
            .unwrap()
    };
    s.update(&by_title(&s, "b"), None, Some(TodoStatus::Done))
        .unwrap();
    s.update(&by_title(&s, "d"), None, Some(TodoStatus::Done))
        .unwrap();
    s.update(&by_title(&s, "b"), None, Some(TodoStatus::Pending))
        .unwrap();
    let order: Vec<String> = ["e", "b", "a", "c"]
        .iter()
        .map(|t| by_title(&s, t))
        .collect();
    s.reorder(&order).unwrap();
    let gone = s.delete(&by_title(&s, "a")).unwrap();
    s.add("f".to_string());
    s.restore(gone).unwrap();
    for status in [TodoStatus::Pending, TodoStatus::Done] {
        let listed: Vec<(String, i32)> = s
            .todos()
            .iter()
            .filter(|t| t.status == status)
            .map(|t| (t.title.clone(), t.order))
            .collect();
        let sorted: Vec<(String, i32)> = s
            .todos_sorted(status)
            .into_iter()
            .map(|t| (t.title, t.order))
            .collect();
        assert_eq!(listed, sorted);
        assert!(listed.windows(2).all(|w| w[0].1 < w[1].1));
    }
    let pending: Vec<String> = s
        .todos_sorted(TodoStatus::Pending)
        .into_iter()
        .map(|t| t.title)
        .collect();
    assert_eq!(pending, vec!["e", "b", "a", "c", "f"]);
}
