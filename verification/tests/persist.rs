//! Writing the document.
use usticky::path::DataPath;
use usticky::persist::{
    backup_corrupt_file, backup_path, failure_context, persist_plan, resolve_data_path, DiskRecord, GeomAction,
    GeomSaver, GeomSignal, PersistStage, PersistStep, GEOM_QUIET_MS,
};

fn path(names: &[&str]) -> DataPath {
    DataPath {
        anchor: "/".to_string(),
        names: names.iter().map(|n| n.to_string()).collect(),
    }
}

fn run(p: &DataPath, unix: bool, fail: Option<PersistStage>) -> (Vec<PersistStage>, PersistStep) {
    let plan = persist_plan(p, unix);
    let mut step = plan.begin();
    let mut done = vec![];
    while let PersistStep::Do(stage) = step {
        done.push(stage);
        step = plan.next(stage, Some(stage) != fail);
    }
    (done, step)
}

#[test]
fn the_document_has_its_place() {
    let p = resolve_data_path(Some(path(&["app"])), Some(path(&["data"]))).unwrap();
    assert_eq!(p.names, vec!["app", "todos.json"]);
    let p = resolve_data_path(None, Some(path(&["data"]))).unwrap();
    assert_eq!(p.names, vec!["data", "usticky", "todos.json"]);
    assert!(resolve_data_path(None, None).is_none());
}

#[test]
fn backups_are_named_by_the_time() {
    let p = backup_path(&path(&["d", "todos.json"]), 1_700_000_000);
    assert_eq!(p.names, vec!["d", "todos.json.bak.1700000000"]);
    for ts in [0i64, 9, 10, -1, -42, i64::MIN, i64::MAX] {
        let p = backup_path(&path(&["todos.json"]), ts);
        assert_eq!(p.names[0], format!("todos.json.bak.{ts}"));
    }
}

#[test]
fn a_document_is_set_aside_under_the_present_time() {
    let p = backup_corrupt_file(&path(&["d", "todos.json"]));
    let ts = p.names[1].strip_prefix("todos.json.bak.").unwrap();
    assert!(ts.parse::<i64>().unwrap() > 1_500_000_000);
    assert!(ts.parse::<i64>().unwrap() < 100_000_000_000);
    assert_ne!(
        backup_path(&path(&["todos.json"]), 1).names,
        backup_path(&path(&["todos.json"]), 2).names
    );
}

#[test]
fn extensions_are_replaced_as_the_system_does() {
    for name in ["todos.json", "a.b.c", ".hidden", "plain", "x."] {
        let ours = path(&["d", name]).with_extension("json.tmp");
        let std = std::path::PathBuf::from(format!("/d/{name}")).with_extension("json.tmp");
        assert_eq!(
            std.file_name().unwrap().to_str().unwrap(),
            ours.names[1],
            "{}",
            name
        );
    }
    assert_eq!(path(&["d", ".."]).with_extension("x").names, vec!["d", ".."]);
    assert!(path(&[]).with_extension("x").names.is_empty());
    assert_eq!(path(&["d"]).parent().unwrap().names.len(), 0);
    assert!(path(&[]).parent().is_none());
}

#[test]
fn a_write_replaces_the_document_last() {
    let p = path(&["d", "todos.json"]);
    assert_eq!(
        persist_plan(&p, true).tmp.names,
        vec!["d", "todos.json.tmp"]
    );
    let (done, end) = run(&p, true, None);
    assert_eq!(end, PersistStep::Done);
    assert_eq!(
        done,
        vec![
            PersistStage::CreateDir,
            PersistStage::OpenTmp,
            PersistStage::Serialize,
            PersistStage::WriteTmp,
            PersistStage::SyncTmp,
            PersistStage::Rename,
            PersistStage::SyncDir
        ]
    );
    let (done, end) = run(&p, false, None);
    assert_eq!((done.len(), end), (6, PersistStep::Done));
    let (done, _) = run(&path(&[]), true, None);
    assert_eq!(done[0], PersistStage::OpenTmp);
    assert_eq!(done.len(), 5);
}

#[test]
fn a_failed_write_leaves_the_document() {
    let p = path(&["d", "todos.json"]);
    for stage in [
        PersistStage::CreateDir,
        PersistStage::OpenTmp,
        PersistStage::Serialize,
        PersistStage::WriteTmp,
        PersistStage::SyncTmp,
    ] {
        let (done, end) = run(&p, true, Some(stage));
        assert_eq!(end, PersistStep::Failed(stage));
        assert!(!done.contains(&PersistStage::Rename));
    }
    let (_, end) = run(&p, true, Some(PersistStage::Rename));
    assert_eq!(end, PersistStep::Failed(PersistStage::Rename));
    let (_, end) = run(&p, true, Some(PersistStage::SyncDir));
    assert_eq!(end, PersistStep::Done);
    assert_eq!(failure_context(PersistStage::Rename), "atomic rename");
    assert_eq!(failure_context(PersistStage::SyncTmp), "fsync tmp");
    assert_eq!(failure_context(PersistStage::CreateDir), "create data dir");
    assert_eq!(failure_context(PersistStage::OpenTmp), "create tmp file");
    assert_eq!(failure_context(PersistStage::Serialize), "serialize");
    assert_eq!(failure_context(PersistStage::WriteTmp), "write tmp");
}

#[test]
fn an_older_document_gives_way() {
    let mut disk = DiskRecord::new();
    for (generation, admitted) in [(3u64, true), (2, false), (3, true), (7, true), (5, false)] {
        assert_eq!(disk.admits(generation), admitted);
        if admitted {
            disk.record(generation);
        }
    }
    assert_eq!(disk.written, 7);
}

#[test]
fn moves_are_saved_once_the_window_rests() {
    assert_eq!(GEOM_QUIET_MS, 200);
    let mut saver = GeomSaver::Idle;
    assert_eq!(saver.on(GeomSignal::Quiet), GeomAction::Wait);
    let mut saves = 0;
    for _ in 0..60 {
        assert_eq!(saver.on(GeomSignal::Changed), GeomAction::StartQuietPeriod);
    }
    for _ in 0..3 {
        if saver.on(GeomSignal::Quiet) == GeomAction::Save {
            saves += 1;
        }
    }
    assert_eq!(saves, 1);
    assert_eq!(saver, GeomSaver::Idle);
}
