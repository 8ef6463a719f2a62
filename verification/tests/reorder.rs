//! Reordering and editing the todo list.
use usticky::store::{Store, StoreError};
use usticky::todo::{StoreData, Todo, TodoPriority, TodoStatus};

fn fresh_store(todos: Vec<Todo>) -> Store {
    Store::from_data(
        StoreData {
            todos,
            ..StoreData::default()
        },
        None,
    )
}

fn mk(id: &str, status: TodoStatus, order: i32) -> Todo {
    Todo {
        id: id.to_string(),
        title: id.to_string(),
        status,
        priority: TodoPriority::P2,
        created_at: 0,
        updated_at: 0,
        due_at: None,
        tags: vec![],
        order,
        attachment: None,
    }
}

fn ids(store: &Store) -> Vec<String> {
    store.todos().iter().map(|t| t.id.clone()).collect()
}

fn order(store: &Store, i: usize) -> i32 {
    store.todos()[i].order
}

#[test]
fn reorder_physically_reorders_vec() {
    let mut s = fresh_store(vec![
        mk("a", TodoStatus::Pending, 0),
        mk("b", TodoStatus::Pending, 1),
        mk("c", TodoStatus::Pending, 2),
    ]);
    let _ = s.reorder(&["c".into(), "a".into(), "b".into()]);
    assert_eq!(ids(&s), vec!["c", "a", "b"]);
    assert_eq!(order(&s, 0), 0);
    assert_eq!(order(&s, 1), 1);
    assert_eq!(order(&s, 2), 2);
}

#[test]
fn reorder_preserves_other_status_positions() {
    let mut s = fresh_store(vec![
        mk("a", TodoStatus::Pending, 0),
        mk("b", TodoStatus::Pending, 1),
        mk("c", TodoStatus::Done, 2),
        mk("d", TodoStatus::Done, 3),
    ]);
    let _ = s.reorder(&["d".into(), "c".into()]);
    assert_eq!(ids(&s), vec!["a", "b", "d", "c"]);
    assert_eq!(order(&s, 0), 0);
    assert_eq!(order(&s, 1), 1);
    assert_eq!(order(&s, 2), 0);
    assert_eq!(order(&s, 3), 1);
}

#[test]
fn reorder_no_op_when_ids_missing() {
    let mut s = fresh_store(vec![
        mk("a", TodoStatus::Pending, 0),
        mk("b", TodoStatus::Pending, 1),
    ]);
    let _ = s.reorder(&["z".into(), "x".into()]);
    assert_eq!(ids(&s), vec!["a", "b"]);
    assert_eq!(order(&s, 0), 0);
    assert_eq!(order(&s, 1), 1);
}

#[test]
fn reorder_partial_match_aborts() {
    let mut s = fresh_store(vec![
        mk("a", TodoStatus::Pending, 0),
        mk("b", TodoStatus::Pending, 1),
    ]);
    let _ = s.reorder(&["a".into(), "ghost".into()]);
    assert_eq!(ids(&s), vec!["a", "b"]);
}

#[test]
fn reorder_empty_is_noop() {
    let mut s = fresh_store(vec![mk("a", TodoStatus::Pending, 0)]);
    let _ = s.reorder(&[]);
    assert_eq!(ids(&s), vec!["a"]);
}

#[test]
fn reorder_no_updated_at_bump_when_position_unchanged() {
    let pinned = 1_700_000_000_000i64;
    let mut a = mk("a", TodoStatus::Pending, 0);
    let mut b = mk("b", TodoStatus::Pending, 1);
    a.updated_at = pinned;
    b.updated_at = pinned;
    let mut s = fresh_store(vec![a, b]);
    let _ = s.reorder(&["a".into(), "b".into()]);
    for t in s.todos() {
        assert_eq!(t.updated_at, pinned, "no-op reorder bumped updated_at");
    }
}

#[test]
fn reorder_when_section_at_array_end() {
    let mut s = fresh_store(vec![
        mk("a", TodoStatus::Pending, 0),
        mk("b", TodoStatus::Done, 1),
        mk("c", TodoStatus::Done, 2),
    ]);
    let _ = s.reorder(&["c".into(), "b".into()]);
    assert_eq!(ids(&s), vec!["a", "c", "b"]);
    assert_eq!(order(&s, 1), 0);
    assert_eq!(order(&s, 2), 1);
}

#[test]
fn reorder_real_data_pending_changes_array_order() {
    let mut s = fresh_store(vec![
        mk("26", TodoStatus::Pending, 0),
        mk("123", TodoStatus::Pending, 1),
        mk("5", TodoStatus::Pending, 3),
        mk("6", TodoStatus::Pending, 4),
        mk("9", TodoStatus::Done, 2),
        mk("10", TodoStatus::Done, 3),
        mk("2", TodoStatus::Done, 5),
        mk("3", TodoStatus::Done, 6),
        mk("4", TodoStatus::Done, 7),
        mk("1", TodoStatus::Pending, 5),
    ]);
    let _ = s.reorder(&[
        "123".into(),
        "5".into(),
        "26".into(),
        "6".into(),
        "1".into(),
    ]);
    assert_eq!(
        ids(&s),
        vec!["123", "5", "26", "6", "1", "9", "10", "2", "3", "4",]
    );
    let pending: Vec<&str> = s
        .todos()
        .iter()
        .filter(|t| t.status == TodoStatus::Pending)
        .map(|t| t.id.as_str())
        .collect();
    assert_eq!(pending, vec!["123", "5", "26", "6", "1"]);
    let done: Vec<&str> = s
        .todos()
        .iter()
        .filter(|t| t.status == TodoStatus::Done)
        .map(|t| t.id.as_str())
        .collect();
    assert_eq!(done, vec!["9", "10", "2", "3", "4"]);
}

#[test]
fn update_status_moves_todo_to_target_section_end() {
    let mut s = fresh_store(vec![
        mk("a", TodoStatus::Pending, 0),
        mk("b", TodoStatus::Done, 0),
        mk("c", TodoStatus::Done, 1),
    ]);
    let updated = s
        .update("a", None, Some(TodoStatus::Done))
        .unwrap()
        .unwrap();
    assert_eq!(updated.status, TodoStatus::Done);
    assert_eq!(updated.order, 2);
    assert_eq!(ids(&s), vec!["b", "c", "a"]);
    assert_eq!(s.todos()[2].id, "a");
    assert_eq!(order(&s, 2), 2);
}

#[test]
fn update_status_done_to_pending_moves() {
    let mut s = fresh_store(vec![
        mk("a", TodoStatus::Pending, 0),
        mk("b", TodoStatus::Pending, 1),
        mk("c", TodoStatus::Done, 0),
        mk("d", TodoStatus::Done, 1),
    ]);
    let updated = s
        .update("c", None, Some(TodoStatus::Pending))
        .unwrap()
        .unwrap();
    assert_eq!(updated.status, TodoStatus::Pending);
    assert_eq!(updated.order, 2);
    assert_eq!(ids(&s), vec!["a", "b", "d", "c"]);
    let pending: Vec<&str> = s
        .todos()
        .iter()
        .filter(|t| t.status == TodoStatus::Pending)
        .map(|t| t.id.as_str())
        .collect();
    assert_eq!(pending, vec!["a", "b", "c"]);
}

#[test]
fn update_title_only_does_not_move() {
    let mut s = fresh_store(vec![
        mk("a", TodoStatus::Pending, 0),
        mk("b", TodoStatus::Pending, 1),
    ]);
    let updated = s
        .update("a", Some("renamed".into()), None)
        .unwrap()
        .unwrap();
    assert_eq!(updated.title, "renamed");
    assert_eq!(updated.status, TodoStatus::Pending);
    assert_eq!(ids(&s), vec!["a", "b"]);
    assert_eq!(order(&s, 0), 0);
}

#[test]
fn update_status_noop_when_unchanged() {
    let mut s = fresh_store(vec![
        mk("a", TodoStatus::Pending, 0),
        mk("b", TodoStatus::Pending, 1),
    ]);
    let pinned_order = order(&s, 0);
    let updated = s
        .update("a", None, Some(TodoStatus::Pending))
        .unwrap()
        .unwrap();
    assert_eq!(updated.status, TodoStatus::Pending);
    assert_eq!(ids(&s), vec!["a", "b"]);
    assert_eq!(order(&s, 0), pinned_order);
}

#[test]
fn update_title_and_status_together() {
    let mut s = fresh_store(vec![
        mk("a", TodoStatus::Pending, 0),
        mk("b", TodoStatus::Done, 0),
    ]);
    let updated = s
        .update("a", Some("done item".into()), Some(TodoStatus::Done))
        .unwrap()
        .unwrap();
    assert_eq!(updated.status, TodoStatus::Done);
    assert_eq!(updated.title, "done item");
    assert_eq!(ids(&s), vec!["b", "a"]);
}

#[test]
fn update_chained_toggles_give_monotonic_order() {
    let mut s = fresh_store(vec![
        mk("a", TodoStatus::Pending, 0),
        mk("b", TodoStatus::Pending, 1),
        mk("c", TodoStatus::Pending, 2),
    ]);
    s.update("a", None, Some(TodoStatus::Done))
        .unwrap()
        .unwrap();
    s.update("a", None, Some(TodoStatus::Pending))
        .unwrap()
        .unwrap();
    let pending: Vec<i32> = s
        .todos()
        .iter()
        .filter(|t| t.status == TodoStatus::Pending)
        .map(|t| t.order)
        .collect();
    assert_eq!(pending, vec![1, 2, 3]);
}

#[test]
fn update_no_op_when_both_none() {
    let mut s = fresh_store(vec![mk("a", TodoStatus::Pending, 0)]);
    let pinned_order = order(&s, 0);
    let pinned_updated_at = s.todos()[0].updated_at;
    let res = s.update("a", None, None).unwrap();
    assert!(res.is_none(), "no-op update should return Ok(None)");
    assert_eq!(order(&s, 0), pinned_order);
    assert_eq!(s.todos()[0].updated_at, pinned_updated_at);
}

#[test]
fn update_no_op_with_unknown_id_errors() {
    let mut s = fresh_store(vec![mk("a", TodoStatus::Pending, 0)]);
    let res = s.update("ghost", None, None);
    assert!(
        res.is_err(),
        "unknown id + both None should error (not_found)"
    );
}

#[test]
fn reorder_rejects_partial_subset_of_section() {
    let mut s = fresh_store(vec![
        mk("a", TodoStatus::Pending, 0),
        mk("b", TodoStatus::Pending, 1),
        mk("c", TodoStatus::Pending, 2),
    ]);
    let res = s.reorder(&["a".into(), "b".into()]);
    assert!(res.is_err(), "subset of pending should error");
    assert_eq!(ids(&s), vec!["a", "b", "c"]);
    assert_eq!(order(&s, 0), 0);
    assert_eq!(order(&s, 1), 1);
    assert_eq!(order(&s, 2), 2);
}

#[test]
fn reorder_rejects_mixed_status_subset() {
    let mut s = fresh_store(vec![
        mk("a", TodoStatus::Pending, 0),
        mk("b", TodoStatus::Pending, 1),
        mk("c", TodoStatus::Done, 0),
    ]);
    let res = s.reorder(&["a".into(), "b".into(), "c".into()]);
    assert!(res.is_err(), "mixed status should error");
    assert_eq!(ids(&s), vec!["a", "b", "c"]);
}

#[test]
fn reorder_accepts_complete_section_permutation() {
    let mut s = fresh_store(vec![
        mk("a", TodoStatus::Pending, 0),
        mk("b", TodoStatus::Pending, 1),
    ]);
    let res = s.reorder(&["b".into(), "a".into()]);
    assert!(res.is_ok(), "complete permutation should succeed");
    assert_eq!(ids(&s), vec!["b", "a"]);
}

#[test]
fn reorder_rejects_duplicate_ids() {
    let mut s = fresh_store(vec![
        mk("a", TodoStatus::Pending, 0),
        mk("b", TodoStatus::Pending, 1),
        mk("c", TodoStatus::Pending, 2),
    ]);
    let _ = s.reorder(&["a".into(), "b".into(), "a".into()]);
    assert_eq!(ids(&s), vec!["a", "b", "c"]);
    assert_eq!(order(&s, 0), 0);
    assert_eq!(order(&s, 1), 1);
    assert_eq!(order(&s, 2), 2);
}

#[test]
fn refusals_name_their_reason() {
    let mut s = fresh_store(vec![
        mk("a", TodoStatus::Pending, 0),
        mk("b", TodoStatus::Pending, 1),
    ]);
    assert_eq!(s.reorder(&["b".into()]), Err(StoreError::NotOneSection));
    assert_eq!(
        s.update("ghost", Some("x".into()), None).err(),
        Some(StoreError::NotFound)
    );
    assert_eq!(s.persist().err(), Some(StoreError::NoDataPath));
    assert_eq!(s.generation(), 0);
}

#[test]
fn reorder_touches_only_what_moves() {
    let mut s = fresh_store(vec![
        mk("a", TodoStatus::Pending, 0),
        mk("x", TodoStatus::Done, 7),
        mk("b", TodoStatus::Pending, 1),
        mk("c", TodoStatus::Pending, 2),
    ]);
    s.reorder_at(&["a".into(), "c".into(), "b".into()], 99).unwrap();
    assert_eq!(ids(&s), vec!["a", "c", "b", "x"]);
    let touched: Vec<i64> = s.todos().iter().map(|t| t.updated_at).collect();
    assert_eq!(touched, vec![0, 99, 99, 0]);
    assert_eq!(order(&s, 3), 7);
}

#[test]
fn the_same_order_again_changes_nothing() {
    let mut s = fresh_store(vec![
        mk("a", TodoStatus::Pending, 4),
        mk("b", TodoStatus::Pending, 9),
    ]);
    s.reorder_at(&["b".into(), "a".into()], 5).unwrap();
    s.reorder_at(&["b".into(), "a".into()], 6).unwrap();
    let touched: Vec<i64> = s.todos().iter().map(|t| t.updated_at).collect();
    assert_eq!(touched, vec![5, 5]);
    assert_eq!(ids(&s), vec!["b", "a"]);
}

#[test]
fn edits_leave_other_todos_alone() {
    let mut s = fresh_store(vec![
        mk("a", TodoStatus::Pending, 0),
        mk("b", TodoStatus::Done, 3),
        mk("c", TodoStatus::Pending, -8),
    ]);
    let t = s
        .update_at("c", Some("new".into()), Some(TodoStatus::Done), 42)
        .unwrap()
        .unwrap();
    assert_eq!((t.order, t.updated_at, t.created_at), (4, 42, 0));
    assert_eq!(ids(&s), vec!["a", "b", "c"]);
    assert_eq!(s.todos()[0].title, "a");
    assert_eq!(s.todos()[1].updated_at, 0);
}

#[test]
fn the_first_order_of_a_section_is_zero_and_negative_ones_count_up() {
    let mut s = fresh_store(vec![]);
    assert_eq!(s.add("first".into()).order, 0);
    let mut s = fresh_store(vec![mk("a", TodoStatus::Pending, -5)]);
    assert_eq!(s.add("next".into()).order, -4);
}

#[test]
fn orders_start_again_behind_the_largest() {
    let mut s = fresh_store(vec![
        mk("a", TodoStatus::Pending, i32::MAX),
        mk("b", TodoStatus::Done, i32::MAX - 1),
    ]);
    assert_eq!(s.add("next".into()).order, i32::MIN);
    let t = s
        .update_at("a", None, Some(TodoStatus::Done), 7)
        .unwrap()
        .unwrap();
    assert_eq!(t.order, i32::MAX);
    assert!(s.update("gone", None, Some(TodoStatus::Done)).is_err());
    assert!(s.update("b", None, None).unwrap().is_none());
}
