//! The rules of the todo list, stated over sequences of todo views: where a
//! todo is found, which section it belongs to, and what adding, editing,
//! deleting, restoring and reordering do to the list.
use vstd::prelude::*;

use crate::seqs::{
    kept, lemma_filter_insert, lemma_filter_none, lemma_filter_push, lemma_filter_split,
};
use crate::todo::{AttachmentView, TodoPriority, TodoStatus, TodoView};

verus! {

/// Whether some todo has the id `id`.
pub open spec fn has_id(todos: Seq<TodoView>, id: Seq<char>) -> bool {
    exists|i: int| 0 <= i < todos.len() && (#[trigger] todos[i]).id == id
}

/// Whether `i` is the place of the first todo with the id `id`.
pub open spec fn is_first(todos: Seq<TodoView>, id: Seq<char>, i: int) -> bool {
    &&& 0 <= i < todos.len()
    &&& todos[i].id == id
    &&& forall|j: int| 0 <= j < i ==> (#[trigger] todos[j]).id != id
}

/// The place of the first todo with the id `id`, where there is one.
pub open spec fn index_of(todos: Seq<TodoView>, id: Seq<char>) -> int {
    choose|i: int| is_first(todos, id, i)
}

/// The todo with the id `id`, the first where several have it.
pub open spec fn lookup(todos: Seq<TodoView>, id: Seq<char>) -> Option<TodoView> {
    if has_id(todos, id) {
        Some(todos[index_of(todos, id)])
    } else {
        None
    }
}

/// The todos of one section, in list order.
pub open spec fn section(todos: Seq<TodoView>, status: TodoStatus) -> Seq<TodoView> {
    todos.filter(|t: TodoView| t.status == status)
}

/// Whether `m` is the largest order in a section.
pub open spec fn is_top_order(todos: Seq<TodoView>, status: TodoStatus, m: int) -> bool {
    &&& exists|i: int|
        0 <= i < todos.len() && (#[trigger] todos[i]).status == status && todos[i].order == m
    &&& forall|i: int|
        0 <= i < todos.len() && (#[trigger] todos[i]).status == status ==> todos[i].order <= m
}

/// The order of a todo that goes to the end of a section: one above the
/// largest there, zero where the section is empty.
pub open spec fn next_order(todos: Seq<TodoView>, status: TodoStatus) -> int {
    if exists|i: int| 0 <= i < todos.len() && (#[trigger] todos[i]).status == status {
        1 + choose|m: int| is_top_order(todos, status, m)
    } else {
        0
    }
}

/// Whether a section's largest order can still be raised by one.
pub open spec fn has_room(todos: Seq<TodoView>, status: TodoStatus) -> bool {
    next_order(todos, status) <= i32::MAX
}

/// The order that a todo gets at the end of a section. Behind the largest number
/// of all the count starts again from the smallest.
pub open spec fn end_order(todos: Seq<TodoView>, status: TodoStatus) -> i32 {
    if has_room(todos, status) {
        next_order(todos, status) as i32
    } else {
        i32::MIN
    }
}

/// A fresh pending todo at the end of its section.
pub open spec fn new_todo(
    todos: Seq<TodoView>,
    title: Seq<char>,
    attachment: Option<AttachmentView>,
    id: Seq<char>,
    now: i64,
) -> TodoView {
    TodoView {
        id,
        title,
        status: TodoStatus::Pending,
        priority: TodoPriority::P2,
        created_at: now,
        updated_at: now,
        due_at: None,
        tags: Seq::empty(),
        order: end_order(todos, TodoStatus::Pending),
        attachment,
    }
}

/// `t` under another title, where one is given, and touched at `now`.
pub open spec fn edited(t: TodoView, title: Option<Seq<char>>, now: i64) -> TodoView {
    TodoView {
        title: match title {
            Some(v) => v,
            None => t.title,
        },
        updated_at: now,
        ..t
    }
}

/// Whether an edit takes the todo `id` to another section.
pub open spec fn changes_section(
    todos: Seq<TodoView>,
    id: Seq<char>,
    status: Option<TodoStatus>,
) -> bool {
    has_id(todos, id) && status is Some && status.unwrap() != todos[index_of(todos, id)].status
}

/// The todo `id` as an edit leaves it: in its own section it keeps its order,
/// in another it gets the order of that section's end.
pub open spec fn edit_result(
    todos: Seq<TodoView>,
    id: Seq<char>,
    title: Option<Seq<char>>,
    status: Option<TodoStatus>,
    now: i64,
) -> TodoView {
    let t = edited(todos[index_of(todos, id)], title, now);
    if changes_section(todos, id, status) {
        TodoView {
            status: status.unwrap(),
            order: end_order(todos, status.unwrap()),
            ..t
        }
    } else {
        t
    }
}

/// The list after an edit of the todo `id`: changed in place, or taken out and
/// put at the end where it changes section.
pub open spec fn edit_todos(
    todos: Seq<TodoView>,
    id: Seq<char>,
    title: Option<Seq<char>>,
    status: Option<TodoStatus>,
    now: i64,
) -> Seq<TodoView> {
    let t = edit_result(todos, id, title, status, now);
    if changes_section(todos, id, status) {
        todos.remove(index_of(todos, id)).push(t)
    } else {
        todos.update(index_of(todos, id), t)
    }
}

/// The list without the first todo that has the id `id`.
pub open spec fn without(todos: Seq<TodoView>, id: Seq<char>) -> Seq<TodoView> {
    if has_id(todos, id) {
        todos.remove(index_of(todos, id))
    } else {
        todos
    }
}

/// Whether `other` belongs behind `t`: it is of the same section and has a
/// larger order.
pub open spec fn is_later(t: TodoView, other: TodoView) -> bool {
    other.status == t.status && other.order > t.order
}

/// Whether `i` is where `t` is put back: in front of the first todo of its
/// section with a larger order, at the end where there is none.
pub open spec fn is_slot(todos: Seq<TodoView>, t: TodoView, i: int) -> bool {
    &&& 0 <= i <= todos.len()
    &&& i < todos.len() ==> is_later(t, todos[i])
    &&& forall|j: int| 0 <= j < i ==> !is_later(t, #[trigger] todos[j])
}

/// The place at which `t` is put back.
pub open spec fn slot_for(todos: Seq<TodoView>, t: TodoView) -> int {
    choose|i: int| is_slot(todos, t, i)
}

/// The list with `t` put back in its place.
pub open spec fn put_back(todos: Seq<TodoView>, t: TodoView) -> Seq<TodoView> {
    todos.insert(slot_for(todos, t), t)
}

/// What a reorder request comes to.
pub enum ReorderVerdict {
    /// There is nothing to do, or the request cannot be followed.
    Ignored,
    /// The listed todos are not one whole section.
    Refused,
    /// The section takes the listed order.
    Applied,
}

/// Whether the list holds a todo that `ids` lists.
pub open spec fn some_listed(todos: Seq<TodoView>, ids: Seq<Seq<char>>) -> bool {
    exists|i: int| 0 <= i < todos.len() && ids.contains((#[trigger] todos[i]).id)
}

/// Whether `i` is the place of the first todo that `ids` lists.
pub open spec fn is_first_listed(todos: Seq<TodoView>, ids: Seq<Seq<char>>, i: int) -> bool {
    &&& 0 <= i < todos.len()
    &&& ids.contains(todos[i].id)
    &&& forall|j: int| 0 <= j < i ==> !ids.contains((#[trigger] todos[j]).id)
}

/// The place of the first todo that `ids` lists, where there is one.
pub open spec fn first_listed(todos: Seq<TodoView>, ids: Seq<Seq<char>>) -> int {
    choose|i: int| is_first_listed(todos, ids, i)
}

/// Whether the todos that `ids` lists are those of the section `status`, all of
/// them and no other.
pub open spec fn lists_section(
    todos: Seq<TodoView>,
    ids: Seq<Seq<char>>,
    status: TodoStatus,
) -> bool {
    forall|i: int|
        0 <= i < todos.len() ==> (ids.contains((#[trigger] todos[i]).id) <==> todos[i].status
            == status)
}

/// Whether every listed id is that of some todo.
pub open spec fn all_known(todos: Seq<TodoView>, ids: Seq<Seq<char>>) -> bool {
    forall|j: int| 0 <= j < ids.len() ==> has_id(todos, #[trigger] ids[j])
}

/// What the request to put one section in the order `ids` comes to.
pub open spec fn reorder_verdict(todos: Seq<TodoView>, ids: Seq<Seq<char>>) -> ReorderVerdict {
    if ids.len() == 0 || !ids.no_duplicates() || !some_listed(todos, ids) {
        ReorderVerdict::Ignored
    } else if !(exists|status: TodoStatus| lists_section(todos, ids, status)) {
        ReorderVerdict::Refused
    } else if !all_known(todos, ids) {
        ReorderVerdict::Ignored
    } else {
        ReorderVerdict::Applied
    }
}

/// `t` under the order `order`; only a change of order touches it.
pub open spec fn renumbered(t: TodoView, order: i32, now: i64) -> TodoView {
    if t.order == order {
        t
    } else {
        TodoView { order, updated_at: now, ..t }
    }
}

/// The listed todos in the listed order, numbered from zero.
pub open spec fn listed_todos(
    todos: Seq<TodoView>,
    ids: Seq<Seq<char>>,
    now: i64,
) -> Seq<TodoView> {
    Seq::new(
        ids.len(),
        |j: int| renumbered(todos[index_of(todos, ids[j])], j as i32, now),
    )
}

/// The todos that `ids` does not list, in list order.
pub open spec fn unlisted(todos: Seq<TodoView>, ids: Seq<Seq<char>>) -> Seq<TodoView> {
    todos.filter(|t: TodoView| !ids.contains(t.id))
}

/// The list after an applied reorder: the listed todos stand together where the
/// first of them stood, all others keep their order around them.
pub open spec fn reordered(
    todos: Seq<TodoView>,
    ids: Seq<Seq<char>>,
    now: i64,
) -> Seq<TodoView> {
    let base = first_listed(todos, ids);
    todos.take(base) + listed_todos(todos, ids, now) + unlisted(todos.skip(base), ids)
}

/// Whether the orders do not fall along the list.
pub open spec fn sorted_by_order(todos: Seq<TodoView>) -> bool {
    forall|i: int, j: int|
        0 <= i < j < todos.len() ==> (#[trigger] todos[i]).order <= (#[trigger] todos[j]).order
}

/// The todos that have the order `order`, in list order.
pub open spec fn with_order(todos: Seq<TodoView>, order: i32) -> Seq<TodoView> {
    todos.filter(|t: TodoView| t.order == order)
}

/// Whether `sorted` holds the todos of `todos` by rising order, those of equal
/// order as they followed each other before.
pub open spec fn is_stable_sort(sorted: Seq<TodoView>, todos: Seq<TodoView>) -> bool {
    &&& sorted_by_order(sorted)
    &&& forall|order: i32| #[trigger] with_order(sorted, order) == with_order(todos, order)
}

/// The first todo with a given id is unique.
pub proof fn lemma_index_of(todos: Seq<TodoView>, id: Seq<char>, i: int)
    requires
        is_first(todos, id, i),
    ensures
        has_id(todos, id),
        index_of(todos, id) == i,
{
    let k = index_of(todos, id);
    assert(is_first(todos, id, k));
    if k < i {
        assert(todos[k].id != id);
    }
    if i < k {
        assert(todos[i].id != id);
    }
}

/// Where some todo has a given id, there is a first one.
pub proof fn lemma_has_first(todos: Seq<TodoView>, id: Seq<char>)
    requires
        has_id(todos, id),
    ensures
        is_first(todos, id, index_of(todos, id)),
{
    let i = choose|i: int| 0 <= i < todos.len() && (#[trigger] todos[i]).id == id;
    lemma_first_up_to(todos, id, i);
}

proof fn lemma_first_up_to(todos: Seq<TodoView>, id: Seq<char>, i: int)
    requires
        0 <= i < todos.len(),
        todos[i].id == id,
    ensures
        exists|k: int| is_first(todos, id, k),
    decreases i,
{
    if exists|j: int| 0 <= j < i && (#[trigger] todos[j]).id == id {
        let j = choose|j: int| 0 <= j < i && (#[trigger] todos[j]).id == id;
        lemma_first_up_to(todos, id, j);
    } else {
        assert(is_first(todos, id, i));
    }
}

/// The largest order of a section is unique.
pub proof fn lemma_next_order(todos: Seq<TodoView>, status: TodoStatus, m: int)
    requires
        is_top_order(todos, status, m),
    ensures
        next_order(todos, status) == m + 1,
{
    let k = choose|k: int| is_top_order(todos, status, k);
    assert(is_top_order(todos, status, k));
    let a = choose|i: int|
        0 <= i < todos.len() && (#[trigger] todos[i]).status == status && todos[i].order == m;
    let b = choose|i: int|
        0 <= i < todos.len() && (#[trigger] todos[i]).status == status && todos[i].order == k;
    assert(todos[a].order <= k);
    assert(todos[b].order <= m);
}

/// A section that holds a todo has a largest order.
pub proof fn lemma_has_top_order(todos: Seq<TodoView>, status: TodoStatus)
    requires
        exists|i: int| 0 <= i < todos.len() && (#[trigger] todos[i]).status == status,
    ensures
        is_top_order(todos, status, next_order(todos, status) - 1),
{
    lemma_top_order_exists(todos, status);
}

proof fn lemma_top_order_exists(todos: Seq<TodoView>, status: TodoStatus)
    requires
        exists|i: int| 0 <= i < todos.len() && (#[trigger] todos[i]).status == status,
    ensures
        exists|m: int| is_top_order(todos, status, m),
    decreases todos.len(),
{
    let init = todos.drop_last();
    let last = todos.last();
    let w = choose|i: int| 0 <= i < todos.len() && (#[trigger] todos[i]).status == status;
    if exists|i: int| 0 <= i < init.len() && (#[trigger] init[i]).status == status {
        lemma_top_order_exists(init, status);
        let m = choose|m: int| is_top_order(init, status, m);
        let a = choose|i: int|
            0 <= i < init.len() && (#[trigger] init[i]).status == status && init[i].order == m;
        assert(todos[a] == init[a]);
        assert forall|i: int| 0 <= i < init.len() && (#[trigger] todos[i]).status
            == status implies todos[i].order <= m by {
            assert(todos[i] == init[i]);
        }
        if last.status == status && last.order > m {
            assert(todos[todos.len() - 1] == last);
            assert(is_top_order(todos, status, last.order as int));
        } else {
            assert(is_top_order(todos, status, m));
        }
    } else {
        assert(w == todos.len() - 1) by {
            if w < init.len() {
                assert(init[w] == todos[w]);
            }
        }
        assert forall|i: int| 0 <= i < todos.len() && (#[trigger] todos[i]).status
            == status implies todos[i].order <= last.order by {
            if i < init.len() {
                assert(init[i] == todos[i]);
            }
        }
        assert(todos[w] == last);
        assert(is_top_order(todos, status, last.order as int));
    }
}

/// The place at which a todo is put back is unique.
pub proof fn lemma_slot_for(todos: Seq<TodoView>, t: TodoView, i: int)
    requires
        is_slot(todos, t, i),
    ensures
        slot_for(todos, t) == i,
{
    let k = slot_for(todos, t);
    assert(is_slot(todos, t, k));
    if k < i {
        assert(!is_later(t, todos[k]));
    }
    if i < k {
        assert(!is_later(t, todos[i]));
    }
}

/// The first listed todo is unique.
pub proof fn lemma_first_listed(todos: Seq<TodoView>, ids: Seq<Seq<char>>, i: int)
    requires
        is_first_listed(todos, ids, i),
    ensures
        some_listed(todos, ids),
        first_listed(todos, ids) == i,
{
    let k = first_listed(todos, ids);
    assert(is_first_listed(todos, ids, k));
    if k < i {
        assert(!ids.contains(todos[k].id));
    }
    if i < k {
        assert(!ids.contains(todos[i].id));
    }
}

/// Inserting a todo behind all that do not have a larger order keeps a list
/// stably sorted.
pub proof fn lemma_sorted_insert(
    sorted: Seq<TodoView>,
    todos: Seq<TodoView>,
    at: int,
    t: TodoView,
)
    requires
        is_stable_sort(sorted, todos),
        0 <= at <= sorted.len(),
        at > 0 ==> sorted[at - 1].order <= t.order,
        forall|j: int| at <= j < sorted.len() ==> (#[trigger] sorted[j]).order > t.order,
    ensures
        is_stable_sort(sorted.insert(at, t), todos.push(t)),
{
    let r = sorted.insert(at, t);
    assert forall|i: int, j: int| 0 <= i < j < r.len() implies (#[trigger] r[i]).order <= (
    #[trigger] r[j]).order by {
        if at > 0 && i < at - 1 {
            assert(sorted[i].order <= sorted[at - 1].order);
        }
    }
    assert forall|order: i32| #[trigger] with_order(r, order) == with_order(
        todos.push(t),
        order,
    ) by {
        let p = |x: TodoView| x.order == order;
        lemma_filter_insert(sorted, at, t, p);
        lemma_filter_push(todos, t, p);
        lemma_filter_split(sorted, at, p);
        assert(with_order(sorted, order) == with_order(todos, order));
        if order == t.order {
            assert forall|j: int| 0 <= j < sorted.skip(at).len() implies !p(
                #[trigger] sorted.skip(at)[j],
            ) by {
                assert(sorted.skip(at)[j] == sorted[j + at]);
            }
            lemma_filter_none(sorted.skip(at), p);
            assert(sorted.take(at).filter(p) + Seq::<TodoView>::empty() == sorted.take(at).filter(
                p,
            ));
            assert(r.filter(p) == todos.filter(p) + kept(t, p));
        } else {
            assert(kept(t, p) == Seq::<TodoView>::empty());
            assert(r.filter(p) == sorted.filter(p));
            assert(todos.push(t).filter(p) == todos.filter(p));
        }
    }
}

} // verus!
