//! What holds of the todo list whatever is done to it: identifiers stay unique,
//! each section stays strictly ranked, one section's changes leave the other
//! alone, and a deletion can be undone.
use vstd::prelude::*;

use crate::attachment::{
    image_names_are_kept, is_kept_name, leads_nowhere_else, made_names_are_kept,
    plain_names_lead_nowhere_else, safe_todo,
};
use crate::external::is_uuid;
use crate::sections::{
    all_known, changes_section, edit_result, edit_todos, end_order, first_listed, has_id, has_room,
    index_of, is_first, is_first_listed, is_later, is_slot, is_stable_sort, lemma_first_listed,
    lemma_has_first, lemma_has_top_order, lemma_index_of, listed_todos, lists_section, lookup,
    new_todo, next_order, put_back, renumbered, reorder_verdict, reordered, section, slot_for,
    some_listed, sorted_by_order, unlisted, with_order, without, ReorderVerdict,
};
use crate::seqs::{
    kept, lemma_filter_agree, lemma_filter_all, lemma_filter_around, lemma_filter_insert,
    lemma_filter_keeps_order, lemma_filter_none, lemma_filter_places, lemma_filter_push,
    lemma_filter_remove, lemma_filter_split, lemma_filter_update,
};
use crate::store::{is_orphan, is_referenced, orphans};
use crate::todo::{AttachmentView, TodoPriority, TodoStatus, TodoView};

verus! {

/// Whether no two todos share an id.
pub open spec fn unique_ids(todos: Seq<TodoView>) -> bool {
    forall|i: int, j: int|
        0 <= i < j < todos.len() ==> (#[trigger] todos[i]).id != (#[trigger] todos[j]).id
}

/// Whether the orders rise strictly along each section.
pub open spec fn ranked(todos: Seq<TodoView>) -> bool {
    forall|i: int, j: int|
        0 <= i < j < todos.len() && (#[trigger] todos[i]).status == (#[trigger] todos[j]).status
            ==> todos[i].order < todos[j].order
}

/// Whether the orders rise strictly along a list.
pub open spec fn rising(todos: Seq<TodoView>) -> bool {
    forall|i: int, j: int|
        0 <= i < j < todos.len() ==> (#[trigger] todos[i]).order < (#[trigger] todos[j]).order
}

proof fn lemma_ranked_sections(todos: Seq<TodoView>)
    ensures
        ranked(todos) <==> forall|s: TodoStatus| rising(#[trigger] section(todos, s)),
{
    if ranked(todos) {
        assert forall|s: TodoStatus| rising(#[trigger] section(todos, s)) by {
            let p = |t: TodoView| t.status == s;
            let sec = section(todos, s);
            assert forall|a: int, b: int| 0 <= a < b < sec.len() implies (#[trigger] sec[a]).order
                < (#[trigger] sec[b]).order by {
                lemma_filter_places(todos, p, a, b);
            }
        }
    }
    if forall|s: TodoStatus| rising(#[trigger] section(todos, s)) {
        assert forall|i: int, j: int|
            0 <= i < j < todos.len() && (#[trigger] todos[i]).status == (
            #[trigger] todos[j]).status implies todos[i].order < todos[j].order by {
            let s = todos[i].status;
            let p = |t: TodoView| t.status == s;
            assert(rising(section(todos, s)));
            lemma_filter_keeps_order(todos, p, i, j);
        }
    }
}

/// Where ids are unique, looking up a todo's id finds that todo.
pub proof fn lemma_unique_index(todos: Seq<TodoView>, i: int)
    requires
        unique_ids(todos),
        0 <= i < todos.len(),
    ensures
        has_id(todos, todos[i].id),
        index_of(todos, todos[i].id) == i,
        lookup(todos, todos[i].id) == Some(todos[i]),
{
    assert(is_first(todos, todos[i].id, i));
    lemma_index_of(todos, todos[i].id, i);
}

/// A new todo ranks behind every pending one and keeps the sections ranked, as
/// long as their largest order can be raised; under a fresh id it keeps the ids
/// unique; and it leaves the other section alone.
pub proof fn add_keeps_order(
    todos: Seq<TodoView>,
    title: Seq<char>,
    attachment: Option<AttachmentView>,
    id: Seq<char>,
    now: i64,
)
    ensures
        has_room(todos, TodoStatus::Pending) ==> forall|i: int|
            0 <= i < todos.len() && (#[trigger] todos[i]).status == TodoStatus::Pending
                ==> todos[i].order < new_todo(todos, title, attachment, id, now).order,
        has_room(todos, TodoStatus::Pending) && ranked(todos) ==> ranked(
            todos.push(new_todo(todos, title, attachment, id, now)),
        ),
        unique_ids(todos) && !has_id(todos, id) ==> unique_ids(
            todos.push(new_todo(todos, title, attachment, id, now)),
        ),
        section(
            todos.push(new_todo(todos, title, attachment, id, now)),
            TodoStatus::Done,
        ) == section(todos, TodoStatus::Done),
{
    let t = new_todo(todos, title, attachment, id, now);
    let r = todos.push(t);
    if has_room(todos, TodoStatus::Pending) {
        lemma_behind_section(todos, TodoStatus::Pending);
        if ranked(todos) {
            assert(ranked(r));
        }
    }
    if unique_ids(todos) && !has_id(todos, id) {
        assert(unique_ids(r));
    }
    let p = |x: TodoView| x.status == TodoStatus::Done;
    lemma_filter_push(todos, t, p);
    assert(todos.filter(p) + Seq::<TodoView>::empty() == todos.filter(p));
}

proof fn lemma_behind_section(todos: Seq<TodoView>, status: TodoStatus)
    requires
        has_room(todos, status),
    ensures
        forall|i: int|
            0 <= i < todos.len() && (#[trigger] todos[i]).status == status ==> todos[i].order
                < end_order(todos, status),
{
    if exists|i: int| 0 <= i < todos.len() && (#[trigger] todos[i]).status == status {
        lemma_has_top_order(todos, status);
        let w = choose|i: int| 0 <= i < todos.len() && (#[trigger] todos[i]).status == status;
        assert(todos[w].order <= next_order(todos, status) - 1);
        assert(i32::MIN <= next_order(todos, status) <= i32::MAX);
    }
}

/// An edit changes no other todo, keeps every id, and keeps ids unique. A todo
/// that changes section ends up last in the list; as long as the largest order
/// of its new section can be raised, it ranks behind every other todo there and
/// the sections stay ranked.
pub proof fn edit_keeps_order(
    todos: Seq<TodoView>,
    id: Seq<char>,
    title: Option<Seq<char>>,
    status: Option<TodoStatus>,
    now: i64,
)
    requires
        has_id(todos, id),
    ensures
        edit_todos(todos, id, title, status, now).len() == todos.len(),
        ranked(todos) && (changes_section(todos, id, status) ==> has_room(
            todos,
            status.unwrap(),
        )) ==> ranked(edit_todos(todos, id, title, status, now)),
        unique_ids(todos) ==> unique_ids(edit_todos(todos, id, title, status, now)),
        forall|x: Seq<char>| #[trigger]
            has_id(edit_todos(todos, id, title, status, now), x) <==> has_id(todos, x),
        unique_ids(todos) ==> forall|x: Seq<char>|
            x != id ==> #[trigger] lookup(edit_todos(todos, id, title, status, now), x) == lookup(
                todos,
                x,
            ),
        unique_ids(todos) ==> lookup(edit_todos(todos, id, title, status, now), id) == Some(
            edit_result(todos, id, title, status, now),
        ),
        changes_section(todos, id, status) ==> edit_todos(todos, id, title, status, now).last()
            == edit_result(todos, id, title, status, now),
        changes_section(todos, id, status) && has_room(todos, status.unwrap()) ==> forall|i: int|
            0 <= i < todos.len() && (#[trigger] todos[i]).status == status.unwrap()
                ==> todos[i].order < edit_result(todos, id, title, status, now).order,
{
    lemma_has_first(todos, id);
    let k = index_of(todos, id);
    let t = edit_result(todos, id, title, status, now);
    let r = edit_todos(todos, id, title, status, now);
    assert(t.id == id);
    if changes_section(todos, id, status) {
        if has_room(todos, status.unwrap()) {
            lemma_behind_section(todos, status.unwrap());
        }
        assert(forall|i: int| 0 <= i < k ==> #[trigger] r[i] == todos[i]);
        assert(forall|i: int| k <= i < todos.len() - 1 ==> #[trigger] r[i] == todos[i + 1]);
        assert(r[todos.len() - 1] == t);
        assert forall|x: Seq<char>| has_id(todos, x) implies #[trigger] has_id(r, x) by {
            let i = choose|i: int| 0 <= i < todos.len() && (#[trigger] todos[i]).id == x;
            if i < k {
                assert(r[i].id == x);
            } else if i == k {
                assert(r[todos.len() - 1].id == x);
            } else {
                assert(r[i - 1].id == x);
            }
        }
    } else {
        assert(forall|i: int| 0 <= i < todos.len() && i != k ==> #[trigger] r[i] == todos[i]);
        assert(r[k] == t);
        assert forall|x: Seq<char>| has_id(todos, x) implies #[trigger] has_id(r, x) by {
            let i = choose|i: int| 0 <= i < todos.len() && (#[trigger] todos[i]).id == x;
            assert(r[i].id == x);
        }
    }
    assert forall|x: Seq<char>| #[trigger] has_id(r, x) implies has_id(todos, x) by {
        let i = choose|i: int| 0 <= i < r.len() && (#[trigger] r[i]).id == x;
        if r[i] == t {
            assert(todos[k].id == x);
        } else if changes_section(todos, id, status) && i >= k {
            assert(todos[i + 1].id == x);
        } else {
            assert(todos[i].id == x);
        }
    }
    if unique_ids(todos) {
        assert(unique_ids(r));
        let at = if changes_section(todos, id, status) {
            todos.len() - 1
        } else {
            k
        };
        assert(r[at] == t);
        lemma_unique_index(r, at);
        assert forall|x: Seq<char>| x != id implies #[trigger] lookup(r, x) == lookup(
            todos,
            x,
        ) by {
            assert(has_id(r, x) <==> has_id(todos, x));
            if has_id(todos, x) {
                lemma_has_first(todos, x);
                let i = index_of(todos, x);
                assert(i != k);
                let j = if changes_section(todos, id, status) && i > k {
                    i - 1
                } else {
                    i
                };
                assert(r[j] == todos[i]);
                lemma_unique_index(r, j);
            }
        }
    }
}

/// A todo that changes section leaves the one and comes last in the other; both
/// keep their order. An edit in place leaves the other section as it is.
pub proof fn edit_moves_between_sections(
    todos: Seq<TodoView>,
    id: Seq<char>,
    title: Option<Seq<char>>,
    status: Option<TodoStatus>,
    now: i64,
)
    requires
        has_id(todos, id),
    ensures
        changes_section(todos, id, status) ==> section(
            edit_todos(todos, id, title, status, now),
            status.unwrap(),
        ) == section(todos, status.unwrap()).push(edit_result(todos, id, title, status, now)),
        changes_section(todos, id, status) ==> section(
            edit_todos(todos, id, title, status, now),
            lookup(todos, id).unwrap().status,
        ) == section(without(todos, id), lookup(todos, id).unwrap().status),
        !changes_section(todos, id, status) ==> forall|other: TodoStatus|
            other != lookup(todos, id).unwrap().status ==> #[trigger] section(
                edit_todos(todos, id, title, status, now),
                other,
            ) == section(todos, other),
{
    lemma_has_first(todos, id);
    let k = index_of(todos, id);
    let t = edit_result(todos, id, title, status, now);
    let r = edit_todos(todos, id, title, status, now);
    if changes_section(todos, id, status) {
        let new = status.unwrap();
        let p = |x: TodoView| x.status == new;
        lemma_filter_push(todos.remove(k), t, p);
        lemma_filter_remove(todos, k, p);
        lemma_filter_around(todos, k, p);
        assert(todos.remove(k).filter(p) == todos.filter(p));
        assert(section(r, new) == section(todos, new).push(t));
        let old_status = todos[k].status;
        let q = |x: TodoView| x.status == old_status;
        lemma_filter_push(todos.remove(k), t, q);
        assert(section(r, old_status) == todos.remove(k).filter(q));
    } else {
        assert forall|other: TodoStatus| other != todos[k].status implies #[trigger] section(
            r,
            other,
        ) == section(todos, other) by {
            let p = |x: TodoView| x.status == other;
            lemma_filter_update(todos, k, t, p);
            lemma_filter_around(todos, k, p);
        }
    }
}

/// A deletion removes the todo and leaves every other one as it was; ids stay
/// unique and sections ranked.
pub proof fn delete_keeps_order(todos: Seq<TodoView>, id: Seq<char>)
    ensures
        ranked(todos) ==> ranked(without(todos, id)),
        unique_ids(todos) ==> unique_ids(without(todos, id)),
        unique_ids(todos) ==> !has_id(without(todos, id), id),
        unique_ids(todos) ==> forall|x: Seq<char>|
            x != id ==> #[trigger] lookup(without(todos, id), x) == lookup(todos, x),
{
    if has_id(todos, id) {
        lemma_has_first(todos, id);
        let k = index_of(todos, id);
        let r = without(todos, id);
        assert(forall|i: int| 0 <= i < k ==> #[trigger] r[i] == todos[i]);
        assert(forall|i: int| k <= i < r.len() ==> #[trigger] r[i] == todos[i + 1]);
        if unique_ids(todos) {
            assert forall|x: Seq<char>| x != id implies #[trigger] lookup(r, x) == lookup(
                todos,
                x,
            ) by {
                if has_id(todos, x) {
                    lemma_has_first(todos, x);
                    let i = index_of(todos, x);
                    let j = if i > k {
                        i - 1
                    } else {
                        i
                    };
                    assert(r[j] == todos[i]);
                    lemma_unique_index(r, j);
                } else {
                    assert forall|j: int| 0 <= j < r.len() implies (#[trigger] r[j]).id != x by {
                        if j < k {
                            assert(todos[j].id != x);
                        } else {
                            assert(todos[j + 1].id != x);
                        }
                    }
                }
            }
        }
    }
}

proof fn lemma_slot_exists(todos: Seq<TodoView>, t: TodoView, n: int)
    requires
        0 <= n <= todos.len(),
        n < todos.len() ==> is_later(t, todos[n]),
    ensures
        exists|i: int| is_slot(todos, t, i),
    decreases n,
{
    if exists|j: int| 0 <= j < n && is_later(t, #[trigger] todos[j]) {
        let j = choose|j: int| 0 <= j < n && is_later(t, #[trigger] todos[j]);
        lemma_slot_exists(todos, t, j);
    } else {
        assert(is_slot(todos, t, n));
    }
}

proof fn lemma_has_slot(todos: Seq<TodoView>, t: TodoView)
    ensures
        is_slot(todos, t, slot_for(todos, t)),
{
    lemma_slot_exists(todos, t, todos.len() as int);
}

/// Restoring a deleted todo brings it back, and both sections read as they did
/// before the deletion.
pub proof fn restore_undoes_delete(todos: Seq<TodoView>, id: Seq<char>)
    requires
        has_id(todos, id),
        ranked(todos),
        unique_ids(todos),
        safe_todo(lookup(todos, id).unwrap()) == lookup(todos, id).unwrap(),
    ensures
        !has_id(without(todos, id), id),
        lookup(put_back(without(todos, id), safe_todo(lookup(todos, id).unwrap())), id) == lookup(
            todos,
            id,
        ),
        forall|s: TodoStatus| #[trigger]
            section(put_back(without(todos, id), safe_todo(lookup(todos, id).unwrap())), s)
                == section(todos, s),
{
    delete_keeps_order(todos, id);
    lemma_has_first(todos, id);
    let k = index_of(todos, id);
    let t = todos[k];
    let d = without(todos, id);
    lemma_has_slot(d, t);
    let n = slot_for(d, t);
    let r = put_back(d, t);
    assert(forall|i: int| 0 <= i < k ==> #[trigger] d[i] == todos[i]);
    assert(forall|i: int| k <= i < d.len() ==> #[trigger] d[i] == todos[i + 1]);
    assert(k <= n) by {
        if n < k {
            assert(is_later(t, d[n]));
            assert(d[n] == todos[n]);
            assert(todos[n].order < todos[k].order);
        }
    }
    assert(is_first(r, id, n)) by {
        assert forall|j: int| 0 <= j < n implies (#[trigger] r[j]).id != id by {
            assert(r[j] == d[j]);
        }
    }
    lemma_index_of(r, id, n);
    assert forall|s: TodoStatus| #[trigger] section(r, s) == section(todos, s) by {
        lemma_restored_section(todos, k, n, s);
    }
}

/// What a section reads after the todo at `k` was taken out and put back at
/// `n`, with nothing of its section in between.
proof fn lemma_restored_section(todos: Seq<TodoView>, k: int, n: int, s: TodoStatus)
    requires
        ranked(todos),
        0 <= k < todos.len(),
        k <= n,
        is_slot(todos.remove(k), todos[k], n),
    ensures
        section(todos.remove(k).insert(n, todos[k]), s) == section(todos, s),
{
    let t = todos[k];
    let d = todos.remove(k);
    let p = |x: TodoView| x.status == s;
    lemma_filter_insert(d, n, t, p);
    lemma_filter_around(todos, k, p);
    if s == t.status {
        let mid = d.take(n).skip(k);
        assert forall|j: int| 0 <= j < mid.len() implies !p(#[trigger] mid[j]) by {
            assert(mid[j] == d[j + k]);
            assert(!is_later(t, d[j + k]));
            assert(d[j + k] == todos[j + k + 1]);
            if p(mid[j]) {
                assert(todos[k].order < todos[j + k + 1].order);
            }
        }
        lemma_filter_none(mid, p);
        lemma_filter_split(d.take(n), k, p);
        assert(d.take(n).take(k) == todos.take(k));
        assert(d.take(n).filter(p) == todos.take(k).filter(p));
        lemma_filter_split(d.skip(k), n - k, p);
        assert(d.skip(k).skip(n - k) == d.skip(n));
        assert(d.skip(k).take(n - k) == mid);
        assert(d.skip(k) == todos.skip(k + 1));
        assert(d.skip(n).filter(p) == todos.skip(k + 1).filter(p));
    } else {
        lemma_filter_remove(todos, k, p);
        lemma_filter_split(d, n, p);
        assert(kept(t, p) == Seq::<TodoView>::empty());
    }
}

/// Deleting a todo that was just restored leaves the list as it was before.
pub proof fn delete_undoes_restore(todos: Seq<TodoView>, t: TodoView)
    requires
        !has_id(todos, t.id),
    ensures
        lookup(put_back(todos, t), t.id) == Some(t),
        without(put_back(todos, t), t.id) == todos,
{
    lemma_has_slot(todos, t);
    let n = slot_for(todos, t);
    let r = put_back(todos, t);
    assert(r[n] == t);
    assert forall|j: int| 0 <= j < n implies (#[trigger] r[j]).id != t.id by {
        assert(r[j] == todos[j]);
    }
    assert(is_first(r, t.id, n));
    lemma_index_of(r, t.id, n);
    assert(r.remove(n) == todos);
}

/// A restored todo keeps ids unique, and sections ranked where no todo of its
/// section has its order.
pub proof fn restore_keeps_order(todos: Seq<TodoView>, t: TodoView)
    requires
        !has_id(todos, t.id),
    ensures
        unique_ids(todos) ==> unique_ids(put_back(todos, t)),
        ranked(todos) && (forall|i: int|
            0 <= i < todos.len() && (#[trigger] todos[i]).status == t.status ==> todos[i].order
                != t.order) ==> ranked(put_back(todos, t)),
{
    lemma_has_slot(todos, t);
    let n = slot_for(todos, t);
    let r = put_back(todos, t);
    assert(r[n] == t);
    assert(forall|i: int| 0 <= i < n ==> #[trigger] r[i] == todos[i]);
    assert(forall|i: int| n < i < r.len() ==> #[trigger] r[i] == todos[i - 1]);
    if ranked(todos) && (forall|i: int|
        0 <= i < todos.len() && (#[trigger] todos[i]).status == t.status ==> todos[i].order
            != t.order) {
        assert forall|i: int, j: int|
            0 <= i < j < r.len() && (#[trigger] r[i]).status == (
            #[trigger] r[j]).status implies r[i].order < r[j].order by {
            if j == n {
                assert(!is_later(t, todos[i]));
            } else if i == n {
                assert(is_later(t, todos[n]));
                if j - 1 > n {
                    assert(todos[n].order < todos[j - 1].order);
                }
            } else {
                let a = if i < n {
                    i
                } else {
                    i - 1
                };
                let b = if j < n {
                    j
                } else {
                    j - 1
                };
                assert(todos[a].order < todos[b].order);
            }
        }
    }
}

proof fn lemma_has_first_listed(todos: Seq<TodoView>, ids: Seq<Seq<char>>, n: int)
    requires
        0 <= n < todos.len(),
        ids.contains(todos[n].id),
    ensures
        exists|i: int| is_first_listed(todos, ids, i),
    decreases n,
{
    if exists|j: int| 0 <= j < n && ids.contains((#[trigger] todos[j]).id) {
        let j = choose|j: int| 0 <= j < n && ids.contains((#[trigger] todos[j]).id);
        lemma_has_first_listed(todos, ids, j);
    } else {
        assert(is_first_listed(todos, ids, n));
    }
}

/// A request that lists the ids of one whole section, each once and in any
/// order, is followed.
pub proof fn whole_sections_are_accepted(
    todos: Seq<TodoView>,
    ids: Seq<Seq<char>>,
    status: TodoStatus,
)
    requires
        unique_ids(todos),
        ids.len() > 0,
        ids.no_duplicates(),
        forall|x: Seq<char>| #[trigger]
            ids.contains(x) <==> lookup(todos, x) is Some && lookup(todos, x).unwrap().status
                == status,
    ensures
        reorder_verdict(todos, ids) is Applied,
{
    assert forall|i: int| 0 <= i < todos.len() implies (ids.contains((#[trigger] todos[i]).id)
        <==> todos[i].status == status) by {
        lemma_unique_index(todos, i);
    }
    assert(lists_section(todos, ids, status));
    assert forall|j: int| 0 <= j < ids.len() implies has_id(todos, #[trigger] ids[j]) by {
        assert(ids.contains(ids[j]));
        assert(lookup(todos, ids[j]) is Some);
    }
    assert(has_id(todos, ids[0]));
    lemma_has_first(todos, ids[0]);
    let i = index_of(todos, ids[0]);
    assert(ids.contains(ids[0]));
    assert(ids.contains(todos[i].id));
    assert(some_listed(todos, ids));
}

/// A request that leaves out part of a section that it touches, or touches both
/// sections, is refused, as long as it lists no todo twice.
pub proof fn parts_of_sections_are_refused(
    todos: Seq<TodoView>,
    ids: Seq<Seq<char>>,
    i: int,
    j: int,
)
    requires
        ids.no_duplicates(),
        0 <= i < todos.len(),
        0 <= j < todos.len(),
        ids.contains(todos[i].id),
        ids.contains(todos[j].id) != (todos[j].status == todos[i].status),
    ensures
        reorder_verdict(todos, ids) is Refused,
{
    assert forall|s: TodoStatus| lists_section(todos, ids, s) implies false by {
        assert(ids.contains(todos[i].id) <==> todos[i].status == s);
        assert(ids.contains(todos[j].id) <==> todos[j].status == s);
    }
}

/// The parts of a reordered list.
proof fn lemma_reordered_parts(
    todos: Seq<TodoView>,
    ids: Seq<Seq<char>>,
    status: TodoStatus,
    now: i64,
)
    requires
        reorder_verdict(todos, ids) is Applied,
        lists_section(todos, ids, status),
    ensures
        ({
            let base = first_listed(todos, ids);
            let m = listed_todos(todos, ids, now);
            let u = unlisted(todos.skip(base), ids);
            &&& is_first_listed(todos, ids, base)
            &&& forall|i: int|
                0 <= i < base ==> !ids.contains((#[trigger] todos[i]).id) && todos[i].status
                    != status
            &&& forall|j: int|
                0 <= j < ids.len() ==> (#[trigger] m[j]).id == ids[j] && m[j].status == status
                    && m[j].order == j as i32 && m[j] == renumbered(
                    todos[index_of(todos, ids[j])],
                    j as i32,
                    now,
                )
            &&& forall|i: int|
                0 <= i < u.len() ==> !ids.contains((#[trigger] u[i]).id) && u[i].status != status
                    && todos.skip(base).contains(u[i])
        }),
{
    let base = first_listed(todos, ids);
    let m = listed_todos(todos, ids, now);
    let rest = todos.skip(base);
    let u = unlisted(rest, ids);
    let p = |t: TodoView| !ids.contains(t.id);
    let w = choose|i: int| 0 <= i < todos.len() && ids.contains((#[trigger] todos[i]).id);
    lemma_has_first_listed(todos, ids, w);
    assert(is_first_listed(todos, ids, base));
    assert forall|j: int| 0 <= j < ids.len() implies (#[trigger] m[j]).id == ids[j] && m[j].status
        == status && m[j].order == j as i32 && m[j] == renumbered(
        todos[index_of(todos, ids[j])],
        j as i32,
        now,
    ) by {
        assert(has_id(todos, ids[j]));
        lemma_has_first(todos, ids[j]);
        let i = index_of(todos, ids[j]);
        assert(ids.contains(todos[i].id));
    }
    assert forall|i: int| 0 <= i < u.len() implies !ids.contains((#[trigger] u[i]).id)
        && u[i].status != status && rest.contains(u[i]) by {
        rest.lemma_filter_pred(p, i);
        rest.lemma_filter_contains_rev(p, u[i]);
        let j = choose|j: int| 0 <= j < rest.len() && rest[j] == u[i];
        assert(rest[j] == todos[j + base]);
        assert(ids.contains(todos[j + base].id) <==> todos[j + base].status == status);
    }
}

/// An applied reorder gives the listed section exactly the listed order,
/// numbered from zero, and leaves the other section as it is.
pub proof fn reorder_sets_one_section(
    todos: Seq<TodoView>,
    ids: Seq<Seq<char>>,
    status: TodoStatus,
    now: i64,
)
    requires
        reorder_verdict(todos, ids) is Applied,
        lists_section(todos, ids, status),
    ensures
        section(reordered(todos, ids, now), status) == listed_todos(todos, ids, now),
        forall|j: int|
            0 <= j < ids.len() ==> (#[trigger] section(reordered(todos, ids, now), status)[j]).id
                == ids[j] && section(reordered(todos, ids, now), status)[j].order == j as i32,
        forall|other: TodoStatus|
            other != status ==> #[trigger] section(reordered(todos, ids, now), other) == section(
                todos,
                other,
            ),
{
    lemma_reordered_parts(todos, ids, status, now);
    let base = first_listed(todos, ids);
    let a = todos.take(base);
    let m = listed_todos(todos, ids, now);
    let rest = todos.skip(base);
    let u = unlisted(rest, ids);
    let r = reordered(todos, ids, now);
    let p = |t: TodoView| t.status == status;
    Seq::filter_distributes_over_add(a + m, u, p);
    Seq::filter_distributes_over_add(a, m, p);
    lemma_filter_none(a, p);
    lemma_filter_all(m, p);
    lemma_filter_none(u, p);
    assert(section(r, status) == m);
    assert forall|other: TodoStatus| other != status implies #[trigger] section(r, other)
        == section(todos, other) by {
        let q = |t: TodoView| t.status == other;
        Seq::filter_distributes_over_add(a + m, u, q);
        Seq::filter_distributes_over_add(a, m, q);
        lemma_filter_none(m, q);
        lemma_filter_split(todos, base, q);
        let n = |t: TodoView| !ids.contains(t.id);
        assert forall|i: int| 0 <= i < rest.len() implies n(#[trigger] rest[i]) == q(
            rest[i],
        ) by {
            assert(rest[i] == todos[i + base]);
            assert(ids.contains(todos[i + base].id) <==> todos[i + base].status == status);
        }
        lemma_filter_agree(rest, n, q);
        assert(u == rest.filter(q));
        assert forall|i: int| 0 <= i < u.len() implies q(#[trigger] u[i]) by {
            assert(u[i].status != status);
        }
        lemma_filter_all(u, q);
        assert(section(r, other) == a.filter(q) + u);
    }
}

/// An applied reorder adds and loses no todo: every id stays known, every todo
/// that is not listed stays as it is, and a listed one changes at most in its
/// order and, with it, in the time of its last change.
pub proof fn reorder_keeps_todos(todos: Seq<TodoView>, ids: Seq<Seq<char>>, now: i64)
    requires
        reorder_verdict(todos, ids) is Applied,
        unique_ids(todos),
    ensures
        reordered(todos, ids, now).len() == todos.len(),
        unique_ids(reordered(todos, ids, now)),
        forall|x: Seq<char>| #[trigger]
            has_id(reordered(todos, ids, now), x) <==> has_id(todos, x),
        forall|x: Seq<char>|
            !ids.contains(x) ==> #[trigger] lookup(reordered(todos, ids, now), x) == lookup(
                todos,
                x,
            ),
        forall|j: int|
            0 <= j < ids.len() ==> lookup(reordered(todos, ids, now), #[trigger] ids[j]) == Some(
                renumbered(lookup(todos, ids[j]).unwrap(), j as i32, now),
            ),
{
    let status = choose|s: TodoStatus| lists_section(todos, ids, s);
    lemma_reordered_parts(todos, ids, status, now);
    let base = first_listed(todos, ids);
    let a = todos.take(base);
    let m = listed_todos(todos, ids, now);
    let rest = todos.skip(base);
    let u = unlisted(rest, ids);
    let r = reordered(todos, ids, now);
    let n = |t: TodoView| !ids.contains(t.id);
    let nm = ids.len() as int;
    assert(forall|i: int| 0 <= i < base ==> #[trigger] r[i] == todos[i]);
    assert(forall|i: int| base <= i < base + nm ==> #[trigger] r[i] == m[i - base]);
    assert(forall|i: int| base + nm <= i < r.len() ==> #[trigger] r[i] == u[i - base - nm]);
    assert forall|i: int, j: int| 0 <= i < j < u.len() implies (#[trigger] u[i]).id != (
    #[trigger] u[j]).id by {
        lemma_filter_places(rest, n, i, j);
        let (x, y) = choose|x: int, y: int|
            0 <= x < y < rest.len() && u[i] == #[trigger] rest[x] && u[j] == #[trigger] rest[y]
                && n(rest[x]) && n(rest[y]);
        assert(rest[x] == todos[x + base] && rest[y] == todos[y + base]);
    }
    assert forall|i: int, j: int| 0 <= i < base && 0 <= j < u.len() implies (
    #[trigger] todos[i]).id != (#[trigger] u[j]).id by {
        assert(rest.contains(u[j]));
        let y = choose|y: int| 0 <= y < rest.len() && rest[y] == u[j];
        assert(rest[y] == todos[y + base]);
    }
    assert forall|i: int, j: int| 0 <= i < j < r.len() implies (#[trigger] r[i]).id != (
    #[trigger] r[j]).id by {
        if i < base {
            if j < base {
                assert(todos[i].id != todos[j].id);
            } else if j < base + nm {
                assert(m[j - base].id == ids[j - base]);
                assert(ids.contains(ids[j - base]));
            } else {
                assert(todos[i].id != u[j - base - nm].id);
            }
        } else if i < base + nm {
            assert(m[i - base].id == ids[i - base]);
            assert(ids.contains(ids[i - base]));
            if j < base + nm {
                assert(m[j - base].id == ids[j - base]);
            } else {
                assert(!ids.contains(u[j - base - nm].id));
            }
        } else {
            assert(u[i - base - nm].id != u[j - base - nm].id);
        }
    }
    assert(unique_ids(r));
    assert forall|j: int| 0 <= j < ids.len() implies lookup(r, #[trigger] ids[j]) == Some(
        renumbered(lookup(todos, ids[j]).unwrap(), j as i32, now),
    ) && has_id(r, ids[j]) && has_id(todos, ids[j]) by {
        assert(has_id(todos, ids[j]));
        assert(m[j].id == ids[j]);
        assert(r[base + j] == m[j]);
        lemma_unique_index(r, base + j);
    }
    assert forall|x: Seq<char>| !ids.contains(x) implies #[trigger] lookup(r, x) == lookup(
        todos,
        x,
    ) && (has_id(r, x) <==> has_id(todos, x)) by {
        if has_id(todos, x) {
            lemma_has_first(todos, x);
            let i = index_of(todos, x);
            if i < base {
                assert(r[i] == todos[i]);
                lemma_unique_index(r, i);
            } else {
                assert(rest[i - base] == todos[i]);
                rest.lemma_filter_contains(n, i - base);
                let y = choose|y: int| 0 <= y < u.len() && u[y] == todos[i];
                assert(r[base + nm + y] == todos[i]);
                lemma_unique_index(r, base + nm + y);
            }
        } else {
            assert forall|i: int| 0 <= i < r.len() implies (#[trigger] r[i]).id != x by {
                if i < base {
                    assert(todos[i].id != x);
                } else if i < base + nm {
                    assert(m[i - base].id == ids[i - base]);
                    assert(ids.contains(ids[i - base]));
                } else {
                    let y = i - base - nm;
                    assert(rest.contains(u[y]));
                    let z = choose|z: int| 0 <= z < rest.len() && rest[z] == u[y];
                    assert(todos[z + base].id != x);
                }
            }
        }
    }
    assert forall|x: Seq<char>| #[trigger] has_id(r, x) <==> has_id(todos, x) by {
        if ids.contains(x) {
            let j = choose|j: int| 0 <= j < ids.len() && ids[j] == x;
            assert(has_id(r, ids[j]));
        } else {
            assert(lookup(r, x) == lookup(todos, x));
        }
    }
    lemma_same_ids_same_len(r, todos);
}

proof fn lemma_same_ids_same_len(a: Seq<TodoView>, b: Seq<TodoView>)
    requires
        unique_ids(a),
        unique_ids(b),
        forall|x: Seq<char>| #[trigger] has_id(a, x) <==> has_id(b, x),
    ensures
        a.len() == b.len(),
    decreases a.len(),
{
    if a.len() == 0 {
        if b.len() > 0 {
            assert(b[0].id == b[0].id);
            assert(has_id(b, b[0].id));
            assert(has_id(a, b[0].id));
        }
    } else {
        let last = a.last();
        assert(a[a.len() - 1].id == last.id);
        assert(has_id(a, last.id));
        assert(has_id(b, last.id));
        lemma_has_first(b, last.id);
        let k = index_of(b, last.id);
        let a1 = a.drop_last();
        let b1 = b.remove(k);
        assert(forall|i: int| 0 <= i < k ==> #[trigger] b1[i] == b[i]);
        assert(forall|i: int| k <= i < b1.len() ==> #[trigger] b1[i] == b[i + 1]);
        assert forall|x: Seq<char>| #[trigger] has_id(a1, x) <==> has_id(b1, x) by {
            if has_id(a1, x) {
                let i = choose|i: int| 0 <= i < a1.len() && (#[trigger] a1[i]).id == x;
                assert(a[i].id == x);
                assert(has_id(a, x));
                assert(has_id(b, x));
                let j = choose|j: int| 0 <= j < b.len() && (#[trigger] b[j]).id == x;
                assert(x != last.id);
                if j < k {
                    assert(b1[j].id == x);
                } else {
                    assert(b1[j - 1].id == x);
                }
            }
            if has_id(b1, x) {
                let j = choose|j: int| 0 <= j < b1.len() && (#[trigger] b1[j]).id == x;
                let jb = if j < k {
                    j
                } else {
                    j + 1
                };
                assert(b[jb].id == x);
                assert(has_id(b, x));
                assert(has_id(a, x));
                let i = choose|i: int| 0 <= i < a.len() && (#[trigger] a[i]).id == x;
                assert(b[jb].id != b[k].id);
                assert(a1[i].id == x);
            }
        }
        lemma_same_ids_same_len(a1, b1);
    }
}

proof fn lemma_section_rises(todos: Seq<TodoView>, s: TodoStatus)
    requires
        ranked(todos),
    ensures
        rising(section(todos, s)),
{
    lemma_ranked_sections(todos);
    assert(rising(section(todos, s)));
}

/// An applied reorder keeps sections ranked, as long as the new orders are the
/// places in the section.
pub proof fn reorder_keeps_ranks(todos: Seq<TodoView>, ids: Seq<Seq<char>>, now: i64)
    requires
        reorder_verdict(todos, ids) is Applied,
        ranked(todos),
        ids.len() <= i32::MAX,
    ensures
        ranked(reordered(todos, ids, now)),
{
    let status = choose|s: TodoStatus| lists_section(todos, ids, s);
    let r = reordered(todos, ids, now);
    assert forall|s: TodoStatus| rising(#[trigger] section(r, s)) by {
        lemma_reordered_section_rises(todos, ids, status, now, s);
    }
    lemma_ranked_sections(r);
}

proof fn lemma_reordered_section_rises(
    todos: Seq<TodoView>,
    ids: Seq<Seq<char>>,
    status: TodoStatus,
    now: i64,
    s: TodoStatus,
)
    requires
        reorder_verdict(todos, ids) is Applied,
        lists_section(todos, ids, status),
        ranked(todos),
        ids.len() <= i32::MAX,
    ensures
        rising(section(reordered(todos, ids, now), s)),
{
    let r = reordered(todos, ids, now);
    if s == status {
        let m = listed_todos(todos, ids, now);
        assert(section(r, s) == m) by {
            reorder_sets_one_section(todos, ids, status, now);
        }
        lemma_listed_rise(todos, ids, now);
    } else {
        assert(section(r, s) == section(todos, s)) by {
            reorder_sets_one_section(todos, ids, status, now);
        }
        lemma_section_rises(todos, s);
    }
}

proof fn lemma_listed_rise(todos: Seq<TodoView>, ids: Seq<Seq<char>>, now: i64)
    requires
        ids.len() <= i32::MAX,
    ensures
        rising(listed_todos(todos, ids, now)),
{
}

/// Asking for the same order again is followed, and changes nothing: no todo is
/// touched whose place did not change.
pub proof fn reorder_is_idempotent(
    todos: Seq<TodoView>,
    ids: Seq<Seq<char>>,
    now: i64,
    later: i64,
)
    requires
        reorder_verdict(todos, ids) is Applied,
    ensures
        reorder_verdict(reordered(todos, ids, now), ids) is Applied,
        reordered(reordered(todos, ids, now), ids, later) == reordered(todos, ids, now),
{
    let status = choose|s: TodoStatus| lists_section(todos, ids, s);
    lemma_reordered_parts(todos, ids, status, now);
    let base = first_listed(todos, ids);
    let a = todos.take(base);
    let m = listed_todos(todos, ids, now);
    let u = unlisted(todos.skip(base), ids);
    let r = reordered(todos, ids, now);
    let n = |t: TodoView| !ids.contains(t.id);
    let nm = ids.len() as int;
    assert(forall|i: int| 0 <= i < base ==> #[trigger] r[i] == todos[i]);
    assert(forall|i: int| base <= i < base + nm ==> #[trigger] r[i] == m[i - base]);
    assert(forall|i: int| base + nm <= i < r.len() ==> #[trigger] r[i] == u[i - base - nm]);
    assert forall|i: int| 0 <= i < r.len() implies (ids.contains((#[trigger] r[i]).id)
        <==> r[i].status == status) by {
        if base <= i < base + nm {
            assert(m[i - base].id == ids[i - base]);
            assert(ids.contains(ids[i - base]));
        } else if i >= base + nm {
            assert(!ids.contains(u[i - base - nm].id));
        } else {
            assert(!ids.contains(todos[i].id));
        }
    }
    assert(lists_section(r, ids, status));
    assert(m[0].id == ids[0]);
    assert(r[base] == m[0]);
    assert(ids.contains(ids[0]));
    assert(ids.contains(r[base].id));
    assert(is_first_listed(r, ids, base)) by {
        assert forall|j: int| 0 <= j < base implies !ids.contains((#[trigger] r[j]).id) by {
            assert(r[j] == todos[j]);
        }
    }
    lemma_first_listed(r, ids, base);
    assert forall|j: int| 0 <= j < ids.len() implies has_id(r, #[trigger] ids[j]) && index_of(
        r,
        ids[j],
    ) == base + j by {
        assert(m[j].id == ids[j]);
        assert(r[base + j] == m[j]);
        assert forall|i: int| 0 <= i < base + j implies (#[trigger] r[i]).id != ids[j] by {
            assert(ids.contains(ids[j]));
            if i < base {
                assert(!ids.contains(todos[i].id));
            } else {
                assert(m[i - base].id == ids[i - base]);
            }
        }
        assert(is_first(r, ids[j], base + j));
        lemma_index_of(r, ids[j], base + j);
    }
    assert(all_known(r, ids));
    let m2 = listed_todos(r, ids, later);
    assert forall|j: int| 0 <= j < ids.len() implies #[trigger] m2[j] == m[j] by {
        assert(index_of(r, ids[j]) == base + j);
        assert(r[base + j] == m[j]);
        assert(m[j].order == j as i32);
    }
    assert(m2 == m);
    assert(r.take(base) == a);
    assert(r.skip(base) == m + u);
    Seq::filter_distributes_over_add(m, u, n);
    assert forall|j: int| 0 <= j < m.len() implies !n(#[trigger] m[j]) by {
        assert(m[j].id == ids[j]);
        assert(ids.contains(ids[j]));
    }
    lemma_filter_none(m, n);
    lemma_filter_all(u, n);
    assert(unlisted(r.skip(base), ids) == u);
}

/// A list has one stable sort only.
pub proof fn stable_sort_is_unique(a: Seq<TodoView>, b: Seq<TodoView>, todos: Seq<TodoView>)
    requires
        is_stable_sort(a, todos),
        is_stable_sort(b, todos),
    ensures
        a == b,
{
    assert forall|order: i32| #[trigger] with_order(a, order) == with_order(b, order) by {
        assert(with_order(a, order) == with_order(todos, order));
        assert(with_order(b, order) == with_order(todos, order));
    }
    lemma_same_sorted(a, b);
}

proof fn lemma_last_with_order(a: Seq<TodoView>)
    requires
        a.len() > 0,
    ensures
        with_order(a, a.last().order).len() > 0,
        with_order(a, a.last().order).last() == a.last(),
        with_order(a, a.last().order).drop_last() == with_order(a.drop_last(), a.last().order),
        forall|order: i32|
            order != a.last().order ==> #[trigger] with_order(a, order) == with_order(
                a.drop_last(),
                order,
            ),
{
    reveal(Seq::filter);
    let k = a.last().order;
    let p = |t: TodoView| t.order == k;
    assert(with_order(a, k) == a.drop_last().filter(p).push(a.last()));
    assert(with_order(a, k).drop_last() == a.drop_last().filter(p));
}

proof fn lemma_same_sorted(a: Seq<TodoView>, b: Seq<TodoView>)
    requires
        sorted_by_order(a),
        sorted_by_order(b),
        forall|order: i32| #[trigger] with_order(a, order) == with_order(b, order),
    ensures
        a == b,
    decreases a.len(),
{
    if a.len() == 0 {
        if b.len() > 0 {
            lemma_last_with_order(b);
            lemma_filter_none(a, |t: TodoView| t.order == b.last().order);
            assert(with_order(a, b.last().order) == with_order(b, b.last().order));
        }
    } else {
        let ka = a.last().order;
        lemma_last_with_order(a);
        assert(with_order(a, ka) == with_order(b, ka));
        lemma_order_present(b, ka);
        let kb = b.last().order;
        lemma_last_with_order(b);
        assert(with_order(a, kb) == with_order(b, kb));
        lemma_order_present(a, kb);
        assert(ka == kb);
        assert(a.last() == b.last());
        let a1 = a.drop_last();
        let b1 = b.drop_last();
        assert forall|order: i32| #[trigger] with_order(a1, order) == with_order(b1, order) by {
            assert(with_order(a, order) == with_order(b, order));
        }
        lemma_same_sorted(a1, b1);
        assert(a == a1.push(a.last()));
        assert(b == b1.push(b.last()));
    }
}

proof fn lemma_order_present(b: Seq<TodoView>, k: i32)
    requires
        sorted_by_order(b),
        with_order(b, k).len() > 0,
    ensures
        b.len() > 0,
        b.last().order >= k,
{
    let p = |t: TodoView| t.order == k;
    let x = with_order(b, k)[0];
    b.lemma_filter_pred(p, 0);
    b.lemma_filter_contains_rev(p, x);
    let i = choose|i: int| 0 <= i < b.len() && b[i] == x;
    if i < b.len() - 1 {
        assert(b[i].order <= b[b.len() - 1].order);
    }
}

/// In a ranked list, sorting a section by order gives the section as it stands:
/// what a list shows in its own order survives a restart.
pub proof fn ranked_section_is_sorted(
    todos: Seq<TodoView>,
    status: TodoStatus,
    sorted: Seq<TodoView>,
)
    requires
        ranked(todos),
        is_stable_sort(sorted, section(todos, status)),
    ensures
        sorted == section(todos, status),
{
    lemma_ranked_sections(todos);
    assert(rising(section(todos, status)));
    stable_sort_is_unique(sorted, section(todos, status), section(todos, status));
}

/// One thing that is done to the list.
pub enum ListChange {
    Add {
        text: Seq<char>,
        attachment: Option<AttachmentView>,
        id: Seq<char>,
        now: i64,
    },
    Edit {
        id: Seq<char>,
        title: Option<Seq<char>>,
        status: Option<TodoStatus>,
        now: i64,
    },
    Delete { id: Seq<char> },
    Restore { todo: TodoView },
    Reorder { ids: Seq<Seq<char>>, now: i64 },
}

/// The list after a change.
pub open spec fn changed(todos: Seq<TodoView>, change: ListChange) -> Seq<TodoView> {
    match change {
        ListChange::Add { text, attachment, id, now } => todos.push(
            new_todo(todos, text, attachment, id, now),
        ),
        ListChange::Edit { id, title, status, now } => if has_id(todos, id) && (title is Some
            || status is Some) {
            edit_todos(todos, id, title, status, now)
        } else {
            todos
        },
        ListChange::Delete { id } => without(todos, id),
        ListChange::Restore { todo } => if has_id(todos, todo.id) {
            todos
        } else {
            put_back(todos, safe_todo(todo))
        },
        ListChange::Reorder { ids, now } => match reorder_verdict(todos, ids) {
            ReorderVerdict::Applied => reordered(todos, ids, now),
            _ => todos,
        },
    }
}

/// Whether a change meets what it relies on: new ids are fresh, orders fit, and
/// a restored todo's order was not given away meanwhile.
pub open spec fn is_proper(todos: Seq<TodoView>, change: ListChange) -> bool {
    match change {
        ListChange::Add { text: _, attachment: _, id, now: _ } => !has_id(todos, id) && has_room(
            todos,
            TodoStatus::Pending,
        ),
        ListChange::Edit { id, title: _, status, now: _ } => changes_section(todos, id, status)
            ==> has_room(todos, status.unwrap()),
        ListChange::Delete { id: _ } => true,
        ListChange::Restore { todo } => forall|i: int|
            0 <= i < todos.len() && (#[trigger] todos[i]).status == todo.status
                ==> todos[i].order != todo.order,
        ListChange::Reorder { ids, now: _ } => ids.len() <= i32::MAX,
    }
}

/// The list that starts empty, after a series of changes.
pub open spec fn after_changes(changes: Seq<ListChange>) -> Seq<TodoView>
    decreases changes.len(),
{
    if changes.len() == 0 {
        Seq::empty()
    } else {
        changed(after_changes(changes.drop_last()), changes.last())
    }
}

/// Every change keeps ids unique and sections ranked.
pub proof fn changes_keep_order(todos: Seq<TodoView>, change: ListChange)
    requires
        unique_ids(todos),
        ranked(todos),
        is_proper(todos, change),
    ensures
        unique_ids(changed(todos, change)),
        ranked(changed(todos, change)),
{
    match change {
        ListChange::Add { text, attachment, id, now } => {
            add_keeps_order(todos, text, attachment, id, now);
        },
        ListChange::Edit { id, title, status, now } => {
            if has_id(todos, id) {
                edit_keeps_order(todos, id, title, status, now);
            }
        },
        ListChange::Delete { id } => {
            delete_keeps_order(todos, id);
        },
        ListChange::Restore { todo } => {
            if !has_id(todos, todo.id) {
                restore_keeps_order(todos, safe_todo(todo));
            }
        },
        ListChange::Reorder { ids, now } => {
            if reorder_verdict(todos, ids) is Applied {
                reorder_keeps_todos(todos, ids, now);
                reorder_keeps_ranks(todos, ids, now);
            }
        },
    }
}

/// Whatever is done to a list that starts empty, no two todos ever share an id,
/// and each section reads the same in list order and sorted by order.
pub proof fn every_list_is_in_order(changes: Seq<ListChange>)
    requires
        forall|i: int|
            0 <= i < changes.len() ==> is_proper(
                after_changes(#[trigger] changes.take(i)),
                changes[i],
            ),
    ensures
        unique_ids(after_changes(changes)),
        ranked(after_changes(changes)),
        forall|s: TodoStatus, sorted: Seq<TodoView>| #[trigger]
            is_stable_sort(sorted, section(after_changes(changes), s)) ==> sorted == section(
                after_changes(changes),
                s,
            ),
    decreases changes.len(),
{
    if changes.len() > 0 {
        let init = changes.drop_last();
        assert forall|i: int| 0 <= i < init.len() implies is_proper(
            after_changes(#[trigger] init.take(i)),
            init[i],
        ) by {
            assert(init.take(i) == changes.take(i));
        }
        every_list_is_in_order(init);
        assert(changes.take(changes.len() - 1) == init);
        changes_keep_order(after_changes(init), changes.last());
    }
    assert forall|s: TodoStatus, sorted: Seq<TodoView>| #[trigger]
        is_stable_sort(sorted, section(after_changes(changes), s)) implies sorted == section(
        after_changes(changes),
        s,
    ) by {
        ranked_section_is_sorted(after_changes(changes), s, sorted);
    }
}

/// A file that some todo has is never among the left-over ones.
pub proof fn live_attachments_are_no_orphans(
    todos: Seq<TodoView>,
    files: Seq<Seq<char>>,
    file: Seq<char>,
)
    requires
        is_referenced(todos, file),
    ensures
        !orphans(todos, files).contains(file),
{
    let p = |f: Seq<char>| is_orphan(todos, f);
    if orphans(todos, files).contains(file) {
        let i = choose|i: int|
            0 <= i < orphans(todos, files).len() && orphans(todos, files)[i] == file;
        files.lemma_filter_pred(p, i);
    }
}

/// Whether `order` comes right behind the orders of a section: it is one above
/// some order there and above all of them, zero where there is none; and behind
/// the largest number comes the smallest.
pub open spec fn comes_behind(todos: Seq<TodoView>, status: TodoStatus, order: i32) -> bool {
    &&& (forall|j: int|
        0 <= j < todos.len() && (#[trigger] todos[j]).status == status ==> todos[j].order
            < i32::MAX) ==> {
        &&& forall|j: int|
            0 <= j < todos.len() && (#[trigger] todos[j]).status == status ==> todos[j].order
                < order
        &&& (exists|j: int|
            0 <= j < todos.len() && (#[trigger] todos[j]).status == status && order
                == todos[j].order + 1) || (order == 0 && forall|j: int|
            0 <= j < todos.len() ==> (#[trigger] todos[j]).status != status)
    }
    &&& (exists|j: int|
        0 <= j < todos.len() && (#[trigger] todos[j]).status == status && todos[j].order
            == i32::MAX) ==> order == i32::MIN
}

proof fn lemma_end_comes_behind(todos: Seq<TodoView>, status: TodoStatus)
    ensures
        comes_behind(todos, status, end_order(todos, status)),
{
    if exists|i: int| 0 <= i < todos.len() && (#[trigger] todos[i]).status == status {
        lemma_has_top_order(todos, status);
        let m = next_order(todos, status) - 1;
        let w = choose|i: int|
            0 <= i < todos.len() && (#[trigger] todos[i]).status == status && todos[i].order == m;
        assert(todos[w].order == m);
        if exists|j: int|
            0 <= j < todos.len() && (#[trigger] todos[j]).status == status && todos[j].order
                == i32::MAX {
            let j = choose|j: int|
                0 <= j < todos.len() && (#[trigger] todos[j]).status == status && todos[j].order
                    == i32::MAX;
            assert(todos[j].order <= m);
        }
    }
}

/// Looking up an id finds the first todo that has it, and nothing only where no
/// todo has it.
pub proof fn lookup_finds_the_first(todos: Seq<TodoView>, id: Seq<char>)
    ensures
        match lookup(todos, id) {
            Some(t) => exists|i: int|
                0 <= i < todos.len() && #[trigger] todos[i] == t && t.id == id && forall|j: int|
                    0 <= j < i ==> (#[trigger] todos[j]).id != id,
            None => forall|i: int| 0 <= i < todos.len() ==> (#[trigger] todos[i]).id != id,
        },
        has_id(todos, id) <==> lookup(todos, id) is Some,
{
    if has_id(todos, id) {
        lemma_has_first(todos, id);
        assert(todos[index_of(todos, id)] == lookup(todos, id).unwrap());
    } else {
        assert forall|i: int| 0 <= i < todos.len() implies (#[trigger] todos[i]).id != id by {
            if todos[i].id == id {
                assert(has_id(todos, id));
            }
        }
    }
}

/// A new todo is what was asked for: it has the given id, title and attachment,
/// it is pending and of the middle priority, it was made and last changed now,
/// has neither a due date nor tags, and ranks right behind its section.
pub proof fn new_todos_are_as_asked(
    todos: Seq<TodoView>,
    title: Seq<char>,
    attachment: Option<AttachmentView>,
    id: Seq<char>,
    now: i64,
)
    ensures
        ({
            let t = new_todo(todos, title, attachment, id, now);
            &&& t.id == id
            &&& t.title == title
            &&& t.status == TodoStatus::Pending
            &&& t.priority == TodoPriority::P2
            &&& t.created_at == now
            &&& t.updated_at == now
            &&& t.due_at is None
            &&& t.tags.len() == 0
            &&& t.attachment == attachment
            &&& comes_behind(todos, TodoStatus::Pending, t.order)
        }),
{
    lemma_end_comes_behind(todos, TodoStatus::Pending);
}

/// An edit keeps the todo's id, priority, time of making, due date, tags and
/// attachment. The title and the status are the given ones, or else the old
/// ones, and the todo was last changed now. Its order stays, unless its status
/// changes: then it ranks right behind its new section.
pub proof fn edits_change_what_is_given(
    todos: Seq<TodoView>,
    i: int,
    title: Option<Seq<char>>,
    status: Option<TodoStatus>,
    now: i64,
)
    requires
        0 <= i < todos.len(),
        forall|j: int| 0 <= j < i ==> (#[trigger] todos[j]).id != todos[i].id,
    ensures
        ({
            let old_todo = todos[i];
            let t = edit_result(todos, old_todo.id, title, status, now);
            &&& t.id == old_todo.id
            &&& t.priority == old_todo.priority
            &&& t.created_at == old_todo.created_at
            &&& t.due_at == old_todo.due_at
            &&& t.tags == old_todo.tags
            &&& t.attachment == old_todo.attachment
            &&& t.updated_at == now
            &&& t.title == if title is Some {
                title.unwrap()
            } else {
                old_todo.title
            }
            &&& t.status == if status is Some {
                status.unwrap()
            } else {
                old_todo.status
            }
            &&& t.status == old_todo.status ==> t.order == old_todo.order
            &&& t.status != old_todo.status ==> comes_behind(todos, t.status, t.order)
        }),
{
    let id = todos[i].id;
    assert(is_first(todos, id, i));
    lemma_index_of(todos, id, i);
    if status is Some {
        lemma_end_comes_behind(todos, status.unwrap());
    }
}

/// An edit leaves every other todo as it is. A todo that keeps its status keeps
/// its place; one that changes it goes to the end of the list, and those behind
/// its old place close up.
pub proof fn edits_leave_the_others_alone(
    todos: Seq<TodoView>,
    i: int,
    title: Option<Seq<char>>,
    status: Option<TodoStatus>,
    now: i64,
)
    requires
        0 <= i < todos.len(),
        forall|j: int| 0 <= j < i ==> (#[trigger] todos[j]).id != todos[i].id,
    ensures
        ({
            let t = edit_result(todos, todos[i].id, title, status, now);
            let r = edit_todos(todos, todos[i].id, title, status, now);
            let moves = status is Some && status.unwrap() != todos[i].status;
            &&& r.len() == todos.len()
            &&& forall|j: int| 0 <= j < i ==> #[trigger] r[j] == todos[j]
            &&& !moves ==> r[i] == t && forall|j: int|
                i < j < r.len() ==> #[trigger] r[j] == todos[j]
            &&& moves ==> r[r.len() - 1] == t && forall|j: int|
                i <= j < r.len() - 1 ==> #[trigger] r[j] == todos[j + 1]
        }),
{
    let id = todos[i].id;
    assert(is_first(todos, id, i));
    lemma_index_of(todos, id, i);
}

/// A deletion takes out the first todo that has the id, and no other; where no
/// todo has it, nothing is taken out.
pub proof fn deletions_take_out_one(todos: Seq<TodoView>, id: Seq<char>, i: int)
    ensures
        0 <= i < todos.len() && todos[i].id == id && (forall|j: int|
            0 <= j < i ==> (#[trigger] todos[j]).id != id) ==> {
            let r = without(todos, id);
            &&& lookup(todos, id) == Some(todos[i])
            &&& r.len() == todos.len() - 1
            &&& forall|j: int| 0 <= j < i ==> #[trigger] r[j] == todos[j]
            &&& forall|j: int| i <= j < r.len() ==> #[trigger] r[j] == todos[j + 1]
        },
        (forall|j: int| 0 <= j < todos.len() ==> (#[trigger] todos[j]).id != id) ==> without(
            todos,
            id,
        ) == todos,
{
    if 0 <= i < todos.len() && todos[i].id == id && (forall|j: int|
        0 <= j < i ==> (#[trigger] todos[j]).id != id) {
        assert(is_first(todos, id, i));
        lemma_index_of(todos, id, i);
    }
}

/// Whether `r` is the list with `t` at the place `n`, where it stands in rank:
/// no todo of its section that ranks behind it stands in front of it, and right
/// behind it stands one that does, unless it is the last.
pub open spec fn stands_in_rank(
    todos: Seq<TodoView>,
    r: Seq<TodoView>,
    t: TodoView,
    n: int,
) -> bool {
    &&& 0 <= n <= todos.len()
    &&& r.len() == todos.len() + 1
    &&& r[n] == t
    &&& forall|j: int| 0 <= j < n ==> #[trigger] r[j] == todos[j]
    &&& forall|j: int| n < j < r.len() ==> #[trigger] r[j] == todos[j - 1]
    &&& forall|j: int|
        0 <= j < n && (#[trigger] todos[j]).status == t.status ==> todos[j].order <= t.order
    &&& n < todos.len() ==> todos[n].status == t.status && todos[n].order > t.order
}

/// A todo that is put back stands among the others, which keep their order: no
/// todo of its section that ranks behind it stands in front of it, and right
/// behind it stands one that does, unless it is the last.
pub proof fn todos_are_put_back_in_rank(todos: Seq<TodoView>, t: TodoView)
    ensures
        exists|n: int| #[trigger] stands_in_rank(todos, put_back(todos, t), t, n),
{
    lemma_has_slot(todos, t);
    let n = slot_for(todos, t);
    let r = put_back(todos, t);
    assert(r[n] == t);
    assert forall|j: int|
        0 <= j < n && (#[trigger] todos[j]).status == t.status implies todos[j].order
        <= t.order by {
        assert(!is_later(t, todos[j]));
    }
    assert(stands_in_rank(todos, r, t, n));
}

/// What comes back from outside loses at most its attachment: every other field
/// of a todo stays, and so does its attachment where its file's name leads
/// nowhere else and is that of an image.
pub proof fn safe_todos_keep_their_content(t: TodoView)
    ensures
        ({
            let s = safe_todo(t);
            &&& s.id == t.id
            &&& s.title == t.title
            &&& s.status == t.status
            &&& s.priority == t.priority
            &&& s.created_at == t.created_at
            &&& s.updated_at == t.updated_at
            &&& s.due_at == t.due_at
            &&& s.tags == t.tags
            &&& s.order == t.order
            &&& t.attachment is None ==> s.attachment is None
            &&& t.attachment is Some && is_kept_name(t.attachment.unwrap().file)
                ==> s.attachment == t.attachment
        }),
{
    if t.attachment is Some && is_kept_name(t.attachment.unwrap().file) {
        image_names_are_kept(t.attachment.unwrap());
    }
}

/// Undoing a deletion brings back the same todo, whatever its status: with the
/// same title, times, tags and order, and with its image, whose file has a name
/// that the library makes. No other todo changes, and in a ranked list both
/// sections read as they did before.
pub proof fn undo_brings_back_the_whole_todo(
    todos: Seq<TodoView>,
    k: int,
    uuid: Seq<char>,
    ext: Seq<char>,
)
    requires
        0 <= k < todos.len(),
        unique_ids(todos),
        todos[k].attachment is Some ==> {
            &&& is_uuid(uuid)
            &&& ext == "gif"@ || ext == "png"@ || ext == "jpg"@
            &&& todos[k].attachment.unwrap().file == uuid + seq!['.'] + ext
        },
    ensures
        ({
            let t = todos[k];
            let deleted = without(todos, t.id);
            let restored = put_back(deleted, safe_todo(t));
            &&& lookup(todos, t.id) == Some(t)
            &&& forall|i: int| 0 <= i < deleted.len() ==> (#[trigger] deleted[i]).id != t.id
            &&& safe_todo(t) == t
            &&& restored.len() == todos.len()
            &&& restored.contains(t)
            &&& lookup(restored, t.id) == Some(t)
            &&& forall|i: int| 0 <= i < todos.len() ==> restored.contains(#[trigger] todos[i])
            &&& ranked(todos) ==> restored.filter(|x: TodoView| x.status == TodoStatus::Pending)
                == todos.filter(|x: TodoView| x.status == TodoStatus::Pending)
            &&& ranked(todos) ==> restored.filter(|x: TodoView| x.status == TodoStatus::Done)
                == todos.filter(|x: TodoView| x.status == TodoStatus::Done)
        }),
{
    let t = todos[k];
    let deleted = without(todos, t.id);
    if t.attachment is Some {
        made_names_are_kept(uuid, ext);
    }
    safe_todos_keep_their_content(t);
    assert(safe_todo(t) == t);
    lemma_unique_index(todos, k);
    assert(is_first(todos, t.id, k));
    deletions_take_out_one(todos, t.id, k);
    assert forall|i: int| 0 <= i < deleted.len() implies (#[trigger] deleted[i]).id != t.id by {
        if i < k {
            assert(deleted[i] == todos[i]);
        } else {
            assert(deleted[i] == todos[i + 1]);
        }
    }
    todos_are_put_back_in_rank(deleted, t);
    let restored = put_back(deleted, t);
    let n = choose|n: int| #[trigger] stands_in_rank(deleted, restored, t, n);
    assert(restored[n] == t);
    assert forall|j: int| 0 <= j < n implies (#[trigger] restored[j]).id != t.id by {
        assert(restored[j] == deleted[j]);
    }
    assert(is_first(restored, t.id, n));
    lemma_index_of(restored, t.id, n);
    assert forall|i: int| 0 <= i < todos.len() implies restored.contains(#[trigger] todos[i]) by {
        if i != k {
            let d = if i < k {
                i
            } else {
                i - 1
            };
            assert(deleted[d] == todos[i]);
            if d < n {
                assert(restored[d] == todos[i]);
            } else {
                assert(restored[d + 1] == todos[i]);
            }
        }
    }
    if ranked(todos) {
        restore_undoes_delete(todos, t.id);
        assert(section(restored, TodoStatus::Pending) == section(todos, TodoStatus::Pending));
        assert(section(restored, TodoStatus::Done) == section(todos, TodoStatus::Done));
    }
}

/// A request that lists the ids of one section, all of them and each once, is
/// followed, and keeps every todo whole. Each todo of the old list has its
/// counterpart in the new one, with the same id, title, status, priority, time
/// of making, due date, tags and attachment. Only the listed ones may get
/// another order, and only where that changes are they touched.
pub proof fn reorder_keeps_each_todo_whole(
    todos: Seq<TodoView>,
    ids: Seq<Seq<char>>,
    status: TodoStatus,
    now: i64,
)
    requires
        unique_ids(todos),
        ids.len() > 0,
        ids.no_duplicates(),
        forall|i: int|
            0 <= i < todos.len() ==> (ids.contains((#[trigger] todos[i]).id) <==> todos[i].status
                == status),
        forall|j: int|
            0 <= j < ids.len() ==> exists|i: int|
                0 <= i < todos.len() && (#[trigger] todos[i]).id == #[trigger] ids[j],
    ensures
        reorder_verdict(todos, ids) is Applied,
        ({
            let r = reordered(todos, ids, now);
            &&& r.len() == todos.len()
            &&& forall|i: int|
                0 <= i < todos.len() ==> exists|k: int|
                    0 <= k < r.len() && (#[trigger] r[k]).id == (#[trigger] todos[i]).id
            &&& forall|i: int, k: int|
                0 <= i < todos.len() && 0 <= k < r.len() && (#[trigger] todos[i]).id == (
                #[trigger] r[k]).id ==> {
                    &&& r[k].id == todos[i].id
                    &&& r[k].title == todos[i].title
                    &&& r[k].status == todos[i].status
                    &&& r[k].priority == todos[i].priority
                    &&& r[k].created_at == todos[i].created_at
                    &&& r[k].due_at == todos[i].due_at
                    &&& r[k].tags == todos[i].tags
                    &&& r[k].attachment == todos[i].attachment
                    &&& todos[i].status != status ==> r[k].order == todos[i].order
                    &&& r[k].order == todos[i].order ==> r[k].updated_at == todos[i].updated_at
                    &&& r[k].order != todos[i].order ==> r[k].updated_at == now
                }
        }),
{
    lemma_applied(todos, ids, status);
    reorder_keeps_todos(todos, ids, now);
    let r = reordered(todos, ids, now);
    assert forall|i: int| 0 <= i < todos.len() implies exists|k: int|
        0 <= k < r.len() && (#[trigger] r[k]).id == (#[trigger] todos[i]).id by {
        assert(has_id(todos, todos[i].id));
        assert(has_id(r, todos[i].id));
    }
    assert forall|i: int, k: int|
        0 <= i < todos.len() && 0 <= k < r.len() && (#[trigger] todos[i]).id == (
        #[trigger] r[k]).id implies {
        &&& r[k].id == todos[i].id
        &&& r[k].title == todos[i].title
        &&& r[k].status == todos[i].status
        &&& r[k].priority == todos[i].priority
        &&& r[k].created_at == todos[i].created_at
        &&& r[k].due_at == todos[i].due_at
        &&& r[k].tags == todos[i].tags
        &&& r[k].attachment == todos[i].attachment
        &&& todos[i].status != status ==> r[k].order == todos[i].order
        &&& r[k].order == todos[i].order ==> r[k].updated_at == todos[i].updated_at
        &&& r[k].order != todos[i].order ==> r[k].updated_at == now
    } by {
        let x = todos[i].id;
        lemma_unique_index(todos, i);
        lemma_unique_index(r, k);
        if ids.contains(x) {
            let j = choose|j: int| 0 <= j < ids.len() && ids[j] == x;
            assert(lookup(r, ids[j]) == Some(
                renumbered(lookup(todos, ids[j]).unwrap(), j as i32, now),
            ));
        } else {
            assert(lookup(r, x) == lookup(todos, x));
        }
    }
}

proof fn lemma_applied(todos: Seq<TodoView>, ids: Seq<Seq<char>>, status: TodoStatus)
    requires
        ids.len() > 0,
        ids.no_duplicates(),
        forall|i: int|
            0 <= i < todos.len() ==> (ids.contains((#[trigger] todos[i]).id) <==> todos[i].status
                == status),
        forall|j: int|
            0 <= j < ids.len() ==> exists|i: int|
                0 <= i < todos.len() && (#[trigger] todos[i]).id == #[trigger] ids[j],
    ensures
        reorder_verdict(todos, ids) is Applied,
        lists_section(todos, ids, status),
{
    assert(lists_section(todos, ids, status));
    assert forall|j: int| 0 <= j < ids.len() implies has_id(todos, #[trigger] ids[j]) by {
        let i = choose|i: int| 0 <= i < todos.len() && (#[trigger] todos[i]).id == ids[j];
        assert(todos[i].id == ids[j]);
    }
    assert(has_id(todos, ids[0]));
    let i = choose|i: int| 0 <= i < todos.len() && (#[trigger] todos[i]).id == ids[0];
    assert(ids.contains(ids[0]));
    assert(ids.contains(todos[i].id));
}

/// After such a request the listed todos stand together where the first of them
/// stood, in the listed order and numbered from zero. What stood in front of
/// them stays in its place, and the others follow in the order that they had.
pub proof fn reorder_puts_the_listed_together(
    todos: Seq<TodoView>,
    ids: Seq<Seq<char>>,
    status: TodoStatus,
    base: int,
    now: i64,
)
    requires
        ids.len() > 0,
        ids.no_duplicates(),
        forall|i: int|
            0 <= i < todos.len() ==> (ids.contains((#[trigger] todos[i]).id) <==> todos[i].status
                == status),
        forall|j: int|
            0 <= j < ids.len() ==> exists|i: int|
                0 <= i < todos.len() && (#[trigger] todos[i]).id == #[trigger] ids[j],
        0 <= base < todos.len(),
        todos[base].status == status,
        forall|i: int| 0 <= i < base ==> (#[trigger] todos[i]).status != status,
    ensures
        reorder_verdict(todos, ids) is Applied,
        ({
            let r = reordered(todos, ids, now);
            &&& base + ids.len() <= r.len()
            &&& forall|i: int| 0 <= i < base ==> #[trigger] r[i] == todos[i]
            &&& forall|j: int|
                0 <= j < ids.len() ==> (#[trigger] r[base + j]).id == ids[j] && (ids.len()
                    <= i32::MAX ==> r[base + j].order == j)
            &&& r.skip(base + ids.len()) == todos.skip(base).filter(
                |t: TodoView| t.status != status,
            )
        }),
{
    lemma_applied(todos, ids, status);
    lemma_reordered_parts(todos, ids, status, now);
    assert(is_first_listed(todos, ids, base)) by {
        assert forall|j: int| 0 <= j < base implies !ids.contains((#[trigger] todos[j]).id) by {
            assert(todos[j].status != status);
        }
    }
    lemma_first_listed(todos, ids, base);
    let m = listed_todos(todos, ids, now);
    let rest = todos.skip(base);
    let u = unlisted(rest, ids);
    let r = reordered(todos, ids, now);
    assert forall|j: int| 0 <= j < ids.len() implies (#[trigger] r[base + j]).id == ids[j] && (
    ids.len() <= i32::MAX ==> r[base + j].order == j) by {
        assert(r[base + j] == m[j]);
    }
    let p = |t: TodoView| !ids.contains(t.id);
    let q = |t: TodoView| t.status != status;
    assert forall|i: int| 0 <= i < rest.len() implies p(#[trigger] rest[i]) == q(rest[i]) by {
        assert(rest[i] == todos[i + base]);
        assert(ids.contains(todos[i + base].id) <==> todos[i + base].status == status);
    }
    lemma_filter_agree(rest, p, q);
    assert(r.skip(base + ids.len()) == u);
}

/// Each of the listed todos is then the first that has the listed id, and but for
/// its order and the time of its last change it is as it was.
pub proof fn listed_todos_stay_whole(
    todos: Seq<TodoView>,
    ids: Seq<Seq<char>>,
    status: TodoStatus,
    base: int,
    j: int,
    i: int,
    now: i64,
)
    requires
        ids.no_duplicates(),
        forall|k: int|
            0 <= k < todos.len() ==> (ids.contains((#[trigger] todos[k]).id) <==> todos[k].status
                == status),
        forall|k: int|
            0 <= k < ids.len() ==> exists|h: int|
                0 <= h < todos.len() && (#[trigger] todos[h]).id == #[trigger] ids[k],
        0 <= base < todos.len(),
        todos[base].status == status,
        forall|k: int| 0 <= k < base ==> (#[trigger] todos[k]).status != status,
        0 <= j < ids.len(),
        0 <= i < todos.len(),
        todos[i].id == ids[j],
        forall|k: int| 0 <= k < i ==> (#[trigger] todos[k]).id != ids[j],
    ensures
        ({
            let t = reordered(todos, ids, now)[base + j];
            &&& t.id == todos[i].id
            &&& t.title == todos[i].title
            &&& t.status == todos[i].status
            &&& t.priority == todos[i].priority
            &&& t.created_at == todos[i].created_at
            &&& t.due_at == todos[i].due_at
            &&& t.tags == todos[i].tags
            &&& t.attachment == todos[i].attachment
            &&& t.order == todos[i].order ==> t.updated_at == todos[i].updated_at
            &&& t.order != todos[i].order ==> t.updated_at == now
        }),
{
    lemma_applied(todos, ids, status);
    lemma_reordered_parts(todos, ids, status, now);
    assert(is_first_listed(todos, ids, base)) by {
        assert forall|k: int| 0 <= k < base implies !ids.contains((#[trigger] todos[k]).id) by {
            assert(todos[k].status != status);
        }
    }
    lemma_first_listed(todos, ids, base);
    assert(is_first(todos, ids[j], i));
    lemma_index_of(todos, ids[j], i);
    assert(reordered(todos, ids, now)[base + j] == listed_todos(todos, ids, now)[j]);
}

/// A request that lists nothing, a todo twice, no todo of the list, or an
/// unknown id beside one whole section is not followed, and is no error either.
pub proof fn requests_that_are_ignored(
    todos: Seq<TodoView>,
    ids: Seq<Seq<char>>,
    status: TodoStatus,
    unknown: int,
)
    requires
        ids.len() == 0 || (exists|a: int, b: int|
            0 <= a < b < ids.len() && #[trigger] ids[a] == #[trigger] ids[b]) || (forall|i: int|
            0 <= i < todos.len() ==> !ids.contains((#[trigger] todos[i]).id)) || (0 <= unknown
            < ids.len() && (forall|i: int|
            0 <= i < todos.len() ==> (#[trigger] todos[i]).id != ids[unknown]) && (forall|i: int|
            0 <= i < todos.len() ==> (ids.contains((#[trigger] todos[i]).id) <==> todos[i].status
                == status))),
    ensures
        reorder_verdict(todos, ids) is Ignored,
{
    if ids.len() > 0 && ids.no_duplicates() && some_listed(todos, ids) {
        assert(forall|i: int|
            0 <= i < todos.len() ==> (#[trigger] todos[i]).id != ids[unknown]);
        assert(!has_id(todos, ids[unknown]));
        assert(!all_known(todos, ids));
        assert(lists_section(todos, ids, status));
    }
}

/// Sorting a section gives its todos, all of them and no others, by rising
/// order; those of equal order stay as they followed each other in the list.
pub proof fn sorted_sections_are_complete(
    todos: Seq<TodoView>,
    status: TodoStatus,
    sorted: Seq<TodoView>,
    order: i32,
)
    requires
        is_stable_sort(sorted, section(todos, status)),
    ensures
        forall|i: int, j: int|
            0 <= i < j < sorted.len() ==> (#[trigger] sorted[i]).order <= (
            #[trigger] sorted[j]).order,
        sorted.filter(|t: TodoView| t.order == order) == todos.filter(
            |t: TodoView| t.status == status && t.order == order,
        ),
        forall|t: TodoView| #[trigger]
            sorted.contains(t) <==> todos.contains(t) && t.status == status,
{
    let p = |t: TodoView| t.status == status;
    let sec = section(todos, status);
    let at_order = |t: TodoView| t.order == order;
    let both = |t: TodoView| t.status == status && t.order == order;
    assert(with_order(sorted, order) == with_order(sec, order));
    lemma_filter_twice(todos, p, at_order, both);
    assert forall|t: TodoView| #[trigger] sorted.contains(t) <==> todos.contains(t) && t.status
        == status by {
        let q = |x: TodoView| x.order == t.order;
        assert(with_order(sorted, t.order) == with_order(sec, t.order));
        if sorted.contains(t) {
            let i = choose|i: int| 0 <= i < sorted.len() && sorted[i] == t;
            sorted.lemma_filter_contains(q, i);
            sec.lemma_filter_contains_rev(q, t);
            todos.lemma_filter_contains_rev(p, t);
            let k = choose|k: int| 0 <= k < sec.len() && sec[k] == t;
            todos.lemma_filter_pred(p, k);
        }
        if todos.contains(t) && t.status == status {
            let i = choose|i: int| 0 <= i < todos.len() && todos[i] == t;
            todos.lemma_filter_contains(p, i);
            let k = choose|k: int| 0 <= k < sec.len() && sec[k] == t;
            sec.lemma_filter_contains(q, k);
            sorted.lemma_filter_contains_rev(q, t);
        }
    }
}

proof fn lemma_filter_twice(
    s: Seq<TodoView>,
    p: spec_fn(TodoView) -> bool,
    q: spec_fn(TodoView) -> bool,
    both: spec_fn(TodoView) -> bool,
)
    requires
        forall|t: TodoView| #[trigger] both(t) == (p(t) && q(t)),
    ensures
        s.filter(p).filter(q) == s.filter(both),
    decreases s.len(),
{
    if s.len() == 0 {
        lemma_filter_none(s, p);
        lemma_filter_none(s, both);
        lemma_filter_none(s.filter(p), q);
    } else {
        let init = s.drop_last();
        lemma_filter_twice(init, p, q, both);
        assert(s == init.push(s.last()));
        lemma_filter_push(init, s.last(), p);
        lemma_filter_push(init, s.last(), both);
        let t = s.last();
        assert(both(t) == (p(t) && q(t)));
        if p(t) {
            assert(init.filter(p) + kept(t, p) == init.filter(p).push(t));
            lemma_filter_push(init.filter(p), t, q);
        } else {
            assert(init.filter(p) + kept(t, p) == init.filter(p));
            assert(init.filter(both) + kept(t, both) == init.filter(both));
        }
    }
}

/// Whether some todo of the list has the file `f`.
pub open spec fn some_todo_has(todos: Seq<TodoView>, f: Seq<char>) -> bool {
    exists|i: int|
        0 <= i < todos.len() && (#[trigger] todos[i]).attachment is Some
            && todos[i].attachment.unwrap().file == f
}

/// Of the files in the attachments directory, those are left over that no todo
/// has, whatever its status, and whose names lead nowhere else; they are named
/// in the order in which they were found.
pub proof fn left_over_files_belong_to_no_todo(todos: Seq<TodoView>, files: Seq<Seq<char>>)
    ensures
        orphans(todos, files) == files.filter(
            |f: Seq<char>| leads_nowhere_else(f) && !some_todo_has(todos, f),
        ),
{
    let p = |f: Seq<char>| is_orphan(todos, f);
    let q = |f: Seq<char>| leads_nowhere_else(f) && !some_todo_has(todos, f);
    assert forall|i: int| 0 <= i < files.len() implies p(#[trigger] files[i]) == q(files[i]) by {
        let f = files[i];
        plain_names_lead_nowhere_else(f);
        if is_referenced(todos, f) {
            let k = choose|k: int|
                0 <= k < todos.len() && match (#[trigger] todos[k]).attachment {
                    Some(a) => a.file == f,
                    None => false,
                };
            assert(todos[k].attachment is Some);
        }
        if some_todo_has(todos, f) {
            let k = choose|k: int|
                0 <= k < todos.len() && (#[trigger] todos[k]).attachment is Some
                    && todos[k].attachment.unwrap().file == f;
            assert(todos[k].attachment == Some(todos[k].attachment.unwrap()));
        }
    }
    lemma_filter_agree(files, p, q);
}

} // verus!
