//! The store: the document in memory, where it is kept on disk, and how often
//! it has changed.
use vstd::prelude::*;

use crate::attachment::{is_plain_name, plain_name, safe_attachment, safe_todo};
use crate::external::{is_uuid, new_uuid, now_millis};
use crate::path::{child_of, parent_of, path_of, DataPath, PathView};
use crate::platform::Platform;
use crate::sections::{
    all_known, edit_result, edit_todos, edited, end_order, has_id, index_of, is_first,
    is_first_listed, is_later, is_stable_sort, is_top_order, lemma_first_listed, lemma_index_of,
    lemma_next_order, lemma_slot_for, lemma_sorted_insert, listed_todos, lists_section, lookup,
    new_todo, put_back, renumbered, reorder_verdict, reordered, section, some_listed, unlisted,
    without, ReorderVerdict,
};
use crate::seqs::lemma_filter_push;
use crate::todo::{
    attachment_of, clone_todos, empty_document, text_of, texts, todo_of, todo_views, PinMode,
    StoreData, StoreDataView, Todo, TodoAttachment, TodoPriority, TodoSnapshot, TodoStatus,
    TodoView, WindowGeom,
};

verus! {

/// Why the store refuses a request.
#[derive(Debug, Clone, Copy, PartialEq, Eq, Structural)]
pub enum StoreError {
    /// No todo has the given id.
    NotFound,
    /// A reorder request does not list exactly the todos of one section.
    NotOneSection,
    /// It is not known where the document is kept.
    NoDataPath,
}

/// What the store records. `generation` counts the changes made to `data`.
#[verifier::ext_equal]
pub struct StoreView {
    pub data: StoreDataView,
    pub data_path: Option<PathView>,
    pub generation: u64,
}

/// The number of the generation that follows `g`; the last one stays.
pub open spec fn next_generation(g: u64) -> u64 {
    if g < u64::MAX {
        (g + 1) as u64
    } else {
        g
    }
}

impl StoreView {
    /// The store after its document became `data`.
    pub open spec fn with_data(self, data: StoreDataView) -> StoreView {
        StoreView { data, generation: next_generation(self.generation), ..self }
    }

    /// The store after its list of todos became `todos`.
    pub open spec fn with_todos(self, todos: Seq<TodoView>) -> StoreView {
        self.with_data(StoreDataView { todos, ..self.data })
    }
}

/// The document, the place where it is kept and the number of its generation.
#[derive(Debug)]
pub struct Store {
    data: StoreData,
    data_path: Option<DataPath>,
    generation: u64,
}

impl View for Store {
    type V = StoreView;

    closed spec fn view(&self) -> StoreView {
        StoreView {
            data: self.data@,
            data_path: path_of(self.data_path),
            generation: self.generation,
        }
    }
}

/// What was found where the document is kept.
#[derive(Debug)]
pub enum LoadOutcome {
    /// There is no file.
    Missing,
    /// The file holds this document.
    Loaded(StoreData),
    /// The file could not be read as a document.
    Corrupt,
}

/// What is to be done on disk before the store is used.
#[derive(Debug)]
pub enum LoadAction {
    Nothing,
    /// Create this directory, with all above it.
    CreateDir(DataPath),
    /// Set the unreadable document aside.
    BackUp,
}

/// The document that the store starts with.
pub open spec fn loaded_document(found: LoadOutcome) -> StoreDataView {
    match found {
        LoadOutcome::Loaded(data) => data@,
        _ => empty_document(),
    }
}

/// A document on its way to disk.
#[derive(Debug)]
pub struct PersistJob {
    pub path: DataPath,
    pub data: StoreData,
    pub generation: u64,
}

/// `new` where it is given, `old` where it is not.
pub open spec fn newer<A>(new: Option<A>, old: Option<A>) -> Option<A> {
    if new is Some {
        new
    } else {
        old
    }
}

/// The pin mode in force.
pub open spec fn effective_pin_mode(chosen: Option<PinMode>) -> PinMode {
    match chosen {
        Some(mode) => mode,
        None => PinMode::PinBottom,
    }
}

/// The quick-add shortcut of a platform where none was chosen.
pub open spec fn default_shortcut(platform: Platform) -> Seq<char> {
    match platform {
        Platform::MacOs => "Cmd+Shift+Space"@,
        _ => "Ctrl+Shift+Space"@,
    }
}

/// The quick-add shortcut in force.
pub open spec fn effective_shortcut(chosen: Option<Seq<char>>, platform: Platform) -> Seq<char> {
    match chosen {
        Some(s) => s,
        None => default_shortcut(platform),
    }
}

/// The quick-add shortcut of a platform where none was chosen.
pub fn default_quick_add_shortcut(platform: Platform) -> (r: String)
    ensures
        r@ == default_shortcut(platform),
{
    match platform {
        Platform::MacOs => "Cmd+Shift+Space".to_owned(),
        _ => "Ctrl+Shift+Space".to_owned(),
    }
}

/// The directory of the attachments: a sibling of the document.
pub open spec fn attachments_dir_of(s: StoreView) -> Option<PathView> {
    match s.data_path {
        Some(p) => match parent_of(p) {
            Some(dir) => Some(child_of(dir, "attachments"@)),
            None => None,
        },
        None => None,
    }
}

/// Whether some todo has the attachment file `file`.
pub open spec fn is_referenced(todos: Seq<TodoView>, file: Seq<char>) -> bool {
    exists|i: int|
        0 <= i < todos.len() && match (#[trigger] todos[i]).attachment {
            Some(a) => a.file == file,
            None => false,
        }
}

/// Whether a file of the attachments directory is left over: no todo has it,
/// and its name stays inside the directory.
pub open spec fn is_orphan(todos: Seq<TodoView>, file: Seq<char>) -> bool {
    is_plain_name(file) && !is_referenced(todos, file)
}

/// The files that are left over.
pub open spec fn orphans(todos: Seq<TodoView>, files: Seq<Seq<char>>) -> Seq<Seq<char>> {
    files.filter(|f: Seq<char>| is_orphan(todos, f))
}

/// The place of the first todo with the id `id`.
fn position(todos: &Vec<Todo>, id: &str) -> (r: Option<usize>)
    ensures
        match r {
            Some(i) => i < todos.len() && is_first(todo_views(todos@), id@, i as int) && has_id(
                todo_views(todos@),
                id@,
            ) && index_of(todo_views(todos@), id@) == i,
            None => !has_id(todo_views(todos@), id@),
        },
{
    let key = id.to_owned();
    let ghost views = todo_views(todos@);
    for i in 0..todos.len()
        invariant
            key@ == id@,
            views == todo_views(todos@),
            forall|j: int| 0 <= j < i ==> (#[trigger] views[j]).id != id@,
    {
        assert(views[i as int] == todos@[i as int]@);
        if todos[i].id == key {
            proof {
                lemma_index_of(views, id@, i as int);
            }
            return Some(i);
        }
    }
    None
}

/// The order of a todo that goes to the end of a section.
fn order_at_end(todos: &Vec<Todo>, status: TodoStatus) -> (r: i32)
    ensures
        r == end_order(todo_views(todos@), status),
{
    let ghost views = todo_views(todos@);
    let mut top: Option<i32> = None;
    for i in 0..todos.len()
        invariant
            views == todo_views(todos@),
            match top {
                Some(m) => is_top_order(views.take(i as int), status, m as int),
                None => forall|j: int| 0 <= j < i ==> (#[trigger] views[j]).status != status,
            },
    {
        let ghost before = views.take(i as int);
        let ghost after = views.take(i as int + 1);
        assert(views[i as int] == todos@[i as int]@);
        assert(after == before.push(views[i as int]));
        let ghost old_top = top;
        if todos[i].status == status {
            let order: i32 = todos[i].order;
            top = match top {
                Some(m) => if order > m {
                    Some(order)
                } else {
                    Some(m)
                },
                None => Some(order),
            };
        }
        proof {
            if old_top is Some {
                let m = old_top.unwrap();
                let w = choose|k: int|
                    0 <= k < before.len() && (#[trigger] before[k]).status == status
                        && before[k].order == m;
                assert(after[w] == before[w]);
            }
            if views[i as int].status == status {
                assert(after[i as int] == views[i as int]);
            }
            assert(forall|k: int| 0 <= k < i ==> #[trigger] after[k] == before[k]);
            if old_top is None {
                assert(forall|k: int| 0 <= k < i ==> #[trigger] after[k] == views[k]);
            }
        }
    }
    proof {
        assert(views.take(views.len() as int) == views);
        if top is Some {
            lemma_next_order(views, status, top.unwrap() as int);
        }
    }
    match top {
        Some(m) => m.wrapping_add(1),
        None => 0,
    }
}

/// Tells whether `ids` holds `id`.
fn listed(ids: &[String], id: &String) -> (r: bool)
    ensures
        r == texts(ids@).contains(id@),
{
    for i in 0..ids.len()
        invariant
            forall|j: int| 0 <= j < i ==> #[trigger] texts(ids@)[j] != id@,
    {
        assert(texts(ids@)[i as int] == ids@[i as int]@);
        if ids[i] == *id {
            return true;
        }
    }
    false
}

/// Tells whether no id is listed twice.
fn all_distinct(ids: &[String]) -> (r: bool)
    ensures
        r == texts(ids@).no_duplicates(),
{
    let ghost names = texts(ids@);
    for i in 0..ids.len()
        invariant
            names == texts(ids@),
            forall|a: int, b: int| 0 <= a < b < i ==> names[a] != names[b],
    {
        for j in 0..i
            invariant
                i < ids.len(),
                names == texts(ids@),
                forall|a: int| 0 <= a < j ==> names[a] != names[i as int],
        {
            if ids[i] == ids[j] {
                assert(names[i as int] == names[j as int]);
                return false;
            }
        }
    }
    true
}

/// The place of the first todo that `ids` lists.
fn first_listed_position(todos: &Vec<Todo>, ids: &[String]) -> (r: Option<usize>)
    ensures
        match r {
            Some(i) => is_first_listed(todo_views(todos@), texts(ids@), i as int),
            None => !some_listed(todo_views(todos@), texts(ids@)),
        },
{
    let ghost views = todo_views(todos@);
    for i in 0..todos.len()
        invariant
            views == todo_views(todos@),
            forall|j: int|
                0 <= j < i ==> !texts(ids@).contains((#[trigger] views[j]).id),
    {
        assert(views[i as int] == todos@[i as int]@);
        if listed(ids, &todos[i].id) {
            return Some(i);
        }
    }
    None
}

/// Tells whether the todos that `ids` lists are exactly those of a section.
fn is_whole_section(todos: &Vec<Todo>, ids: &[String], status: TodoStatus) -> (r: bool)
    ensures
        r == lists_section(todo_views(todos@), texts(ids@), status),
{
    let ghost views = todo_views(todos@);
    for i in 0..todos.len()
        invariant
            views == todo_views(todos@),
            forall|j: int|
                0 <= j < i ==> (texts(ids@).contains((#[trigger] views[j]).id)
                    <==> views[j].status == status),
    {
        assert(views[i as int] == todos@[i as int]@);
        if listed(ids, &todos[i].id) != (todos[i].status == status) {
            return false;
        }
    }
    true
}

/// Copies of the listed todos in the listed order, numbered from zero; `None`
/// where some id is that of no todo.
fn collect_listed(todos: &Vec<Todo>, ids: &[String], now: i64) -> (r: Option<Vec<Todo>>)
    ensures
        match r {
            Some(moved) => all_known(todo_views(todos@), texts(ids@)) && todo_views(moved@)
                == listed_todos(todo_views(todos@), texts(ids@), now),
            None => !all_known(todo_views(todos@), texts(ids@)),
        },
{
    let ghost views = todo_views(todos@);
    let ghost names = texts(ids@);
    let mut moved: Vec<Todo> = Vec::new();
    for j in 0..ids.len()
        invariant
            views == todo_views(todos@),
            names == texts(ids@),
            moved.len() == j,
            forall|k: int| 0 <= k < j ==> has_id(views, #[trigger] names[k]),
            forall|k: int|
                0 <= k < j ==> (#[trigger] moved@[k])@ == renumbered(
                    views[index_of(views, names[k])],
                    k as i32,
                    now,
                ),
    {
        assert(names[j as int] == ids@[j as int]@);
        match position(todos, ids[j].as_str()) {
            None => {
                assert(!has_id(views, names[j as int]));
                return None;
            },
            Some(i) => {
                assert(views[i as int] == todos@[i as int]@);
                let mut t = todos[i].clone();
                let order: i32 = j as i32;
                if t.order != order {
                    t.order = order;
                    t.updated_at = now;
                }
                moved.push(t);
            },
        }
    }
    assert(todo_views(moved@) =~= listed_todos(views, names, now));
    Some(moved)
}

impl Store {
    /// Puts one section in the order that `ids` lists, at the time `now`. See
    /// [`Store::reorder`].
    pub fn reorder_at(&mut self, ids: &[String], now: i64) -> (r: Result<(), StoreError>)
        ensures
            match reorder_verdict(old(self)@.data.todos, texts(ids@)) {
                ReorderVerdict::Ignored => r is Ok && final(self)@ == old(self)@,
                ReorderVerdict::Refused => r == Err::<(), StoreError>(StoreError::NotOneSection)
                    && final(self)@ == old(self)@,
                ReorderVerdict::Applied => r is Ok && final(self)@ == old(self)@.with_todos(
                    reordered(old(self)@.data.todos, texts(ids@), now),
                ),
            },
    {
        let ghost views = todo_views(self.data.todos@);
        let ghost names = texts(ids@);
        if ids.len() == 0 {
            return Ok(());
        }
        if !all_distinct(ids) {
            return Ok(());
        }
        let base: usize = match first_listed_position(&self.data.todos, ids) {
            Some(i) => i,
            None => return Ok(()),
        };
        proof {
            lemma_first_listed(views, names, base as int);
            assert(views[base as int] == self.data.todos@[base as int]@);
        }
        let status = self.data.todos[base].status;
        if !is_whole_section(&self.data.todos, ids, status) {
            proof {
                assert forall|s: TodoStatus| lists_section(views, names, s) implies false by {
                    assert(names.contains(views[base as int].id));
                    assert(s == status);
                }
            }
            return Err(StoreError::NotOneSection);
        }
        let mut moved = match collect_listed(&self.data.todos, ids, now) {
            Some(moved) => moved,
            None => return Ok(()),
        };
        let ghost moved_views = todo_views(moved@);
        let mut rest = self.data.todos.split_off(base);
        let ghost tail = rest@;
        self.data.todos.append(&mut moved);
        let ghost head = self.data.todos@;
        let ghost kept = |t: TodoView| !names.contains(t.id);
        let mut kept_todos: Vec<Todo> = Vec::new();
        let ghost mut i: int = 0;
        for t in it: rest
            invariant
                it.seq() == tail,
                i == it.index(),
                names == texts(ids@),
                kept == (|t: TodoView| !names.contains(t.id)),
                todo_views(kept_todos@) == todo_views(tail).take(i).filter(kept),
        {
            let ghost so_far = kept_todos@;
            proof {
                assert(todo_views(tail).take(i + 1).drop_last() == todo_views(tail).take(i));
                reveal_with_fuel(Seq::filter, 2);
            }
            if !listed(ids, &t.id) {
                kept_todos.push(t);
                assert(todo_views(kept_todos@) =~= todo_views(so_far).push(t@));
            }
            proof {
                i = i + 1;
            }
        }
        let ghost kept_views = todo_views(kept_todos@);
        self.data.todos.append(&mut kept_todos);
        proof {
            assert(todo_views(tail) =~= views.skip(base as int));
            assert(todo_views(tail).take(i) =~= views.skip(base as int));
            assert(kept_views == unlisted(views.skip(base as int), names));
            assert(todo_views(head) =~= views.take(base as int) + moved_views);
            assert(todo_views(self.data.todos@) =~= todo_views(head) + kept_views);
        }
        self.touch();
        Ok(())
    }

    /// Puts one section in the order that `ids` lists.
    ///
    /// `ids` must list every todo of one section, each once. The listed todos
    /// then stand together where the first of them stood, numbered from zero,
    /// and all others keep their places around them. A todo is touched only
    /// where its order changes. A request that lists a todo twice, an unknown
    /// one, or none at all is ignored; one that lists part of a section, or
    /// todos of both sections, is refused.
    pub fn reorder(&mut self, ids: &[String]) -> (r: Result<(), StoreError>)
        ensures
            match reorder_verdict(old(self)@.data.todos, texts(ids@)) {
                ReorderVerdict::Ignored => r is Ok && final(self)@ == old(self)@,
                ReorderVerdict::Refused => r == Err::<(), StoreError>(StoreError::NotOneSection)
                    && final(self)@ == old(self)@,
                ReorderVerdict::Applied => r is Ok && exists|now: i64|
                    final(self)@ == old(self)@.with_todos(
                        #[trigger] reordered(old(self)@.data.todos, texts(ids@), now),
                    ),
            },
    {
        let now = now_millis();
        self.reorder_at(ids, now)
    }

    /// Edits the todo `id` at the time `now`. See [`Store::update`].
    pub fn update_at(
        &mut self,
        id: &str,
        title: Option<String>,
        status: Option<TodoStatus>,
        now: i64,
    ) -> (r: Result<Option<Todo>, StoreError>)
        ensures
            match r {
                Err(e) => e == StoreError::NotFound && !has_id(old(self)@.data.todos, id@)
                    && final(self)@ == old(self)@,
                Ok(None) => has_id(old(self)@.data.todos, id@) && title is None && status is None
                    && final(self)@ == old(self)@,
                Ok(Some(t)) => has_id(old(self)@.data.todos, id@) && (title is Some
                    || status is Some) && t@ == edit_result(
                    old(self)@.data.todos,
                    id@,
                    text_of(title),
                    status,
                    now,
                ) && final(self)@ == old(self)@.with_todos(
                    edit_todos(old(self)@.data.todos, id@, text_of(title), status, now),
                ),
            },
    {
        let ghost views = todo_views(self.data.todos@);
        let idx: usize = match position(&self.data.todos, id) {
            Some(i) => i,
            None => return Err(StoreError::NotFound),
        };
        if title.is_none() && status.is_none() {
            return Ok(None);
        }
        assert(views[idx as int] == self.data.todos@[idx as int]@);
        let current = self.data.todos[idx].status;
        match status {
            Some(new_status) => {
                if new_status != current {
                    let order: i32 = order_at_end(&self.data.todos, new_status);
                    let mut todo = self.data.todos.remove(idx);
                    todo.status = new_status;
                    todo.order = order;
                    todo.updated_at = now;
                    match title {
                        Some(text) => {
                            todo.title = text;
                        },
                        None => {},
                    }
                    let copy = todo.clone();
                    let ghost t = todo@;
                    self.data.todos.push(todo);
                    proof {
                        assert(t == edit_result(views, id@, text_of(title), status, now));
                        assert(todo_views(self.data.todos@) =~= views.remove(idx as int).push(t));
                    }
                    self.touch();
                    return Ok(Some(copy));
                }
            },
            None => {},
        }
        let mut todo = self.data.todos[idx].clone();
        match title {
            Some(text) => {
                todo.title = text;
            },
            None => {},
        }
        todo.updated_at = now;
        let copy = todo.clone();
        let ghost t = todo@;
        self.data.todos.set(idx, todo);
        proof {
            assert(t == edited(views[idx as int], text_of(title), now));
            assert(todo_views(self.data.todos@) =~= views.update(idx as int, t));
        }
        self.touch();
        Ok(Some(copy))
    }

    /// Edits the todo `id`: gives it another title, another status, or both.
    ///
    /// A todo that changes status leaves its place and goes to the end of the
    /// list, ranked behind its new section; orders wrap around where the largest
    /// one is in use. With neither a title nor a status
    /// there is nothing to do, which is answered with `Ok(None)`; an unknown id
    /// is an error in any case, and the only one.
    pub fn update(
        &mut self,
        id: &str,
        title: Option<String>,
        status: Option<TodoStatus>,
    ) -> (r: Result<Option<Todo>, StoreError>)
        ensures
            match r {
                Err(e) => e == StoreError::NotFound && !has_id(old(self)@.data.todos, id@)
                    && final(self)@ == old(self)@,
                Ok(None) => has_id(old(self)@.data.todos, id@) && title is None && status is None
                    && final(self)@ == old(self)@,
                Ok(Some(t)) => has_id(old(self)@.data.todos, id@) && (title is Some
                    || status is Some) && t@ == edit_result(
                    old(self)@.data.todos,
                    id@,
                    text_of(title),
                    status,
                    t@.updated_at,
                ) && final(self)@ == old(self)@.with_todos(
                    edit_todos(
                        old(self)@.data.todos,
                        id@,
                        text_of(title),
                        status,
                        t@.updated_at,
                    ),
                ),
            },
    {
        let now = now_millis();
        self.update_at(id, title, status, now)
    }

    /// Adds a pending todo under the given id and time. See
    /// [`Store::add_with_attachment`].
    pub fn add_at(
        &mut self,
        title: String,
        attachment: Option<TodoAttachment>,
        id: String,
        now: i64,
    ) -> (r: Todo)
        ensures
            r@ == new_todo(old(self)@.data.todos, title@, attachment_of(attachment), id@, now),
            final(self)@ == old(self)@.with_todos(old(self)@.data.todos.push(r@)),
    {
        let order: i32 = order_at_end(&self.data.todos, TodoStatus::Pending);
        let ghost views = todo_views(self.data.todos@);
        let todo = Todo {
            id,
            title,
            status: TodoStatus::Pending,
            priority: TodoPriority::P2,
            created_at: now,
            updated_at: now,
            due_at: None,
            tags: Vec::new(),
            order,
            attachment,
        };
        let copy = todo.clone();
        proof {
            assert(todo@.tags =~= Seq::<Seq<char>>::empty());
        }
        let ghost t = todo@;
        self.data.todos.push(todo);
        proof {
            assert(todo_views(self.data.todos@) =~= views.push(t));
        }
        self.touch();
        copy
    }

    /// Adds a pending todo at the end of the list, with a fresh identifier.
    pub fn add(&mut self, title: String) -> (r: Todo)
        ensures
            is_uuid(r@.id),
            r@ == new_todo(old(self)@.data.todos, title@, None, r@.id, r@.created_at),
            final(self)@ == old(self)@.with_todos(old(self)@.data.todos.push(r@)),
    {
        self.add_with_attachment(title, None)
    }

    /// Adds a pending todo with an attachment at the end of the list, with a
    /// fresh identifier and ranked behind its section. Orders wrap around where
    /// the largest one is in use.
    pub fn add_with_attachment(
        &mut self,
        title: String,
        attachment: Option<TodoAttachment>,
    ) -> (r: Todo)
        ensures
            is_uuid(r@.id),
            r@ == new_todo(
                old(self)@.data.todos,
                title@,
                attachment_of(attachment),
                r@.id,
                r@.created_at,
            ),
            final(self)@ == old(self)@.with_todos(old(self)@.data.todos.push(r@)),
    {
        let now = now_millis();
        let id = new_uuid();
        self.add_at(title, attachment, id, now)
    }

    /// Takes the todo `id` out of the list and hands it back.
    pub fn delete(&mut self, id: &str) -> (r: Option<Todo>)
        ensures
            todo_of(r) == lookup(old(self)@.data.todos, id@),
            final(self)@ == if r is Some {
                old(self)@.with_todos(without(old(self)@.data.todos, id@))
            } else {
                old(self)@
            },
    {
        let ghost views = todo_views(self.data.todos@);
        match position(&self.data.todos, id) {
            Some(idx) => {
                assert(views[idx as int] == self.data.todos@[idx as int]@);
                let todo = self.data.todos.remove(idx);
                proof {
                    assert(todo_views(self.data.todos@) =~= views.remove(idx as int));
                }
                self.touch();
                Some(todo)
            },
            None => None,
        }
    }

    /// Puts a deleted todo back under its own id, order and status: in front of
    /// the first todo of its section that ranks behind it. Of its attachment
    /// only a safe name is kept. Where the id is in use nothing happens.
    pub fn restore(&mut self, todo: Todo) -> (r: Option<Todo>)
        ensures
            r is Some <==> !has_id(old(self)@.data.todos, todo@.id),
            r is Some ==> r.unwrap()@ == safe_todo(todo@),
            final(self)@ == if r is Some {
                old(self)@.with_todos(put_back(old(self)@.data.todos, safe_todo(todo@)))
            } else {
                old(self)@
            },
    {
        if position(&self.data.todos, todo.id.as_str()).is_some() {
            return None;
        }
        let ghost views = todo_views(self.data.todos@);
        let ghost given = todo@;
        let mut todo = todo;
        todo.attachment = safe_attachment(todo.attachment);
        assert(todo@ == safe_todo(given));
        let n: usize = self.data.todos.len();
        let mut i: usize = 0;
        while i < n && !(self.data.todos[i].status == todo.status && self.data.todos[i].order
            > todo.order)
            invariant
                0 <= i <= n,
                n == self.data.todos.len(),
                views == todo_views(self.data.todos@),
                todo@ == safe_todo(given),
                forall|j: int| 0 <= j < i ==> !is_later(safe_todo(given), #[trigger] views[j]),
            decreases n - i,
        {
            assert(views[i as int] == self.data.todos@[i as int]@);
            i = i + 1;
        }
        proof {
            if i < n {
                assert(views[i as int] == self.data.todos@[i as int]@);
            }
            lemma_slot_for(views, safe_todo(given), i as int);
        }
        let copy = todo.clone();
        self.data.todos.insert(i, todo);
        proof {
            assert(todo_views(self.data.todos@) =~= views.insert(i as int, safe_todo(given)));
        }
        self.touch();
        Some(copy)
    }

    /// The todos of a section by rising order; those of equal order stay as
    /// they follow each other in the list.
    pub fn todos_sorted(&self, status: TodoStatus) -> (r: Vec<Todo>)
        ensures
            is_stable_sort(todo_views(r@), section(self@.data.todos, status)),
    {
        let ghost views = todo_views(self.data.todos@);
        let ghost p = |t: TodoView| t.status == status;
        let mut sorted: Vec<Todo> = Vec::new();
        proof {
            assert(todo_views(sorted@) =~= section(views.take(0), status));
        }
        for i in 0..self.data.todos.len()
            invariant
                views == todo_views(self.data.todos@),
                p == (|t: TodoView| t.status == status),
                is_stable_sort(todo_views(sorted@), section(views.take(i as int), status)),
        {
            let ghost before = section(views.take(i as int), status);
            assert(views[i as int] == self.data.todos@[i as int]@);
            proof {
                assert(views.take(i as int + 1) == views.take(i as int).push(views[i as int]));
                lemma_filter_push(views.take(i as int), views[i as int], p);
            }
            if self.data.todos[i].status == status {
                let t = self.data.todos[i].clone();
                let ghost tv = t@;
                let ghost old_sorted = todo_views(sorted@);
                let mut at: usize = sorted.len();
                while at > 0 && sorted[at - 1].order > t.order
                    invariant
                        0 <= at <= sorted.len(),
                        old_sorted == todo_views(sorted@),
                        t@ == tv,
                        forall|j: int|
                            at <= j < sorted.len() ==> (#[trigger] old_sorted[j]).order > tv.order,
                    decreases at,
                {
                    assert(old_sorted[at - 1] == sorted@[at - 1]@);
                    at = at - 1;
                }
                proof {
                    if at > 0 {
                        assert(old_sorted[at - 1] == sorted@[at - 1]@);
                    }
                }
                sorted.insert(at, t);
                proof {
                    assert(todo_views(sorted@) =~= old_sorted.insert(at as int, tv));
                    lemma_sorted_insert(old_sorted, before, at as int, tv);
                    assert(before.push(tv) == before + seq![tv]);
                }
            } else {
                assert(before + Seq::<TodoView>::empty() == before);
            }
        }
        assert(views.take(views.len() as int) == views);
        sorted
    }

    /// A store over a document, as of generation zero.
    pub fn from_data(data: StoreData, data_path: Option<DataPath>) -> (r: Store)
        ensures
            r@ == (StoreView { data: data@, data_path: path_of(data_path), generation: 0 }),
    {
        Store { data, data_path, generation: 0 }
    }

    /// The store at start-up, from what was found under `data_path`, and what
    /// is to be done on disk first: a missing document needs its directory, a
    /// corrupt one is set aside, and both give way to an empty document.
    pub fn load_or_init(data_path: DataPath, found: LoadOutcome) -> (r: (Store, LoadAction))
        ensures
            r.0@ == (StoreView {
                data: loaded_document(found),
                data_path: Some(data_path@),
                generation: 0,
            }),
            match found {
                LoadOutcome::Loaded(_) => r.1 is Nothing,
                LoadOutcome::Corrupt => r.1 is BackUp,
                LoadOutcome::Missing => match parent_of(data_path@) {
                    Some(dir) => r.1 is CreateDir && r.1->CreateDir_0@ == dir,
                    None => r.1 is Nothing,
                },
            },
    {
        match found {
            LoadOutcome::Loaded(data) => (
                Store::from_data(data, Some(data_path)),
                LoadAction::Nothing,
            ),
            LoadOutcome::Corrupt => (
                Store::from_data(StoreData::default(), Some(data_path)),
                LoadAction::BackUp,
            ),
            LoadOutcome::Missing => {
                let action = match data_path.parent() {
                    Some(dir) => LoadAction::CreateDir(dir),
                    None => LoadAction::Nothing,
                };
                (Store::from_data(StoreData::default(), Some(data_path)), action)
            },
        }
    }

    /// The todos in list order.
    pub fn todos(&self) -> (r: &[Todo])
        ensures
            todo_views(r@) == self@.data.todos,
    {
        self.data.todos.as_slice()
    }

    /// A copy of the todo `id`.
    pub fn find(&self, id: &str) -> (r: Option<Todo>)
        ensures
            todo_of(r) == lookup(self@.data.todos, id@),
    {
        match position(&self.data.todos, id) {
            Some(i) => {
                assert(todo_views(self.data.todos@)[i as int] == self.data.todos@[i as int]@);
                Some(self.data.todos[i].clone())
            },
            None => None,
        }
    }

    /// Where the floating window was last seen.
    pub fn last_window_geom(&self) -> (r: &WindowGeom)
        ensures
            *r == self@.data.window_geom,
    {
        &self.data.window_geom
    }

    /// Records the window's position; a coordinate that is `None` stays.
    pub fn update_window_pos(&mut self, x: Option<i32>, y: Option<i32>)
        ensures
            final(self)@ == old(self)@.with_data(
                StoreDataView {
                    window_geom: WindowGeom {
                        x: newer(x, old(self)@.data.window_geom.x),
                        y: newer(y, old(self)@.data.window_geom.y),
                        ..old(self)@.data.window_geom
                    },
                    ..old(self)@.data
                },
            ),
    {
        if x.is_some() {
            self.data.window_geom.x = x;
        }
        if y.is_some() {
            self.data.window_geom.y = y;
        }
        self.touch();
    }

    /// Records the window's size; an extent that is `None` stays.
    pub fn update_window_size(&mut self, w: Option<u32>, h: Option<u32>)
        ensures
            final(self)@ == old(self)@.with_data(
                StoreDataView {
                    window_geom: WindowGeom {
                        width: newer(w, old(self)@.data.window_geom.width),
                        height: newer(h, old(self)@.data.window_geom.height),
                        ..old(self)@.data.window_geom
                    },
                    ..old(self)@.data
                },
            ),
    {
        if w.is_some() {
            self.data.window_geom.width = w;
        }
        if h.is_some() {
            self.data.window_geom.height = h;
        }
        self.touch();
    }

    /// The pin mode: the chosen one, or the default.
    pub fn pin_mode(&self) -> (r: PinMode)
        ensures
            r == effective_pin_mode(self@.data.pin_mode),
    {
        match self.data.pin_mode {
            Some(mode) => mode,
            None => PinMode::default(),
        }
    }

    /// Chooses a pin mode.
    pub fn set_pin_mode(&mut self, mode: PinMode)
        ensures
            final(self)@ == old(self)@.with_data(
                StoreDataView { pin_mode: Some(mode), ..old(self)@.data },
            ),
    {
        self.data.pin_mode = Some(mode);
        self.touch();
    }

    /// The quick-add shortcut: the chosen one, or the platform's default.
    pub fn quick_add_shortcut(&self, platform: Platform) -> (r: String)
        ensures
            r@ == effective_shortcut(self@.data.quick_add_shortcut, platform),
    {
        match &self.data.quick_add_shortcut {
            Some(s) => s.clone(),
            None => default_quick_add_shortcut(platform),
        }
    }

    /// Chooses a quick-add shortcut.
    pub fn set_quick_add_shortcut(&mut self, accelerator: String)
        ensures
            final(self)@ == old(self)@.with_data(
                StoreDataView {
                    quick_add_shortcut: Some(accelerator@),
                    ..old(self)@.data
                },
            ),
    {
        self.data.quick_add_shortcut = Some(accelerator);
        self.touch();
    }

    /// The chosen locale, if one was chosen.
    pub fn locale(&self) -> (r: Option<&str>)
        ensures
            match r {
                Some(s) => self@.data.locale == Some(s@),
                None => self@.data.locale is None,
            },
    {
        match &self.data.locale {
            Some(s) => Some(s.as_str()),
            None => None,
        }
    }

    /// Chooses a locale.
    pub fn set_locale(&mut self, locale: String)
        ensures
            final(self)@ == old(self)@.with_data(
                StoreDataView { locale: Some(locale@), ..old(self)@.data },
            ),
    {
        self.data.locale = Some(locale);
        self.touch();
    }

    /// The todos as they stand at the time `now`.
    pub fn snapshot_at(&self, now: i64) -> (r: TodoSnapshot)
        ensures
            todo_views(r.todos@) == self@.data.todos,
            r.fetched_at == now,
    {
        TodoSnapshot { todos: clone_todos(&self.data.todos), fetched_at: now }
    }

    /// The todos as they stand now. The time is read from the clock.
    pub fn snapshot(&self) -> (r: TodoSnapshot)
        ensures
            todo_views(r.todos@) == self@.data.todos,
    {
        let now = now_millis();
        self.snapshot_at(now)
    }

    /// A copy of the document.
    pub fn data_clone(&self) -> (r: StoreData)
        ensures
            r@ == self@.data,
    {
        self.data.clone()
    }

    /// A copy of the place where the document is kept.
    pub fn data_path_clone(&self) -> (r: Option<DataPath>)
        ensures
            path_of(r) == self@.data_path,
    {
        match &self.data_path {
            Some(p) => Some(p.clone()),
            None => None,
        }
    }

    /// The place where the document is kept.
    pub fn data_path(&self) -> (r: Result<DataPath, StoreError>)
        ensures
            match r {
                Ok(p) => self@.data_path == Some(p@),
                Err(e) => e == StoreError::NoDataPath && self@.data_path is None,
            },
    {
        match self.data_path_clone() {
            Some(p) => Ok(p),
            None => Err(StoreError::NoDataPath),
        }
    }

    /// The directory of the attachments, beside the document.
    pub fn attachments_dir(&self) -> (r: Option<DataPath>)
        ensures
            path_of(r) == attachments_dir_of(self@),
    {
        match &self.data_path {
            Some(p) => match p.parent() {
                Some(dir) => Some(dir.join("attachments")),
                None => None,
            },
            None => None,
        }
    }

    /// How many times the document has changed.
    pub fn generation(&self) -> (r: u64)
        ensures
            r == self@.generation,
    {
        self.generation
    }

    /// What it takes to write the document to disk: where to, what, and of
    /// which generation it is.
    pub fn persist(&self) -> (r: Result<PersistJob, StoreError>)
        ensures
            match r {
                Ok(job) => self@.data_path == Some(job.path@) && job.data@ == self@.data
                    && job.generation == self@.generation,
                Err(e) => e == StoreError::NoDataPath && self@.data_path is None,
            },
    {
        match self.data_path() {
            Ok(path) => Ok(
                PersistJob { path, data: self.data.clone(), generation: self.generation },
            ),
            Err(e) => Err(e),
        }
    }

    /// Tells whether some todo has the attachment file `file`.
    fn refers_to(&self, file: &String) -> (r: bool)
        ensures
            r == is_referenced(self@.data.todos, file@),
    {
        let ghost views = todo_views(self.data.todos@);
        for i in 0..self.data.todos.len()
            invariant
                views == todo_views(self.data.todos@),
                forall|j: int|
                    0 <= j < i ==> !(match (#[trigger] views[j]).attachment {
                        Some(a) => a.file == file@,
                        None => false,
                    }),
        {
            assert(views[i as int] == self.data.todos@[i as int]@);
            match &self.data.todos[i].attachment {
                Some(a) => {
                    if a.file == *file {
                        return true;
                    }
                },
                None => {},
            }
        }
        false
    }

    /// Of the files found in the attachments directory, those to delete at
    /// start-up: no todo has them, and their names stay inside the directory.
    pub fn purge_orphan_attachments(&self, files: &[String]) -> (r: Vec<String>)
        ensures
            texts(r@) == orphans(self@.data.todos, texts(files@)),
    {
        let ghost names = texts(files@);
        let ghost p = |f: Seq<char>| is_orphan(self@.data.todos, f);
        let mut r: Vec<String> = Vec::new();
        assert(texts(r@) =~= names.take(0).filter(p));
        for i in 0..files.len()
            invariant
                names == texts(files@),
                p == (|f: Seq<char>| is_orphan(self@.data.todos, f)),
                texts(r@) == names.take(i as int).filter(p),
        {
            proof {
                assert(names[i as int] == files@[i as int]@);
                assert(names.take(i as int + 1) == names.take(i as int).push(names[i as int]));
                lemma_filter_push(names.take(i as int), names[i as int], p);
            }
            let ghost before = r@;
            if plain_name(files[i].as_str()) && !self.refers_to(&files[i]) {
                r.push(files[i].clone());
                assert(texts(r@) =~= texts(before) + seq![names[i as int]]);
            } else {
                assert(texts(r@) =~= texts(before) + Seq::<Seq<char>>::empty());
            }
        }
        assert(names.take(names.len() as int) == names);
        r
    }

    /// Counts one more change.
    fn touch(&mut self)
        ensures
            final(self)@ == (StoreView {
                generation: next_generation(old(self)@.generation),
                ..old(self)@
            }),
    {
        self.generation = self.generation.saturating_add(1);
    }
}

/// A change of the document is all that changes in a store, and it is counted:
/// the place of the document stays, and the generation rises by one, as long as
/// there is a larger number.
pub proof fn changes_are_counted(s: StoreView, data: StoreDataView)
    ensures
        s.with_data(data).data == data,
        s.with_data(data).data_path == s.data_path,
        s.generation < u64::MAX ==> s.with_data(data).generation == s.generation + 1,
        s.generation == u64::MAX ==> s.with_data(data).generation == u64::MAX,
{
}

/// A change of the list leaves every setting alone.
pub proof fn list_changes_keep_the_settings(s: StoreView, todos: Seq<TodoView>)
    ensures
        s.with_todos(todos).data.todos == todos,
        s.with_todos(todos).data.window_geom == s.data.window_geom,
        s.with_todos(todos).data.pin_mode == s.data.pin_mode,
        s.with_todos(todos).data.quick_add_shortcut == s.data.quick_add_shortcut,
        s.with_todos(todos).data.locale == s.data.locale,
        s.with_todos(todos).data_path == s.data_path,
        s.generation < u64::MAX ==> s.with_todos(todos).generation == s.generation + 1,
{
}

/// What is given replaces what was there; where nothing is given, that stays.
pub proof fn what_is_given_replaces<A>(new: A, old_value: Option<A>)
    ensures
        newer(Some(new), old_value) == Some(new),
        newer(None::<A>, old_value) == old_value,
{
}

/// A setting that was chosen is in force, on every platform; before that, the
/// window is at the bottom, and the shortcut is Space with Shift and Command on
/// a Mac, with Shift and Control elsewhere.
pub proof fn chosen_settings_are_in_force(mode: PinMode, shortcut: Seq<char>, platform: Platform)
    ensures
        effective_pin_mode(Some(mode)) == mode,
        effective_pin_mode(None) == PinMode::PinBottom,
        effective_shortcut(Some(shortcut), platform) == shortcut,
        effective_shortcut(None, Platform::MacOs) == "Cmd+Shift+Space"@,
        effective_shortcut(None, Platform::Windows) == "Ctrl+Shift+Space"@,
        effective_shortcut(None, Platform::Linux) == "Ctrl+Shift+Space"@,
{
}

/// A document that was read is taken as it is. Without one the list is empty and
/// nothing is chosen.
pub proof fn documents_are_taken_as_they_are(data: StoreData)
    ensures
        loaded_document(LoadOutcome::Loaded(data)) == data@,
        loaded_document(LoadOutcome::Missing) == loaded_document(LoadOutcome::Corrupt),
        loaded_document(LoadOutcome::Missing).todos.len() == 0,
        loaded_document(LoadOutcome::Missing).window_geom.x is None,
        loaded_document(LoadOutcome::Missing).window_geom.y is None,
        loaded_document(LoadOutcome::Missing).window_geom.width is None,
        loaded_document(LoadOutcome::Missing).window_geom.height is None,
        loaded_document(LoadOutcome::Missing).pin_mode is None,
        loaded_document(LoadOutcome::Missing).quick_add_shortcut is None,
        loaded_document(LoadOutcome::Missing).locale is None,
{
}

/// Attachments are kept in a directory beside the document, and nowhere where it
/// is not known where that is.
pub proof fn attachments_lie_beside_the_document(s: StoreView)
    ensures
        match s.data_path {
            Some(p) => if p.names.len() > 0 {
                attachments_dir_of(s) is Some && {
                    let dir = attachments_dir_of(s).unwrap();
                    &&& dir.anchor == p.anchor
                    &&& dir.names.len() == p.names.len()
                    &&& dir.names[dir.names.len() - 1] == "attachments"@
                    &&& forall|i: int|
                        0 <= i < p.names.len() - 1 ==> #[trigger] dir.names[i] == p.names[i]
                }
            } else {
                attachments_dir_of(s) is None
            },
            None => attachments_dir_of(s) is None,
        },
{
}

} // verus!
