//! The todo data model: what a todo, an attachment and the stored document
//! hold, and their mathematical views.
use vstd::prelude::*;

use crate::text::same_text;

verus! {

/// Which of the two sections a todo belongs to.
#[derive(Debug, Clone, Copy, PartialEq, Eq, Hash, Structural)]
pub enum TodoStatus {
    Pending,
    Done,
}

/// The layer in which the floating window lives: always on top, at the bottom
/// (raised while hovered), or like any other window.
#[derive(Debug, Clone, Copy, PartialEq, Eq, Structural)]
pub enum PinMode {
    PinTop,
    PinBottom,
    Normal,
}

impl Default for PinMode {
    fn default() -> (r: Self)
        ensures
            r == PinMode::PinBottom,
    {
        PinMode::PinBottom
    }
}

/// The pin mode that `s` names, if it names one.
pub open spec fn pin_mode_named(s: Seq<char>) -> Option<PinMode> {
    if s == "pin_top"@ {
        Some(PinMode::PinTop)
    } else if s == "pin_bottom"@ {
        Some(PinMode::PinBottom)
    } else if s == "normal"@ {
        Some(PinMode::Normal)
    } else {
        None
    }
}

/// The name of a pin mode.
pub open spec fn pin_mode_name(m: PinMode) -> Seq<char> {
    match m {
        PinMode::PinTop => "pin_top"@,
        PinMode::PinBottom => "pin_bottom"@,
        PinMode::Normal => "normal"@,
    }
}

impl PinMode {
    /// The pin mode that `s` names; `None` where it names none.
    pub fn from_str_opt(s: &str) -> (r: Option<Self>)
        ensures
            r == pin_mode_named(s@),
    {
        if same_text(s, "pin_top") {
            Some(PinMode::PinTop)
        } else if same_text(s, "pin_bottom") {
            Some(PinMode::PinBottom)
        } else if same_text(s, "normal") {
            Some(PinMode::Normal)
        } else {
            None
        }
    }

    /// The name under which the front end knows this mode.
    pub fn name(self) -> (r: &'static str)
        ensures
            r@ == pin_mode_name(self),
    {
        match self {
            PinMode::PinTop => "pin_top",
            PinMode::PinBottom => "pin_bottom",
            PinMode::Normal => "normal",
        }
    }
}

/// The priority of a todo, from most to least urgent.
#[derive(Debug, Clone, Copy, PartialEq, Eq, Structural)]
pub enum TodoPriority {
    P0,
    P1,
    P2,
    P3,
}

/// The characters of an optional string.
pub open spec fn text_of(s: Option<String>) -> Option<Seq<char>> {
    match s {
        Some(v) => Some(v@),
        None => None,
    }
}

/// What an attachment records.
#[verifier::ext_equal]
pub struct AttachmentView {
    pub file: Seq<char>,
    pub mime: Seq<char>,
    pub width: Option<u32>,
    pub height: Option<u32>,
}

/// An image attached to a todo.
///
/// Only the file's own name is kept; the directory is found at run time, so
/// that the data directory can be moved. The dimensions are `None` where they
/// could not be told.
#[derive(Debug)]
pub struct TodoAttachment {
    pub file: String,
    pub mime: String,
    pub width: Option<u32>,
    pub height: Option<u32>,
}

impl View for TodoAttachment {
    type V = AttachmentView;

    open spec fn view(&self) -> AttachmentView {
        AttachmentView {
            file: self.file@,
            mime: self.mime@,
            width: self.width,
            height: self.height,
        }
    }
}

impl Clone for TodoAttachment {
    fn clone(&self) -> (r: Self)
        ensures
            r@ == self@,
    {
        TodoAttachment {
            file: self.file.clone(),
            mime: self.mime.clone(),
            width: self.width,
            height: self.height,
        }
    }
}

/// The view of an optional attachment.
pub open spec fn attachment_of(a: Option<TodoAttachment>) -> Option<AttachmentView> {
    match a {
        Some(v) => Some(v@),
        None => None,
    }
}

/// A copy of an optional attachment.
pub fn clone_attachment(a: &Option<TodoAttachment>) -> (r: Option<TodoAttachment>)
    ensures
        attachment_of(r) == attachment_of(*a),
{
    match a {
        Some(v) => Some(v.clone()),
        None => None,
    }
}

/// The texts of a list of strings.
pub open spec fn texts(s: Seq<String>) -> Seq<Seq<char>> {
    Seq::new(s.len(), |i: int| s[i]@)
}

/// A copy of a list of strings.
pub fn clone_texts(v: &Vec<String>) -> (r: Vec<String>)
    ensures
        texts(r@) == texts(v@),
{
    let mut r: Vec<String> = Vec::new();
    for i in 0..v.len()
        invariant
            r.len() == i,
            forall|k: int| 0 <= k < i ==> (#[trigger] r@[k])@ == v@[k]@,
    {
        r.push(v[i].clone());
    }
    assert(texts(r@) =~= texts(v@));
    r
}

/// What a todo records.
#[verifier::ext_equal]
pub struct TodoView {
    pub id: Seq<char>,
    pub title: Seq<char>,
    pub status: TodoStatus,
    pub priority: TodoPriority,
    pub created_at: i64,
    pub updated_at: i64,
    pub due_at: Option<i64>,
    pub tags: Seq<Seq<char>>,
    pub order: i32,
    pub attachment: Option<AttachmentView>,
}

/// A todo. Times are milliseconds since the epoch; `order` ranks a todo within
/// its section.
#[derive(Debug)]
pub struct Todo {
    pub id: String,
    pub title: String,
    pub status: TodoStatus,
    pub priority: TodoPriority,
    pub created_at: i64,
    pub updated_at: i64,
    pub due_at: Option<i64>,
    pub tags: Vec<String>,
    pub order: i32,
    pub attachment: Option<TodoAttachment>,
}

impl View for Todo {
    type V = TodoView;

    open spec fn view(&self) -> TodoView {
        TodoView {
            id: self.id@,
            title: self.title@,
            status: self.status,
            priority: self.priority,
            created_at: self.created_at,
            updated_at: self.updated_at,
            due_at: self.due_at,
            tags: texts(self.tags@),
            order: self.order,
            attachment: attachment_of(self.attachment),
        }
    }
}

impl Clone for Todo {
    fn clone(&self) -> (r: Self)
        ensures
            r@ == self@,
    {
        Todo {
            id: self.id.clone(),
            title: self.title.clone(),
            status: self.status,
            priority: self.priority,
            created_at: self.created_at,
            updated_at: self.updated_at,
            due_at: self.due_at,
            tags: clone_texts(&self.tags),
            order: self.order,
            attachment: clone_attachment(&self.attachment),
        }
    }
}

/// The view of an optional todo.
pub open spec fn todo_of(t: Option<Todo>) -> Option<TodoView> {
    match t {
        Some(v) => Some(v@),
        None => None,
    }
}

/// The views of a list of todos.
pub open spec fn todo_views(s: Seq<Todo>) -> Seq<TodoView> {
    Seq::new(s.len(), |i: int| s[i]@)
}

/// A copy of a list of todos.
pub fn clone_todos(v: &Vec<Todo>) -> (r: Vec<Todo>)
    ensures
        todo_views(r@) == todo_views(v@),
{
    let mut r: Vec<Todo> = Vec::new();
    for i in 0..v.len()
        invariant
            r.len() == i,
            forall|k: int| 0 <= k < i ==> (#[trigger] r@[k])@ == v@[k]@,
    {
        r.push(v[i].clone());
    }
    assert(todo_views(r@) =~= todo_views(v@));
    r
}

/// Where the floating window was last seen; a field is `None` until known.
#[derive(Debug, Clone, Copy, PartialEq, Eq, Structural)]
pub struct WindowGeom {
    pub x: Option<i32>,
    pub y: Option<i32>,
    pub width: Option<u32>,
    pub height: Option<u32>,
}

impl Default for WindowGeom {
    fn default() -> (r: Self)
        ensures
            r == (WindowGeom { x: None, y: None, width: None, height: None }),
    {
        WindowGeom { x: None, y: None, width: None, height: None }
    }
}

/// What the stored document records.
#[verifier::ext_equal]
pub struct StoreDataView {
    pub todos: Seq<TodoView>,
    pub window_geom: WindowGeom,
    pub pin_mode: Option<PinMode>,
    pub quick_add_shortcut: Option<Seq<char>>,
    pub locale: Option<Seq<char>>,
}

/// The stored document. `locale` and `quick_add_shortcut` are `None` until the
/// user chooses one.
#[derive(Debug)]
pub struct StoreData {
    pub todos: Vec<Todo>,
    pub window_geom: WindowGeom,
    pub pin_mode: Option<PinMode>,
    pub quick_add_shortcut: Option<String>,
    pub locale: Option<String>,
}

impl View for StoreData {
    type V = StoreDataView;

    open spec fn view(&self) -> StoreDataView {
        StoreDataView {
            todos: todo_views(self.todos@),
            window_geom: self.window_geom,
            pin_mode: self.pin_mode,
            quick_add_shortcut: text_of(self.quick_add_shortcut),
            locale: text_of(self.locale),
        }
    }
}

/// The document of a first start: no todo, nothing chosen.
pub open spec fn empty_document() -> StoreDataView {
    StoreDataView {
        todos: Seq::empty(),
        window_geom: WindowGeom { x: None, y: None, width: None, height: None },
        pin_mode: None,
        quick_add_shortcut: None,
        locale: None,
    }
}

impl Default for StoreData {
    fn default() -> (r: Self)
        ensures
            r@ == empty_document(),
    {
        StoreData {
            todos: Vec::new(),
            window_geom: WindowGeom::default(),
            pin_mode: None,
            quick_add_shortcut: None,
            locale: None,
        }
    }
}

impl Clone for StoreData {
    fn clone(&self) -> (r: Self)
        ensures
            r@ == self@,
    {
        StoreData {
            todos: clone_todos(&self.todos),
            window_geom: self.window_geom,
            pin_mode: self.pin_mode,
            quick_add_shortcut: self.quick_add_shortcut.clone(),
            locale: self.locale.clone(),
        }
    }
}

/// The todos as they stood at one moment.
#[derive(Debug)]
pub struct TodoSnapshot {
    pub todos: Vec<Todo>,
    pub fetched_at: i64,
}

impl Clone for TodoSnapshot {
    fn clone(&self) -> (r: Self)
        ensures
            todo_views(r.todos@) == todo_views(self.todos@),
            r.fetched_at == self.fetched_at,
    {
        TodoSnapshot { todos: clone_todos(&self.todos), fetched_at: self.fetched_at }
    }
}

/// Every pin mode is the one that its name names.
pub proof fn pin_mode_name_round_trip(m: PinMode)
    ensures
        pin_mode_named(pin_mode_name(m)) == Some(m),
{
    reveal_strlit("pin_top");
    reveal_strlit("pin_bottom");
    reveal_strlit("normal");
    assert("pin_top"@.len() == 7);
    assert("pin_bottom"@.len() == 10);
    assert("normal"@.len() == 6);
}

/// A name that names a pin mode is that mode's name.
pub proof fn pin_mode_named_is_its_name(s: Seq<char>)
    requires
        pin_mode_named(s) is Some,
    ensures
        pin_mode_name(pin_mode_named(s).unwrap()) == s,
{
}

/// The three pin modes go by these names, and no other text names one.
pub proof fn pin_modes_have_three_names(s: Seq<char>)
    ensures
        pin_mode_name(PinMode::PinTop) == "pin_top"@,
        pin_mode_name(PinMode::PinBottom) == "pin_bottom"@,
        pin_mode_name(PinMode::Normal) == "normal"@,
        pin_mode_named(s) == Some(PinMode::PinTop) <==> s == "pin_top"@,
        pin_mode_named(s) == Some(PinMode::PinBottom) <==> s == "pin_bottom"@,
        pin_mode_named(s) == Some(PinMode::Normal) <==> s == "normal"@,
{
    reveal_strlit("pin_top");
    reveal_strlit("pin_bottom");
    reveal_strlit("normal");
    assert("pin_top"@.len() == 7);
    assert("pin_bottom"@.len() == 10);
    assert("normal"@.len() == 6);
}

/// The view of an attachment records everything that it holds.
pub proof fn attachment_views_are_whole(a: TodoAttachment)
    ensures
        a@.file == a.file@,
        a@.mime == a.mime@,
        a@.width == a.width,
        a@.height == a.height,
        attachment_of(Some(a)) == Some(a@),
        attachment_of(None) is None,
{
}

/// The view of a todo records everything that it holds.
pub proof fn todo_views_are_whole(t: Todo)
    ensures
        t@.id == t.id@,
        t@.title == t.title@,
        t@.status == t.status,
        t@.priority == t.priority,
        t@.created_at == t.created_at,
        t@.updated_at == t.updated_at,
        t@.due_at == t.due_at,
        t@.order == t.order,
        t@.tags.len() == t.tags@.len(),
        forall|i: int| 0 <= i < t.tags@.len() ==> #[trigger] t@.tags[i] == t.tags@[i]@,
        t.attachment is None ==> t@.attachment is None,
        t.attachment is Some ==> t@.attachment == Some(t.attachment.unwrap()@),
        todo_of(Some(t)) == Some(t@),
        todo_of(None) is None,
{
}

/// The views of a list are those of its todos, one for one; so are the texts of
/// a list of strings.
pub proof fn list_views_are_whole(todos: Seq<Todo>, strings: Seq<String>)
    ensures
        todo_views(todos).len() == todos.len(),
        forall|i: int| 0 <= i < todos.len() ==> #[trigger] todo_views(todos)[i] == todos[i]@,
        texts(strings).len() == strings.len(),
        forall|i: int| 0 <= i < strings.len() ==> #[trigger] texts(strings)[i] == strings[i]@,
{
}

/// The view of the document records everything that it holds.
pub proof fn document_views_are_whole(d: StoreData)
    ensures
        d@.todos.len() == d.todos@.len(),
        forall|i: int| 0 <= i < d.todos@.len() ==> #[trigger] d@.todos[i] == d.todos@[i]@,
        d@.window_geom == d.window_geom,
        d@.pin_mode == d.pin_mode,
        d.quick_add_shortcut is None <==> d@.quick_add_shortcut is None,
        d.quick_add_shortcut is Some ==> d@.quick_add_shortcut == Some(
            d.quick_add_shortcut.unwrap()@,
        ),
        d.locale is None <==> d@.locale is None,
        d.locale is Some ==> d@.locale == Some(d.locale.unwrap()@),
{
}

/// The characters of an optional string are those of the string, where it is
/// there.
pub proof fn optional_texts_are_whole(s: String)
    ensures
        text_of(Some(s)) == Some(s@),
        text_of(None) is None,
{
}

} // verus!
