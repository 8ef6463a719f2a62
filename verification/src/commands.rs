//! The commands of the front end, each as one step on the store: what is
//! checked, what changes, and what is answered.
use vstd::prelude::*;

use crate::attachment::{
    file_name_of, is_plain_name, made_attachments_come_back, made_names_are_plain, plain_name,
    safe_todo,
};
use crate::clipboard::{ClipboardContent, ClipboardImage};
use crate::errors::{refusal, CommandError};
use crate::external::{hotkey_answer, hotkey_of, is_uuid, new_uuid, parse_hotkey, Hotkey};
use crate::laws::{
    delete_undoes_restore, lemma_unique_index, ranked, restore_undoes_delete, unique_ids,
};
use crate::path::{child_of, path_of, DataPath};
use crate::platform::Platform;
use crate::sections::{
    edit_result, edit_todos, has_id, lookup, new_todo, put_back, reorder_verdict, reordered,
    section, without, ReorderVerdict,
};
use crate::store::{
    attachments_dir_of, effective_pin_mode, effective_shortcut, is_referenced, Store, StoreView,
};
use crate::text::{
    blank_texts_trim_to_nothing, is_white_space, same_text, trim, trim_is_idempotent, trimmed,
};
use crate::todo::{
    pin_mode_name, pin_mode_named, text_of, texts, todo_views, AttachmentView, PinMode,
    StoreDataView, Todo, TodoAttachment, TodoSnapshot, TodoStatus, TodoView,
};

verus! {

/// The most characters that a title may have.
pub const MAX_TITLE_CHARS: usize = 114514;

/// What is wrong with a title.
#[derive(Debug)]
pub enum TitleFault {
    Empty,
    TooLong,
}

/// The title that a text makes: the text trimmed, neither empty nor too long.
pub open spec fn title_of(raw: Seq<char>) -> Result<Seq<char>, TitleFault> {
    if trimmed(raw).len() == 0 {
        Err(TitleFault::Empty)
    } else if trimmed(raw).len() > MAX_TITLE_CHARS {
        Err(TitleFault::TooLong)
    } else {
        Ok(trimmed(raw))
    }
}

/// Whether `e` reports the fault `fault`.
pub open spec fn reports(e: CommandError, fault: TitleFault) -> bool {
    match fault {
        TitleFault::Empty => e is EmptyTitle,
        TitleFault::TooLong => e is TooLong,
    }
}

/// The title that a text makes, or what is wrong with it.
pub fn validate_title(raw: &str) -> (r: Result<String, CommandError>)
    ensures
        match title_of(raw@) {
            Ok(t) => r is Ok && r.unwrap()@ == t,
            Err(fault) => r is Err && reports(r->Err_0, fault),
        },
{
    let t = trim(raw);
    let n: usize = t.as_str().unicode_len();
    if n == 0 {
        return Err(CommandError::EmptyTitle);
    }
    if n > MAX_TITLE_CHARS {
        return Err(CommandError::TooLong);
    }
    Ok(t)
}

/// A title is a valid title as it stands.
pub proof fn titles_stay_valid(raw: Seq<char>)
    requires
        title_of(raw) is Ok,
    ensures
        title_of(title_of(raw).unwrap()) == title_of(raw),
{
    trim_is_idempotent(raw);
}

/// The status that a text names, if it names one.
pub open spec fn status_named(s: Seq<char>) -> Option<TodoStatus> {
    if s == "pending"@ {
        Some(TodoStatus::Pending)
    } else if s == "done"@ {
        Some(TodoStatus::Done)
    } else {
        None
    }
}

/// The status that a text names.
pub fn parse_status(s: &str) -> (r: Result<TodoStatus, CommandError>)
    ensures
        match status_named(s@) {
            Some(status) => r == Ok::<TodoStatus, CommandError>(status),
            None => r is Err && r->Err_0 is InvalidStatus && r->Err_0->InvalidStatus_0@ == s@,
        },
{
    if same_text(s, "pending") {
        Ok(TodoStatus::Pending)
    } else if same_text(s, "done") {
        Ok(TodoStatus::Done)
    } else {
        Err(CommandError::InvalidStatus(s.to_owned()))
    }
}

/// The todos as they stand now.
pub fn get_todos(store: &Store) -> (r: TodoSnapshot)
    ensures
        todo_views(r.todos@) == store@.data.todos,
{
    store.snapshot()
}

/// Adds a pending todo under the trimmed title.
pub fn add_todo(store: &mut Store, title: &str) -> (r: Result<Todo, CommandError>)
    ensures
        match title_of(title@) {
            Ok(t) => r is Ok && is_uuid(r.unwrap()@.id) && r.unwrap()@ == new_todo(
                old(store)@.data.todos,
                t,
                None,
                r.unwrap()@.id,
                r.unwrap()@.created_at,
            ) && final(store)@ == old(store)@.with_todos(
                old(store)@.data.todos.push(r.unwrap()@),
            ),
            Err(fault) => r is Err && reports(r->Err_0, fault) && final(store)@ == old(store)@,
        },
{
    match validate_title(title) {
        Ok(t) => Ok(store.add(t)),
        Err(e) => Err(e),
    }
}

/// An edit as the front end asks for it.
pub enum EditRequest {
    BadTitle(TitleFault),
    BadStatus(Seq<char>),
    Edit { title: Option<Seq<char>>, status: Option<TodoStatus> },
}

/// What an edit request comes to; the title is looked at first.
pub open spec fn edit_request(
    title: Option<Seq<char>>,
    status: Option<Seq<char>>,
) -> EditRequest {
    if title is Some && title_of(title.unwrap()) is Err {
        EditRequest::BadTitle(title_of(title.unwrap())->Err_0)
    } else if status is Some && status_named(status.unwrap()) is None {
        EditRequest::BadStatus(status.unwrap())
    } else {
        EditRequest::Edit {
            title: match title {
                Some(t) => Some(title_of(t).unwrap()),
                None => None,
            },
            status: match status {
                Some(s) => Some(status_named(s).unwrap()),
                None => None,
            },
        }
    }
}

/// An edited todo, and whether anything was changed: only then is the document
/// written and the front end told.
#[derive(Debug)]
pub struct Edited {
    pub todo: Todo,
    pub changed: bool,
}

/// Edits a todo's title, status, or both. Asked for neither, answers with the
/// todo as it is.
pub fn update_todo(
    store: &mut Store,
    id: &str,
    title: Option<String>,
    status: Option<String>,
) -> (r: Result<Edited, CommandError>)
    ensures
        match edit_request(text_of(title), text_of(status)) {
            EditRequest::BadTitle(fault) => r is Err && reports(r->Err_0, fault) && final(store)@
                == old(store)@,
            EditRequest::BadStatus(s) => r is Err && r->Err_0 is InvalidStatus
                && r->Err_0->InvalidStatus_0@ == s && final(store)@ == old(store)@,
            EditRequest::Edit { title: t, status: s } => if !has_id(old(store)@.data.todos, id@) {
                r is Err && r->Err_0 is NotFound && final(store)@ == old(store)@
            } else if t is None && s is None {
                r is Ok && !r.unwrap().changed && lookup(old(store)@.data.todos, id@) == Some(
                    r.unwrap().todo@,
                ) && final(store)@ == old(store)@
            } else {
                r is Ok && r.unwrap().changed && r.unwrap().todo@ == edit_result(
                    old(store)@.data.todos,
                    id@,
                    t,
                    s,
                    r.unwrap().todo@.updated_at,
                ) && final(store)@ == old(store)@.with_todos(
                    edit_todos(old(store)@.data.todos, id@, t, s, r.unwrap().todo@.updated_at),
                )
            },
        },
{
    let new_title: Option<String> = match title {
        Some(t) => match validate_title(t.as_str()) {
            Ok(v) => Some(v),
            Err(e) => return Err(e),
        },
        None => None,
    };
    let new_status: Option<TodoStatus> = match status {
        Some(s) => match parse_status(s.as_str()) {
            Ok(v) => Some(v),
            Err(e) => return Err(e),
        },
        None => None,
    };
    match store.update(id, new_title, new_status) {
        Err(e) => Err(refusal(e)),
        Ok(Some(todo)) => Ok(Edited { todo, changed: true }),
        Ok(None) => match store.find(id) {
            Some(todo) => Ok(Edited { todo, changed: false }),
            None => Err(CommandError::NotFound),
        },
    }
}

/// Deletes a todo and answers with it. Its attachment's file stays, so that the
/// deletion can be undone.
pub fn delete_todo(store: &mut Store, id: &str) -> (r: Result<Todo, CommandError>)
    ensures
        match lookup(old(store)@.data.todos, id@) {
            Some(t) => r is Ok && r.unwrap()@ == t && final(store)@ == old(store)@.with_todos(
                without(old(store)@.data.todos, id@),
            ),
            None => r is Err && r->Err_0 is NotFound && final(store)@ == old(store)@,
        },
{
    match store.delete(id) {
        Some(todo) => Ok(todo),
        None => Err(CommandError::NotFound),
    }
}

/// A todo that was put back, or the one that already has its id.
#[derive(Debug)]
pub struct Restored {
    pub todo: Todo,
    /// Whether the list changed: only then is the document written.
    pub inserted: bool,
}

/// Undoes a deletion: puts the todo back, unless its id is in use.
pub fn restore_todo(store: &mut Store, todo: Todo) -> (r: Result<Restored, CommandError>)
    ensures
        r is Ok,
        r.unwrap().inserted == !has_id(old(store)@.data.todos, todo@.id),
        r.unwrap().inserted ==> r.unwrap().todo@ == safe_todo(todo@) && final(store)@ == old(
            store,
        )@.with_todos(put_back(old(store)@.data.todos, safe_todo(todo@))),
        !r.unwrap().inserted ==> lookup(old(store)@.data.todos, todo@.id) == Some(
            r.unwrap().todo@,
        ) && final(store)@ == old(store)@,
{
    let id = todo.id.clone();
    match store.restore(todo) {
        Some(t) => Ok(Restored { todo: t, inserted: true }),
        None => match store.find(id.as_str()) {
            Some(existing) => Ok(Restored { todo: existing, inserted: false }),
            None => Err(CommandError::NotFound),
        },
    }
}

/// Ends a restoration: where the document could not be written, the todo is
/// taken out again, so that memory and disk agree.
pub fn settle_restore(store: &mut Store, restored: Todo, failure: Option<String>) -> (r: Result<
    Todo,
    CommandError,
>)
    ensures
        match failure {
            None => r == Ok::<Todo, CommandError>(restored) && final(store)@ == old(store)@,
            Some(e) => r is Err && r->Err_0 is RestoreFailed && r->Err_0->RestoreFailed_0@ == e@
                && final(store)@ == if has_id(old(store)@.data.todos, restored@.id) {
                old(store)@.with_todos(without(old(store)@.data.todos, restored@.id))
            } else {
                old(store)@
            },
        },
{
    match failure {
        None => Ok(restored),
        Some(e) => {
            let _removed = store.delete(restored.id.as_str());
            Err(CommandError::RestoreFailed(e))
        },
    }
}

/// A restoration that could not be written leaves the list as it was.
pub proof fn failed_restore_changes_nothing(before: StoreView, todo: TodoView)
    requires
        !has_id(before.data.todos, todo.id),
    ensures
        ({
            let restored = before.with_todos(put_back(before.data.todos, safe_todo(todo)));
            let settled = restored.with_todos(
                without(restored.data.todos, safe_todo(todo).id),
            );
            settled.data == before.data && settled.data_path == before.data_path
        }),
{
    delete_undoes_restore(before.data.todos, safe_todo(todo));
}

/// Which file to delete for an attachment whose todo is gone for good. A name
/// that leads out of the attachments directory is refused.
pub fn purge_attachment(store: &Store, file: &str) -> (r: Result<Option<DataPath>, CommandError>)
    ensures
        if is_plain_name(file@) {
            r is Ok && path_of(r.unwrap()) == match attachments_dir_of(store@) {
                Some(dir) => Some(child_of(dir, file@)),
                None => None,
            }
        } else {
            r is Err && r->Err_0 is InvalidAttachmentName
        },
{
    if !plain_name(file) {
        return Err(CommandError::InvalidAttachmentName);
    }
    match store.attachments_dir() {
        Some(dir) => Ok(Some(dir.join(file))),
        None => Ok(None),
    }
}

/// Puts one section in the listed order.
pub fn reorder_todos(store: &mut Store, ids: &[String]) -> (r: Result<(), CommandError>)
    ensures
        match reorder_verdict(old(store)@.data.todos, texts(ids@)) {
            ReorderVerdict::Ignored => r is Ok && final(store)@ == old(store)@,
            ReorderVerdict::Refused => r is Err && r->Err_0 is NotOneSection && final(store)@
                == old(store)@,
            ReorderVerdict::Applied => r is Ok && exists|now: i64|
                final(store)@ == old(store)@.with_todos(
                    #[trigger] reordered(old(store)@.data.todos, texts(ids@), now),
                ),
        },
{
    match store.reorder(ids) {
        Ok(()) => Ok(()),
        Err(e) => Err(refusal(e)),
    }
}

/// Whether the interface is offered in a locale.
pub open spec fn is_offered(locale: Seq<char>) -> bool {
    locale == "en"@ || locale == "zh-CN"@
}

/// The locale in force: the chosen one, else the one that the translations
/// start with.
pub fn get_app_locale(store: &Store, initial: String) -> (r: String)
    ensures
        r@ == match store@.data.locale {
            Some(s) => s,
            None => initial@,
        },
{
    match store.locale() {
        Some(s) => s.to_owned(),
        None => initial,
    }
}

/// Chooses a locale; only one that is offered is taken.
pub fn set_app_locale(store: &mut Store, locale: &str) -> (r: Result<(), CommandError>)
    ensures
        if is_offered(locale@) {
            r is Ok && final(store)@ == old(store)@.with_data(
                StoreDataView { locale: Some(locale@), ..old(store)@.data },
            )
        } else {
            r is Err && r->Err_0 is UnsupportedLocale && final(store)@ == old(store)@
        },
{
    if !same_text(locale, "en") && !same_text(locale, "zh-CN") {
        return Err(CommandError::UnsupportedLocale);
    }
    store.set_locale(locale.to_owned());
    Ok(())
}

/// The name of the pin mode in force.
pub fn get_pin_mode(store: &Store) -> (r: &'static str)
    ensures
        r@ == pin_mode_name(effective_pin_mode(store@.data.pin_mode)),
{
    store.pin_mode().name()
}

/// Chooses a pin mode by its name and answers with it, for the window to be put
/// in that layer.
pub fn set_pin_mode_core(store: &mut Store, mode: &str) -> (r: Result<PinMode, CommandError>)
    ensures
        match pin_mode_named(mode@) {
            Some(m) => r == Ok::<PinMode, CommandError>(m) && final(store)@ == old(
                store,
            )@.with_data(StoreDataView { pin_mode: Some(m), ..old(store)@.data }),
            None => r is Err && r->Err_0 is InvalidPinMode && r->Err_0->InvalidPinMode_0@ == mode@
                && final(store)@ == old(store)@,
        },
{
    match PinMode::from_str_opt(mode) {
        Some(m) => {
            store.set_pin_mode(m);
            Ok(m)
        },
        None => Err(CommandError::InvalidPinMode(mode.to_owned())),
    }
}

/// Whether hovering raises or lowers the window; it does so only where the
/// window is pinned to the bottom.
pub fn set_floating_hover_raise(store: &Store, hovering: bool) -> (r: Option<bool>)
    ensures
        r == if effective_pin_mode(store@.data.pin_mode) == PinMode::PinBottom {
            Some(hovering)
        } else {
            None
        },
{
    if store.pin_mode() == PinMode::PinBottom {
        Some(hovering)
    } else {
        None
    }
}

/// The quick-add shortcut in force.
pub fn get_quick_add_shortcut(store: &Store, platform: Platform) -> (r: String)
    ensures
        r@ == effective_shortcut(store@.data.quick_add_shortcut, platform),
{
    store.quick_add_shortcut(platform)
}

/// The bits of the modifiers that keep a shortcut from being a bare key: Alt,
/// Control, Meta and Super.
pub const STRONG_MODIFIERS: u32 = 0x2049;

/// Whether a combination has a modifier other than Shift.
pub open spec fn has_modifier(mods: u32) -> bool {
    mods & STRONG_MODIFIERS != 0
}

/// Reads an accelerator as a key combination.
pub fn parse_shortcut(accelerator: &str) -> (r: Result<Hotkey, CommandError>)
    ensures
        exists|macos: bool|
            match #[trigger] hotkey_of(accelerator@, macos) {
                Ok(k) => r is Ok && r.unwrap().mods == k.0 && r.unwrap().id == k.1,
                Err(e) => r is Err && r->Err_0 is InvalidShortcut
                    && r->Err_0->InvalidShortcut_accelerator@ == accelerator@
                    && r->Err_0->InvalidShortcut_reason@ == e,
            },
        !accelerator@.contains('+') && r is Ok ==> r.unwrap().mods == 0,
{
    match parse_hotkey(accelerator) {
        Ok(k) => Ok(k),
        Err(reason) => Err(
            CommandError::InvalidShortcut { accelerator: accelerator.to_owned(), reason },
        ),
    }
}

/// Chooses a quick-add shortcut whose reading is `parsed`, and answers with the
/// one that was in force. A shortcut that cannot be read, or is a bare key,
/// changes nothing.
pub fn accept_shortcut(
    store: &mut Store,
    accelerator: &str,
    parsed: Result<Hotkey, CommandError>,
    platform: Platform,
) -> (r: Result<String, CommandError>)
    ensures
        match parsed {
            Err(e) => r == Err::<String, CommandError>(e) && final(store)@ == old(store)@,
            Ok(k) => if has_modifier(k.mods) {
                r is Ok && r.unwrap()@ == effective_shortcut(
                    old(store)@.data.quick_add_shortcut,
                    platform,
                ) && final(store)@ == old(store)@.with_data(
                    StoreDataView {
                        quick_add_shortcut: Some(accelerator@),
                        ..old(store)@.data
                    },
                )
            } else {
                r is Err && r->Err_0 is ShortcutNoModifier && final(store)@ == old(store)@
            },
        },
{
    match parsed {
        Err(e) => Err(e),
        Ok(k) => {
            if k.mods & STRONG_MODIFIERS == 0 {
                return Err(CommandError::ShortcutNoModifier);
            }
            let previous = store.quick_add_shortcut(platform);
            store.set_quick_add_shortcut(accelerator.to_owned());
            Ok(previous)
        },
    }
}

/// Chooses a quick-add shortcut and answers with the one that was in force.
/// Whatever the parser says, either the shortcut is taken or nothing changes;
/// a text without a plus sign is never taken.
pub fn set_quick_add_shortcut(store: &mut Store, accelerator: &str, platform: Platform) -> (r:
    Result<String, CommandError>)
    ensures
        exists|macos: bool|
            match #[trigger] hotkey_of(accelerator@, macos) {
                Err(e) => r is Err && r->Err_0 is InvalidShortcut
                    && r->Err_0->InvalidShortcut_accelerator@ == accelerator@
                    && r->Err_0->InvalidShortcut_reason@ == e && final(store)@ == old(store)@,
                Ok(k) => if has_modifier(k.0) {
                    r is Ok && r.unwrap()@ == effective_shortcut(
                        old(store)@.data.quick_add_shortcut,
                        platform,
                    ) && final(store)@ == old(store)@.with_data(
                        StoreDataView {
                            quick_add_shortcut: Some(accelerator@),
                            ..old(store)@.data
                        },
                    )
                } else {
                    r is Err && r->Err_0 is ShortcutNoModifier && final(store)@ == old(store)@
                },
            },
        !accelerator@.contains('+') ==> r is Err,
{
    let parsed = parse_shortcut(accelerator);
    proof {
        assert(0u32 & STRONG_MODIFIERS == 0) by (bit_vector);
    }
    accept_shortcut(store, accelerator, parsed, platform)
}

/// Ends the choice of a shortcut: where the document could not be written, the
/// shortcut that was in force before is chosen again.
pub fn settle_shortcut(store: &mut Store, previous: String, failure: Option<String>) -> (r: Result<
    (),
    CommandError,
>)
    ensures
        match failure {
            None => r is Ok && final(store)@ == old(store)@,
            Some(e) => r is Err && r->Err_0 is PersistFailed && r->Err_0->PersistFailed_0@ == e@
                && final(store)@ == old(store)@.with_data(
                StoreDataView { quick_add_shortcut: Some(previous@), ..old(store)@.data },
            ),
        },
{
    match failure {
        None => Ok(()),
        Some(e) => {
            store.set_quick_add_shortcut(previous);
            Err(CommandError::PersistFailed(e))
        },
    }
}

/// A shortcut that could not be written leaves the one in force as it was, and
/// everything else in the document too.
pub proof fn failed_shortcut_keeps_the_old_one(
    before: StoreView,
    accelerator: Seq<char>,
    platform: Platform,
)
    ensures
        ({
            let previous = effective_shortcut(before.data.quick_add_shortcut, platform);
            let chosen = before.with_data(
                StoreDataView { quick_add_shortcut: Some(accelerator), ..before.data },
            );
            let settled = chosen.with_data(
                StoreDataView { quick_add_shortcut: Some(previous), ..chosen.data },
            );
            &&& effective_shortcut(settled.data.quick_add_shortcut, platform)
                == effective_shortcut(before.data.quick_add_shortcut, platform)
            &&& settled.data.todos == before.data.todos
            &&& settled.data.window_geom == before.data.window_geom
            &&& settled.data.pin_mode == before.data.pin_mode
            &&& settled.data.locale == before.data.locale
        }),
{
}

/// The directory of the attachments.
pub fn get_attachments_dir(store: &Store) -> (r: Result<DataPath, CommandError>)
    ensures
        match attachments_dir_of(store@) {
            Some(dir) => r is Ok && r.unwrap()@ == dir,
            None => r is Err && r->Err_0 is NoAttachmentsDir,
        },
{
    match store.attachments_dir() {
        Some(dir) => Ok(dir),
        None => Err(CommandError::NoAttachmentsDir),
    }
}

/// What a paste came to, for the front end to report.
#[derive(Debug)]
pub struct PasteOutcome {
    /// `text` or `image`.
    pub kind: String,
    pub title: String,
}

impl Clone for PasteOutcome {
    fn clone(&self) -> (r: Self)
        ensures
            r == *self,
    {
        PasteOutcome { kind: self.kind.clone(), title: self.title.clone() }
    }
}

/// An image on its way to the attachments directory.
#[derive(Debug)]
pub struct PendingImage {
    pub dir: DataPath,
    /// The file's own name.
    pub file: String,
    pub path: DataPath,
    pub image: ClipboardImage,
}

/// What a paste needs next.
#[derive(Debug)]
pub enum PasteStep {
    /// The paste is over, and the list has changed.
    Pasted(PasteOutcome),
    /// The image is to be written to its file first.
    WriteImage(PendingImage),
    /// The paste cannot be done.
    Failed(CommandError),
}

/// Starts a paste, an image's file being named after `id`. See
/// [`paste_from_clipboard`].
pub fn paste_as(store: &mut Store, content: ClipboardContent, id: String) -> (r: PasteStep)
    ensures
        match content {
            ClipboardContent::Text(text) => match title_of(text@) {
                Ok(t) => r is Pasted && r->Pasted_0.kind@ == "text"@ && r->Pasted_0.title@ == t
                    && pasted(old(store)@, final(store)@, t, None),
                Err(fault) => r is Failed && reports(r->Failed_0, fault) && final(store)@ == old(
                    store,
                )@,
            },
            ClipboardContent::Image(image) => final(store)@ == old(store)@
                && match attachments_dir_of(old(store)@) {
                Some(dir) => r is WriteImage && r->WriteImage_0.image == image
                    && r->WriteImage_0.dir@ == dir && r->WriteImage_0.file@ == file_name_of(
                    id@,
                    image.ext@,
                ) && r->WriteImage_0.path@ == child_of(dir, r->WriteImage_0.file@),
                None => r is Failed && r->Failed_0 is NoAttachmentsDir,
            },
            ClipboardContent::Empty => r is Failed && r->Failed_0 is EmptyClipboard
                && final(store)@ == old(store)@,
        },
{
    match content {
        ClipboardContent::Text(text) => match validate_title(text.as_str()) {
            Ok(title) => {
                let todo = store.add(title);
                PasteStep::Pasted(PasteOutcome { kind: "text".to_owned(), title: todo.title })
            },
            Err(e) => PasteStep::Failed(e),
        },
        ClipboardContent::Image(image) => match store.attachments_dir() {
            Some(dir) => {
                let mut file = id;
                file.append(".");
                file.append(image.ext);
                let path = dir.join(file.as_str());
                PasteStep::WriteImage(PendingImage { dir, file, path, image })
            },
            None => PasteStep::Failed(CommandError::NoAttachmentsDir),
        },
        ClipboardContent::Empty => PasteStep::Failed(CommandError::EmptyClipboard),
    }
}

/// Whether `after` is `before` with one new pending todo at the end.
pub open spec fn pasted(
    before: StoreView,
    after: StoreView,
    title: Seq<char>,
    attachment: Option<AttachmentView>,
) -> bool {
    exists|id: Seq<char>, now: i64|
        is_uuid(id) && after == before.with_todos(
            before.data.todos.push(
                #[trigger] new_todo(before.data.todos, title, attachment, id, now),
            ),
        )
}

/// Starts a paste: text becomes a todo at once, an image is first to be written
/// to a file with a fresh name.
pub fn paste_from_clipboard(store: &mut Store, content: ClipboardContent) -> (r: PasteStep)
    ensures
        match content {
            ClipboardContent::Text(text) => match title_of(text@) {
                Ok(t) => r is Pasted && r->Pasted_0.kind@ == "text"@ && r->Pasted_0.title@ == t
                    && pasted(old(store)@, final(store)@, t, None),
                Err(fault) => r is Failed && reports(r->Failed_0, fault) && final(store)@ == old(
                    store,
                )@,
            },
            ClipboardContent::Image(image) => final(store)@ == old(store)@
                && match attachments_dir_of(old(store)@) {
                Some(dir) => r is WriteImage && r->WriteImage_0.image == image
                    && r->WriteImage_0.dir@ == dir && (exists|id: Seq<char>|
                    is_uuid(id) && r->WriteImage_0.file@ == #[trigger] file_name_of(
                        id,
                        image.ext@,
                    )) && r->WriteImage_0.path@ == child_of(dir, r->WriteImage_0.file@),
                None => r is Failed && r->Failed_0 is NoAttachmentsDir,
            },
            ClipboardContent::Empty => r is Failed && r->Failed_0 is EmptyClipboard
                && final(store)@ == old(store)@,
        },
{
    let id = new_uuid();
    paste_as(store, content, id)
}

/// The title of a pasted image: what the user typed, else the name that comes
/// with the image, else none.
pub open spec fn image_title(typed: Option<Seq<char>>, name: Option<Seq<char>>) -> Result<
    Seq<char>,
    TitleFault,
> {
    if typed is Some && trimmed(typed.unwrap()).len() > 0 {
        title_of(typed.unwrap())
    } else if name is Some && trimmed(name.unwrap()).len() > 0 {
        title_of(name.unwrap())
    } else {
        Ok(Seq::empty())
    }
}

/// The title of a pasted image.
pub fn choose_image_title(typed: Option<String>, name: &Option<String>) -> (r: Result<
    String,
    CommandError,
>)
    ensures
        match image_title(text_of(typed), text_of(*name)) {
            Ok(t) => r is Ok && r.unwrap()@ == t,
            Err(fault) => r is Err && reports(r->Err_0, fault),
        },
{
    match &typed {
        Some(t) => {
            let t = trim(t.as_str());
            if t.as_str().unicode_len() > 0 {
                proof {
                    trim_is_idempotent(typed.unwrap()@);
                }
                return validate_title(t.as_str());
            }
        },
        None => {},
    }
    match name {
        Some(n) => {
            let t = trim(n.as_str());
            if t.as_str().unicode_len() > 0 {
                proof {
                    trim_is_idempotent(n@);
                }
                return validate_title(t.as_str());
            }
        },
        None => {},
    }
    Ok(String::new())
}

/// Ends the paste of an image whose file has been written: adds a todo with the
/// attachment.
pub fn finish_paste(store: &mut Store, pending: PendingImage, typed: Option<String>) -> (r: Result<
    PasteOutcome,
    CommandError,
>)
    ensures
        match image_title(text_of(typed), text_of(pending.image.name)) {
            Ok(t) => r is Ok && r.unwrap().kind@ == "image"@ && r.unwrap().title@ == t && pasted(
                old(store)@,
                final(store)@,
                t,
                Some(
                    AttachmentView {
                        file: pending.file@,
                        mime: pending.image.mime@,
                        width: pending.image.width,
                        height: pending.image.height,
                    },
                ),
            ),
            Err(fault) => r is Err && reports(r->Err_0, fault) && final(store)@ == old(store)@,
        },
{
    let title = match choose_image_title(typed, &pending.image.name) {
        Ok(t) => t,
        Err(e) => return Err(e),
    };
    let attachment = TodoAttachment {
        file: pending.file,
        mime: pending.image.mime.to_owned(),
        width: pending.image.width,
        height: pending.image.height,
    };
    let todo = store.add_with_attachment(title, Some(attachment));
    Ok(PasteOutcome { kind: "image".to_owned(), title: todo.title })
}

/// The file of a pasted image belongs to a todo, so it is not among the
/// left-over files; and its name passes the test for deletion, so it can be
/// deleted once that todo is gone.
pub proof fn pasted_image_is_kept(
    before: StoreView,
    after: StoreView,
    title: Seq<char>,
    attachment: AttachmentView,
    id: Seq<char>,
    ext: Seq<char>,
)
    requires
        pasted(before, after, title, Some(attachment)),
        is_uuid(id),
        ext == "gif"@ || ext == "png"@ || ext == "jpg"@,
        attachment.file == file_name_of(id, ext),
    ensures
        is_referenced(after.data.todos, attachment.file),
        is_plain_name(attachment.file),
{
    let n = before.data.todos.len() as int;
    assert(after.data.todos[n].attachment == Some(attachment));
    made_names_are_plain(id, ext);
}

/// A pasted image comes back whole when its todo is deleted and restored: the
/// todo is the same, attachment and all, and both sections read as before.
pub proof fn pasted_image_comes_back(
    before: StoreView,
    after: StoreView,
    title: Seq<char>,
    attachment: AttachmentView,
    id: Seq<char>,
    ext: Seq<char>,
)
    requires
        pasted(before, after, title, Some(attachment)),
        is_uuid(id),
        ext == "gif"@ || ext == "png"@ || ext == "jpg"@,
        attachment.file == file_name_of(id, ext),
        unique_ids(after.data.todos),
        ranked(after.data.todos),
    ensures
        ({
            let todo = after.data.todos.last();
            let deleted = without(after.data.todos, todo.id);
            let restored = put_back(deleted, safe_todo(todo));
            &&& todo.attachment == Some(attachment)
            &&& !has_id(deleted, todo.id)
            &&& lookup(restored, todo.id) == Some(todo)
            &&& forall|s: TodoStatus| #[trigger]
                section(restored, s) == section(after.data.todos, s)
        }),
{
    let n = before.data.todos.len() as int;
    let todo = after.data.todos[n];
    assert(todo.attachment == Some(attachment));
    made_attachments_come_back(attachment, id, ext);
    lemma_unique_index(after.data.todos, n);
    restore_undoes_delete(after.data.todos, todo.id);
}

/// A title is the trimmed text. Only a text of nothing but white space is refused
/// as empty, and only one that is longer than 114514 characters once trimmed as
/// too long.
pub proof fn titles_are_trimmed_texts(raw: Seq<char>)
    ensures
        title_of(raw) is Ok ==> title_of(raw).unwrap() == trimmed(raw),
        title_of(raw) == Err::<Seq<char>, TitleFault>(TitleFault::Empty) <==> forall|i: int|
            0 <= i < raw.len() ==> is_white_space(#[trigger] raw[i]),
        title_of(raw) == Err::<Seq<char>, TitleFault>(TitleFault::TooLong) <==> trimmed(raw).len()
            > 114514,
        title_of(raw) is Ok <==> 0 < trimmed(raw).len() <= 114514,
{
    blank_texts_trim_to_nothing(raw);
}

/// Each fault of a title has an error of its own.
pub proof fn faults_have_errors_of_their_own(e: CommandError)
    ensures
        reports(e, TitleFault::Empty) <==> e is EmptyTitle,
        reports(e, TitleFault::TooLong) <==> e is TooLong,
{
}

/// There are two names of a status, and no other text is one.
pub proof fn statuses_have_two_names(s: Seq<char>)
    ensures
        status_named("pending"@) == Some(TodoStatus::Pending),
        status_named("done"@) == Some(TodoStatus::Done),
        s != "pending"@ && s != "done"@ ==> status_named(s) is None,
{
    reveal_strlit("pending");
    reveal_strlit("done");
    assert("pending"@.len() != "done"@.len());
}

/// An edit is refused where its title is no title or its status no status, the
/// title's fault first; else it asks for the trimmed title and the named status,
/// each where it was given.
pub proof fn edits_are_checked(title: Option<Seq<char>>, status: Option<Seq<char>>)
    ensures
        ({
            let request = edit_request(title, status);
            let bad_title = title is Some && !(0 < trimmed(title.unwrap()).len() <= 114514);
            let bad_status = status is Some && status.unwrap() != "pending"@ && status.unwrap()
                != "done"@;
            &&& request is BadTitle <==> bad_title
            &&& request is BadStatus <==> !bad_title && bad_status
            &&& request is BadTitle ==> {
                &&& trimmed(title.unwrap()).len() == 0 ==> request->BadTitle_0 is Empty
                &&& trimmed(title.unwrap()).len() > 114514 ==> request->BadTitle_0 is TooLong
            }
            &&& request is BadStatus ==> request->BadStatus_0 == status.unwrap()
            &&& request is Edit ==> {
                &&& title is Some <==> request->Edit_title is Some
                &&& title is Some ==> request->Edit_title.unwrap() == trimmed(title.unwrap())
                &&& status is Some <==> request->Edit_status is Some
                &&& status == Some("pending"@) ==> request->Edit_status == Some(
                    TodoStatus::Pending,
                )
                &&& status == Some("done"@) ==> request->Edit_status == Some(TodoStatus::Done)
            }
        }),
{
    if status is Some {
        statuses_have_two_names(status.unwrap());
    }
    statuses_have_two_names("done"@);
}

/// The interface is offered in English and in simplified Chinese, and in no other
/// locale.
pub proof fn two_locales_are_offered(locale: Seq<char>)
    ensures
        is_offered(locale) <==> locale == seq!['e', 'n'] || locale == seq!['z', 'h', '-', 'C', 'N'],
{
    reveal_strlit("en");
    reveal_strlit("zh-CN");
    assert("en"@ =~= seq!['e', 'n']);
    assert("zh-CN"@ =~= seq!['z', 'h', '-', 'C', 'N']);
}

/// A shortcut has a modifier where the bit of Alt, Control, Meta or Super is set;
/// no other bit counts, that of Shift among them.
pub proof fn any_of_four_modifiers_is_enough(mods: u32)
    ensures
        has_modifier(mods) <==> mods & 0x1 != 0 || mods & 0x8 != 0 || mods & 0x40 != 0 || mods
            & 0x2000 != 0,
        !has_modifier(0x200),
{
    assert(mods & 0x2049 != 0 <==> mods & 0x1 != 0 || mods & 0x8 != 0 || mods & 0x40 != 0 || mods
        & 0x2000 != 0) by (bit_vector);
    assert(0x200u32 & 0x2049 == 0) by (bit_vector);
}

/// A paste adds one pending todo behind all others, with the given title and
/// attachment and a fresh id; the other todos and the settings stay.
pub proof fn pastes_add_one_todo(
    before: StoreView,
    after: StoreView,
    title: Seq<char>,
    attachment: Option<AttachmentView>,
)
    requires
        pasted(before, after, title, attachment),
    ensures
        ({
            let n = before.data.todos.len() as int;
            let todo = after.data.todos[n];
            &&& after.data.todos.len() == n + 1
            &&& forall|i: int| 0 <= i < n ==> #[trigger] after.data.todos[i] == before.data.todos[i]
            &&& todo.title == title
            &&& todo.attachment == attachment
            &&& todo.status == TodoStatus::Pending
            &&& todo.created_at == todo.updated_at
            &&& is_uuid(todo.id)
            &&& after.data.window_geom == before.data.window_geom
            &&& after.data.pin_mode == before.data.pin_mode
            &&& after.data.locale == before.data.locale
            &&& after.data.quick_add_shortcut == before.data.quick_add_shortcut
            &&& after.data_path == before.data_path
        }),
{
}

/// The title of a pasted image is what was typed, unless that is blank; then the
/// name that comes with the image, unless that is blank too; then it has none.
pub proof fn typed_titles_come_first(typed: Option<Seq<char>>, name: Option<Seq<char>>)
    ensures
        ({
            let r = image_title(typed, name);
            let has_typed = typed is Some && exists|i: int|
                0 <= i < typed.unwrap().len() && !is_white_space(#[trigger] typed.unwrap()[i]);
            let has_name = name is Some && exists|i: int|
                0 <= i < name.unwrap().len() && !is_white_space(#[trigger] name.unwrap()[i]);
            &&& has_typed ==> if trimmed(typed.unwrap()).len() <= 114514 {
                r == Ok::<Seq<char>, TitleFault>(trimmed(typed.unwrap()))
            } else {
                r is Err && r->Err_0 is TooLong
            }
            &&& !has_typed && has_name ==> if trimmed(name.unwrap()).len() <= 114514 {
                r == Ok::<Seq<char>, TitleFault>(trimmed(name.unwrap()))
            } else {
                r is Err && r->Err_0 is TooLong
            }
            &&& !has_typed && !has_name ==> r is Ok && r.unwrap().len() == 0
        }),
{
    if typed is Some {
        blank_texts_trim_to_nothing(typed.unwrap());
    }
    if name is Some {
        blank_texts_trim_to_nothing(name.unwrap());
    }
}

/// The view of a parser's answer is the modifiers and the number of the
/// combination, each in its place, or its complaint.
pub proof fn parsed_shortcuts_are_viewed_as_they_are(k: Hotkey, complaint: String)
    ensures
        hotkey_answer(Ok(k)) == Ok::<(u32, u32), Seq<char>>((k.mods, k.id)),
        hotkey_answer(Err(complaint)) == Err::<(u32, u32), Seq<char>>(complaint@),
{
}

} // verus!
