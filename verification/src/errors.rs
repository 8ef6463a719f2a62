//! What a command answers when it cannot be followed, and how it is worded.
use vstd::prelude::*;

use crate::store::StoreError;

verus! {

/// Why a command cannot be followed.
#[derive(Debug)]
pub enum CommandError {
    /// No todo has the given id.
    NotFound,
    /// The title is empty once trimmed.
    EmptyTitle,
    /// The title is too long.
    TooLong,
    /// The status has no such name.
    InvalidStatus(String),
    /// The pin mode has no such name.
    InvalidPinMode(String),
    /// The locale is not offered.
    UnsupportedLocale,
    /// The attachment's name leads out of its directory.
    InvalidAttachmentName,
    /// The shortcut cannot be read; the parser's reason comes with it.
    InvalidShortcut { accelerator: String, reason: String },
    /// The shortcut is a bare key.
    ShortcutNoModifier,
    /// A reorder request does not list exactly the todos of one section.
    NotOneSection,
    /// It is not known where the document is kept.
    NoDataPath,
    /// It is not known where attachments are kept.
    NoAttachmentsDir,
    /// There is nothing to paste.
    EmptyClipboard,
    /// A restored todo could not be written to disk.
    RestoreFailed(String),
    /// A new shortcut could not be written to disk.
    PersistFailed(String),
    /// There is no display to put the window on.
    NoPrimaryMonitor,
    /// There is no display under the window.
    NoMonitor,
    /// There is no floating window.
    NoFloatingWindow,
}

/// How an error is worded: by the key of a translated text, by a fixed text, or
/// by a fixed text in front of the value that was at fault.
#[derive(Debug)]
pub enum Wording {
    Key(&'static str),
    Text(&'static str),
    TextAnd(&'static str, String),
    /// An unreadable shortcut and the parser's reason.
    Shortcut(String, String),
}

impl CommandError {
    /// How the error is worded.
    pub fn wording(&self) -> (r: Wording)
        ensures
            match *self {
                CommandError::NotFound => r is Key && r->Key_0@ == "commands.error.not_found"@,
                CommandError::EmptyTitle => r is Key && r->Key_0@
                    == "commands.error.empty_title"@,
                CommandError::TooLong => r is Key && r->Key_0@ == "commands.error.too_long"@,
                CommandError::InvalidStatus(s) => r is TextAnd && r->TextAnd_0@
                    == "invalid status: "@ && r->TextAnd_1@ == s@,
                CommandError::InvalidPinMode(s) => r is TextAnd && r->TextAnd_0@
                    == "invalid pin mode: "@ && r->TextAnd_1@ == s@,
                CommandError::UnsupportedLocale => r is Key && r->Key_0@
                    == "commands.error.unsupported_locale"@,
                CommandError::InvalidAttachmentName => r is Text && r->Text_0@
                    == "invalid attachment file name"@,
                CommandError::InvalidShortcut { accelerator, reason } => r is Shortcut
                    && r->Shortcut_0@ == accelerator@ && r->Shortcut_1@ == reason@,
                CommandError::ShortcutNoModifier => r is Key && r->Key_0@
                    == "commands.error.shortcut_no_modifier"@,
                CommandError::NotOneSection => r is Text && r->Text_0@
                    == "reorder ids must be a permutation of a single section"@,
                CommandError::NoDataPath => r is Text && r->Text_0@
                    == "data path not initialized"@,
                CommandError::NoAttachmentsDir => r is Key && r->Key_0@
                    == "commands.error.no_attachments_dir"@,
                CommandError::EmptyClipboard => r is Text && r->Text_0@ == "empty"@,
                CommandError::RestoreFailed(s) => r is TextAnd && r->TextAnd_0@
                    == "restore failed: persist error: "@ && r->TextAnd_1@ == s@,
                CommandError::PersistFailed(s) => r is TextAnd && r->TextAnd_0@
                    == "persist failed: "@ && r->TextAnd_1@ == s@,
                CommandError::NoPrimaryMonitor => r is Key && r->Key_0@
                    == "commands.error.no_primary_monitor"@,
                CommandError::NoMonitor => r is Text && r->Text_0@
                    == "no monitor for floating window"@,
                CommandError::NoFloatingWindow => r is Text && r->Text_0@
                    == "floating window missing"@,
            },
    {
        match self {
            CommandError::NotFound => Wording::Key("commands.error.not_found"),
            CommandError::EmptyTitle => Wording::Key("commands.error.empty_title"),
            CommandError::TooLong => Wording::Key("commands.error.too_long"),
            CommandError::InvalidStatus(s) => Wording::TextAnd("invalid status: ", s.clone()),
            CommandError::InvalidPinMode(s) => Wording::TextAnd("invalid pin mode: ", s.clone()),
            CommandError::UnsupportedLocale => Wording::Key("commands.error.unsupported_locale"),
            CommandError::InvalidAttachmentName => Wording::Text("invalid attachment file name"),
            CommandError::InvalidShortcut { accelerator, reason } => Wording::Shortcut(
                accelerator.clone(),
                reason.clone(),
            ),
            CommandError::ShortcutNoModifier => Wording::Key(
                "commands.error.shortcut_no_modifier",
            ),
            CommandError::NotOneSection => Wording::Text(
                "reorder ids must be a permutation of a single section",
            ),
            CommandError::NoDataPath => Wording::Text("data path not initialized"),
            CommandError::NoAttachmentsDir => Wording::Key("commands.error.no_attachments_dir"),
            CommandError::EmptyClipboard => Wording::Text("empty"),
            CommandError::RestoreFailed(s) => Wording::TextAnd(
                "restore failed: persist error: ",
                s.clone(),
            ),
            CommandError::PersistFailed(s) => Wording::TextAnd("persist failed: ", s.clone()),
            CommandError::NoPrimaryMonitor => Wording::Key("commands.error.no_primary_monitor"),
            CommandError::NoMonitor => Wording::Text("no monitor for floating window"),
            CommandError::NoFloatingWindow => Wording::Text("floating window missing"),
        }
    }
}

/// What the store's refusal is to a command's caller.
pub fn refusal(e: StoreError) -> (r: CommandError)
    ensures
        match e {
            StoreError::NotFound => r is NotFound,
            StoreError::NotOneSection => r is NotOneSection,
            StoreError::NoDataPath => r is NoDataPath,
        },
{
    match e {
        StoreError::NotFound => CommandError::NotFound,
        StoreError::NotOneSection => CommandError::NotOneSection,
        StoreError::NoDataPath => CommandError::NoDataPath,
    }
}

} // verus!
