//! The logic of a floating sticky-note list: the todo store and its ordering
//! rules, the commands that change it, and the state machines behind the
//! floating window, its preview and its tray menu.
pub mod attachment;
pub mod clipboard;
pub mod commands;
pub mod errors;
pub mod external;
pub mod hover;
pub mod image_head;
pub mod laws;
pub mod path;
pub mod persist;
pub mod platform;
pub mod preview;
pub mod quick_add;
pub mod sections;
pub mod seqs;
pub mod store;
pub mod text;
pub mod todo;
pub mod tray;
pub mod window;
