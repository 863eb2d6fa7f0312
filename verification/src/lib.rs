//! The editing core of a terminal text editor: the text and the cursor in it,
//! the editing keys with undo and redo, the scan for words, and the rules that
//! remap keys. It does no input or output: what a key asks of the clipboard or
//! of the file system comes back to the caller as a value.

pub mod ansi_truncate;
pub mod buffer;
pub mod cursor;
pub mod history;
pub mod key;
pub mod keymap;
pub mod keys;
pub mod model;
pub mod render;
pub mod state;
pub mod text;
pub mod textbox;
pub mod word;
