//! The core of a two-pane terminal file browser: the listing of one
//! directory, the selection that moves through it, and the text shown for
//! the selected entry.
//!
//! The library decides and never touches the terminal or the disk. Its
//! caller reads the directory, the files and the keys, hands over what it
//! found as plain values, and draws what the library tells it to.
//!
//! - [`app`]: the state and the moves through the listing.
//! - [`content`]: what the content panel shows for what was found on disk.
//! - [`keymap`]: the key bindings, and when the loop ends.
//! - [`layout`]: the split of a frame into the two panels.
//! - [`listing`] and [`path`]: the order of the entries and their names.
//! - [`style`]: how the rows of the file list are told apart.
//! - [`laws`] and [`byte_order`]: what holds of all of these.

pub mod app;
pub mod byte_order;
pub mod content;
pub mod keymap;
pub mod laws;
pub mod layout;
pub mod listing;
pub mod path;
pub mod style;
