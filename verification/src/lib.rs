//! What the user of a desktop is looking at: the active window, and, where
//! that is a browser's, the location of its active tab.
//!
//! The heart of the crate reads a browser's session log. `cursor` reads
//! integers and texts from bytes, `command` the commands of the log, `state`
//! holds what the commands make of windows, tabs and groups, `resolve` says
//! which location such a state shows, and `snss` puts them together:
//! `snss::decode` takes the bytes of a log and returns the location.
//! `encoding` says how a log is written and proves that reading undoes
//! writing.
//!
//! Around it stand the parts that find the log and the window: `browser`,
//! `types`, `xprop`, `afk`, and the helpers `text` and `number`. Nothing in
//! the crate reads a file or asks the system; the caller does that and hands
//! over what it found.

pub mod afk;
pub mod browser;
pub mod command;
pub mod cursor;
pub mod encoding;
pub mod number;
pub mod resolve;
pub mod snss;
pub mod state;
pub mod text;
pub mod types;
pub mod xprop;
