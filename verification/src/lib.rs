//! Layout documents of a Minecraft GUI editor: the document model, the
//! `.mcgf` text encoding, and the decisions of the open, save and load
//! workflows. Windows, dialogs and the contents of files are the caller's
//! business: the workflows are given what a dialog, a read or a JSON reader
//! brought and say what happens next.

mod bytes;
mod config;
pub mod dialog;
mod element;
mod entries;
pub mod format;
pub mod image;
pub mod laws;
mod lists;
pub mod load;
pub mod model;
pub mod notify;
mod numeral;
pub mod paths;
mod pieces;
mod quoted;
mod records;
pub mod save;
pub mod text;
pub mod writer;
