//! Directory listing for a small interactive shell: argument parsing,
//! permission and size decoding, name decoration, ordering, and the layout
//! of short and long listings; with the shell's own line splitting, command
//! lookup and the argument decisions of its file builtins.
//!
//! Reading the file system, the user database and the terminal is left to the
//! caller, which hands the results over as plain values (`meta::EntryMeta`,
//! `flags::PathKind`, a terminal width) and prints the text it gets back.

pub mod text;
pub mod error;
pub mod flags;
pub mod color;
pub mod layout;
pub mod meta;
pub mod perm;
pub mod names;
pub mod time;
pub mod entry;
pub mod order;
pub mod processor;
pub mod output;
pub mod parser;
pub mod shell;
pub mod builtins;
