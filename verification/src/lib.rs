//! Logic of a transparent-compression front end: wide-string handling,
//! path building, wildcard matching, batch-queue state and the small
//! decision tables behind its windows.

pub mod wide;
pub mod matcher;
pub mod text;
pub mod wof;
pub mod state;
pub mod logger;
pub mod batch;
pub mod order;
pub mod filter;
pub mod messages;
pub mod handlers;
pub mod window;
pub mod path_buffer;
pub mod updater;
pub mod watcher;
pub mod theme;
pub mod builder;
pub mod components;
pub mod wrappers;
pub mod input;
pub mod layout;
pub mod settings;
pub mod editing;
pub mod console;
pub mod ipc;
pub mod summary;
pub mod startup;
pub mod about;
