//! Terminal emulation core: the screen state engine, scrollback history,
//! escape-sequence tokenizer and dispatcher, and the bookkeeping around
//! pseudo-terminal sessions, processes and their environment.

pub mod terminal;
pub mod screen;
pub mod history;
pub mod grid;
pub mod tabs;
pub mod event;
pub mod ansi;
pub mod tokenizer;
pub mod unicode;
pub mod text;
pub mod environment;
pub mod signals;
pub mod pty;
pub mod fanout;
pub mod laws;
