//! Session core of a log search workbench.
//!
//! A session keeps a growing text file, the session file, and searches it
//! with a set of user filters. Each run of the search takes up the file
//! where the last run stopped, attributes every matching line to the
//! filters that it satisfies, and adds the line to the search result. The
//! session itself is a state machine: one task owns the state, takes one
//! command after the other and reads and writes the files; what a command
//! does to the state is decided here.
//!
//! - [`filter`]: the filters and the patterns that they stand for
//! - [`matcher`], [`buffer`], [`strings`]: the outside crates and the
//!   functions of `std` that the library rests on, each with the statement
//!   that is taken on trust
//! - [`search`], [`stats`], [`extract`]: the incremental search, its hit
//!   counts, and the extraction of values from matching lines
//! - [`map`]: the search map
//! - [`grabber`], [`grab_search`]: lines of the session file and of the
//!   search result
//! - [`state`], [`api`], [`events`]: the session state, its commands, and
//!   what it reports
//! - [`process`]: a process as a source of lines
//! - [`lines`], [`text`]: lines in bytes, numbers in text
//! - [`laws`]: what holds over any number of commands and runs

pub mod strings;
pub mod text;
pub mod lines;
pub mod filter;
pub mod events;
pub mod map;
pub mod grabber;
pub mod grab_search;
pub mod matcher;
pub mod buffer;
pub mod stats;
pub mod search;
pub mod extract;
pub mod api;
pub mod state;
pub mod process;
pub mod laws;
