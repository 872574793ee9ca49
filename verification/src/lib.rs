//! The engine of a terminal browser for the entries of a password manager.
//!
//! The browser lists the summaries of the entries, moves a cursor over them,
//! sorts them, searches them, opens the full record of one entry and copies a
//! field to the clipboard. This crate holds its state and its rules, and
//! leaves the terminal, the files and the calls of the password manager to the
//! program around it:
//!
//! - `app`: the state, and what each key press does to it and asks for;
//! - `util`: cursor arithmetic, wrapping and clamping;
//! - `sort`: the stable sort of the list by a column;
//! - `search`: the positions of the entries that a pattern is found in;
//! - `text`: sequences of characters, their order, search and splitting;
//! - `op`: the records, and the session read from a token file;
//! - `ui`: the rows of the tables as plain values;
//! - `app_config`: the settings and where they live;
//! - `err`: errors.

pub mod app;
pub mod app_config;
pub mod err;
pub mod op;
pub mod search;
pub mod sort;
pub mod text;
pub mod ui;
pub mod util;
