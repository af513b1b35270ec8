//! The decisions behind a terminal browser for the `cliphist` clipboard history.
//!
//! Everything here computes plain values from plain values: which row stands for a
//! clipboard entry, what is shown, copied or opened for its content, and which external
//! program is run with which arguments. Processes, files and the terminal are left to the
//! program around this library.
pub mod content;
pub mod copy;
pub mod display;
pub mod label;
pub mod list;
pub mod media;
pub mod open;
pub mod outside;
pub mod preview;
pub mod program;
pub mod session;
pub mod text;
pub mod url;
