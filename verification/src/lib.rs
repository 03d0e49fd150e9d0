//! A terminal transcription editor core: a mode-driven input state machine,
//! a line-based document buffer with undo/redo, page navigation over numbered
//! text files, regex search, and a whitespace-run reflow transform.
//!
//! The editor itself performs no I/O: `controller::Editor::dispatch` turns
//! one key into state changes and, where the outside world is needed, into an
//! `IoRequest` that the surrounding program performs and answers.
pub mod controller;
pub mod document;
pub mod pages;
pub mod reflow;
pub mod region;
pub mod search;
pub mod text;
