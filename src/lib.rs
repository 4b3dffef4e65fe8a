//! Core of an interactive fuzzy picker for workspace directories: the
//! subsequence matcher behind scoring and highlighting, the selector state
//! machine (query, cursor, scrolling, delete marks, selection) and the frame
//! model that a terminal front end paints.

pub mod text;
pub mod matching;
pub mod selector;
pub mod source;
pub mod frame;
pub mod shell;
pub mod date;
