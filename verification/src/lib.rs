//! Core editing engine of a terminal text editor: a grapheme-cluster
//! addressed string type, a display-width index for cursor math over
//! wide characters, an incremental syntax highlighter that threads
//! block-comment state across lines, and the line/document/cursor
//! model built on top of them.

pub mod app;
pub mod args;
pub mod buffer;
pub mod document;
pub mod editor;
pub mod filetype;
pub mod grapheme;
pub mod highlighting;
pub mod position;
pub mod render;
pub mod row;
pub mod screen;
pub mod width;
