//! Syntax highlighting for a code editor: a category palette, grammars, the
//! mapping from highlight events to styled runs of text, and the stores that
//! hold the editor's open files.

pub mod cache;
pub mod color;
pub mod event;
pub mod file_list;
pub mod file_store;
pub mod grammar;
pub mod keyed;
pub mod palette;
pub mod paths;
pub mod slices;
pub mod style;
pub mod syntax_highlighter;
pub mod tokenizer;
