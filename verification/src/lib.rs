//! Document model for a minimal text editor: an in-memory buffer with its
//! persistence state (source path, modified flag), find-and-replace, and the
//! derived title and status lines shown by a presentation layer.

pub mod document;
pub mod text;
