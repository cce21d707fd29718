//! Gathers the files of a directory tree into one Markdown digest.
//!
//! This library holds the decisions: which walked entries enter the digest
//! (literal substring ignore patterns), when a file counts as binary, how its
//! text is normalized, what placeholder stands for unreadable content, and
//! the exact Markdown layout of each section. Walking the tree, reading files
//! and writing the digest are left to the caller, which hands plain values in.
pub mod content;
pub mod digest;
pub mod ignore;
pub mod text;

pub use content::{contains_null_byte, is_binary_content, normalize_content, record_content};
pub use digest::{file_record, render_digest, render_section, FileRecord};
pub use ignore::{
    contains_substring, default_ignore_patterns, ignore_patterns, is_ignored, parse_ignore_patterns,
    select_files, WalkEntry,
};
