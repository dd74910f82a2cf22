//! Source buffers, the names found in them, and spans that point into them.

pub mod identifier;
pub mod source_file;
pub mod trace;
