//! Notions shared by the syntax tree and the later stages.

pub mod visibility;
