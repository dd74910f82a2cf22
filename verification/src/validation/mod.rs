//! What the later stages build on the syntax tree: the registry of modules, the types of
//! values, and the local variables of a function.

pub mod data_type;
pub mod error;
pub mod function_context;
pub mod module;
pub mod registry;
