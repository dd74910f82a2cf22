//! The grammar: expressions, statements and top-level items.

pub mod expression_parser;
pub mod statement_parser;
pub mod top_level;
