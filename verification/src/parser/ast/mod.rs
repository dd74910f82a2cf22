//! The syntax tree that the parser builds, before any name or type is resolved.

use std::ops::Range;
use vstd::prelude::*;
use crate::file::identifier::{Identifier, Namespace};

pub mod data;
pub mod expression;
pub mod function;
pub mod operations;
pub mod structs;
pub mod top_level;

verus! {

/// The views of a sequence of values, in order.
pub open spec fn views<T: View>(items: Seq<T>) -> Seq<T::V> {
    Seq::new(items.len(), |i: int| items[i]@)
}

/// A range of token positions.
#[derive(Debug, PartialEq, Hash)]
pub struct ParserTrace {
    pub token_range: Range<usize>,
}

/// A reference to a symbol as written: the module path in front of the name, outermost
/// module first, and the name.
#[derive(Debug, PartialEq, Hash)]
pub struct UnvalidatedSymbol {
    pub explicit_namespace: Namespace,
    pub identifier: Identifier,
}

/// The mathematical value of an `UnvalidatedSymbol`.
pub struct SymbolView {
    pub explicit_namespace: Seq<Seq<char>>,
    pub identifier: Seq<char>,
}

impl View for UnvalidatedSymbol {
    type V = SymbolView;

    open spec fn view(&self) -> SymbolView {
        SymbolView { explicit_namespace: self.explicit_namespace@, identifier: self.identifier@ }
    }
}

} // verus!
