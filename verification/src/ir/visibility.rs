use vstd::prelude::*;

verus! {

/// Whether a declaration can be named from outside the module that holds it.
#[derive(Debug, PartialEq, Eq, Structural, Clone, Copy, Hash)]
pub enum Visibility {
    Public,
    Private,
}

} // verus!
