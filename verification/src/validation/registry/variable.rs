use vstd::prelude::*;
use crate::file::identifier::Identifier;
use crate::validation::data_type::DataType;

verus! {

/// A variable, once resolved: its name, its type and whether it may be assigned to.
#[derive(Debug, Hash, Eq, PartialEq)]
pub struct VariableInfo {
    pub name: Identifier,
    pub data_type: DataType,
    pub mutable: bool,
}

/// The mathematical value of a `VariableInfo`.
pub struct VariableInfoView {
    pub name: Seq<char>,
    pub data_type: DataType,
    pub mutable: bool,
}

impl View for VariableInfo {
    type V = VariableInfoView;

    open spec fn view(&self) -> VariableInfoView {
        VariableInfoView { name: self.name@, data_type: self.data_type, mutable: self.mutable }
    }
}

impl Clone for VariableInfo {
    fn clone(&self) -> (r: Self)
        ensures
            r@ == self@,
    {
        VariableInfo {
            name: self.name.clone(),
            data_type: self.data_type.clone(),
            mutable: self.mutable,
        }
    }
}

} // verus!
