use vstd::prelude::*;
use vstd::std_specs::cmp::PartialEqSpecImpl;
use crate::file::identifier::{GlobalIdentifier, GlobalIdentifierView};
use crate::validation::data_type::DataType;
use crate::validation::registry::variable::{VariableInfo, VariableInfoView};

verus! {

/// The head of a function, once resolved.
#[derive(Debug)]
pub struct FunctionPrototype {
    pub name: GlobalIdentifier,
    pub arguments: Vec<VariableInfo>,
    pub returns: Option<DataType>,
}

/// What tells two functions apart: the qualified name and the types of the arguments, in
/// order. Neither the names of the arguments nor the type of the result count.
pub struct FunctionSignature {
    pub name: GlobalIdentifierView,
    pub arguments: Seq<DataType>,
}

/// The mathematical value of a `FunctionPrototype`.
pub struct FunctionPrototypeView {
    pub name: GlobalIdentifierView,
    pub arguments: Seq<VariableInfoView>,
    pub returns: Option<DataType>,
}

impl FunctionPrototypeView {
    /// What tells this function apart from others.
    pub open spec fn signature(self) -> FunctionSignature {
        FunctionSignature {
            name: self.name,
            arguments: Seq::new(self.arguments.len(), |i: int| self.arguments[i].data_type),
        }
    }
}

impl View for FunctionPrototype {
    type V = FunctionPrototypeView;

    open spec fn view(&self) -> FunctionPrototypeView {
        FunctionPrototypeView {
            name: self.name@,
            arguments: Seq::new(self.arguments@.len(), |i: int| self.arguments@[i]@),
            returns: self.returns,
        }
    }
}

impl FunctionPrototype {
    /// What tells this function apart from others.
    pub open spec fn signature(&self) -> FunctionSignature {
        FunctionSignature {
            name: self.name@,
            arguments: Seq::new(self.arguments@.len(), |i: int| self.arguments@[i].data_type),
        }
    }
}

impl Clone for FunctionPrototype {
    fn clone(&self) -> (r: Self)
        ensures
            r@ == self@,
    {
        let mut arguments: Vec<VariableInfo> = Vec::new();
        let mut i: usize = 0;
        while i < self.arguments.len()
            invariant
                i <= self.arguments@.len(),
                arguments@.len() == i,
                forall|k: int| 0 <= k < i ==> arguments@[k]@ == self.arguments@[k]@,
            decreases self.arguments@.len() - i,
        {
            arguments.push(self.arguments[i].clone());
            i += 1;
        }
        let output = match &self.returns {
            Some(ty) => Some(ty.clone()),
            None => None,
        };
        let r = FunctionPrototype { name: self.name.clone(), arguments, returns: output };
        assert(r@.arguments =~= self@.arguments);
        r
    }
}

impl PartialEqSpecImpl for FunctionPrototype {
    open spec fn obeys_eq_spec() -> bool {
        true
    }

    open spec fn eq_spec(&self, other: &FunctionPrototype) -> bool {
        self.signature() == other.signature()
    }
}

/// Two functions are equal when they have the same qualified name and take arguments of the
/// same types.
impl PartialEq for FunctionPrototype {
    fn eq(&self, other: &FunctionPrototype) -> (r: bool) {
        if !self.name.same_as(&other.name) {
            return false;
        }
        if self.arguments.len() != other.arguments.len() {
            assert(self.signature().arguments.len() != other.signature().arguments.len());
            return false;
        }
        let mut i: usize = 0;
        while i < self.arguments.len()
            invariant
                i <= self.arguments@.len(),
                self.arguments@.len() == other.arguments@.len(),
                forall|k: int|
                    0 <= k < i ==> self.arguments@[k].data_type == other.arguments@[k].data_type,
            decreases self.arguments@.len() - i,
        {
            if !self.arguments[i].data_type.same_as(&other.arguments[i].data_type) {
                assert(self.signature().arguments[i as int] != other.signature().arguments[i as int]);
                return false;
            }
            i += 1;
        }
        assert(self.signature().arguments =~= other.signature().arguments);
        true
    }
}

impl Eq for FunctionPrototype {

}

} // verus!
