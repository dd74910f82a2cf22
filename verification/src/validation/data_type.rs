use vstd::prelude::*;
use crate::lexer::text::same_text;

verus! {

/// The type of a value, once resolved.
#[derive(Debug, Hash, PartialEq, Eq)]
pub enum DataType {
    Pointer(Box<DataType>),
    Primitive(PrimitiveType),
    Structure(),
    Enumeration(),
}

/// The types that the language has built in.
#[derive(Debug, Hash, PartialEq, Eq, Structural, Clone, Copy)]
pub enum PrimitiveType {
    U32,
    U64,
    Usize,
    I32,
    I64,
    F32,
    F64,
    Char,
}

/// The built-in type that `name` spells, if it spells one.
pub open spec fn primitive_of(name: Seq<char>) -> Option<PrimitiveType> {
    if name == "u32"@ {
        Some(PrimitiveType::U32)
    } else if name == "u64"@ {
        Some(PrimitiveType::U64)
    } else if name == "usize"@ {
        Some(PrimitiveType::Usize)
    } else if name == "i32"@ {
        Some(PrimitiveType::I32)
    } else if name == "i64"@ {
        Some(PrimitiveType::I64)
    } else if name == "f32"@ {
        Some(PrimitiveType::F32)
    } else if name == "f64"@ {
        Some(PrimitiveType::F64)
    } else if name == "char"@ {
        Some(PrimitiveType::Char)
    } else {
        None
    }
}

impl Clone for DataType {
    fn clone(&self) -> (r: Self)
        ensures
            r == *self,
        decreases self,
    {
        match self {
            DataType::Pointer(inner) => DataType::Pointer(Box::new((**inner).clone())),
            DataType::Primitive(primitive) => DataType::Primitive(*primitive),
            DataType::Structure() => DataType::Structure(),
            DataType::Enumeration() => DataType::Enumeration(),
        }
    }
}

impl DataType {
    /// Whether two types are the same.
    pub fn same_as(&self, other: &DataType) -> (r: bool)
        ensures
            r == (*self == *other),
        decreases self,
    {
        match (self, other) {
            (DataType::Pointer(a), DataType::Pointer(b)) => a.same_as(b),
            (DataType::Primitive(a), DataType::Primitive(b)) => *a == *b,
            (DataType::Structure(), DataType::Structure()) => true,
            (DataType::Enumeration(), DataType::Enumeration()) => true,
            _ => false,
        }
    }
}

impl vstd::std_specs::convert::TryFromSpecImpl<&str> for PrimitiveType {
    open spec fn obeys_try_from_spec() -> bool {
        true
    }

    open spec fn try_from_spec(value: &str) -> Result<Self, ()> {
        match primitive_of(value@) {
            Some(ty) => Ok(ty),
            None => Err(()),
        }
    }
}

impl TryFrom<&str> for PrimitiveType {
    type Error = ();

    fn try_from(value: &str) -> (r: Result<Self, ()>) {
        if same_text(value, "u32") {
            Ok(PrimitiveType::U32)
        } else if same_text(value, "u64") {
            Ok(PrimitiveType::U64)
        } else if same_text(value, "usize") {
            Ok(PrimitiveType::Usize)
        } else if same_text(value, "i32") {
            Ok(PrimitiveType::I32)
        } else if same_text(value, "i64") {
            Ok(PrimitiveType::I64)
        } else if same_text(value, "f32") {
            Ok(PrimitiveType::F32)
        } else if same_text(value, "f64") {
            Ok(PrimitiveType::F64)
        } else if same_text(value, "char") {
            Ok(PrimitiveType::Char)
        } else {
            Err(())
        }
    }
}

} // verus!
