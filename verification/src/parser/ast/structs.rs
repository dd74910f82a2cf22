use vstd::prelude::*;
use crate::file::identifier::Identifier;
use crate::ir::visibility::Visibility;
use crate::parser::ast::data::{TypeView, UnvalidatedType};
use crate::parser::ast::views;

verus! {

/// The head of a struct definition: its name, its fields and whether it is public.
#[derive(Debug, PartialEq, Hash)]
pub struct UnvalidatedStructPrototype {
    pub identifier: Identifier,
    pub properties: Vec<UnvalidatedStructProperty>,
    pub visibility: Visibility,
}

/// A field of a struct, with its own visibility.
#[derive(Debug, PartialEq, Hash)]
pub struct UnvalidatedStructProperty {
    pub property: UnvalidatedProperty,
    pub visibility: Visibility,
}

/// A named, typed member.
#[derive(Debug, PartialEq, Hash)]
pub struct UnvalidatedProperty {
    pub name: Identifier,
    pub ty: UnvalidatedType,
}

/// A variant of an enum, with what it carries.
#[derive(Debug, PartialEq, Hash)]
pub struct UnvalidatedEnumVariant {
    pub name: Identifier,
    pub data: Option<UnvalidatedEnumData>,
}

/// What a variant carries: values by position, or named members.
#[derive(Debug, PartialEq, Hash)]
pub enum UnvalidatedEnumData {
    Positional(Vec<UnvalidatedType>),
    StructLike(Vec<UnvalidatedProperty>),
}

/// The mathematical value of an `UnvalidatedStructPrototype`.
pub struct StructPrototypeView {
    pub identifier: Seq<char>,
    pub properties: Seq<StructPropertyView>,
    pub visibility: Visibility,
}

/// The mathematical value of an `UnvalidatedStructProperty`.
pub struct StructPropertyView {
    pub property: PropertyView,
    pub visibility: Visibility,
}

/// The mathematical value of an `UnvalidatedProperty`.
pub struct PropertyView {
    pub name: Seq<char>,
    pub ty: TypeView,
}

/// The mathematical value of an `UnvalidatedEnumVariant`.
pub struct EnumVariantView {
    pub name: Seq<char>,
    pub data: Option<EnumDataView>,
}

/// The mathematical value of an `UnvalidatedEnumData`.
pub enum EnumDataView {
    Positional(Seq<TypeView>),
    StructLike(Seq<PropertyView>),
}

impl View for UnvalidatedProperty {
    type V = PropertyView;

    open spec fn view(&self) -> PropertyView {
        PropertyView { name: self.name@, ty: self.ty@ }
    }
}

impl View for UnvalidatedStructProperty {
    type V = StructPropertyView;

    open spec fn view(&self) -> StructPropertyView {
        StructPropertyView { property: self.property@, visibility: self.visibility }
    }
}

impl View for UnvalidatedStructPrototype {
    type V = StructPrototypeView;

    open spec fn view(&self) -> StructPrototypeView {
        StructPrototypeView {
            identifier: self.identifier@,
            properties: views(self.properties@),
            visibility: self.visibility,
        }
    }
}

impl View for UnvalidatedEnumData {
    type V = EnumDataView;

    open spec fn view(&self) -> EnumDataView {
        match self {
            UnvalidatedEnumData::Positional(types) => EnumDataView::Positional(views(types@)),
            UnvalidatedEnumData::StructLike(properties) => EnumDataView::StructLike(
                views(properties@),
            ),
        }
    }
}

impl View for UnvalidatedEnumVariant {
    type V = EnumVariantView;

    open spec fn view(&self) -> EnumVariantView {
        EnumVariantView {
            name: self.name@,
            data: match self.data {
                Some(data) => Some(data@),
                None => None,
            },
        }
    }
}

} // verus!
