use vstd::prelude::*;
use crate::file::identifier::Identifier;
use crate::parser::ast::views;

verus! {

/// A type as written in the source.
#[derive(Debug, PartialEq, Hash)]
pub enum UnvalidatedType {
    Type(Identifier),
    Reference(Box<UnvalidatedType>),
    Array(Box<UnvalidatedType>),
    Template { base: Identifier, template_arguments: Vec<UnvalidatedType> },
    Implicit,
    Unit,
}

/// The mathematical value of an `UnvalidatedType`.
pub enum TypeView {
    Type(Seq<char>),
    Reference(Box<TypeView>),
    Array(Box<TypeView>),
    Template { base: Seq<char>, template_arguments: Seq<TypeView> },
    Implicit,
    Unit,
}

/// A variable as declared: its name, its type and whether it may be assigned to.
#[derive(Debug, PartialEq, Hash)]
pub struct UnparsedVariableInfo {
    pub ident: Identifier,
    pub ty: UnvalidatedType,
    pub mutable: bool,
}

pub type UnvalidatedVariableInfo = UnparsedVariableInfo;

/// The mathematical value of a variable declaration.
pub struct VariableInfoView {
    pub ident: Seq<char>,
    pub ty: TypeView,
    pub mutable: bool,
}

impl View for UnvalidatedType {
    type V = TypeView;

    open spec fn view(&self) -> TypeView
        decreases self,
    {
        match self {
            UnvalidatedType::Type(name) => TypeView::Type(name@),
            UnvalidatedType::Reference(inner) => TypeView::Reference(Box::new((**inner).view())),
            UnvalidatedType::Array(inner) => TypeView::Array(Box::new((**inner).view())),
            UnvalidatedType::Template { base, template_arguments } => TypeView::Template {
                base: base@,
                template_arguments: Seq::new(
                    template_arguments@.len(),
                    |i: int|
                        if 0 <= i < template_arguments@.len() {
                            template_arguments@[i].view()
                        } else {
                            TypeView::Unit
                        },
                ),
            },
            UnvalidatedType::Implicit => TypeView::Implicit,
            UnvalidatedType::Unit => TypeView::Unit,
        }
    }
}

/// The view of a template instantiation holds the views of its arguments.
pub proof fn lemma_template_view(base: Identifier, template_arguments: Vec<UnvalidatedType>)
    ensures
        (UnvalidatedType::Template { base, template_arguments })@ == (TypeView::Template {
            base: base@,
            template_arguments: views(template_arguments@),
        }),
{
    let t = UnvalidatedType::Template { base, template_arguments };
    assert(t@->Template_template_arguments =~= views(template_arguments@));
}

impl View for UnparsedVariableInfo {
    type V = VariableInfoView;

    open spec fn view(&self) -> VariableInfoView {
        VariableInfoView { ident: self.ident@, ty: self.ty@, mutable: self.mutable }
    }
}

} // verus!
