use vstd::prelude::*;
use crate::file::trace::{Trace, TraceView};
use crate::parser::ast::data::{UnvalidatedVariableInfo, VariableInfoView};
use crate::parser::ast::expression::{ExpressionView, UnvalidatedExpression};
use crate::parser::ast::function::{
    FunctionExpressionView, FunctionPrototypeView, UnvalidatedFunctionExpression,
    UnvalidatedFunctionPrototype,
};
use crate::parser::ast::structs::{
    EnumVariantView, StructPrototypeView, UnvalidatedEnumVariant, UnvalidatedStructPrototype,
};
use crate::parser::ast::{views, SymbolView, UnvalidatedSymbol};

verus! {

/// An item at the top level of a source file.
#[derive(Debug, PartialEq)]
#[allow(inconsistent_fields)]
pub enum UnvalidatedTopLevel {
    FunctionDefinition {
        proto: UnvalidatedFunctionPrototype,
        body: UnvalidatedFunctionExpression,
        trace: Trace,
    },
    StructDefinition { proto: UnvalidatedStructPrototype, trace: Trace },
    EnumDefinition { variants: Vec<UnvalidatedEnumVariant>, trace: Trace },
    GlobalVariable { variable: UnvalidatedVariableInfo, initial: UnvalidatedExpression, trace: Trace },
    Import { namespace: UnvalidatedSymbol, star: bool, trace: Trace },
}

/// The mathematical value of an `UnvalidatedTopLevel`.
#[allow(inconsistent_fields)]
pub enum TopLevelView {
    FunctionDefinition { proto: FunctionPrototypeView, body: FunctionExpressionView, trace: TraceView },
    StructDefinition { proto: StructPrototypeView, trace: TraceView },
    EnumDefinition { variants: Seq<EnumVariantView>, trace: TraceView },
    GlobalVariable { variable: VariableInfoView, initial: ExpressionView, trace: TraceView },
    Import { namespace: SymbolView, star: bool, trace: TraceView },
}

impl View for UnvalidatedTopLevel {
    type V = TopLevelView;

    open spec fn view(&self) -> TopLevelView {
        match self {
            UnvalidatedTopLevel::FunctionDefinition { proto, body, trace } => TopLevelView::FunctionDefinition {
                proto: proto@,
                body: body@,
                trace: trace@,
            },
            UnvalidatedTopLevel::StructDefinition { proto, trace } => TopLevelView::StructDefinition {
                proto: proto@,
                trace: trace@,
            },
            UnvalidatedTopLevel::EnumDefinition { variants, trace } => TopLevelView::EnumDefinition {
                variants: views(variants@),
                trace: trace@,
            },
            UnvalidatedTopLevel::GlobalVariable { variable, initial, trace } => TopLevelView::GlobalVariable {
                variable: variable@,
                initial: initial@,
                trace: trace@,
            },
            UnvalidatedTopLevel::Import { namespace, star, trace } => TopLevelView::Import {
                namespace: namespace@,
                star: *star,
                trace: trace@,
            },
        }
    }
}

} // verus!
