use vstd::prelude::*;
use crate::file::identifier::Identifier;
use crate::file::trace::{Trace, TraceView};
use crate::ir::visibility::Visibility;
use crate::parser::ast::data::{TypeView, UnvalidatedType, UnvalidatedVariableInfo, VariableInfoView};
use crate::parser::ast::expression::{expression_view, ExpressionView, UnvalidatedExpression};
use crate::parser::ast::views;

verus! {

/// The head of a function definition.
#[derive(Debug, PartialEq, Hash)]
pub struct UnvalidatedFunctionPrototype {
    pub name: Identifier,
    pub arguments: Vec<UnvalidatedVariableInfo>,
    pub returns: UnvalidatedType,
    pub visibility: Visibility,
}

/// The mathematical value of an `UnvalidatedFunctionPrototype`.
pub struct FunctionPrototypeView {
    pub name: Seq<char>,
    pub arguments: Seq<VariableInfoView>,
    pub returns: TypeView,
    pub visibility: Visibility,
}

/// A statement: a piece of a function's body, which may or may not stand for a value.
#[derive(Debug, PartialEq)]
pub enum UnvalidatedFunctionExpression {
    If { condition: UnvalidatedExpression, then: Box<UnvalidatedExpression>, trace: Trace },
    While { condition: UnvalidatedExpression, then: Box<UnvalidatedExpression>, trace: Trace },
    Let { variable: UnvalidatedVariableInfo, initial: Option<UnvalidatedExpression>, trace: Trace },
    Return(Option<UnvalidatedExpression>),
    Expression(UnvalidatedExpression),
}

/// The mathematical value of an `UnvalidatedFunctionExpression`.
pub enum FunctionExpressionView {
    If { condition: ExpressionView, then: Box<ExpressionView>, trace: TraceView },
    While { condition: ExpressionView, then: Box<ExpressionView>, trace: TraceView },
    Let { variable: VariableInfoView, initial: Option<ExpressionView>, trace: TraceView },
    Return(Option<ExpressionView>),
    Expression(ExpressionView),
}

impl View for UnvalidatedFunctionPrototype {
    type V = FunctionPrototypeView;

    open spec fn view(&self) -> FunctionPrototypeView {
        FunctionPrototypeView {
            name: self.name@,
            arguments: views(self.arguments@),
            returns: self.returns@,
            visibility: self.visibility,
        }
    }
}

/// The mathematical value of a statement.
pub open spec fn function_expression_view(s: UnvalidatedFunctionExpression) -> FunctionExpressionView
    decreases s,
{
    match s {
        UnvalidatedFunctionExpression::If { condition, then, trace } => FunctionExpressionView::If {
            condition: expression_view(condition),
            then: Box::new(expression_view(*then)),
            trace: trace@,
        },
        UnvalidatedFunctionExpression::While { condition, then, trace } => FunctionExpressionView::While {
            condition: expression_view(condition),
            then: Box::new(expression_view(*then)),
            trace: trace@,
        },
        UnvalidatedFunctionExpression::Let { variable, initial, trace } => FunctionExpressionView::Let {
            variable: variable@,
            initial: match initial {
                Some(e) => Some(expression_view(e)),
                None => None,
            },
            trace: trace@,
        },
        UnvalidatedFunctionExpression::Return(value) => FunctionExpressionView::Return(
            match value {
                Some(e) => Some(expression_view(e)),
                None => None,
            },
        ),
        UnvalidatedFunctionExpression::Expression(e) => FunctionExpressionView::Expression(
            expression_view(e),
        ),
    }
}

impl View for UnvalidatedFunctionExpression {
    type V = FunctionExpressionView;

    open spec fn view(&self) -> FunctionExpressionView {
        function_expression_view(*self)
    }
}

} // verus!
