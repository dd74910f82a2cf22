use vstd::prelude::*;
use crate::file::identifier::Identifier;
use crate::file::trace::{Trace, TraceView};
use crate::parser::ast::data::{TypeView, UnvalidatedType};
use crate::parser::ast::function::{
    function_expression_view, FunctionExpressionView, UnvalidatedFunctionExpression,
};
use crate::parser::ast::operations::{BinaryOperation, UnaryOperator};
use crate::parser::ast::{views, SymbolView, UnvalidatedSymbol};

verus! {

/// An expression: a piece of the tree that stands for a value. A floating-point literal
/// carries its decimal text, as its token does.
#[derive(Debug, PartialEq)]
#[allow(inconsistent_fields)]
pub enum UnvalidatedExpression {
    IfElse {
        condition: Box<UnvalidatedExpression>,
        then: Box<UnvalidatedFunctionExpression>,
        otherwise: Box<UnvalidatedFunctionExpression>,
        trace: Trace,
    },
    Scope(Vec<UnvalidatedFunctionExpression>, Trace),
    BoolLiteral(bool, Trace),
    F32Literal(String, Trace),
    F64Literal(String, Trace),
    I32Literal(i32, Trace),
    I64Literal(i64, Trace),
    StringLiteral(String, Trace),
    Parenthetical(Box<UnvalidatedExpression>, Trace),
    Binary {
        lhs: Box<UnvalidatedExpression>,
        op: BinaryOperation,
        rhs: Box<UnvalidatedExpression>,
        trace: Trace,
    },
    Unary { expr: Box<UnvalidatedExpression>, op: UnaryOperator, trace: Trace },
    Cast { expr: Box<UnvalidatedExpression>, ty: UnvalidatedType, trace: Trace },
    FunctionCall { symbol: UnvalidatedSymbol, arguments: Vec<UnvalidatedExpression>, trace: Trace },
    VariableReference { symbol: UnvalidatedSymbol, trace: Trace },
    ObjectProperty { object: Box<UnvalidatedExpression>, identifier: Identifier, trace: Trace },
}

/// The mathematical value of an `UnvalidatedExpression`.
#[allow(inconsistent_fields)]
pub enum ExpressionView {
    IfElse {
        condition: Box<ExpressionView>,
        then: Box<FunctionExpressionView>,
        otherwise: Box<FunctionExpressionView>,
        trace: TraceView,
    },
    Scope(Seq<FunctionExpressionView>, TraceView),
    BoolLiteral(bool, TraceView),
    F32Literal(Seq<char>, TraceView),
    F64Literal(Seq<char>, TraceView),
    I32Literal(int, TraceView),
    I64Literal(int, TraceView),
    StringLiteral(Seq<char>, TraceView),
    Parenthetical(Box<ExpressionView>, TraceView),
    Binary { lhs: Box<ExpressionView>, op: BinaryOperation, rhs: Box<ExpressionView>, trace: TraceView },
    Unary { expr: Box<ExpressionView>, op: UnaryOperator, trace: TraceView },
    Cast { expr: Box<ExpressionView>, ty: TypeView, trace: TraceView },
    FunctionCall { symbol: SymbolView, arguments: Seq<ExpressionView>, trace: TraceView },
    VariableReference { symbol: SymbolView, trace: TraceView },
    ObjectProperty { object: Box<ExpressionView>, identifier: Seq<char>, trace: TraceView },
}

impl ExpressionView {
    /// The span of the expression.
    pub open spec fn trace(self) -> TraceView {
        match self {
            ExpressionView::IfElse { trace, .. } => trace,
            ExpressionView::Scope(_, trace) => trace,
            ExpressionView::BoolLiteral(_, trace) => trace,
            ExpressionView::F32Literal(_, trace) => trace,
            ExpressionView::F64Literal(_, trace) => trace,
            ExpressionView::I32Literal(_, trace) => trace,
            ExpressionView::I64Literal(_, trace) => trace,
            ExpressionView::StringLiteral(_, trace) => trace,
            ExpressionView::Parenthetical(_, trace) => trace,
            ExpressionView::Binary { trace, .. } => trace,
            ExpressionView::Unary { trace, .. } => trace,
            ExpressionView::Cast { trace, .. } => trace,
            ExpressionView::FunctionCall { trace, .. } => trace,
            ExpressionView::VariableReference { trace, .. } => trace,
            ExpressionView::ObjectProperty { trace, .. } => trace,
        }
    }
}

/// The mathematical value of an expression.
pub open spec fn expression_view(e: UnvalidatedExpression) -> ExpressionView
    decreases e,
{
    match e {
        UnvalidatedExpression::IfElse { condition, then, otherwise, trace } => ExpressionView::IfElse {
            condition: Box::new(expression_view(*condition)),
            then: Box::new(function_expression_view(*then)),
            otherwise: Box::new(function_expression_view(*otherwise)),
            trace: trace@,
        },
        UnvalidatedExpression::Scope(body, trace) => ExpressionView::Scope(
            Seq::new(
                body@.len(),
                |i: int|
                    if 0 <= i < body@.len() {
                        function_expression_view(body@[i])
                    } else {
                        FunctionExpressionView::Return(None)
                    },
            ),
            trace@,
        ),
        UnvalidatedExpression::BoolLiteral(value, trace) => ExpressionView::BoolLiteral(
            value,
            trace@,
        ),
        UnvalidatedExpression::F32Literal(text, trace) => ExpressionView::F32Literal(
            text@,
            trace@,
        ),
        UnvalidatedExpression::F64Literal(text, trace) => ExpressionView::F64Literal(
            text@,
            trace@,
        ),
        UnvalidatedExpression::I32Literal(value, trace) => ExpressionView::I32Literal(
            value as int,
            trace@,
        ),
        UnvalidatedExpression::I64Literal(value, trace) => ExpressionView::I64Literal(
            value as int,
            trace@,
        ),
        UnvalidatedExpression::StringLiteral(text, trace) => ExpressionView::StringLiteral(
            text@,
            trace@,
        ),
        UnvalidatedExpression::Parenthetical(inner, trace) => ExpressionView::Parenthetical(
            Box::new(expression_view(*inner)),
            trace@,
        ),
        UnvalidatedExpression::Binary { lhs, op, rhs, trace } => ExpressionView::Binary {
            lhs: Box::new(expression_view(*lhs)),
            op: op,
            rhs: Box::new(expression_view(*rhs)),
            trace: trace@,
        },
        UnvalidatedExpression::Unary { expr, op, trace } => ExpressionView::Unary {
            expr: Box::new(expression_view(*expr)),
            op: op,
            trace: trace@,
        },
        UnvalidatedExpression::Cast { expr, ty, trace } => ExpressionView::Cast {
            expr: Box::new(expression_view(*expr)),
            ty: ty@,
            trace: trace@,
        },
        UnvalidatedExpression::FunctionCall { symbol, arguments, trace } => ExpressionView::FunctionCall {
            symbol: symbol@,
            arguments: Seq::new(
                arguments@.len(),
                |i: int|
                    if 0 <= i < arguments@.len() {
                        expression_view(arguments@[i])
                    } else {
                        ExpressionView::BoolLiteral(false, trace@)
                    },
            ),
            trace: trace@,
        },
        UnvalidatedExpression::VariableReference { symbol, trace } => ExpressionView::VariableReference {
            symbol: symbol@,
            trace: trace@,
        },
        UnvalidatedExpression::ObjectProperty { object, identifier, trace } => ExpressionView::ObjectProperty {
            object: Box::new(expression_view(*object)),
            identifier: identifier@,
            trace: trace@,
        },
    }
}

impl View for UnvalidatedExpression {
    type V = ExpressionView;

    open spec fn view(&self) -> ExpressionView {
        expression_view(*self)
    }
}

/// The view of a block holds the views of its statements.
pub proof fn lemma_scope_view(body: Vec<UnvalidatedFunctionExpression>, trace: Trace)
    ensures
        UnvalidatedExpression::Scope(body, trace)@ == ExpressionView::Scope(views(body@), trace@),
{
    let e = UnvalidatedExpression::Scope(body, trace);
    assert(e@ is Scope);
    assert(e@->Scope_0.len() == body@.len());
    assert forall|i: int| 0 <= i < body@.len() implies e@->Scope_0[i] == views(body@)[i] by {
        assert(e@->Scope_0[i] == function_expression_view(body@[i]));
    }
    assert(e@->Scope_0 =~= views(body@));
}

/// The view of a call holds the views of its arguments.
pub proof fn lemma_call_view(
    symbol: UnvalidatedSymbol,
    arguments: Vec<UnvalidatedExpression>,
    trace: Trace,
)
    ensures
        (UnvalidatedExpression::FunctionCall { symbol, arguments, trace })@
            == (ExpressionView::FunctionCall {
            symbol: symbol@,
            arguments: views(arguments@),
            trace: trace@,
        }),
{
    let e = UnvalidatedExpression::FunctionCall { symbol, arguments, trace };
    assert(e@ is FunctionCall);
    assert(e@->FunctionCall_arguments.len() == arguments@.len());
    assert forall|i: int| 0 <= i < arguments@.len() implies e@->FunctionCall_arguments[i] == views(
        arguments@,
    )[i] by {
        assert(e@->FunctionCall_arguments[i] == expression_view(arguments@[i]));
    }
    assert(e@->FunctionCall_arguments =~= views(arguments@));
}

impl UnvalidatedExpression {
    /// The span of the expression.
    pub fn trace(&self) -> (r: Trace)
        ensures
            r@ == self@.trace(),
    {
        match self {
            UnvalidatedExpression::IfElse { trace, .. } => trace.clone(),
            UnvalidatedExpression::Scope(_, trace) => trace.clone(),
            UnvalidatedExpression::BoolLiteral(_, trace) => trace.clone(),
            UnvalidatedExpression::F32Literal(_, trace) => trace.clone(),
            UnvalidatedExpression::F64Literal(_, trace) => trace.clone(),
            UnvalidatedExpression::I32Literal(_, trace) => trace.clone(),
            UnvalidatedExpression::I64Literal(_, trace) => trace.clone(),
            UnvalidatedExpression::StringLiteral(_, trace) => trace.clone(),
            UnvalidatedExpression::Parenthetical(_, trace) => trace.clone(),
            UnvalidatedExpression::Binary { trace, .. } => trace.clone(),
            UnvalidatedExpression::Unary { trace, .. } => trace.clone(),
            UnvalidatedExpression::Cast { trace, .. } => trace.clone(),
            UnvalidatedExpression::FunctionCall { trace, .. } => trace.clone(),
            UnvalidatedExpression::VariableReference { trace, .. } => trace.clone(),
            UnvalidatedExpression::ObjectProperty { trace, .. } => trace.clone(),
        }
    }
}

impl vstd::std_specs::convert::FromSpecImpl<UnvalidatedExpression> for UnvalidatedFunctionExpression {
    open spec fn obeys_from_spec() -> bool {
        true
    }

    open spec fn from_spec(v: UnvalidatedExpression) -> Self {
        UnvalidatedFunctionExpression::Expression(v)
    }
}

impl From<UnvalidatedExpression> for UnvalidatedFunctionExpression {
    fn from(v: UnvalidatedExpression) -> (r: Self) {
        UnvalidatedFunctionExpression::Expression(v)
    }
}

} // verus!
