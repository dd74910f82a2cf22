use vstd::prelude::*;
use crate::file::identifier::GlobalIdentifier;
use crate::parser::ast::operations::{BinaryOperation, UnaryOperator};
use crate::validation::data_type::DataType;

verus! {

/// A statement of a function's body, once resolved.
#[derive(Debug)]
pub enum FunctionStatement {
    Scope(Vec<FunctionStatement>),
    Return(Option<Expression>),
    If { condition: Expression, then: Box<FunctionStatement>, otherwise: Option<Box<FunctionStatement>> },
    While { condition: Expression, then: Box<FunctionStatement> },
    Expression(Expression),
}

/// An expression, once resolved. A floating-point literal carries its decimal text, and a
/// local variable is named by the identifier that its declaration was given.
#[derive(Debug)]
#[allow(inconsistent_fields)]
pub enum Expression {
    F32Literal(String),
    F64Literal(String),
    I32Literal(i32),
    I64Literal(i64),
    StringLiteral(String),
    Binary { lhs: Box<Expression>, op: BinaryOperation, rhs: Box<Expression> },
    Unary { op: UnaryOperator, operand: Box<Expression> },
    Cast { expr: Box<Expression>, ty: DataType },
    LocalVariableReference(u128),
    GlobalVariableReference(GlobalIdentifier),
    FunctionCall(GlobalIdentifier),
    Parenthetical(Box<Expression>),
}

} // verus!
