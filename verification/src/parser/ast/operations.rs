use vstd::prelude::*;
use crate::lexer::token::Operator;

verus! {

/// The operations that take two operands.
#[derive(Debug, PartialEq, Eq, Structural, Clone, Copy, Hash)]
pub enum BinaryOperation {
    Mod,
    Xor,
    BitAnd,
    Multiply,
    Minus,
    Plus,
    Divide,
    BitOr,
    Assign,
    Less,
    Greater,
    Colon,
    And,
    Or,
    BitShiftLeft,
    BitShiftRight,
    ModAssigns,
    XorAssign,
    BitAndAssign,
    MultiplyAssign,
    MinusAssign,
    PlusAssign,
    DivideAssign,
    BitShiftLeftAssign,
    BitShiftRightAssign,
    AndAssign,
    OrAssign,
    Equals,
    LesserOrEquals,
    GreaterOrEquals,
    NotEqual,
}

/// The operations that take one operand.
#[derive(Debug, PartialEq, Eq, Structural, Clone, Copy, Hash)]
pub enum UnaryOperator {
    Ref,
    Deref,
    Negate,
    Not,
    BitNot,
}

/// The operation on one operand that `op` stands for in front of an expression.
pub open spec fn unary_of(op: Operator) -> Option<UnaryOperator> {
    match op {
        Operator::Minus => Some(UnaryOperator::Negate),
        Operator::Not => Some(UnaryOperator::Not),
        Operator::BitNot => Some(UnaryOperator::BitNot),
        _ => None,
    }
}

/// The operation on two operands that `op` stands for between two expressions.
pub open spec fn binary_of(op: Operator) -> Option<BinaryOperation> {
    match op {
        Operator::Mod => Some(BinaryOperation::Mod),
        Operator::Xor => Some(BinaryOperation::Xor),
        Operator::BitAnd => Some(BinaryOperation::BitAnd),
        Operator::Multiply => Some(BinaryOperation::Multiply),
        Operator::Minus => Some(BinaryOperation::Minus),
        Operator::Plus => Some(BinaryOperation::Plus),
        Operator::Divide => Some(BinaryOperation::Divide),
        Operator::BitOr => Some(BinaryOperation::BitOr),
        Operator::Assign => Some(BinaryOperation::Assign),
        Operator::Less => Some(BinaryOperation::Less),
        Operator::Greater => Some(BinaryOperation::Greater),
        Operator::Colon => Some(BinaryOperation::Colon),
        Operator::And => Some(BinaryOperation::And),
        Operator::Or => Some(BinaryOperation::Or),
        Operator::BitShiftLeft => Some(BinaryOperation::BitShiftLeft),
        Operator::BitShiftRight => Some(BinaryOperation::BitShiftRight),
        Operator::ModAssigns => Some(BinaryOperation::ModAssigns),
        Operator::XorAssign => Some(BinaryOperation::XorAssign),
        Operator::BitAndAssign => Some(BinaryOperation::BitAndAssign),
        Operator::MultiplyAssign => Some(BinaryOperation::MultiplyAssign),
        Operator::MinusAssign => Some(BinaryOperation::MinusAssign),
        Operator::PlusAssign => Some(BinaryOperation::PlusAssign),
        Operator::DivideAssign => Some(BinaryOperation::DivideAssign),
        Operator::BitShiftLeftAssign => Some(BinaryOperation::BitShiftLeftAssign),
        Operator::BitShiftRightAssign => Some(BinaryOperation::BitShiftRightAssign),
        Operator::AndAssign => Some(BinaryOperation::AndAssign),
        Operator::OrAssign => Some(BinaryOperation::OrAssign),
        Operator::Equals => Some(BinaryOperation::Equals),
        Operator::LessEquals => Some(BinaryOperation::LesserOrEquals),
        Operator::GreaterEquals => Some(BinaryOperation::GreaterOrEquals),
        Operator::NotEquals => Some(BinaryOperation::NotEqual),
        _ => None,
    }
}

impl vstd::std_specs::convert::TryFromSpecImpl<Operator> for UnaryOperator {
    open spec fn obeys_try_from_spec() -> bool {
        true
    }

    open spec fn try_from_spec(value: Operator) -> Result<Self, ()> {
        match unary_of(value) {
            Some(op) => Ok(op),
            None => Err(()),
        }
    }
}

impl TryFrom<Operator> for UnaryOperator {
    type Error = ();

    fn try_from(value: Operator) -> (r: Result<Self, ()>) {
        match value {
            Operator::Minus => Ok(UnaryOperator::Negate),
            Operator::Not => Ok(UnaryOperator::Not),
            Operator::BitNot => Ok(UnaryOperator::BitNot),
            _ => Err(()),
        }
    }
}

impl vstd::std_specs::convert::TryFromSpecImpl<Operator> for BinaryOperation {
    open spec fn obeys_try_from_spec() -> bool {
        true
    }

    open spec fn try_from_spec(value: Operator) -> Result<Self, ()> {
        match binary_of(value) {
            Some(op) => Ok(op),
            None => Err(()),
        }
    }
}

impl TryFrom<Operator> for BinaryOperation {
    type Error = ();

    fn try_from(value: Operator) -> (r: Result<Self, ()>) {
        match value {
            Operator::Mod => Ok(BinaryOperation::Mod),
            Operator::Xor => Ok(BinaryOperation::Xor),
            Operator::BitAnd => Ok(BinaryOperation::BitAnd),
            Operator::Multiply => Ok(BinaryOperation::Multiply),
            Operator::Minus => Ok(BinaryOperation::Minus),
            Operator::Plus => Ok(BinaryOperation::Plus),
            Operator::Divide => Ok(BinaryOperation::Divide),
            Operator::BitOr => Ok(BinaryOperation::BitOr),
            Operator::Assign => Ok(BinaryOperation::Assign),
            Operator::Less => Ok(BinaryOperation::Less),
            Operator::Greater => Ok(BinaryOperation::Greater),
            Operator::Colon => Ok(BinaryOperation::Colon),
            Operator::And => Ok(BinaryOperation::And),
            Operator::Or => Ok(BinaryOperation::Or),
            Operator::BitShiftLeft => Ok(BinaryOperation::BitShiftLeft),
            Operator::BitShiftRight => Ok(BinaryOperation::BitShiftRight),
            Operator::ModAssigns => Ok(BinaryOperation::ModAssigns),
            Operator::XorAssign => Ok(BinaryOperation::XorAssign),
            Operator::BitAndAssign => Ok(BinaryOperation::BitAndAssign),
            Operator::MultiplyAssign => Ok(BinaryOperation::MultiplyAssign),
            Operator::MinusAssign => Ok(BinaryOperation::MinusAssign),
            Operator::PlusAssign => Ok(BinaryOperation::PlusAssign),
            Operator::DivideAssign => Ok(BinaryOperation::DivideAssign),
            Operator::BitShiftLeftAssign => Ok(BinaryOperation::BitShiftLeftAssign),
            Operator::BitShiftRightAssign => Ok(BinaryOperation::BitShiftRightAssign),
            Operator::AndAssign => Ok(BinaryOperation::AndAssign),
            Operator::OrAssign => Ok(BinaryOperation::OrAssign),
            Operator::Equals => Ok(BinaryOperation::Equals),
            Operator::LessEquals => Ok(BinaryOperation::LesserOrEquals),
            Operator::GreaterEquals => Ok(BinaryOperation::GreaterOrEquals),
            Operator::NotEquals => Ok(BinaryOperation::NotEqual),
            _ => Err(()),
        }
    }
}

} // verus!
