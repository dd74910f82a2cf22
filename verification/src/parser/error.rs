use vstd::prelude::*;
use crate::file::trace::{Trace, TraceView};
use crate::lexer::keyword::Keyword;
use crate::lexer::token::{Operator, Token, TokenData, TokenDataView, TokenView};

verus! {

pub type ParserResult<T> = Result<T, ParserError>;

/// The ways in which a token sequence can fail to be a program. Each carries the place where
/// the failure was met.
#[derive(Debug, PartialEq)]
pub enum ParserError {
    UnexpectedToken(Token),
    ExpectedToken { expected: TokenData, received: Token },
    ExpectedIdentifier(Trace),
    ExpectedAnyOperator(Trace),
    ExpectedOperator(Operator, Trace),
    ExpectedAnyKeyword(Trace),
    ExpectedKeyword(Keyword, Trace),
    OpenParenthetical(Trace),
    NonUnaryOperator(Operator, Trace),
    ExpectedFunctionBody(Trace),
}

/// The mathematical value of a `ParserError`.
pub enum ParserErrorView {
    UnexpectedToken(TokenView),
    ExpectedToken { expected: TokenDataView, received: TokenView },
    ExpectedIdentifier(TraceView),
    ExpectedAnyOperator(TraceView),
    ExpectedOperator(Operator, TraceView),
    ExpectedAnyKeyword(TraceView),
    ExpectedKeyword(Keyword, TraceView),
    OpenParenthetical(TraceView),
    NonUnaryOperator(Operator, TraceView),
    ExpectedFunctionBody(TraceView),
}

impl ParserErrorView {
    /// The place where the failure was met.
    pub open spec fn trace(self) -> TraceView {
        match self {
            ParserErrorView::UnexpectedToken(token) => token.trace,
            ParserErrorView::ExpectedToken { received, .. } => received.trace,
            ParserErrorView::ExpectedIdentifier(trace) => trace,
            ParserErrorView::ExpectedAnyOperator(trace) => trace,
            ParserErrorView::ExpectedOperator(_, trace) => trace,
            ParserErrorView::ExpectedAnyKeyword(trace) => trace,
            ParserErrorView::ExpectedKeyword(_, trace) => trace,
            ParserErrorView::OpenParenthetical(trace) => trace,
            ParserErrorView::NonUnaryOperator(_, trace) => trace,
            ParserErrorView::ExpectedFunctionBody(trace) => trace,
        }
    }
}

impl View for ParserError {
    type V = ParserErrorView;

    open spec fn view(&self) -> ParserErrorView {
        match self {
            ParserError::UnexpectedToken(token) => ParserErrorView::UnexpectedToken(token@),
            ParserError::ExpectedToken { expected, received } => ParserErrorView::ExpectedToken {
                expected: expected@,
                received: received@,
            },
            ParserError::ExpectedIdentifier(trace) => ParserErrorView::ExpectedIdentifier(trace@),
            ParserError::ExpectedAnyOperator(trace) => ParserErrorView::ExpectedAnyOperator(
                trace@,
            ),
            ParserError::ExpectedOperator(op, trace) => ParserErrorView::ExpectedOperator(
                *op,
                trace@,
            ),
            ParserError::ExpectedAnyKeyword(trace) => ParserErrorView::ExpectedAnyKeyword(trace@),
            ParserError::ExpectedKeyword(word, trace) => ParserErrorView::ExpectedKeyword(
                *word,
                trace@,
            ),
            ParserError::OpenParenthetical(trace) => ParserErrorView::OpenParenthetical(trace@),
            ParserError::NonUnaryOperator(op, trace) => ParserErrorView::NonUnaryOperator(
                *op,
                trace@,
            ),
            ParserError::ExpectedFunctionBody(trace) => ParserErrorView::ExpectedFunctionBody(
                trace@,
            ),
        }
    }
}

impl Clone for ParserError {
    fn clone(&self) -> (r: Self)
        ensures
            r == *self,
    {
        match self {
            ParserError::UnexpectedToken(token) => ParserError::UnexpectedToken(token.clone()),
            ParserError::ExpectedToken { expected, received } => ParserError::ExpectedToken {
                expected: expected.clone(),
                received: received.clone(),
            },
            ParserError::ExpectedIdentifier(trace) => ParserError::ExpectedIdentifier(
                trace.clone(),
            ),
            ParserError::ExpectedAnyOperator(trace) => ParserError::ExpectedAnyOperator(
                trace.clone(),
            ),
            ParserError::ExpectedOperator(op, trace) => ParserError::ExpectedOperator(
                *op,
                trace.clone(),
            ),
            ParserError::ExpectedAnyKeyword(trace) => ParserError::ExpectedAnyKeyword(
                trace.clone(),
            ),
            ParserError::ExpectedKeyword(word, trace) => ParserError::ExpectedKeyword(
                *word,
                trace.clone(),
            ),
            ParserError::OpenParenthetical(trace) => ParserError::OpenParenthetical(trace.clone()),
            ParserError::NonUnaryOperator(op, trace) => ParserError::NonUnaryOperator(
                *op,
                trace.clone(),
            ),
            ParserError::ExpectedFunctionBody(trace) => ParserError::ExpectedFunctionBody(
                trace.clone(),
            ),
        }
    }
}

impl ParserError {
    /// The place where the failure was met.
    pub fn trace(&self) -> (r: &Trace)
        ensures
            r@ == self@.trace(),
    {
        match self {
            ParserError::UnexpectedToken(token) => &token.1,
            ParserError::ExpectedToken { received, .. } => &received.1,
            ParserError::ExpectedIdentifier(trace) => trace,
            ParserError::ExpectedAnyOperator(trace) => trace,
            ParserError::ExpectedOperator(_, trace) => trace,
            ParserError::ExpectedAnyKeyword(trace) => trace,
            ParserError::ExpectedKeyword(_, trace) => trace,
            ParserError::OpenParenthetical(trace) => trace,
            ParserError::NonUnaryOperator(_, trace) => trace,
            ParserError::ExpectedFunctionBody(trace) => trace,
        }
    }
}

} // verus!
