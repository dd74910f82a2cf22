use vstd::prelude::*;
use crate::lexer::keyword::Keyword;
use crate::lexer::token::Operator;
use crate::parser::ast::data::{TypeView, UnvalidatedType, UnvalidatedVariableInfo, VariableInfoView};
use crate::parser::ast::expression::{ExpressionView, UnvalidatedExpression};
use crate::parser::ast::function::{FunctionExpressionView, UnvalidatedFunctionExpression};
use crate::parser::ast::operations::UnaryOperator;
use crate::parser::cursor::{
    agrees, agrees_optional, closed_by, done, fail, parsed_identifier, parsed_type, Parsed,
    ParserView,
};
use crate::parser::error::{ParserError, ParserErrorView, ParserResult};
use crate::parser::modules::expression_parser::{
    lemma_expression_moves, parsed_expression, ExpressionParser,
};
use crate::parser::parser::Parser;

verus! {

/// The parser of statements.
pub struct StatementParser;

/// The logical negation of `condition`, with the span of `condition`: what `until` and
/// `unless` make of their condition.
pub open spec fn negated(condition: ExpressionView) -> ExpressionView {
    ExpressionView::Unary {
        expr: Box::new(condition),
        op: UnaryOperator::Not,
        trace: condition.trace(),
    }
}

/// The rule of a block: `{`, any number of statements, and `}`. Where no `{` is read next,
/// the rule does not apply.
pub open spec fn parsed_block(p: ParserView) -> Parsed<Option<ExpressionView>>
    decreases p.rest(), 4nat,
    when p.well_formed()
{
    if !p.has_operator(Operator::CurlyOpen) {
        done(0, None)
    } else {
        let body = parsed_statements(p.forward(1), Seq::empty());
        match body.value {
            Ok(statements) => closed_by(
                p.forward(1 + body.consumed),
                Operator::CurlyClose,
                1 + body.consumed,
                Some(
                    ExpressionView::Scope(
                        statements,
                        p.forward(2 + body.consumed).trace_over(p.position),
                    ),
                ),
            ),
            Err(e) => fail(1 + body.consumed, e),
        }
    }
}

/// The statements of a block that follow `list`, up to the closing `}` or the end of the
/// input, which are not taken.
pub open spec fn parsed_statements(p: ParserView, list: Seq<FunctionExpressionView>) -> Parsed<
    Seq<FunctionExpressionView>,
>
    decreases p.rest(), 3nat,
    when p.well_formed()
{
    if p.is_eof() || p.has_operator(Operator::CurlyClose) {
        done(0, list)
    } else {
        let first = parsed_statement(p);
        match first.value {
            Ok(statement) => {
                if first.consumed == 0 {
                    // A statement holds at least one token (`lemma_statement_moves`), so this
                    // is never the case.
                    done(0, list.push(statement))
                } else {
                    parsed_statements(p.forward(first.consumed), list.push(statement)).after(
                        first.consumed,
                    )
                }
            },
            Err(e) => fail(first.consumed, e),
        }
    }
}

/// The outcome of a rule that applied, or `otherwise` where it did not apply.
pub open spec fn or_else<T>(first: Parsed<Option<T>>, otherwise: Parsed<T>) -> Parsed<T> {
    match first.value {
        Ok(Some(value)) => done(first.consumed, value),
        Ok(None) => otherwise,
        Err(e) => fail(first.consumed, e),
    }
}

/// The rule of a statement: the first of `let`, `while` or `until`, `if` or `unless`, and
/// `return` that applies, and an expression where none of them does.
#[verifier::opaque]
pub open spec fn parsed_statement(p: ParserView) -> Parsed<FunctionExpressionView>
    decreases p.rest(), 2nat,
    when p.well_formed()
{
    or_else(
        parsed_let_statement(p),
        or_else(
            parsed_while(p),
            or_else(
                parsed_if(p),
                or_else(parsed_return_statement(p), parsed_expression_statement(p)),
            ),
        ),
    )
}

/// The rule of an expression that stands as a statement.
pub open spec fn parsed_expression_statement(p: ParserView) -> Parsed<FunctionExpressionView> {
    let expression = parsed_expression(p);
    match expression.value {
        Ok(e) => done(expression.consumed, FunctionExpressionView::Expression(e)),
        Err(e) => fail(expression.consumed, e),
    }
}

/// The rule of `return`: the word, and behind it `unit` for no value, or an expression.
#[verifier::opaque]
pub open spec fn parsed_return_statement(p: ParserView) -> Parsed<Option<FunctionExpressionView>> {
    if !p.has_keyword(Keyword::Return) {
        done(0, None)
    } else if p.forward(1).has_keyword(Keyword::Unit) {
        done(2, Some(FunctionExpressionView::Return(None)))
    } else {
        let value = parsed_expression(p.forward(1));
        match value.value {
            Ok(e) => done(1 + value.consumed, Some(FunctionExpressionView::Return(Some(e)))),
            Err(e) => fail(1 + value.consumed, e),
        }
    }
}

/// The rule of a loop: `while` or `until`, a condition and a block. `until` negates the
/// condition.
pub open spec fn parsed_while(p: ParserView) -> Parsed<Option<FunctionExpressionView>>
    decreases p.rest(), 1nat,
    when p.well_formed()
{
    if !(p.has_keyword(Keyword::While) || p.has_keyword(Keyword::Until)) {
        done(0, None)
    } else {
        let condition = parsed_expression(p.forward(1));
        match condition.value {
            Ok(test) => parsed_guarded(
                p.forward(1 + condition.consumed),
                p.position,
                if p.has_keyword(Keyword::Until) {
                    negated(test)
                } else {
                    test
                },
                true,
            ).after(1 + condition.consumed),
            Err(e) => fail(1 + condition.consumed, e),
        }
    }
}

/// The rule of a conditional: `if` or `unless`, a condition and a block. `unless` negates the
/// condition.
pub open spec fn parsed_if(p: ParserView) -> Parsed<Option<FunctionExpressionView>>
    decreases p.rest(), 1nat,
    when p.well_formed()
{
    if !(p.has_keyword(Keyword::If) || p.has_keyword(Keyword::Unless)) {
        done(0, None)
    } else {
        let condition = parsed_expression(p.forward(1));
        match condition.value {
            Ok(test) => parsed_guarded(
                p.forward(1 + condition.consumed),
                p.position,
                if p.has_keyword(Keyword::Unless) {
                    negated(test)
                } else {
                    test
                },
                false,
            ).after(1 + condition.consumed),
            Err(e) => fail(1 + condition.consumed, e),
        }
    }
}

/// The block of a loop (`looping`) or of a conditional that began at the token `start` and
/// has the condition `condition`. The block is owed: where none stands there, the rule fails
/// with the span from `start` to the token that is read next.
pub open spec fn parsed_guarded(
    p: ParserView,
    start: int,
    condition: ExpressionView,
    looping: bool,
) -> Parsed<Option<FunctionExpressionView>>
    decreases p.rest(), 5nat,
    when p.well_formed()
{
    let block = parsed_block(p);
    match block.value {
        Ok(Some(body)) => done(
            block.consumed,
            Some(
                if looping {
                    FunctionExpressionView::While {
                        condition,
                        then: Box::new(body),
                        trace: p.forward(block.consumed).trace_over(start),
                    }
                } else {
                    FunctionExpressionView::If {
                        condition,
                        then: Box::new(body),
                        trace: p.forward(block.consumed).trace_over(start),
                    }
                },
            ),
        ),
        Ok(None) => fail(
            0,
            ParserErrorView::ExpectedOperator(Operator::CurlyOpen, p.trace_from(start)),
        ),
        Err(e) => fail(block.consumed, e),
    }
}

/// The rule of a declaration: `let`, `mut` or not, a name, a type behind `:` or none, and an
/// initial value behind `=` or none.
#[verifier::opaque]
pub open spec fn parsed_let_statement(p: ParserView) -> Parsed<Option<FunctionExpressionView>> {
    if !p.has_keyword(Keyword::Let) {
        done(0, None)
    } else {
        let mutable = p.forward(1).has_keyword(Keyword::Mut);
        let named: nat = if mutable {
            2
        } else {
            1
        };
        match parsed_identifier(p.forward(named)).value {
            Ok(ident) => {
                let ty = parsed_annotation(p.forward(named + 1));
                match ty.value {
                    Ok(annotation) => {
                        let typed = named + 1 + ty.consumed;
                        let initial = parsed_initial(p.forward(typed));
                        match initial.value {
                            Ok(value) => done(
                                typed + initial.consumed,
                                Some(
                                    FunctionExpressionView::Let {
                                        variable: VariableInfoView {
                                            ident,
                                            ty: annotation,
                                            mutable,
                                        },
                                        initial: value,
                                        trace: p.forward(typed + initial.consumed).trace_over(
                                            p.position,
                                        ),
                                    },
                                ),
                            ),
                            Err(e) => fail(typed + initial.consumed, e),
                        }
                    },
                    Err(e) => fail(named + 1 + ty.consumed, e),
                }
            },
            Err(e) => fail(named, e),
        }
    }
}

/// The type of a declaration: the type behind `:`, or the implicit type where no `:` is read
/// next.
pub open spec fn parsed_annotation(p: ParserView) -> Parsed<TypeView> {
    if p.has_operator(Operator::Colon) {
        parsed_type(p.forward(1)).after(1)
    } else {
        done(0, TypeView::Implicit)
    }
}

/// The initial value of a declaration: the expression behind `=`, or none where no `=` is
/// read next.
pub open spec fn parsed_initial(p: ParserView) -> Parsed<Option<ExpressionView>> {
    if p.has_operator(Operator::Assign) {
        let value = parsed_expression(p.forward(1));
        match value.value {
            Ok(e) => done(1 + value.consumed, Some(e)),
            Err(e) => fail(1 + value.consumed, e),
        }
    } else {
        done(0, None)
    }
}

/// A statement holds at least one token.
pub proof fn lemma_statement_moves(p: ParserView)
    requires
        p.well_formed(),
    ensures
        parsed_statement(p).value is Ok ==> parsed_statement(p).consumed >= 1,
{
    reveal(parsed_statement);
    reveal(parsed_let_statement);
    reveal(parsed_return_statement);
    lemma_expression_moves(p);
}

fn negate(condition: UnvalidatedExpression) -> (r: UnvalidatedExpression)
    ensures
        r@ == negated(condition@),
{
    let trace = condition.trace();
    UnvalidatedExpression::Unary { trace, expr: Box::new(condition), op: UnaryOperator::Not }
}

impl StatementParser {
    /// Takes a statement.
    pub fn consume_function_expression(p: &mut Parser) -> (r: ParserResult<
        UnvalidatedFunctionExpression,
    >)
        ensures
            agrees(old(p)@, final(p)@, r, parsed_statement(old(p)@)),
        decreases old(p)@.rest(), 2nat,
    {
        proof {
            reveal(parsed_statement);
        }
        if let Some(statement) = Self::parse_let_statement(p)? {
            return Ok(statement);
        }
        if let Some(statement) = Self::parse_while(p)? {
            return Ok(statement);
        }
        if let Some(statement) = Self::parse_if(p)? {
            return Ok(statement);
        }
        if let Some(statement) = Self::parse_return_statement(p)? {
            return Ok(statement);
        }
        let expression = ExpressionParser::consume_expression(p)?;
        Ok(UnvalidatedFunctionExpression::Expression(expression))
    }

    /// Takes a `return` statement, where one is read next.
    pub fn parse_return_statement(p: &mut Parser) -> (r: ParserResult<
        Option<UnvalidatedFunctionExpression>,
    >)
        ensures
            agrees_optional(old(p)@, final(p)@, r, parsed_return_statement(old(p)@)),
            r matches Ok(None) ==> final(p)@ == old(p)@,
    {
        proof {
            reveal(parsed_return_statement);
        }
        if !p.has_keyword(Keyword::Return) {
            return Ok(None);
        }
        p.advance();
        let expr = if p.has_keyword(Keyword::Unit) {
            p.advance();
            None
        } else {
            Some(ExpressionParser::consume_expression(p)?)
        };
        Ok(Some(UnvalidatedFunctionExpression::Return(expr)))
    }

    /// Takes a `while` or `until` loop, where one is read next.
    pub fn parse_while(p: &mut Parser) -> (r: ParserResult<Option<UnvalidatedFunctionExpression>>)
        ensures
            agrees_optional(old(p)@, final(p)@, r, parsed_while(old(p)@)),
            r matches Ok(None) ==> final(p)@ == old(p)@,
        decreases old(p)@.rest(), 1nat,
    {
        let until = if p.has_keyword(Keyword::While) {
            false
        } else if p.has_keyword(Keyword::Until) {
            true
        } else {
            return Ok(None);
        };
        let start: usize = p.position();
        p.advance();
        let condition = ExpressionParser::consume_expression(p)?;
        let condition = if until {
            negate(condition)
        } else {
            condition
        };
        Self::consume_guarded(p, start, condition, true)
    }

    /// Takes an `if` or `unless` conditional, where one is read next.
    pub fn parse_if(p: &mut Parser) -> (r: ParserResult<Option<UnvalidatedFunctionExpression>>)
        ensures
            agrees_optional(old(p)@, final(p)@, r, parsed_if(old(p)@)),
            r matches Ok(None) ==> final(p)@ == old(p)@,
        decreases old(p)@.rest(), 1nat,
    {
        let unless = if p.has_keyword(Keyword::If) {
            false
        } else if p.has_keyword(Keyword::Unless) {
            true
        } else {
            return Ok(None);
        };
        let start: usize = p.position();
        p.advance();
        let condition = ExpressionParser::consume_expression(p)?;
        let condition = if unless {
            negate(condition)
        } else {
            condition
        };
        Self::consume_guarded(p, start, condition, false)
    }

    fn consume_guarded(
        p: &mut Parser,
        start: usize,
        condition: UnvalidatedExpression,
        looping: bool,
    ) -> (r: ParserResult<Option<UnvalidatedFunctionExpression>>)
        requires
            old(p)@.well_formed(),
        ensures
            agrees_optional(
                old(p)@,
                final(p)@,
                r,
                parsed_guarded(old(p)@, start as int, condition@, looping),
            ),
            !(r matches Ok(None)),
        decreases old(p)@.rest(), 5nat,
    {
        match ExpressionParser::parse_block(p)? {
            Some(body) => {
                let trace = p.trace_over(start);
                if looping {
                    Ok(
                        Some(
                            UnvalidatedFunctionExpression::While {
                                condition,
                                then: Box::new(body),
                                trace,
                            },
                        ),
                    )
                } else {
                    Ok(
                        Some(
                            UnvalidatedFunctionExpression::If {
                                condition,
                                then: Box::new(body),
                                trace,
                            },
                        ),
                    )
                }
            },
            None => Err(ParserError::ExpectedOperator(Operator::CurlyOpen, p.trace_from(start))),
        }
    }

    /// Takes a `let` declaration, where one is read next.
    pub fn parse_let_statement(p: &mut Parser) -> (r: ParserResult<
        Option<UnvalidatedFunctionExpression>,
    >)
        ensures
            agrees_optional(old(p)@, final(p)@, r, parsed_let_statement(old(p)@)),
            r matches Ok(None) ==> final(p)@ == old(p)@,
            old(p)@.well_formed(),
    {
        proof {
            reveal(parsed_let_statement);
        }
        if !p.has_keyword(Keyword::Let) {
            return Ok(None);
        }
        let start: usize = p.position();
        p.advance();
        let mutable = if p.has_keyword(Keyword::Mut) {
            p.advance();
            true
        } else {
            false
        };
        let ident = p.consume_identifier()?;
        let ty = Self::consume_annotation(p)?;
        let initial = Self::consume_initial(p)?;
        Ok(
            Some(
                UnvalidatedFunctionExpression::Let {
                    variable: UnvalidatedVariableInfo { ident, ty, mutable },
                    initial,
                    trace: p.trace_over(start),
                },
            ),
        )
    }

    fn consume_annotation(p: &mut Parser) -> (r: ParserResult<UnvalidatedType>)
        ensures
            agrees(old(p)@, final(p)@, r, parsed_annotation(old(p)@)),
    {
        if p.has_operator(Operator::Colon) {
            p.advance();
            p.consume_type()
        } else {
            Ok(UnvalidatedType::Implicit)
        }
    }

    fn consume_initial(p: &mut Parser) -> (r: ParserResult<Option<UnvalidatedExpression>>)
        ensures
            agrees_optional(old(p)@, final(p)@, r, parsed_initial(old(p)@)),
    {
        if p.has_operator(Operator::Assign) {
            p.advance();
            Ok(Some(ExpressionParser::consume_expression(p)?))
        } else {
            Ok(None)
        }
    }
}

} // verus!
