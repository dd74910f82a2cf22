use vstd::prelude::*;
use crate::lexer::keyword::Keyword;
use crate::lexer::token::{Operator, TokenData, TokenDataView};
use crate::parser::ast::expression::{
    lemma_call_view, lemma_scope_view, ExpressionView, UnvalidatedExpression,
};
use crate::parser::ast::function::{FunctionExpressionView, UnvalidatedFunctionExpression};
use crate::parser::cursor::agrees_optional;
use crate::parser::modules::statement_parser::{
    lemma_statement_moves, parsed_block, parsed_statement, parsed_statements, StatementParser,
};
use crate::parser::ast::operations::{binary_of, unary_of, BinaryOperation, UnaryOperator};
use crate::parser::ast::{views, SymbolView, UnvalidatedSymbol};
use crate::parser::cursor::{
    agrees, agrees_list, closed_by, done, fail, parsed_symbol, parsed_type, Parsed, ParserView,
};
use crate::parser::error::{ParserError, ParserErrorView, ParserResult};
use crate::parser::parser::Parser;

verus! {

/// The parser of expressions, by precedence climbing.
pub struct ExpressionParser;

/// The number of the loosest tier of binary operators, that of the assignments.
pub const LOOSEST_TIER: usize = 11;

/// Whether `op` is a binary operator of the tier `tier`. The tiers run from the tightest,
/// tier 1, to the loosest, tier 11. Tier 0 is that of the operands and holds no operator.
pub open spec fn in_tier(tier: nat, op: Operator) -> bool {
    if tier == 1 {
        op == Operator::Multiply || op == Operator::Divide || op == Operator::Mod
    } else if tier == 2 {
        op == Operator::Plus || op == Operator::Minus
    } else if tier == 3 {
        op == Operator::BitShiftLeft || op == Operator::BitShiftRight
    } else if tier == 4 {
        op == Operator::Less || op == Operator::Greater || op == Operator::LessEquals || op
            == Operator::GreaterEquals
    } else if tier == 5 {
        op == Operator::Equals || op == Operator::NotEquals
    } else if tier == 6 {
        op == Operator::BitAnd
    } else if tier == 7 {
        op == Operator::Xor
    } else if tier == 8 {
        op == Operator::BitOr
    } else if tier == 9 {
        op == Operator::And
    } else if tier == 10 {
        op == Operator::Or
    } else if tier == 11 {
        op == Operator::ModAssigns || op == Operator::XorAssign || op == Operator::BitAndAssign
            || op == Operator::MultiplyAssign || op == Operator::MinusAssign || op
            == Operator::PlusAssign || op == Operator::DivideAssign || op
            == Operator::BitShiftLeftAssign || op == Operator::BitShiftRightAssign || op
            == Operator::AndAssign || op == Operator::OrAssign || op == Operator::Assign
    } else {
        false
    }
}

/// The operator of tier `tier` that is read next, if one is.
pub open spec fn tier_operator(p: ParserView, tier: nat) -> Option<Operator> {
    match p.current().data {
        TokenDataView::Operator(op) => if in_tier(tier, op) {
            Some(op)
        } else {
            None
        },
        _ => None,
    }
}

/// The operator that starts a unary expression and is read next, if one is.
pub open spec fn prefix_operator(p: ParserView) -> Option<Operator> {
    match p.current().data {
        TokenDataView::Operator(op) => if unary_of(op) is Some {
            Some(op)
        } else {
            None
        },
        _ => None,
    }
}

/// The literal that the token `data` stands for, with the span `trace`.
pub open spec fn literal_of(data: TokenDataView, trace: crate::file::trace::TraceView) -> Option<
    ExpressionView,
> {
    match data {
        TokenDataView::StringLiteral(text) => Some(ExpressionView::StringLiteral(text, trace)),
        TokenDataView::BoolLiteral(value) => Some(ExpressionView::BoolLiteral(value, trace)),
        TokenDataView::F32Literal(text) => Some(ExpressionView::F32Literal(text, trace)),
        TokenDataView::F64Literal(text) => Some(ExpressionView::F64Literal(text, trace)),
        TokenDataView::I32Literal(value) => Some(ExpressionView::I32Literal(value, trace)),
        TokenDataView::I64Literal(value) => Some(ExpressionView::I64Literal(value, trace)),
        _ => None,
    }
}

/// The rule of an expression: a binary expression of the loosest tier.
#[verifier::opaque]
pub open spec fn parsed_expression(p: ParserView) -> Parsed<ExpressionView> {
    parsed_binary(p, LOOSEST_TIER as nat)
}

/// The rule of a binary expression of tier `tier`: an operand of the next tighter tier, and
/// then, as long as an operator of this tier is read next, that operator and another such
/// operand, folded to the left. Tier 0 is an operand with its casts.
pub open spec fn parsed_binary(p: ParserView, tier: nat) -> Parsed<ExpressionView>
    decreases p.rest(), 3 + tier,
    when p.well_formed()
{
    if tier == 0 {
        parsed_cast(p)
    } else {
        let lhs = parsed_binary(p, (tier - 1) as nat);
        match lhs.value {
            Ok(operand) => parsed_binary_tail(
                p.forward(lhs.consumed),
                tier,
                p.position,
                operand,
            ).after(lhs.consumed),
            Err(e) => fail(lhs.consumed, e),
        }
    }
}

/// What follows the left operand `lhs` of a binary expression of tier `tier` that began at the
/// token `start`.
pub open spec fn parsed_binary_tail(
    p: ParserView,
    tier: nat,
    start: int,
    lhs: ExpressionView,
) -> Parsed<ExpressionView>
    decreases p.rest(), 0nat,
    when p.well_formed() && tier > 0
{
    match tier_operator(p, tier) {
        Some(op) => {
            let rhs = parsed_binary(p.forward(1), (tier - 1) as nat);
            match rhs.value {
                Ok(operand) => {
                    let end = p.forward(1 + rhs.consumed);
                    let node = ExpressionView::Binary {
                        lhs: Box::new(lhs),
                        op: binary_of(op).unwrap(),
                        rhs: Box::new(operand),
                        trace: end.trace_over(start),
                    };
                    parsed_binary_tail(end, tier, start, node).after(1 + rhs.consumed)
                },
                Err(e) => fail(1 + rhs.consumed, e),
            }
        },
        None => done(0, lhs),
    }
}

/// The rule of an operand with its casts: a factor, and then any number of `as` with a type,
/// each of which wraps what stands before it.
pub open spec fn parsed_cast(p: ParserView) -> Parsed<ExpressionView>
    decreases p.rest(), 2nat,
    when p.well_formed()
{
    let factor = parsed_factor(p);
    match factor.value {
        Ok(expr) => parsed_cast_tail(p.forward(factor.consumed), p.position, expr).after(
            factor.consumed,
        ),
        Err(e) => fail(factor.consumed, e),
    }
}

/// The casts that follow the expression `expr`, which began at the token `start`.
pub open spec fn parsed_cast_tail(p: ParserView, start: int, expr: ExpressionView) -> Parsed<
    ExpressionView,
>
    decreases p.rest(), 0nat,
    when p.well_formed()
{
    if p.has_keyword(Keyword::As) {
        let ty = parsed_type(p.forward(1));
        match ty.value {
            Ok(target) => {
                let end = p.forward(1 + ty.consumed);
                let node = ExpressionView::Cast {
                    expr: Box::new(expr),
                    ty: target,
                    trace: end.trace_over(start),
                };
                parsed_cast_tail(end, start, node).after(1 + ty.consumed)
            },
            Err(e) => fail(1 + ty.consumed, e),
        }
    } else {
        done(0, expr)
    }
}

/// The rule of a factor: a literal; a symbol, which is a call where `(` follows it and a
/// variable otherwise; an expression in parentheses; or one of the prefix operators `!`, `~`
/// and `-` in front of a whole expression.
pub open spec fn parsed_factor(p: ParserView) -> Parsed<ExpressionView>
    decreases p.rest(), 1nat,
    when p.well_formed()
{
    if literal_of(p.current().data, p.current().trace) is Some {
        done(1, literal_of(p.current().data, p.current().trace).unwrap())
    } else if p.has_identifier() {
        parsed_reference(p)
    } else if p.has_operator(Operator::ParenOpen) {
        let inner = parsed_binary(p.forward(1), LOOSEST_TIER as nat);
        match inner.value {
            Ok(expr) => closed_by(
                p.forward(1 + inner.consumed),
                Operator::ParenClose,
                1 + inner.consumed,
                ExpressionView::Parenthetical(
                    Box::new(expr),
                    p.forward(2 + inner.consumed).trace_over(p.position),
                ),
            ),
            Err(e) => fail(1 + inner.consumed, e),
        }
    } else if prefix_operator(p) is Some {
        let inner = parsed_binary(p.forward(1), LOOSEST_TIER as nat);
        match inner.value {
            Ok(expr) => done(
                1 + inner.consumed,
                ExpressionView::Unary {
                    expr: Box::new(expr),
                    op: unary_of(prefix_operator(p).unwrap()).unwrap(),
                    trace: p.forward(1 + inner.consumed).trace_over(p.position),
                },
            ),
            Err(e) => fail(1 + inner.consumed, e),
        }
    } else {
        fail(0, ParserErrorView::UnexpectedToken(p.current()))
    }
}

/// The rule of a factor that starts with an identifier: a symbol, and behind it the
/// arguments of a call in parentheses, where `(` follows the symbol.
pub open spec fn parsed_reference(p: ParserView) -> Parsed<ExpressionView>
    decreases p.rest(), 0nat,
    when p.well_formed() && p.has_identifier()
{
    let symbol = parsed_symbol(p);
    match symbol.value {
        Ok(name) => {
            let after = p.forward(symbol.consumed);
            if !after.has_operator(Operator::ParenOpen) {
                done(
                    symbol.consumed,
                    ExpressionView::VariableReference {
                        symbol: name,
                        trace: after.trace_over(p.position),
                    },
                )
            } else {
                parsed_call(after.forward(1), p.position, name).after(1 + symbol.consumed)
            }
        },
        Err(e) => fail(symbol.consumed, e),
    }
}

/// The rest of a call of `symbol` that began at the token `start`, from behind its `(`: the
/// arguments and the closing `)`.
pub open spec fn parsed_call(p: ParserView, start: int, symbol: SymbolView) -> Parsed<
    ExpressionView,
>
    decreases p.rest(), 21nat,
    when p.well_formed()
{
    let arguments = parsed_arguments(p, Seq::empty());
    match arguments.value {
        Ok(list) => closed_by(
            p.forward(arguments.consumed),
            Operator::ParenClose,
            arguments.consumed,
            ExpressionView::FunctionCall {
                symbol,
                arguments: list,
                trace: p.forward(1 + arguments.consumed).trace_over(start),
            },
        ),
        Err(e) => fail(arguments.consumed, e),
    }
}

/// The arguments of a call that follow `list`, separated by commas, up to the closing `)`,
/// which is not taken.
pub open spec fn parsed_arguments(p: ParserView, list: Seq<ExpressionView>) -> Parsed<
    Seq<ExpressionView>,
>
    decreases p.rest(), 20nat,
    when p.well_formed()
{
    if !p.is_eof() && !p.has_operator(Operator::ParenClose) {
        let first = parsed_binary(p, LOOSEST_TIER as nat);
        match first.value {
            Ok(argument) => {
                if p.forward(first.consumed).has_operator(Operator::Comma) {
                    parsed_arguments(p.forward(first.consumed + 1), list.push(argument)).after(
                        first.consumed + 1,
                    )
                } else {
                    done(first.consumed, list.push(argument))
                }
            },
            Err(e) => fail(first.consumed, e),
        }
    } else {
        done(0, list)
    }
}

/// A binary expression holds at least one token.
pub proof fn lemma_binary_moves(p: ParserView, tier: nat)
    requires
        p.well_formed(),
    ensures
        parsed_binary(p, tier).value is Ok ==> parsed_binary(p, tier).consumed >= 1,
    decreases tier,
{
    if tier > 0 {
        lemma_binary_moves(p, (tier - 1) as nat);
        let lhs = parsed_binary(p, (tier - 1) as nat);
        if lhs.value is Ok {
            let tail = parsed_binary_tail(p.forward(lhs.consumed), tier, p.position, lhs.value->Ok_0);
            assert(parsed_binary(p, tier) == tail.after(lhs.consumed));
        }
    } else {
        lemma_factor_moves(p);
        let factor = parsed_factor(p);
        if factor.value is Ok {
            let tail = parsed_cast_tail(p.forward(factor.consumed), p.position, factor.value->Ok_0);
            assert(parsed_cast(p) == tail.after(factor.consumed));
        }
    }
}

/// A factor holds at least one token.
pub proof fn lemma_factor_moves(p: ParserView)
    requires
        p.well_formed(),
    ensures
        parsed_factor(p).value is Ok ==> parsed_factor(p).consumed >= 1,
{
    reveal(parsed_symbol);
    if literal_of(p.current().data, p.current().trace) is Some {
    } else if p.has_identifier() {
        assert(parsed_factor(p) == parsed_reference(p));
        let symbol = parsed_symbol(p);
        assert(symbol.value is Ok ==> symbol.consumed >= 1);
    } else if p.has_operator(Operator::ParenOpen) {
    } else if prefix_operator(p) is Some {
    } else {
    }
}

/// An expression holds at least one token.
pub proof fn lemma_expression_moves(p: ParserView)
    requires
        p.well_formed(),
    ensures
        parsed_expression(p).value is Ok ==> parsed_expression(p).consumed >= 1,
{
    reveal(parsed_expression);
    lemma_binary_moves(p, LOOSEST_TIER as nat);
}

fn tier_holds(op: Operator, tier: usize) -> (r: bool)
    ensures
        r == in_tier(tier as nat, op),
{
    match tier {
        1 => matches!(op, Operator::Multiply | Operator::Divide | Operator::Mod),
        2 => matches!(op, Operator::Plus | Operator::Minus),
        3 => matches!(op, Operator::BitShiftLeft | Operator::BitShiftRight),
        4 => matches!(
            op,
            Operator::Less | Operator::Greater | Operator::LessEquals | Operator::GreaterEquals
        ),
        5 => matches!(op, Operator::Equals | Operator::NotEquals),
        6 => matches!(op, Operator::BitAnd),
        7 => matches!(op, Operator::Xor),
        8 => matches!(op, Operator::BitOr),
        9 => matches!(op, Operator::And),
        10 => matches!(op, Operator::Or),
        11 => matches!(
            op,
            Operator::ModAssigns | Operator::XorAssign | Operator::BitAndAssign
                | Operator::MultiplyAssign | Operator::MinusAssign | Operator::PlusAssign
                | Operator::DivideAssign | Operator::BitShiftLeftAssign
                | Operator::BitShiftRightAssign | Operator::AndAssign | Operator::OrAssign
                | Operator::Assign
        ),
        _ => false,
    }
}

/// Every operator of a tier stands for a binary operation.
pub proof fn lemma_tier_operators_are_binary(tier: nat, op: Operator)
    requires
        in_tier(tier, op),
    ensures
        binary_of(op) is Some,
{
}

fn binary_operation(op: Operator) -> (r: BinaryOperation)
    requires
        binary_of(op) is Some,
    ensures
        binary_of(op) == Some(r),
{
    match BinaryOperation::try_from(op) {
        Ok(operation) => operation,
        Err(_) => BinaryOperation::Assign,
    }
}

fn unary_operator(op: Operator) -> (r: UnaryOperator)
    requires
        unary_of(op) is Some,
    ensures
        unary_of(op) == Some(r),
{
    match UnaryOperator::try_from(op) {
        Ok(operation) => operation,
        Err(_) => UnaryOperator::Not,
    }
}

fn next_operator(p: &Parser, tier: usize) -> (r: Option<Operator>)
    ensures
        r == tier_operator(p@, tier as nat),
        p@.well_formed(),
{
    match &p.curr().0 {
        TokenData::Operator(op) => if tier_holds(*op, tier) {
            Some(*op)
        } else {
            None
        },
        _ => None,
    }
}

fn next_prefix(p: &Parser) -> (r: Option<Operator>)
    ensures
        r == prefix_operator(p@),
        p@.well_formed(),
{
    match &p.curr().0 {
        TokenData::Operator(op) => match op {
            Operator::Not | Operator::BitNot | Operator::Minus => Some(*op),
            _ => None,
        },
        _ => None,
    }
}

fn next_literal(p: &Parser) -> (r: Option<UnvalidatedExpression>)
    ensures
        match r {
            Some(e) => literal_of(p@.current().data, p@.current().trace) == Some(e@),
            None => literal_of(p@.current().data, p@.current().trace) is None,
        },
        p@.well_formed(),
{
    let token = p.curr();
    match &token.0 {
        TokenData::StringLiteral(text) => Some(
            UnvalidatedExpression::StringLiteral(text.clone(), token.1.clone()),
        ),
        TokenData::BoolLiteral(value) => Some(
            UnvalidatedExpression::BoolLiteral(*value, token.1.clone()),
        ),
        TokenData::F32Literal(text) => Some(
            UnvalidatedExpression::F32Literal(text.clone(), token.1.clone()),
        ),
        TokenData::F64Literal(text) => Some(
            UnvalidatedExpression::F64Literal(text.clone(), token.1.clone()),
        ),
        TokenData::I32Literal(value) => Some(
            UnvalidatedExpression::I32Literal(*value, token.1.clone()),
        ),
        TokenData::I64Literal(value) => Some(
            UnvalidatedExpression::I64Literal(*value, token.1.clone()),
        ),
        _ => None,
    }
}

impl ExpressionParser {
    /// Takes a block, where one is read next.
    pub fn parse_block(p: &mut Parser) -> (r: ParserResult<Option<UnvalidatedExpression>>)
        ensures
            agrees_optional(old(p)@, final(p)@, r, parsed_block(old(p)@)),
            r matches Ok(None) ==> final(p)@ == old(p)@,
        decreases old(p)@.rest(), 4nat,
    {
        if !p.has_operator(Operator::CurlyOpen) {
            return Ok(None);
        }
        let start: usize = p.position();
        p.advance();
        let body = Self::consume_statements(p)?;
        p.expect_operator(Operator::CurlyClose)?;
        let trace = p.trace_over(start);
        proof {
            lemma_scope_view(body, trace);
        }
        Ok(Some(UnvalidatedExpression::Scope(body, trace)))
    }

    fn consume_statements(p: &mut Parser) -> (r: ParserResult<Vec<UnvalidatedFunctionExpression>>)
        requires
            old(p)@.well_formed(),
        ensures
            agrees_list(old(p)@, final(p)@, r, parsed_statements(old(p)@, Seq::empty())),
        decreases old(p)@.rest(), 3nat,
    {
        let ghost start = p@;
        let mut body: Vec<UnvalidatedFunctionExpression> = Vec::new();
        let ghost mut moved: nat = 0;
        proof {
            assert(views(body@) =~= Seq::<FunctionExpressionView>::empty());
        }
        while !p.is_eof() && !p.has_operator(Operator::CurlyClose)
            invariant
                start == old(p)@,
                p@ == start.forward(moved),
                parsed_statements(start, Seq::empty()) == parsed_statements(p@, views(body@)).after(
                    moved,
                ),
            decreases p@.rest(),
        {
            let ghost before = views(body@);
            let ghost here = p@;
            proof {
                lemma_statement_moves(here);
            }
            match StatementParser::consume_function_expression(p) {
                Ok(statement) => {
                    body.push(statement);
                    proof {
                        assert(views(body@) =~= before.push(statement@));
                        moved = moved + parsed_statement(here).consumed;
                    }
                },
                Err(e) => {
                    return Err(e);
                },
            }
        }
        Ok(body)
    }

    /// Takes an expression.
    pub fn consume_expression(p: &mut Parser) -> (r: ParserResult<UnvalidatedExpression>)
        ensures
            agrees(old(p)@, final(p)@, r, parsed_expression(old(p)@)),
        decreases old(p)@.rest(), 3 + LOOSEST_TIER + 1,
    {
        proof {
            reveal(parsed_expression);
        }
        Self::consume_binary_expression(p, LOOSEST_TIER)
    }

    fn consume_factor(p: &mut Parser) -> (r: ParserResult<UnvalidatedExpression>)
        ensures
            agrees(old(p)@, final(p)@, r, parsed_factor(old(p)@)),
        decreases old(p)@.rest(), 1nat,
    {
        if let Some(literal) = next_literal(p) {
            p.advance();
            return Ok(literal);
        }
        if p.has_identifier() {
            return Self::consume_reference(p);
        }
        if p.has_operator(Operator::ParenOpen) {
            return Self::consume_parenthetical(p);
        }
        match next_prefix(p) {
            Some(op) => Self::consume_unary(p, op),
            None => Err(ParserError::UnexpectedToken(p.curr().clone())),
        }
    }

    fn consume_parenthetical(p: &mut Parser) -> (r: ParserResult<UnvalidatedExpression>)
        requires
            old(p)@.has_operator(Operator::ParenOpen),
        ensures
            agrees(old(p)@, final(p)@, r, parsed_factor(old(p)@)),
        decreases old(p)@.rest(), 0nat,
    {
        proof {
            reveal(parsed_expression);
        }
        let start: usize = p.position();
        p.advance();
        let expr = Self::consume_expression(p)?;
        p.expect_operator(Operator::ParenClose)?;
        Ok(UnvalidatedExpression::Parenthetical(Box::new(expr), p.trace_over(start)))
    }

    fn consume_unary(p: &mut Parser, op: Operator) -> (r: ParserResult<UnvalidatedExpression>)
        requires
            prefix_operator(old(p)@) == Some(op),
            literal_of(old(p)@.current().data, old(p)@.current().trace) is None,
            !old(p)@.has_identifier(),
            !old(p)@.has_operator(Operator::ParenOpen),
        ensures
            agrees(old(p)@, final(p)@, r, parsed_factor(old(p)@)),
        decreases old(p)@.rest(), 0nat,
    {
        proof {
            reveal(parsed_expression);
        }
        let start: usize = p.position();
        p.advance();
        let expr = Self::consume_expression(p)?;
        Ok(
            UnvalidatedExpression::Unary {
                expr: Box::new(expr),
                op: unary_operator(op),
                trace: p.trace_over(start),
            },
        )
    }

    fn consume_reference(p: &mut Parser) -> (r: ParserResult<UnvalidatedExpression>)
        requires
            old(p)@.has_identifier(),
        ensures
            agrees(old(p)@, final(p)@, r, parsed_reference(old(p)@)),
        decreases old(p)@.rest(), 0nat,
    {
        let start: usize = p.position();
        let symbol = p.consume_symbol()?;
        if !p.has_operator(Operator::ParenOpen) {
            return Ok(
                UnvalidatedExpression::VariableReference { symbol, trace: p.trace_over(start) },
            );
        }
        p.advance();
        Self::consume_call(p, start, symbol)
    }

    fn consume_call(p: &mut Parser, start: usize, symbol: UnvalidatedSymbol) -> (r: ParserResult<
        UnvalidatedExpression,
    >)
        requires
            old(p)@.well_formed(),
        ensures
            agrees(old(p)@, final(p)@, r, parsed_call(old(p)@, start as int, symbol@)),
        decreases old(p)@.rest(), 21nat,
    {
        let arguments = Self::consume_arguments(p)?;
        p.expect_operator(Operator::ParenClose)?;
        let trace = p.trace_over(start);
        proof {
            lemma_call_view(symbol, arguments, trace);
        }
        Ok(UnvalidatedExpression::FunctionCall { symbol, arguments, trace })
    }

    fn consume_arguments(p: &mut Parser) -> (r: ParserResult<Vec<UnvalidatedExpression>>)
        requires
            old(p)@.well_formed(),
        ensures
            agrees_list(old(p)@, final(p)@, r, parsed_arguments(old(p)@, Seq::empty())),
        decreases old(p)@.rest(), 20nat,
    {
        proof {
            reveal(parsed_expression);
        }
        let ghost start = p@;
        let mut arguments: Vec<UnvalidatedExpression> = Vec::new();
        let ghost mut moved: nat = 0;
        let mut more: bool = true;
        proof {
            assert(views(arguments@) =~= Seq::<ExpressionView>::empty());
        }
        while more && !p.is_eof() && !p.has_operator(Operator::ParenClose)
            invariant
                start == old(p)@,
                p@ == start.forward(moved),
                parsed_arguments(start, Seq::empty()) == (if more {
                    parsed_arguments(p@, views(arguments@)).after(moved)
                } else {
                    done(moved, views(arguments@))
                }),
            decreases p@.rest() + (if more { 1int } else { 0int }),
        {
            proof {
                reveal(parsed_expression);
            }
            let ghost before = views(arguments@);
            let ghost here = p@;
            match Self::consume_expression(p) {
                Ok(argument) => {
                    arguments.push(argument);
                    proof {
                        assert(views(arguments@) =~= before.push(argument@));
                        moved = moved + parsed_expression(here).consumed;
                    }
                },
                Err(e) => {
                    return Err(e);
                },
            }
            if p.has_operator(Operator::Comma) {
                p.advance();
                proof {
                    moved = moved + 1;
                }
            } else {
                more = false;
            }
        }
        Ok(arguments)
    }

    fn consume_expression_cast(p: &mut Parser) -> (r: ParserResult<UnvalidatedExpression>)
        ensures
            agrees(old(p)@, final(p)@, r, parsed_cast(old(p)@)),
        decreases old(p)@.rest(), 2nat,
    {
        let ghost begin = p@;
        let start: usize = p.position();
        let mut expr = Self::consume_factor(p)?;
        let ghost mut moved: nat = parsed_factor(begin).consumed;
        while p.has_keyword(Keyword::As)
            invariant
                begin == old(p)@,
                begin.well_formed(),
                start == begin.position,
                p@ == begin.forward(moved),
                parsed_cast(begin) == parsed_cast_tail(p@, start as int, expr@).after(moved),
            decreases p@.rest(),
        {
            let ghost here = p@;
            p.advance();
            let ty = match p.consume_type() {
                Ok(ty) => ty,
                Err(e) => {
                    return Err(e);
                },
            };
            let trace = p.trace_over(start);
            expr = UnvalidatedExpression::Cast { expr: Box::new(expr), ty, trace };
            proof {
                moved = moved + 1 + parsed_type(here.forward(1)).consumed;
            }
        }
        Ok(expr)
    }

    fn consume_binary_expression(p: &mut Parser, op_index: usize) -> (r: ParserResult<
        UnvalidatedExpression,
    >)
        requires
            op_index <= LOOSEST_TIER,
        ensures
            agrees(old(p)@, final(p)@, r, parsed_binary(old(p)@, op_index as nat)),
        decreases old(p)@.rest(), 3 + op_index,
    {
        let ghost begin = p@;
        let start: usize = p.position();
        if op_index == 0 {
            return Self::consume_expression_cast(p);
        }
        let mut lhs = Self::consume_binary_expression(p, op_index - 1)?;
        let ghost mut moved: nat = parsed_binary(begin, (op_index - 1) as nat).consumed;
        let mut next = next_operator(p, op_index);
        while next.is_some()
            invariant
                begin == old(p)@,
                begin.well_formed(),
                0 < op_index <= LOOSEST_TIER,
                start == begin.position,
                p@ == begin.forward(moved),
                next == tier_operator(p@, op_index as nat),
                parsed_binary(begin, op_index as nat) == parsed_binary_tail(
                    p@,
                    op_index as nat,
                    start as int,
                    lhs@,
                ).after(moved),
            decreases p@.rest(),
        {
            let op = next.unwrap();
            let ghost here = p@;
            p.advance();
            let rhs = match Self::consume_binary_expression(p, op_index - 1) {
                Ok(rhs) => rhs,
                Err(e) => {
                    return Err(e);
                },
            };
            let trace = p.trace_over(start);
            proof {
                lemma_tier_operators_are_binary(op_index as nat, op);
                moved = moved + 1 + parsed_binary(here.forward(1), (op_index - 1) as nat).consumed;
            }
            lhs = UnvalidatedExpression::Binary {
                lhs: Box::new(lhs),
                op: binary_operation(op),
                rhs: Box::new(rhs),
                trace,
            };
            next = next_operator(p, op_index);
        }
        Ok(lhs)
    }
}

} // verus!
