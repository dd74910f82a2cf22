use vstd::prelude::*;
use vstd::utf8::encode_utf8;
use crate::file::source_file::SourceFileView;
use crate::file::trace::TraceView;
use crate::lexer::keyword::Keyword;
use crate::lexer::laws::lemma_tokens_spell;
use crate::lexer::scan::{lemma_tokens_closed, tokens_of};
use crate::lexer::token::{Operator, TokenView};
use crate::parser::ast::expression::ExpressionView;
use crate::parser::ast::function::FunctionExpressionView;
use crate::parser::ast::top_level::TopLevelView;
use crate::parser::cursor::{
    parsed_bracketed, parsed_identifier, parsed_symbol, parsed_type,
    symbol_segments, type_arguments, Parsed, ParserView,
};
use crate::parser::error::ParserErrorView;
use crate::parser::modules::expression_parser::{
    literal_of, parsed_arguments, parsed_binary, parsed_binary_tail, parsed_call, parsed_cast,
    parsed_cast_tail, parsed_expression, parsed_factor, parsed_reference, prefix_operator,
    tier_operator, LOOSEST_TIER,
};
use crate::lexer::laws::lemma_last_token_ends_the_text;
use crate::parser::ast::data::{TypeView, VariableInfoView};
use crate::parser::ast::function::FunctionPrototypeView;
use crate::parser::ast::structs::{EnumVariantView, PropertyView, StructPropertyView};
use crate::parser::modules::top_level::{
    in_curly, optional, parsed_enum, parsed_enum_body, parsed_field, parsed_fields,
    parsed_function, parsed_function_body, parsed_function_prototype, parsed_import,
    parsed_members, parsed_parameter, parsed_parameters, parsed_payload, parsed_positional,
    parsed_program, parsed_property, parsed_signature, parsed_struct, parsed_struct_body,
    parsed_top_level, parsed_variant, parsed_variants,
};
use crate::parser::tree_of;
use crate::parser::modules::statement_parser::{
    negated, parsed_annotation, parsed_block, parsed_expression_statement, parsed_guarded,
    parsed_if, parsed_initial, parsed_let_statement, parsed_return_statement, parsed_statement,
    parsed_statements, parsed_while,
};

verus! {

/// A buffer as far as spans are concerned: its content and its length in bytes.
pub struct Frame {
    pub source: SourceFileView,
    pub len: int,
}

/// Whether a span lies in a buffer: it points into the buffer, and its range is a range of
/// the buffer's bytes.
pub open spec fn trace_in(trace: TraceView, frame: Frame) -> bool {
    &&& trace.source == frame.source
    &&& 0 <= trace.start <= trace.end <= frame.len
}

/// Whether the spans of all of `tokens` lie in a buffer.
pub open spec fn tokens_in(tokens: Seq<TokenView>, frame: Frame) -> bool {
    forall|k: int| 0 <= k < tokens.len() ==> trace_in((#[trigger] tokens[k]).trace, frame)
}

/// The buffer that a parser works in, as its tokens tell: the parser's buffer, as long as
/// the end-of-input token says.
pub open spec fn frame_of(p: ParserView) -> Frame {
    Frame { source: p.file, len: p.tokens.last().trace.end }
}

/// Whether a parser is well formed and all its tokens lie in its buffer.
pub open spec fn parser_in(p: ParserView) -> bool {
    p.well_formed() && tokens_in(p.tokens, frame_of(p))
}

/// Whether every span of an expression lies in a buffer.
pub open spec fn expression_in(e: ExpressionView, frame: Frame) -> bool
    decreases e,
{
    match e {
        ExpressionView::IfElse { condition, then, otherwise, trace } => {
            &&& trace_in(trace, frame)
            &&& expression_in(*condition, frame)
            &&& statement_in(*then, frame)
            &&& statement_in(*otherwise, frame)
        },
        ExpressionView::Scope(body, trace) => {
            &&& trace_in(trace, frame)
            &&& forall|i: int| 0 <= i < body.len() ==> statement_in(#[trigger] body[i], frame)
        },
        ExpressionView::BoolLiteral(_, trace) => trace_in(trace, frame),
        ExpressionView::F32Literal(_, trace) => trace_in(trace, frame),
        ExpressionView::F64Literal(_, trace) => trace_in(trace, frame),
        ExpressionView::I32Literal(_, trace) => trace_in(trace, frame),
        ExpressionView::I64Literal(_, trace) => trace_in(trace, frame),
        ExpressionView::StringLiteral(_, trace) => trace_in(trace, frame),
        ExpressionView::Parenthetical(inner, trace) => {
            &&& trace_in(trace, frame)
            &&& expression_in(*inner, frame)
        },
        ExpressionView::Binary { lhs, rhs, trace, .. } => {
            &&& trace_in(trace, frame)
            &&& expression_in(*lhs, frame)
            &&& expression_in(*rhs, frame)
        },
        ExpressionView::Unary { expr, trace, .. } => {
            &&& trace_in(trace, frame)
            &&& expression_in(*expr, frame)
        },
        ExpressionView::Cast { expr, trace, .. } => {
            &&& trace_in(trace, frame)
            &&& expression_in(*expr, frame)
        },
        ExpressionView::FunctionCall { arguments, trace, .. } => {
            &&& trace_in(trace, frame)
            &&& forall|i: int|
                0 <= i < arguments.len() ==> expression_in(#[trigger] arguments[i], frame)
        },
        ExpressionView::VariableReference { trace, .. } => trace_in(trace, frame),
        ExpressionView::ObjectProperty { object, trace, .. } => {
            &&& trace_in(trace, frame)
            &&& expression_in(*object, frame)
        },
    }
}

/// Whether every span of a statement lies in a buffer.
pub open spec fn statement_in(s: FunctionExpressionView, frame: Frame) -> bool
    decreases s,
{
    match s {
        FunctionExpressionView::If { condition, then, trace } => {
            &&& trace_in(trace, frame)
            &&& expression_in(condition, frame)
            &&& expression_in(*then, frame)
        },
        FunctionExpressionView::While { condition, then, trace } => {
            &&& trace_in(trace, frame)
            &&& expression_in(condition, frame)
            &&& expression_in(*then, frame)
        },
        FunctionExpressionView::Let { initial, trace, .. } => {
            &&& trace_in(trace, frame)
            &&& initial matches Some(e) ==> expression_in(e, frame)
        },
        FunctionExpressionView::Return(value) => value matches Some(e) ==> expression_in(e, frame),
        FunctionExpressionView::Expression(e) => expression_in(e, frame),
    }
}

/// Whether every span of a top-level item lies in a buffer.
pub open spec fn item_in(item: TopLevelView, frame: Frame) -> bool {
    match item {
        TopLevelView::FunctionDefinition { body, trace, .. } => trace_in(trace, frame)
            && statement_in(body, frame),
        TopLevelView::StructDefinition { trace, .. } => trace_in(trace, frame),
        TopLevelView::EnumDefinition { trace, .. } => trace_in(trace, frame),
        TopLevelView::GlobalVariable { initial, trace, .. } => trace_in(trace, frame)
            && expression_in(initial, frame),
        TopLevelView::Import { trace, .. } => trace_in(trace, frame),
    }
}

/// Whether the place of a failure lies in a buffer.
pub open spec fn error_in(e: ParserErrorView, frame: Frame) -> bool {
    trace_in(e.trace(), frame)
}

/// Whether a rule that builds nothing with spans failed, if it failed, at a place in the
/// parser's buffer.
pub open spec fn fails_in<T>(x: Parsed<T>, p: ParserView) -> bool {
    x.value matches Err(e) ==> error_in(e, frame_of(p))
}

/// Whether the expression that a rule built, or the place where it failed, lies in the
/// parser's buffer.
pub open spec fn expression_placed(x: Parsed<ExpressionView>, p: ParserView) -> bool {
    match x.value {
        Ok(e) => expression_in(e, frame_of(p)),
        Err(e) => error_in(e, frame_of(p)),
    }
}

/// `expression_placed` for a rule that builds an expression or finds that it does not apply.
pub open spec fn block_placed(x: Parsed<Option<ExpressionView>>, p: ParserView) -> bool {
    match x.value {
        Ok(Some(e)) => expression_in(e, frame_of(p)),
        Ok(None) => true,
        Err(e) => error_in(e, frame_of(p)),
    }
}

/// Whether the expressions that a rule built, or the place where it failed, lie in the
/// parser's buffer.
pub open spec fn expressions_placed(x: Parsed<Seq<ExpressionView>>, p: ParserView) -> bool {
    match x.value {
        Ok(list) => forall|i: int|
            0 <= i < list.len() ==> expression_in(#[trigger] list[i], frame_of(p)),
        Err(e) => error_in(e, frame_of(p)),
    }
}

/// Whether the statement that a rule built, or the place where it failed, lies in the
/// parser's buffer.
pub open spec fn statement_placed(x: Parsed<FunctionExpressionView>, p: ParserView) -> bool {
    match x.value {
        Ok(s) => statement_in(s, frame_of(p)),
        Err(e) => error_in(e, frame_of(p)),
    }
}

/// `statement_placed` for a rule that builds a statement or finds that it does not apply.
pub open spec fn pass_placed(x: Parsed<Option<FunctionExpressionView>>, p: ParserView) -> bool {
    match x.value {
        Ok(Some(s)) => statement_in(s, frame_of(p)),
        Ok(None) => true,
        Err(e) => error_in(e, frame_of(p)),
    }
}

/// Whether the statements that a rule built, or the place where it failed, lie in the
/// parser's buffer.
pub open spec fn statements_placed(x: Parsed<Seq<FunctionExpressionView>>, p: ParserView) -> bool {
    match x.value {
        Ok(list) => forall|i: int|
            0 <= i < list.len() ==> statement_in(#[trigger] list[i], frame_of(p)),
        Err(e) => error_in(e, frame_of(p)),
    }
}

/// The span over a stretch of tokens lies in the buffer where the tokens do.
pub proof fn lemma_spans_in(p: ParserView, start: int)
    requires
        parser_in(p),
    ensures
        trace_in(p.current().trace, frame_of(p)),
        trace_in(p.token_at(start).trace, frame_of(p)),
        trace_in(p.trace_over(start), frame_of(p)),
        trace_in(p.trace_from(start), frame_of(p)),
{
    let a = p.token_at(start);
    let b = p.token_at(p.position - 1);
    let c = p.current();
    assert(trace_in(a.trace, frame_of(p)));
    assert(trace_in(b.trace, frame_of(p)));
    assert(trace_in(c.trace, frame_of(p)));
}

/// Moving on leaves a parser in its buffer.
pub proof fn lemma_forward_in(p: ParserView, n: nat)
    requires
        parser_in(p),
    ensures
        parser_in(p.forward(n)),
        frame_of(p.forward(n)) == frame_of(p),
{
}

/// The segments of a symbol fail in the buffer, if they fail.
pub proof fn lemma_segments_in(p: ParserView, chain: Seq<Seq<char>>)
    requires
        parser_in(p),
    ensures
        fails_in(symbol_segments(p, chain), p),
    decreases p.rest(),
{
    if p.has_operator(Operator::DoubleColon) {
        lemma_spans_in(p.forward(1), 0);
        match parsed_identifier(p.forward(1)).value {
            Ok(name) => {
                lemma_segments_in(p.forward(2), chain.push(name));
            },
            Err(e) => {},
        }
    }
}

/// A symbol fails in the buffer, if it fails.
pub proof fn lemma_symbol_in(p: ParserView)
    requires
        parser_in(p),
    ensures
        fails_in(parsed_symbol(p), p),
{
    reveal(parsed_symbol);
    lemma_spans_in(p, 0);
    match parsed_identifier(p).value {
        Ok(first) => {
            lemma_segments_in(p.forward(1), seq![first]);
        },
        Err(e) => {},
    }
}

/// A type fails in the buffer, if it fails.
pub proof fn lemma_type_in(p: ParserView)
    requires
        parser_in(p),
    ensures
        fails_in(parsed_type(p), p),
    decreases p.rest(), 1nat,
{
    lemma_spans_in(p, 0);
    if p.has_keyword(Keyword::Ref) {
        lemma_bracketed_in(p.forward(1), true);
    } else if p.has_operator(Operator::BracketOpen) {
        lemma_bracketed_in(p, false);
    } else if p.has_identifier() && p.forward(1).has_operator(Operator::Less) {
        lemma_type_arguments_in(p.forward(2), Seq::empty());
        let arguments = type_arguments(p.forward(2), Seq::empty());
        lemma_spans_in(p.forward(2).forward(arguments.consumed), 0);
    }
}

/// A type in square brackets fails in the buffer, if it fails.
pub proof fn lemma_bracketed_in(p: ParserView, reference: bool)
    requires
        parser_in(p),
    ensures
        fails_in(parsed_bracketed(p, reference), p),
    decreases p.rest(), 0nat,
{
    lemma_spans_in(p, 0);
    if p.has_operator(Operator::BracketOpen) {
        lemma_type_in(p.forward(1));
        let inner = parsed_type(p.forward(1));
        lemma_spans_in(p.forward(1 + inner.consumed), 0);
    }
}

/// The arguments of a template fail in the buffer, if they fail.
pub proof fn lemma_type_arguments_in(p: ParserView, types: Seq<crate::parser::ast::data::TypeView>)
    requires
        parser_in(p),
    ensures
        fails_in(type_arguments(p, types), p),
    decreases p.rest(), 2nat,
{
    if !p.has_operator(Operator::Greater) && !p.is_eof() {
        lemma_type_in(p);
        let first = parsed_type(p);
        match first.value {
            Ok(ty) => {
                if p.forward(first.consumed).has_operator(Operator::Comma) {
                    lemma_type_arguments_in(p.forward(first.consumed + 1), types.push(ty));
                }
            },
            Err(e) => {},
        }
    }
}

/// A binary expression, or the place where it fails, lies in the buffer.
pub proof fn lemma_binary_in(p: ParserView, tier: nat)
    requires
        parser_in(p),
    ensures
        expression_placed(parsed_binary(p, tier), p),
    decreases p.rest(), 3 + tier,
{
    if tier == 0 {
        lemma_cast_in(p);
    } else {
        lemma_binary_in(p, (tier - 1) as nat);
        let lhs = parsed_binary(p, (tier - 1) as nat);
        match lhs.value {
            Ok(operand) => {
                lemma_binary_tail_in(p.forward(lhs.consumed), tier, p.position, operand);
            },
            Err(e) => {},
        }
    }
}

/// What follows the left operand of a binary expression, or the place where it fails, lies
/// in the buffer where the left operand does.
pub proof fn lemma_binary_tail_in(p: ParserView, tier: nat, start: int, lhs: ExpressionView)
    requires
        parser_in(p),
        tier > 0,
        expression_in(lhs, frame_of(p)),
    ensures
        expression_placed(parsed_binary_tail(p, tier, start, lhs), p),
    decreases p.rest(), 0nat,
{
    match tier_operator(p, tier) {
        Some(op) => {
            lemma_binary_in(p.forward(1), (tier - 1) as nat);
            let rhs = parsed_binary(p.forward(1), (tier - 1) as nat);
            match rhs.value {
                Ok(operand) => {
                    let end = p.forward(1 + rhs.consumed);
                    lemma_spans_in(end, start);
                    let node = ExpressionView::Binary {
                        lhs: Box::new(lhs),
                        op: crate::parser::ast::operations::binary_of(op).unwrap(),
                        rhs: Box::new(operand),
                        trace: end.trace_over(start),
                    };
                    assert(expression_in(node, frame_of(p)));
                    lemma_binary_tail_in(end, tier, start, node);
                },
                Err(e) => {},
            }
        },
        None => {},
    }
}

/// An operand with its casts, or the place where it fails, lies in the buffer.
pub proof fn lemma_cast_in(p: ParserView)
    requires
        parser_in(p),
    ensures
        expression_placed(parsed_cast(p), p),
    decreases p.rest(), 2nat,
{
    lemma_factor_in(p);
    let factor = parsed_factor(p);
    match factor.value {
        Ok(expr) => {
            lemma_cast_tail_in(p.forward(factor.consumed), p.position, expr);
        },
        Err(e) => {},
    }
}

/// The casts behind an expression, or the place where they fail, lie in the buffer where
/// the expression does.
pub proof fn lemma_cast_tail_in(p: ParserView, start: int, expr: ExpressionView)
    requires
        parser_in(p),
        expression_in(expr, frame_of(p)),
    ensures
        expression_placed(parsed_cast_tail(p, start, expr), p),
    decreases p.rest(), 0nat,
{
    if p.has_keyword(Keyword::As) {
        lemma_type_in(p.forward(1));
        let ty = parsed_type(p.forward(1));
        match ty.value {
            Ok(target) => {
                let end = p.forward(1 + ty.consumed);
                lemma_spans_in(end, start);
                let node = ExpressionView::Cast {
                    expr: Box::new(expr),
                    ty: target,
                    trace: end.trace_over(start),
                };
                assert(expression_in(node, frame_of(p)));
                lemma_cast_tail_in(end, start, node);
            },
            Err(e) => {},
        }
    }
}

/// A factor, or the place where it fails, lies in the buffer.
pub proof fn lemma_factor_in(p: ParserView)
    requires
        parser_in(p),
    ensures
        expression_placed(parsed_factor(p), p),
    decreases p.rest(), 1nat,
{
    lemma_spans_in(p, 0);
    if literal_of(p.current().data, p.current().trace) is Some {
    } else if p.has_identifier() {
        lemma_reference_in(p);
    } else if p.has_operator(Operator::ParenOpen) {
        lemma_binary_in(p.forward(1), LOOSEST_TIER as nat);
        let inner = parsed_binary(p.forward(1), LOOSEST_TIER as nat);
        lemma_spans_in(p.forward(1 + inner.consumed), 0);
        lemma_spans_in(p.forward(2 + inner.consumed), p.position);
    } else if prefix_operator(p) is Some {
        lemma_binary_in(p.forward(1), LOOSEST_TIER as nat);
        let inner = parsed_binary(p.forward(1), LOOSEST_TIER as nat);
        lemma_spans_in(p.forward(1 + inner.consumed), p.position);
    }
}

/// A reference or a call, or the place where it fails, lies in the buffer.
pub proof fn lemma_reference_in(p: ParserView)
    requires
        parser_in(p),
        p.has_identifier(),
    ensures
        expression_placed(parsed_reference(p), p),
    decreases p.rest(), 0nat,
{
    lemma_symbol_in(p);
    let symbol = parsed_symbol(p);
    match symbol.value {
        Ok(name) => {
            let after = p.forward(symbol.consumed);
            lemma_spans_in(after, p.position);
            if after.has_operator(Operator::ParenOpen) {
                reveal(parsed_symbol);
                lemma_call_in(after.forward(1), p.position, name);
            }
        },
        Err(e) => {},
    }
}

/// The rest of a call, or the place where it fails, lies in the buffer.
pub proof fn lemma_call_in(p: ParserView, start: int, symbol: crate::parser::ast::SymbolView)
    requires
        parser_in(p),
    ensures
        expression_placed(parsed_call(p, start, symbol), p),
    decreases p.rest(), 21nat,
{
    lemma_arguments_in(p, Seq::empty());
    let arguments = parsed_arguments(p, Seq::empty());
    lemma_spans_in(p.forward(arguments.consumed), 0);
    lemma_spans_in(p.forward(1 + arguments.consumed), start);
}

/// The arguments of a call, or the place where they fail, lie in the buffer where those
/// before them do.
pub proof fn lemma_arguments_in(p: ParserView, list: Seq<ExpressionView>)
    requires
        parser_in(p),
        forall|i: int| 0 <= i < list.len() ==> expression_in(#[trigger] list[i], frame_of(p)),
    ensures
        expressions_placed(parsed_arguments(p, list), p),
    decreases p.rest(), 20nat,
{
    if !p.is_eof() && !p.has_operator(Operator::ParenClose) {
        lemma_binary_in(p, LOOSEST_TIER as nat);
        let first = parsed_binary(p, LOOSEST_TIER as nat);
        match first.value {
            Ok(argument) => {
                let more = list.push(argument);
                assert forall|i: int| 0 <= i < more.len() implies expression_in(
                    #[trigger] more[i],
                    frame_of(p),
                ) by {
                    if i < list.len() {
                        assert(more[i] == list[i]);
                    }
                }
                if p.forward(first.consumed).has_operator(Operator::Comma) {
                    lemma_arguments_in(p.forward(first.consumed + 1), more);
                }
            },
            Err(e) => {},
        }
    }
}

/// An expression, or the place where it fails, lies in the buffer.
pub proof fn lemma_expression_in(p: ParserView)
    requires
        parser_in(p),
    ensures
        expression_placed(parsed_expression(p), p),
{
    reveal(parsed_expression);
    lemma_binary_in(p, LOOSEST_TIER as nat);
}

/// A block, or the place where it fails, lies in the buffer.
pub proof fn lemma_block_in(p: ParserView)
    requires
        parser_in(p),
    ensures
        block_placed(parsed_block(p), p),
    decreases p.rest(), 4nat,
{
    if p.has_operator(Operator::CurlyOpen) {
        lemma_statements_in(p.forward(1), Seq::empty());
        let body = parsed_statements(p.forward(1), Seq::empty());
        lemma_spans_in(p.forward(1 + body.consumed), 0);
        lemma_spans_in(p.forward(2 + body.consumed), p.position);
    }
}

/// The statements of a block, or the place where they fail, lie in the buffer where those
/// before them do.
pub proof fn lemma_statements_in(p: ParserView, list: Seq<FunctionExpressionView>)
    requires
        parser_in(p),
        forall|i: int| 0 <= i < list.len() ==> statement_in(#[trigger] list[i], frame_of(p)),
    ensures
        statements_placed(parsed_statements(p, list), p),
    decreases p.rest(), 3nat,
{
    reveal(parsed_statement);
    if !(p.is_eof() || p.has_operator(Operator::CurlyClose)) {
        lemma_statement_in(p);
        let first = parsed_statement(p);
        match first.value {
            Ok(statement) => {
                let more = list.push(statement);
                assert forall|i: int| 0 <= i < more.len() implies statement_in(
                    #[trigger] more[i],
                    frame_of(p),
                ) by {
                    if i < list.len() {
                        assert(more[i] == list[i]);
                    }
                }
                if first.consumed != 0 {
                    lemma_statements_in(p.forward(first.consumed), more);
                }
            },
            Err(e) => {},
        }
    }
}

/// A statement, or the place where it fails, lies in the buffer.
pub proof fn lemma_statement_in(p: ParserView)
    requires
        parser_in(p),
    ensures
        statement_placed(parsed_statement(p), p),
    decreases p.rest(), 2nat,
{
    reveal(parsed_statement);
    lemma_let_in(p);
    lemma_while_in(p);
    lemma_if_in(p);
    lemma_return_in(p);
    lemma_expression_in(p);
    assert(statement_placed(parsed_expression_statement(p), p));
}

/// A loop, or the place where it fails, lies in the buffer.
pub proof fn lemma_while_in(p: ParserView)
    requires
        parser_in(p),
    ensures
        pass_placed(parsed_while(p), p),
    decreases p.rest(), 1nat,
{
    if p.has_keyword(Keyword::While) || p.has_keyword(Keyword::Until) {
        lemma_expression_in(p.forward(1));
        let condition = parsed_expression(p.forward(1));
        match condition.value {
            Ok(test) => {
                let guard = if p.has_keyword(Keyword::Until) {
                    negated(test)
                } else {
                    test
                };
                lemma_negated_in(test, frame_of(p));
                lemma_guarded_in(p.forward(1 + condition.consumed), p.position, guard, true);
            },
            Err(e) => {},
        }
    }
}

/// A conditional, or the place where it fails, lies in the buffer.
pub proof fn lemma_if_in(p: ParserView)
    requires
        parser_in(p),
    ensures
        pass_placed(parsed_if(p), p),
    decreases p.rest(), 1nat,
{
    if p.has_keyword(Keyword::If) || p.has_keyword(Keyword::Unless) {
        lemma_expression_in(p.forward(1));
        let condition = parsed_expression(p.forward(1));
        match condition.value {
            Ok(test) => {
                let guard = if p.has_keyword(Keyword::Unless) {
                    negated(test)
                } else {
                    test
                };
                lemma_negated_in(test, frame_of(p));
                lemma_guarded_in(p.forward(1 + condition.consumed), p.position, guard, false);
            },
            Err(e) => {},
        }
    }
}

/// The negation of a condition lies in the buffer where the condition does.
pub proof fn lemma_negated_in(condition: ExpressionView, frame: Frame)
    requires
        expression_in(condition, frame),
    ensures
        expression_in(negated(condition), frame),
{
}

/// The block of a loop or a conditional, or the place where it fails, lies in the buffer
/// where the condition does.
pub proof fn lemma_guarded_in(p: ParserView, start: int, condition: ExpressionView, looping: bool)
    requires
        parser_in(p),
        expression_in(condition, frame_of(p)),
    ensures
        pass_placed(parsed_guarded(p, start, condition, looping), p),
    decreases p.rest(), 5nat,
{
    lemma_block_in(p);
    let block = parsed_block(p);
    lemma_spans_in(p, start);
    lemma_spans_in(p.forward(block.consumed), start);
}

/// A declaration, or the place where it fails, lies in the buffer.
pub proof fn lemma_let_in(p: ParserView)
    requires
        parser_in(p),
    ensures
        pass_placed(parsed_let_statement(p), p),
{
    reveal(parsed_let_statement);
    if p.has_keyword(Keyword::Let) {
        let named: nat = if p.forward(1).has_keyword(Keyword::Mut) {
            2
        } else {
            1
        };
        lemma_spans_in(p.forward(named), 0);
        lemma_type_in(p.forward(named + 1).forward(1));
        let ty = parsed_annotation(p.forward(named + 1));
        let typed = named + 1 + ty.consumed;
        lemma_expression_in(p.forward(typed).forward(1));
        let initial = parsed_initial(p.forward(typed));
        lemma_spans_in(p.forward(typed + initial.consumed), p.position);
    }
}

/// A `return`, or the place where it fails, lies in the buffer.
pub proof fn lemma_return_in(p: ParserView)
    requires
        parser_in(p),
    ensures
        pass_placed(parsed_return_statement(p), p),
{
    reveal(parsed_return_statement);
    lemma_expression_in(p.forward(1));
}

/// Whether the item that a rule built, if it built one, or the place where it failed, lies
/// in the parser's buffer.
pub open spec fn item_placed(x: Parsed<Option<TopLevelView>>, p: ParserView) -> bool {
    match x.value {
        Ok(Some(item)) => item_in(item, frame_of(p)),
        Ok(None) => true,
        Err(e) => error_in(e, frame_of(p)),
    }
}

/// Whether the items that a rule built, or the place where it failed, lie in the parser's
/// buffer.
pub open spec fn items_placed(x: Parsed<Seq<TopLevelView>>, p: ParserView) -> bool {
    match x.value {
        Ok(list) => forall|i: int| 0 <= i < list.len() ==> item_in(#[trigger] list[i], frame_of(p)),
        Err(e) => error_in(e, frame_of(p)),
    }
}

/// A typed name fails in the buffer, if it fails.
pub proof fn lemma_property_in(p: ParserView)
    requires
        parser_in(p),
    ensures
        fails_in(parsed_property(p), p),
{
    lemma_spans_in(p, 0);
    lemma_spans_in(p.forward(1), 0);
    lemma_type_in(p.forward(2));
}

/// The parameters of a function fail in the buffer, if they fail.
pub proof fn lemma_parameters_in(p: ParserView, list: Seq<VariableInfoView>)
    requires
        parser_in(p),
    ensures
        fails_in(parsed_parameters(p, list), p),
    decreases p.rest(),
{
    reveal(parsed_parameters);
    if !p.has_operator(Operator::ParenClose) && !p.is_eof() {
        lemma_property_in(p.forward(optional(p, Keyword::Mut)));
        let first = parsed_parameter(p);
        match first.value {
            Ok(parameter) => {
                if p.forward(first.consumed).has_operator(Operator::Comma) {
                    lemma_parameters_in(p.forward(first.consumed + 1), list.push(parameter));
                }
            },
            Err(e) => {},
        }
    }
}

/// The head of a function fails in the buffer, if it fails.
pub proof fn lemma_prototype_in(p: ParserView)
    requires
        parser_in(p),
    ensures
        fails_in(parsed_function_prototype(p), p),
{
    reveal(parsed_function_prototype);
    reveal(parsed_signature);
    let q = p.forward(optional(p, Keyword::Public));
    lemma_spans_in(q, 0);
    lemma_spans_in(q.forward(1), 0);
    let open = q.forward(2);
    lemma_spans_in(open, 0);
    lemma_parameters_in(open.forward(1), Seq::empty());
    let parameters = parsed_parameters(open.forward(1), Seq::empty());
    let close = open.forward(1 + parameters.consumed);
    lemma_spans_in(close, 0);
    lemma_type_in(close.forward(1).forward(1));
}

/// The body of a function, or the place where it fails, lies in the buffer.
pub proof fn lemma_function_body_in(p: ParserView, start: int, proto: FunctionPrototypeView)
    requires
        parser_in(p),
    ensures
        item_placed(parsed_function_body(p, start, proto), p),
{
    reveal(parsed_function_body);
    lemma_spans_in(p, start);
    if p.has_operator(Operator::ThickRightArrow) {
        lemma_expression_in(p.forward(1));
        let body = parsed_expression(p.forward(1));
        lemma_spans_in(p.forward(1 + body.consumed), start);
    } else {
        lemma_block_in(p);
        let block = parsed_block(p);
        lemma_spans_in(p.forward(block.consumed), start);
    }
}

/// A function definition, or the place where it fails, lies in the buffer.
pub proof fn lemma_function_in(p: ParserView)
    requires
        parser_in(p),
    ensures
        item_placed(parsed_function(p), p),
{
    lemma_prototype_in(p);
    let proto = parsed_function_prototype(p);
    match proto.value {
        Ok(head) => {
            lemma_function_body_in(p.forward(proto.consumed), p.position, head);
        },
        Err(e) => {},
    }
}

/// An import, or the place where it fails, lies in the buffer.
pub proof fn lemma_import_in(p: ParserView)
    requires
        parser_in(p),
    ensures
        item_placed(parsed_import(p), p),
{
    lemma_symbol_in(p.forward(1));
    let symbol = parsed_symbol(p.forward(1));
    lemma_spans_in(p.forward(1 + symbol.consumed), p.position);
}

/// The fields of a struct fail in the buffer, if they fail.
pub proof fn lemma_fields_in(p: ParserView, list: Seq<StructPropertyView>)
    requires
        parser_in(p),
    ensures
        fails_in(parsed_fields(p, list), p),
    decreases p.rest(),
{
    reveal(parsed_fields);
    if !p.is_eof() && !p.has_operator(Operator::CurlyClose) {
        lemma_property_in(p.forward(optional(p, Keyword::Public)));
        let first = parsed_field(p);
        match first.value {
            Ok(field) => {
                lemma_fields_in(p.forward(first.consumed), list.push(field));
            },
            Err(e) => {},
        }
    }
}

/// A struct definition, or the place where it fails, lies in the buffer.
pub proof fn lemma_struct_in(p: ParserView)
    requires
        parser_in(p),
    ensures
        item_placed(parsed_struct(p), p),
{
    reveal(parsed_struct_body);
    let head = optional(p, Keyword::Public);
    if p.forward(head).has_keyword(Keyword::Struct) {
        let q = p.forward(head + 1);
        lemma_spans_in(q, 0);
        let open = q.forward(1);
        lemma_spans_in(open, 0);
        lemma_fields_in(q.forward(2), Seq::empty());
        let list = parsed_fields(q.forward(2), Seq::empty());
        lemma_spans_in(open.forward(1 + list.consumed), 0);
        let fields = in_curly(open, list);
        lemma_spans_in(q.forward(1 + fields.consumed), p.position);
    }
}

/// The types that a variant carries fail in the buffer, if they fail.
pub proof fn lemma_positional_in(p: ParserView, list: Seq<TypeView>)
    requires
        parser_in(p),
    ensures
        fails_in(parsed_positional(p, list), p),
    decreases p.rest(),
{
    reveal(parsed_positional);
    if !p.is_eof() && !p.has_operator(Operator::ParenClose) {
        lemma_type_in(p);
        let first = parsed_type(p);
        match first.value {
            Ok(ty) => {
                if p.forward(first.consumed).has_operator(Operator::Comma) {
                    lemma_positional_in(p.forward(first.consumed + 1), list.push(ty));
                }
            },
            Err(e) => {},
        }
    }
}

/// The members that a variant carries fail in the buffer, if they fail.
pub proof fn lemma_members_in(p: ParserView, list: Seq<PropertyView>)
    requires
        parser_in(p),
    ensures
        fails_in(parsed_members(p, list), p),
    decreases p.rest(),
{
    reveal(parsed_members);
    if !p.is_eof() && !p.has_operator(Operator::CurlyClose) {
        lemma_property_in(p);
        let first = parsed_property(p);
        match first.value {
            Ok(member) => {
                if p.forward(first.consumed).has_operator(Operator::Comma) {
                    lemma_members_in(p.forward(first.consumed + 1), list.push(member));
                }
            },
            Err(e) => {},
        }
    }
}

/// A variant fails in the buffer, if it fails.
pub proof fn lemma_variant_in(p: ParserView)
    requires
        parser_in(p),
    ensures
        fails_in(parsed_variant(p), p),
{
    reveal(parsed_payload);
    lemma_spans_in(p, 0);
    let q = p.forward(1);
    if q.has_operator(Operator::ParenOpen) {
        lemma_positional_in(q.forward(1), Seq::empty());
        let types = parsed_positional(q.forward(1), Seq::empty());
        lemma_spans_in(q.forward(1 + types.consumed), 0);
    } else if q.has_operator(Operator::CurlyOpen) {
        lemma_members_in(q.forward(1), Seq::empty());
        let members = parsed_members(q.forward(1), Seq::empty());
        lemma_spans_in(q.forward(1 + members.consumed), 0);
    }
}

/// The variants of an enum fail in the buffer, if they fail.
pub proof fn lemma_variants_in(p: ParserView, list: Seq<EnumVariantView>)
    requires
        parser_in(p),
    ensures
        fails_in(parsed_variants(p, list), p),
    decreases p.rest(),
{
    reveal(parsed_variants);
    if !p.is_eof() && !p.has_operator(Operator::CurlyClose) {
        lemma_variant_in(p);
        let first = parsed_variant(p);
        match first.value {
            Ok(variant) => {
                reveal(parsed_payload);
                lemma_variants_in(p.forward(first.consumed), list.push(variant));
            },
            Err(e) => {},
        }
    }
}

/// An enum definition, or the place where it fails, lies in the buffer.
pub proof fn lemma_enum_in(p: ParserView)
    requires
        parser_in(p),
    ensures
        item_placed(parsed_enum(p), p),
{
    reveal(parsed_enum_body);
    let head = optional(p, Keyword::Public);
    if p.forward(head).has_name("enum"@) {
        let open = p.forward(head + 1);
        lemma_spans_in(open, 0);
        lemma_variants_in(open.forward(1), Seq::empty());
        let list = parsed_variants(open.forward(1), Seq::empty());
        lemma_spans_in(open.forward(1 + list.consumed), 0);
        let body = in_curly(open, list);
        lemma_spans_in(open.forward(body.consumed), p.position);
    }
}

/// A top-level item, or the place where it fails, lies in the buffer.
pub proof fn lemma_top_level_in(p: ParserView)
    requires
        parser_in(p),
    ensures
        item_placed(parsed_top_level(p), p),
{
    reveal(parsed_top_level);
    lemma_function_in(p);
    lemma_import_in(p);
    lemma_struct_in(p);
    lemma_enum_in(p);
}

/// The items of a file, or the place where they fail, lie in the buffer where those before
/// them do.
pub proof fn lemma_program_in(p: ParserView, list: Seq<TopLevelView>)
    requires
        parser_in(p),
        forall|i: int| 0 <= i < list.len() ==> item_in(#[trigger] list[i], frame_of(p)),
    ensures
        items_placed(parsed_program(p, list), p),
    decreases p.rest(),
{
    if !p.is_eof() {
        lemma_top_level_in(p);
        lemma_spans_in(p, 0);
        let first = parsed_top_level(p);
        match first.value {
            Ok(Some(item)) => {
                let more = list.push(item);
                assert forall|i: int| 0 <= i < more.len() implies item_in(
                    #[trigger] more[i],
                    frame_of(p),
                ) by {
                    if i < list.len() {
                        assert(more[i] == list[i]);
                    }
                }
                if first.consumed != 0 {
                    lemma_program_in(p.forward(first.consumed), more);
                }
            },
            _ => {},
        }
    }
}

/// The buffer of a source text: its content, as long as its text is in bytes.
pub open spec fn frame_of_source(src: SourceFileView) -> Frame {
    Frame { source: src, len: encode_utf8(src.source).len() as int }
}

/// Every span in the tree of a source text, and the place of the failure where the text has
/// no tree, lies within the text: it points into the text's buffer, and its range is a range
/// of the buffer's bytes.
pub proof fn lemma_tree_in_buffer(src: SourceFileView)
    ensures
        match tree_of(src) {
            Ok(items) => forall|i: int|
                0 <= i < items.len() ==> item_in(#[trigger] items[i], frame_of_source(src)),
            Err(e) => error_in(e, frame_of_source(src)),
        },
{
    let tokens = tokens_of(src);
    let p = ParserView { file: src, tokens, position: 0 };
    lemma_tokens_closed(src, 0);
    lemma_tokens_spell(src, tokens.len() - 1);
    lemma_last_token_ends_the_text(src);
    assert(frame_of(p) == frame_of_source(src));
    assert forall|k: int| 0 <= k < tokens.len() implies trace_in(
        (#[trigger] tokens[k]).trace,
        frame_of(p),
    ) by {
        lemma_tokens_spell(src, k);
    }
    lemma_program_in(p, Seq::empty());
}

} // verus!
