use vstd::prelude::*;
use crate::file::trace::{cover, TraceView};
use crate::lexer::keyword::Keyword;
use crate::lexer::token::{Operator, TokenView};
use crate::parser::ast::data::TypeView;
use crate::parser::ast::expression::ExpressionView;
use crate::parser::ast::operations::binary_of;
use crate::parser::ast::SymbolView;
use crate::parser::cursor::{
    parsed_bracketed, parsed_identifier, parsed_symbol, parsed_template, parsed_type,
    symbol_segments, type_arguments, Parsed, ParserView,
};
use crate::file::source_file::SourceFileView;
use crate::lexer::laws::{lemma_last_token_ends_the_text, lemma_tokens_ordered, lemma_tokens_spell};
use crate::lexer::scan::tokens_of;
use crate::parser::extent::{frame_of, parser_in, trace_in};
use crate::parser::modules::expression_parser::{
    literal_of, parsed_arguments, parsed_binary, parsed_binary_tail, parsed_call, parsed_cast,
    parsed_cast_tail, parsed_expression, parsed_factor, parsed_reference, prefix_operator,
    tier_operator, LOOSEST_TIER,
};

verus! {

/// Whether tokens stand in the order of their text without overlap: each ends before the
/// next starts.
pub open spec fn tokens_ordered(tokens: Seq<TokenView>) -> bool {
    forall|i: int, j: int|
        0 <= i < j < tokens.len() ==> (#[trigger] tokens[i]).trace.end <= (
        #[trigger] tokens[j]).trace.start
}

/// Whether a parser's tokens lie in its buffer in the order of their text, and its position is
/// that of a token.
pub open spec fn parser_ordered(p: ParserView) -> bool {
    parser_in(p) && tokens_ordered(p.tokens) && p.position < p.tokens.len()
}

/// The span from the start of the token at `from` to the end of the token at `to`.
pub open spec fn bridge(p: ParserView, from: int, to: int) -> TraceView {
    TraceView { source: p.file, start: p.tokens[from].trace.start, end: p.tokens[to].trace.end }
}

/// Whether the span `outer` covers the span `inner` of the same buffer.
pub open spec fn covers(outer: TraceView, inner: TraceView) -> bool {
    outer.source == inner.source && outer.start <= inner.start && inner.end <= outer.end
}

/// Whether the spans of an expression nest: the span of a binary operation is exactly the
/// union of the spans of its operands, and the span of every other composite expression
/// covers the spans of the expressions in it.
pub open spec fn nested(e: ExpressionView) -> bool
    decreases e,
{
    match e {
        ExpressionView::Binary { lhs, rhs, trace, .. } => {
            &&& trace == cover(trace.source, lhs.trace(), rhs.trace())
            &&& covers(trace, lhs.trace())
            &&& covers(trace, rhs.trace())
            &&& nested(*lhs)
            &&& nested(*rhs)
        },
        ExpressionView::Unary { expr, trace, .. } => covers(trace, expr.trace()) && nested(*expr),
        ExpressionView::Parenthetical(inner, trace) => covers(trace, inner.trace()) && nested(
            *inner,
        ),
        ExpressionView::Cast { expr, trace, .. } => covers(trace, expr.trace()) && nested(*expr),
        ExpressionView::FunctionCall { arguments, trace, .. } => forall|i: int|
            0 <= i < arguments.len() ==> covers(trace, (#[trigger] arguments[i]).trace())
                && nested(arguments[i]),
        _ => true,
    }
}

/// Whether a rule that succeeded stopped before the end-of-input token.
pub open spec fn fits<T>(x: Parsed<T>, p: ParserView) -> bool {
    x.value is Ok ==> p.position + x.consumed < p.tokens.len()
}

/// Whether the expression that a rule built spans exactly the tokens that the rule moved
/// over, which are at least one and none of them the end-of-input token, and its spans nest.
pub open spec fn spans_exactly(x: Parsed<ExpressionView>, p: ParserView) -> bool {
    x.value matches Ok(e) ==> {
        &&& x.consumed >= 1
        &&& p.position + x.consumed < p.tokens.len()
        &&& e.trace() == bridge(p, p.position, p.position + x.consumed - 1)
        &&& nested(e)
    }
}

/// Whether the expression that a rule built in continuation of a construct that began at the
/// token `start` spans exactly the tokens from `start` to the last that the rule moved over.
pub open spec fn continues_exactly(x: Parsed<ExpressionView>, p: ParserView, start: int) -> bool {
    x.value matches Ok(e) ==> {
        &&& p.position + x.consumed < p.tokens.len()
        &&& e.trace() == bridge(p, start, p.position + x.consumed - 1)
        &&& nested(e)
    }
}

/// Among ordered tokens, the span over a stretch of tokens runs from the start of the first
/// to the end of the last, and a longer stretch covers a shorter one inside it.
pub proof fn lemma_bridges(p: ParserView, a: int, b: int, c: int, d: int)
    requires
        parser_in(p),
        tokens_ordered(p.tokens),
        0 <= a <= b <= c <= d < p.tokens.len(),
    ensures
        cover(p.file, p.tokens[a].trace, p.tokens[d].trace) == bridge(p, a, d),
        covers(bridge(p, a, d), bridge(p, b, c)),
        covers(bridge(p, a, d), bridge(p, a, b)),
        covers(bridge(p, a, d), bridge(p, c, d)),
        bridge(p, a, d) == cover(p.file, bridge(p, a, b), bridge(p, c, d)),
        p.tokens[a].trace.source == p.file,
        bridge(p, a, a) == p.tokens[a].trace,
{
    let ta = p.tokens[a].trace;
    let tb = p.tokens[b].trace;
    let tc = p.tokens[c].trace;
    let td = p.tokens[d].trace;
    assert(ta.start <= ta.end && tb.start <= tb.end && tc.start <= tc.end && td.start <= td.end);
    if a < b {
        assert(ta.end <= tb.start);
    }
    if b < c {
        assert(tb.end <= tc.start);
    }
    if c < d {
        assert(tc.end <= td.start);
    }
    if a < d {
        assert(ta.end <= td.start);
    }
}

/// The span of a construct that began at the token `start` and was just read to its end runs
/// from the start of that token to the end of the last token read.
pub proof fn lemma_trace_over_bridges(q: ParserView, start: int)
    requires
        parser_in(q),
        tokens_ordered(q.tokens),
        0 <= start < q.position <= q.tokens.len(),
    ensures
        q.trace_over(start) == bridge(q, start, q.position - 1),
{
    lemma_bridges(q, start, start, q.position - 1, q.position - 1);
}

/// The segments of a symbol stop before the end-of-input token.
pub proof fn lemma_segments_fit(p: ParserView, chain: Seq<Seq<char>>)
    requires
        parser_ordered(p),
    ensures
        fits(symbol_segments(p, chain), p),
    decreases p.rest(),
{
    if p.has_operator(Operator::DoubleColon) {
        match parsed_identifier(p.forward(1)).value {
            Ok(name) => {
                lemma_segments_fit(p.forward(2), chain.push(name));
            },
            Err(e) => {},
        }
    }
}

/// A symbol holds at least one token and stops before the end-of-input token.
pub proof fn lemma_symbol_fits(p: ParserView)
    requires
        parser_ordered(p),
    ensures
        fits(parsed_symbol(p), p),
        parsed_symbol(p).value is Ok ==> parsed_symbol(p).consumed >= 1,
{
    reveal(parsed_symbol);
    match parsed_identifier(p).value {
        Ok(first) => {
            lemma_segments_fit(p.forward(1), seq![first]);
        },
        Err(e) => {},
    }
}

/// A type holds at least one token and stops before the end-of-input token.
pub proof fn lemma_type_fits(p: ParserView)
    requires
        parser_ordered(p),
    ensures
        fits(parsed_type(p), p),
        parsed_type(p).value is Ok ==> parsed_type(p).consumed >= 1,
    decreases p.rest(), 1nat,
{
    if p.has_keyword(Keyword::Ref) {
        lemma_bracketed_fits(p.forward(1), true);
    } else if p.has_operator(Operator::BracketOpen) {
        lemma_bracketed_fits(p, false);
    } else if p.has_identifier() && p.forward(1).has_operator(Operator::Less) {
        lemma_template_fits(p.forward(2), p.current().data->Identifier_0);
    }
}

/// A type in square brackets holds at least one token and stops before the end-of-input token.
pub proof fn lemma_bracketed_fits(p: ParserView, reference: bool)
    requires
        parser_ordered(p),
    ensures
        fits(parsed_bracketed(p, reference), p),
        parsed_bracketed(p, reference).value is Ok ==> parsed_bracketed(p, reference).consumed >= 1,
    decreases p.rest(), 0nat,
{
    if p.has_operator(Operator::BracketOpen) {
        lemma_type_fits(p.forward(1));
    }
}

/// The rest of a template stops before the end-of-input token.
pub proof fn lemma_template_fits(p: ParserView, base: Seq<char>)
    requires
        parser_ordered(p),
    ensures
        fits(parsed_template(p, base), p),
    decreases p.rest(), 3nat,
{
    lemma_type_arguments_fit(p, Seq::empty());
}

/// The arguments of a template stop before the end-of-input token.
pub proof fn lemma_type_arguments_fit(p: ParserView, types: Seq<TypeView>)
    requires
        parser_ordered(p),
    ensures
        fits(type_arguments(p, types), p),
    decreases p.rest(), 2nat,
{
    if !p.has_operator(Operator::Greater) && !p.is_eof() {
        lemma_type_fits(p);
        let first = parsed_type(p);
        match first.value {
            Ok(ty) => {
                if p.forward(first.consumed).has_operator(Operator::Comma) {
                    lemma_type_arguments_fit(p.forward(first.consumed + 1), types.push(ty));
                }
            },
            Err(e) => {},
        }
    }
}

/// A binary expression spans exactly its tokens, and its spans nest.
pub proof fn lemma_binary_nests(p: ParserView, tier: nat)
    requires
        parser_ordered(p),
    ensures
        spans_exactly(parsed_binary(p, tier), p),
    decreases p.rest(), 3 + tier,
{
    if tier == 0 {
        lemma_cast_nests(p);
    } else {
        lemma_binary_nests(p, (tier - 1) as nat);
        let lhs = parsed_binary(p, (tier - 1) as nat);
        match lhs.value {
            Ok(operand) => {
                lemma_binary_tail_nests(p.forward(lhs.consumed), tier, p.position, operand);
            },
            Err(e) => {},
        }
    }
}

/// What follows the left operand of a binary expression spans, with the left operand,
/// exactly the tokens from the start of the left operand on, and its spans nest.
pub proof fn lemma_binary_tail_nests(p: ParserView, tier: nat, start: int, lhs: ExpressionView)
    requires
        parser_ordered(p),
        tier > 0,
        0 <= start < p.position,
        lhs.trace() == bridge(p, start, p.position - 1),
        nested(lhs),
    ensures
        continues_exactly(parsed_binary_tail(p, tier, start, lhs), p, start),
    decreases p.rest(), 0nat,
{
    match tier_operator(p, tier) {
        Some(op) => {
            lemma_binary_nests(p.forward(1), (tier - 1) as nat);
            let rhs = parsed_binary(p.forward(1), (tier - 1) as nat);
            match rhs.value {
                Ok(operand) => {
                    let end = p.forward(1 + rhs.consumed);
                    lemma_trace_over_bridges(end, start);
                    lemma_bridges(p, start, p.position - 1, p.position + 1, end.position - 1);
                    let node = ExpressionView::Binary {
                        lhs: Box::new(lhs),
                        op: binary_of(op).unwrap(),
                        rhs: Box::new(operand),
                        trace: end.trace_over(start),
                    };
                    assert(nested(node));
                    lemma_binary_tail_nests(end, tier, start, node);
                },
                Err(e) => {},
            }
        },
        None => {},
    }
}

/// An operand with its casts spans exactly its tokens, and its spans nest.
pub proof fn lemma_cast_nests(p: ParserView)
    requires
        parser_ordered(p),
    ensures
        spans_exactly(parsed_cast(p), p),
    decreases p.rest(), 2nat,
{
    lemma_factor_nests(p);
    let factor = parsed_factor(p);
    match factor.value {
        Ok(expr) => {
            lemma_cast_tail_nests(p.forward(factor.consumed), p.position, expr);
        },
        Err(e) => {},
    }
}

/// The casts behind an expression span, with the expression, exactly the tokens from the
/// start of the expression on, and their spans nest.
pub proof fn lemma_cast_tail_nests(p: ParserView, start: int, expr: ExpressionView)
    requires
        parser_ordered(p),
        0 <= start < p.position,
        expr.trace() == bridge(p, start, p.position - 1),
        nested(expr),
    ensures
        continues_exactly(parsed_cast_tail(p, start, expr), p, start),
    decreases p.rest(), 0nat,
{
    if p.has_keyword(Keyword::As) {
        lemma_type_fits(p.forward(1));
        let ty = parsed_type(p.forward(1));
        match ty.value {
            Ok(target) => {
                let end = p.forward(1 + ty.consumed);
                lemma_trace_over_bridges(end, start);
                lemma_bridges(p, start, p.position - 1, p.position - 1, end.position - 1);
                let node = ExpressionView::Cast {
                    expr: Box::new(expr),
                    ty: target,
                    trace: end.trace_over(start),
                };
                assert(nested(node));
                lemma_cast_tail_nests(end, start, node);
            },
            Err(e) => {},
        }
    }
}

/// A factor spans exactly its tokens, and its spans nest.
pub proof fn lemma_factor_nests(p: ParserView)
    requires
        parser_ordered(p),
    ensures
        spans_exactly(parsed_factor(p), p),
    decreases p.rest(), 1nat,
{
    lemma_bridges(p, p.position, p.position, p.position, p.position);
    if literal_of(p.current().data, p.current().trace) is Some {
    } else if p.has_identifier() {
        lemma_reference_nests(p);
    } else if p.has_operator(Operator::ParenOpen) {
        lemma_binary_nests(p.forward(1), LOOSEST_TIER as nat);
        let inner = parsed_binary(p.forward(1), LOOSEST_TIER as nat);
        if inner.value is Ok && p.forward(1 + inner.consumed).has_operator(Operator::ParenClose) {
            let end = p.forward(2 + inner.consumed);
            lemma_trace_over_bridges(end, p.position);
            lemma_bridges(p, p.position, p.position + 1, p.position + inner.consumed, end.position - 1);
        }
    } else if prefix_operator(p) is Some {
        lemma_binary_nests(p.forward(1), LOOSEST_TIER as nat);
        let inner = parsed_binary(p.forward(1), LOOSEST_TIER as nat);
        if inner.value is Ok {
            let end = p.forward(1 + inner.consumed);
            lemma_trace_over_bridges(end, p.position);
            lemma_bridges(p, p.position, p.position + 1, end.position - 1, end.position - 1);
        }
    }
}

/// A reference or a call spans exactly its tokens, and its spans nest.
pub proof fn lemma_reference_nests(p: ParserView)
    requires
        parser_ordered(p),
        p.has_identifier(),
    ensures
        spans_exactly(parsed_reference(p), p),
    decreases p.rest(), 0nat,
{
    lemma_symbol_fits(p);
    let symbol = parsed_symbol(p);
    match symbol.value {
        Ok(name) => {
            let after = p.forward(symbol.consumed);
            lemma_trace_over_bridges(after, p.position);
            if after.has_operator(Operator::ParenOpen) {
                lemma_call_nests(after.forward(1), p.position, name);
            }
        },
        Err(e) => {},
    }
}

/// The rest of a call spans, with what stands before it, exactly the tokens from the start of
/// the call on, and its spans nest.
pub proof fn lemma_call_nests(p: ParserView, start: int, symbol: SymbolView)
    requires
        parser_ordered(p),
        0 <= start < p.position,
    ensures
        continues_exactly(parsed_call(p, start, symbol), p, start),
    decreases p.rest(), 21nat,
{
    lemma_arguments_nest(p, Seq::empty(), start);
    let arguments = parsed_arguments(p, Seq::empty());
    match arguments.value {
        Ok(list) => {
            let close = p.forward(arguments.consumed);
            if close.has_operator(Operator::ParenClose) {
                let end = p.forward(1 + arguments.consumed);
                lemma_trace_over_bridges(end, start);
                assert forall|i: int| 0 <= i < list.len() implies covers(
                    end.trace_over(start),
                    (#[trigger] list[i]).trace(),
                ) && nested(list[i]) by {
                    lemma_bridges(p, start, start, close.position - 1, end.position - 1);
                }
            }
        },
        Err(e) => {},
    }
}

/// Whether an expression lies among the tokens from `start` to before the position.
pub open spec fn read_since(e: ExpressionView, p: ParserView, start: int) -> bool {
    nested(e) && covers(bridge(p, start, p.position - 1), e.trace())
}

/// The arguments of a call stop before the end-of-input token, their spans nest, and each
/// lies among the tokens from `start` to the last that was moved over.
pub proof fn lemma_arguments_nest(p: ParserView, list: Seq<ExpressionView>, start: int)
    requires
        parser_ordered(p),
        0 <= start < p.position,
        forall|i: int| 0 <= i < list.len() ==> read_since(#[trigger] list[i], p, start),
    ensures
        fits(parsed_arguments(p, list), p),
        parsed_arguments(p, list).value matches Ok(all) ==> forall|i: int|
            0 <= i < all.len() ==> read_since(
                #[trigger] all[i],
                p.forward(parsed_arguments(p, list).consumed),
                start,
            ),
    decreases p.rest(), 20nat,
{
    if !p.is_eof() && !p.has_operator(Operator::ParenClose) {
        lemma_binary_nests(p, LOOSEST_TIER as nat);
        let first = parsed_binary(p, LOOSEST_TIER as nat);
        match first.value {
            Ok(argument) => {
                let more = list.push(argument);
                let after = p.forward(first.consumed);
                lemma_bridges(p, start, p.position - 1, p.position, after.position - 1);
                assert forall|i: int| 0 <= i < more.len() implies read_since(
                    #[trigger] more[i],
                    after,
                    start,
                ) by {
                    if i < list.len() {
                        assert(more[i] == list[i]);
                        assert(read_since(list[i], p, start));
                    }
                }
                if after.has_operator(Operator::Comma) {
                    let next = p.forward(first.consumed + 1);
                    lemma_bridges(p, start, start, after.position - 1, next.position - 1);
                    assert forall|i: int| 0 <= i < more.len() implies read_since(
                        #[trigger] more[i],
                        next,
                        start,
                    ) by {
                        assert(read_since(more[i], after, start));
                    }
                    lemma_arguments_nest(next, more, start);
                }
            },
            Err(e) => {},
        }
    }
}

/// The tokens of a source text lie in the text's buffer in the order of the text, so a parser
/// at any of them is one of which the laws of this module speak.
pub proof fn lemma_source_tokens_are_ordered(src: SourceFileView, position: int)
    requires
        0 <= position < tokens_of(src).len(),
    ensures
        parser_ordered(ParserView { file: src, tokens: tokens_of(src), position }),
{
    let tokens = tokens_of(src);
    let p = ParserView { file: src, tokens, position };
    lemma_last_token_ends_the_text(src);
    assert forall|k: int| 0 <= k < tokens.len() implies trace_in(
        (#[trigger] tokens[k]).trace,
        frame_of(p),
    ) by {
        lemma_tokens_spell(src, k);
    }
    assert forall|i: int, j: int| 0 <= i < j < tokens.len() implies (#[trigger] tokens[i]).trace.end
        <= (#[trigger] tokens[j]).trace.start by {
        lemma_tokens_ordered(src, i, j);
    }
}

/// Among tokens in the order of their text, the expression that the expression rule builds
/// spans exactly the tokens that it was read from, and its spans nest: the span of a binary
/// operation is the union of the spans of its operands, and the span of every other composite
/// expression covers the spans of the expressions in it.
pub proof fn lemma_expression_nests(p: ParserView)
    requires
        parser_ordered(p),
    ensures
        spans_exactly(parsed_expression(p), p),
{
    reveal(parsed_expression);
    lemma_binary_nests(p, LOOSEST_TIER as nat);
}

} // verus!
