use vstd::prelude::*;
use crate::file::source_file::SourceFileView;
use crate::file::trace::{cover, TraceView};
use crate::lexer::keyword::Keyword;
use crate::lexer::token::{Operator, TokenDataView, TokenView};
use crate::parser::ast::data::TypeView;
use crate::parser::ast::{views, SymbolView};
use crate::parser::error::{ParserError, ParserErrorView};

verus! {

/// The mathematical value of a `Parser`: the buffer that the tokens came from, the tokens,
/// and the position of the token that is read next.
pub struct ParserView {
    pub file: SourceFileView,
    pub tokens: Seq<TokenView>,
    pub position: int,
}

/// What a grammar rule finds at a position: the number of tokens that it moved over, and the
/// piece of the tree that it built or the failure that it met.
pub struct Parsed<T> {
    pub consumed: nat,
    pub value: Result<T, ParserErrorView>,
}

/// The rule built `value` over `consumed` tokens.
pub open spec fn done<T>(consumed: nat, value: T) -> Parsed<T> {
    Parsed { consumed, value: Ok(value) }
}

/// The rule met `error` after `consumed` tokens.
pub open spec fn fail<T>(consumed: nat, error: ParserErrorView) -> Parsed<T> {
    Parsed { consumed, value: Err(error) }
}

impl<T> Parsed<T> {
    /// The same outcome, met after `n` tokens more.
    pub open spec fn after(self, n: nat) -> Parsed<T> {
        Parsed { consumed: self.consumed + n, value: self.value }
    }
}

/// What an executable rule owes its caller: it moved over as many tokens as the grammar says,
/// and returns the value or the failure that the grammar gives.
pub open spec fn agrees<T: View>(
    before: ParserView,
    after: ParserView,
    r: Result<T, ParserError>,
    expected: Parsed<T::V>,
) -> bool {
    &&& after == before.forward(expected.consumed)
    &&& match r {
        Ok(v) => expected.value == Ok::<T::V, ParserErrorView>(v@),
        Err(e) => expected.value == Err::<T::V, ParserErrorView>(e@),
    }
}

/// `agrees` for a rule that may find that it does not apply.
pub open spec fn agrees_optional<T: View>(
    before: ParserView,
    after: ParserView,
    r: Result<Option<T>, ParserError>,
    expected: Parsed<Option<T::V>>,
) -> bool {
    &&& after == before.forward(expected.consumed)
    &&& match r {
        Ok(Some(v)) => expected.value == Ok::<Option<T::V>, ParserErrorView>(Some(v@)),
        Ok(None) => expected.value == Ok::<Option<T::V>, ParserErrorView>(None),
        Err(e) => expected.value == Err::<Option<T::V>, ParserErrorView>(e@),
    }
}

/// `agrees` for a rule that builds a list.
pub open spec fn agrees_list<T: View>(
    before: ParserView,
    after: ParserView,
    r: Result<Vec<T>, ParserError>,
    expected: Parsed<Seq<T::V>>,
) -> bool {
    &&& after == before.forward(expected.consumed)
    &&& match r {
        Ok(v) => expected.value == Ok::<Seq<T::V>, ParserErrorView>(views(v@)),
        Err(e) => expected.value == Err::<Seq<T::V>, ParserErrorView>(e@),
    }
}

impl ParserView {
    /// The token sequence is not empty and ends with the end-of-input token, and the position
    /// lies within it or just behind it.
    pub open spec fn well_formed(self) -> bool {
        &&& self.tokens.len() > 0
        &&& self.tokens.last().data == TokenDataView::EOF
        &&& 0 <= self.position <= self.tokens.len()
    }

    /// The token at `i`, where positions before the first token count as the first and
    /// positions behind the last token as the last.
    pub open spec fn token_at(self, i: int) -> TokenView {
        if i < 0 {
            self.tokens[0]
        } else if i < self.tokens.len() {
            self.tokens[i]
        } else {
            self.tokens[self.tokens.len() - 1]
        }
    }

    /// The token that is read next.
    pub open spec fn current(self) -> TokenView {
        self.token_at(self.position)
    }

    /// The state after moving over `n` tokens, but not beyond the end of the sequence.
    pub open spec fn forward(self, n: nat) -> ParserView {
        ParserView {
            file: self.file,
            tokens: self.tokens,
            position: if self.position + n <= self.tokens.len() {
                self.position + n
            } else {
                self.tokens.len() as int
            },
        }
    }

    /// The state one token back.
    pub open spec fn back(self) -> ParserView {
        ParserView { file: self.file, tokens: self.tokens, position: self.position - 1 }
    }

    /// The number of tokens from the position on.
    pub open spec fn rest(self) -> nat {
        if self.position < self.tokens.len() {
            (self.tokens.len() - self.position) as nat
        } else {
            0
        }
    }

    /// Whether the end-of-input token is read next.
    pub open spec fn is_eof(self) -> bool {
        self.current().data == TokenDataView::EOF
    }

    /// Whether the operator `op` is read next.
    pub open spec fn has_operator(self, op: Operator) -> bool {
        self.current().data == TokenDataView::Operator(op)
    }

    /// Whether the reserved word `word` is read next.
    pub open spec fn has_keyword(self, word: Keyword) -> bool {
        self.current().data == TokenDataView::Keyword(word)
    }

    /// Whether an identifier is read next.
    pub open spec fn has_identifier(self) -> bool {
        self.current().data is Identifier
    }

    /// Whether the identifier that is read next spells `name`.
    pub open spec fn has_name(self, name: Seq<char>) -> bool {
        self.current().data == TokenDataView::Identifier(name)
    }

    /// The smallest span of the parser's buffer that covers the token at `start` and the token
    /// that is read next.
    pub open spec fn trace_from(self, start: int) -> TraceView {
        cover(self.file, self.token_at(start).trace, self.current().trace)
    }

    /// The smallest span of the parser's buffer that covers the token at `start` and the last
    /// token before the position: the extent of a construct that began at `start` and was
    /// just read to its end.
    pub open spec fn trace_over(self, start: int) -> TraceView {
        cover(self.file, self.token_at(start).trace, self.token_at(self.position - 1).trace)
    }
}

/// The rule that takes the token `data`: it moves over the token where it is read next, and
/// fails on the token that is read next where it is another.
pub open spec fn parsed_token(p: ParserView, data: TokenDataView) -> Parsed<()> {
    if p.current().data == data {
        done(1, ())
    } else {
        fail(0, ParserErrorView::UnexpectedToken(p.current()))
    }
}

/// The rule that takes an identifier.
pub open spec fn parsed_identifier(p: ParserView) -> Parsed<Seq<char>> {
    match p.current().data {
        TokenDataView::Identifier(name) => done(1, name),
        _ => fail(0, ParserErrorView::ExpectedIdentifier(p.current().trace)),
    }
}

/// The rule that takes any operator together with the token behind it. Where another token
/// is read next, it moves over that token and fails.
pub open spec fn parsed_operator(p: ParserView) -> Parsed<Operator> {
    match p.current().data {
        TokenDataView::Operator(op) => done(2, op),
        _ => fail(1, ParserErrorView::ExpectedAnyOperator(p.current().trace)),
    }
}

/// The rule that takes the operator `op`.
pub open spec fn expected_operator(p: ParserView, op: Operator) -> Parsed<()> {
    if p.has_operator(op) {
        done(1, ())
    } else {
        fail(0, ParserErrorView::ExpectedOperator(op, p.current().trace))
    }
}

/// The rule that takes the reserved word `word`.
pub open spec fn expected_keyword(p: ParserView, word: Keyword) -> Parsed<()> {
    if p.has_keyword(word) {
        done(1, ())
    } else {
        fail(0, ParserErrorView::ExpectedKeyword(word, p.current().trace))
    }
}

/// The outcome `value` of a construct that must be closed by the operator `op` at `p`, which
/// lies `consumed` tokens behind the construct's start.
pub open spec fn closed_by<T>(p: ParserView, op: Operator, consumed: nat, value: T) -> Parsed<T> {
    if p.has_operator(op) {
        done(consumed + 1, value)
    } else {
        fail(consumed, ParserErrorView::ExpectedOperator(op, p.current().trace))
    }
}

/// The segments of a symbol that follow `chain`, each behind a `::`.
pub open spec fn symbol_segments(p: ParserView, chain: Seq<Seq<char>>) -> Parsed<Seq<Seq<char>>>
    decreases p.rest(),
    when p.well_formed()
{
    if p.has_operator(Operator::DoubleColon) {
        match parsed_identifier(p.forward(1)).value {
            Ok(name) => symbol_segments(p.forward(2), chain.push(name)).after(2),
            Err(e) => fail(1, e),
        }
    } else {
        done(0, chain)
    }
}

/// The rule that takes a symbol: an identifier, or several joined by `::`. The last segment is
/// the name, and those before it are the module path, outermost first.
#[verifier::opaque]
pub open spec fn parsed_symbol(p: ParserView) -> Parsed<SymbolView> {
    match parsed_identifier(p).value {
        Ok(first) => {
            let segments = symbol_segments(p.forward(1), seq![first]);
            match segments.value {
                Ok(chain) => done(
                    1 + segments.consumed,
                    SymbolView { explicit_namespace: chain.drop_last(), identifier: chain.last() },
                ),
                Err(e) => fail(1 + segments.consumed, e),
            }
        },
        Err(e) => fail(0, e),
    }
}

/// The rule that takes a type: `ref[T]` is a reference to `T`, `[T]` is an array of `T`, a
/// name is the type of that name, and a name with `<T1, T2, ...>` behind it is a template
/// applied to those types.
pub open spec fn parsed_type(p: ParserView) -> Parsed<TypeView>
    decreases p.rest(), 1nat,
    when p.well_formed()
{
    if p.has_keyword(Keyword::Ref) {
        parsed_bracketed(p.forward(1), true).after(1)
    } else if p.has_operator(Operator::BracketOpen) {
        parsed_bracketed(p, false)
    } else {
        match p.current().data {
            TokenDataView::Identifier(name) => {
                if p.forward(1).has_operator(Operator::Less) {
                    parsed_template(p.forward(2), name).after(2)
                } else {
                    done(1, TypeView::Type(name))
                }
            },
            _ => fail(0, ParserErrorView::UnexpectedToken(p.current())),
        }
    }
}

/// The rule of a type in square brackets: `[`, a type and `]`. It is a reference to the type
/// where `reference` says so, and an array of the type otherwise.
pub open spec fn parsed_bracketed(p: ParserView, reference: bool) -> Parsed<TypeView>
    decreases p.rest(), 0nat,
    when p.well_formed()
{
    if !p.has_operator(Operator::BracketOpen) {
        fail(0, ParserErrorView::ExpectedOperator(Operator::BracketOpen, p.current().trace))
    } else {
        let inner = parsed_type(p.forward(1));
        match inner.value {
            Ok(ty) => closed_by(
                p.forward(1 + inner.consumed),
                Operator::BracketClose,
                1 + inner.consumed,
                if reference {
                    TypeView::Reference(Box::new(ty))
                } else {
                    TypeView::Array(Box::new(ty))
                },
            ),
            Err(e) => fail(1 + inner.consumed, e),
        }
    }
}

/// The rest of a template named `base`, from behind its `<`: the argument types and the
/// closing `>`.
pub open spec fn parsed_template(p: ParserView, base: Seq<char>) -> Parsed<TypeView>
    decreases p.rest(), 3nat,
    when p.well_formed()
{
    let arguments = type_arguments(p, Seq::empty());
    match arguments.value {
        Ok(types) => closed_by(
            p.forward(arguments.consumed),
            Operator::Greater,
            arguments.consumed,
            TypeView::Template { base, template_arguments: types },
        ),
        Err(e) => fail(arguments.consumed, e),
    }
}

/// The types of a template's argument list that follow `types`, separated by commas, up to
/// the closing `>`, which is not taken.
pub open spec fn type_arguments(p: ParserView, types: Seq<TypeView>) -> Parsed<Seq<TypeView>>
    decreases p.rest(), 2nat,
    when p.well_formed()
{
    if !p.has_operator(Operator::Greater) && !p.is_eof() {
        let first = parsed_type(p);
        match first.value {
            Ok(ty) => {
                if p.forward(first.consumed).has_operator(Operator::Comma) {
                    type_arguments(p.forward(first.consumed + 1), types.push(ty)).after(
                        first.consumed + 1,
                    )
                } else {
                    done(first.consumed, types.push(ty))
                }
            },
            Err(e) => fail(first.consumed, e),
        }
    } else {
        done(0, types)
    }
}

} // verus!
