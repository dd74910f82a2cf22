use std::ops::Range;
use std::rc::Rc;
use vstd::prelude::*;
use crate::file::identifier::{Identifier, Namespace};
use crate::file::source_file::{share, SourceFile};
use crate::file::trace::{Trace, TraceView};
use crate::lexer::keyword::Keyword;
use crate::lexer::token::{token_views, Operator, Token, TokenData, TokenDataView};
use crate::parser::ast::data::{lemma_template_view, TypeView, UnvalidatedType};
use crate::parser::ast::{views, UnvalidatedSymbol};
use crate::parser::cursor::{
    agrees, agrees_list, expected_keyword, expected_operator, parsed_identifier, parsed_operator,
    parsed_bracketed, parsed_symbol, parsed_template, parsed_token, parsed_type, symbol_segments,
    type_arguments, ParserView,
};
use crate::parser::ast::top_level::{TopLevelView, UnvalidatedTopLevel};
use crate::parser::error::{ParserError, ParserErrorView, ParserResult};
use crate::parser::modules::top_level::{
    lemma_item_moves, parsed_file, parsed_program, parsed_top_level, TopLevelParser,
};

verus! {

/// A cursor over a token sequence: the tokens, the buffer that they came from, and the
/// position of the token that is read next. The sequence ends with the end-of-input token,
/// which is read at every position from the last one on.
pub struct Parser {
    source: Vec<Token>,
    file: Rc<SourceFile>,
    position: usize,
}

impl View for Parser {
    type V = ParserView;

    closed spec fn view(&self) -> ParserView {
        ParserView {
            file: self.file@,
            tokens: token_views(self.source@),
            position: self.position as int,
        }
    }
}

impl Parser {
    #[verifier::type_invariant]
    spec fn valid(&self) -> bool {
        &&& self.source@.len() > 0
        &&& self.source@.last()@.data == TokenDataView::EOF
        &&& self.position <= self.source@.len()
    }

    /// A cursor at the first of `tokens`, which must end with the end-of-input token.
    pub fn new(file: Rc<SourceFile>, tokens: Vec<Token>) -> (r: Self)
        requires
            tokens@.len() > 0,
            tokens@.last()@.data == TokenDataView::EOF,
        ensures
            r@ == (ParserView { file: file@, tokens: token_views(tokens@), position: 0 }),
            r@.well_formed(),
    {
        Parser { source: tokens, file, position: 0 }
    }

    /// The token that is read next.
    pub fn curr(&self) -> (r: &Token)
        ensures
            r@ == self@.current(),
            self@.well_formed(),
    {
        proof {
            use_type_invariant(self);
        }
        let last: usize = self.source.len() - 1;
        if self.position < last {
            &self.source[self.position]
        } else {
            &self.source[last]
        }
    }

    /// Moves over one token, but not beyond the end of the sequence, and returns the token
    /// that is read next then.
    pub fn advance(&mut self) -> (r: &Token)
        ensures
            final(self)@ == old(self)@.forward(1),
            r@ == final(self)@.current(),
            final(self)@.well_formed(),
    {
        proof {
            use_type_invariant(&*self);
        }
        if self.position < self.source.len() {
            self.position = self.position + 1;
        }
        self.curr()
    }

    /// Moves one token back.
    pub fn rollback(&mut self)
        requires
            old(self)@.position > 0,
        ensures
            final(self)@ == old(self)@.back(),
            final(self)@.well_formed(),
    {
        proof {
            use_type_invariant(&*self);
        }
        self.position = self.position - 1;
    }

    /// The position of the token that is read next.
    pub fn position(&self) -> (r: usize)
        ensures
            r == self@.position,
            self@.well_formed(),
    {
        proof {
            use_type_invariant(self);
        }
        self.position
    }

    /// A span over `range` of the buffer that the tokens came from.
    pub fn trace(&self, range: Range<usize>) -> (r: Trace)
        ensures
            r@ == (TraceView { source: self@.file, start: range.start as int, end: range.end as int }),
    {
        Trace { source: share(&self.file), range }
    }

    fn token(&self, index: usize) -> (r: &Token)
        ensures
            r@ == self@.token_at(index as int),
    {
        proof {
            use_type_invariant(self);
        }
        let last: usize = self.source.len() - 1;
        if index < last {
            &self.source[index]
        } else {
            &self.source[last]
        }
    }

    fn cover(&self, a: &Trace, b: &Trace) -> (r: Trace)
        ensures
            r@ == crate::file::trace::cover(self@.file, a@, b@),
    {
        let start: usize = if a.range.start <= b.range.start {
            a.range.start
        } else {
            b.range.start
        };
        let end: usize = if a.range.end >= b.range.end {
            a.range.end
        } else {
            b.range.end
        };
        self.trace(start..end)
    }

    /// The smallest span that covers the token at `token_index` and the token that is read
    /// next. An index behind the last token counts as the last token's.
    pub fn trace_from(&self, token_index: usize) -> (r: Trace)
        ensures
            r@ == self@.trace_from(token_index as int),
    {
        self.cover(&self.token(token_index).1, &self.curr().1)
    }

    /// The smallest span that covers the token at `token_index` and the last token before the
    /// position: the extent of a construct that began at `token_index` and was just read to its
    /// end.
    pub fn trace_over(&self, token_index: usize) -> (r: Trace)
        ensures
            r@ == self@.trace_over(token_index as int),
    {
        proof {
            use_type_invariant(self);
        }
        let previous: usize = if self.position > 0 {
            self.position - 1
        } else {
            0
        };
        self.cover(&self.token(token_index).1, &self.token(previous).1)
    }

    /// Whether the end-of-input token is read next.
    pub fn is_eof(&self) -> (r: bool)
        ensures
            r == self@.is_eof(),
            self@.well_formed(),
    {
        self.curr().0.is_eof()
    }

    /// Takes the token `tok`: moves over it where it is read next, and fails otherwise.
    pub fn consume_tok(&mut self, tok: TokenData) -> (r: ParserResult<()>)
        ensures
            agrees(old(self)@, final(self)@, r, parsed_token(old(self)@, tok@)),
            final(self)@.well_formed(),
    {
        if self.curr().0.same_as(&tok) {
            self.advance();
            Ok(())
        } else {
            Err(ParserError::UnexpectedToken(self.curr().clone()))
        }
    }

    /// Whether an identifier is read next.
    pub fn has_identifier(&mut self) -> (r: bool)
        ensures
            r == old(self)@.has_identifier(),
            final(self)@ == old(self)@,
            final(self)@.well_formed(),
    {
        match &self.curr().0 {
            TokenData::Identifier(_) => true,
            _ => false,
        }
    }

    /// Whether the identifier that is read next spells `name`.
    pub fn has_name(&self, name: &str) -> (r: bool)
        ensures
            r == self@.has_name(name@),
            self@.well_formed(),
    {
        match &self.curr().0 {
            TokenData::Identifier(ident) => {
                let same = crate::lexer::text::same_text(ident.0.as_str(), name);
                same
            },
            _ => false,
        }
    }

    /// Takes an identifier.
    pub fn consume_identifier(&mut self) -> (r: ParserResult<Identifier>)
        ensures
            agrees(old(self)@, final(self)@, r, parsed_identifier(old(self)@)),
            final(self)@.well_formed(),
    {
        let found = match &self.curr().0 {
            TokenData::Identifier(ident) => Some(ident.clone()),
            _ => None,
        };
        match found {
            Some(ident) => {
                self.advance();
                Ok(ident)
            },
            None => Err(ParserError::ExpectedIdentifier(self.curr().1.clone())),
        }
    }

    /// Takes any operator together with the token behind it. Where another token is read
    /// next, it moves over that token and fails.
    pub fn consume_operator(&mut self) -> (r: ParserResult<Operator>)
        ensures
            final(self)@ == old(self)@.forward(parsed_operator(old(self)@).consumed),
            final(self)@.well_formed(),
            match r {
                Ok(op) => parsed_operator(old(self)@).value == Ok::<Operator, ParserErrorView>(op),
                Err(e) => parsed_operator(old(self)@).value == Err::<Operator, ParserErrorView>(
                    e@,
                ),
            },
    {
        let curr = self.curr().clone();
        self.advance();
        match curr.0 {
            TokenData::Operator(op) => {
                self.advance();
                Ok(op)
            },
            _ => Err(ParserError::ExpectedAnyOperator(curr.1)),
        }
    }

    /// Whether the operator `op` is read next.
    pub fn has_operator(&self, op: Operator) -> (r: bool)
        ensures
            r == self@.has_operator(op),
            self@.well_formed(),
    {
        match &self.curr().0 {
            TokenData::Operator(curr) => *curr == op,
            _ => false,
        }
    }

    /// Takes the operator `op`.
    pub fn expect_operator(&mut self, op: Operator) -> (r: ParserResult<()>)
        ensures
            agrees(old(self)@, final(self)@, r, expected_operator(old(self)@, op)),
            final(self)@.well_formed(),
    {
        if self.has_operator(op) {
            self.advance();
            Ok(())
        } else {
            Err(ParserError::ExpectedOperator(op, self.curr().1.clone()))
        }
    }

    /// Whether the reserved word `word` is read next.
    pub fn has_keyword(&self, word: Keyword) -> (r: bool)
        ensures
            r == self@.has_keyword(word),
            self@.well_formed(),
    {
        match &self.curr().0 {
            TokenData::Keyword(curr) => *curr == word,
            _ => false,
        }
    }

    /// Takes the reserved word `word`.
    pub fn expect_keyword(&mut self, word: Keyword) -> (r: ParserResult<()>)
        ensures
            agrees(old(self)@, final(self)@, r, expected_keyword(old(self)@, word)),
            final(self)@.well_formed(),
    {
        if self.has_keyword(word) {
            self.advance();
            Ok(())
        } else {
            Err(ParserError::ExpectedKeyword(word, self.curr().1.clone()))
        }
    }

    /// Takes a symbol: an identifier, or several joined by `::`.
    pub fn consume_symbol(&mut self) -> (r: ParserResult<UnvalidatedSymbol>)
        ensures
            agrees(old(self)@, final(self)@, r, parsed_symbol(old(self)@)),
            final(self)@.well_formed(),
    {
        proof {
            reveal(parsed_symbol);
        }
        let ghost start = self@;
        let identifier = self.consume_identifier()?;
        if !self.has_operator(Operator::DoubleColon) {
            let chain: Vec<Identifier> = Vec::new();
            proof {
                assert(seq![identifier@].drop_last() =~= views(chain@));
            }
            return Ok(UnvalidatedSymbol { explicit_namespace: Namespace { chain }, identifier });
        }
        let mut chain: Vec<Identifier> = Vec::new();
        let ghost first = identifier@;
        chain.push(identifier);
        let ghost mut moved: nat = 0;
        proof {
            assert(views(chain@) =~= seq![first]);
        }
        while self.has_operator(Operator::DoubleColon)
            invariant
                start == old(self)@,
                start.well_formed(),
                parsed_identifier(start).value == Ok::<Seq<char>, ParserErrorView>(first),
                self@ == start.forward(1 + moved),
                chain@.len() > 0,
                symbol_segments(start.forward(1), seq![first]) == symbol_segments(
                    self@,
                    views(chain@),
                ).after(moved),
            decreases self@.rest(),
        {
            proof {
                reveal(parsed_symbol);
            }
            self.advance();
            let ghost before = views(chain@);
            match self.consume_identifier() {
                Ok(name) => {
                    chain.push(name);
                    proof {
                        assert(views(chain@) =~= before.push(name@));
                        moved = moved + 2;
                    }
                },
                Err(e) => {
                    return Err(e);
                },
            }
        }
        let ghost all = views(chain@);
        let identifier = chain.pop().unwrap();
        proof {
            assert(views(chain@) =~= all.drop_last());
        }
        Ok(UnvalidatedSymbol { identifier, explicit_namespace: Namespace { chain } })
    }

    /// Takes the items of a whole file: top-level items up to the end of the input. The first
    /// failure ends the parse and is returned.
    pub fn parse(self) -> (r: ParserResult<Vec<UnvalidatedTopLevel>>)
        ensures
            match r {
                Ok(items) => parsed_file(self@).value == Ok::<Seq<TopLevelView>, ParserErrorView>(
                    views(items@),
                ),
                Err(e) => parsed_file(self@).value == Err::<Seq<TopLevelView>, ParserErrorView>(e@),
            },
    {
        let mut p = self;
        proof {
            use_type_invariant(&p);
        }
        let ghost start = p@;
        let mut items: Vec<UnvalidatedTopLevel> = Vec::new();
        let ghost mut moved: nat = 0;
        proof {
            assert(views(items@) =~= Seq::<TopLevelView>::empty());
        }
        while !p.is_eof()
            invariant
                start == self@,
                p@ == start.forward(moved),
                parsed_file(start) == parsed_program(p@, views(items@)).after(moved),
            decreases p@.rest(),
        {
            let ghost before = views(items@);
            let ghost here = p@;
            proof {
                lemma_item_moves(here);
            }
            match TopLevelParser::parse_top_level(&mut p) {
                Ok(Some(item)) => {
                    items.push(item);
                    proof {
                        assert(views(items@) =~= before.push(item@));
                        moved = moved + parsed_top_level(here).consumed;
                    }
                },
                Ok(None) => {
                    return Err(ParserError::UnexpectedToken(p.curr().clone()));
                },
                Err(e) => {
                    return Err(e);
                },
            }
        }
        Ok(items)
    }

    /// Takes a type.
    pub fn consume_type(&mut self) -> (r: ParserResult<UnvalidatedType>)
        ensures
            agrees(old(self)@, final(self)@, r, parsed_type(old(self)@)),
            final(self)@.well_formed(),
        decreases old(self)@.rest(), 1nat,
    {
        if self.has_keyword(Keyword::Ref) {
            self.advance();
            self.consume_bracketed(true)
        } else if self.has_operator(Operator::BracketOpen) {
            self.consume_bracketed(false)
        } else if self.has_identifier() {
            let ty = self.consume_identifier()?;
            if self.has_operator(Operator::Less) {
                self.advance();
                self.consume_template(ty)
            } else {
                Ok(UnvalidatedType::Type(ty))
            }
        } else {
            Err(ParserError::UnexpectedToken(self.curr().clone()))
        }
    }

    /// Takes a type in square brackets: a reference where `reference` says so, and an array
    /// otherwise.
    fn consume_bracketed(&mut self, reference: bool) -> (r: ParserResult<UnvalidatedType>)
        ensures
            agrees(old(self)@, final(self)@, r, parsed_bracketed(old(self)@, reference)),
            final(self)@.well_formed(),
        decreases old(self)@.rest(), 0nat,
    {
        proof {
            use_type_invariant(&*self);
        }
        self.expect_operator(Operator::BracketOpen)?;
        let ty = self.consume_type()?;
        self.expect_operator(Operator::BracketClose)?;
        if reference {
            Ok(UnvalidatedType::Reference(Box::new(ty)))
        } else {
            Ok(UnvalidatedType::Array(Box::new(ty)))
        }
    }

    /// Takes the rest of a template named `base`, from behind its `<`.
    fn consume_template(&mut self, base: Identifier) -> (r: ParserResult<UnvalidatedType>)
        ensures
            agrees(old(self)@, final(self)@, r, parsed_template(old(self)@, base@)),
            final(self)@.well_formed(),
        decreases old(self)@.rest(), 3nat,
    {
        proof {
            use_type_invariant(&*self);
        }
        let template_arguments = self.consume_type_arguments()?;
        self.expect_operator(Operator::Greater)?;
        proof {
            lemma_template_view(base, template_arguments);
        }
        Ok(UnvalidatedType::Template { base, template_arguments })
    }

    /// Takes the types of a template's argument list, up to the closing `>`.
    fn consume_type_arguments(&mut self) -> (r: ParserResult<Vec<UnvalidatedType>>)
        ensures
            agrees_list(old(self)@, final(self)@, r, type_arguments(old(self)@, Seq::empty())),
            final(self)@.well_formed(),
        decreases old(self)@.rest(), 2nat,
    {
        proof {
            use_type_invariant(&*self);
        }
        let ghost start = self@;
        let mut types: Vec<UnvalidatedType> = Vec::new();
        let ghost mut moved: nat = 0;
        let mut more: bool = true;
        proof {
            assert(views(types@) =~= Seq::<TypeView>::empty());
        }
        while more && !self.has_operator(Operator::Greater) && !self.is_eof()
            invariant
                start == old(self)@,
                self@.well_formed(),
                self@ == start.forward(moved),
                type_arguments(start, Seq::empty()) == (if more {
                    type_arguments(self@, views(types@)).after(moved)
                } else {
                    crate::parser::cursor::done(moved, views(types@))
                }),
            decreases self@.rest() + (if more { 1int } else { 0int }),
        {
            let ghost before = views(types@);
            let ghost here = self@;
            match self.consume_type() {
                Ok(argument) => {
                    types.push(argument);
                    proof {
                        assert(views(types@) =~= before.push(argument@));
                        moved = moved + parsed_type(here).consumed;
                    }
                },
                Err(e) => {
                    return Err(e);
                },
            }
            if self.has_operator(Operator::Comma) {
                self.advance();
                proof {
                    moved = moved + 1;
                }
            } else {
                more = false;
            }
        }
        Ok(types)
    }
}

} // verus!
