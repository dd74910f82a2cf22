//! From tokens to a syntax tree.

use std::rc::Rc;
use vstd::prelude::*;
use crate::file::source_file::{share, SourceFile, SourceFileView};
use crate::lexer::scan::{all_representable, lemma_tokens_closed, tokens_of};
use crate::lexer::token::token_views;
use crate::parser::ast::top_level::{TopLevelView, UnvalidatedTopLevel};
use crate::parser::ast::views;
use crate::parser::cursor::ParserView;
use crate::parser::error::{ParserErrorView, ParserResult};
use crate::parser::modules::top_level::parsed_file;
use crate::parser::parser::Parser;

pub mod ast;
pub mod cursor;
pub mod error;
pub mod extent;
pub mod modules;
pub mod nesting;
pub mod parser;

verus! {

/// The tree of a source text: the items that the grammar finds in the tokens of the text, or
/// the first failure that it meets.
pub open spec fn tree_of(src: SourceFileView) -> Result<Seq<TopLevelView>, ParserErrorView> {
    parsed_file(ParserView { file: src, tokens: tokens_of(src), position: 0 }).value
}

/// The mathematical value of what parsing returns.
pub open spec fn outcome(r: ParserResult<Vec<UnvalidatedTopLevel>>) -> Result<
    Seq<TopLevelView>,
    ParserErrorView,
> {
    match r {
        Ok(items) => Ok(views(items@)),
        Err(e) => Err(e@),
    }
}

/// Whether `r` is what parsing the text `src` returns: nothing where an integer literal of
/// the text does not fit its type, and the tree of the text otherwise.
pub open spec fn parses_to(src: SourceFileView, r: Option<ParserResult<Vec<UnvalidatedTopLevel>>>) -> bool {
    match r {
        Some(result) => all_representable(tokens_of(src)) && outcome(result) == tree_of(src),
        None => !all_representable(tokens_of(src)),
    }
}

/// Lexes and parses `file`: the items of the file in order, or the first failure, or `None`
/// where an integer literal of the text does not fit its type.
pub fn parse_file(file: Rc<SourceFile>) -> (r: Option<ParserResult<Vec<UnvalidatedTopLevel>>>)
    ensures
        parses_to(file@, r),
{
    proof {
        lemma_tokens_closed(file@, 0);
    }
    match crate::lexer::try_tokenize(share(&file)) {
        Some(tokens) => {
            proof {
                assert(token_views(tokens@).len() == tokens@.len());
                assert(token_views(tokens@).last() == tokens@.last()@);
            }
            Some(Parser::new(file, tokens).parse())
        },
        None => None,
    }
}

/// Parsing is a function of the source: two runs on sources with the same name and text
/// return the same, down to the spans.
pub proof fn lemma_same_source_same_tree(
    a: SourceFile,
    b: SourceFile,
    first: Option<ParserResult<Vec<UnvalidatedTopLevel>>>,
    second: Option<ParserResult<Vec<UnvalidatedTopLevel>>>,
)
    requires
        a@ == b@,
        parses_to(a@, first),
        parses_to(b@, second),
    ensures
        first is Some <==> second is Some,
        first is Some ==> outcome(first.unwrap()) == outcome(second.unwrap()),
{
}

} // verus!
