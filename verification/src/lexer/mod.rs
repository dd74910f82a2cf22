//! From source text to tokens.

use std::rc::Rc;
use vstd::prelude::*;
use crate::file::source_file::SourceFile;
use crate::lexer::lexer::Lexer;
use crate::lexer::scan::{all_representable, tokens_of};
use crate::lexer::token::{token_views, Token, TokenDataView};

pub mod builder;
pub mod keyword;
pub mod laws;
pub mod lexer;
pub mod scan;
pub mod text;
pub mod token;

verus! {

/// The tokens of `file`, closed by the end-of-input token. The integer literals of the text
/// must fit their types.
pub fn tokenize(file: Rc<SourceFile>) -> (r: Vec<Token>)
    requires
        all_representable(tokens_of(file@)),
    ensures
        token_views(r@) == tokens_of(file@),
        r@.len() > 0,
        r@.last()@.data == TokenDataView::EOF,
        forall|k: int| 0 <= k < r@.len() - 1 ==> (#[trigger] r@[k])@.data != TokenDataView::EOF,
{
    Lexer::new(file).tokenize()
}

/// The tokens of `file`, closed by the end-of-input token, or `None` where an integer literal
/// of the text does not fit its type.
pub fn try_tokenize(file: Rc<SourceFile>) -> (r: Option<Vec<Token>>)
    ensures
        r is Some <==> all_representable(tokens_of(file@)),
        r matches Some(tokens) ==> token_views(tokens@) == tokens_of(file@),
{
    Lexer::new(file).try_tokenize()
}

} // verus!
