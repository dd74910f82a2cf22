use vstd::prelude::*;
use crate::lexer::text::{collect_chars, spells};

verus! {

/// The reserved words of the language.
#[derive(Debug, PartialEq, Eq, Structural, Clone, Copy, Hash)]
pub enum Keyword {
    Let,
    Mut,
    Fun,
    Return,
    Ref,
    Deref,
    For,
    While,
    Unless,
    Else,
    Struct,
    Impl,
    Sizeof,
    As,
    Public,
    Until,
    If,
    Unit,
}

/// The reserved word that `text` spells, if it spells one. The table has one entry for each
/// word, and the comparison is exact: case matters and nothing may follow the word.
pub open spec fn keyword_of(text: Seq<char>) -> Option<Keyword> {
    if text == "let"@ {
        Some(Keyword::Let)
    } else if text == "mut"@ {
        Some(Keyword::Mut)
    } else if text == "fun"@ {
        Some(Keyword::Fun)
    } else if text == "return"@ {
        Some(Keyword::Return)
    } else if text == "ref"@ {
        Some(Keyword::Ref)
    } else if text == "deref"@ {
        Some(Keyword::Deref)
    } else if text == "for"@ {
        Some(Keyword::For)
    } else if text == "while"@ {
        Some(Keyword::While)
    } else if text == "unless"@ {
        Some(Keyword::Unless)
    } else if text == "until"@ {
        Some(Keyword::Until)
    } else if text == "if"@ {
        Some(Keyword::If)
    } else if text == "else"@ {
        Some(Keyword::Else)
    } else if text == "struct"@ {
        Some(Keyword::Struct)
    } else if text == "impl"@ {
        Some(Keyword::Impl)
    } else if text == "sizeof"@ {
        Some(Keyword::Sizeof)
    } else if text == "as"@ {
        Some(Keyword::As)
    } else if text == "pub"@ {
        Some(Keyword::Public)
    } else if text == "unit"@ {
        Some(Keyword::Unit)
    } else {
        None
    }
}

/// The reserved word spelled by the `n` characters of `chars` that start at `start`.
pub(crate) fn keyword_at(chars: &Vec<char>, start: usize, n: usize) -> (r: Option<Keyword>)
    requires
        start + n <= chars@.len(),
    ensures
        r == keyword_of(chars@.subrange(start as int, start + n)),
{
    if spells(chars, start, n, "let") {
        Some(Keyword::Let)
    } else if spells(chars, start, n, "mut") {
        Some(Keyword::Mut)
    } else if spells(chars, start, n, "fun") {
        Some(Keyword::Fun)
    } else if spells(chars, start, n, "return") {
        Some(Keyword::Return)
    } else if spells(chars, start, n, "ref") {
        Some(Keyword::Ref)
    } else if spells(chars, start, n, "deref") {
        Some(Keyword::Deref)
    } else if spells(chars, start, n, "for") {
        Some(Keyword::For)
    } else if spells(chars, start, n, "while") {
        Some(Keyword::While)
    } else if spells(chars, start, n, "unless") {
        Some(Keyword::Unless)
    } else if spells(chars, start, n, "until") {
        Some(Keyword::Until)
    } else if spells(chars, start, n, "if") {
        Some(Keyword::If)
    } else if spells(chars, start, n, "else") {
        Some(Keyword::Else)
    } else if spells(chars, start, n, "struct") {
        Some(Keyword::Struct)
    } else if spells(chars, start, n, "impl") {
        Some(Keyword::Impl)
    } else if spells(chars, start, n, "sizeof") {
        Some(Keyword::Sizeof)
    } else if spells(chars, start, n, "as") {
        Some(Keyword::As)
    } else if spells(chars, start, n, "pub") {
        Some(Keyword::Public)
    } else if spells(chars, start, n, "unit") {
        Some(Keyword::Unit)
    } else {
        None
    }
}

impl Keyword {
    /// The reserved word that `txt` spells, or `None` where it spells none.
    pub fn parse(txt: &str) -> (r: Option<Keyword>)
        ensures
            r == keyword_of(txt@),
    {
        let chars = collect_chars(txt);
        assert(chars@.subrange(0, chars@.len() as int) =~= txt@);
        keyword_at(&chars, 0, chars.len())
    }
}

} // verus!
