use vstd::prelude::*;
use crate::file::identifier::Identifier;
use crate::file::trace::{Trace, TraceView};
use crate::lexer::keyword::Keyword;

verus! {

/// The punctuation and operator symbols of the language.
#[derive(Debug, PartialEq, Eq, Structural, Clone, Copy, Hash)]
pub enum Operator {
    CurlyOpen,
    CurlyClose,
    ParenOpen,
    ParenClose,
    BracketOpen,
    BracketClose,
    BitNot,
    Not,
    Mod,
    Xor,
    BitAnd,
    Multiply,
    Minus,
    Plus,
    Divide,
    BitOr,
    Assign,
    Less,
    Greater,
    Colon,
    And,
    Or,
    BitShiftLeft,
    BitShiftRight,
    DoubleColon,
    ThickRightArrow,
    ThinRightArrow,
    ModAssigns,
    XorAssign,
    BitAndAssign,
    MultiplyAssign,
    MinusAssign,
    PlusAssign,
    DivideAssign,
    BitShiftLeftAssign,
    BitShiftRightAssign,
    AndAssign,
    OrAssign,
    LessEquals,
    GreaterEquals,
    NotEquals,
    Equals,
    Dot,
    Comma,
}

/// What a token is, with the value it carries. A floating-point literal carries its decimal
/// text, digits and decimal point without the suffix, so that no rounding happens here.
#[derive(Debug, PartialEq)]
pub enum TokenData {
    MacroIdentifier(Identifier),
    Identifier(Identifier),
    Operator(Operator),
    Keyword(Keyword),
    StringLiteral(String),
    BoolLiteral(bool),
    F32Literal(String),
    F64Literal(String),
    I32Literal(i32),
    I64Literal(i64),
    EOF,
}

/// The mathematical value of a `TokenData`. Integer literals are unbounded here, so that the
/// meaning of a source text is defined also where a literal does not fit its machine type.
pub enum TokenDataView {
    MacroIdentifier(Seq<char>),
    Identifier(Seq<char>),
    Operator(Operator),
    Keyword(Keyword),
    StringLiteral(Seq<char>),
    BoolLiteral(bool),
    F32Literal(Seq<char>),
    F64Literal(Seq<char>),
    I32Literal(int),
    I64Literal(int),
    EOF,
}

/// A token: what it is and where it stands.
#[derive(Debug, PartialEq)]
pub struct Token(pub TokenData, pub Trace);

/// The mathematical value of a `Token`.
pub struct TokenView {
    pub data: TokenDataView,
    pub trace: TraceView,
}

/// The views of a sequence of tokens, in order.
pub open spec fn token_views(tokens: Seq<Token>) -> Seq<TokenView> {
    Seq::new(tokens.len(), |i: int| tokens[i]@)
}

impl TokenDataView {
    /// Whether an integer literal fits the machine type that its kind names. Every other kind
    /// of token is representable.
    pub open spec fn representable(self) -> bool {
        match self {
            TokenDataView::I32Literal(v) => i32::MIN <= v <= i32::MAX,
            TokenDataView::I64Literal(v) => i64::MIN <= v <= i64::MAX,
            _ => true,
        }
    }
}

impl View for TokenData {
    type V = TokenDataView;

    open spec fn view(&self) -> TokenDataView {
        match self {
            TokenData::MacroIdentifier(i) => TokenDataView::MacroIdentifier(i@),
            TokenData::Identifier(i) => TokenDataView::Identifier(i@),
            TokenData::Operator(op) => TokenDataView::Operator(*op),
            TokenData::Keyword(word) => TokenDataView::Keyword(*word),
            TokenData::StringLiteral(s) => TokenDataView::StringLiteral(s@),
            TokenData::BoolLiteral(b) => TokenDataView::BoolLiteral(*b),
            TokenData::F32Literal(s) => TokenDataView::F32Literal(s@),
            TokenData::F64Literal(s) => TokenDataView::F64Literal(s@),
            TokenData::I32Literal(v) => TokenDataView::I32Literal(*v as int),
            TokenData::I64Literal(v) => TokenDataView::I64Literal(*v as int),
            TokenData::EOF => TokenDataView::EOF,
        }
    }
}

impl Clone for TokenData {
    fn clone(&self) -> (r: Self)
        ensures
            r == *self,
    {
        match self {
            TokenData::MacroIdentifier(i) => TokenData::MacroIdentifier(i.clone()),
            TokenData::Identifier(i) => TokenData::Identifier(i.clone()),
            TokenData::Operator(op) => TokenData::Operator(*op),
            TokenData::Keyword(word) => TokenData::Keyword(*word),
            TokenData::StringLiteral(s) => TokenData::StringLiteral(s.clone()),
            TokenData::BoolLiteral(b) => TokenData::BoolLiteral(*b),
            TokenData::F32Literal(s) => TokenData::F32Literal(s.clone()),
            TokenData::F64Literal(s) => TokenData::F64Literal(s.clone()),
            TokenData::I32Literal(v) => TokenData::I32Literal(*v),
            TokenData::I64Literal(v) => TokenData::I64Literal(*v),
            TokenData::EOF => TokenData::EOF,
        }
    }
}

impl TokenData {
    /// Whether this is the end-of-input marker.
    pub fn is_eof(&self) -> (r: bool)
        ensures
            r == (self@ == TokenDataView::EOF),
    {
        match self {
            TokenData::EOF => true,
            _ => false,
        }
    }

    /// Whether two token values are the same: of the same kind and carrying the same value.
    pub fn same_as(&self, other: &TokenData) -> (r: bool)
        ensures
            r == (self@ == other@),
    {
        match (self, other) {
            (TokenData::MacroIdentifier(a), TokenData::MacroIdentifier(b)) => a.0 == b.0,
            (TokenData::Identifier(a), TokenData::Identifier(b)) => a.0 == b.0,
            (TokenData::Operator(a), TokenData::Operator(b)) => *a == *b,
            (TokenData::Keyword(a), TokenData::Keyword(b)) => *a == *b,
            (TokenData::StringLiteral(a), TokenData::StringLiteral(b)) => *a == *b,
            (TokenData::BoolLiteral(a), TokenData::BoolLiteral(b)) => *a == *b,
            (TokenData::F32Literal(a), TokenData::F32Literal(b)) => *a == *b,
            (TokenData::F64Literal(a), TokenData::F64Literal(b)) => *a == *b,
            (TokenData::I32Literal(a), TokenData::I32Literal(b)) => *a == *b,
            (TokenData::I64Literal(a), TokenData::I64Literal(b)) => *a == *b,
            (TokenData::EOF, TokenData::EOF) => true,
            _ => false,
        }
    }
}

impl View for Token {
    type V = TokenView;

    open spec fn view(&self) -> TokenView {
        TokenView { data: self.0@, trace: self.1@ }
    }
}

impl Clone for Token {
    fn clone(&self) -> (r: Self)
        ensures
            r == *self,
    {
        Token(self.0.clone(), self.1.clone())
    }
}

impl std::ops::Deref for Token {
    type Target = TokenData;

    fn deref(&self) -> (r: &TokenData)
        ensures
            *r == self.0,
    {
        &self.0
    }
}

impl std::ops::DerefMut for Token {
    fn deref_mut(&mut self) -> (r: &mut TokenData)
        ensures
            *r == old(self).0,
            final(self).0 == *final(r),
            final(self).1 == old(self).1,
    {
        &mut self.0
    }
}

impl Token {
    /// What the token is.
    pub fn token(&self) -> (r: &TokenData)
        ensures
            *r == self.0,
    {
        &self.0
    }

    /// Where the token stands.
    pub fn trace(&self) -> (r: &Trace)
        ensures
            *r == self.1,
    {
        &self.1
    }
}

} // verus!
