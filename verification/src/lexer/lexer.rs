use std::rc::Rc;
use vstd::prelude::*;
use vstd::string::StrSliceExecFns;
use vstd::utf8::{encode_utf8, encode_utf8_decode_utf8, encode_utf8_valid_utf8};
use crate::file::identifier::Identifier;
use crate::file::source_file::{share, SourceFile, SourceFileView};
use crate::file::trace::Trace;
use crate::lexer::builder::{builder_append, builder_bytes, builder_finish, builder_start};
use crate::lexer::keyword::keyword_at;
use crate::lexer::scan::{
    all_representable, byte_offset, char_at, clamp, comment_len, block_run, dual_operator,
    eof_token, is_digit, is_whitespace, is_word_char, is_word_start, lemma_tokens_closed,
    line_run, number_dotted, number_run, remaining, scan_dual_operator, scan_number,
    scan_operator, scan_string, scan_token, scan_tri_operator, scan_word, single_operator, span,
    string_content, string_run, tokens_from, tri_operator, word_run, Lexeme,
};
use crate::lexer::text::{
    collect_chars, decimal, lemma_byte_offset_monotone, lemma_byte_offset_step,
    lemma_encode_concat, spells, utf8_width,
};
use crate::lexer::token::{token_views, Operator, Token, TokenData, TokenDataView, TokenView};

verus! {

/// A scanner over one source buffer. It holds a position in the buffer's text, counted in
/// characters. The position may lie beyond the end of the text, where a space is read.
#[derive(Debug)]
pub struct Lexer {
    file: Rc<SourceFile>,
    chars: Vec<char>,
    offsets: Vec<usize>,
    index: usize,
}

/// The mathematical value of a `Lexer`: the buffer and the position in it.
pub struct LexerView {
    pub file: SourceFileView,
    pub position: int,
}

/// What a recognizer owes its caller. Where a lexeme stands at the position, the recognizer
/// returns its token, spanning the lexeme, and moves past it. Where none stands there, it
/// returns nothing and does not move.
pub open spec fn recognized(
    before: LexerView,
    after: LexerView,
    r: Option<Token>,
    lexeme: Option<Lexeme>,
) -> bool {
    &&& after.file == before.file
    &&& match lexeme {
        Some(l) => {
            &&& r is Some
            &&& r.unwrap()@ == TokenView {
                data: l.data,
                trace: span(before.file, before.position, before.position + l.len),
            }
            &&& after.position == before.position + l.len
        },
        None => r is None && after.position == before.position,
    }
}

/// What scanning one token at a position gives.
pub enum Scanned {
    /// No token starts at the position.
    NoMatch,
    /// The token that starts at the position.
    Found(Token),
    /// An integer literal starts at the position, and its value does not fit its type.
    TooLarge,
}

/// What `Lexer::scan` owes its caller, for the lexeme that the recognizer in question finds.
pub open spec fn scanned(
    before: LexerView,
    after: LexerView,
    r: Scanned,
    lexeme: Option<Lexeme>,
) -> bool {
    &&& after.file == before.file
    &&& match lexeme {
        Some(l) => if l.data.representable() {
            &&& r matches Scanned::Found(t)
            &&& t@ == TokenView {
                data: l.data,
                trace: span(before.file, before.position, before.position + l.len),
            }
            &&& after.position == before.position + l.len
        } else {
            r is TooLarge && after.position == before.position
        },
        None => r is NoMatch && after.position == before.position,
    }
}

fn whitespace(c: char) -> (r: bool)
    ensures
        r == is_whitespace(c),
{
    ('\u{9}' <= c && c <= '\u{d}') || c == ' ' || c == '\u{85}' || c == '\u{a0}' || c
        == '\u{1680}' || ('\u{2000}' <= c && c <= '\u{200a}') || c == '\u{2028}' || c
        == '\u{2029}' || c == '\u{202f}' || c == '\u{205f}' || c == '\u{3000}'
}

fn digit(c: char) -> (r: bool)
    ensures
        r == is_digit(c),
{
    '0' <= c && c <= '9'
}

fn word_start(c: char) -> (r: bool)
    ensures
        r == is_word_start(c),
{
    ('a' <= c && c <= 'z') || ('A' <= c && c <= 'Z') || c == '_'
}

fn word_char(c: char) -> (r: bool)
    ensures
        r == is_word_char(c),
{
    word_start(c) || digit(c)
}

fn tri(a: char, b: char, c: char) -> (r: Option<Operator>)
    ensures
        r == tri_operator(a, b, c),
{
    if c != '=' || a != b {
        None
    } else if a == '<' {
        Some(Operator::BitShiftLeftAssign)
    } else if a == '>' {
        Some(Operator::BitShiftRightAssign)
    } else if a == '&' {
        Some(Operator::AndAssign)
    } else if a == '|' {
        Some(Operator::OrAssign)
    } else {
        None
    }
}

fn dual(a: char, b: char) -> (r: Option<Operator>)
    ensures
        r == dual_operator(a, b),
{
    match (a, b) {
        ('&', '&') => Some(Operator::And),
        ('|', '|') => Some(Operator::Or),
        ('<', '<') => Some(Operator::BitShiftLeft),
        ('>', '>') => Some(Operator::BitShiftRight),
        ('%', '=') => Some(Operator::ModAssigns),
        ('^', '=') => Some(Operator::XorAssign),
        ('&', '=') => Some(Operator::BitAndAssign),
        ('*', '=') => Some(Operator::MultiplyAssign),
        ('-', '=') => Some(Operator::MinusAssign),
        ('+', '=') => Some(Operator::PlusAssign),
        ('/', '=') => Some(Operator::DivideAssign),
        ('<', '=') => Some(Operator::LessEquals),
        ('>', '=') => Some(Operator::GreaterEquals),
        ('!', '=') => Some(Operator::NotEquals),
        ('=', '=') => Some(Operator::Equals),
        (':', ':') => Some(Operator::DoubleColon),
        ('=', '>') => Some(Operator::ThickRightArrow),
        ('-', '>') => Some(Operator::ThinRightArrow),
        _ => None,
    }
}

fn single(c: char) -> (r: Option<Operator>)
    ensures
        r == single_operator(c),
{
    match c {
        '{' => Some(Operator::CurlyOpen),
        '}' => Some(Operator::CurlyClose),
        '(' => Some(Operator::ParenOpen),
        ')' => Some(Operator::ParenClose),
        '[' => Some(Operator::BracketOpen),
        ']' => Some(Operator::BracketClose),
        '!' => Some(Operator::Not),
        '%' => Some(Operator::Mod),
        '^' => Some(Operator::Xor),
        '&' => Some(Operator::BitAnd),
        '*' => Some(Operator::Multiply),
        '-' => Some(Operator::Minus),
        '+' => Some(Operator::Plus),
        '/' => Some(Operator::Divide),
        '|' => Some(Operator::BitOr),
        '=' => Some(Operator::Assign),
        '<' => Some(Operator::Less),
        '>' => Some(Operator::Greater),
        '~' => Some(Operator::BitNot),
        '.' => Some(Operator::Dot),
        ',' => Some(Operator::Comma),
        ':' => Some(Operator::Colon),
        _ => None,
    }
}

impl View for Lexer {
    type V = LexerView;

    closed spec fn view(&self) -> LexerView {
        LexerView { file: self.file@, position: self.index as int }
    }
}

impl Lexer {
    #[verifier::type_invariant]
    spec fn well_formed(&self) -> bool {
        &&& self.chars@ == self.file.source@
        &&& self.offsets@.len() == self.chars@.len() + 1
        &&& forall|i: int|
            0 <= i <= self.chars@.len() ==> #[trigger] self.offsets@[i] == byte_offset(
                self.chars@,
                i,
            )
    }

    /// A scanner at the start of `source`.
    pub fn new(source: Rc<SourceFile>) -> (r: Self)
        ensures
            r@.file == source@,
            r@.position == 0,
    {
        let chars = collect_chars(source.source.as_str());
        let total: usize = source.source.as_str().as_bytes().len();
        let mut offsets: Vec<usize> = Vec::new();
        offsets.push(0);
        let mut at: usize = 0;
        let mut i: usize = 0;
        assert(chars@.take(0) =~= Seq::<char>::empty());
        while i < chars.len()
            invariant
                i <= chars@.len(),
                offsets@.len() == i + 1,
                at == byte_offset(chars@, i as int),
                total == encode_utf8(chars@).len(),
                forall|k: int| 0 <= k <= i ==> #[trigger] offsets@[k] == byte_offset(chars@, k),
            decreases chars@.len() - i,
        {
            let width: usize = utf8_width(chars[i]);
            proof {
                lemma_byte_offset_step(chars@, i as int);
                lemma_byte_offset_monotone(chars@, i + 1, chars@.len() as int);
            }
            at = at + width;
            offsets.push(at);
            i += 1;
        }
        Lexer { file: source, chars, offsets, index: 0 }
    }

    /// The character at the position, or a space at the end of the text.
    pub fn curr(&self) -> (c: char)
        ensures
            c == char_at(self@.file.source, self@.position),
    {
        proof {
            use_type_invariant(self);
        }
        if self.index < self.chars.len() {
            self.chars[self.index]
        } else {
            ' '
        }
    }

    /// The span of the `offset` characters that start at character position `from`, in bytes.
    /// Positions beyond the end of the text count as the end.
    pub fn trace_from(&self, from: usize, offset: usize) -> (r: Trace)
        ensures
            r@ == span(self@.file, from as int, from + offset),
    {
        proof {
            use_type_invariant(self);
        }
        let len: usize = self.chars.len();
        let a: usize = if from < len {
            from
        } else {
            len
        };
        let b: usize = if offset <= len - a {
            a + offset
        } else {
            len
        };
        Trace { source: share(&self.file), range: self.offsets[a]..self.offsets[b] }
    }

    /// The span of the `offset` characters that start at the position.
    pub fn trace(&self, offset: usize) -> (r: Trace)
        ensures
            r@ == span(self@.file, self@.position, self@.position + offset),
    {
        self.trace_from(self.index, offset)
    }

    /// Moves to the next character and returns the character that stands there.
    pub fn advance(&mut self) -> (c: char)
        requires
            old(self)@.position + 1 <= usize::MAX,
        ensures
            final(self)@.file == old(self)@.file,
            final(self)@.position == old(self)@.position + 1,
            c == char_at(final(self)@.file.source, final(self)@.position),
    {
        self.advance_by(1)
    }

    /// Moves `delta` characters on, also beyond the end of the text, and returns the character
    /// that stands there.
    pub fn advance_by(&mut self, delta: usize) -> (c: char)
        requires
            old(self)@.position + delta <= usize::MAX,
        ensures
            final(self)@.file == old(self)@.file,
            final(self)@.position == old(self)@.position + delta,
            c == char_at(final(self)@.file.source, final(self)@.position),
    {
        proof {
            use_type_invariant(&*self);
        }
        self.index = self.index + delta;
        self.curr()
    }

    /// The next `offset` characters, or those that are left where they are fewer. The
    /// scanner does not move. The position must not lie beyond the end of the text.
    pub fn slice(&mut self, offset: usize) -> (r: &str)
        requires
            old(self)@.position <= old(self)@.file.source.len(),
        ensures
            r@ == old(self)@.file.source.subrange(
                old(self)@.position,
                clamp(old(self)@.file.source, old(self)@.position + offset),
            ),
            final(self)@ == old(self)@,
    {
        proof {
            use_type_invariant(&*self);
        }
        let len: usize = self.chars.len();
        let upper: usize = if offset <= len - self.index {
            self.index + offset
        } else {
            len
        };
        self.file.source.as_str().substring_char(self.index, upper)
    }

    /// Whether a character is left at the position.
    pub fn not_eof(&mut self) -> (r: bool)
        ensures
            r == (old(self)@.position + 1 <= old(self)@.file.source.len()),
            old(self)@.file.source.len() <= usize::MAX,
            final(self)@ == old(self)@,
    {
        self.has_clearance(1)
    }

    /// Whether `i` characters are left from the position on. Beyond the end of the text not
    /// even none are left.
    pub fn has_clearance(&self, i: usize) -> (r: bool)
        ensures
            r == (self@.position + i <= self@.file.source.len()),
            self@.file.source.len() <= usize::MAX,
    {
        proof {
            use_type_invariant(self);
        }
        let len: usize = self.chars.len();
        self.index <= len && i <= len - self.index
    }

    /// Passes over the comment that starts at the position, if one starts there, and says
    /// whether one did.
    pub fn comment(&mut self) -> (r: bool)
        ensures
            final(self)@.file == old(self)@.file,
            match comment_len(old(self)@.file.source, old(self)@.position) {
                Some(n) => r && final(self)@.position == old(self)@.position + n,
                None => !r && final(self)@.position == old(self)@.position,
            },
    {
        proof {
            use_type_invariant(&*self);
        }
        if !self.has_clearance(2) {
            return false;
        }
        let len: usize = self.chars.len();
        let start: usize = self.index;
        let ghost s = self.chars@;
        if self.chars[start] != '/' {
            return false;
        }
        let opener: char = self.chars[start + 1];
        if opener == '/' {
            let mut i: usize = start + 2;
            while i < len && self.chars[i] != '\n'
                invariant
                    start + 2 <= i <= len,
                    len == s.len(),
                    s == self.chars@,
                    line_run(s, start + 2) == (i - start - 2) + line_run(s, i as int),
                decreases len - i,
            {
                i += 1;
            }
            self.index = i;
            true
        } else if opener == '*' {
            let mut i: usize = start + 2;
            let mut done: bool = false;
            while !done
                invariant
                    start + 2 <= i <= len,
                    len == s.len(),
                    s == self.chars@,
                    block_run(s, start + 2) == (i - start - 2) + (if done {
                        0
                    } else {
                        block_run(s, i as int)
                    }),
                decreases len - i + (if done { 0int } else { 1int }),
            {
                if i >= len {
                    done = true;
                } else if self.chars[i] == '*' && i + 1 < len && self.chars[i + 1] == '/' {
                    i += 2;
                    done = true;
                } else {
                    i += 1;
                }
            }
            self.index = i;
            true
        } else {
            false
        }
    }

    /// The word at the position: a reserved word, a boolean literal, an identifier or the name
    /// of a macro.
    pub fn identifier(&mut self) -> (r: Option<Token>)
        ensures
            recognized(
                old(self)@,
                final(self)@,
                r,
                scan_word(old(self)@.file.source, old(self)@.position),
            ),
    {
        proof {
            use_type_invariant(&*self);
        }
        if !word_start(self.curr()) {
            return None;
        }
        let len: usize = self.chars.len();
        let start: usize = self.index;
        let ghost s = self.chars@;
        let mut i: usize = start;
        while i < len && word_char(self.chars[i])
            invariant
                start <= i <= len,
                len == s.len(),
                s == self.chars@,
                word_run(s, start as int) == (i - start) + word_run(s, i as int),
            decreases len - i,
        {
            i += 1;
        }
        let n: usize = i - start;
        if i < len && self.chars[i] == '!' {
            let name = self.file.source.as_str().substring_char(start, i + 1).to_owned();
            let token = Token(
                TokenData::MacroIdentifier(Identifier(name)),
                self.trace_from(start, n + 1),
            );
            self.index = i + 1;
            return Some(token);
        }
        let data = match keyword_at(&self.chars, start, n) {
            Some(word) => TokenData::Keyword(word),
            None => {
                if spells(&self.chars, start, n, "true") {
                    TokenData::BoolLiteral(true)
                } else if spells(&self.chars, start, n, "false") {
                    TokenData::BoolLiteral(false)
                } else {
                    TokenData::Identifier(Identifier(self.file.source.as_str().substring_char(start, i).to_owned()))
                }
            },
        };
        let token = Token(data, self.trace_from(start, n));
        self.index = i;
        Some(token)
    }

    /// The string literal at the position.
    pub fn string(&mut self) -> (r: Option<Token>)
        ensures
            recognized(
                old(self)@,
                final(self)@,
                r,
                scan_string(old(self)@.file.source, old(self)@.position),
            ),
    {
        proof {
            use_type_invariant(&*self);
        }
        if self.curr() != '"' {
            return None;
        }
        let len: usize = self.chars.len();
        let start: usize = self.index;
        let ghost s = self.chars@;
        let mut b = builder_start();
        let ghost mut acc: Seq<char> = Seq::empty();
        let mut i: usize = start + 1;
        let mut done: bool = false;
        proof {
            assert(encode_utf8(acc) =~= Seq::<u8>::empty());
            assert(acc + string_content(s, i as int) =~= string_content(s, i as int));
        }
        while !done
            invariant
                start + 1 <= i <= len,
                len == s.len(),
                s == self.chars@,
                builder_bytes(b) == encode_utf8(acc),
                string_content(s, start + 1) == acc + (if done {
                    Seq::<char>::empty()
                } else {
                    string_content(s, i as int)
                }),
                string_run(s, start + 1) == (i - start - 1) + (if done {
                    0
                } else {
                    string_run(s, i as int)
                }),
            decreases len - i + (if done { 0int } else { 1int }),
        {
            let ghost before = acc;
            if i >= len {
                done = true;
            } else {
                let c: char = self.chars[i];
                if c == '"' {
                    i += 1;
                    done = true;
                } else if c == '\\' {
                    if i + 1 < len {
                        let escaped: char = self.chars[i + 1];
                        builder_append(&mut b, escaped);
                        proof {
                            acc = before.push(escaped);
                            lemma_encode_concat(before, seq![escaped]);
                            assert(before + seq![escaped] =~= acc);
                            assert(before + (seq![escaped] + string_content(s, i + 2)) =~= acc
                                + string_content(s, i + 2));
                        }
                        i += 2;
                    } else {
                        i += 1;
                        done = true;
                    }
                } else {
                    builder_append(&mut b, c);
                    proof {
                        acc = before.push(c);
                        lemma_encode_concat(before, seq![c]);
                        assert(before + seq![c] =~= acc);
                        assert(before + (seq![c] + string_content(s, i + 1)) =~= acc
                            + string_content(s, i + 1));
                    }
                    i += 1;
                }
            }
        }
        proof {
            assert(acc + Seq::<char>::empty() =~= acc);
            encode_utf8_valid_utf8(acc);
        }
        let text = match builder_finish(b) {
            Some(text) => {
                proof {
                    encode_utf8_decode_utf8(text@);
                    encode_utf8_decode_utf8(acc);
                }
                text
            },
            None => String::new(),
        };
        let token = Token(TokenData::StringLiteral(text), self.trace_from(start, i - start));
        self.index = i;
        Some(token)
    }

    /// The numeric literal at the position, or the finding that an integer literal stands
    /// there whose value does not fit its type.
    pub fn scan_number(&mut self) -> (r: Scanned)
        ensures
            scanned(
                old(self)@,
                final(self)@,
                r,
                scan_number(old(self)@.file.source, old(self)@.position),
            ),
    {
        proof {
            use_type_invariant(&*self);
        }
        let first: char = self.curr();
        if !(digit(first) || first == '.') {
            return Scanned::NoMatch;
        }
        let len: usize = self.chars.len();
        let start: usize = self.index;
        let ghost s = self.chars@;
        let mut i: usize = start;
        let mut has_dot: bool = false;
        let mut done: bool = false;
        while !done
            invariant
                start <= i <= len,
                len == s.len(),
                s == self.chars@,
                number_run(s, start as int, false) == (i - start) + (if done {
                    0
                } else {
                    number_run(s, i as int, has_dot)
                }),
                number_dotted(s, start as int, false) == (if done {
                    has_dot
                } else {
                    number_dotted(s, i as int, has_dot)
                }),
                !has_dot ==> forall|k: int| start <= k < i ==> is_digit(#[trigger] s[k]),
            decreases len - i + (if done { 0int } else { 1int }),
        {
            if i < len && self.chars[i] == '.' && !has_dot {
                has_dot = true;
                i += 1;
            } else if i < len && digit(self.chars[i]) {
                i += 1;
            } else {
                done = true;
            }
        }
        let n: usize = i - start;
        if has_dot && n == 1 {
            return Scanned::NoMatch;
        }
        let suffix: char = if i < len {
            self.chars[i]
        } else {
            ' '
        };
        if suffix == 'f' {
            let text = self.file.source.as_str().substring_char(start, i).to_owned();
            let token = Token(TokenData::F32Literal(text), self.trace_from(start, n + 1));
            self.index = i + 1;
            Scanned::Found(token)
        } else if suffix == 'd' {
            let text = self.file.source.as_str().substring_char(start, i).to_owned();
            let token = Token(TokenData::F64Literal(text), self.trace_from(start, n + 1));
            self.index = i + 1;
            Scanned::Found(token)
        } else if has_dot {
            let text = self.file.source.as_str().substring_char(start, i).to_owned();
            let token = Token(TokenData::F32Literal(text), self.trace_from(start, n));
            self.index = i;
            Scanned::Found(token)
        } else if suffix == 'L' {
            match decimal(&self.chars, start, i, 0x7fff_ffff_ffff_ffff) {
                Some(value) => {
                    let token = Token(
                        TokenData::I64Literal(value as i64),
                        self.trace_from(start, n + 1),
                    );
                    self.index = i + 1;
                    Scanned::Found(token)
                },
                None => Scanned::TooLarge,
            }
        } else {
            match decimal(&self.chars, start, i, 0x7fff_ffff) {
                Some(value) => {
                    let token = Token(TokenData::I32Literal(value as i32), self.trace_from(start, n));
                    self.index = i;
                    Scanned::Found(token)
                },
                None => Scanned::TooLarge,
            }
        }
    }

    /// The numeric literal at the position, where an integer literal there fits its type.
    pub fn number(&mut self) -> (r: Option<Token>)
        requires
            scan_number(old(self)@.file.source, old(self)@.position) matches Some(l)
                ==> l.data.representable(),
        ensures
            recognized(
                old(self)@,
                final(self)@,
                r,
                scan_number(old(self)@.file.source, old(self)@.position),
            ),
    {
        match self.scan_number() {
            Scanned::Found(token) => Some(token),
            _ => None,
        }
    }

    /// The one-character operator at the position.
    pub fn operator(&mut self) -> (r: Option<Token>)
        ensures
            recognized(
                old(self)@,
                final(self)@,
                r,
                scan_operator(old(self)@.file.source, old(self)@.position),
            ),
    {
        proof {
            use_type_invariant(&*self);
        }
        let len: usize = self.chars.len();
        if !self.has_clearance(1) {
            return None;
        }
        match single(self.chars[self.index]) {
            Some(op) => {
                let token = Token(TokenData::Operator(op), self.trace(1));
                self.index = self.index + 1;
                Some(token)
            },
            None => None,
        }
    }

    /// The two-character operator at the position.
    pub fn dual_operator(&mut self) -> (r: Option<Token>)
        ensures
            recognized(
                old(self)@,
                final(self)@,
                r,
                scan_dual_operator(old(self)@.file.source, old(self)@.position),
            ),
    {
        proof {
            use_type_invariant(&*self);
        }
        let len: usize = self.chars.len();
        if !self.has_clearance(2) {
            return None;
        }
        match dual(self.chars[self.index], self.chars[self.index + 1]) {
            Some(op) => {
                let token = Token(TokenData::Operator(op), self.trace(2));
                self.index = self.index + 2;
                Some(token)
            },
            None => None,
        }
    }

    /// The three-character operator at the position.
    pub fn tri_operator(&mut self) -> (r: Option<Token>)
        ensures
            recognized(
                old(self)@,
                final(self)@,
                r,
                scan_tri_operator(old(self)@.file.source, old(self)@.position),
            ),
    {
        proof {
            use_type_invariant(&*self);
        }
        let len: usize = self.chars.len();
        if !self.has_clearance(3) {
            return None;
        }
        match tri(
            self.chars[self.index],
            self.chars[self.index + 1],
            self.chars[self.index + 2],
        ) {
            Some(op) => {
                let token = Token(TokenData::Operator(op), self.trace(3));
                self.index = self.index + 3;
                Some(token)
            },
            None => None,
        }
    }

    /// The token at the position: what the first recognizer finds that finds anything.
    pub fn scan(&mut self) -> (r: Scanned)
        ensures
            scanned(
                old(self)@,
                final(self)@,
                r,
                scan_token(old(self)@.file.source, old(self)@.position),
            ),
    {
        if let Some(token) = self.string() {
            return Scanned::Found(token);
        }
        match self.scan_number() {
            Scanned::NoMatch => {},
            found => {
                return found;
            },
        }
        if let Some(token) = self.identifier() {
            return Scanned::Found(token);
        }
        if let Some(token) = self.tri_operator() {
            return Scanned::Found(token);
        }
        if let Some(token) = self.dual_operator() {
            return Scanned::Found(token);
        }
        match self.operator() {
            Some(token) => Scanned::Found(token),
            None => Scanned::NoMatch,
        }
    }

    /// The tokens of the text from the position on, closed by the end-of-input token, or
    /// `None` where an integer literal among them does not fit its type.
    pub fn try_tokenize(self) -> (r: Option<Vec<Token>>)
        ensures
            r is Some <==> all_representable(tokens_from(self@.file, self@.position)),
            r matches Some(tokens) ==> token_views(tokens@) == tokens_from(
                self@.file,
                self@.position,
            ),
    {
        let ghost src = self@.file;
        let ghost start = self@.position;
        let mut lexer = self;
        let ghost all = tokens_from(src, start);
        let mut tokens: Vec<Token> = Vec::new();
        assert(token_views(tokens@) + tokens_from(src, start) =~= all);
        while lexer.not_eof()
            invariant
                lexer@.file == src,
                src == self@.file,
                start == self@.position,
                0 <= lexer@.position,
                all == tokens_from(src, start),
                token_views(tokens@) + tokens_from(src, lexer@.position) == all,
            decreases remaining(src.source, lexer@.position),
        {
            let ghost at = lexer@.position;
            let ghost rest = tokens_from(src, at);
            if whitespace(lexer.curr()) {
                lexer.advance();
            } else if lexer.comment() {
            } else {
                match lexer.scan() {
                    Scanned::Found(token) => {
                        proof {
                            assert(token_views(tokens@.push(token)) =~= token_views(tokens@)
                                + seq![token@]);
                            assert((token_views(tokens@) + seq![token@]) + tokens_from(
                                src,
                                lexer@.position,
                            ) =~= token_views(tokens@) + rest);
                        }
                        tokens.push(token);
                    },
                    Scanned::TooLarge => {
                        proof {
                            let k = token_views(tokens@).len() as int;
                            assert(rest.len() > 0);
                            assert(0 <= k < all.len());
                            assert(all[k] == rest[0]);
                            assert(!all[k].data.representable());
                            assert(!all_representable(all));
                        }
                        return None;
                    },
                    Scanned::NoMatch => {
                        lexer.advance();
                    },
                }
            }
        }
        let end = Token(TokenData::EOF, lexer.trace(0));
        proof {
            assert(tokens_from(src, lexer@.position) =~= seq![eof_token(src)]);
            assert(end@ == eof_token(src));
            assert(token_views(tokens@.push(end)) =~= all);
        }
        tokens.push(end);
        proof {
            assert forall|k: int| 0 <= k < all.len() implies (#[trigger] all[k]).data.representable() by {
                assert(all[k] == tokens@[k]@);
            }
        }
        Some(tokens)
    }

    /// The tokens of the text from the position on, closed by the end-of-input token. The
    /// integer literals of the text must fit their types. The last token, and no other, is the
    /// end-of-input token.
    pub fn tokenize(self) -> (r: Vec<Token>)
        requires
            all_representable(tokens_from(self@.file, self@.position)),
        ensures
            token_views(r@) == tokens_from(self@.file, self@.position),
            r@.len() > 0,
            r@.last()@.data == TokenDataView::EOF,
            forall|k: int| 0 <= k < r@.len() - 1 ==> (#[trigger] r@[k])@.data != TokenDataView::EOF,
    {
        proof {
            lemma_tokens_closed(self@.file, self@.position);
        }
        match self.try_tokenize() {
            Some(tokens) => {
                proof {
                    let all = token_views(tokens@);
                    assert(all.len() == tokens@.len());
                    assert(all.last() == tokens@.last()@);
                    assert forall|k: int| 0 <= k < tokens@.len() - 1 implies (#[trigger] tokens@[k])@.data
                        != TokenDataView::EOF by {
                        assert(all[k] == tokens@[k]@);
                    }
                }
                tokens
            },
            None => Vec::new(),
        }
    }
}

} // verus!
