use vstd::prelude::*;
use vstd::utf8::encode_utf8;
use crate::file::source_file::SourceFileView;
use crate::file::trace::TraceView;
use crate::lexer::keyword::keyword_of;
use crate::lexer::token::{Operator, TokenDataView, TokenView};

verus! {

/// The character of `s` at position `i`, or a space where `i` is not a position of `s`.
pub open spec fn char_at(s: Seq<char>, i: int) -> char {
    if 0 <= i < s.len() {
        s[i]
    } else {
        ' '
    }
}

/// The number of characters of `s` from position `i` on; zero from the end on.
pub open spec fn remaining(s: Seq<char>, i: int) -> nat {
    if 0 <= i < s.len() {
        (s.len() - i) as nat
    } else {
        0
    }
}

/// The characters that separate tokens: those with the Unicode property `White_Space`.
pub open spec fn is_whitespace(c: char) -> bool {
    ||| '\u{9}' <= c <= '\u{d}'
    ||| c == ' '
    ||| c == '\u{85}'
    ||| c == '\u{a0}'
    ||| c == '\u{1680}'
    ||| '\u{2000}' <= c <= '\u{200a}'
    ||| c == '\u{2028}'
    ||| c == '\u{2029}'
    ||| c == '\u{202f}'
    ||| c == '\u{205f}'
    ||| c == '\u{3000}'
}

/// The ASCII decimal digits.
pub open spec fn is_digit(c: char) -> bool {
    '0' <= c <= '9'
}

/// The ASCII letters.
pub open spec fn is_letter(c: char) -> bool {
    ('a' <= c <= 'z') || ('A' <= c <= 'Z')
}

/// The characters that can start a word: an ASCII letter or an underscore.
pub open spec fn is_word_start(c: char) -> bool {
    is_letter(c) || c == '_'
}

/// The characters that can continue a word: an ASCII letter, a digit or an underscore.
pub open spec fn is_word_char(c: char) -> bool {
    is_letter(c) || is_digit(c) || c == '_'
}

/// The number that the digit `c` stands for.
pub open spec fn digit_value(c: char) -> nat {
    (c as u32 - '0' as u32) as nat
}

/// The number that a sequence of decimal digits spells, most significant digit first.
pub open spec fn decimal_value(digits: Seq<char>) -> nat
    decreases digits.len(),
{
    if digits.len() == 0 {
        0
    } else {
        10 * decimal_value(digits.drop_last()) + digit_value(digits.last())
    }
}

/// The length of the longest run of word characters that starts at `i`.
pub open spec fn word_run(s: Seq<char>, i: int) -> nat
    decreases remaining(s, i),
{
    if 0 <= i < s.len() && is_word_char(s[i]) {
        1 + word_run(s, i + 1)
    } else {
        0
    }
}

/// The length of the longest run of digits that starts at `i` and holds at most one decimal
/// point; `dotted` says that a decimal point was already met.
pub open spec fn number_run(s: Seq<char>, i: int, dotted: bool) -> nat
    decreases remaining(s, i),
{
    if 0 <= i < s.len() && s[i] == '.' && !dotted {
        1 + number_run(s, i + 1, true)
    } else if 0 <= i < s.len() && is_digit(s[i]) {
        1 + number_run(s, i + 1, dotted)
    } else {
        0
    }
}

/// Whether the run that `number_run` measures holds a decimal point.
pub open spec fn number_dotted(s: Seq<char>, i: int, dotted: bool) -> bool
    decreases remaining(s, i),
{
    if 0 <= i < s.len() && s[i] == '.' && !dotted {
        number_dotted(s, i + 1, true)
    } else if 0 <= i < s.len() && is_digit(s[i]) {
        number_dotted(s, i + 1, dotted)
    } else {
        dotted
    }
}

/// The number of characters of a string literal's body that starts at `i`, the position after
/// the opening quote: up to and including the closing quote, or up to the end of the text
/// where no quote closes it. A backslash and the character after it never close the literal.
pub open spec fn string_run(s: Seq<char>, i: int) -> nat
    decreases remaining(s, i),
{
    if !(0 <= i < s.len()) {
        0
    } else if s[i] == '"' {
        1
    } else if s[i] == '\\' {
        if i + 1 < s.len() {
            2 + string_run(s, i + 2)
        } else {
            1
        }
    } else {
        1 + string_run(s, i + 1)
    }
}

/// The value of a string literal whose body starts at `i`: its characters up to the closing
/// quote, where a backslash is left out and the character after it is taken as it stands.
pub open spec fn string_content(s: Seq<char>, i: int) -> Seq<char>
    decreases remaining(s, i),
{
    if !(0 <= i < s.len()) {
        Seq::empty()
    } else if s[i] == '"' {
        Seq::empty()
    } else if s[i] == '\\' {
        if i + 1 < s.len() {
            seq![s[i + 1]] + string_content(s, i + 2)
        } else {
            Seq::empty()
        }
    } else {
        seq![s[i]] + string_content(s, i + 1)
    }
}

/// The number of characters from `i` up to the next line feed, which is not counted.
pub open spec fn line_run(s: Seq<char>, i: int) -> nat
    decreases remaining(s, i),
{
    if 0 <= i < s.len() && s[i] != '\n' {
        1 + line_run(s, i + 1)
    } else {
        0
    }
}

/// The number of characters from `i` up to and including the next `*/`, or up to the end of
/// the text where there is none.
pub open spec fn block_run(s: Seq<char>, i: int) -> nat
    decreases remaining(s, i),
{
    if !(0 <= i < s.len()) {
        0
    } else if s[i] == '*' && char_at(s, i + 1) == '/' {
        2
    } else {
        1 + block_run(s, i + 1)
    }
}

/// The length of the comment that starts at `i`, if one starts there. A line comment opens
/// with `//` and ends before the next line feed. A block comment opens with `/*` and ends
/// with the next `*/` after the opener.
pub open spec fn comment_len(s: Seq<char>, i: int) -> Option<nat> {
    if char_at(s, i) == '/' && 0 <= i && i + 1 < s.len() && s[i + 1] == '/' {
        Some(2 + line_run(s, i + 2))
    } else if char_at(s, i) == '/' && 0 <= i && i + 1 < s.len() && s[i + 1] == '*' {
        Some(2 + block_run(s, i + 2))
    } else {
        None
    }
}

/// The operator that three characters spell.
pub open spec fn tri_operator(a: char, b: char, c: char) -> Option<Operator> {
    if a == '<' && b == '<' && c == '=' {
        Some(Operator::BitShiftLeftAssign)
    } else if a == '>' && b == '>' && c == '=' {
        Some(Operator::BitShiftRightAssign)
    } else if a == '&' && b == '&' && c == '=' {
        Some(Operator::AndAssign)
    } else if a == '|' && b == '|' && c == '=' {
        Some(Operator::OrAssign)
    } else {
        None
    }
}

/// The operator that two characters spell.
pub open spec fn dual_operator(a: char, b: char) -> Option<Operator> {
    if a == '&' && b == '&' {
        Some(Operator::And)
    } else if a == '|' && b == '|' {
        Some(Operator::Or)
    } else if a == '<' && b == '<' {
        Some(Operator::BitShiftLeft)
    } else if a == '>' && b == '>' {
        Some(Operator::BitShiftRight)
    } else if a == '%' && b == '=' {
        Some(Operator::ModAssigns)
    } else if a == '^' && b == '=' {
        Some(Operator::XorAssign)
    } else if a == '&' && b == '=' {
        Some(Operator::BitAndAssign)
    } else if a == '*' && b == '=' {
        Some(Operator::MultiplyAssign)
    } else if a == '-' && b == '=' {
        Some(Operator::MinusAssign)
    } else if a == '+' && b == '=' {
        Some(Operator::PlusAssign)
    } else if a == '/' && b == '=' {
        Some(Operator::DivideAssign)
    } else if a == '<' && b == '=' {
        Some(Operator::LessEquals)
    } else if a == '>' && b == '=' {
        Some(Operator::GreaterEquals)
    } else if a == '!' && b == '=' {
        Some(Operator::NotEquals)
    } else if a == '=' && b == '=' {
        Some(Operator::Equals)
    } else if a == ':' && b == ':' {
        Some(Operator::DoubleColon)
    } else if a == '=' && b == '>' {
        Some(Operator::ThickRightArrow)
    } else if a == '-' && b == '>' {
        Some(Operator::ThinRightArrow)
    } else {
        None
    }
}

/// The operator that one character spells.
pub open spec fn single_operator(c: char) -> Option<Operator> {
    if c == '{' {
        Some(Operator::CurlyOpen)
    } else if c == '}' {
        Some(Operator::CurlyClose)
    } else if c == '(' {
        Some(Operator::ParenOpen)
    } else if c == ')' {
        Some(Operator::ParenClose)
    } else if c == '[' {
        Some(Operator::BracketOpen)
    } else if c == ']' {
        Some(Operator::BracketClose)
    } else if c == '!' {
        Some(Operator::Not)
    } else if c == '%' {
        Some(Operator::Mod)
    } else if c == '^' {
        Some(Operator::Xor)
    } else if c == '&' {
        Some(Operator::BitAnd)
    } else if c == '*' {
        Some(Operator::Multiply)
    } else if c == '-' {
        Some(Operator::Minus)
    } else if c == '+' {
        Some(Operator::Plus)
    } else if c == '/' {
        Some(Operator::Divide)
    } else if c == '|' {
        Some(Operator::BitOr)
    } else if c == '=' {
        Some(Operator::Assign)
    } else if c == '<' {
        Some(Operator::Less)
    } else if c == '>' {
        Some(Operator::Greater)
    } else if c == '~' {
        Some(Operator::BitNot)
    } else if c == '.' {
        Some(Operator::Dot)
    } else if c == ',' {
        Some(Operator::Comma)
    } else if c == ':' {
        Some(Operator::Colon)
    } else {
        None
    }
}

/// What one recognizer finds at a position: the token's value and the number of characters
/// that spell it.
pub struct Lexeme {
    pub data: TokenDataView,
    pub len: nat,
}

/// The string literal that starts at `i`, if a double quote stands there. The literal runs
/// to its closing quote, or to the end of the text where none closes it.
pub open spec fn scan_string(s: Seq<char>, i: int) -> Option<Lexeme> {
    if char_at(s, i) == '"' {
        Some(
            Lexeme {
                data: TokenDataView::StringLiteral(string_content(s, i + 1)),
                len: 1 + string_run(s, i + 1),
            },
        )
    } else {
        None
    }
}

/// The numeric literal that starts at `i`, if a digit or a decimal point stands there and the
/// run is more than a lone decimal point. What follows the run and whether it holds a decimal
/// point decide the kind, in this order: the suffix `f` makes a 32-bit float, the suffix `d` a
/// 64-bit float, a decimal point a 32-bit float, the suffix `L` a 64-bit integer, and anything
/// else a 32-bit integer. A suffix belongs to the literal.
pub open spec fn scan_number(s: Seq<char>, i: int) -> Option<Lexeme> {
    if !(is_digit(char_at(s, i)) || char_at(s, i) == '.') {
        None
    } else {
        let n = number_run(s, i, false);
        let dotted = number_dotted(s, i, false);
        let text = s.subrange(i, i + n);
        let suffix = char_at(s, i + n);
        if dotted && n == 1 {
            None
        } else if suffix == 'f' {
            Some(Lexeme { data: TokenDataView::F32Literal(text), len: n + 1 })
        } else if suffix == 'd' {
            Some(Lexeme { data: TokenDataView::F64Literal(text), len: n + 1 })
        } else if dotted {
            Some(Lexeme { data: TokenDataView::F32Literal(text), len: n })
        } else if suffix == 'L' {
            Some(Lexeme { data: TokenDataView::I64Literal(decimal_value(text) as int), len: n + 1 })
        } else {
            Some(Lexeme { data: TokenDataView::I32Literal(decimal_value(text) as int), len: n })
        }
    }
}

/// What a word that no `!` follows is: a reserved word, a boolean literal or an identifier.
pub open spec fn word_data(text: Seq<char>) -> TokenDataView {
    match keyword_of(text) {
        Some(word) => TokenDataView::Keyword(word),
        None => if text == "true"@ {
            TokenDataView::BoolLiteral(true)
        } else if text == "false"@ {
            TokenDataView::BoolLiteral(false)
        } else {
            TokenDataView::Identifier(text)
        },
    }
}

/// The word that starts at `i`, if a letter or an underscore stands there: the longest run of
/// word characters. Where `!` follows the run at once, the word and the `!` together are the
/// name of a macro.
pub open spec fn scan_word(s: Seq<char>, i: int) -> Option<Lexeme> {
    if !is_word_start(char_at(s, i)) {
        None
    } else {
        let n = word_run(s, i);
        if char_at(s, i + n) == '!' {
            Some(
                Lexeme {
                    data: TokenDataView::MacroIdentifier(s.subrange(i, i + n + 1)),
                    len: n + 1,
                },
            )
        } else {
            Some(Lexeme { data: word_data(s.subrange(i, i + n)), len: n })
        }
    }
}

/// The three-character operator that starts at `i`, if three characters are left.
pub open spec fn scan_tri_operator(s: Seq<char>, i: int) -> Option<Lexeme> {
    if 0 <= i && i + 3 <= s.len() {
        match tri_operator(s[i], s[i + 1], s[i + 2]) {
            Some(op) => Some(Lexeme { data: TokenDataView::Operator(op), len: 3 }),
            None => None,
        }
    } else {
        None
    }
}

/// The two-character operator that starts at `i`, if two characters are left.
pub open spec fn scan_dual_operator(s: Seq<char>, i: int) -> Option<Lexeme> {
    if 0 <= i && i + 2 <= s.len() {
        match dual_operator(s[i], s[i + 1]) {
            Some(op) => Some(Lexeme { data: TokenDataView::Operator(op), len: 2 }),
            None => None,
        }
    } else {
        None
    }
}

/// The one-character operator at `i`.
pub open spec fn scan_operator(s: Seq<char>, i: int) -> Option<Lexeme> {
    if 0 <= i < s.len() {
        match single_operator(s[i]) {
            Some(op) => Some(Lexeme { data: TokenDataView::Operator(op), len: 1 }),
            None => None,
        }
    } else {
        None
    }
}

/// The token that starts at `i`: what the first of the recognizers finds that finds anything,
/// in the order string, number, word, three-, two- and one-character operator. Longer
/// operators are tried first, so an operator is never split where a longer one matches.
pub open spec fn scan_token(s: Seq<char>, i: int) -> Option<Lexeme> {
    if scan_string(s, i) is Some {
        scan_string(s, i)
    } else if scan_number(s, i) is Some {
        scan_number(s, i)
    } else if scan_word(s, i) is Some {
        scan_word(s, i)
    } else if scan_tri_operator(s, i) is Some {
        scan_tri_operator(s, i)
    } else if scan_dual_operator(s, i) is Some {
        scan_dual_operator(s, i)
    } else {
        scan_operator(s, i)
    }
}

/// The position `i` kept within the text: between zero and the number of its characters.
pub open spec fn clamp(s: Seq<char>, i: int) -> int {
    if i < 0 {
        0
    } else if i > s.len() {
        s.len() as int
    } else {
        i
    }
}

/// The number of bytes that the first `i` characters of `s` take in UTF-8: the byte position
/// of character `i`, or of the text's end where `i` lies beyond it.
pub open spec fn byte_offset(s: Seq<char>, i: int) -> int {
    encode_utf8(s.take(clamp(s, i))).len() as int
}

/// The span of the characters of `src` from position `from` up to `to`, in bytes.
pub open spec fn span(src: SourceFileView, from: int, to: int) -> TraceView {
    TraceView {
        source: src,
        start: byte_offset(src.source, from),
        end: byte_offset(src.source, to),
    }
}

/// The end-of-input token of `src`: an empty span at the end of the text.
pub open spec fn eof_token(src: SourceFileView) -> TokenView {
    TokenView {
        data: TokenDataView::EOF,
        trace: span(src, src.source.len() as int, src.source.len() as int),
    }
}

/// The tokens of `src` from position `i` on, closed by the end-of-input token. White space and
/// comments separate tokens and leave none. A character that starts no token is passed over.
pub open spec fn tokens_from(src: SourceFileView, i: int) -> Seq<TokenView>
    decreases remaining(src.source, i),
{
    let s = src.source;
    if !(0 <= i < s.len()) {
        seq![eof_token(src)]
    } else if is_whitespace(s[i]) {
        tokens_from(src, i + 1)
    } else if comment_len(s, i) is Some {
        tokens_from(src, i + comment_len(s, i).unwrap())
    } else {
        match scan_token(s, i) {
            Some(lexeme) => seq![
                TokenView { data: lexeme.data, trace: span(src, i, i + lexeme.len) },
            ] + tokens_from(src, i + lexeme.len),
            None => tokens_from(src, i + 1),
        }
    }
}

/// The tokens of a whole source text.
pub open spec fn tokens_of(src: SourceFileView) -> Seq<TokenView> {
    tokens_from(src, 0)
}

/// Whether every integer literal among `tokens` fits the machine type of its kind.
pub open spec fn all_representable(tokens: Seq<TokenView>) -> bool {
    forall|k: int| 0 <= k < tokens.len() ==> (#[trigger] tokens[k]).data.representable()
}

/// The token sequence of a text is closed by the end-of-input token, which stands nowhere
/// else in it.
pub proof fn lemma_tokens_closed(src: SourceFileView, i: int)
    ensures
        tokens_from(src, i).len() > 0,
        tokens_from(src, i).last().data == TokenDataView::EOF,
        forall|k: int|
            0 <= k < tokens_from(src, i).len() - 1 ==> (#[trigger] tokens_from(src, i)[k]).data
                != TokenDataView::EOF,
    decreases remaining(src.source, i),
{
    let s = src.source;
    if !(0 <= i < s.len()) {
    } else if is_whitespace(s[i]) {
        lemma_tokens_closed(src, i + 1);
    } else if comment_len(s, i) is Some {
        lemma_tokens_closed(src, i + comment_len(s, i).unwrap());
    } else {
        match scan_token(s, i) {
            Some(lexeme) => {
                lemma_tokens_closed(src, i + lexeme.len);
                let rest = tokens_from(src, i + lexeme.len);
                let all = tokens_from(src, i);
                assert(all.last() == rest.last());
                assert forall|k: int| 0 <= k < all.len() - 1 implies (#[trigger] all[k]).data
                    != TokenDataView::EOF by {
                    if k > 0 {
                        assert(all[k] == rest[k - 1]);
                    }
                }
            },
            None => {
                lemma_tokens_closed(src, i + 1);
            },
        }
    }
}

} // verus!
