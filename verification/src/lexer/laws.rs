use vstd::prelude::*;
use vstd::utf8::{decode_utf8, encode_utf8, encode_utf8_decode_utf8};
use crate::file::source_file::SourceFileView;
use crate::file::trace::TraceView;
use crate::lexer::keyword::keyword_of;
use crate::lexer::scan::{
    byte_offset, char_at, comment_len, decimal_value, dual_operator, eof_token, is_digit,
    is_whitespace, number_dotted, number_run, remaining, scan_dual_operator, scan_number,
    scan_operator, scan_string, scan_token, scan_tri_operator, scan_word, single_operator, span,
    string_content, string_run, tokens_from, tokens_of, tri_operator, word_run, Lexeme,
};
use crate::lexer::text::{lemma_byte_offset_monotone, lemma_span_bytes};
use crate::lexer::token::{Operator, TokenDataView};

verus! {

/// The text that a span covers: the characters that the bytes of the span encode.
pub open spec fn lexeme(src: SourceFileView, trace: TraceView) -> Seq<char> {
    decode_utf8(encode_utf8(src.source).subrange(trace.start, trace.end))
}

/// The operator that `text` spells as a whole.
pub open spec fn operator_of(text: Seq<char>) -> Option<Operator> {
    if text.len() == 1 {
        single_operator(text[0])
    } else if text.len() == 2 {
        dual_operator(text[0], text[1])
    } else if text.len() == 3 {
        tri_operator(text[0], text[1], text[2])
    } else {
        None
    }
}

/// Whether `text` is nothing but decimal digits.
pub open spec fn all_digits(text: Seq<char>) -> bool {
    forall|k: int| 0 <= k < text.len() ==> is_digit(#[trigger] text[k])
}

/// Whether `text` is a lexeme of the token `data`: the text from which alone the token's
/// value can be read off.
pub open spec fn spells(data: TokenDataView, text: Seq<char>) -> bool {
    match data {
        TokenDataView::MacroIdentifier(name) => text == name,
        TokenDataView::Identifier(name) => text == name,
        TokenDataView::Operator(op) => operator_of(text) == Some(op),
        TokenDataView::Keyword(word) => keyword_of(text) == Some(word),
        TokenDataView::StringLiteral(value) => text.len() >= 1 && text[0] == '"' && value
            == string_content(text, 1),
        TokenDataView::BoolLiteral(value) => text == (if value {
            "true"@
        } else {
            "false"@
        }),
        TokenDataView::F32Literal(digits) => text == digits || text == digits.push('f'),
        TokenDataView::F64Literal(digits) => text == digits.push('d'),
        TokenDataView::I32Literal(value) => all_digits(text) && value == decimal_value(text),
        TokenDataView::I64Literal(value) => text.len() >= 1 && text.last() == 'L' && all_digits(
            text.drop_last(),
        ) && value == decimal_value(text.drop_last()),
        TokenDataView::EOF => text.len() == 0,
    }
}

/// A run of word characters ends within the text.
pub proof fn lemma_word_run_bound(s: Seq<char>, i: int)
    requires
        0 <= i <= s.len(),
    ensures
        i + word_run(s, i) <= s.len(),
    decreases remaining(s, i),
{
    if i < s.len() && crate::lexer::scan::is_word_char(s[i]) {
        lemma_word_run_bound(s, i + 1);
    }
}

/// A run of digits ends within the text, and holds nothing but digits where it holds no
/// decimal point.
pub proof fn lemma_number_run_bound(s: Seq<char>, i: int, dotted: bool)
    requires
        0 <= i <= s.len(),
    ensures
        i + number_run(s, i, dotted) <= s.len(),
        !number_dotted(s, i, dotted) ==> !dotted && forall|k: int|
            i <= k < i + number_run(s, i, dotted) ==> is_digit(#[trigger] s[k]),
    decreases remaining(s, i),
{
    if i < s.len() && s[i] == '.' && !dotted {
        lemma_number_run_bound(s, i + 1, true);
    } else if i < s.len() && is_digit(s[i]) {
        lemma_number_run_bound(s, i + 1, dotted);
    }
}

/// The body of a string literal ends within the text, and its value can be read off the
/// literal alone: off any stretch of the text that starts at or before the body and ends
/// where the body ends.
pub proof fn lemma_string_run_local(s: Seq<char>, lo: int, i: int)
    requires
        0 <= lo <= i <= s.len(),
    ensures
        i + string_run(s, i) <= s.len(),
        string_content(s.subrange(lo, i + string_run(s, i)), i - lo) == string_content(s, i),
    decreases remaining(s, i),
{
    let hi = i + string_run(s, i);
    if !(i < s.len()) {
    } else if s[i] == '"' {
    } else if s[i] == '\\' {
        if i + 1 < s.len() {
            lemma_string_run_local(s, lo, i + 2);
            let t = s.subrange(lo, hi);
            assert(t[i - lo] == s[i]);
            assert(t[i - lo + 1] == s[i + 1]);
        } else {
        }
    } else {
        lemma_string_run_local(s, lo, i + 1);
        let t = s.subrange(lo, hi);
        assert(t[i - lo] == s[i]);
    }
}

/// The lexeme that a recognizer finds lies within the text and spells the token.
pub proof fn lemma_scan_spells(s: Seq<char>, i: int)
    requires
        0 <= i < s.len(),
        scan_token(s, i) is Some,
    ensures
        1 <= scan_token(s, i).unwrap().len,
        i + scan_token(s, i).unwrap().len <= s.len(),
        spells(
            scan_token(s, i).unwrap().data,
            s.subrange(i, i + scan_token(s, i).unwrap().len),
        ),
{
    let found = scan_token(s, i).unwrap();
    let text = s.subrange(i, i + found.len);
    if scan_string(s, i) is Some {
        lemma_string_run_local(s, i, i + 1);
        assert(text[0] == s[i]);
    } else if scan_number(s, i) is Some {
        lemma_number_run_bound(s, i, false);
        let n = number_run(s, i, false);
        let digits = s.subrange(i, i + n);
        if char_at(s, i + n) == 'f' {
            assert(text =~= digits.push('f'));
        } else if char_at(s, i + n) == 'd' {
            assert(text =~= digits.push('d'));
        } else if number_dotted(s, i, false) {
        } else if char_at(s, i + n) == 'L' {
            assert(text.drop_last() =~= digits);
            assert(text.last() == 'L');
            assert forall|k: int| 0 <= k < digits.len() implies is_digit(#[trigger] digits[k]) by {
                assert(digits[k] == s[i + k]);
            }
        } else {
            assert forall|k: int| 0 <= k < text.len() implies is_digit(#[trigger] text[k]) by {
                assert(text[k] == s[i + k]);
            }
        }
    } else if scan_word(s, i) is Some {
        lemma_word_run_bound(s, i);
    } else if scan_tri_operator(s, i) is Some {
        assert(text[0] == s[i] && text[1] == s[i + 1] && text[2] == s[i + 2]);
    } else if scan_dual_operator(s, i) is Some {
        assert(text[0] == s[i] && text[1] == s[i + 1]);
    } else {
        assert(scan_operator(s, i) is Some);
        assert(text[0] == s[i]);
    }
}

/// The span of a stretch of the text covers that stretch.
pub proof fn lemma_span_covers(src: SourceFileView, i: int, j: int)
    requires
        0 <= i <= j <= src.source.len(),
    ensures
        span(src, i, j).source == src,
        0 <= span(src, i, j).start <= span(src, i, j).end <= encode_utf8(src.source).len(),
        lexeme(src, span(src, i, j)) == src.source.subrange(i, j),
{
    lemma_span_bytes(src.source, i, j);
    encode_utf8_decode_utf8(src.source.subrange(i, j));
}

/// A comment ends within the text.
pub proof fn lemma_comment_bound(s: Seq<char>, i: int)
    requires
        0 <= i < s.len(),
        comment_len(s, i) is Some,
    ensures
        i + comment_len(s, i).unwrap() <= s.len(),
{
    lemma_line_run_bound(s, i + 2);
    lemma_block_run_bound(s, i + 2);
}

proof fn lemma_line_run_bound(s: Seq<char>, i: int)
    requires
        0 <= i <= s.len(),
    ensures
        i + crate::lexer::scan::line_run(s, i) <= s.len(),
    decreases remaining(s, i),
{
    if i < s.len() && s[i] != '\n' {
        lemma_line_run_bound(s, i + 1);
    }
}

proof fn lemma_block_run_bound(s: Seq<char>, i: int)
    requires
        0 <= i <= s.len(),
    ensures
        i + crate::lexer::scan::block_run(s, i) <= s.len(),
    decreases remaining(s, i),
{
    if !(i < s.len()) {
    } else if s[i] == '*' && char_at(s, i + 1) == '/' {
    } else {
        lemma_block_run_bound(s, i + 1);
    }
}

/// Every token of the text from `i` on stands in the text's buffer, within the buffer's
/// bytes, and the text that its span covers spells it.
pub proof fn lemma_tokens_from_spell(src: SourceFileView, i: int, k: int)
    requires
        0 <= i <= src.source.len(),
        0 <= k < tokens_from(src, i).len(),
    ensures
        tokens_from(src, i)[k].trace.source == src,
        0 <= tokens_from(src, i)[k].trace.start <= tokens_from(src, i)[k].trace.end
            <= encode_utf8(src.source).len(),
        spells(tokens_from(src, i)[k].data, lexeme(src, tokens_from(src, i)[k].trace)),
    decreases remaining(src.source, i),
{
    let s = src.source;
    if !(i < s.len()) {
        lemma_span_covers(src, s.len() as int, s.len() as int);
        assert(tokens_from(src, i)[k] == eof_token(src));
        assert(s.subrange(s.len() as int, s.len() as int).len() == 0);
    } else if is_whitespace(s[i]) {
        lemma_tokens_from_spell(src, i + 1, k);
    } else if comment_len(s, i) is Some {
        lemma_comment_bound(s, i);
        lemma_tokens_from_spell(src, i + comment_len(s, i).unwrap(), k);
    } else {
        match scan_token(s, i) {
            Some(found) => {
                lemma_scan_spells(s, i);
                if k == 0 {
                    lemma_span_covers(src, i, i + found.len);
                } else {
                    lemma_tokens_from_spell(src, i + found.len, k - 1);
                    assert(tokens_from(src, i)[k] == tokens_from(src, i + found.len)[k - 1]);
                }
            },
            None => {
                lemma_tokens_from_spell(src, i + 1, k);
            },
        }
    }
}

/// For every token of a source text, the bytes of the token's span lie within the text and
/// are the encoding of a lexeme of the token.
pub proof fn lemma_tokens_spell(src: SourceFileView, k: int)
    requires
        0 <= k < tokens_of(src).len(),
    ensures
        tokens_of(src)[k].trace.source == src,
        0 <= tokens_of(src)[k].trace.start <= tokens_of(src)[k].trace.end <= encode_utf8(
            src.source,
        ).len(),
        spells(tokens_of(src)[k].data, lexeme(src, tokens_of(src)[k].trace)),
{
    lemma_tokens_from_spell(src, 0, k);
}

/// The end-of-input token, the last of a source text, is an empty span at the end of the
/// text's bytes.
pub proof fn lemma_last_token_ends_the_text(src: SourceFileView)
    ensures
        tokens_of(src).len() > 0,
        tokens_of(src).last().data == TokenDataView::EOF,
        tokens_of(src).last().trace.start == encode_utf8(src.source).len(),
        tokens_of(src).last().trace.end == encode_utf8(src.source).len(),
{
    lemma_last_token_from(src, 0);
}

proof fn lemma_last_token_from(src: SourceFileView, i: int)
    requires
        0 <= i <= src.source.len(),
    ensures
        tokens_from(src, i).len() > 0,
        tokens_from(src, i).last() == eof_token(src),
        eof_token(src).trace.start == encode_utf8(src.source).len(),
        eof_token(src).trace.end == encode_utf8(src.source).len(),
    decreases remaining(src.source, i),
{
    let s = src.source;
    assert(s.take(s.len() as int) =~= s);
    if !(i < s.len()) {
    } else if is_whitespace(s[i]) {
        lemma_last_token_from(src, i + 1);
    } else if comment_len(s, i) is Some {
        lemma_comment_bound(s, i);
        lemma_last_token_from(src, i + comment_len(s, i).unwrap());
    } else {
        match scan_token(s, i) {
            Some(found) => {
                lemma_scan_spells(s, i);
                lemma_last_token_from(src, i + found.len);
            },
            None => {
                lemma_last_token_from(src, i + 1);
            },
        }
    }
}

/// The tokens of the text from `i` on start at or behind `i`, and each ends before the next
/// starts.
pub proof fn lemma_tokens_from_ordered(src: SourceFileView, i: int, a: int, b: int)
    requires
        0 <= i <= src.source.len(),
        0 <= a <= b < tokens_from(src, i).len(),
    ensures
        byte_offset(src.source, i) <= tokens_from(src, i)[a].trace.start,
        a < b ==> tokens_from(src, i)[a].trace.end <= tokens_from(src, i)[b].trace.start,
    decreases remaining(src.source, i),
{
    let s = src.source;
    if !(i < s.len()) {
    } else if is_whitespace(s[i]) {
        lemma_byte_offset_monotone(s, i, i + 1);
        lemma_tokens_from_ordered(src, i + 1, a, b);
    } else if comment_len(s, i) is Some {
        let next = i + comment_len(s, i).unwrap();
        lemma_comment_bound(s, i);
        lemma_byte_offset_monotone(s, i, next);
        lemma_tokens_from_ordered(src, next, a, b);
    } else {
        match scan_token(s, i) {
            Some(found) => {
                let next = i + found.len;
                let rest = tokens_from(src, next);
                lemma_scan_spells(s, i);
                lemma_byte_offset_monotone(s, i, next);
                if a > 0 {
                    assert(tokens_from(src, i)[a] == rest[a - 1]);
                    assert(tokens_from(src, i)[b] == rest[b - 1]);
                    lemma_tokens_from_ordered(src, next, a - 1, b - 1);
                } else if b > 0 {
                    assert(tokens_from(src, i)[b] == rest[b - 1]);
                    lemma_tokens_from_ordered(src, next, b - 1, b - 1);
                }
            },
            None => {
                lemma_byte_offset_monotone(s, i, i + 1);
                lemma_tokens_from_ordered(src, i + 1, a, b);
            },
        }
    }
}

/// The tokens of a source text stand in the order of the text and do not overlap: each ends
/// before the next starts.
pub proof fn lemma_tokens_ordered(src: SourceFileView, a: int, b: int)
    requires
        0 <= a < b < tokens_of(src).len(),
    ensures
        tokens_of(src)[a].trace.end <= tokens_of(src)[b].trace.start,
{
    lemma_tokens_from_ordered(src, 0, a, b);
}

/// Operators are matched greedily: where a three-character operator stands, the token is
/// that operator, and where none does but a two-character operator stands, the token is
/// that one. No operator is ever split where a longer one matches.
pub proof fn lemma_longest_operator_wins(s: Seq<char>, i: int)
    requires
        0 <= i < s.len(),
    ensures
        scan_tri_operator(s, i) is Some ==> scan_token(s, i) == scan_tri_operator(s, i),
        scan_tri_operator(s, i) is None && scan_dual_operator(s, i) is Some ==> scan_token(s, i)
            == scan_dual_operator(s, i),
{
}

/// `>>=` is one token, the shift-right assignment, wherever it stands.
pub proof fn lemma_shift_right_assign_is_one_token(s: Seq<char>, i: int)
    requires
        0 <= i,
        i + 3 <= s.len(),
        s[i] == '>',
        s[i + 1] == '>',
        s[i + 2] == '=',
    ensures
        scan_token(s, i) == Some(
            Lexeme { data: TokenDataView::Operator(Operator::BitShiftRightAssign), len: 3 },
        ),
{
}

} // verus!
