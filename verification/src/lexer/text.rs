use vstd::prelude::*;
use vstd::string::StrSliceExecFns;
use vstd::utf8::{char_is_scalar, encode_scalar, encode_utf8};
use crate::lexer::scan::{byte_offset, decimal_value, digit_value, is_digit};

verus! {

/// The encoding of a concatenation is the concatenation of the encodings.
pub proof fn lemma_encode_concat(a: Seq<char>, b: Seq<char>)
    ensures
        encode_utf8(a + b) == encode_utf8(a) + encode_utf8(b),
    decreases a.len(),
{
    if a.len() == 0 {
        assert(a + b =~= b);
        assert(encode_utf8(a) + encode_utf8(b) =~= encode_utf8(b));
    } else {
        assert((a + b).drop_first() =~= a.drop_first() + b);
        lemma_encode_concat(a.drop_first(), b);
        assert(encode_utf8(a + b) =~= encode_utf8(a) + encode_utf8(b));
    }
}

/// The byte position of a character is that of the one before it plus the bytes of that one.
pub proof fn lemma_byte_offset_step(s: Seq<char>, i: int)
    requires
        0 <= i < s.len(),
    ensures
        byte_offset(s, i + 1) == byte_offset(s, i) + encode_utf8(seq![s[i]]).len(),
{
    assert(s.take(i + 1) =~= s.take(i) + seq![s[i]]);
    lemma_encode_concat(s.take(i), seq![s[i]]);
}

/// Byte positions do not decrease along the text, and none lies beyond the text's length in
/// bytes.
pub proof fn lemma_byte_offset_monotone(s: Seq<char>, i: int, j: int)
    requires
        i <= j,
    ensures
        0 <= byte_offset(s, i) <= byte_offset(s, j) <= encode_utf8(s).len(),
{
    let a = crate::lexer::scan::clamp(s, i);
    let b = crate::lexer::scan::clamp(s, j);
    assert(s.take(b) =~= s.take(a) + s.subrange(a, b));
    lemma_encode_concat(s.take(a), s.subrange(a, b));
    assert(s =~= s.take(b) + s.skip(b));
    lemma_encode_concat(s.take(b), s.skip(b));
}

/// The bytes between the byte positions of two characters are the encoding of the characters
/// between them.
pub proof fn lemma_span_bytes(s: Seq<char>, i: int, j: int)
    requires
        0 <= i <= j <= s.len(),
    ensures
        0 <= byte_offset(s, i) <= byte_offset(s, j) <= encode_utf8(s).len(),
        encode_utf8(s).subrange(byte_offset(s, i), byte_offset(s, j)) == encode_utf8(
            s.subrange(i, j),
        ),
{
    lemma_byte_offset_monotone(s, i, j);
    assert(s.take(j) =~= s.take(i) + s.subrange(i, j));
    lemma_encode_concat(s.take(i), s.subrange(i, j));
    assert(s =~= s.take(j) + s.skip(j));
    lemma_encode_concat(s.take(j), s.skip(j));
    assert(encode_utf8(s).subrange(byte_offset(s, i), byte_offset(s, j)) =~= encode_utf8(
        s.subrange(i, j),
    ));
}

/// The number of bytes that `c` takes in UTF-8.
pub fn utf8_width(c: char) -> (n: usize)
    ensures
        n == encode_utf8(seq![c]).len(),
        1 <= n <= 4,
{
    let v: u32 = c as u32;
    proof {
        char_is_scalar(c);
        assert(seq![c].drop_first() =~= Seq::<char>::empty());
        assert(encode_utf8(seq![c]) =~= encode_scalar(v)) by {
            assert(encode_utf8(seq![c].drop_first()) =~= Seq::<u8>::empty());
        }
    }
    if v < 0x80 {
        1
    } else if v < 0x800 {
        2
    } else if v < 0x10000 {
        3
    } else {
        4
    }
}

/// The characters of `s`, in order, in a vector that can be indexed in constant time.
pub fn collect_chars(s: &str) -> (v: Vec<char>)
    ensures
        v@ == s@,
{
    let mut v: Vec<char> = Vec::new();
    for c in it: s.chars()
        invariant
            v@ == it.seq().take(it.index()),
            it.seq() == s@,
    {
        v.push(c);
    }
    v
}

/// Whether the `n` characters of `chars` that start at `start` are exactly those of `word`.
pub fn spells(chars: &Vec<char>, start: usize, n: usize, word: &str) -> (r: bool)
    requires
        start + n <= chars@.len(),
    ensures
        r == (chars@.subrange(start as int, start + n) == word@),
{
    let len: usize = word.unicode_len();
    if len != n {
        return false;
    }
    let ghost text = chars@.subrange(start as int, start + n);
    let total: usize = chars.len();
    let mut i: usize = 0;
    while i < n
        invariant
            i <= n,
            total == chars@.len(),
            n == word@.len(),
            start + n <= chars@.len(),
            text == chars@.subrange(start as int, start + n),
            forall|k: int| 0 <= k < i ==> text[k] == word@[k],
        decreases n - i,
    {
        if chars[start + i] != word.get_char(i) {
            assert(text[i as int] != word@[i as int]);
            return false;
        }
        i += 1;
    }
    assert(text =~= word@);
    true
}

/// Whether two texts hold the same characters.
pub fn same_text(a: &str, b: &str) -> (r: bool)
    ensures
        r == (a@ == b@),
{
    let chars = collect_chars(a);
    assert(chars@.subrange(0, chars@.len() as int) =~= a@);
    spells(&chars, 0, chars.len(), b)
}

/// The value of a longer run of digits is at least that of each of its prefixes.
pub proof fn lemma_decimal_prefix(digits: Seq<char>, k: int)
    requires
        0 <= k <= digits.len(),
    ensures
        decimal_value(digits.take(k)) <= decimal_value(digits),
    decreases digits.len(),
{
    if k == digits.len() {
        assert(digits.take(k) =~= digits);
    } else {
        lemma_decimal_prefix(digits.drop_last(), k);
        assert(digits.drop_last().take(k) =~= digits.take(k));
    }
}

/// The number that the digits of `chars` from `from` up to `to` spell, where it is at most
/// `max`, and `None` where it is larger.
pub fn decimal(chars: &Vec<char>, from: usize, to: usize, max: u64) -> (r: Option<u64>)
    requires
        from <= to <= chars@.len(),
        forall|k: int| from <= k < to ==> is_digit(#[trigger] chars@[k]),
    ensures
        r == if decimal_value(chars@.subrange(from as int, to as int)) <= max {
            Some(decimal_value(chars@.subrange(from as int, to as int)) as u64)
        } else {
            None
        },
{
    let ghost digits = chars@.subrange(from as int, to as int);
    let mut acc: u64 = 0;
    let mut i: usize = from;
    while i < to
        invariant
            from <= i <= to <= chars@.len(),
            digits == chars@.subrange(from as int, to as int),
            forall|k: int| from <= k < to ==> is_digit(#[trigger] chars@[k]),
            acc == decimal_value(digits.take(i - from)),
            acc <= max,
        decreases to - i,
    {
        let c: char = chars[i];
        let d: u32 = c as u32 - '0' as u32;
        let next: u128 = acc as u128 * 10 + d as u128;
        proof {
            assert(digits.take(i + 1 - from).drop_last() =~= digits.take(i - from));
            assert(digits.take(i + 1 - from).last() == c);
            assert(d == digit_value(c));
            assert(next == decimal_value(digits.take(i + 1 - from)));
        }
        if next > max as u128 {
            proof {
                lemma_decimal_prefix(digits, i + 1 - from);
            }
            return None;
        }
        acc = next as u64;
        i += 1;
    }
    assert(digits.take(to - from) =~= digits);
    Some(acc)
}

} // verus!
