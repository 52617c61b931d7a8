//! Character-level helpers shared by the matchers and the paginator.

use crate::search::{first_where, lemma_first_where_is_first, lemma_first_where_unique};
use vstd::prelude::*;

verus! {

/// `String::push` appends one character to the end of the string.
pub assume_specification[ String::push ](s: &mut String, ch: char)
    ensures
        final(s)@ == old(s)@.push(ch),
;

/// What `str::to_lowercase` returns: the lowercase form of the text, by the
/// case mappings of Unicode.
pub uninterp spec fn lowercase(s: Seq<char>) -> Seq<char>;

/// `str::to_lowercase` returns the lowercase form of the text as a new
/// string. It depends on the text alone, and `lowercase` is the name of it.
pub assume_specification[ str::to_lowercase ](s: &str) -> (out: String)
    ensures
        out@ == lowercase(s@),
;

/// The characters of `s`, in order.
pub fn to_chars(s: &str) -> (out: Vec<char>)
    ensures
        out@ == s@,
{
    let mut out: Vec<char> = Vec::new();
    for c in it: s.chars()
        invariant
            it.seq() == s@,
            out@ == s@.take(it.index()),
    {
        out.push(c);
    }
    out
}

/// The string whose characters are `chars`, in order.
pub fn from_chars(chars: &[char]) -> (out: String)
    ensures
        out@ == chars@,
{
    let mut out = String::new();
    let mut i: usize = 0;
    while i < chars.len()
        invariant
            i <= chars.len(),
            out@ == chars@.take(i as int),
        decreases chars.len() - i,
    {
        out.push(chars[i]);
        i += 1;
    }
    out
}

/// The position of the first `sep` in `s`, or the length of `s` where it has
/// none.
pub open spec fn first_index(s: Seq<char>, sep: char) -> int {
    first_where(s, is_char(sep))
}

/// The property of being the character `sep`.
pub open spec fn is_char(sep: char) -> spec_fn(char) -> bool {
    |c: char| c == sep
}

/// The pieces of `s` between the occurrences of `sep`. A text without `sep`
/// is one piece; a text with `n` of them has `n + 1` pieces, some of which
/// may be empty.
pub open spec fn split(s: Seq<char>, sep: char) -> Seq<Seq<char>>
    decreases s.len(),
{
    let i = first_index(s, sep);
    if 0 <= i < s.len() {
        seq![s.take(i)] + split(s.skip(i + 1), sep)
    } else {
        seq![s]
    }
}

/// Whether `sep` stands nowhere in `s`.
pub open spec fn free_of(s: Seq<char>, sep: char) -> bool {
    forall|i: int| 0 <= i < s.len() ==> s[i] != sep
}

/// A text without `sep` is one piece.
pub proof fn lemma_split_whole(s: Seq<char>, sep: char)
    requires
        free_of(s, sep),
    ensures
        split(s, sep) == seq![s],
{
    lemma_first_where_unique(s, is_char(sep), s.len() as int);
}

/// A separator and a text without one, put after `s`, add that text to the
/// pieces of `s` as one more piece.
pub proof fn lemma_split_last_piece(s: Seq<char>, t: Seq<char>, sep: char)
    requires
        free_of(t, sep),
    ensures
        split(s + seq![sep] + t, sep) == split(s, sep).push(t),
    decreases s.len(),
{
    let whole = s + seq![sep] + t;
    let i = first_index(s, sep);
    lemma_first_where_is_first(s, is_char(sep));
    assert forall|j: int| 0 <= j < i implies !is_char(sep)(whole[j]) by {}
    lemma_first_where_unique(whole, is_char(sep), i);
    if i < s.len() {
        let rest = s.skip(i + 1);
        lemma_split_last_piece(rest, t, sep);
        assert(whole.take(i) =~= s.take(i));
        assert(whole.skip(i + 1) =~= rest + seq![sep] + t);
    } else {
        lemma_split_whole(t, sep);
        assert(whole.take(i) =~= s);
        assert(whole.skip(i + 1) =~= t);
    }
}

/// A text has at least one piece, no piece holds the separator, and a
/// character that stands nowhere in the text stands in none of its pieces.
pub proof fn lemma_split_pieces(s: Seq<char>, sep: char, other: char)
    ensures
        split(s, sep).len() >= 1,
        forall|k: int| 0 <= k < split(s, sep).len() ==> free_of(#[trigger] split(s, sep)[k], sep),
        free_of(s, other) ==> forall|k: int|
            0 <= k < split(s, sep).len() ==> free_of(#[trigger] split(s, sep)[k], other),
    decreases s.len(),
{
    let i = first_index(s, sep);
    lemma_first_where_is_first(s, is_char(sep));
    if 0 <= i < s.len() {
        let rest = s.skip(i + 1);
        lemma_split_pieces(rest, sep, other);
        assert forall|k: int| 0 <= k < split(s, sep).len() implies free_of(
            #[trigger] split(s, sep)[k],
            sep,
        ) && (free_of(s, other) ==> free_of(split(s, sep)[k], other)) by {}
    }
}

/// The first position at or after `from` where `sep` stands, or the length
/// of `chars`.
pub fn find_from(chars: &[char], from: usize, sep: char) -> (at: usize)
    requires
        from <= chars.len(),
    ensures
        from <= at <= chars.len(),
        at - from == first_index(chars@.skip(from as int), sep),
{
    let mut at: usize = from;
    while at < chars.len() && chars[at] != sep
        invariant
            from <= at <= chars.len(),
            forall|j: int| from <= j < at ==> chars@[j] != sep,
        decreases chars.len() - at,
    {
        at += 1;
    }
    proof {
        lemma_first_where_unique(chars@.skip(from as int), is_char(sep), at - from);
    }
    at
}

/// A copy of `chars[from..to]`.
pub fn copy_range(chars: &[char], from: usize, to: usize) -> (out: Vec<char>)
    requires
        from <= to <= chars.len(),
    ensures
        out@ == chars@.subrange(from as int, to as int),
{
    let mut out: Vec<char> = Vec::new();
    let mut i: usize = from;
    while i < to
        invariant
            from <= i <= to <= chars.len(),
            out@ == chars@.subrange(from as int, i as int),
        decreases to - i,
    {
        out.push(chars[i]);
        i += 1;
    }
    out
}

/// Splits `chars` at every `sep`.
pub fn split_chars(chars: &[char], sep: char) -> (out: Vec<Vec<char>>)
    ensures
        out.deep_view() == split(chars@, sep),
{
    let mut out: Vec<Vec<char>> = Vec::new();
    let mut start: usize = 0;
    assert(chars@.skip(0) =~= chars@);
    loop
        invariant_except_break
            start <= chars.len(),
            split(chars@, sep) == out.deep_view() + split(chars@.skip(start as int), sep),
        ensures
            out.deep_view() == split(chars@, sep),
        decreases chars.len() - start,
    {
        let ghost rest = chars@.skip(start as int);
        let end = find_from(chars, start, sep);
        let piece = copy_range(chars, start, end);
        assert(piece.deep_view() =~= rest.take(end - start));
        out.push(piece);
        if end == chars.len() {
            assert(rest.take(end - start) =~= rest);
            break ;
        }
        assert(rest.skip(end - start + 1) =~= chars@.skip(end + 1));
        start = end + 1;
    }
    out
}

/// Whether `c` is one of the ten decimal digits.
pub open spec fn is_digit(c: char) -> bool {
    '0' <= c <= '9'
}

/// The number that a decimal digit stands for.
pub open spec fn digit_value(c: char) -> nat {
    (c as u32 - '0' as u32) as nat
}

/// The decimal digit that stands for `d`, a number below ten.
pub open spec fn digit_char(d: nat) -> char {
    (d + '0' as u32) as u8 as char
}

/// The number that a run of decimal digits stands for.
pub open spec fn digits_value(digits: Seq<char>) -> nat
    decreases digits.len(),
{
    if digits.len() == 0 {
        0
    } else {
        digits_value(digits.drop_last()) * 10 + digit_value(digits.last())
    }
}

/// Whether `digits` is a run of one or more decimal digits.
pub open spec fn is_digits(digits: Seq<char>) -> bool {
    digits.len() > 0 && forall|i: int| 0 <= i < digits.len() ==> is_digit(#[trigger] digits[i])
}

/// `s` without a `+` at its start.
pub open spec fn unsigned_part(s: Seq<char>) -> Seq<char> {
    if s.len() > 0 && s[0] == '+' {
        s.skip(1)
    } else {
        s
    }
}

/// The number that `s` is the decimal notation of: an optional `+`, then one
/// or more digits and nothing else; and the number must fit a `usize`.
pub open spec fn parse_decimal(s: Seq<char>) -> Option<usize> {
    let digits = unsigned_part(s);
    if is_digits(digits) && digits_value(digits) <= usize::MAX {
        Some(digits_value(digits) as usize)
    } else {
        None
    }
}

/// A longer run of digits stands for no smaller a number.
pub proof fn lemma_digits_value_grows(digits: Seq<char>, n: int)
    requires
        0 <= n <= digits.len(),
    ensures
        digits_value(digits.take(n)) <= digits_value(digits),
    decreases digits.len() - n,
{
    if n < digits.len() {
        lemma_digits_value_grows(digits, n + 1);
        assert(digits.take(n + 1).drop_last() =~= digits.take(n));
    } else {
        assert(digits.take(n) =~= digits);
    }
}

/// Reads `chars` as a decimal number.
pub fn parse_number(chars: &[char]) -> (out: Option<usize>)
    ensures
        out == parse_decimal(chars@),
{
    let start: usize = if chars.len() > 0 && chars[0] == '+' { 1 } else { 0 };
    let ghost digits = unsigned_part(chars@);
    if start == chars.len() {
        return None;
    }
    let mut value: usize = 0;
    let mut i: usize = start;
    while i < chars.len()
        invariant
            start <= i <= chars.len(),
            digits == chars@.skip(start as int),
            digits == unsigned_part(chars@),
            is_digits(digits.take(i - start)) || i == start,
            value == digits_value(digits.take(i - start)),
        decreases chars.len() - i,
    {
        let c = chars[i];
        if !('0' <= c && c <= '9') {
            assert(!is_digit(digits[i - start]));
            return None;
        }
        let d: usize = (c as u32 - '0' as u32) as usize;
        let ghost longer = digits.take(i - start + 1);
        assert(longer.drop_last() =~= digits.take(i - start));
        proof {
            if is_digits(digits) {
                lemma_digits_value_grows(digits, i - start + 1);
            }
        }
        let scaled = match value.checked_mul(10) {
            Some(v) => v,
            None => { return None; },
        };
        value = match scaled.checked_add(d) {
            Some(v) => v,
            None => { return None; },
        };
        i += 1;
    }
    assert(digits.take(i - start) =~= digits);
    Some(value)
}

/// The decimal notation of `n`, without sign or leading zeros.
pub open spec fn decimal_text(n: nat) -> Seq<char>
    decreases n,
{
    if n < 10 {
        seq![digit_char(n)]
    } else {
        decimal_text(n / 10).push(digit_char(n % 10))
    }
}

/// The decimal notation of a number is a run of digits that stands for the
/// number.
pub proof fn lemma_decimal_text_is_digits(n: nat)
    ensures
        is_digits(decimal_text(n)),
        digits_value(decimal_text(n)) == n,
    decreases n,
{
    if n < 10 {
        assert(digits_value(decimal_text(n).drop_last()) == 0);
    } else {
        lemma_decimal_text_is_digits(n / 10);
        assert(decimal_text(n).drop_last() =~= decimal_text(n / 10));
    }
}

/// Reading the decimal notation of a number gives the number back.
pub proof fn lemma_decimal_round_trip(n: nat)
    requires
        n <= usize::MAX,
    ensures
        parse_decimal(decimal_text(n)) == Some(n as usize),
{
    lemma_decimal_text_is_digits(n);
}

/// Appends the decimal notation of `n` to `out`.
pub fn push_decimal(out: &mut Vec<char>, n: usize)
    ensures
        final(out)@ == old(out)@ + decimal_text(n as nat),
    decreases n,
{
    if n >= 10 {
        push_decimal(out, n / 10);
    }
    let d: u8 = (n % 10) as u8;
    out.push((d + 48) as char);
}

} // verus!
