//! Reading a guess from raw text, as the grammar defines it.

use crate::grammar::{
    all_digits, decimal_value, digit_value, is_digit, is_whitespace, parse_digits, parsed_guess,
    trim, trim_end, trim_start,
};
use vstd::prelude::*;

verus! {

/// Tells whether a character is whitespace.
fn char_is_whitespace(c: char) -> (b: bool)
    ensures
        b == is_whitespace(c),
{
    let n: u32 = c as u32;
    (0x09 <= n && n <= 0x0D) || n == 0x20 || n == 0x85 || n == 0xA0 || n == 0x1680 || (0x2000 <= n
        && n <= 0x200A) || n == 0x2028 || n == 0x2029 || n == 0x202F || n == 0x205F || n == 0x3000
}

/// The value of a character that is a digit.
fn char_digit(c: char) -> (d: Option<u32>)
    ensures
        d is Some <==> is_digit(c),
        d matches Some(v) ==> v == digit_value(c),
{
    let n: u32 = c as u32;
    if 0x30 <= n && n <= 0x39 {
        Some(n - 0x30)
    } else {
        None
    }
}

/// Decodes the text into its characters.
fn collect_chars(raw: &str) -> (chars: Vec<char>)
    ensures
        chars@ == raw@,
{
    let mut chars: Vec<char> = Vec::new();
    for c in it: raw.chars()
        invariant
            chars@ == it.seq().take(it.index()),
            it.seq() == raw@,
    {
        chars.push(c);
    }
    chars
}

/// Dropping leading whitespace one character at a time reaches `trim_start`.
proof fn lemma_trim_start_step(s: Seq<char>, start: int)
    requires
        0 <= start < s.len(),
        is_whitespace(s[start]),
    ensures
        trim_start(s.subrange(start, s.len() as int)) == trim_start(
            s.subrange(start + 1, s.len() as int),
        ),
{
    let rest = s.subrange(start, s.len() as int);
    assert(rest.first() == s[start]);
    assert(rest.drop_first() =~= s.subrange(start + 1, s.len() as int));
}

/// Dropping trailing whitespace one character at a time reaches `trim_end`.
proof fn lemma_trim_end_step(s: Seq<char>, start: int, end: int)
    requires
        0 <= start < end <= s.len(),
        is_whitespace(s[end - 1]),
    ensures
        trim_end(s.subrange(start, end)) == trim_end(s.subrange(start, end - 1)),
{
    let rest = s.subrange(start, end);
    assert(rest.last() == s[end - 1]);
    assert(rest.drop_last() =~= s.subrange(start, end - 1));
}

/// A prefix of a digit string never writes a larger number than the whole.
proof fn lemma_decimal_value_prefix(s: Seq<char>, n: int)
    requires
        0 <= n <= s.len(),
    ensures
        decimal_value(s.subrange(0, n)) <= decimal_value(s),
    decreases s.len(),
{
    if n == s.len() {
        assert(s.subrange(0, n) =~= s);
    } else {
        assert(s.subrange(0, n) =~= s.drop_last().subrange(0, n));
        lemma_decimal_value_prefix(s.drop_last(), n);
    }
}

/// Appending one digit multiplies the value by ten and adds the digit.
proof fn lemma_decimal_value_extend(s: Seq<char>, n: int)
    requires
        0 <= n < s.len(),
    ensures
        decimal_value(s.subrange(0, n + 1)) == 10 * decimal_value(s.subrange(0, n)) + digit_value(
            s[n],
        ),
{
    let longer = s.subrange(0, n + 1);
    assert(longer.last() == s[n]);
    assert(longer.drop_last() =~= s.subrange(0, n));
}

/// Finds where the text without its surrounding whitespace begins and ends.
fn trimmed_bounds(chars: &Vec<char>) -> (bounds: (usize, usize))
    ensures
        bounds.0 <= bounds.1 <= chars.len(),
        chars@.subrange(bounds.0 as int, bounds.1 as int) == trim(chars@),
{
    let len: usize = chars.len();
    let mut start: usize = 0;
    assert(chars@.subrange(0, len as int) =~= chars@);
    while start < len && char_is_whitespace(chars[start])
        invariant
            start <= len == chars.len(),
            trim_start(chars@) == trim_start(chars@.subrange(start as int, len as int)),
        decreases len - start,
    {
        proof {
            lemma_trim_start_step(chars@, start as int);
        }
        start = start + 1;
    }
    let mut end: usize = len;
    while end > start && char_is_whitespace(chars[end - 1])
        invariant
            start <= end <= len == chars.len(),
            trim_end(chars@.subrange(start as int, len as int)) == trim_end(
                chars@.subrange(start as int, end as int),
            ),
        decreases end,
    {
        proof {
            lemma_trim_end_step(chars@, start as int, end as int);
        }
        end = end - 1;
    }
    (start, end)
}

/// Reads the digits between two positions as a number.
fn digits_value(chars: &Vec<char>, from: usize, to: usize) -> (value: Option<u32>)
    requires
        from <= to <= chars.len(),
    ensures
        value == parse_digits(chars@.subrange(from as int, to as int)),
{
    let ghost digits = chars@.subrange(from as int, to as int);
    if from == to {
        return None;
    }
    let mut value: u32 = 0;
    let mut i: usize = from;
    assert(digits.subrange(0, 0) =~= Seq::<char>::empty());
    while i < to
        invariant
            from <= i <= to <= chars.len(),
            digits == chars@.subrange(from as int, to as int),
            all_digits(digits.subrange(0, i - from)),
            value == decimal_value(digits.subrange(0, i - from)),
        decreases to - i,
    {
        proof {
            lemma_decimal_value_extend(digits, i - from);
            lemma_decimal_value_prefix(digits, i - from + 1);
        }
        let digit: u32 = match char_digit(chars[i]) {
            Some(d) => d,
            None => {
                assert(!is_digit(digits[i - from]));
                return None;
            },
        };
        let wide: u64 = value as u64 * 10 + digit as u64;
        if wide > u32::MAX as u64 {
            return None;
        }
        value = wide as u32;
        i = i + 1;
        assert(all_digits(digits.subrange(0, i - from))) by {
            assert forall|k: int| 0 <= k < i - from implies is_digit(
                #[trigger] digits.subrange(0, i - from)[k],
            ) by {
                if k < i - from - 1 {
                    assert(digits.subrange(0, i - from - 1)[k] == digits[k]);
                }
            }
        }
    }
    assert(digits.subrange(0, to - from) =~= digits);
    Some(value)
}

/// Reads a guess from raw text.
///
/// Whitespace around the text is ignored. What is left must be an optional
/// plus sign followed by at least one decimal digit, and the number must fit
/// in 32 bits; leading zeros are allowed.
pub fn parse_guess(raw: &str) -> (guess: Option<u32>)
    ensures
        guess == parsed_guess(raw@),
{
    let chars = collect_chars(raw);
    let (start, end) = trimmed_bounds(&chars);
    let ghost body = chars@.subrange(start as int, end as int);
    if start < end && chars[start] == '+' {
        assert(body.first() == '+');
        assert(body.drop_first() =~= chars@.subrange(start + 1, end as int));
        digits_value(&chars, start + 1, end)
    } else {
        assert(start < end ==> body.first() == chars@[start as int]);
        digits_value(&chars, start, end)
    }
}

} // verus!
