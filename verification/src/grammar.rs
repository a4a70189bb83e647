//! What a line of input means: surrounding whitespace is dropped, then the
//! rest must be an unsigned decimal number that fits in 32 bits. This file
//! says so over sequences of characters and proves what follows from it.

use vstd::prelude::*;

verus! {

/// Whether `c` is a Unicode whitespace character (the `White_Space` property).
pub open spec fn is_whitespace(c: char) -> bool {
    let n = c as u32;
    ||| 0x09 <= n <= 0x0D
    ||| n == 0x20
    ||| n == 0x85
    ||| n == 0xA0
    ||| n == 0x1680
    ||| 0x2000 <= n <= 0x200A
    ||| n == 0x2028
    ||| n == 0x2029
    ||| n == 0x202F
    ||| n == 0x205F
    ||| n == 0x3000
}

/// Whether `c` is one of the ASCII digits `0` to `9`.
pub open spec fn is_digit(c: char) -> bool {
    0x30 <= c as u32 <= 0x39
}

/// The number a digit stands for.
pub open spec fn digit_value(c: char) -> nat
    recommends
        is_digit(c),
{
    (c as u32 - 0x30) as nat
}

/// `s` without its leading whitespace.
pub open spec fn trim_start(s: Seq<char>) -> Seq<char>
    decreases s.len(),
{
    if s.len() > 0 && is_whitespace(s.first()) {
        trim_start(s.drop_first())
    } else {
        s
    }
}

/// `s` without its trailing whitespace.
pub open spec fn trim_end(s: Seq<char>) -> Seq<char>
    decreases s.len(),
{
    if s.len() > 0 && is_whitespace(s.last()) {
        trim_end(s.drop_last())
    } else {
        s
    }
}

/// `s` without its leading and trailing whitespace.
pub open spec fn trim(s: Seq<char>) -> Seq<char> {
    trim_end(trim_start(s))
}

/// Whether every character of `s` is a digit.
pub open spec fn all_digits(s: Seq<char>) -> bool {
    forall|i: int| 0 <= i < s.len() ==> is_digit(#[trigger] s[i])
}

/// The number that a string of digits writes in base ten.
pub open spec fn decimal_value(s: Seq<char>) -> nat
    decreases s.len(),
{
    if s.len() == 0 {
        0
    } else {
        10 * decimal_value(s.drop_last()) + digit_value(s.last())
    }
}

/// `s` without one leading plus sign, if it has one.
pub open spec fn strip_plus(s: Seq<char>) -> Seq<char> {
    if s.len() > 0 && s.first() == '+' {
        s.drop_first()
    } else {
        s
    }
}

/// The number that one or more digits write, where it fits in 32 bits.
pub open spec fn parse_digits(digits: Seq<char>) -> Option<u32> {
    if digits.len() > 0 && all_digits(digits) && decimal_value(digits) <= u32::MAX {
        Some(decimal_value(digits) as u32)
    } else {
        None
    }
}

/// The number that `s` writes: an optional plus sign, then one or more digits
/// whose value fits in 32 bits. Anything else writes no number.
pub open spec fn parse_unsigned(s: Seq<char>) -> Option<u32> {
    parse_digits(strip_plus(s))
}

/// The guess that a raw line of input holds, if it holds one.
pub open spec fn parsed_guess(raw: Seq<char>) -> Option<u32> {
    parse_unsigned(trim(raw))
}

/// `trim_start` drops a run of whitespace from the front and stops at the
/// first character that is not whitespace. Returns how many it drops.
pub proof fn lemma_trim_start_is_suffix(s: Seq<char>) -> (k: int)
    ensures
        0 <= k <= s.len(),
        trim_start(s) == s.subrange(k, s.len() as int),
        forall|i: int| 0 <= i < k ==> is_whitespace(#[trigger] s[i]),
        k < s.len() ==> !is_whitespace(s[k]),
    decreases s.len(),
{
    if s.len() > 0 && is_whitespace(s.first()) {
        let rest = s.drop_first();
        let inner = lemma_trim_start_is_suffix(rest);
        assert(rest.subrange(inner, rest.len() as int) =~= s.subrange(inner + 1, s.len() as int));
        assert forall|i: int| 0 <= i < inner + 1 implies is_whitespace(#[trigger] s[i]) by {
            if i > 0 {
                assert(rest[i - 1] == s[i]);
            }
        }
        if inner + 1 < s.len() {
            assert(rest[inner] == s[inner + 1]);
        }
        inner + 1
    } else {
        assert(s.subrange(0, s.len() as int) =~= s);
        0
    }
}

/// `trim_end` drops a run of whitespace from the back and stops at the last
/// character that is not whitespace. Returns how many characters it keeps.
pub proof fn lemma_trim_end_is_prefix(s: Seq<char>) -> (k: int)
    ensures
        0 <= k <= s.len(),
        trim_end(s) == s.subrange(0, k),
        forall|i: int| k <= i < s.len() ==> is_whitespace(#[trigger] s[i]),
        0 < k ==> !is_whitespace(s[k - 1]),
    decreases s.len(),
{
    if s.len() > 0 && is_whitespace(s.last()) {
        let rest = s.drop_last();
        let inner = lemma_trim_end_is_prefix(rest);
        assert(rest.subrange(0, inner) =~= s.subrange(0, inner));
        assert forall|i: int| inner <= i < s.len() implies is_whitespace(#[trigger] s[i]) by {
            if i < s.len() - 1 {
                assert(rest[i] == s[i]);
            }
        }
        if 0 < inner {
            assert(rest[inner - 1] == s[inner - 1]);
        }
        inner
    } else {
        assert(s.subrange(0, s.len() as int) =~= s);
        s.len() as int
    }
}

/// `trim` keeps the stretch between the first and the last character that is
/// not whitespace, and everything outside that stretch is whitespace. Returns
/// where the stretch begins and ends.
pub proof fn lemma_trim_is_middle(s: Seq<char>) -> (bounds: (int, int))
    ensures
        0 <= bounds.0 <= bounds.1 <= s.len(),
        trim(s) == s.subrange(bounds.0, bounds.1),
        forall|i: int| 0 <= i < bounds.0 ==> is_whitespace(#[trigger] s[i]),
        forall|i: int| bounds.1 <= i < s.len() ==> is_whitespace(#[trigger] s[i]),
        bounds.0 < bounds.1 ==> !is_whitespace(s[bounds.0]) && !is_whitespace(s[bounds.1 - 1]),
{
    let from = lemma_trim_start_is_suffix(s);
    let tail = s.subrange(from, s.len() as int);
    let kept = lemma_trim_end_is_prefix(tail);
    assert(tail.subrange(0, kept) =~= s.subrange(from, from + kept));
    assert forall|i: int| from + kept <= i < s.len() implies is_whitespace(#[trigger] s[i]) by {
        assert(tail[i - from] == s[i]);
    }
    if 0 < kept {
        assert(tail[kept - 1] == s[from + kept - 1]);
    }
    (from, from + kept)
}

/// Text made of whitespace alone, the empty text included, holds no guess.
pub proof fn lemma_blank_text_holds_no_guess(raw: Seq<char>)
    requires
        forall|i: int| 0 <= i < raw.len() ==> is_whitespace(#[trigger] raw[i]),
    ensures
        parsed_guess(raw) is None,
{
    let (from, to) = lemma_trim_is_middle(raw);
    assert(trim(raw).len() == 0);
}

/// Text that holds a guess is made of whitespace, digits and plus signs
/// alone, and has at least one digit. So text with any other character, a
/// letter or a minus sign, holds no guess.
pub proof fn lemma_guess_text_shape(raw: Seq<char>)
    requires
        parsed_guess(raw) is Some,
    ensures
        forall|i: int|
            0 <= i < raw.len() ==> is_whitespace(#[trigger] raw[i]) || is_digit(raw[i]) || raw[i]
                == '+',
        exists|i: int| 0 <= i < raw.len() && is_digit(#[trigger] raw[i]),
{
    let (from, to) = lemma_trim_is_middle(raw);
    let body = trim(raw);
    let digits = strip_plus(body);
    let skipped: int = if body.len() > 0 && body.first() == '+' {
        1
    } else {
        0
    };
    assert(digits =~= raw.subrange(from + skipped, to));
    assert forall|i: int| 0 <= i < raw.len() implies is_whitespace(#[trigger] raw[i]) || is_digit(
        raw[i],
    ) || raw[i] == '+' by {
        if from + skipped <= i < to {
            assert(digits[i - from - skipped] == raw[i]);
        } else if from <= i < to {
            assert(body[0] == raw[i]);
        }
    }
    assert(digits[0] == raw[from + skipped]);
    assert(is_digit(raw[from + skipped]));
}

/// The character that writes the digit `d`.
pub open spec fn digit_char(d: nat) -> char
    recommends
        d < 10,
{
    ((d + 0x30) as u8) as char
}

/// The usual way to write `n` in base ten: no sign, no leading zeros.
pub open spec fn decimal_text(n: nat) -> Seq<char>
    decreases n,
{
    if n < 10 {
        seq![digit_char(n)]
    } else {
        decimal_text(n / 10).push(digit_char(n % 10))
    }
}

/// `decimal_text(n)` is one or more digits that write `n`.
pub proof fn lemma_decimal_text_value(n: nat)
    ensures
        decimal_text(n).len() > 0,
        all_digits(decimal_text(n)),
        decimal_value(decimal_text(n)) == n,
    decreases n,
{
    let text = decimal_text(n);
    if n < 10 {
        assert(is_digit(digit_char(n)) && digit_value(digit_char(n)) == n);
        assert(text.drop_last() =~= Seq::<char>::empty());
        assert(decimal_value(Seq::<char>::empty()) == 0);
        assert(text.last() == digit_char(n));
    } else {
        lemma_decimal_text_value(n / 10);
        let d = n % 10;
        assert(is_digit(digit_char(d)) && digit_value(digit_char(d)) == d);
        assert(text.drop_last() =~= decimal_text(n / 10));
        assert(text.last() == digit_char(d));
    }
}

/// Every number that fits in 32 bits can be submitted: its usual decimal
/// text holds it as a guess.
pub proof fn lemma_decimal_text_is_parsed(n: u32)
    ensures
        parsed_guess(decimal_text(n as nat)) == Some(n),
{
    let text = decimal_text(n as nat);
    lemma_decimal_text_value(n as nat);
    assert(is_digit(text.first()) && is_digit(text.last()));
    assert(trim_start(text) == text);
    assert(trim_end(text) == text);
    assert(strip_plus(text) == text);
}

/// Whitespace before and after a text does not change the guess it holds.
pub proof fn lemma_surrounding_whitespace_is_ignored(
    before: Seq<char>,
    text: Seq<char>,
    after: Seq<char>,
)
    requires
        forall|i: int| 0 <= i < before.len() ==> is_whitespace(#[trigger] before[i]),
        forall|i: int| 0 <= i < after.len() ==> is_whitespace(#[trigger] after[i]),
    ensures
        parsed_guess(before + text + after) == parsed_guess(text),
{
    let padded = before + text + after;
    let shift = before.len() as int;
    let (from, to) = lemma_trim_is_middle(text);
    let (padded_from, padded_to) = lemma_trim_is_middle(padded);
    assert forall|i: int| 0 <= i < padded.len() implies #[trigger] padded[i] == (if i < shift {
        before[i]
    } else if i < shift + text.len() {
        text[i - shift]
    } else {
        after[i - shift - text.len()]
    }) by {}
    assert forall|i: int| 0 <= i < shift + from implies is_whitespace(#[trigger] padded[i]) by {
        if i >= shift {
            assert(is_whitespace(text[i - shift]));
        }
    }
    assert forall|i: int| shift + to <= i < padded.len() implies is_whitespace(
        #[trigger] padded[i],
    ) by {
        if i < shift + text.len() {
            assert(is_whitespace(text[i - shift]));
        }
    }
    if from < to {
        assert(!is_whitespace(padded[shift + from]) && !is_whitespace(padded[shift + to - 1]));
        assert(padded_from == shift + from && padded_to == shift + to);
    } else {
        assert(padded_from == padded_to);
    }
    assert(padded.subrange(padded_from, padded_to) =~= text.subrange(from, to));
}

} // verus!
