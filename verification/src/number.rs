//! The grammar of number literals: signed decimal integers and decimal
//! fractions with an optional exponent.

use vstd::prelude::*;
use crate::text::to_chars;

verus! {

/// Whether `c` is an ASCII decimal digit.
pub open spec fn is_digit(c: char) -> bool {
    '0' <= c <= '9'
}

/// Whether `c` is a plus or minus sign.
pub open spec fn is_sign(c: char) -> bool {
    c == '+' || c == '-'
}

/// The number of digits that stand in `s` from position `from` on without a
/// break.
pub open spec fn digit_run(s: Seq<char>, from: int) -> int
    decreases s.len() - from,
{
    if 0 <= from < s.len() && is_digit(s[from]) {
        1 + digit_run(s, from + 1)
    } else {
        0
    }
}

/// Whether `s` from `from` on spells a word and ends with it, each letter
/// in either case. The word is given in lowercase and in uppercase.
pub open spec fn spells(s: Seq<char>, from: int, lower: Seq<char>, upper: Seq<char>) -> bool {
    &&& s.len() - from == lower.len()
    &&& forall|i: int| 0 <= i < lower.len() ==> s[from + i] == lower[i] || s[from + i] == upper[i]
}

/// Whether `s` from `from` on is an exponent that ends the text: `e` or `E`,
/// an optional sign, at least one digit.
pub open spec fn is_exponent(s: Seq<char>, from: int) -> bool {
    let digits = if from + 1 < s.len() && is_sign(s[from + 1]) {
        from + 2
    } else {
        from + 1
    };
    &&& 0 <= from < s.len()
    &&& (s[from] == 'e' || s[from] == 'E')
    &&& digit_run(s, digits) > 0
    &&& digits + digit_run(s, digits) == s.len()
}

/// Whether `s` from `from` on is a decimal number that ends the text: digits
/// with an optional fraction, or a fraction alone, at least one digit in all,
/// then an optional exponent.
pub open spec fn is_decimal(s: Seq<char>, from: int) -> bool {
    let whole = digit_run(s, from);
    let dot = from + whole;
    let has_dot = dot < s.len() && s[dot] == '.';
    let fraction = if has_dot {
        digit_run(s, dot + 1)
    } else {
        0
    };
    let end = if has_dot {
        dot + 1 + fraction
    } else {
        dot
    };
    &&& whole + fraction > 0
    &&& (end == s.len() || is_exponent(s, end))
}

/// Whether `s` is a literal of a binary floating-point number as the standard
/// library reads one: an optional sign, then `inf`, `infinity` or `nan` in any
/// case, or a decimal number.
pub open spec fn is_float_text(s: Seq<char>) -> bool {
    let from: int = if s.len() > 0 && is_sign(s[0]) {
        1
    } else {
        0
    };
    spells(s, from, seq!['i', 'n', 'f'], seq!['I', 'N', 'F']) || spells(
        s,
        from,
        seq!['i', 'n', 'f', 'i', 'n', 'i', 't', 'y'],
        seq!['I', 'N', 'F', 'I', 'N', 'I', 'T', 'Y'],
    ) || spells(s, from, seq!['n', 'a', 'n'], seq!['N', 'A', 'N']) || is_decimal(s, from)
}

/// Tests whether a character is an ASCII decimal digit.
pub fn char_is_digit(c: char) -> (r: bool)
    ensures
        r == is_digit(c),
{
    '0' <= c && c <= '9'
}

/// Tests whether a character is a plus or minus sign.
pub fn char_is_sign(c: char) -> (r: bool)
    ensures
        r == is_sign(c),
{
    c == '+' || c == '-'
}

/// Skips the digits that stand at `from` and returns the position after them.
pub fn skip_digits(chars: &Vec<char>, from: usize) -> (r: usize)
    requires
        from <= chars.len(),
    ensures
        r == from + digit_run(chars@, from as int),
        from <= r <= chars.len(),
    decreases chars.len() - from,
{
    if from < chars.len() && char_is_digit(chars[from]) {
        skip_digits(chars, from + 1)
    } else {
        from
    }
}

/// Tests whether `chars[from..]` spells a word given in both cases.
fn spells_word(chars: &Vec<char>, from: usize, lower: &Vec<char>, upper: &Vec<char>) -> (r: bool)
    requires
        from <= chars.len(),
        lower.len() == upper.len(),
    ensures
        r == spells(chars@, from as int, lower@, upper@),
{
    if chars.len() - from != lower.len() {
        return false;
    }
    let mut i: usize = 0;
    while i < lower.len()
        invariant
            i <= lower.len(),
            lower.len() == upper.len(),
            chars.len() - from == lower.len(),
            forall|j: int| 0 <= j < i ==> chars[from + j] == lower[j] || chars[from + j] == upper[j],
        decreases lower.len() - i,
    {
        let c = chars[from + i];
        if !(c == lower[i] || c == upper[i]) {
            return false;
        }
        i += 1;
    }
    true
}

/// Tests whether `chars[from..]` is an exponent that ends the text.
fn exponent_at(chars: &Vec<char>, from: usize) -> (r: bool)
    requires
        from <= chars.len(),
    ensures
        r == is_exponent(chars@, from as int),
{
    if from >= chars.len() || !(chars[from] == 'e' || chars[from] == 'E') {
        return false;
    }
    let digits: usize = if from + 1 < chars.len() && char_is_sign(chars[from + 1]) {
        from + 2
    } else {
        from + 1
    };
    let end = skip_digits(chars, digits);
    end > digits && end == chars.len()
}

/// Tests whether `chars[from..]` is a decimal number that ends the text.
fn decimal_at(chars: &Vec<char>, from: usize) -> (r: bool)
    requires
        from <= chars.len(),
    ensures
        r == is_decimal(chars@, from as int),
{
    let dot = skip_digits(chars, from);
    let has_dot = dot < chars.len() && chars[dot] == '.';
    let end: usize = if has_dot {
        skip_digits(chars, dot + 1)
    } else {
        dot
    };
    let digits: usize = if has_dot {
        (dot - from) + (end - (dot + 1))
    } else {
        dot - from
    };
    digits > 0 && (end == chars.len() || exponent_at(chars, end))
}

/// Tests whether `text` is a floating-point literal.
pub fn is_float_literal(text: &str) -> (r: bool)
    ensures
        r == is_float_text(text@),
{
    let chars = to_chars(text);
    let from: usize = if chars.len() > 0 && char_is_sign(chars[0]) {
        1
    } else {
        0
    };
    let inf: Vec<char> = vec!['i', 'n', 'f'];
    let inf_upper: Vec<char> = vec!['I', 'N', 'F'];
    let infinity: Vec<char> = vec!['i', 'n', 'f', 'i', 'n', 'i', 't', 'y'];
    let infinity_upper: Vec<char> = vec!['I', 'N', 'F', 'I', 'N', 'I', 'T', 'Y'];
    let nan: Vec<char> = vec!['n', 'a', 'n'];
    let nan_upper: Vec<char> = vec!['N', 'A', 'N'];
    assert(inf@ =~= seq!['i', 'n', 'f'] && inf_upper@ =~= seq!['I', 'N', 'F']);
    assert(infinity@ =~= seq!['i', 'n', 'f', 'i', 'n', 'i', 't', 'y']);
    assert(infinity_upper@ =~= seq!['I', 'N', 'F', 'I', 'N', 'I', 'T', 'Y']);
    assert(nan@ =~= seq!['n', 'a', 'n'] && nan_upper@ =~= seq!['N', 'A', 'N']);
    spells_word(&chars, from, &inf, &inf_upper) || spells_word(
        &chars,
        from,
        &infinity,
        &infinity_upper,
    ) || spells_word(&chars, from, &nan, &nan_upper) || decimal_at(&chars, from)
}

/// Whether all characters are digits.
pub open spec fn all_digits(s: Seq<char>) -> bool {
    forall|i: int| 0 <= i < s.len() ==> is_digit(#[trigger] s[i])
}

/// The number that a digit stands for.
pub open spec fn digit_value(c: char) -> int {
    c as int - '0' as int
}

/// The number that a sequence of digits denotes in base ten.
pub open spec fn digits_value(s: Seq<char>) -> int
    decreases s.len(),
{
    if s.len() == 0 {
        0
    } else {
        digits_value(s.drop_last()) * 10 + digit_value(s.last())
    }
}

/// The integer that a text denotes: an optional sign and at least one digit,
/// nothing before, between or after, and a value that fits 64 bits.
pub open spec fn integer_of_text(s: Seq<char>) -> Option<i64> {
    let signed = s.len() > 0 && is_sign(s[0]);
    let body = if signed {
        s.skip(1)
    } else {
        s
    };
    let value = if s.len() > 0 && s[0] == '-' {
        -digits_value(body)
    } else {
        digits_value(body)
    };
    if body.len() == 0 || !all_digits(body) || value < i64::MIN || value > i64::MAX {
        None
    } else {
        Some(value as i64)
    }
}

/// The value of digits is not negative and at least that of any of their
/// prefixes.
pub proof fn lemma_digits_value_grows(s: Seq<char>, k: int)
    requires
        all_digits(s),
        0 <= k <= s.len(),
    ensures
        0 <= digits_value(s.take(k)) <= digits_value(s),
    decreases s.len() - k,
{
    lemma_digits_value_nonnegative(s.take(k));
    if k == s.len() {
        assert(s.take(k) =~= s);
    } else {
        lemma_digits_value_grows(s, k + 1);
        let longer = s.take(k + 1);
        assert(longer.drop_last() =~= s.take(k));
        assert(is_digit(longer.last()));
    }
}

/// The value of digits is not negative.
pub proof fn lemma_digits_value_nonnegative(s: Seq<char>)
    requires
        all_digits(s),
    ensures
        0 <= digits_value(s),
    decreases s.len(),
{
    if s.len() > 0 {
        assert(is_digit(s.last()));
        assert forall|i: int| 0 <= i < s.drop_last().len() implies is_digit(
            #[trigger] s.drop_last()[i],
        ) by {
            assert(s.drop_last()[i] == s[i]);
        }
        lemma_digits_value_nonnegative(s.drop_last());
    }
}

/// Reads a signed decimal integer of 64 bits.
pub fn parse_integer(text: &str) -> (r: Option<i64>)
    ensures
        r == integer_of_text(text@),
{
    let chars = to_chars(text);
    let start: usize = if chars.len() > 0 && char_is_sign(chars[0]) {
        1
    } else {
        0
    };
    let negative = chars.len() > 0 && chars[0] == '-';
    let ghost body = if start == 1 {
        chars@.skip(1)
    } else {
        chars@
    };
    if start == chars.len() {
        return None;
    }
    let limit: i128 = 9223372036854775808;
    let mut value: i128 = 0;
    let mut i: usize = start;
    proof {
        assert(body.take(0) =~= Seq::<char>::empty());
        assert(chars@.skip(0) =~= chars@);
    }
    while i < chars.len()
        invariant
            start <= i <= chars.len(),
            chars@ == text@,
            start == (if chars@.len() > 0 && is_sign(chars@[0]) {
                1int
            } else {
                0int
            }),
            start < chars.len(),
            body == (if start == 1 {
                chars@.skip(1)
            } else {
                chars@
            }),
            body == chars@.skip(start as int),
            limit == 9223372036854775808,
            0 <= value <= limit,
            value == digits_value(body.take(i - start)),
            all_digits(body.take(i - start)),
        decreases chars.len() - i,
    {
        let c = chars[i];
        if !char_is_digit(c) {
            assert(body[i - start] == c);
            return None;
        }
        let digit: i128 = (c as u32 - '0' as u32) as i128;
        let ghost shorter = body.take(i - start);
        let ghost longer = body.take(i + 1 - start);
        proof {
            assert(longer.drop_last() =~= shorter);
            assert(longer.last() == c);
            assert(digit == digit_value(c));
            assert forall|j: int| 0 <= j < longer.len() implies is_digit(#[trigger] longer[j]) by {
                if j < shorter.len() {
                    assert(longer[j] == shorter[j]);
                }
            }
        }
        let next = value * 10 + digit;
        if next > limit {
            proof {
                if all_digits(body) {
                    lemma_digits_value_grows(body, i + 1 - start);
                }
            }
            return None;
        }
        value = next;
        i += 1;
    }
    proof {
        assert(body.take(body.len() as int) =~= body);
    }
    if negative {
        Some((-value) as i64)
    } else if value == limit {
        None
    } else {
        Some(value as i64)
    }
}

/// The character of a digit.
pub open spec fn digit_char(digit: int) -> char {
    if digit == 0 {
        '0'
    } else if digit == 1 {
        '1'
    } else if digit == 2 {
        '2'
    } else if digit == 3 {
        '3'
    } else if digit == 4 {
        '4'
    } else if digit == 5 {
        '5'
    } else if digit == 6 {
        '6'
    } else if digit == 7 {
        '7'
    } else if digit == 8 {
        '8'
    } else {
        '9'
    }
}

/// The decimal digits of a natural number, without leading zeros.
pub open spec fn nat_text(n: nat) -> Seq<char>
    decreases n,
{
    if n < 10 {
        seq![digit_char(n as int)]
    } else {
        nat_text(n / 10).push(digit_char((n % 10) as int))
    }
}

/// The decimal text of an integer: a minus sign for a negative number, then
/// the digits.
pub open spec fn integer_text(n: int) -> Seq<char> {
    if n < 0 {
        seq!['-'] + nat_text((-n) as nat)
    } else {
        nat_text(n as nat)
    }
}

/// The character of a digit.
fn char_of_digit(digit: u128) -> (r: char)
    requires
        digit < 10,
    ensures
        r == digit_char(digit as int),
{
    if digit == 0 {
        '0'
    } else if digit == 1 {
        '1'
    } else if digit == 2 {
        '2'
    } else if digit == 3 {
        '3'
    } else if digit == 4 {
        '4'
    } else if digit == 5 {
        '5'
    } else if digit == 6 {
        '6'
    } else if digit == 7 {
        '7'
    } else if digit == 8 {
        '8'
    } else {
        '9'
    }
}

/// Appends the decimal digits of a natural number.
fn push_digits(out: &mut Vec<char>, n: u128)
    ensures
        final(out)@ == old(out)@ + nat_text(n as nat),
    decreases n,
{
    if n >= 10 {
        push_digits(out, n / 10);
    }
    let ghost before = out@;
    out.push(char_of_digit(n % 10));
    proof {
        if n < 10 {
            assert(old(out)@.push(digit_char(n as int)) =~= old(out)@ + nat_text(n as nat));
        } else {
            assert(before.push(digit_char((n % 10) as int)) =~= old(out)@ + nat_text(n as nat));
        }
    }
}

/// Writes an integer in decimal.
pub fn integer_chars(n: i64) -> (out: Vec<char>)
    ensures
        out@ == integer_text(n as int),
{
    let mut out: Vec<char> = Vec::new();
    if n < 0 {
        out.push('-');
        let magnitude: u128 = (-(n as i128)) as u128;
        push_digits(&mut out, magnitude);
    } else {
        push_digits(&mut out, n as u128);
        assert(out@ =~= nat_text(n as nat));
    }
    out
}

/// Writes a natural number in decimal.
pub fn number_chars(n: usize) -> (out: Vec<char>)
    ensures
        out@ == nat_text(n as nat),
{
    let mut out: Vec<char> = Vec::new();
    push_digits(&mut out, n as u128);
    assert(out@ =~= nat_text(n as nat));
    out
}

} // verus!
