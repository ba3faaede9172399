//! Decimal text for integers: reading it and writing it.

use vstd::prelude::*;
use vstd::string::*;

verus! {

/// The character that stands for a digit below ten.
pub open spec fn digit_char(d: int) -> char {
    (d + 48) as char
}

/// Whether `c` is one of `0` to `9`.
pub open spec fn is_digit(c: char) -> bool {
    '0' <= c <= '9'
}

/// The digit that `c` stands for.
pub open spec fn digit_value(c: char) -> int {
    c as int - 48
}

/// Whether every character of `s` is a digit.
pub open spec fn all_digits(s: Seq<char>) -> bool {
    forall|i: int| 0 <= i < s.len() ==> is_digit(#[trigger] s[i])
}

/// The number that a run of digits denotes, most significant digit first.
pub open spec fn digits_value(s: Seq<char>) -> int
    decreases s.len(),
{
    if s.len() == 0 {
        0
    } else {
        digits_value(s.drop_last()) * 10 + digit_value(s.last())
    }
}

/// The integer that `s` denotes: an optional `+` or `-`, then at least one
/// digit and nothing else. Anything else denotes no integer.
pub open spec fn parse_int(s: Seq<char>) -> Option<int> {
    if s.len() == 0 {
        None
    } else if s[0] == '-' || s[0] == '+' {
        let body = s.subrange(1, s.len() as int);
        if body.len() > 0 && all_digits(body) {
            Some(
                if s[0] == '-' {
                    -digits_value(body)
                } else {
                    digits_value(body)
                },
            )
        } else {
            None
        }
    } else if all_digits(s) {
        Some(digits_value(s))
    } else {
        None
    }
}

/// The `i64` that `s` denotes, if it denotes an integer in range.
pub open spec fn parse_i64_spec(s: Seq<char>) -> Option<i64> {
    match parse_int(s) {
        Some(v) => if i64::MIN <= v <= i64::MAX {
            Some(v as i64)
        } else {
            None
        },
        None => None,
    }
}

/// The `i32` that `s` denotes, if it denotes an integer in range.
pub open spec fn parse_i32_spec(s: Seq<char>) -> Option<i32> {
    match parse_int(s) {
        Some(v) => if i32::MIN <= v <= i32::MAX {
            Some(v as i32)
        } else {
            None
        },
        None => None,
    }
}

/// The digits of a natural number, without leading zeros.
pub open spec fn nat_string(n: nat) -> Seq<char>
    decreases n,
{
    if n < 10 {
        seq![digit_char(n as int)]
    } else {
        nat_string(n / 10).push(digit_char((n % 10) as int))
    }
}

/// The decimal text of an integer: a `-` for a negative one, then its digits.
pub open spec fn decimal_string(n: int) -> Seq<char> {
    if n < 0 {
        seq!['-'] + nat_string((-n) as nat)
    } else {
        nat_string(n as nat)
    }
}

/// Appending one digit multiplies the value by ten and adds the digit.
pub proof fn lemma_digits_value_push(s: Seq<char>, c: char)
    ensures
        digits_value(s.push(c)) == digits_value(s) * 10 + digit_value(c),
{
    assert(s.push(c).drop_last() =~= s);
}

/// A run of digits denotes a number that is not negative.
pub proof fn lemma_digits_value_nonnegative(s: Seq<char>)
    requires
        all_digits(s),
    ensures
        digits_value(s) >= 0,
    decreases s.len(),
{
    if s.len() > 0 {
        lemma_digits_value_nonnegative(s.drop_last());
    }
}

/// The digits of `n` are digits, at least one of them, and denote `n`.
pub proof fn lemma_nat_string(n: nat)
    ensures
        nat_string(n).len() >= 1,
        all_digits(nat_string(n)),
        digits_value(nat_string(n)) == n,
    decreases n,
{
    if n < 10 {
        let s = nat_string(n);
        assert(s.drop_last() =~= Seq::<char>::empty());
        assert(digits_value(s.drop_last()) == 0);
    } else {
        lemma_nat_string(n / 10);
        lemma_digits_value_push(nat_string(n / 10), digit_char((n % 10) as int));
    }
}

/// Reading the decimal text of an integer gives the integer back.
pub proof fn lemma_parse_decimal_string(n: int)
    ensures
        parse_int(decimal_string(n)) == Some(n),
{
    if n < 0 {
        let digits = nat_string((-n) as nat);
        lemma_nat_string((-n) as nat);
        let s = decimal_string(n);
        assert(s.subrange(1, s.len() as int) =~= digits);
    } else {
        lemma_nat_string(n as nat);
        let s = decimal_string(n);
        assert(is_digit(s[0]));
    }
}

/// The character for the digit `d`.
pub fn digit_to_char(d: u8) -> (c: char)
    requires
        d < 10,
    ensures
        c == digit_char(d as int),
{
    (48u8 + d) as char
}

/// Appends the digits of `n` to `out`.
pub fn push_digits(out: &mut String, n: u64)
    ensures
        final(out)@ == old(out)@ + nat_string(n as nat),
    decreases n,
{
    if n >= 10 {
        push_digits(out, n / 10);
    }
    out.push(digit_to_char((n % 10) as u8));
    proof {
        if n >= 10 {
            let front = old(out)@ + nat_string((n / 10) as nat);
            assert(old(out)@ + nat_string(n as nat) =~= front.push(digit_char((n % 10) as int)));
        } else {
            assert(old(out)@ + nat_string(n as nat) =~= old(out)@.push(digit_char(n as int)));
        }
    }
}

/// The decimal text of `n`.
pub fn format_u64(n: u64) -> (text: String)
    ensures
        text@ == decimal_string(n as int),
{
    let mut text = String::new();
    push_digits(&mut text, n);
    assert(text@ =~= nat_string(n as nat));
    text
}

/// The decimal text of `n`.
pub fn format_i64(n: i64) -> (text: String)
    ensures
        text@ == decimal_string(n as int),
{
    let mut text = String::new();
    if n < 0 {
        text.push('-');
        let magnitude: u64 = ((-(n + 1)) as u64) + 1;
        push_digits(&mut text, magnitude);
        assert(text@ =~= seq!['-'] + nat_string((-n) as nat));
    } else {
        push_digits(&mut text, n as u64);
        assert(text@ =~= nat_string(n as nat));
    }
    text
}

/// Reads `s` as a signed integer whose magnitude is at most `limit` when it
/// is negative and below `limit` otherwise.
fn parse_bounded(s: &str, limit: u64) -> (r: Option<i64>)
    requires
        0 < limit <= 0x8000_0000_0000_0000,
    ensures
        r == match parse_int(s@) {
            Some(v) => if -limit <= v < limit {
                Some(v as i64)
            } else {
                None
            },
            None => None,
        },
{
    let mut negative = false;
    let mut signed = false;
    let mut started = false;
    let mut any_digit = false;
    let mut value: u64 = 0;
    let mut overflow = false;
    for c in it: s.chars()
        invariant
            it.seq() == s@,
            0 < limit <= 0x8000_0000_0000_0000,
            started == (it.index() >= 1),
            !started ==> !signed && !any_digit && value == 0 && !overflow,
            signed ==> started && (s@[0] == '-' || s@[0] == '+') && negative == (s@[0] == '-'),
            !signed ==> !negative,
            !signed && started ==> s@[0] != '-' && s@[0] != '+',
            any_digit == (it.index() > (if signed { 1int } else { 0int })),
            started ==> all_digits(
                s@.subrange(if signed { 1int } else { 0int }, it.index() as int),
            ),
            started && !overflow ==> value <= limit && value == digits_value(
                s@.subrange(if signed { 1int } else { 0int }, it.index() as int),
            ),
            overflow ==> started && digits_value(
                s@.subrange(if signed { 1int } else { 0int }, it.index() as int),
            ) > limit,
    {
        let ghost i = it.index() as int;
        assert(c == s@[i]);
        if !started && (c == '-' || c == '+') {
            signed = true;
            negative = c == '-';
            assert(s@.subrange(1, 1) =~= Seq::<char>::empty());
        } else if '0' <= c && c <= '9' {
            let d: u64 = (c as u64) - 48;
            let ghost start = if signed { 1int } else { 0int };
            let ghost before = s@.subrange(start, i);
            proof {
                if !started {
                    assert(before =~= Seq::<char>::empty());
                }
                assert(s@.subrange(start, i + 1) =~= before.push(c));
                lemma_digits_value_push(before, c);
                lemma_digits_value_nonnegative(before);
                assert forall|j: int| 0 <= j < before.push(c).len() implies is_digit(
                    #[trigger] before.push(c)[j],
                ) by {
                    if j < before.len() {
                        assert(before.push(c)[j] == before[j]);
                    }
                }
            }
            if !overflow {
                let next: u128 = (value as u128) * 10 + (d as u128);
                if next > limit as u128 {
                    overflow = true;
                } else {
                    value = next as u64;
                }
            }
            any_digit = true;
        } else {
            proof {
                if signed {
                    let body = s@.subrange(1, s@.len() as int);
                    assert(body[i - 1] == c);
                    assert(!is_digit(body[i - 1]));
                } else {
                    assert(!is_digit(s@[i]));
                }
            }
            return None;
        }
        started = true;
    }
    assert(s@.subrange(0, s@.len() as int) =~= s@);
    if !any_digit || overflow {
        return None;
    }
    if negative {
        if value == 0x8000_0000_0000_0000 {
            Some(i64::MIN)
        } else {
            Some(-(value as i64))
        }
    } else if value < limit {
        Some(value as i64)
    } else {
        None
    }
}

/// Reads `s` as an `i64`. `None` where `s` denotes no integer or one out of
/// range.
pub fn parse_i64(s: &str) -> (r: Option<i64>)
    ensures
        r == parse_i64_spec(s@),
{
    parse_bounded(s, 0x8000_0000_0000_0000)
}

/// Reads `s` as an `i32`. `None` where `s` denotes no integer or one out of
/// range.
pub fn parse_i32(s: &str) -> (r: Option<i32>)
    ensures
        r == parse_i32_spec(s@),
{
    match parse_bounded(s, 0x8000_0000) {
        Some(v) => Some(v as i32),
        None => None,
    }
}

} // verus!
