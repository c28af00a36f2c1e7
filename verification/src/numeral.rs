//! Base-10 text of unsigned numbers: how numeric attributes are written and
//! read back.

use vstd::prelude::*;
use crate::text::chars_of;

verus! {

/// The character of the digit `d`, for `d` in `0..10`.
pub open spec fn digit_char(d: int) -> char {
    ((48 + d) as u8) as char
}

/// Whether `c` is one of `0` to `9`.
pub open spec fn is_digit(c: char) -> bool {
    48 <= c as u32 <= 57
}

/// The value of the digit `c`.
pub open spec fn digit_value(c: char) -> int {
    c as u32 - 48
}

/// The base-10 text of `n`, without sign or leading zeros.
pub open spec fn decimal(n: nat) -> Seq<char>
    decreases n,
{
    if n < 10 {
        seq![digit_char(n as int)]
    } else {
        decimal(n / 10).push(digit_char((n % 10) as int))
    }
}

/// Whether every character of `s` is a digit.
pub open spec fn all_digits(s: Seq<char>) -> bool {
    forall|i: int| 0 <= i < s.len() ==> is_digit(#[trigger] s[i])
}

/// The number that a run of digits writes in base 10; leading zeros count
/// for nothing, the empty run is 0.
pub open spec fn digits_value(s: Seq<char>) -> nat
    decreases s.len(),
{
    if s.len() == 0 {
        0
    } else {
        (digits_value(s.drop_last()) * 10 + digit_value(s.last())) as nat
    }
}

/// `s` without one leading `+`.
pub open spec fn unsigned_digits(s: Seq<char>) -> Seq<char> {
    if s.len() > 0 && s[0] == '+' {
        s.skip(1)
    } else {
        s
    }
}

/// The number that `s` writes, where `s` is an optional `+` and then one or
/// more digits whose value is at most `max`; `None` for any other text.
pub open spec fn parse_unsigned(s: Seq<char>, max: nat) -> Option<nat> {
    let d = unsigned_digits(s);
    if d.len() > 0 && all_digits(d) && digits_value(d) <= max {
        Some(digits_value(d))
    } else {
        None
    }
}

/// The number that a numeric attribute stands for: its parsed value, and 0
/// where the attribute is missing or is no number at most `max`.
pub open spec fn number_or_zero(value: Option<Seq<char>>, max: nat) -> nat {
    match value {
        Some(s) => match parse_unsigned(s, max) {
            Some(n) => n,
            None => 0,
        },
        None => 0,
    }
}

/// The digits of a number are digits, and their value is the number.
pub proof fn lemma_decimal_value(n: nat)
    ensures
        decimal(n).len() > 0,
        all_digits(decimal(n)),
        digits_value(decimal(n)) == n,
        decimal(n)[0] != '+',
    decreases n,
{
    if n < 10 {
        let s = decimal(n);
        assert(s.drop_last() =~= Seq::<char>::empty());
        assert(digits_value(s.drop_last()) == 0);
        assert(digit_value(digit_char(n as int)) == n);
    } else {
        lemma_decimal_value(n / 10);
        let head = decimal(n / 10);
        let s = decimal(n);
        assert(s.drop_last() =~= head);
        assert(digit_value(digit_char((n % 10) as int)) == n % 10);
        assert(s[0] == head[0]);
    }
}

/// Reading back what was written gives the number, whenever the number is
/// within the bound.
pub proof fn lemma_parse_decimal(n: nat, max: nat)
    requires
        n <= max,
    ensures
        parse_unsigned(decimal(n), max) == Some(n),
        number_or_zero(Some(decimal(n)), max) == n,
{
    lemma_decimal_value(n);
}

/// The value of a run of digits is at least that of each of its prefixes.
proof fn lemma_prefix_value(s: Seq<char>, k: int)
    requires
        0 <= k <= s.len(),
        all_digits(s),
    ensures
        digits_value(s.take(k)) <= digits_value(s),
    decreases s.len() - k,
{
    if k == s.len() {
        assert(s.take(k) =~= s);
    } else {
        lemma_prefix_value(s, k + 1);
        let t = s.take(k + 1);
        assert(t.drop_last() =~= s.take(k));
        assert(is_digit(s[k]));
        assert(t.last() == s[k]);
    }
}

/// Appends the base-10 text of `n`.
fn push_decimal(n: u64, out: &mut String)
    ensures
        final(out)@ == old(out)@ + decimal(n as nat),
    decreases n,
{
    if n >= 10 {
        push_decimal(n / 10, out);
    }
    let d: u8 = (n % 10) as u8;
    out.push((48 + d) as char);
    proof {
        if n >= 10 {
            assert(final(out)@ =~= old(out)@ + decimal((n / 10) as nat).push(
                digit_char((n % 10) as int),
            ));
        } else {
            assert(final(out)@ =~= old(out)@ + seq![digit_char(n as int)]);
        }
    }
}

/// The base-10 text of `n`.
pub fn decimal_string(n: u64) -> (s: String)
    ensures
        s@ == decimal(n as nat),
{
    let mut s = String::new();
    push_decimal(n, &mut s);
    assert(Seq::<char>::empty() + decimal(n as nat) =~= decimal(n as nat));
    s
}

/// Reads an unsigned base-10 number of at most `max`.
pub fn parse_number(s: &str, max: u64) -> (r: Option<u64>)
    ensures
        match r {
            Some(n) => parse_unsigned(s@, max as nat) == Some(n as nat),
            None => parse_unsigned(s@, max as nat) is None,
        },
{
    let v = chars_of(s);
    let start: usize = if v.len() > 0 && v[0] == '+' {
        1
    } else {
        0
    };
    let ghost d = unsigned_digits(s@);
    assert(d =~= v@.skip(start as int));
    if start == v.len() {
        return None;
    }
    let mut acc: u64 = 0;
    let mut i: usize = start;
    while i < v.len()
        invariant
            start <= i <= v.len(),
            d == v@.skip(start as int),
            d == unsigned_digits(s@),
            all_digits(d.take(i - start)),
            acc == digits_value(d.take(i - start)),
            acc <= max,
        decreases v.len() - i,
    {
        let c = v[i];
        let ghost k = i - start;
        assert(d[k] == c);
        let code: u32 = c as u32;
        if code < 48 || code > 57 {
            assert(!is_digit(d[k]));
            return None;
        }
        let digit: u64 = (code - 48) as u64;
        proof {
            let t = d.take(k + 1);
            assert(t.drop_last() =~= d.take(k));
            assert(t.last() == c);
            assert forall|j: int| 0 <= j < t.len() implies is_digit(#[trigger] t[j]) by {
                if j < k {
                    assert(t[j] == d.take(k)[j]);
                }
            }
            assert(digits_value(t) == acc * 10 + digit);
        }
        if digit > max || acc > (max - digit) / 10 {
            proof {
                let t = d.take(k + 1);
                assert(digits_value(t) > max);
                if all_digits(d) {
                    lemma_prefix_value(d, k + 1);
                }
            }
            return None;
        }
        acc = acc * 10 + digit;
        i += 1;
    }
    assert(d.take(i - start) =~= d);
    Some(acc)
}

} // verus!
