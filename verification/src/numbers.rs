//! Decimal numerals: reading them the way `str::parse` does for unsigned
//! integers, and writing them the way `Display` does.

use crate::text;
use vstd::prelude::*;

verus! {

/// Whether every character of `s` is an ASCII digit.
pub open spec fn all_digits(s: Seq<char>) -> bool {
    forall|i: int| 0 <= i < s.len() ==> text::is_ascii_digit(s[i])
}

/// The value of a string of decimal digits.
pub open spec fn decimal_value(s: Seq<char>) -> nat
    decreases s.len(),
{
    if s.len() == 0 {
        0
    } else {
        10 * decimal_value(s.drop_last()) + ((s.last() as u32) - 48) as nat
    }
}

/// Lemma: a prefix of a digit string has no larger value.
pub proof fn lemma_decimal_prefix(s: Seq<char>, i: int)
    requires
        0 <= i <= s.len(),
        all_digits(s),
    ensures
        decimal_value(s.take(i)) <= decimal_value(s),
    decreases s.len(),
{
    if i < s.len() {
        assert(s.drop_last().take(i) =~= s.take(i));
        lemma_decimal_prefix(s.drop_last(), i);
    } else {
        assert(s.take(i) =~= s);
    }
}

/// The value of `s` when it is a non-empty run of ASCII digits whose value
/// is at most `bound`.
pub open spec fn bounded_decimal(s: Seq<char>, bound: nat) -> Option<nat> {
    if s.len() > 0 && all_digits(s) && decimal_value(s) <= bound {
        Some(decimal_value(s))
    } else {
        None
    }
}

/// Executable `bounded_decimal`.
pub fn decimal_at_most(s: &[char], bound: u64) -> (r: Option<u64>)
    ensures
        match r {
            Some(v) => bounded_decimal(s@, bound as nat) == Some(v as nat),
            None => bounded_decimal(s@, bound as nat) is None,
        },
{
    if s.len() == 0 {
        return None;
    }
    let mut v: u128 = 0;
    let mut i: usize = 0;
    assert(s@.take(0) =~= Seq::<char>::empty());
    while i < s.len()
        invariant
            i <= s@.len(),
            v as nat == decimal_value(s@.take(i as int)),
            v <= bound,
            forall|k: int| 0 <= k < i ==> text::is_ascii_digit(s@[k]),
        decreases s@.len() - i,
    {
        let c = s[i];
        if !('0' <= c && c <= '9') {
            return None;
        }
        assert(s@.take(i + 1).drop_last() =~= s@.take(i as int));
        v = v * 10 + ((c as u32) - 48) as u128;
        if v > bound as u128 {
            proof {
                if all_digits(s@) {
                    lemma_decimal_prefix(s@, i + 1);
                }
            }
            return None;
        }
        i = i + 1;
    }
    assert(s@.take(s@.len() as int) =~= s@);
    Some(v as u64)
}

/// The digits that `str::parse::<u32>` reads: `s` without one leading `+`.
pub open spec fn unsigned_digits(s: Seq<char>) -> Seq<char> {
    if s.len() > 0 && s[0] == '+' {
        s.drop_first()
    } else {
        s
    }
}

/// `str::parse::<u32>`: an optional `+`, then one or more ASCII digits whose
/// value fits in 32 bits; anything else is an error.
pub open spec fn parsed_u32(s: Seq<char>) -> Option<u32> {
    match bounded_decimal(unsigned_digits(s), u32::MAX as nat) {
        Some(v) => Some(v as u32),
        None => None,
    }
}

/// `parsed_u32(s)`.
pub fn parse_u32(s: &[char]) -> (r: Option<u32>)
    ensures
        r == parsed_u32(s@),
{
    let start: usize = if s.len() > 0 && s[0] == '+' {
        1
    } else {
        0
    };
    let digits = text::copy_range(s, start, s.len());
    assert(digits@ =~= unsigned_digits(s@));
    match decimal_at_most(digits.as_slice(), 0xFFFF_FFFFu64) {
        Some(v) => Some(v as u32),
        None => None,
    }
}

/// The decimal digit for `d < 10`.
pub open spec fn digit_char(d: nat) -> char {
    if d == 0 {
        '0'
    } else if d == 1 {
        '1'
    } else if d == 2 {
        '2'
    } else if d == 3 {
        '3'
    } else if d == 4 {
        '4'
    } else if d == 5 {
        '5'
    } else if d == 6 {
        '6'
    } else if d == 7 {
        '7'
    } else if d == 8 {
        '8'
    } else {
        '9'
    }
}

/// The decimal numeral of `n`, as `Display` writes it.
pub open spec fn decimal(n: nat) -> Seq<char>
    decreases n,
{
    if n < 10 {
        seq![digit_char(n)]
    } else {
        decimal(n / 10).push(digit_char(n % 10))
    }
}

fn digit_of(d: u64) -> (c: char)
    requires
        d < 10,
    ensures
        c == digit_char(d as nat),
{
    if d == 0 {
        '0'
    } else if d == 1 {
        '1'
    } else if d == 2 {
        '2'
    } else if d == 3 {
        '3'
    } else if d == 4 {
        '4'
    } else if d == 5 {
        '5'
    } else if d == 6 {
        '6'
    } else if d == 7 {
        '7'
    } else if d == 8 {
        '8'
    } else {
        '9'
    }
}

/// Appends the decimal numeral of `n` to `out`.
pub fn push_decimal(out: &mut String, n: u64)
    ensures
        final(out)@ == old(out)@ + decimal(n as nat),
    decreases n,
{
    if n >= 10 {
        push_decimal(out, n / 10);
    }
    text::push_char(out, digit_of(n % 10));
    assert(old(out)@ + decimal(n as nat) =~= if n >= 10 {
        (old(out)@ + decimal((n / 10) as nat)).push(digit_char((n % 10) as nat))
    } else {
        old(out)@.push(digit_char(n as nat))
    });
}

/// Appends the characters `cs` to `out`.
pub fn push_chars(out: &mut String, cs: &[char])
    ensures
        final(out)@ == old(out)@ + cs@,
{
    let ghost start = out@;
    let mut i: usize = 0;
    while i < cs.len()
        invariant
            i <= cs@.len(),
            out@ == start + cs@.take(i as int),
        decreases cs@.len() - i,
    {
        text::push_char(out, cs[i]);
        assert(cs@.take(i + 1) =~= cs@.take(i as int).push(cs@[i as int]));
        i = i + 1;
    }
    assert(cs@.take(cs@.len() as int) =~= cs@);
}

/// `a + s`.
pub fn concat2(a: &str, s: &str) -> (r: String)
    ensures
        r@ == a@ + s@,
{
    let mut r = String::from_str(a);
    r.append(s);
    r
}

/// `a + s + b`.
pub fn concat3(a: &str, s: &str, b: &str) -> (r: String)
    ensures
        r@ == a@ + s@ + b@,
{
    let mut r = String::from_str(a);
    r.append(s);
    r.append(b);
    r
}

/// `a + s1 + b + s2`.
pub fn concat4(a: &str, s1: &str, b: &str, s2: &str) -> (r: String)
    ensures
        r@ == a@ + s1@ + b@ + s2@,
{
    let mut r = String::from_str(a);
    r.append(s1);
    r.append(b);
    r.append(s2);
    r
}

/// `a + s1 + b + s2 + c`.
pub fn concat5(a: &str, s1: &str, b: &str, s2: &str, c: &str) -> (r: String)
    ensures
        r@ == a@ + s1@ + b@ + s2@ + c@,
{
    let mut r = String::from_str(a);
    r.append(s1);
    r.append(b);
    r.append(s2);
    r.append(c);
    r
}

/// `a`, the decimal numeral of `n`, then `b`.
pub fn with_number(a: &str, n: u64, b: &str) -> (r: String)
    ensures
        r@ == a@ + decimal(n as nat) + b@,
{
    let mut r = String::from_str(a);
    push_decimal(&mut r, n);
    r.append(b);
    r
}

/// `str::parse::<u64>`: an optional `+`, then one or more ASCII digits whose
/// value fits in 64 bits.
pub open spec fn parsed_u64(s: Seq<char>) -> Option<u64> {
    match bounded_decimal(unsigned_digits(s), u64::MAX as nat) {
        Some(v) => Some(v as u64),
        None => None,
    }
}

/// `parsed_u64(s)`.
pub fn parse_u64(s: &[char]) -> (r: Option<u64>)
    ensures
        r == parsed_u64(s@),
{
    let start: usize = if s.len() > 0 && s[0] == '+' {
        1
    } else {
        0
    };
    let digits = text::copy_range(s, start, s.len());
    assert(digits@ =~= unsigned_digits(s@));
    decimal_at_most(digits.as_slice(), u64::MAX)
}

/// `str::parse::<i64>`: a `-` then one or more ASCII digits whose value is
/// at most 2^63 (negated), or an optional `+` then digits whose value is at
/// most 2^63 - 1.
pub open spec fn parsed_i64(s: Seq<char>) -> Option<i64> {
    if s.len() > 0 && s[0] == '-' {
        match bounded_decimal(s.drop_first(), 0x8000_0000_0000_0000) {
            Some(v) => Some((0 - v) as i64),
            None => None,
        }
    } else {
        match bounded_decimal(unsigned_digits(s), 0x7FFF_FFFF_FFFF_FFFF) {
            Some(v) => Some(v as i64),
            None => None,
        }
    }
}

/// `parsed_i64(s)`.
pub fn parse_i64(s: &[char]) -> (r: Option<i64>)
    ensures
        r == parsed_i64(s@),
{
    if s.len() > 0 && s[0] == '-' {
        let digits = text::copy_range(s, 1, s.len());
        assert(digits@ =~= s@.drop_first());
        match decimal_at_most(digits.as_slice(), 0x8000_0000_0000_0000u64) {
            Some(v) => {
                if v == 0x8000_0000_0000_0000u64 {
                    Some(i64::MIN)
                } else {
                    Some(0 - (v as i64))
                }
            },
            None => None,
        }
    } else {
        let start: usize = if s.len() > 0 && s[0] == '+' {
            1
        } else {
            0
        };
        let digits = text::copy_range(s, start, s.len());
        assert(digits@ =~= unsigned_digits(s@));
        match decimal_at_most(digits.as_slice(), 0x7FFF_FFFF_FFFF_FFFFu64) {
            Some(v) => Some(v as i64),
            None => None,
        }
    }
}

/// The decimal numeral of `n` with a leading `-` when negative, as
/// `Display` writes an integer.
pub open spec fn signed_decimal(n: int) -> Seq<char> {
    if n < 0 {
        seq!['-'] + decimal((0 - n) as nat)
    } else {
        decimal(n as nat)
    }
}

/// Appends the signed decimal numeral of `n` to `out`.
pub fn push_signed(out: &mut String, n: i64)
    ensures
        final(out)@ == old(out)@ + signed_decimal(n as int),
{
    if n < 0 {
        text::push_char(out, '-');
        let magnitude: u64 = if n == i64::MIN {
            0x8000_0000_0000_0000u64
        } else {
            (0 - n) as u64
        };
        push_decimal(out, magnitude);
        assert(final(out)@ =~= old(out)@ + signed_decimal(n as int)) by {
            assert(magnitude as int == 0 - n);
        }
    } else {
        push_decimal(out, n as u64);
    }
}

} // verus!
