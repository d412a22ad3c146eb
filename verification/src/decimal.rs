//! Decimal text of integers: how `u64` and `i64` are displayed, and how an
//! `i64` is read back from text (the rules of `i64::from_str`).
use vstd::prelude::*;
use crate::text::{chars_of, push_char};

verus! {

/// Why a text is not an `i64`.
#[derive(Debug, Clone, Copy, PartialEq, Eq, Structural)]
pub enum IntErrorKind {
    /// The text is empty.
    Empty,
    /// A character that is not a decimal digit, or a sign with nothing after it.
    InvalidDigit,
    /// The value is above `i64::MAX`.
    PosOverflow,
    /// The value is below `i64::MIN`.
    NegOverflow,
}

pub open spec fn is_digit(c: char) -> bool {
    '0' <= c && c <= '9'
}

pub open spec fn digit_value(c: char) -> int {
    c as int - '0' as int
}

pub open spec fn digit_char(d: int) -> char {
    (d + '0' as int) as char
}

/// The decimal digits of `n`, most significant first, without leading zeros
/// (a single `0` for zero).
pub open spec fn nat_text(n: nat) -> Seq<char>
    decreases n,
{
    if n < 10 {
        seq![digit_char(n as int)]
    } else {
        nat_text(n / 10).push(digit_char((n % 10) as int))
    }
}

/// The decimal text of `i`, with a leading `-` when it is negative.
pub open spec fn int_text(i: int) -> Seq<char> {
    if i < 0 {
        seq!['-'] + nat_text((-i) as nat)
    } else {
        nat_text(i as nat)
    }
}

/// Reading the digits `d` from the left, each step multiplying by ten and
/// adding (or, for a negative number, subtracting) the next digit; the first
/// character that is not a digit, or the first step that leaves the range of
/// `i64`, decides the error.
pub open spec fn scan_digits(d: Seq<char>, neg: bool) -> Result<int, IntErrorKind>
    decreases d.len(),
{
    if d.len() == 0 {
        Ok(0)
    } else {
        match scan_digits(d.drop_last(), neg) {
            Err(e) => Err(e),
            Ok(acc) => {
                if !is_digit(d.last()) {
                    Err(IntErrorKind::InvalidDigit)
                } else {
                    let next = if neg {
                        acc * 10 - digit_value(d.last())
                    } else {
                        acc * 10 + digit_value(d.last())
                    };
                    if next > i64::MAX {
                        Err(IntErrorKind::PosOverflow)
                    } else if next < i64::MIN {
                        Err(IntErrorKind::NegOverflow)
                    } else {
                        Ok(next)
                    }
                }
            }
        }
    }
}

/// What `s.parse::<i64>()` gives: an optional `+` or `-` sign followed by
/// decimal digits.
pub open spec fn parse_i64_spec(s: Seq<char>) -> Result<int, IntErrorKind> {
    if s.len() == 0 {
        Err(IntErrorKind::Empty)
    } else if (s[0] == '+' || s[0] == '-') && s.len() == 1 {
        Err(IntErrorKind::InvalidDigit)
    } else if s[0] == '-' {
        scan_digits(s.drop_first(), true)
    } else if s[0] == '+' {
        scan_digits(s.drop_first(), false)
    } else {
        scan_digits(s, false)
    }
}

/// `parse_i64_spec` with the value as an `i64`.
pub open spec fn parsed_i64(s: Seq<char>) -> Result<i64, IntErrorKind> {
    match parse_i64_spec(s) {
        Ok(v) => Ok(v as i64),
        Err(e) => Err(e),
    }
}

/// Once reading a prefix has failed, reading the whole text fails the same way.
proof fn lemma_scan_error_persists(d: Seq<char>, k: int, neg: bool)
    requires
        0 <= k <= d.len(),
        scan_digits(d.take(k), neg) is Err,
    ensures
        scan_digits(d, neg) == scan_digits(d.take(k), neg),
    decreases d.len() - k,
{
    if k < d.len() {
        assert(d.take(k + 1).drop_last() =~= d.take(k));
        lemma_scan_error_persists(d, k + 1, neg);
    } else {
        assert(d.take(k) =~= d);
    }
}

pub(crate) proof fn lemma_nat_text_digits(n: nat)
    ensures
        nat_text(n).len() >= 1,
        forall|k: int| 0 <= k < nat_text(n).len() ==> is_digit(#[trigger] nat_text(n)[k]),
    decreases n,
{
    if n >= 10 {
        lemma_nat_text_digits(n / 10);
    }
}

proof fn lemma_scan_nat_text(n: nat, neg: bool)
    requires
        !neg ==> n <= i64::MAX,
        neg ==> n <= 9223372036854775808,
    ensures
        scan_digits(nat_text(n), neg) == Ok::<int, IntErrorKind>(if neg { -n } else { n as int }),
    decreases n,
{
    let t = nat_text(n);
    let d = (n % 10) as int;
    assert(digit_value(digit_char(d)) == d);
    assert(is_digit(digit_char(d)));
    if n < 10 {
        assert(t.drop_last() =~= Seq::<char>::empty());
        assert(t.last() == digit_char(d));
    } else {
        assert(t.drop_last() =~= nat_text(n / 10));
        assert(t.last() == digit_char(d));
        lemma_scan_nat_text(n / 10, neg);
        assert(n == (n / 10) * 10 + d);
        let acc: int = if neg { -((n / 10) as int) } else { (n / 10) as int };
        assert(scan_digits(t.drop_last(), neg) == Ok::<int, IntErrorKind>(acc));
        assert(neg ==> acc * 10 - d == -n);
        assert(!neg ==> acc * 10 + d == n);
    }
}

/// Reading back the decimal text of any `i64` gives the same number.
pub proof fn law_i64_text_round_trip(i: i64)
    ensures
        parsed_i64(int_text(i as int)) == Ok::<i64, IntErrorKind>(i),
{
    if i < 0 {
        let m: nat = (-i) as nat;
        lemma_nat_text_digits(m);
        lemma_scan_nat_text(m, true);
        assert((seq!['-'] + nat_text(m)).drop_first() =~= nat_text(m));
    } else {
        lemma_nat_text_digits(i as nat);
        assert(is_digit(nat_text(i as nat)[0]));
        lemma_scan_nat_text(i as nat, false);
    }
}

/// Reading back the decimal text of a `u64` that fits in an `i64` gives the
/// same number.
pub proof fn law_u64_text_round_trip(n: u64)
    requires
        n <= i64::MAX,
    ensures
        parse_i64_spec(nat_text(n as nat)) == Ok::<int, IntErrorKind>(n as int),
{
    lemma_nat_text_digits(n as nat);
    assert(is_digit(nat_text(n as nat)[0]));
    lemma_scan_nat_text(n as nat, false);
}

/// The `i64` with the same 64 bits as `a` (what `a as i64` gives).
pub open spec fn signed_bits(a: int) -> int {
    if a <= i64::MAX {
        a
    } else {
        a - 18446744073709551616
    }
}

/// The `u64` with the same 64 bits as `i` (what `i as u64` gives).
pub open spec fn unsigned_bits(i: int) -> int {
    if i < 0 {
        i + 18446744073709551616
    } else {
        i
    }
}

/// `a as i64`.
pub fn as_signed(a: u64) -> (r: i64)
    ensures
        r as int == signed_bits(a as int),
{
    if a <= 9223372036854775807u64 {
        a as i64
    } else {
        let k: u64 = u64::MAX - a;
        -(k as i64) - 1
    }
}

/// `i as u64`.
pub fn as_unsigned(i: i64) -> (r: u64)
    ensures
        r as int == unsigned_bits(i as int),
{
    if i >= 0 {
        i as u64
    } else {
        let k: i64 = -(i + 1);
        u64::MAX - (k as u64)
    }
}

fn digit_to_char(d: u64) -> (c: char)
    requires
        d < 10,
    ensures
        c == digit_char(d as int),
{
    let b: u8 = d as u8 + 48u8;
    b as char
}

/// Appends the decimal text of `n` to `s`.
pub(crate) fn push_decimal(s: &mut String, n: u64)
    ensures
        final(s)@ == old(s)@ + nat_text(n as nat),
    decreases n,
{
    if n >= 10 {
        push_decimal(s, n / 10);
    }
    push_char(s, digit_to_char(n % 10));
    assert(final(s)@ =~= old(s)@ + nat_text(n as nat));
}

/// Appends the decimal text of `i` to `s`, with `-` for a negative value.
pub(crate) fn push_signed_decimal(s: &mut String, i: i64)
    ensures
        final(s)@ == old(s)@ + int_text(i as int),
{
    if i < 0 {
        push_char(s, '-');
        let m: u64 = if i == i64::MIN {
            9223372036854775808u64
        } else {
            (-i) as u64
        };
        push_decimal(s, m);
        assert(final(s)@ =~= old(s)@ + int_text(i as int));
    } else {
        push_decimal(s, i as u64);
    }
}

/// The decimal text of `n` (what `n.to_string()` gives).
pub fn u64_text(n: u64) -> (s: String)
    ensures
        s@ == nat_text(n as nat),
{
    let mut s = String::new();
    push_decimal(&mut s, n);
    assert(s@ =~= nat_text(n as nat));
    s
}

/// The decimal text of `i` (what `i.to_string()` gives).
pub fn i64_text(i: i64) -> (s: String)
    ensures
        s@ == int_text(i as int),
{
    let mut s = String::new();
    push_signed_decimal(&mut s, i);
    assert(s@ =~= int_text(i as int));
    s
}

fn char_digit(c: char) -> (r: Option<u64>)
    ensures
        r is Some <==> is_digit(c),
        r matches Some(d) ==> d as int == digit_value(c) && d < 10,
{
    if '0' <= c && c <= '9' {
        Some((c as u32 - 48u32) as u64)
    } else {
        None
    }
}

/// Reads an `i64` from decimal text, as `s.parse::<i64>()` does.
pub fn parse_i64(s: &str) -> (r: Result<i64, IntErrorKind>)
    ensures
        r == parsed_i64(s@),
{
    let v = chars_of(s);
    if v.len() == 0 {
        return Err(IntErrorKind::Empty);
    }
    if (v[0] == '+' || v[0] == '-') && v.len() == 1 {
        return Err(IntErrorKind::InvalidDigit);
    }
    let neg = v[0] == '-';
    let start: usize = if v[0] == '-' || v[0] == '+' { 1 } else { 0 };
    let ghost digits = v@.skip(start as int);
    assert(v[0] == '-' ==> digits =~= v@.drop_first());
    assert(v[0] == '+' ==> digits =~= v@.drop_first());
    assert(start == 0 ==> digits =~= v@);
    assert(parse_i64_spec(v@) == scan_digits(digits, neg));
    let mut acc: i64 = 0;
    let mut i: usize = start;
    assert(digits.take(0) =~= Seq::<char>::empty());
    while i < v.len()
        invariant
            v@ == s@,
            start <= i <= v@.len(),
            digits == v@.skip(start as int),
            scan_digits(digits.take(i - start), neg) == Ok::<int, IntErrorKind>(acc as int),
            neg ==> acc <= 0,
            !neg ==> acc >= 0,
            parse_i64_spec(v@) == scan_digits(digits, neg),
        decreases v@.len() - i,
    {
        let ghost pre = digits.take(i - start);
        let ghost cur = digits.take(i - start + 1);
        assert(cur.drop_last() =~= pre);
        assert(cur.last() == v@[i as int]);
        let d = match char_digit(v[i]) {
            Some(d) => d,
            None => {
                proof {
                    lemma_scan_error_persists(digits, i - start + 1, neg);
                }
                return Err(IntErrorKind::InvalidDigit);
            },
        };
        let d = d as i64;
        let m = match acc.checked_mul(10) {
            Some(m) => m,
            None => {
                proof {
                    lemma_scan_error_persists(digits, i - start + 1, neg);
                }
                return Err(
                    if neg {
                        IntErrorKind::NegOverflow
                    } else {
                        IntErrorKind::PosOverflow
                    },
                );
            },
        };
        if neg {
            acc = match m.checked_sub(d) {
                Some(x) => x,
                None => {
                    proof {
                        lemma_scan_error_persists(digits, i - start + 1, neg);
                    }
                    return Err(IntErrorKind::NegOverflow);
                },
            };
        } else {
            acc = match m.checked_add(d) {
                Some(x) => x,
                None => {
                    proof {
                        lemma_scan_error_persists(digits, i - start + 1, neg);
                    }
                    return Err(IntErrorKind::PosOverflow);
                },
            };
        }
        i = i + 1;
    }
    assert(digits.take(i - start) =~= digits);
    Ok(acc)
}

} // verus!
