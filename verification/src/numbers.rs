//! Decimal text of integers, both ways: rendering as `to_string` does and
//! parsing as the integer `FromStr` impls do.
use vstd::prelude::*;
use crate::text::string_of;

verus! {

pub open spec fn digit_char(d: int) -> char {
    if d == 0 {
        '0'
    } else if d == 1 {
        '1'
    } else if d == 2 {
        '2'
    } else if d == 3 {
        '3'
    } else if d == 4 {
        '4'
    } else if d == 5 {
        '5'
    } else if d == 6 {
        '6'
    } else if d == 7 {
        '7'
    } else if d == 8 {
        '8'
    } else {
        '9'
    }
}

/// The value of an ASCII decimal digit.
pub open spec fn digit_value(c: char) -> Option<int> {
    if c == '0' {
        Some(0)
    } else if c == '1' {
        Some(1)
    } else if c == '2' {
        Some(2)
    } else if c == '3' {
        Some(3)
    } else if c == '4' {
        Some(4)
    } else if c == '5' {
        Some(5)
    } else if c == '6' {
        Some(6)
    } else if c == '7' {
        Some(7)
    } else if c == '8' {
        Some(8)
    } else if c == '9' {
        Some(9)
    } else {
        None
    }
}

/// Decimal digits of `n`, most significant first, without leading zeros.
pub open spec fn decimal(n: nat) -> Seq<char>
    decreases n,
{
    if n < 10 {
        seq![digit_char(n as int)]
    } else {
        decimal(n / 10).push(digit_char((n % 10) as int))
    }
}

/// Decimal text of a signed integer, with a leading `-` when negative.
pub open spec fn signed_decimal(n: int) -> Seq<char> {
    if n < 0 {
        seq!['-'] + decimal((-n) as nat)
    } else {
        decimal(n as nat)
    }
}

fn digit(d: u64) -> (c: char)
    requires
        d < 10,
    ensures
        c == digit_char(d as int),
{
    if d == 0 {
        '0'
    } else if d == 1 {
        '1'
    } else if d == 2 {
        '2'
    } else if d == 3 {
        '3'
    } else if d == 4 {
        '4'
    } else if d == 5 {
        '5'
    } else if d == 6 {
        '6'
    } else if d == 7 {
        '7'
    } else if d == 8 {
        '8'
    } else {
        '9'
    }
}

fn push_decimal(v: &mut Vec<char>, n: u64)
    ensures
        final(v)@ == old(v)@ + decimal(n as nat),
    decreases n,
{
    if n < 10 {
        v.push(digit(n));
        assert(final(v)@ =~= old(v)@ + decimal(n as nat));
    } else {
        push_decimal(v, n / 10);
        v.push(digit(n % 10));
        assert(final(v)@ =~= old(v)@ + decimal(n as nat));
    }
}

/// `n.to_string()` for an unsigned integer.
pub fn u64_to_string(n: u64) -> (s: String)
    ensures
        s@ == decimal(n as nat),
{
    let mut v: Vec<char> = Vec::new();
    push_decimal(&mut v, n);
    assert(v@ =~= decimal(n as nat));
    string_of(v.as_slice())
}

/// `n.to_string()` for a signed integer.
pub fn i64_to_string(n: i64) -> (s: String)
    ensures
        s@ == signed_decimal(n as int),
{
    let mut v: Vec<char> = Vec::new();
    if n < 0 {
        v.push('-');
        let m: u64 = if n == i64::MIN {
            9223372036854775808u64
        } else {
            (-n) as u64
        };
        push_decimal(&mut v, m);
    } else {
        push_decimal(&mut v, n as u64);
    }
    assert(v@ =~= signed_decimal(n as int));
    string_of(v.as_slice())
}

/// Why a decimal integer could not be read (`std::num::IntErrorKind`).
#[derive(Debug, Clone, Copy, PartialEq, Eq, Structural)]
pub enum IntErrorKind {
    Empty,
    InvalidDigit,
    PosOverflow,
    NegOverflow,
}

impl IntErrorKind {
    /// The text that `ParseIntError` displays for this kind.
    pub fn description(&self) -> (s: &'static str)
        ensures
            *self == IntErrorKind::Empty ==> s@ == "cannot parse integer from empty string"@,
            *self == IntErrorKind::InvalidDigit ==> s@ == "invalid digit found in string"@,
            *self == IntErrorKind::PosOverflow ==> s@ == "number too large to fit in target type"@,
            *self == IntErrorKind::NegOverflow ==> s@ == "number too small to fit in target type"@,
    {
        match self {
            IntErrorKind::Empty => "cannot parse integer from empty string",
            IntErrorKind::InvalidDigit => "invalid digit found in string",
            IntErrorKind::PosOverflow => "number too large to fit in target type",
            IntErrorKind::NegOverflow => "number too small to fit in target type",
        }
    }
}

/// Reads the digits `s[i..]` onto `acc`, left to right; each character must
/// be a digit, and each partial value must stay within `lo..=hi`.
pub open spec fn scan_digits(s: Seq<char>, i: int, acc: int, neg: bool, lo: int, hi: int) -> Result<
    int,
    IntErrorKind,
>
    decreases s.len() - i,
{
    if i >= s.len() || i < 0 {
        Ok(acc)
    } else {
        match digit_value(s[i]) {
            None => Err(IntErrorKind::InvalidDigit),
            Some(d) => {
                let next = if neg {
                    acc * 10 - d
                } else {
                    acc * 10 + d
                };
                if next > hi {
                    Err(IntErrorKind::PosOverflow)
                } else if next < lo {
                    Err(IntErrorKind::NegOverflow)
                } else {
                    scan_digits(s, i + 1, next, neg, lo, hi)
                }
            },
        }
    }
}

/// What `str::parse` gives for an integer type with range `lo..=hi`
/// (`signed` tells whether a leading `-` is allowed).
pub open spec fn parse_int_spec(s: Seq<char>, signed: bool, lo: int, hi: int) -> Result<
    int,
    IntErrorKind,
> {
    if s.len() == 0 {
        Err(IntErrorKind::Empty)
    } else if (s[0] == '+' || s[0] == '-') && s.len() == 1 {
        Err(IntErrorKind::InvalidDigit)
    } else if s[0] == '+' {
        scan_digits(s, 1, 0, false, lo, hi)
    } else if s[0] == '-' && signed {
        scan_digits(s, 1, 0, true, lo, hi)
    } else {
        scan_digits(s, 0, 0, false, lo, hi)
    }
}

fn digit_of(c: char) -> (r: Option<i64>)
    ensures
        match digit_value(c) {
            Some(d) => r == Some(d as i64),
            None => r is None,
        },
{
    if c == '0' {
        Some(0)
    } else if c == '1' {
        Some(1)
    } else if c == '2' {
        Some(2)
    } else if c == '3' {
        Some(3)
    } else if c == '4' {
        Some(4)
    } else if c == '5' {
        Some(5)
    } else if c == '6' {
        Some(6)
    } else if c == '7' {
        Some(7)
    } else if c == '8' {
        Some(8)
    } else if c == '9' {
        Some(9)
    } else {
        None
    }
}

fn scan(s: &[char], start: usize, neg: bool, lo: i64, hi: i64) -> (r: Result<i64, IntErrorKind>)
    requires
        -0x1_0000_0000 <= lo <= 0 <= hi <= 0x1_0000_0000,
        start <= s@.len(),
    ensures
        match scan_digits(s@, start as int, 0, neg, lo as int, hi as int) {
            Ok(v) => r == Ok::<i64, IntErrorKind>(v as i64),
            Err(e) => r == Err::<i64, IntErrorKind>(e),
        },
{
    let mut acc: i64 = 0;
    let mut i = start;
    while i < s.len()
        invariant
            start <= i <= s@.len(),
            lo <= acc <= hi,
            -0x1_0000_0000 <= lo <= 0 <= hi <= 0x1_0000_0000,
            scan_digits(s@, start as int, 0, neg, lo as int, hi as int) == scan_digits(
                s@,
                i as int,
                acc as int,
                neg,
                lo as int,
                hi as int,
            ),
        decreases s@.len() - i,
    {
        match digit_of(s[i]) {
            None => {
                return Err(IntErrorKind::InvalidDigit);
            },
            Some(d) => {
                let next = if neg {
                    acc * 10 - d
                } else {
                    acc * 10 + d
                };
                if next > hi {
                    return Err(IntErrorKind::PosOverflow);
                } else if next < lo {
                    return Err(IntErrorKind::NegOverflow);
                }
                acc = next;
            },
        }
        i = i + 1;
    }
    Ok(acc)
}

/// `str::parse` into an integer type whose range is `lo..=hi`.
pub fn parse_int(s: &[char], signed: bool, lo: i64, hi: i64) -> (r: Result<i64, IntErrorKind>)
    requires
        -0x1_0000_0000 <= lo <= 0 <= hi <= 0x1_0000_0000,
    ensures
        match parse_int_spec(s@, signed, lo as int, hi as int) {
            Ok(v) => r == Ok::<i64, IntErrorKind>(v as i64),
            Err(e) => r == Err::<i64, IntErrorKind>(e),
        },
{
    if s.len() == 0 {
        Err(IntErrorKind::Empty)
    } else if (s[0] == '+' || s[0] == '-') && s.len() == 1 {
        Err(IntErrorKind::InvalidDigit)
    } else if s[0] == '+' {
        scan(s, 1, false, lo, hi)
    } else if s[0] == '-' && signed {
        scan(s, 1, true, lo, hi)
    } else {
        scan(s, 0, false, lo, hi)
    }
}

/// `str::parse::<u32>`.
pub fn parse_u32(s: &[char]) -> (r: Result<u32, IntErrorKind>)
    ensures
        match r {
            Ok(n) => parse_int_spec(s@, false, 0, u32::MAX as int) == Ok::<int, IntErrorKind>(
                n as int,
            ),
            Err(e) => parse_int_spec(s@, false, 0, u32::MAX as int) == Err::<int, IntErrorKind>(e),
        },
{
    proof {
        lemma_scan_bounds(s@, 0, 0, false, 0, u32::MAX as int);
        lemma_scan_bounds(s@, 1, 0, false, 0, u32::MAX as int);
    }
    match parse_int(s, false, 0, 0xffff_ffff) {
        Ok(v) => Ok(v as u32),
        Err(e) => Err(e),
    }
}

/// `str::parse::<i16>`.
pub fn parse_i16(s: &[char]) -> (r: Result<i16, IntErrorKind>)
    ensures
        match r {
            Ok(n) => parse_int_spec(s@, true, i16::MIN as int, i16::MAX as int) == Ok::<
                int,
                IntErrorKind,
            >(n as int),
            Err(e) => parse_int_spec(s@, true, i16::MIN as int, i16::MAX as int) == Err::<
                int,
                IntErrorKind,
            >(e),
        },
{
    proof {
        lemma_scan_bounds(s@, 0, 0, false, i16::MIN as int, i16::MAX as int);
        lemma_scan_bounds(s@, 1, 0, false, i16::MIN as int, i16::MAX as int);
        lemma_scan_bounds(s@, 1, 0, true, i16::MIN as int, i16::MAX as int);
    }
    match parse_int(s, true, -32768, 32767) {
        Ok(v) => Ok(v as i16),
        Err(e) => Err(e),
    }
}

/// A successful scan stays within its bounds.
pub proof fn lemma_scan_bounds(s: Seq<char>, i: int, acc: int, neg: bool, lo: int, hi: int)
    requires
        lo <= acc <= hi,
    ensures
        scan_digits(s, i, acc, neg, lo, hi) matches Ok(v) ==> lo <= v <= hi,
    decreases s.len() - i,
{
    if i < s.len() && i >= 0 {
        if let Some(d) = digit_value(s[i]) {
            let next = if neg {
                acc * 10 - d
            } else {
                acc * 10 + d
            };
            if lo <= next <= hi {
                lemma_scan_bounds(s, i + 1, next, neg, lo, hi);
            }
        }
    }
}

proof fn lemma_scan_push(s: Seq<char>, c: char, i: int, acc: int, neg: bool, lo: int, hi: int)
    requires
        0 <= i <= s.len(),
    ensures
        scan_digits(s.push(c), i, acc, neg, lo, hi) == match scan_digits(s, i, acc, neg, lo, hi) {
            Ok(v) => scan_digits(seq![c], 0, v, neg, lo, hi),
            Err(e) => Err(e),
        },
    decreases s.len() - i,
{
    if i < s.len() {
        assert(s.push(c)[i] == s[i]);
        if let Some(d) = digit_value(s[i]) {
            let next = if neg {
                acc * 10 - d
            } else {
                acc * 10 + d
            };
            if lo <= next <= hi {
                lemma_scan_push(s, c, i + 1, next, neg, lo, hi);
            }
        }
    } else {
        let t = s.push(c);
        assert(t[i] == c);
        assert(seq![c][0] == c);
        if let Some(d) = digit_value(c) {
            let next = if neg {
                acc * 10 - d
            } else {
                acc * 10 + d
            };
            assert(scan_digits(t, i + 1, next, neg, lo, hi) == Ok::<int, IntErrorKind>(next));
            assert(scan_digits(seq![c], 1, next, neg, lo, hi) == Ok::<int, IntErrorKind>(next));
        }
    }
}

proof fn lemma_scan_decimal(n: nat, hi: int)
    requires
        n <= hi,
    ensures
        scan_digits(decimal(n), 0, 0, false, 0, hi) == Ok::<int, IntErrorKind>(n as int),
        decimal(n).len() > 0,
        digit_value(decimal(n)[0]) is Some,
    decreases n,
{
    if n < 10 {
        assert(digit_value(digit_char(n as int)) == Some(n as int));
        assert(scan_digits(decimal(n), 1, n as int, false, 0, hi) == Ok::<int, IntErrorKind>(
            n as int,
        ));
    } else {
        lemma_scan_decimal(n / 10, hi);
        lemma_scan_push(decimal(n / 10), digit_char((n % 10) as int), 0, 0, false, 0, hi);
        assert(digit_value(digit_char((n % 10) as int)) == Some((n % 10) as int));
        assert(decimal(n)[0] == decimal(n / 10)[0]);
        let c = digit_char((n % 10) as int);
        assert(scan_digits(seq![c], 1, n as int, false, 0, hi) == Ok::<int, IntErrorKind>(
            n as int,
        ));
    }
}

/// Reading back the decimal text of a number gives the number:
/// `n.to_string().parse::<u32>() == Ok(n)`.
pub proof fn law_u32_decimal_roundtrip(n: u32)
    ensures
        parse_int_spec(decimal(n as nat), false, 0, u32::MAX as int) == Ok::<int, IntErrorKind>(
            n as int,
        ),
{
    lemma_scan_decimal(n as nat, u32::MAX as int);
    let s = decimal(n as nat);
    assert(digit_value('+') is None);
    assert(digit_value('-') is None);
}

} // verus!
