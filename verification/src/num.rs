//! Decimal integer parsing with the acceptance rules and error kinds of
//! `str::parse` for the integer types.
use vstd::prelude::*;

use crate::text;

verus! {

/// Why a decimal integer was rejected.
#[derive(Clone, Copy, PartialEq, Eq, Debug)]
pub enum IntError {
    Empty,
    InvalidDigit,
    PosOverflow,
    NegOverflow,
}

/// Digits read left to right into `acc`, each step checked against the
/// bounds; a non-digit or an out-of-range step stops with that error.
pub open spec fn scan_digits(acc: int, t: Seq<char>, lo: int, hi: int, neg: bool) -> Result<
    int,
    IntError,
>
    decreases t.len(),
{
    if t.len() == 0 {
        Ok(acc)
    } else if !text::is_ascii_digit(t[0]) {
        Err(IntError::InvalidDigit)
    } else {
        let d = (t[0] as u32) - 48;
        let a = if neg {
            acc * 10 - d
        } else {
            acc * 10 + d
        };
        if a < lo {
            Err(IntError::NegOverflow)
        } else if a > hi {
            Err(IntError::PosOverflow)
        } else {
            scan_digits(a, t.drop_first(), lo, hi, neg)
        }
    }
}

/// `str::parse` for an integer type with range `lo..=hi`: an optional sign
/// (`-` only when `lo < 0`) then at least one digit.
pub open spec fn parse_int(s: Seq<char>, lo: int, hi: int) -> Result<int, IntError> {
    if s.len() == 0 {
        Err(IntError::Empty)
    } else {
        let neg = s[0] == '-' && lo < 0;
        let body = if s[0] == '+' || neg {
            s.drop_first()
        } else {
            s
        };
        if body.len() == 0 {
            Err(IntError::InvalidDigit)
        } else {
            scan_digits(0, body, lo, hi, neg)
        }
    }
}

pub proof fn lemma_scan_in_range(acc: int, t: Seq<char>, lo: int, hi: int, neg: bool)
    requires
        lo <= acc <= hi,
    ensures
        scan_digits(acc, t, lo, hi, neg) matches Ok(v) ==> lo <= v <= hi,
    decreases t.len(),
{
    if t.len() > 0 && text::is_ascii_digit(t[0]) {
        let d = (t[0] as u32) - 48;
        let a = if neg {
            acc * 10 - d
        } else {
            acc * 10 + d
        };
        if lo <= a <= hi {
            lemma_scan_in_range(a, t.drop_first(), lo, hi, neg);
        }
    }
}

/// Shared scanner over `v[start..]` with bounds `lo..=hi` held in `i128`.
fn scan(v: &Vec<char>, start: usize, lo: i128, hi: i128, neg: bool) -> (res: Result<i128, IntError>)
    requires
        start <= v.len(),
        lo <= 0 <= hi,
        -0x1_0000_0000_0000_0000 <= lo,
        hi <= 0x1_0000_0000_0000_0000,
    ensures
        match res {
            Ok(x) => scan_digits(0, v@.skip(start as int), lo as int, hi as int, neg) == Ok::<int, IntError>(x as int),
            Err(e) => scan_digits(0, v@.skip(start as int), lo as int, hi as int, neg) == Err::<
                int,
                IntError,
            >(e),
        },
{
    let mut acc: i128 = 0;
    let mut i = start;
    proof {
        assert(v@.skip(start as int) =~= v@.skip(start as int));
    }
    while i < v.len()
        invariant
            start <= i <= v.len(),
            lo <= acc <= hi,
            lo <= 0 <= hi,
            -0x1_0000_0000_0000_0000 <= lo,
            hi <= 0x1_0000_0000_0000_0000,
            scan_digits(0, v@.skip(start as int), lo as int, hi as int, neg) == scan_digits(
                acc as int,
                v@.skip(i as int),
                lo as int,
                hi as int,
                neg,
            ),
        decreases v.len() - i,
    {
        let c = v[i];
        proof {
            assert(v@.skip(i as int)[0] == c);
            assert(v@.skip(i as int).drop_first() =~= v@.skip(i + 1));
        }
        if !text::ascii_digit(c) {
            return Err(IntError::InvalidDigit);
        }
        let d = ((c as u32) - 48) as i128;
        let a = if neg {
            acc * 10 - d
        } else {
            acc * 10 + d
        };
        if a < lo {
            return Err(IntError::NegOverflow);
        }
        if a > hi {
            return Err(IntError::PosOverflow);
        }
        acc = a;
        i = i + 1;
    }
    Ok(acc)
}

fn parse_range(s: &str, lo: i128, hi: i128) -> (res: Result<i128, IntError>)
    requires
        lo <= 0 <= hi,
        -0x1_0000_0000_0000_0000 <= lo,
        hi <= 0x1_0000_0000_0000_0000,
    ensures
        match res {
            Ok(x) => parse_int(s@, lo as int, hi as int) == Ok::<int, IntError>(x as int) && lo <= x <= hi,
            Err(e) => parse_int(s@, lo as int, hi as int) == Err::<int, IntError>(e),
        },
{
    let v = text::chars_of(s);
    if v.len() == 0 {
        return Err(IntError::Empty);
    }
    let neg = v[0] == '-' && lo < 0;
    let start: usize = if v[0] == '+' || neg {
        1
    } else {
        0
    };
    proof {
        if start == 1 {
            assert(v@.skip(1) =~= v@.drop_first());
        } else {
            assert(v@.skip(0) =~= v@);
        }
    }
    if start == v.len() {
        return Err(IntError::InvalidDigit);
    }
    let r = scan(&v, start, lo, hi, neg);
    proof {
        lemma_scan_in_range(0, v@.skip(start as int), lo as int, hi as int, neg);
    }
    r
}

/// `str::parse::<i64>`.
pub fn parse_i64(s: &str) -> (res: Result<i64, IntError>)
    ensures
        match res {
            Ok(x) => parse_int(s@, i64::MIN as int, i64::MAX as int) == Ok::<int, IntError>(x as int),
            Err(e) => parse_int(s@, i64::MIN as int, i64::MAX as int) == Err::<int, IntError>(e),
        },
{
    match parse_range(s, i64::MIN as i128, i64::MAX as i128) {
        Ok(x) => Ok(x as i64),
        Err(e) => Err(e),
    }
}

/// `str::parse::<u64>`.
pub fn parse_u64(s: &str) -> (res: Result<u64, IntError>)
    ensures
        match res {
            Ok(x) => parse_int(s@, 0, u64::MAX as int) == Ok::<int, IntError>(x as int),
            Err(e) => parse_int(s@, 0, u64::MAX as int) == Err::<int, IntError>(e),
        },
{
    match parse_range(s, 0, u64::MAX as i128) {
        Ok(x) => Ok(x as u64),
        Err(e) => Err(e),
    }
}

/// `str::parse::<usize>`.
pub fn parse_usize(s: &str) -> (res: Result<usize, IntError>)
    ensures
        match res {
            Ok(x) => parse_int(s@, 0, usize::MAX as int) == Ok::<int, IntError>(x as int),
            Err(e) => parse_int(s@, 0, usize::MAX as int) == Err::<int, IntError>(e),
        },
{
    match parse_range(s, 0, usize::MAX as i128) {
        Ok(x) => Ok(x as usize),
        Err(e) => Err(e),
    }
}

/// The message `ParseIntError` displays for each kind.
pub open spec fn int_error_text(e: IntError) -> Seq<char> {
    match e {
        IntError::Empty => "cannot parse integer from empty string"@,
        IntError::InvalidDigit => "invalid digit found in string"@,
        IntError::PosOverflow => "number too large to fit in target type"@,
        IntError::NegOverflow => "number too small to fit in target type"@,
    }
}

pub fn int_error_message(e: IntError) -> (res: String)
    ensures
        res@ == int_error_text(e),
{
    match e {
        IntError::Empty => text::copy_str("cannot parse integer from empty string"),
        IntError::InvalidDigit => text::copy_str("invalid digit found in string"),
        IntError::PosOverflow => text::copy_str("number too large to fit in target type"),
        IntError::NegOverflow => text::copy_str("number too small to fit in target type"),
    }
}

} // verus!
