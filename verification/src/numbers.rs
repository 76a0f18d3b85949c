//! Reading signed decimal integers, as `str::parse::<i64>` does.

use vstd::prelude::*;
use vstd::string::StrSliceExecFns;
use crate::text::{char_len, decimal, decimal_signed, digit_char};

verus! {

/// Why a text is not a 64-bit signed integer (the kinds std reports).
#[derive(Clone, Copy, Debug, PartialEq, Eq, Structural)]
pub enum IntParseError {
    /// The text is empty.
    Empty,
    /// A character is not a decimal digit, or a sign stands alone.
    InvalidDigit,
    /// The value is above `i64::MAX`.
    PosOverflow,
    /// The value is below `i64::MIN`.
    NegOverflow,
}

impl IntParseError {
    /// The message std gives for this kind of error.
    pub open spec fn spec_message(self) -> Seq<char> {
        match self {
            IntParseError::Empty => "cannot parse integer from empty string"@,
            IntParseError::InvalidDigit => "invalid digit found in string"@,
            IntParseError::PosOverflow => "number too large to fit in target type"@,
            IntParseError::NegOverflow => "number too small to fit in target type"@,
        }
    }

    /// The message std gives for this kind of error.
    pub fn message(&self) -> (r: &'static str)
        ensures
            r@ == self.spec_message(),
    {
        match self {
            IntParseError::Empty => "cannot parse integer from empty string",
            IntParseError::InvalidDigit => "invalid digit found in string",
            IntParseError::PosOverflow => "number too large to fit in target type",
            IntParseError::NegOverflow => "number too small to fit in target type",
        }
    }
}

/// `c` is an ASCII decimal digit.
pub open spec fn is_digit(c: char) -> bool {
    '0' <= c && c <= '9'
}

/// Reads the digits `d` left to right into a value of the given sign,
/// stopping at the first character that is not a digit or at the first
/// digit that takes the value out of the `i64` range.
pub open spec fn scan_digits(d: Seq<char>, negative: bool) -> Result<int, IntParseError>
    decreases d.len(),
{
    if d.len() == 0 {
        Ok(0)
    } else {
        match scan_digits(d.drop_last(), negative) {
            Err(e) => Err(e),
            Ok(acc) => {
                let c = d.last();
                if !is_digit(c) {
                    Err(IntParseError::InvalidDigit)
                } else {
                    let digit = (c as int) - ('0' as int);
                    if negative {
                        let v = acc * 10 - digit;
                        if v < i64::MIN {
                            Err(IntParseError::NegOverflow)
                        } else {
                            Ok(v)
                        }
                    } else {
                        let v = acc * 10 + digit;
                        if v > i64::MAX {
                            Err(IntParseError::PosOverflow)
                        } else {
                            Ok(v)
                        }
                    }
                }
            },
        }
    }
}

/// What `str::parse::<i64>` gives for the text `s`: an optional sign
/// followed by digits.
pub open spec fn spec_parse_i64(s: Seq<char>) -> Result<int, IntParseError> {
    if s.len() == 0 {
        Err(IntParseError::Empty)
    } else if (s[0] == '+' || s[0] == '-') && s.len() == 1 {
        Err(IntParseError::InvalidDigit)
    } else if s[0] == '+' {
        scan_digits(s.drop_first(), false)
    } else if s[0] == '-' {
        scan_digits(s.drop_first(), true)
    } else {
        scan_digits(s, false)
    }
}

/// A successful scan stays within the `i64` range and has the scanned sign.
proof fn lemma_scan_range(d: Seq<char>, negative: bool)
    ensures
        scan_digits(d, negative) matches Ok(v) ==> i64::MIN <= v <= i64::MAX && (negative ==> v
            <= 0) && (!negative ==> v >= 0),
    decreases d.len(),
{
    if d.len() > 0 {
        lemma_scan_range(d.drop_last(), negative);
    }
}

/// A parsed value lies within the `i64` range.
pub proof fn lemma_parse_i64_range(s: Seq<char>)
    ensures
        spec_parse_i64(s) matches Ok(v) ==> i64::MIN <= v <= i64::MAX,
{
    if s.len() > 0 {
        lemma_scan_range(s.drop_first(), false);
        lemma_scan_range(s.drop_first(), true);
    }
    lemma_scan_range(s, false);
}

/// Parses a signed decimal integer as `str::parse::<i64>` does.
pub fn parse_i64(s: &str) -> (r: Result<i64, IntParseError>)
    ensures
        match spec_parse_i64(s@) {
            Ok(v) => r == Ok::<i64, IntParseError>(v as i64),
            Err(e) => r == Err::<i64, IntParseError>(e),
        },
{
    let n = char_len(s);
    if n == 0 {
        return Err(IntParseError::Empty);
    }
    let c0 = s.get_char(0);
    if (c0 == '+' || c0 == '-') && n == 1 {
        return Err(IntParseError::InvalidDigit);
    }
    let negative = c0 == '-';
    let start: usize = if c0 == '+' || c0 == '-' {
        1
    } else {
        0
    };
    let ghost d = s@.subrange(start as int, n as int);
    proof {
        if start == 1 {
            assert(d =~= s@.drop_first());
        } else {
            assert(d =~= s@);
        }
    }
    let mut acc: i64 = 0;
    let mut i: usize = start;
    while i < n
        invariant
            n == s@.len(),
            start <= i <= n,
            d == s@.subrange(start as int, n as int),
            spec_parse_i64(s@) == scan_digits(d, negative),
            scan_digits(d.subrange(0, i - start), negative) == Ok::<int, IntParseError>(
                acc as int,
            ),
        decreases n - i,
    {
        let c = s.get_char(i);
        let ghost pre = d.subrange(0, i - start);
        let ghost next = d.subrange(0, i + 1 - start);
        proof {
            assert(next.drop_last() =~= pre);
            assert(next.last() == c);
            lemma_scan_range(pre, negative);
        }
        if !('0' <= c && c <= '9') {
            proof {
                lemma_scan_prefix_err(d, (i + 1 - start) as int, negative);
            }
            return Err(IntParseError::InvalidDigit);
        }
        let digit: i64 = (c as u32 - '0' as u32) as i64;
        let wide: i128 = if negative {
            (acc as i128) * 10 - (digit as i128)
        } else {
            (acc as i128) * 10 + (digit as i128)
        };
        if negative && wide < (i64::MIN as i128) {
            proof {
                lemma_scan_prefix_err(d, (i + 1 - start) as int, negative);
            }
            return Err(IntParseError::NegOverflow);
        }
        if !negative && wide > (i64::MAX as i128) {
            proof {
                lemma_scan_prefix_err(d, (i + 1 - start) as int, negative);
            }
            return Err(IntParseError::PosOverflow);
        }
        acc = wide as i64;
        i = i + 1;
    }
    proof {
        assert(d.subrange(0, n - start) =~= d);
        lemma_scan_range(d, negative);
    }
    Ok(acc)
}

/// An error on a prefix of the digits is the error of all of them.
proof fn lemma_scan_prefix_err(d: Seq<char>, k: int, negative: bool)
    requires
        0 <= k <= d.len(),
        scan_digits(d.subrange(0, k), negative) is Err,
    ensures
        scan_digits(d, negative) == scan_digits(d.subrange(0, k), negative),
    decreases d.len() - k,
{
    if k < d.len() {
        let next = d.subrange(0, k + 1);
        assert(next.drop_last() =~= d.subrange(0, k));
        lemma_scan_prefix_err(d, k + 1, negative);
    } else {
        assert(d.subrange(0, k) =~= d);
    }
}

/// The decimal text of a natural number scans back to it.
proof fn lemma_scan_decimal(n: nat, negative: bool)
    requires
        negative ==> n <= 9223372036854775808,
        !negative ==> n <= 9223372036854775807,
    ensures
        scan_digits(decimal(n), negative) == Ok::<int, IntParseError>(
            if negative {
                -(n as int)
            } else {
                n as int
            },
        ),
        decimal(n).len() > 0,
        forall|j: int| 0 <= j < decimal(n).len() ==> is_digit(#[trigger] decimal(n)[j]),
    decreases n,
{
    let d = decimal(n);
    let c = digit_char((n % 10) as int);
    assert(c as int == 48 + n % 10);
    assert(is_digit(c));
    assert(d.last() == c);
    if n < 10 {
        assert(d.drop_last() =~= Seq::<char>::empty());
        assert(scan_digits(d.drop_last(), negative) == Ok::<int, IntParseError>(0));
    } else {
        lemma_scan_decimal(n / 10, negative);
        assert(d.drop_last() == decimal(n / 10));
        assert(n / 10 * 10 + n % 10 == n);
        assert forall|j: int| 0 <= j < d.len() implies is_digit(#[trigger] d[j]) by {
            if j < d.len() - 1 {
                assert(d[j] == decimal(n / 10)[j]);
            }
        }
    }
}

/// The decimal text of a signed integer parses back to it.
pub proof fn lemma_parse_decimal_signed(v: i64)
    ensures
        spec_parse_i64(decimal_signed(v as int)) == Ok::<int, IntParseError>(v as int),
        forall|j: int|
            0 <= j < decimal_signed(v as int).len() ==> #[trigger] decimal_signed(v as int)[j]
                != ':',
{
    if v < 0 {
        let m = (-(v as int)) as nat;
        lemma_scan_decimal(m, true);
        let t = decimal_signed(v as int);
        assert(t.drop_first() =~= decimal(m));
        assert forall|j: int| 0 <= j < t.len() implies #[trigger] t[j] != ':' by {
            if j > 0 {
                assert(t[j] == decimal(m)[j - 1]);
            }
        }
    } else {
        lemma_scan_decimal(v as nat, false);
        let t = decimal_signed(v as int);
        assert(is_digit(t[0]));
    }
}

} // verus!
