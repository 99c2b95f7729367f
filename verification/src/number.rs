//! Decimal text of `i32` values: reading it (as `str::parse::<i32>` does) and writing it.

use vstd::prelude::*;

use crate::text::chars_of;

verus! {

/// Why a text is not the decimal form of an `i32`; the same four kinds that
/// `std::num::IntErrorKind` has for a parse of an `i32`.
#[derive(Debug, Clone, Copy, PartialEq, Eq, Structural)]
pub enum ParseIntError {
    /// The text is empty.
    Empty,
    /// The text holds a character that is not a digit where a digit is needed.
    InvalidDigit,
    /// The value is above `i32::MAX`.
    PosOverflow,
    /// The value is below `i32::MIN`.
    NegOverflow,
}

/// Whether `c` is one of the ASCII digits `0` to `9`.
pub open spec fn is_digit(c: char) -> bool {
    '0' <= c && c <= '9'
}

/// The value of the digit `c`.
pub open spec fn digit_value(c: char) -> int {
    (c as int) - ('0' as int)
}

/// The digit character of the value `d` (from 0 to 9).
pub open spec fn digit_char(d: int) -> char {
    ((d + ('0' as int)) as u32) as char
}

/// Whether `v` lies in the range of `i32`.
pub open spec fn fits_i32(v: int) -> bool {
    i32::MIN <= v <= i32::MAX
}

/// The value that reading the digits of `body` from left to right accumulates
/// (subtracting each digit where `negative`), or the first error met on the way:
/// a character that is not a digit, or a value that has left the range of `i32`.
pub open spec fn scan_digits(body: Seq<char>, negative: bool) -> Result<int, ParseIntError>
    decreases body.len(),
{
    if body.len() == 0 {
        Ok(0)
    } else {
        match scan_digits(body.drop_last(), negative) {
            Err(e) => Err(e),
            Ok(v) => {
                let c = body.last();
                if !is_digit(c) {
                    Err(ParseIntError::InvalidDigit)
                } else {
                    let w = if negative {
                        v * 10 - digit_value(c)
                    } else {
                        v * 10 + digit_value(c)
                    };
                    if fits_i32(w) {
                        Ok(w)
                    } else if negative {
                        Err(ParseIntError::NegOverflow)
                    } else {
                        Err(ParseIntError::PosOverflow)
                    }
                }
            },
        }
    }
}

/// What `str::parse::<i32>` gives for the text `s`: an optional `+` or `-`
/// followed by at least one decimal digit, and a value in range.
pub open spec fn parse_i32_spec(s: Seq<char>) -> Result<i32, ParseIntError> {
    if s.len() == 0 {
        Err(ParseIntError::Empty)
    } else if s.len() == 1 && (s[0] == '+' || s[0] == '-') {
        Err(ParseIntError::InvalidDigit)
    } else {
        let negative = s[0] == '-';
        let body = if s[0] == '+' || s[0] == '-' {
            s.drop_first()
        } else {
            s
        };
        match scan_digits(body, negative) {
            Ok(v) => Ok(v as i32),
            Err(e) => Err(e),
        }
    }
}

/// Once the scan of a prefix has failed, the scan of any longer text fails the same way.
proof fn lemma_scan_error_persists(s: Seq<char>, k: int, negative: bool)
    requires
        0 <= k <= s.len(),
        scan_digits(s.subrange(0, k), negative) is Err,
    ensures
        scan_digits(s, negative) == scan_digits(s.subrange(0, k), negative),
    decreases s.len() - k,
{
    if k < s.len() {
        assert(s.subrange(0, k + 1).drop_last() =~= s.subrange(0, k));
        lemma_scan_error_persists(s, k + 1, negative);
    } else {
        assert(s.subrange(0, k) =~= s);
    }
}

/// Reads `s` as the decimal form of an `i32`, with the result and the errors of
/// `str::parse::<i32>`.
pub fn parse_i32(s: &str) -> (r: Result<i32, ParseIntError>)
    ensures
        r == parse_i32_spec(s@),
{
    let cs = chars_of(s);
    let n = cs.len();
    if n == 0 {
        return Err(ParseIntError::Empty);
    }
    let first = cs[0];
    if n == 1 && (first == '+' || first == '-') {
        return Err(ParseIntError::InvalidDigit);
    }
    let negative = first == '-';
    let start: usize = if first == '+' || first == '-' {
        1
    } else {
        0
    };
    let ghost body = if first == '+' || first == '-' {
        s@.drop_first()
    } else {
        s@
    };
    assert(body =~= s@.subrange(start as int, n as int));
    let mut acc: i32 = 0;
    let mut i: usize = start;
    assert(body.subrange(0, 0) =~= Seq::<char>::empty());
    while i < n
        invariant
            cs@ == s@,
            n == s@.len(),
            n >= 1,
            first == s@[0],
            negative == (first == '-'),
            !(n == 1 && (first == '+' || first == '-')),
            start == (if first == '+' || first == '-' { 1usize } else { 0usize }),
            body == (if first == '+' || first == '-' { s@.drop_first() } else { s@ }),
            start <= i <= n,
            body == s@.subrange(start as int, n as int),
            scan_digits(body.subrange(0, i - start), negative) == Ok::<int, ParseIntError>(
                acc as int,
            ),
        decreases n - i,
    {
        let c = cs[i];
        let k: usize = i - start;
        assert(body.subrange(0, k + 1).drop_last() =~= body.subrange(0, k as int));
        assert(body.subrange(0, k + 1).last() == c);
        if !('0' <= c && c <= '9') {
            proof {
                lemma_scan_error_persists(body, k + 1, negative);
            }
            return Err(ParseIntError::InvalidDigit);
        }
        let d: i64 = (c as u32 - '0' as u32) as i64;
        let w: i64 = if negative {
            acc as i64 * 10 - d
        } else {
            acc as i64 * 10 + d
        };
        if w < i32::MIN as i64 || w > i32::MAX as i64 {
            proof {
                lemma_scan_error_persists(body, k + 1, negative);
            }
            if negative {
                return Err(ParseIntError::NegOverflow);
            } else {
                return Err(ParseIntError::PosOverflow);
            }
        }
        acc = w as i32;
        i = i + 1;
    }
    assert(body.subrange(0, n - start) =~= body);
    Ok(acc)
}


/// The decimal digits of `n`, most significant first, with no leading zero.
pub open spec fn decimal(n: nat) -> Seq<char>
    decreases n,
{
    if n < 10 {
        seq![digit_char(n as int)]
    } else {
        decimal(n / 10).push(digit_char((n % 10) as int))
    }
}

/// The text that `i32::to_string` gives for `v`: a `-` for a negative value,
/// then the decimal digits of its magnitude.
pub open spec fn i32_text(v: i32) -> Seq<char> {
    if v < 0 {
        seq!['-'] + decimal((-v) as nat)
    } else {
        decimal(v as nat)
    }
}

/// The one-character text of the digit `d`.
fn digit_str(d: u64) -> (r: &'static str)
    requires
        d < 10,
    ensures
        r@ == seq![digit_char(d as int)],
{
    proof {
        reveal_strlit("0");
        reveal_strlit("1");
        reveal_strlit("2");
        reveal_strlit("3");
        reveal_strlit("4");
        reveal_strlit("5");
        reveal_strlit("6");
        reveal_strlit("7");
        reveal_strlit("8");
        reveal_strlit("9");
    }
    if d == 0 {
        "0"
    } else if d == 1 {
        "1"
    } else if d == 2 {
        "2"
    } else if d == 3 {
        "3"
    } else if d == 4 {
        "4"
    } else if d == 5 {
        "5"
    } else if d == 6 {
        "6"
    } else if d == 7 {
        "7"
    } else if d == 8 {
        "8"
    } else {
        "9"
    }
}

/// The decimal digits of `n`.
fn decimal_string(n: u64) -> (r: String)
    ensures
        r@ == decimal(n as nat),
    decreases n,
{
    if n < 10 {
        String::from_str(digit_str(n))
    } else {
        let mut r = decimal_string(n / 10);
        r.append(digit_str(n % 10));
        r
    }
}

/// The decimal text of `v`, as `v.to_string()` writes it.
pub fn i32_to_text(v: i32) -> (r: String)
    ensures
        r@ == i32_text(v),
{
    if v < 0 {
        let m: u64 = (-(v as i64)) as u64;
        let mut r = String::from_str("-");
        proof {
            reveal_strlit("-");
        }
        let digits = decimal_string(m);
        r.append(digits.as_str());
        r
    } else {
        decimal_string(v as u64)
    }
}

/// The digits of `decimal(n)` scan back to `n` (or to `-n` when read as negative).
proof fn lemma_scan_decimal(n: nat, negative: bool)
    requires
        n <= 2147483648,
        !negative ==> n <= 2147483647,
    ensures
        decimal(n).len() >= 1,
        is_digit(decimal(n)[0]),
        scan_digits(decimal(n), negative) == Ok::<int, ParseIntError>(
            if negative {
                -(n as int)
            } else {
                n as int
            },
        ),
    decreases n,
{
    if n < 10 {
        let s = decimal(n);
        assert(s.drop_last() =~= Seq::<char>::empty());
        assert(digit_value(digit_char(n as int)) == n);
        assert(is_digit(s.last()));
        assert(scan_digits(s.drop_last(), negative) == Ok::<int, ParseIntError>(0));
    } else {
        lemma_scan_decimal(n / 10, negative);
        let s = decimal(n);
        assert(s.drop_last() =~= decimal(n / 10));
        assert(digit_value(digit_char((n % 10) as int)) == n % 10);
        assert((n / 10) * 10 + n % 10 == n);
        assert(s.last() == digit_char((n % 10) as int));
        assert(is_digit(s.last()));
        assert(s[0] == decimal(n / 10)[0]);
    }
}

/// Reading the text of an `i32` gives the same `i32` back.
pub proof fn lemma_parse_of_text(v: i32)
    ensures
        parse_i32_spec(i32_text(v)) == Ok::<i32, ParseIntError>(v),
{
    if v < 0 {
        let m = (-v) as nat;
        lemma_scan_decimal(m, true);
        let s = i32_text(v);
        assert(s.drop_first() =~= decimal(m));
        assert(s[0] == '-');
    } else {
        lemma_scan_decimal(v as nat, false);
    }
}

/// A leading `+` before the digits changes nothing.
pub proof fn lemma_parse_plus(s: Seq<char>)
    requires
        s.len() > 0,
        '0' <= s[0] <= '9',
    ensures
        parse_i32_spec(seq!['+'] + s) == parse_i32_spec(s),
{
    assert((seq!['+'] + s).drop_first() =~= s);
}

/// A character that is not a digit, anywhere but in the leading sign
/// position, makes the text unreadable.
pub proof fn lemma_parse_rejects_non_digit(s: Seq<char>, k: int)
    requires
        0 <= k < s.len(),
        !('0' <= s[k] <= '9'),
        k > 0 || (s[0] != '+' && s[0] != '-'),
    ensures
        parse_i32_spec(s) is Err,
{
    if s.len() == 1 && (s[0] == '+' || s[0] == '-') {
    } else {
        let signed = s[0] == '+' || s[0] == '-';
        let negative = s[0] == '-';
        let body = if signed {
            s.drop_first()
        } else {
            s
        };
        let kk = if signed {
            k - 1
        } else {
            k
        };
        assert(body[kk] == s[k]);
        let pre = body.subrange(0, kk + 1);
        assert(pre.drop_last() =~= body.subrange(0, kk));
        assert(pre.last() == body[kk]);
        assert(scan_digits(pre, negative) is Err);
        lemma_scan_error_persists(body, kk + 1, negative);
    }
}

} // verus!
