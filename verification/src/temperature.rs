//! Interpretation of raw temperature-sensor reads: the bytes of a
//! sensor file hold a decimal integer in milli-degrees Celsius,
//! terminated by a newline or the end of the read. Values below a
//! sanity floor are rejected as a sensor fault, not clamped. The
//! reading used by the control loop is the average of two sensors.

use vstd::prelude::*;

verus! {

/// Sanity floor: a reading below this (milli-degrees Celsius) is
/// taken for a sensor malfunction.
pub const MIN_TEMP: i32 = 20 * 1000;

/// Why a temperature reading was rejected.
#[derive(Clone, Copy, Debug, PartialEq, Eq, Structural)]
pub enum TempError {
    /// The bytes do not hold a decimal integer in range of `i32`.
    Malformed,
    /// The value is below the sanity floor.
    OutOfRange,
}

/// ASCII decimal digit.
pub open spec fn is_ascii_digit(b: u8) -> bool {
    48 <= b <= 57
}

/// The number denoted by a run of ASCII digits, most significant
/// first.
pub open spec fn digits_value(s: Seq<u8>) -> int
    decreases s.len(),
{
    if s.len() == 0 {
        0
    } else {
        digits_value(s.drop_last()) * 10 + (s.last() - 48)
    }
}

/// The digit run of a decimal literal: what follows the optional
/// leading sign.
pub open spec fn digits_of(s: Seq<u8>) -> Seq<u8> {
    if s.len() > 0 && (s[0] == 43 || s[0] == 45) {
        s.drop_first()
    } else {
        s
    }
}

/// Whether the literal carries a minus sign.
pub open spec fn is_negative(s: Seq<u8>) -> bool {
    s.len() > 0 && s[0] == 45
}

/// A decimal integer literal: an optional sign followed by at least
/// one digit and nothing else.
pub open spec fn valid_decimal(s: Seq<u8>) -> bool {
    &&& digits_of(s).len() > 0
    &&& forall|i: int| 0 <= i < digits_of(s).len() ==> is_ascii_digit(#[trigger] digits_of(s)[i])
}

/// The value a decimal literal denotes.
pub open spec fn decimal_value(s: Seq<u8>) -> int {
    if is_negative(s) {
        -digits_value(digits_of(s))
    } else {
        digits_value(digits_of(s))
    }
}

/// How many bytes precede the first newline (all of them, if there is
/// none).
pub open spec fn line_len(s: Seq<u8>) -> int
    decreases s.len(),
{
    if s.len() == 0 {
        0
    } else if s[0] == 10 {
        0
    } else {
        1 + line_len(s.drop_first())
    }
}

/// The bytes before the first newline.
pub open spec fn first_line(s: Seq<u8>) -> Seq<u8> {
    s.take(line_len(s))
}

/// The outcome of interpreting one sensor file's bytes: the denoted
/// value when its first line is a decimal integer in range of `i32`
/// and at least the sanity floor; the matching rejection otherwise.
pub open spec fn temp_of_bytes(s: Seq<u8>) -> Result<i32, TempError> {
    let line = first_line(s);
    if valid_decimal(line) && i32::MIN <= decimal_value(line) <= i32::MAX {
        if decimal_value(line) >= MIN_TEMP {
            Result::Ok(decimal_value(line) as i32)
        } else {
            Result::Err(TempError::OutOfRange)
        }
    } else {
        Result::Err(TempError::Malformed)
    }
}

/// The reading the control loop acts on: both sensors parsed, the
/// first failure passed through, otherwise the truncating average.
pub open spec fn read_temperature_model(s0: Seq<u8>, s1: Seq<u8>) -> Result<i32, TempError> {
    match temp_of_bytes(s0) {
        Result::Ok(t0) => match temp_of_bytes(s1) {
            Result::Ok(t1) => Result::Ok(((t0 + t1) / 2) as i32),
            Result::Err(e) => Result::Err(e),
        },
        Result::Err(e) => Result::Err(e),
    }
}

proof fn lemma_line_len_is(s: Seq<u8>, e: int)
    requires
        0 <= e <= s.len(),
        forall|k: int| 0 <= k < e ==> #[trigger] s[k] != 10,
        e < s.len() ==> s[e] == 10,
    ensures
        line_len(s) == e,
    decreases e,
{
    if e > 0 {
        lemma_line_len_is(s.drop_first(), e - 1);
    }
}

proof fn lemma_digits_value_nonneg(s: Seq<u8>)
    requires
        forall|i: int| 0 <= i < s.len() ==> is_ascii_digit(#[trigger] s[i]),
    ensures
        digits_value(s) >= 0,
    decreases s.len(),
{
    if s.len() > 0 {
        lemma_digits_value_nonneg(s.drop_last());
    }
}

proof fn lemma_digits_value_prefix_le(s: Seq<u8>, k: int)
    requires
        0 <= k <= s.len(),
        forall|i: int| 0 <= i < s.len() ==> is_ascii_digit(#[trigger] s[i]),
    ensures
        digits_value(s.take(k)) <= digits_value(s),
    decreases s.len(),
{
    if k == s.len() {
        assert(s.take(k) =~= s);
    } else {
        lemma_digits_value_nonneg(s.drop_last());
        lemma_digits_value_prefix_le(s.drop_last(), k);
        assert(s.drop_last().take(k) =~= s.take(k));
    }
}

/// Interpret one sensor file's bytes. Succeeds exactly when the first
/// line is a decimal integer in range of `i32` that reaches the
/// sanity floor.
pub fn parse_temperature(buf: &[u8]) -> (r: Result<i32, TempError>)
    ensures
        r == temp_of_bytes(buf@),
{
    let ghost whole = buf@;
    let n: usize = buf.len();
    let mut end: usize = 0;
    while end < n && buf[end] != 10
        invariant
            end <= n,
            n == whole.len(),
            whole == buf@,
            forall|k: int| 0 <= k < end ==> #[trigger] whole[k] != 10,
        decreases n - end,
    {
        end = end + 1;
    }
    proof {
        lemma_line_len_is(whole, end as int);
    }
    let ghost line = first_line(whole);
    assert(line =~= whole.subrange(0, end as int));

    if end == 0 {
        return Result::Err(TempError::Malformed);
    }
    let head: u8 = buf[0];
    let neg: bool = head == 45;
    let start: usize = if head == 43 || head == 45 {
        1
    } else {
        0
    };
    let ghost digits = digits_of(line);
    assert(digits =~= whole.subrange(start as int, end as int));
    if start == end {
        return Result::Err(TempError::Malformed);
    }

    let mut i: usize = start;
    let mut acc: i64 = 0;
    while i < end
        invariant
            start <= i <= end,
            end <= n,
            n == whole.len(),
            whole == buf@,
            line == first_line(whole),
            digits == digits_of(line),
            digits == whole.subrange(start as int, end as int),
            start < end,
            neg == is_negative(line),
            forall|k: int| 0 <= k < i - start ==> is_ascii_digit(#[trigger] digits[k]),
            acc == digits_value(digits.take(i - start)),
            0 <= acc <= 2147483648,
        decreases end - i,
    {
        let b: u8 = buf[i];
        if b < 48 || b > 57 {
            assert(digits[i - start] == b);
            assert(!valid_decimal(line));
            return Result::Err(TempError::Malformed);
        }
        proof {
            let m = i - start;
            assert(digits.take(m + 1).drop_last() =~= digits.take(m));
            assert(digits.take(m + 1).last() == digits[m]);
        }
        acc = acc * 10 + (b - 48) as i64;
        i = i + 1;
        if acc > 2147483648 {
            proof {
                if valid_decimal(line) {
                    lemma_digits_value_prefix_le(digits, i - start);
                }
            }
            return Result::Err(TempError::Malformed);
        }
    }
    assert(digits.take(end - start) =~= digits);

    if neg {
        // A negative reading fits `i32` here, but lies far below the
        // sanity floor.
        assert(decimal_value(line) == -acc);
        return Result::Err(TempError::OutOfRange);
    }
    assert(decimal_value(line) == acc);
    if acc > 2147483647 {
        return Result::Err(TempError::Malformed);
    }
    let value: i32 = acc as i32;
    if value < MIN_TEMP {
        return Result::Err(TempError::OutOfRange);
    }
    Result::Ok(value)
}

/// The temperature reading for one tick: both sensor buffers parsed,
/// the first failure passed through, otherwise their truncating
/// average.
pub fn read_temperature(buf0: &[u8], buf1: &[u8]) -> (r: Result<i32, TempError>)
    ensures
        r == read_temperature_model(buf0@, buf1@),
{
    let t0: i32 = match parse_temperature(buf0) {
        Result::Ok(t) => t,
        Result::Err(e) => {
            return Result::Err(e);
        },
    };
    let t1: i32 = match parse_temperature(buf1) {
        Result::Ok(t) => t,
        Result::Err(e) => {
            return Result::Err(e);
        },
    };
    let sum: u32 = t0 as u32 + t1 as u32;
    let avg: u32 = sum / 2;
    Result::Ok(avg as i32)
}

} // verus!
