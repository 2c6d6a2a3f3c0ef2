//! Text encodings used on the wire.
//!
//! All values cross the boundary to the scheduling engine as text: boundary
//! timestamps in extended ISO-8601 date-time form, and the idle wait timeout
//! as an ISO-8601 duration such as `PT5M`.  Timestamps are held in this crate
//! as whole seconds since the Unix epoch; the calendar rendering itself is
//! delegated to the `chrono` crate behind a trusted wrapper.

use vstd::prelude::*;

use crate::error::{TaskError, WinError};

verus! {

/// The ISO-8601 rendering that `chrono` gives to a timestamp of this many
/// whole seconds since the Unix epoch, at UTC.
pub uninterp spec fn rfc3339_of(secs: int) -> Seq<char>;

/// Timestamps this far on either side of the epoch are well inside the range
/// of `chrono`'s calendar (roughly 126,000 years each way).
pub const MAX_ENCODABLE_SECONDS: i64 = 4_000_000_000_000;

/// Relies on `chrono::DateTime::<Utc>::from_timestamp` and `to_rfc3339`:
/// the rendered text is a function of the timestamp alone, and the
/// conversion from seconds succeeds for any timestamp whose day count fits
/// the calendar's year range, which covers everything within
/// [`MAX_ENCODABLE_SECONDS`] of the epoch.
#[verifier::external_body]
fn rfc3339_utc(secs: i64) -> (r: Option<String>)
    ensures
        -MAX_ENCODABLE_SECONDS <= secs <= MAX_ENCODABLE_SECONDS ==> r is Some,
        r matches Some(s) ==> s@ == rfc3339_of(secs as int),
{
    chrono::DateTime::<chrono::Utc>::from_timestamp(secs, 0).map(|d| d.to_rfc3339())
}

/// Renders a boundary timestamp in the engine's wire form, rejecting
/// timestamps outside the calendar range with an invalid-argument error.
pub fn encode_boundary(secs: i64) -> (r: Result<String, TaskError>)
    ensures
        -MAX_ENCODABLE_SECONDS <= secs <= MAX_ENCODABLE_SECONDS ==> r is Ok,
        r matches Ok(s) ==> s@ == rfc3339_of(secs as int),
        r is Err ==> (r matches Err(TaskError::WinError(WinError::InvalidArg(m))) && m@
            == "timestamp out of range"@),
{
    match rfc3339_utc(secs) {
        Some(s) => Ok(s),
        None => Err(TaskError::WinError(WinError::InvalidArg("timestamp out of range".to_owned()))),
    }
}

/// Relies on `chrono::Utc::now`: whole seconds of the current wall clock
/// since the Unix epoch.  `Utc::now` aborts when the system clock is set
/// before the epoch, so a value that is returned at all is nonnegative.
#[verifier::external_body]
pub fn now_epoch_seconds() -> (r: i64)
    ensures
        0 <= r,
{
    chrono::Utc::now().timestamp()
}

/// How far past its start boundary a trigger stays armed when the caller
/// gives no end boundary: one hundred 52-week years, effectively "never".
pub const DEFAULT_END_OFFSET_SECONDS: i64 = 100 * 52 * 7 * 86400;

/// Fifty 365-day years of seconds; the default end boundary lies at least
/// this far past "now".
pub const FIFTY_YEARS_SECONDS: i64 = 50 * 365 * 86400;

/// Fills in the boundary timestamps of a trigger that the caller left
/// unset: the start boundary defaults to the current time and the end
/// boundary to [`DEFAULT_END_OFFSET_SECONDS`] past the current time.
pub fn resolve_boundaries(start: Option<i64>, end: Option<i64>, now: i64) -> (r: (i64, i64))
    requires
        0 <= now <= MAX_ENCODABLE_SECONDS - DEFAULT_END_OFFSET_SECONDS,
    ensures
        r.0 == if start is Some {
            start->0
        } else {
            now
        },
        r.1 == if end is Some {
            end->0 as int
        } else {
            now + DEFAULT_END_OFFSET_SECONDS
        },
{
    let s: i64 = match start {
        Some(v) => v,
        None => now,
    };
    let e: i64 = match end {
        Some(v) => v,
        None => now + DEFAULT_END_OFFSET_SECONDS,
    };
    (s, e)
}

/// When the caller supplies no end boundary, the default end lies at least
/// fifty years past the current time, and when the caller supplies neither
/// boundary the start is exactly the current time.
pub proof fn lemma_default_boundaries_far_future(now: i64)
    requires
        0 <= now <= MAX_ENCODABLE_SECONDS - DEFAULT_END_OFFSET_SECONDS,
    ensures
        now + DEFAULT_END_OFFSET_SECONDS >= now + FIFTY_YEARS_SECONDS,
{
}

/// The character for one decimal digit.
pub open spec fn decimal_digit_char(d: int) -> char {
    if d == 0 {
        '0'
    } else if d == 1 {
        '1'
    } else if d == 2 {
        '2'
    } else if d == 3 {
        '3'
    } else if d == 4 {
        '4'
    } else if d == 5 {
        '5'
    } else if d == 6 {
        '6'
    } else if d == 7 {
        '7'
    } else if d == 8 {
        '8'
    } else {
        '9'
    }
}

/// The usual decimal rendering of a nonnegative number, most significant
/// digit first, with no leading zeros.
pub open spec fn decimal_digits(n: int) -> Seq<char>
    decreases n,
{
    if n < 10 {
        seq![decimal_digit_char(n)]
    } else {
        decimal_digits(n / 10) + seq![decimal_digit_char(n % 10)]
    }
}

fn push_decimal_digit(s: &mut String, d: u64)
    requires
        d < 10,
    ensures
        final(s)@ == old(s)@ + seq![decimal_digit_char(d as int)],
{
    let t: &str = if d == 0 {
        "0"
    } else if d == 1 {
        "1"
    } else if d == 2 {
        "2"
    } else if d == 3 {
        "3"
    } else if d == 4 {
        "4"
    } else if d == 5 {
        "5"
    } else if d == 6 {
        "6"
    } else if d == 7 {
        "7"
    } else if d == 8 {
        "8"
    } else {
        "9"
    };
    proof {
        reveal_strlit("0");
        reveal_strlit("1");
        reveal_strlit("2");
        reveal_strlit("3");
        reveal_strlit("4");
        reveal_strlit("5");
        reveal_strlit("6");
        reveal_strlit("7");
        reveal_strlit("8");
        reveal_strlit("9");
    }
    s.append(t);
    proof {
        assert(s@ =~= old(s)@ + seq![decimal_digit_char(d as int)]);
    }
}

fn push_decimal(s: &mut String, n: u64)
    ensures
        final(s)@ == old(s)@ + decimal_digits(n as int),
    decreases n,
{
    if n >= 10 {
        push_decimal(s, n / 10);
        push_decimal_digit(s, n % 10);
        proof {
            assert(s@ =~= old(s)@ + decimal_digits(n as int));
        }
    } else {
        push_decimal_digit(s, n);
    }
}

/// The character for one hexadecimal digit, upper case.
pub open spec fn hex_digit_char(d: int) -> char {
    if d < 10 {
        decimal_digit_char(d)
    } else if d == 10 {
        'A'
    } else if d == 11 {
        'B'
    } else if d == 12 {
        'C'
    } else if d == 13 {
        'D'
    } else if d == 14 {
        'E'
    } else {
        'F'
    }
}

/// The eight hexadecimal digits of a 32-bit status code, most significant
/// nibble first.
pub open spec fn hex_digits(code: u32) -> Seq<char> {
    seq![
        hex_digit_char((code / 0x10000000) as int % 16),
        hex_digit_char((code / 0x1000000) as int % 16),
        hex_digit_char((code / 0x100000) as int % 16),
        hex_digit_char((code / 0x10000) as int % 16),
        hex_digit_char((code / 0x1000) as int % 16),
        hex_digit_char((code / 0x100) as int % 16),
        hex_digit_char((code / 0x10) as int % 16),
        hex_digit_char(code as int % 16),
    ]
}

fn push_hex_digit(s: &mut String, d: u32)
    requires
        d < 16,
    ensures
        final(s)@ == old(s)@ + seq![hex_digit_char(d as int)],
{
    if d < 10 {
        push_decimal_digit(s, d as u64);
    } else {
        let t: &str = if d == 10 {
            "A"
        } else if d == 11 {
            "B"
        } else if d == 12 {
            "C"
        } else if d == 13 {
            "D"
        } else if d == 14 {
            "E"
        } else {
            "F"
        };
        proof {
            reveal_strlit("A");
            reveal_strlit("B");
            reveal_strlit("C");
            reveal_strlit("D");
            reveal_strlit("E");
            reveal_strlit("F");
        }
        s.append(t);
    }
    proof {
        assert(s@ =~= old(s)@ + seq![hex_digit_char(d as int)]);
    }
}

/// Renders a 32-bit status code as eight upper-case hexadecimal digits,
/// the form in which raw codes are reported in error messages.
pub fn hex_code(code: u32) -> (r: String)
    ensures
        r@ == hex_digits(code),
{
    let mut s = String::new();
    push_hex_digit(&mut s, (code / 0x10000000) % 16);
    push_hex_digit(&mut s, (code / 0x1000000) % 16);
    push_hex_digit(&mut s, (code / 0x100000) % 16);
    push_hex_digit(&mut s, (code / 0x10000) % 16);
    push_hex_digit(&mut s, (code / 0x1000) % 16);
    push_hex_digit(&mut s, (code / 0x100) % 16);
    push_hex_digit(&mut s, (code / 0x10) % 16);
    push_hex_digit(&mut s, code % 16);
    proof {
        assert(s@ =~= hex_digits(code));
    }
    s
}

/// The wire form of a wait timeout of this many minutes, as an ISO-8601
/// duration: `PT` then the minute count then `M`.
pub open spec fn iso_duration_minutes(minutes: int) -> Seq<char> {
    "PT"@ + decimal_digits(minutes) + "M"@
}

/// Renders a duration of whole minutes in the ISO-8601 form the engine
/// expects for the idle wait timeout, for example `PT5M` for five minutes.
pub fn wait_timeout_wire(minutes: u64) -> (r: String)
    ensures
        r@ == iso_duration_minutes(minutes as int),
{
    let mut s = String::new();
    s.append("PT");
    push_decimal(&mut s, minutes);
    s.append("M");
    proof {
        assert(s@ =~= iso_duration_minutes(minutes as int));
    }
    s
}

} // verus!
