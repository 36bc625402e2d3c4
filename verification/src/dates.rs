//! The due date that the reminders look for by default: yesterday, in São
//! Paulo, written as the sheet writes dates ("dd/mm/yyyy").

use vstd::prelude::*;
use chrono::Datelike;
use crate::console::{byte_len, date_of_parts, is_date_shaped, lemma_split_of_parts, slash_free};
use crate::text::{
    is_digit, lemma_decimal_len, lemma_zero_padded, pow10, push_char, push_zero_padded,
    zero_padded,
};

verus! {

/// The largest Unix timestamp, in seconds, that chrono's `DateTime<Utc>`
/// holds (the last second of the year 262142).
pub const MAX_CHRONO_TIMESTAMP: i64 = 8_210_266_876_799;

/// The smallest timestamp whose São Paulo date is asked for: one day after
/// chrono's first representable second, so that the local date exists.
pub const MIN_LOCAL_TIMESTAMP: i64 = -8_334_601_228_800;

/// The calendar date (year, month, day) in the America/Sao_Paulo time zone of
/// the instant `timestamp` seconds after the Unix epoch, as chrono and
/// chrono-tz compute it from the time-zone database compiled into chrono-tz.
pub uninterp spec fn sao_paulo_date(timestamp: i64) -> (i32, u32, u32);

/// The seconds elapsed since the Unix epoch by the machine's clock: std's
/// `SystemTime::now().duration_since(UNIX_EPOCH)`, in whole seconds, or
/// `None` when the clock reads a time before the epoch. Nothing is promised of
/// the value: it is whatever the clock reads.
#[verifier::external_body]
fn seconds_since_epoch() -> (s: Option<u64>) {
    match std::time::SystemTime::now().duration_since(std::time::UNIX_EPOCH) {
        Ok(d) => Some(d.as_secs()),
        Err(_) => None,
    }
}

/// Why the current instant cannot be had.
#[derive(Debug, Clone, Copy, PartialEq, Eq, Structural)]
pub enum ClockError {
    /// The clock reads a time before the Unix epoch.
    BeforeEpoch,
    /// The clock reads a time past the last instant that chrono represents.
    OutOfRange,
}

/// The instant of a clock reading (seconds since the Unix epoch, or `None`
/// for a reading before the epoch): the reading itself where chrono
/// represents it, up to `MAX_CHRONO_TIMESTAMP`; otherwise why there is none.
pub fn instant_of(reading: Option<u64>) -> (t: Result<i64, ClockError>)
    ensures
        reading is None ==> t == Err::<i64, ClockError>(ClockError::BeforeEpoch),
        reading matches Some(s) ==> {
            &&& s <= MAX_CHRONO_TIMESTAMP ==> t == Ok::<i64, ClockError>(s as i64)
            &&& s > MAX_CHRONO_TIMESTAMP ==> t == Err::<i64, ClockError>(ClockError::OutOfRange)
        },
{
    match reading {
        None => Err(ClockError::BeforeEpoch),
        Some(secs) => {
            if secs <= MAX_CHRONO_TIMESTAMP as u64 {
                Ok(secs as i64)
            } else {
                Err(ClockError::OutOfRange)
            }
        },
    }
}

/// The current instant in seconds since the Unix epoch: the instant of the
/// clock's reading.
pub fn checked_now() -> (t: Result<i64, ClockError>)
    ensures
        t matches Ok(v) ==> 0 <= v <= MAX_CHRONO_TIMESTAMP,
{
    instant_of(seconds_since_epoch())
}

/// The São Paulo calendar date of an instant: chrono's
/// `DateTime::from_timestamp`, `with_timezone(&chrono_tz::America::Sao_Paulo)`
/// and `date_naive`. The contract names the date (`sao_paulo_date`) and says
/// that the month and the day are in their ranges, as chrono's `Datelike`
/// documents them. `from_timestamp` gives `Some` for every timestamp in the
/// range that `requires` admits.
#[verifier::external_body]
fn sao_paulo_calendar_date(timestamp: i64) -> (d: (i32, u32, u32))
    requires
        MIN_LOCAL_TIMESTAMP <= timestamp <= MAX_CHRONO_TIMESTAMP,
    ensures
        d == sao_paulo_date(timestamp),
        1 <= d.1 <= 12,
        1 <= d.2 <= 31,
{
    let utc = chrono::DateTime::from_timestamp(timestamp, 0).unwrap();
    let local = utc.with_timezone(&chrono_tz::America::Sao_Paulo).date_naive();
    (local.year(), local.month(), local.day())
}

/// A year as chrono's `%Y` writes it: four digits with leading zeros from 0 to
/// 9999, and outside that range a sign in front of at least four digits.
pub open spec fn year_text(y: int) -> Seq<char> {
    if 0 <= y <= 9999 {
        zero_padded(y as nat, 4)
    } else if y < 0 {
        seq!['-'] + zero_padded((-y) as nat, 4)
    } else {
        seq!['+'] + zero_padded(y as nat, 4)
    }
}

/// A date as chrono's `%d/%m/%Y` writes it.
pub open spec fn date_text(d: (i32, u32, u32)) -> Seq<char> {
    zero_padded(d.2 as nat, 2) + seq!['/'] + zero_padded(d.1 as nat, 2) + seq!['/'] + year_text(
        d.0 as int,
    )
}

/// Writes a date as "dd/mm/yyyy".
pub fn format_date(d: (i32, u32, u32)) -> (res: String)
    ensures
        res@ == date_text(d),
{
    let mut out = String::new();
    push_zero_padded(&mut out, d.2 as u64, 2);
    push_char(&mut out, '/');
    push_zero_padded(&mut out, d.1 as u64, 2);
    push_char(&mut out, '/');
    let y = d.0;
    if 0 <= y && y <= 9999 {
        push_zero_padded(&mut out, y as u64, 4);
    } else if y < 0 {
        push_char(&mut out, '-');
        let magnitude: u64 = (0i64 - (y as i64)) as u64;
        push_zero_padded(&mut out, magnitude, 4);
    } else {
        push_char(&mut out, '+');
        push_zero_padded(&mut out, y as u64, 4);
    }
    assert(out@ =~= date_text(d));
    out
}

/// The date, written "dd/mm/yyyy", of the day before the instant `now` in
/// São Paulo: the São Paulo date of the instant one day (86 400 seconds)
/// earlier.
pub open spec fn yesterday_text(now: i64) -> Seq<char> {
    date_text(sao_paulo_date((now - 86_400) as i64))
}

/// The default date at the instant `now` is the São Paulo date of the instant
/// exactly one day (86 400 seconds) before `now`, written "dd/mm/yyyy" as
/// chrono writes "%d/%m/%Y": two-digit day, two-digit month, four-digit year.
pub proof fn law_yesterday_is_one_day_before(now: i64)
    ensures
        ({
            let d = sao_paulo_date((now - 86_400) as i64);
            &&& yesterday_text(now) == date_text(d)
            &&& yesterday_text(now) == zero_padded(d.2 as nat, 2) + seq!['/'] + zero_padded(
                d.1 as nat,
                2,
            ) + seq!['/'] + year_text(d.0 as int)
        }),
{
}

/// The São Paulo date of the day before the instant `now`, written
/// "dd/mm/yyyy".
pub fn yesterday_in_sao_paulo_at(now: i64) -> (res: String)
    requires
        0 <= now <= MAX_CHRONO_TIMESTAMP,
    ensures
        res@ == yesterday_text(now),
        res@ == date_text(sao_paulo_date((now - 86_400) as i64)),
{
    let d = sao_paulo_calendar_date(now - 86_400);
    format_date(d)
}

/// Yesterday's date in São Paulo, written "dd/mm/yyyy": the date of the day
/// before the instant that the clock reads, or why the clock gives no instant.
pub fn get_yesterday_date_in_sao_paulo() -> (res: Result<String, ClockError>)
    ensures
        res matches Ok(d) ==> exists|now: i64|
            0 <= now <= MAX_CHRONO_TIMESTAMP && d@ == #[trigger] yesterday_text(now),
{
    match checked_now() {
        Ok(now) => {
            let d = yesterday_in_sao_paulo_at(now);
            assert(d@ == yesterday_text(now));
            Ok(d)
        },
        Err(e) => Err(e),
    }
}

/// Digits take one byte each.
proof fn lemma_digits_bytes(s: Seq<char>)
    requires
        forall|i: int| 0 <= i < s.len() ==> is_digit(#[trigger] s[i]),
    ensures
        byte_len(s) == s.len(),
    decreases s.len(),
{
    if s.len() > 0 {
        lemma_digits_bytes(s.drop_last());
        assert(is_digit(s.last()));
    }
}

/// The default due date has the shape that the program accepts when a date
/// is typed ("dd/mm/aaaa"), for every date of the years 0 to 9999.
pub proof fn law_default_date_has_typed_shape(d: (i32, u32, u32))
    requires
        0 <= d.0 <= 9999,
        1 <= d.1 <= 12,
        1 <= d.2 <= 31,
    ensures
        is_date_shaped(date_text(d)),
{
    assert(pow10(0) == 1);
    assert(pow10(1) == 10);
    assert(pow10(2) == 100);
    assert(pow10(3) == 1000);
    assert(pow10(4) == 10000);
    lemma_decimal_len(d.2 as nat, 2);
    lemma_decimal_len(d.1 as nat, 2);
    lemma_decimal_len(d.0 as nat, 4);
    let day = zero_padded(d.2 as nat, 2);
    let month = zero_padded(d.1 as nat, 2);
    let year = zero_padded(d.0 as nat, 4);
    lemma_zero_padded(d.2 as nat, 2);
    lemma_zero_padded(d.1 as nat, 2);
    lemma_zero_padded(d.0 as nat, 4);
    assert(slash_free(day) && slash_free(month) && slash_free(year)) by {
        assert forall|i: int| 0 <= i < day.len() implies day[i] != '/' by {
            assert(is_digit(day[i]));
        }
        assert forall|i: int| 0 <= i < month.len() implies month[i] != '/' by {
            assert(is_digit(month[i]));
        }
        assert forall|i: int| 0 <= i < year.len() implies year[i] != '/' by {
            assert(is_digit(year[i]));
        }
    }
    lemma_split_of_parts(day, month, year);
    lemma_digits_bytes(day);
    lemma_digits_bytes(month);
    lemma_digits_bytes(year);
    assert(date_text(d) == date_of_parts(day, month, year));
}

} // verus!
