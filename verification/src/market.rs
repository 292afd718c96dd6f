//! Fixed-point prices and quantities, candles, and the conversion of a
//! daily-history record into a candle.

use vstd::prelude::*;
use vstd::utf8::encode_utf8;
use crate::numeric::{Amount, decimal_amount, int_value, parse_decimal_amount, parse_int_range};

verus! {

/// A price: units of 10^-8, or what its text stood for when it has none.
#[derive(Debug, Clone, Copy, PartialEq, Eq, PartialOrd, Ord, Hash, Structural)]
pub struct Price(pub Amount);

/// A quantity: units of 10^-8, or what its text stood for when it has none.
#[derive(Debug, Clone, Copy, PartialEq, Eq, PartialOrd, Ord, Hash, Structural)]
pub struct Qty(pub Amount);

/// Traded volume of a candle.
#[derive(Debug, Clone, Copy, PartialEq, Eq, Structural)]
pub enum Volume {
    /// Only the total is known.
    TotalOnly(Qty),
}

/// One candle: start time in Unix milliseconds, OHLC and volume.
#[derive(Debug, Clone, Copy, PartialEq, Eq, Structural)]
pub struct Kline {
    pub time: u64,
    pub open: Price,
    pub high: Price,
    pub low: Price,
    pub close: Price,
    pub volume: Volume,
}

/// One day of price history as the API sends it: every value is text, `"*"`
/// meaning "not available".  The `*_adj` fields are split-adjusted values.
#[derive(Debug, Clone)]
pub struct DailyHistoryRecord {
    /// Date as `YYYYMMDD`.
    pub date: String,
    pub open: String,
    pub high: String,
    pub low: String,
    pub close: String,
    pub volume: String,
    pub open_adj: String,
    pub high_adj: String,
    pub low_adj: String,
    pub close_adj: String,
    pub volume_adj: String,
}

/// UTF-8 bytes of a text.
pub open spec fn bytes_of(s: Seq<char>) -> Seq<u8> {
    encode_utf8(s)
}

/// The number a numeric text field stands for: `None` for `"*"`, for the
/// empty text and for text that `f32::from_str` does not read.
pub open spec fn field_amount(s: Seq<char>) -> Option<Amount> {
    if s == seq!['*'] || s.len() == 0 {
        None
    } else {
        decimal_amount(bytes_of(s))
    }
}

/// Reads a numeric text field.
pub fn parse_field(s: &str) -> (r: Option<Amount>)
    ensures
        r == field_amount(s@),
{
    let n = s.unicode_len();
    if n == 0 {
        return None;
    }
    if n == 1 && s.get_char(0) == '*' {
        assert(s@ =~= seq!['*']);
        return None;
    }
    parse_decimal_amount(s.as_bytes())
}

/// Whether `y` is a leap year of the proleptic Gregorian calendar.
pub open spec fn is_leap_year(y: int) -> bool {
    (y % 4 == 0 && y % 100 != 0) || y % 400 == 0
}

/// Number of days of month `m` in year `y`.
pub open spec fn days_in_month(y: int, m: int) -> int {
    if m == 2 {
        if is_leap_year(y) {
            29
        } else {
            28
        }
    } else if m == 4 || m == 6 || m == 9 || m == 11 {
        30
    } else {
        31
    }
}

/// Whether year, month and day name a day of the proleptic Gregorian calendar.
pub open spec fn is_valid_civil_date(y: int, m: int, d: int) -> bool {
    1 <= m <= 12 && 1 <= d <= days_in_month(y, m)
}

/// Days from 1970-01-01 to the given day of the proleptic Gregorian
/// calendar (negative before it).  Years are counted from March, so that
/// the leap day ends a year; a 400-year era has 146 097 days.
pub open spec fn days_from_civil(year: int, month: int, day: int) -> int {
    let y = if month <= 2 {
        year - 1
    } else {
        year
    };
    let era = y / 400;
    let yoe = y - era * 400;
    let mp = if month > 2 {
        month - 3
    } else {
        month + 9
    };
    let doy = (153 * mp + 2) / 5 + day - 1;
    let doe = yoe * 365 + yoe / 4 - yoe / 100 + doy;
    era * 146097 + doe - 719468
}

/// Seconds from 1970-01-01T00:00:00Z to midnight UTC of the given day.
pub open spec fn utc_midnight_seconds(year: int, month: int, day: int) -> int {
    days_from_civil(year, month, day) * 86400
}

/// chrono's `NaiveDate::from_ymd_opt(y, m, d)`, then `and_hms_opt(0, 0, 0)`,
/// `and_utc()` and `timestamp()`.  chrono documents `from_ymd_opt` as
/// failing exactly for days that do not exist (years inside its supported
/// range), and `timestamp` as the seconds since 1970-01-01T00:00:00Z of its
/// proleptic Gregorian calendar, which at midnight is 86 400 times the
/// number of days since that date.
#[verifier::external_body]
fn utc_midnight_timestamp(year: i32, month: u32, day: u32) -> (r: Option<i64>)
    requires
        -262143 <= year <= 262142,
    ensures
        r is Some <==> is_valid_civil_date(year as int, month as int, day as int),
        r matches Some(t) ==> t == utc_midnight_seconds(year as int, month as int, day as int),
{
    match chrono::NaiveDate::from_ymd_opt(year, month, day) {
        Some(date) => match date.and_hms_opt(0, 0, 0) {
            Some(datetime) => Some(datetime.and_utc().timestamp()),
            None => None,
        },
        None => None,
    }
}

/// Offset of Japan Standard Time from UTC, in seconds.
pub const JST_OFFSET_SECS: i64 = 32400;

/// The year, month and day fields of a `YYYYMMDD` date, each read with
/// Rust's integer grammar (the year may carry a sign).
pub open spec fn date_fields(b: Seq<u8>) -> Option<(int, int, int)> {
    if b.len() != 8 {
        None
    } else {
        match (
            int_value(b.subrange(0, 4), true),
            int_value(b.subrange(4, 6), false),
            int_value(b.subrange(6, 8), false),
        ) {
            (Some(y), Some(m), Some(d)) => Some((y, m, d)),
            _ => None,
        }
    }
}

/// Unix milliseconds of midnight JST on a `YYYYMMDD` date; `None` for text
/// that is not such a date and for days up to 1970-01-01 JST, whose instant
/// precedes the epoch.
pub open spec fn date_epoch_ms(date: Seq<char>) -> Option<int> {
    match date_fields(bytes_of(date)) {
        Some((y, m, d)) => if is_valid_civil_date(y, m, d) {
            let t = utc_midnight_seconds(y, m, d);
            if t >= 32400 && (t - 32400) * 1000 <= u64::MAX {
                Some((t - 32400) * 1000)
            } else {
                None
            }
        } else {
            None
        },
        None => None,
    }
}

/// Unix milliseconds of midnight JST on the day whose midnight UTC is
/// `utc_midnight_secs` (JST is UTC+9, so nine hours earlier); `None` when
/// that instant precedes the epoch or its milliseconds exceed `u64`.
pub fn midnight_jst_epoch_ms(utc_midnight_secs: i64) -> (r: Option<u64>)
    ensures
        utc_midnight_secs >= 32400 && (utc_midnight_secs - 32400) * 1000 <= u64::MAX ==> r == Some(
            ((utc_midnight_secs - 32400) * 1000) as u64,
        ),
        !(utc_midnight_secs >= 32400 && (utc_midnight_secs - 32400) * 1000 <= u64::MAX) ==> r is None,
{
    if utc_midnight_secs < JST_OFFSET_SECS || utc_midnight_secs - JST_OFFSET_SECS
        > 18_446_744_073_709_551 {
        return None;
    }
    Some(((utc_midnight_secs - JST_OFFSET_SECS) as u64) * 1000)
}

/// Midnight JST of a `YYYYMMDD` date, in Unix milliseconds.
pub fn date_str_to_epoch_ms(date: &str) -> (r: Option<u64>)
    ensures
        r matches Some(v) ==> date_epoch_ms(date@) == Some(v as int),
        r is None ==> date_epoch_ms(date@) is None,
{
    let b = date.as_bytes();
    if b.len() != 8 {
        return None;
    }
    proof {
        lemma_small_int_bound(b@.subrange(0, 4), true);
        lemma_small_int_bound(b@.subrange(4, 6), false);
        lemma_small_int_bound(b@.subrange(6, 8), false);
    }
    let year = match parse_int_range(b, 0, 4, true, 10_000) {
        Some(v) => v,
        None => return None,
    };
    let month = match parse_int_range(b, 4, 6, false, 100) {
        Some(v) => v,
        None => return None,
    };
    let day = match parse_int_range(b, 6, 8, false, 100) {
        Some(v) => v,
        None => return None,
    };
    let secs = match utc_midnight_timestamp(year as i32, month as u32, day as u32) {
        Some(t) => t,
        None => return None,
    };
    midnight_jst_epoch_ms(secs)
}

proof fn lemma_small_int_bound(s: Seq<u8>, signed: bool)
    requires
        s.len() <= 4,
    ensures
        int_value(s, signed) matches Some(x) ==> -999 <= x <= 9999 && (!signed ==> x >= 0),
{
    let has_sign = s.len() > 0 && (s[0] == 43 || (signed && s[0] == 45));
    let rest = if has_sign {
        s.drop_first()
    } else {
        s
    };
    if rest.len() >= 1 && crate::numeric::all_digits(rest) {
        crate::numeric::lemma_digits_bound(rest);
        crate::numeric::lemma_pow10_monotone(rest.len(), 4);
        assert(crate::numeric::pow10(4) == 10000) by {
            reveal_with_fuel(crate::numeric::pow10, 5);
        }
        if has_sign {
            crate::numeric::lemma_pow10_monotone(rest.len(), 3);
            assert(crate::numeric::pow10(3) == 1000) by {
                reveal_with_fuel(crate::numeric::pow10, 4);
            }
        }
    }
}

/// The daily record's candle: the plain or, with `use_adjusted`, the
/// split-adjusted values; midnight JST of the record's date as time.
pub open spec fn daily_kline(
    date: Seq<char>,
    o: Seq<char>,
    h: Seq<char>,
    l: Seq<char>,
    c: Seq<char>,
    v: Seq<char>,
) -> Option<Kline> {
    match (field_amount(o), field_amount(h), field_amount(l), field_amount(c), field_amount(v)) {
        (Some(o), Some(h), Some(l), Some(c), Some(v)) => match date_epoch_ms(date) {
            Some(t) => Some(
                Kline {
                    time: t as u64,
                    open: Price(o),
                    high: Price(h),
                    low: Price(l),
                    close: Price(c),
                    volume: Volume::TotalOnly(Qty(v)),
                },
            ),
            None => None,
        },
        _ => None,
    }
}

/// Converts a daily-history record to a candle; `None` when a value is
/// `"*"`, empty or text that `f32::from_str` does not read, or the date is
/// not a valid `YYYYMMDD` day after 1970-01-01.
pub fn daily_record_to_kline(record: &DailyHistoryRecord, use_adjusted: bool) -> (r: Option<Kline>)
    ensures
        !use_adjusted ==> r == daily_kline(
            record.date@,
            record.open@,
            record.high@,
            record.low@,
            record.close@,
            record.volume@,
        ),
        use_adjusted ==> r == daily_kline(
            record.date@,
            record.open_adj@,
            record.high_adj@,
            record.low_adj@,
            record.close_adj@,
            record.volume_adj@,
        ),
{
    let (o, h, l, c, v) = if use_adjusted {
        (&record.open_adj, &record.high_adj, &record.low_adj, &record.close_adj, &record.volume_adj)
    } else {
        (&record.open, &record.high, &record.low, &record.close, &record.volume)
    };
    let open = match parse_field(o.as_str()) {
        Some(x) => x,
        None => return None,
    };
    let high = match parse_field(h.as_str()) {
        Some(x) => x,
        None => return None,
    };
    let low = match parse_field(l.as_str()) {
        Some(x) => x,
        None => return None,
    };
    let close = match parse_field(c.as_str()) {
        Some(x) => x,
        None => return None,
    };
    let volume = match parse_field(v.as_str()) {
        Some(x) => x,
        None => return None,
    };
    let time = match date_str_to_epoch_ms(record.date.as_str()) {
        Some(t) => t,
        None => return None,
    };
    Some(
        Kline {
            time,
            open: Price(open),
            high: Price(high),
            low: Price(low),
            close: Price(close),
            volume: Volume::TotalOnly(Qty(volume)),
        },
    )
}

} // verus!
