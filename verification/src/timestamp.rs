//! The instant attached to an artifact: a unix timestamp together with the
//! local civil fields it displays as, and the fixed human-readable rendering
//! (`Thu Sep 19 22:16:28 2019`) used by the freshness summaries.

use vstd::prelude::*;

use crate::decimal::{dec_digit, dec_str, digit_str, format_two_digits, format_u64, two_digits};

verus! {

/// A file's last-modified instant.
///
/// `secs`/`nanos` place the instant on the unix time line and give the
/// ordering; the remaining fields are the civil clock reading the instant
/// displays as (in the zone in which it was captured).
#[derive(Clone, Copy, Debug, PartialEq, Eq, Structural)]
pub struct Timestamp {
    /// Non-leap seconds since the unix epoch.
    pub secs: i64,
    /// Nanoseconds past the whole second.
    pub nanos: u32,
    /// Calendar year of the displayed clock reading.
    pub year: i32,
    /// Month, `1 ..= 12`.
    pub month: u8,
    /// Day of month, `1 ..= 31`.
    pub day: u8,
    /// Hour, `0 ..= 23`.
    pub hour: u8,
    /// Minute, `0 ..= 59`.
    pub minute: u8,
    /// Second, `0 ..= 59`.
    pub second: u8,
}

impl Timestamp {
    /// The civil fields lie in their calendar ranges.
    pub open spec fn valid(self) -> bool {
        &&& -262_143 <= self.year <= 262_142
        &&& 1 <= self.month <= 12
        &&& 1 <= self.day <= 31
        &&& self.hour <= 23
        &&& self.minute <= 59
        &&& self.second <= 59
    }

    /// `self` is at or before `other` on the unix time line.
    pub open spec fn le(self, other: Timestamp) -> bool {
        self.secs < other.secs || (self.secs == other.secs && self.nanos <= other.nanos)
    }

    /// Executable form of [`Timestamp::le`].
    pub fn is_at_or_before(&self, other: &Timestamp) -> (r: bool)
        ensures
            r == self.le(*other),
    {
        self.secs < other.secs || (self.secs == other.secs && self.nanos <= other.nanos)
    }
}

/// Index of the weekday of a calendar date, `0` for Saturday through `6` for
/// Friday (Zeller's congruence). The year is shifted by a multiple of 400 —
/// a full repetition of the Gregorian weekday cycle — so that every quantity
/// stays non-negative over the representable years.
pub open spec fn weekday_index(y: int, m: int, d: int) -> int {
    let ys = y + 280_000;
    let yy = if m <= 2 {
        ys - 1
    } else {
        ys
    };
    let mm = if m <= 2 {
        m + 12
    } else {
        m
    };
    let k = yy % 100;
    let j = yy / 100;
    (d + (13 * (mm + 1)) / 5 + k + k / 4 + j / 4 + 5 * j) % 7
}

/// Three-letter weekday label for a weekday index.
pub open spec fn weekday_name(h: int) -> Seq<char> {
    if h == 0 {
        "Sat"@
    } else if h == 1 {
        "Sun"@
    } else if h == 2 {
        "Mon"@
    } else if h == 3 {
        "Tue"@
    } else if h == 4 {
        "Wed"@
    } else if h == 5 {
        "Thu"@
    } else {
        "Fri"@
    }
}

/// Three-letter month label, for months `1 ..= 12`.
pub open spec fn month_name(m: int) -> Seq<char> {
    if m == 1 {
        "Jan"@
    } else if m == 2 {
        "Feb"@
    } else if m == 3 {
        "Mar"@
    } else if m == 4 {
        "Apr"@
    } else if m == 5 {
        "May"@
    } else if m == 6 {
        "Jun"@
    } else if m == 7 {
        "Jul"@
    } else if m == 8 {
        "Aug"@
    } else if m == 9 {
        "Sep"@
    } else if m == 10 {
        "Oct"@
    } else if m == 11 {
        "Nov"@
    } else {
        "Dec"@
    }
}

/// Day of month in a two-column field, space-padded below ten.
pub open spec fn day_str(d: int) -> Seq<char> {
    if d < 10 {
        seq![' ', dec_digit(d)]
    } else {
        dec_str(d)
    }
}

/// Calendar year, zero-padded to at least four digits, with a leading minus
/// sign for years before year zero.
pub open spec fn year_str(y: int) -> Seq<char> {
    if y < 0 {
        seq!['-'] + padded_year(-y)
    } else {
        padded_year(y)
    }
}

/// Magnitude of a year, zero-padded to at least four digits.
pub open spec fn padded_year(y: int) -> Seq<char> {
    if y < 10_000 {
        seq![
            dec_digit(y / 1000),
            dec_digit((y / 100) % 10),
            dec_digit((y / 10) % 10),
            dec_digit(y % 10),
        ]
    } else {
        dec_str(y)
    }
}

/// The fixed rendering of an instant's civil fields:
/// weekday, month, space-padded day, `hh:mm:ss`, year.
pub open spec fn ctime_str(t: Timestamp) -> Seq<char> {
    weekday_name(weekday_index(t.year as int, t.month as int, t.day as int)) + " "@ + month_name(
        t.month as int,
    ) + " "@ + day_str(t.day as int) + " "@ + two_digits(t.hour as int) + ":"@ + two_digits(
        t.minute as int,
    ) + ":"@ + two_digits(t.second as int) + " "@ + year_str(t.year as int)
}

fn weekday_of(y: i32, m: u8, d: u8) -> (h: u64)
    requires
        -262_143 <= y <= 262_142,
        1 <= m <= 12,
        1 <= d <= 31,
    ensures
        h == weekday_index(y as int, m as int, d as int),
        h < 7,
{
    let ys: u64 = (y + 280_000) as u64;
    let yy: u64 = if m <= 2 {
        ys - 1
    } else {
        ys
    };
    let mm: u64 = if m <= 2 {
        m as u64 + 12
    } else {
        m as u64
    };
    let k: u64 = yy % 100;
    let j: u64 = yy / 100;
    (d as u64 + (13 * (mm + 1)) / 5 + k + k / 4 + j / 4 + 5 * j) % 7
}

fn weekday_str(h: u64) -> (r: &'static str)
    requires
        h < 7,
    ensures
        r@ == weekday_name(h as int),
{
    match h {
        0 => "Sat",
        1 => "Sun",
        2 => "Mon",
        3 => "Tue",
        4 => "Wed",
        5 => "Thu",
        _ => "Fri",
    }
}

fn month_str(m: u8) -> (r: &'static str)
    requires
        1 <= m <= 12,
    ensures
        r@ == month_name(m as int),
{
    match m {
        1 => "Jan",
        2 => "Feb",
        3 => "Mar",
        4 => "Apr",
        5 => "May",
        6 => "Jun",
        7 => "Jul",
        8 => "Aug",
        9 => "Sep",
        10 => "Oct",
        11 => "Nov",
        _ => "Dec",
    }
}

fn format_day(d: u8) -> (r: String)
    requires
        1 <= d <= 31,
    ensures
        r@ == day_str(d as int),
{
    if d < 10 {
        let mut s = " ".to_owned();
        s.append(digit_str(d as u64));
        proof {
            reveal_strlit(" ");
            assert(s@ =~= day_str(d as int));
        }
        s
    } else {
        format_u64(d as u64)
    }
}

fn format_year(y: i32) -> (r: String)
    requires
        -262_143 <= y <= 262_142,
    ensures
        r@ == year_str(y as int),
{
    if y < 0 {
        let mag: u64 = (-(y as i64)) as u64;
        let mut s = "-".to_owned();
        s.append(format_padded_year(mag).as_str());
        proof {
            reveal_strlit("-");
            assert(s@ =~= year_str(y as int));
        }
        s
    } else {
        format_padded_year(y as u64)
    }
}

fn format_padded_year(y: u64) -> (r: String)
    requires
        y <= 262_143,
    ensures
        r@ == padded_year(y as int),
{
    if y < 10_000 {
        let mut s = digit_str(y / 1000).to_owned();
        s.append(digit_str((y / 100) % 10));
        s.append(digit_str((y / 10) % 10));
        s.append(digit_str(y % 10));
        proof {
            assert(s@ =~= padded_year(y as int));
        }
        s
    } else {
        format_u64(y)
    }
}

/// Render an instant in the fixed human-readable form,
/// e.g. `Thu Sep 19 22:16:28 2019`.
pub fn render_ctime(t: &Timestamp) -> (r: String)
    requires
        t.valid(),
    ensures
        r@ == ctime_str(*t),
{
    let h = weekday_of(t.year, t.month, t.day);
    let mut s = weekday_str(h).to_owned();
    s.append(" ");
    s.append(month_str(t.month));
    s.append(" ");
    s.append(format_day(t.day).as_str());
    s.append(" ");
    s.append(format_two_digits(t.hour as u64).as_str());
    s.append(":");
    s.append(format_two_digits(t.minute as u64).as_str());
    s.append(":");
    s.append(format_two_digits(t.second as u64).as_str());
    s.append(" ");
    s.append(format_year(t.year).as_str());
    proof {
        assert(s@ =~= ctime_str(*t));
    }
    s
}

} // verus!
