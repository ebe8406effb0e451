//! Reading the wall clock, and the date and time labels the summaries carry.

use chrono::{Datelike, Timelike};
use vstd::prelude::*;

verus! {

/// The wall clock in the machine's zone, with the zone's offset from UTC in seconds.
#[derive(Clone, Copy, Debug)]
pub struct LocalMoment {
    pub year: i32,
    pub month: u32,
    pub day: u32,
    pub hour: u32,
    pub minute: u32,
    pub second: u32,
    pub utc_offset: i32,
}

impl LocalMoment {
    pub open spec fn wf(self) -> bool {
        &&& 1 <= self.month <= 12
        &&& 1 <= self.day <= 31
        &&& self.hour < 24
        &&& self.minute < 60
        &&& self.second < 60
        &&& -86400 < self.utc_offset < 86400
    }
}

/// Relies on chrono's `Local::now`, its `Datelike` and `Timelike` accessors (month
/// 1 to 12, day 1 to 31, hour 0 to 23, minute and second 0 to 59) and
/// `FixedOffset::local_minus_utc` (strictly within a day either way).
#[verifier::external_body]
pub(crate) fn read_local_clock() -> (r: LocalMoment)
    ensures
        r.wf(),
{
    let now = chrono::Local::now();
    LocalMoment {
        year: now.year(),
        month: now.month(),
        day: now.day(),
        hour: now.hour(),
        minute: now.minute(),
        second: now.second(),
        utc_offset: now.offset().local_minus_utc(),
    }
}

/// The offset of Indian Standard Time from UTC, in seconds.
pub const IST_OFFSET: i64 = 19800;

pub open spec fn digit_text(d: nat) -> Seq<char> {
    if d == 0 {
        "0"@
    } else if d == 1 {
        "1"@
    } else if d == 2 {
        "2"@
    } else if d == 3 {
        "3"@
    } else if d == 4 {
        "4"@
    } else if d == 5 {
        "5"@
    } else if d == 6 {
        "6"@
    } else if d == 7 {
        "7"@
    } else if d == 8 {
        "8"@
    } else {
        "9"@
    }
}

/// The decimal digits of `n`, without leading zeros.
pub open spec fn decimal(n: nat) -> Seq<char>
    decreases n,
{
    if n < 10 {
        digit_text(n)
    } else {
        decimal(n / 10) + digit_text(n % 10)
    }
}

/// The decimal text of a signed number.
pub open spec fn signed_decimal(n: int) -> Seq<char> {
    if n < 0 {
        "-"@ + decimal((-n) as nat)
    } else {
        decimal(n as nat)
    }
}

/// A day as `D-M-YYYY`.
pub open spec fn date_text(year: int, month: nat, day: nat) -> Seq<char> {
    decimal(day) + "-"@ + decimal(month) + "-"@ + signed_decimal(year)
}

/// `n` below 100 in two digits.
pub open spec fn two_digits(n: nat) -> Seq<char> {
    if n < 10 {
        "0"@ + digit_text(n)
    } else {
        decimal(n)
    }
}

/// A time of day on the 12-hour clock, as `HH:MM AM` or `HH:MM PM`.
pub open spec fn clock_text(hour: nat, minute: nat) -> Seq<char> {
    let h12: nat = if hour % 12 == 0 {
        12
    } else {
        hour % 12
    };
    two_digits(h12) + ":"@ + two_digits(minute) + if hour < 12 {
        " AM"@
    } else {
        " PM"@
    }
}

/// The second of the day at `t` in a zone `offset` seconds east of UTC.
pub open spec fn second_of_day_at(t: LocalMoment, offset: int) -> int {
    (t.hour * 3600 + t.minute * 60 + t.second - t.utc_offset + offset) % 86400
}

/// The time label of moment `t` in a zone `offset` seconds east of UTC.
pub open spec fn clock_text_at(t: LocalMoment, offset: int) -> Seq<char> {
    let s = second_of_day_at(t, offset);
    clock_text((s / 3600) as nat, ((s % 3600) / 60) as nat)
}

fn digit(d: u32) -> (r: &'static str)
    requires
        d < 10,
    ensures
        r@ == digit_text(d as nat),
{
    if d == 0 {
        "0"
    } else if d == 1 {
        "1"
    } else if d == 2 {
        "2"
    } else if d == 3 {
        "3"
    } else if d == 4 {
        "4"
    } else if d == 5 {
        "5"
    } else if d == 6 {
        "6"
    } else if d == 7 {
        "7"
    } else if d == 8 {
        "8"
    } else {
        "9"
    }
}

/// The decimal text of `n`.
pub fn decimal_string(n: u32) -> (r: String)
    ensures
        r@ == decimal(n as nat),
    decreases n,
{
    if n < 10 {
        String::from_str(digit(n))
    } else {
        let mut s = decimal_string(n / 10);
        s.append(digit(n % 10));
        s
    }
}

fn signed_decimal_string(n: i32) -> (r: String)
    ensures
        r@ == signed_decimal(n as int),
{
    if n < 0 {
        let mut s = String::from_str("-");
        let magnitude: u32 = (-(n as i64)) as u32;
        s.append(decimal_string(magnitude).as_str());
        s
    } else {
        decimal_string(n as u32)
    }
}

fn two_digit_string(n: u32) -> (r: String)
    requires
        n < 100,
    ensures
        r@ == two_digits(n as nat),
{
    if n < 10 {
        let mut s = String::from_str("0");
        s.append(digit(n));
        s
    } else {
        decimal_string(n)
    }
}

/// The day as `D-M-YYYY`.
pub fn date_label(year: i32, month: u32, day: u32) -> (r: String)
    ensures
        r@ == date_text(year as int, month as nat, day as nat),
{
    let mut s = decimal_string(day);
    s.append("-");
    s.append(decimal_string(month).as_str());
    s.append("-");
    s.append(signed_decimal_string(year).as_str());
    s
}

/// The time of day `hour:minute` as `HH:MM AM` or `HH:MM PM`.
pub fn clock_label(hour: u32, minute: u32) -> (r: String)
    requires
        hour < 24,
        minute < 60,
    ensures
        r@ == clock_text(hour as nat, minute as nat),
{
    let h12: u32 = if hour % 12 == 0 {
        12
    } else {
        hour % 12
    };
    let mut s = two_digit_string(h12);
    s.append(":");
    s.append(two_digit_string(minute).as_str());
    if hour < 12 {
        s.append(" AM");
    } else {
        s.append(" PM");
    }
    s
}

/// The time label of moment `t` in the zone `offset` seconds east of UTC.
pub fn clock_label_at(t: &LocalMoment, offset: i64) -> (r: String)
    requires
        t.wf(),
        -86400 < offset < 86400,
    ensures
        r@ == clock_text_at(*t, offset as int),
{
    let total: i64 = t.hour as i64 * 3600 + t.minute as i64 * 60 + t.second as i64
        - t.utc_offset as i64 + offset;
    let s: i64 = total % 86400;
    let s: i64 = if s < 0 { s + 86400 } else { s };
    assert(s == second_of_day_at(*t, offset as int));
    clock_label((s / 3600) as u32, ((s % 3600) / 60) as u32)
}

} // verus!
