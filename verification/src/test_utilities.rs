use vstd::prelude::*;
use chrono::{Datelike, Timelike};

verus! {

/// The character of the decimal digit `d` (0 to 9).
pub open spec fn digit_char(d: int) -> char {
    (48 + d) as char
}

/// The decimal digits of `n`, most significant first, without leading
/// zeros (0 is "0").
pub open spec fn decimal(n: nat) -> Seq<char>
    decreases n,
{
    if n < 10 {
        seq![digit_char(n as int)]
    } else {
        decimal(n / 10).push(digit_char((n % 10) as int))
    }
}

/// `n` in decimal, with a minus sign when negative.
pub open spec fn signed_decimal(n: int) -> Seq<char> {
    if n < 0 {
        seq!['-'] + decimal((-n) as nat)
    } else {
        decimal(n as nat)
    }
}

/// The folder name for a moment: `argument` followed by
/// `Year<y>Month<mo>Day<d>Hour<h>Min<mi>Sec<s>`.
pub open spec fn datetime_folder(
    argument: Seq<char>,
    year: int,
    month: nat,
    day: nat,
    hour: nat,
    minute: nat,
    second: nat,
) -> Seq<char> {
    argument + "Year"@ + signed_decimal(year) + "Month"@ + decimal(month) + "Day"@ + decimal(day)
        + "Hour"@ + decimal(hour) + "Min"@ + decimal(minute) + "Sec"@ + decimal(second)
}

/// The current date and time in UTC as year, month, day, hour, minute and
/// second.
///
/// Calls `chrono::Utc::now()` and reads the fields through `Datelike` and
/// `Timelike`; the contract claims only the ranges that chrono documents
/// for each field (the moment itself depends on the clock).
#[verifier::external_body]
fn utc_now_fields() -> (t: (i32, u32, u32, u32, u32, u32))
    ensures
        1 <= t.1 <= 12,
        1 <= t.2 <= 31,
        t.3 <= 23,
        t.4 <= 59,
        t.5 <= 59,
{
    let now = chrono::Utc::now();
    (now.year(), now.month(), now.day(), now.hour(), now.minute(), now.second())
}

/// `n` in decimal.
///
/// Calls `ToString::to_string` on the `u32`; the contract claims the
/// standard decimal rendering.
#[verifier::external_body]
fn unsigned_text(n: u32) -> (s: String)
    ensures
        s@ == decimal(n as nat),
{
    n.to_string()
}

/// `n` in decimal, with a minus sign when negative.
///
/// Calls `ToString::to_string` on the `i32`; the contract claims the
/// standard decimal rendering.
#[verifier::external_body]
fn signed_text(n: i32) -> (s: String)
    ensures
        s@ == signed_decimal(n as int),
{
    n.to_string()
}

/// The folder name for the given moment, after `argument`.
pub fn datetime_folder_name(
    argument: String,
    year: i32,
    month: u32,
    day: u32,
    hour: u32,
    minute: u32,
    second: u32,
) -> (s: String)
    ensures
        s@ == datetime_folder(
            argument@,
            year as int,
            month as nat,
            day as nat,
            hour as nat,
            minute as nat,
            second as nat,
        ),
{
    let y = signed_text(year);
    let mo = unsigned_text(month);
    let d = unsigned_text(day);
    let h = unsigned_text(hour);
    let mi = unsigned_text(minute);
    let se = unsigned_text(second);
    let s = argument.concat("Year").concat(y.as_str()).concat("Month").concat(mo.as_str()).concat(
        "Day",
    ).concat(d.as_str()).concat("Hour").concat(h.as_str()).concat("Min").concat(mi.as_str()).concat(
        "Sec",
    ).concat(se.as_str());
    s
}

/// `argument` followed by the current UTC date and time, as
/// `Year<y>Month<mo>Day<d>Hour<h>Min<mi>Sec<s>`.
pub fn build_datetime_folder(argument: String) -> (s: String)
    ensures
        exists|year: int, month: nat, day: nat, hour: nat, minute: nat, second: nat|
            #![trigger datetime_folder(argument@, year, month, day, hour, minute, second)]
            1 <= month <= 12 && 1 <= day <= 31 && hour <= 23 && minute <= 59 && second <= 59
                && s@ == datetime_folder(argument@, year, month, day, hour, minute, second),
{
    let now = utc_now_fields();
    let s = datetime_folder_name(argument, now.0, now.1, now.2, now.3, now.4, now.5);
    assert(s@ == datetime_folder(
        argument@,
        now.0 as int,
        now.1 as nat,
        now.2 as nat,
        now.3 as nat,
        now.4 as nat,
        now.5 as nat,
    ));
    s
}

} // verus!
