//! The texts of the line above the list: who uses it, and today's date.

use vstd::prelude::*;
use vstd::string::StringExecFns;

verus! {

/// The label that names the user.
pub open spec fn user_label_text(name: Seq<char>) -> Seq<char> {
    "User: "@ + name
}

/// The decimal digit for `n`, a number from 0 to 9.
pub open spec fn digit(n: int) -> char {
    "0123456789"@[n]
}

/// `n`, a number below 100, in two digits.
pub open spec fn two_digits(n: int) -> Seq<char> {
    seq![digit(n / 10), digit(n % 10)]
}

/// `n` in as many digits as it takes.
pub open spec fn decimal(n: nat) -> Seq<char>
    decreases n,
{
    if n < 10 {
        seq![digit(n as int)]
    } else {
        decimal(n / 10).push(digit((n % 10) as int))
    }
}

/// `n` in four digits, or in more where it takes more.
pub open spec fn four_digits(n: nat) -> Seq<char> {
    if n < 10000 {
        two_digits(n as int / 100) + two_digits(n as int % 100)
    } else {
        decimal(n)
    }
}

/// A year as a date shows it: in four digits from 0 to 9999, and with its
/// sign before the digits outside of that.
pub open spec fn year_text(year: int) -> Seq<char> {
    if year < 0 {
        seq!['-'] + four_digits((-year) as nat)
    } else if year < 10000 {
        four_digits(year as nat)
    } else {
        seq!['+'] + decimal(year as nat)
    }
}

/// Whether a year has a 29th of February, by the Gregorian rule applied to
/// every year.
pub open spec fn leap_year(year: int) -> bool {
    year % 4 == 0 && (year % 100 != 0 || year % 400 == 0)
}

/// The number of days of a month.
pub open spec fn days_in_month(year: int, month: int) -> int {
    if month == 2 {
        if leap_year(year) {
            29
        } else {
            28
        }
    } else if month == 4 || month == 6 || month == 9 || month == 11 {
        30
    } else {
        31
    }
}

/// Whether the calendar has this day, within the years that a date can hold.
pub open spec fn is_date(year: int, month: int, day: int) -> bool {
    &&& -262143 <= year <= 262142
    &&& 1 <= month <= 12
    &&& 1 <= day <= days_in_month(year, month)
}

/// A date as the header shows it: day, month and year, with `/` between.
pub open spec fn date_text(year: int, month: int, day: int) -> Seq<char> {
    two_digits(day) + seq!['/'] + two_digits(month) + seq!['/'] + year_text(year)
}

/// The name of the user who runs the program, from `whoami::username`. It
/// depends on the machine and on who is logged in, so nothing is stated of
/// it.
#[verifier::external_body]
fn current_username() -> String {
    whoami::username()
}

/// Formats a calendar day with chrono: `NaiveDate::from_ymd_opt` makes the
/// date, and `NaiveDate::format` prints it by the pattern `%d/%m/%Y`.
///
/// Believed of chrono, not proved: a date comes back exactly where the
/// calendar has the day and the year lies within chrono's range; `%d` and
/// `%m` print two digits; `%Y` prints four digits for the years 0 to 9999,
/// and otherwise a sign and at least four digits.
#[verifier::external_body]
fn format_date(year: i32, month: u32, day: u32) -> (text: Option<String>)
    ensures
        text is Some <==> is_date(year as int, month as int, day as int),
        text matches Some(t) ==> t@ == date_text(year as int, month as int, day as int),
{
    match chrono::NaiveDate::from_ymd_opt(year, month, day) {
        Some(date) => Some(date.format("%d/%m/%Y").to_string()),
        None => None,
    }
}

/// The label that names `name` as the user.
pub fn user_label(name: &str) -> (label: String)
    ensures
        label@ == user_label_text(name@),
{
    let mut label = String::from_str("User: ");
    label.append(name);
    label
}

/// The label that names the user who runs the program.
pub fn current_user_label() -> (label: String)
    ensures
        exists|name: Seq<char>| label@ == #[trigger] user_label_text(name),
{
    let name = current_username();
    let label = user_label(name.as_str());
    assert(label@ == user_label_text(name@));
    label
}

/// The text of a calendar day for the header, or nothing where the calendar
/// has no such day.
pub fn date_label(year: i32, month: u32, day: u32) -> (label: Option<String>)
    ensures
        label is Some <==> is_date(year as int, month as int, day as int),
        label matches Some(t) ==> t@ == date_text(year as int, month as int, day as int),
{
    format_date(year, month, day)
}

} // verus!
