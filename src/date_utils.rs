//! Calendar dates of invoices: validity, text forms, the default billing
//! date and the due date.
use vstd::prelude::*;

use chrono::Datelike;
use bdays::HolidayCalendar;
use crate::text::{int_padded_text, magnitude, padded_text, push_int_padded_text, push_padded_text};

verus! {

#[derive(Debug)]
pub enum DateError {
    CalculationError,
}

/// The first year of the calendar's range (that of chrono's `NaiveDate`).
pub const MIN_YEAR: i32 = -262143;

/// The last year of the calendar's range (that of chrono's `NaiveDate`).
pub const MAX_YEAR: i32 = 262142;

/// A day of the proleptic Gregorian calendar, within years `MIN_YEAR` to
/// `MAX_YEAR`.
#[derive(Clone, Copy, Debug, PartialEq, Eq, Structural)]
pub struct BillDate {
    pub year: i32,
    pub month: u32,
    pub day: u32,
}

pub open spec fn is_leap_year(year: int) -> bool {
    (year % 4 == 0 && year % 100 != 0) || year % 400 == 0
}

pub open spec fn days_in_month(year: int, month: int) -> int {
    if month == 2 {
        if is_leap_year(year) {
            29
        } else {
            28
        }
    } else if month == 4 || month == 6 || month == 9 || month == 11 {
        30
    } else {
        31
    }
}

pub open spec fn valid_date(year: int, month: int, day: int) -> bool {
    &&& MIN_YEAR <= year <= MAX_YEAR
    &&& 1 <= month <= 12
    &&& 1 <= day <= days_in_month(year, month)
}

/// A year as strftime's `%Y` writes it: four digits from 0 to 9999, and
/// otherwise a sign followed by at least four digits.
pub open spec fn year_text(year: int) -> Seq<char> {
    if 0 <= year <= 9999 {
        padded_text(year as nat, 4)
    } else if year > 9999 {
        seq!['+'] + padded_text(year as nat, 4)
    } else {
        seq!['-'] + padded_text((-year) as nat, 4)
    }
}

/// Day, month and year as `%d.%m.%Y`.
pub open spec fn dmy_text(year: int, month: int, day: int) -> Seq<char> {
    padded_text(day as nat, 2) + seq!['.'] + padded_text(month as nat, 2) + seq!['.'] + year_text(
        year,
    )
}

fn push_year_text(s: &mut String, year: i32)
    ensures
        final(s)@ == old(s)@ + year_text(year as int),
{
    let ghost start = s@;
    if 0 <= year && year <= 9999 {
        push_padded_text(s, year as u128, 4);
    } else {
        if year > 9999 {
            proof {
                reveal_strlit("+");
            }
            s.append("+");
        } else {
            proof {
                reveal_strlit("-");
            }
            s.append("-");
        }
        push_padded_text(s, magnitude(year as i128), 4);
        assert(s@ =~= start + year_text(year as int));
    }
}

/// Year and month as `yyyy-mm`, the year unpadded.
pub open spec fn period_text(year: int, month: int) -> Seq<char> {
    int_padded_text(year, 0) + seq!['-'] + padded_text(month as nat, 2)
}

fn month_length(year: i32, month: u32) -> (r: u32)
    requires
        1 <= month <= 12,
    ensures
        r as int == days_in_month(year as int, month as int),
{
    if month == 2 {
        if (year % 4 == 0 && year % 100 != 0) || year % 400 == 0 {
            29
        } else {
            28
        }
    } else if month == 4 || month == 6 || month == 9 || month == 11 {
        30
    } else {
        31
    }
}

impl BillDate {
    pub open spec fn valid(&self) -> bool {
        valid_date(self.year as int, self.month as int, self.day as int)
    }

    /// The date of `year`, `month` and `day`, if it is a valid date.
    pub fn new(year: i32, month: u32, day: u32) -> (r: Option<BillDate>)
        ensures
            r is Some <==> valid_date(year as int, month as int, day as int),
            r matches Some(d) ==> d == (BillDate { year, month, day }),
    {
        if MIN_YEAR <= year && year <= MAX_YEAR && 1 <= month && month <= 12 && 1 <= day && day <= month_length(
            year,
            month,
        ) {
            Some(BillDate { year, month, day })
        } else {
            None
        }
    }

    /// The date as `%d.%m.%Y`: `31.07.2024`, `01.01.+10000`.
    pub fn format_dmy(&self) -> (r: String)
        ensures
            r@ == dmy_text(self.year as int, self.month as int, self.day as int),
    {
        let mut s = String::new();
        push_padded_text(&mut s, self.day as u128, 2);
        proof {
            reveal_strlit(".");
        }
        s.append(".");
        push_padded_text(&mut s, self.month as u128, 2);
        s.append(".");
        push_year_text(&mut s, self.year);
        assert(s@ =~= dmy_text(self.year as int, self.month as int, self.day as int));
        s
    }

    /// The billing period's label, `yyyy-mm`: the base of invoice numbers.
    pub fn period_label(&self) -> (r: String)
        ensures
            r@ == period_text(self.year as int, self.month as int),
    {
        let mut s = String::new();
        push_int_padded_text(&mut s, self.year as i128, 0);
        proof {
            reveal_strlit("-");
        }
        s.append("-");
        push_padded_text(&mut s, self.month as u128, 2);
        assert(s@ =~= period_text(self.year as int, self.month as int));
        s
    }
}

/// The first day of the month after `month` of `year`.
pub fn get_first_of_next_month(year: i32, month: u32) -> (r: Result<BillDate, DateError>)
    ensures
        month <= 11 && MIN_YEAR <= year <= MAX_YEAR ==> r == Ok::<BillDate, DateError>(
            BillDate { year, month: (month + 1) as u32, day: 1 },
        ),
        month == 12 && MIN_YEAR - 1 <= year <= MAX_YEAR - 1 ==> r == Ok::<BillDate, DateError>(
            BillDate { year: (year + 1) as i32, month: 1, day: 1 },
        ),
        r is Ok <==> (month <= 11 && MIN_YEAR <= year <= MAX_YEAR) || (month == 12 && MIN_YEAR - 1
            <= year <= MAX_YEAR - 1),
{
    if month == 12 {
        if year == i32::MAX {
            return Err(DateError::CalculationError);
        }
        match BillDate::new(year + 1, 1, 1) {
            Some(d) => Ok(d),
            None => Err(DateError::CalculationError),
        }
    } else {
        if month == u32::MAX {
            return Err(DateError::CalculationError);
        }
        match BillDate::new(year, month + 1, 1) {
            Some(d) => Ok(d),
            None => Err(DateError::CalculationError),
        }
    }
}

/// The last day of `month` of `year`: the day before the first of the next
/// month.
pub fn last_day_of_month(year: i32, month: u32) -> (r: Result<BillDate, DateError>)
    ensures
        r is Ok <==> 1 <= month <= 12 && MIN_YEAR <= year <= MAX_YEAR && !(year == MAX_YEAR && month
            == 12),
        r matches Ok(d) ==> d == (BillDate {
            year,
            month,
            day: days_in_month(year as int, month as int) as u32,
        }),
        r matches Ok(d) ==> d.valid(),
{
    if month < 1 || month > 12 {
        return Err(DateError::CalculationError);
    }
    let first = get_first_of_next_month(year, month)?;
    let (y, m) = if first.month == 1 {
        (first.year - 1, 12)
    } else {
        (first.year, first.month - 1)
    };
    match BillDate::new(y, m, month_length(y, m)) {
        Some(d) => Ok(d),
        None => Err(DateError::CalculationError),
    }
}

/// What chrono's `NaiveDate::parse_from_str(s, fmt)` gives: year, month and
/// day, or nothing where `s` does not match `fmt`.
pub uninterp spec fn parsed_date_of(s: Seq<char>, fmt: Seq<char>) -> Option<(int, int, int)>;

/// Relies on chrono's `NaiveDate::parse_from_str`: parses `s` as a date in
/// the strftime format `fmt`; a `NaiveDate` is always a valid date of its
/// range.
#[verifier::external_body]
pub(crate) fn parse_date(s: &str, fmt: &str) -> (r: Option<(i32, u32, u32)>)
    ensures
        r is None ==> parsed_date_of(s@, fmt@) is None,
        r matches Some(t) ==> valid_date(t.0 as int, t.1 as int, t.2 as int),
        r matches Some(t) ==> parsed_date_of(s@, fmt@) == Some((t.0 as int, t.1 as int, t.2 as int)),
{
    match chrono::NaiveDate::parse_from_str(s, fmt) {
        Ok(d) => Some((d.year(), d.month(), d.day())),
        Err(_) => None,
    }
}

/// Relies on chrono's `Local::now`: today's local date, a valid date of
/// `NaiveDate`'s range.
#[verifier::external_body]
fn today() -> (r: (i32, u32, u32))
    ensures
        valid_date(r.0 as int, r.1 as int, r.2 as int),
{
    let now = chrono::Local::now().naive_local();
    (now.year(), now.month(), now.day())
}

/// The billing date: the parsed date where there is one, else the last day
/// of today's month.
pub fn date_or_default(parsed: Option<(i32, u32, u32)>, today: (i32, u32, u32)) -> (r: Result<
    BillDate,
    DateError,
>)
    ensures
        parsed matches Some(t) ==> (r is Ok <==> valid_date(t.0 as int, t.1 as int, t.2 as int)) && (
        r matches Ok(d) ==> d == (BillDate { year: t.0, month: t.1, day: t.2 })),
        parsed is None ==> (r is Ok <==> 1 <= today.1 <= 12 && MIN_YEAR <= today.0 <= MAX_YEAR && !(
        today.0 == MAX_YEAR && today.1 == 12)),
        parsed is None ==> (r matches Ok(d) ==> d == (BillDate {
            year: today.0,
            month: today.1,
            day: days_in_month(today.0 as int, today.1 as int) as u32,
        })),
{
    match parsed {
        Some((year, month, day)) => match BillDate::new(year, month, day) {
            Some(d) => Ok(d),
            None => Err(DateError::CalculationError),
        },
        None => last_day_of_month(today.0, today.1),
    }
}

/// Reads `datestr` as `yyyy-mm-dd`; without such a date, the last day of
/// the current month.
pub fn parse_date_or_default(datestr: &str) -> (r: Result<BillDate, DateError>)
    ensures
        parsed_date_of(datestr@, "%Y-%m-%d"@) matches Some(t) ==> (r matches Ok(d) && d.year == t.0
            && d.month == t.1 && d.day == t.2),
        parsed_date_of(datestr@, "%Y-%m-%d"@) is None ==> (r matches Ok(d) ==> d.valid() && d.day
            == days_in_month(d.year as int, d.month as int)),
{
    let parsed = parse_date(datestr, "%Y-%m-%d");
    date_or_default(parsed, today())
}

/// What bdays gives for the date nine Berlin business days after a date
/// (after first moving a non-business day to the next business day).
pub uninterp spec fn berlin_due_date_of(year: int, month: int, day: int) -> (int, int, int);

/// Relies on bdays' `HolidayCalendar::advance_bdays` for
/// `GermanState::BE`: advances a date by nine business days. Past the last
/// day of a year it steps into the next one by an `unwrap`, so the date's
/// year must not be the last of the range.
#[verifier::external_body]
fn advance_nine_berlin_bdays(date: &BillDate) -> (r: (i32, u32, u32))
    requires
        date.valid(),
        date.year < MAX_YEAR,
    ensures
        (r.0 as int, r.1 as int, r.2 as int) == berlin_due_date_of(
            date.year as int,
            date.month as int,
            date.day as int,
        ),
{
    let start = chrono::NaiveDate::from_ymd_opt(date.year, date.month, date.day).unwrap();
    let due = bdays::calendars::de::GermanState::BE.advance_bdays(start, 9);
    (due.year(), due.month(), due.day())
}

/// The due date of an invoice of `date`: nine Berlin business days after it
/// (after the next business day, where `date` is none). Refused in the last
/// year of the range, where the count could run past its end.
pub fn calculate_due_date(date: BillDate) -> (r: Result<BillDate, DateError>)
    requires
        date.valid(),
    ensures
        ({
            let t = berlin_due_date_of(date.year as int, date.month as int, date.day as int);
            &&& r is Ok <==> date.year < MAX_YEAR && valid_date(t.0, t.1, t.2)
            &&& r matches Ok(d) ==> d.year == t.0 && d.month == t.1 && d.day == t.2
        }),
{
    if date.year >= MAX_YEAR {
        return Err(DateError::CalculationError);
    }
    let (year, month, day) = advance_nine_berlin_bdays(&date);
    match BillDate::new(year, month, day) {
        Some(d) => Ok(d),
        None => Err(DateError::CalculationError),
    }
}

} // verus!
