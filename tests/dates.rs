use rustbill::csv_reader::get_ymd;
use rustbill::date_utils::{
    calculate_due_date, date_or_default, get_first_of_next_month, last_day_of_month,
    parse_date_or_default, BillDate, DateError, MAX_YEAR, MIN_YEAR,
};

#[test]
fn validates_dates() {
    assert!(BillDate::new(2024, 2, 29).is_some());
    assert!(BillDate::new(2023, 2, 29).is_none());
    assert!(BillDate::new(1900, 2, 29).is_none());
    assert!(BillDate::new(2000, 2, 29).is_some());
    assert!(BillDate::new(2024, 4, 31).is_none());
    assert!(BillDate::new(2024, 13, 1).is_none());
    assert!(BillDate::new(2024, 0, 1).is_none());
    assert!(BillDate::new(10000, 1, 1).is_some());
    assert!(BillDate::new(MAX_YEAR, 12, 31).is_some());
    assert!(BillDate::new(MAX_YEAR + 1, 1, 1).is_none());
    assert!(BillDate::new(MIN_YEAR, 1, 1).is_some());
    assert!(BillDate::new(MIN_YEAR - 1, 12, 31).is_none());
    assert!(BillDate::new(-4, 2, 29).is_some());
    assert!(BillDate::new(-100, 2, 29).is_none());
}

#[test]
fn formats_day_month_year() {
    assert_eq!(BillDate::new(2024, 7, 5).unwrap().format_dmy(), "05.07.2024");
    assert_eq!(BillDate::new(987, 12, 31).unwrap().format_dmy(), "31.12.0987");
    assert_eq!(BillDate::new(10000, 1, 1).unwrap().format_dmy(), "01.01.+10000");
    assert_eq!(BillDate::new(-5, 3, 1).unwrap().format_dmy(), "01.03.-0005");
    assert_eq!(BillDate::new(0, 3, 1).unwrap().format_dmy(), "01.03.0000");
}

#[test]
fn labels_the_period() {
    assert_eq!(BillDate::new(2024, 7, 31).unwrap().period_label(), "2024-07");
    assert_eq!(BillDate::new(2024, 11, 1).unwrap().period_label(), "2024-11");
}

#[test]
fn first_of_next_month() {
    let d = get_first_of_next_month(2024, 7).ok().unwrap();
    assert_eq!(d, BillDate { year: 2024, month: 8, day: 1 });
    let d = get_first_of_next_month(2024, 12).ok().unwrap();
    assert_eq!(d, BillDate { year: 2025, month: 1, day: 1 });
    assert!(matches!(get_first_of_next_month(2024, 13), Err(DateError::CalculationError)));
    let d = get_first_of_next_month(9999, 12).ok().unwrap();
    assert_eq!(d, BillDate { year: 10000, month: 1, day: 1 });
    let d = get_first_of_next_month(10000, 1).ok().unwrap();
    assert_eq!(d, BillDate { year: 10000, month: 2, day: 1 });
    assert!(get_first_of_next_month(MAX_YEAR, 12).is_err());
    assert!(get_first_of_next_month(MAX_YEAR, 11).is_ok());
}

#[test]
fn last_day_of_months() {
    assert_eq!(last_day_of_month(2024, 2).ok().unwrap().day, 29);
    assert_eq!(last_day_of_month(2023, 2).ok().unwrap().day, 28);
    assert_eq!(last_day_of_month(2024, 12).ok().unwrap(), BillDate { year: 2024, month: 12, day: 31 });
    assert_eq!(last_day_of_month(2024, 9).ok().unwrap().day, 30);
    assert!(last_day_of_month(2024, 0).is_err());
}

#[test]
fn given_date_wins_over_default() {
    let d = date_or_default(Some((2024, 7, 15)), (2030, 1, 2)).ok().unwrap();
    assert_eq!(d, BillDate { year: 2024, month: 7, day: 15 });
    let d = date_or_default(None, (2024, 2, 10)).ok().unwrap();
    assert_eq!(d, BillDate { year: 2024, month: 2, day: 29 });
    assert!(date_or_default(Some((2024, 2, 30)), (2024, 2, 10)).is_err());
}

#[test]
fn parses_iso_date() {
    let d = parse_date_or_default("2024-07-15").ok().unwrap();
    assert_eq!(d, BillDate { year: 2024, month: 7, day: 15 });
}

#[test]
fn empty_date_gives_a_last_day_of_month() {
    let d = parse_date_or_default("").ok().unwrap();
    assert!(get_first_of_next_month(d.year, d.month).is_ok());
    assert!(BillDate::new(d.year, d.month, d.day + 1).is_none());
}

#[test]
fn due_date_is_nine_berlin_business_days_on() {
    let d = calculate_due_date(BillDate::new(2024, 7, 31).unwrap()).ok().unwrap();
    assert_eq!(d, BillDate { year: 2024, month: 8, day: 13 });
}

#[test]
fn due_date_skips_berlin_holidays() {
    // 2024-12-20 is a Friday; 25 and 26 December are holidays.
    let d = calculate_due_date(BillDate::new(2024, 12, 20).unwrap()).ok().unwrap();
    assert_eq!(d, BillDate { year: 2025, month: 1, day: 7 });
}

#[test]
fn reads_day_month_year() {
    assert_eq!(get_ymd("15.07.2024").ok().unwrap(), (2024, 7, 15));
    assert!(get_ymd("2024-07-15").is_err());
}

#[test]
fn parses_signed_years() {
    let d = parse_date_or_default("+10000-01-01").ok().unwrap();
    assert_eq!(d, BillDate { year: 10000, month: 1, day: 1 });
    let d = parse_date_or_default("-0005-03-01").ok().unwrap();
    assert_eq!(d, BillDate { year: -5, month: 3, day: 1 });
}

#[test]
fn due_date_refused_in_the_last_year() {
    assert!(calculate_due_date(BillDate::new(MAX_YEAR, 1, 5).unwrap()).is_err());
    assert!(calculate_due_date(BillDate::new(MAX_YEAR - 1, 12, 31).unwrap()).is_ok());
}

#[test]
fn last_day_of_the_range() {
    assert!(last_day_of_month(MAX_YEAR, 12).is_err());
    assert_eq!(last_day_of_month(MAX_YEAR, 11).ok().unwrap().day, 30);
    assert_eq!(last_day_of_month(MIN_YEAR, 1).ok().unwrap().day, 31);
}
