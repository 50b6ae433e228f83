use rustbill::csv_reader::{complete_record, csv_file_name, extract_minutes_total, Record};

fn row(date: &str, minutes: i32) -> Record {
    Record {
        date: date.to_string(),
        minutes,
        description: "work".to_string(),
        year: None,
        month: None,
        day: None,
    }
}

#[test]
fn sums_minutes() {
    let rows = vec![row("01.07.2024", 30), row("02.07.2024", 45), row("03.07.2024", 0)];
    assert_eq!(extract_minutes_total(&rows), Some(75));
}

#[test]
fn empty_log_has_zero_minutes() {
    assert_eq!(extract_minutes_total(&Vec::new()), Some(0));
}

#[test]
fn sum_out_of_range_is_none() {
    let rows = vec![row("01.07.2024", i32::MAX), row("02.07.2024", 1)];
    assert_eq!(extract_minutes_total(&rows), None);
    let back = vec![row("01.07.2024", i32::MAX), row("02.07.2024", 1), row("03.07.2024", -5)];
    assert_eq!(extract_minutes_total(&back), Some(i32::MAX - 4));
}

#[test]
fn completes_date_parts() {
    let mut r = row("15.07.2024", 10);
    assert!(complete_record(&mut r).is_ok());
    assert_eq!((r.year, r.month, r.day), (Some(2024), Some(7), Some(15)));
}

#[test]
fn bad_date_leaves_record() {
    let mut r = row("2024/07/15", 10);
    assert!(complete_record(&mut r).is_err());
    assert_eq!((r.year, r.month, r.day), (None, None, None));
}

#[test]
fn csv_suffix_is_added_once() {
    assert_eq!(csv_file_name("Acme"), "Acme.csv");
    assert_eq!(csv_file_name("Acme.csv"), "Acme.csv");
    assert_eq!(csv_file_name(".csv"), ".csv");
    assert_eq!(csv_file_name("csv"), "csv.csv");
    assert_eq!(csv_file_name("Müller"), "Müller.csv");
}
