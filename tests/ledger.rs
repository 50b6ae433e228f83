use rustbill::date_utils::BillDate;
use rustbill::db::{
    add_to_db, get_billnr_if_exists, get_new_billnr, resolve_invoice_number, Ledger, LedgerEntry,
};

fn july_2024() -> BillDate {
    BillDate::new(2024, 7, 31).unwrap()
}

fn bill(ledger: &mut Ledger, company: &str, date: &BillDate, amount: i128) -> (String, i32) {
    let (number, sequence) = resolve_invoice_number(ledger, company, date, "2024-07").unwrap();
    add_to_db(ledger, company, date, &number, amount, "x", sequence).unwrap();
    (number, sequence)
}

fn stored(id: i64, year: i32, month: u32, company: &str, sequence: i32) -> LedgerEntry {
    LedgerEntry {
        id,
        year,
        month,
        day: 1,
        company: company.to_string(),
        invoice_number: format!("{year}-{month:02}{sequence:02}"),
        sequence,
        amount: 0,
        amount_display: "0.00".to_string(),
    }
}

#[test]
fn resolving_twice_gives_the_same_number() {
    let mut ledger = Ledger::new();
    let d = july_2024();
    bill(&mut ledger, "Other", &d, 1);
    let first = resolve_invoice_number(&ledger, "Acme", &d, "2024-07").unwrap();
    let second = resolve_invoice_number(&ledger, "Acme", &d, "2024-07").unwrap();
    assert_eq!(first, second);
    assert_eq!(first, ("2024-0702".to_string(), 2));
}

#[test]
fn resolving_after_billing_gives_the_same_number() {
    let mut ledger = Ledger::new();
    let d = july_2024();
    let first = bill(&mut ledger, "Acme", &d, 5);
    let again = resolve_invoice_number(&ledger, "Acme", &d, "other-base").unwrap();
    assert_eq!(first, again);
}

#[test]
fn sequential_allocation_in_call_order() {
    let mut ledger = Ledger::new();
    let d = july_2024();
    assert_eq!(bill(&mut ledger, "Acme", &d, 10).0, "2024-0701");
    assert_eq!(bill(&mut ledger, "Globex", &d, 20).0, "2024-0702");
}

#[test]
fn billing_again_replaces_the_row() {
    let mut ledger = Ledger::new();
    let d = july_2024();
    let (n1, s1) = bill(&mut ledger, "Acme", &d, 100);
    bill(&mut ledger, "Globex", &d, 7);
    let (n2, s2) = bill(&mut ledger, "Acme", &d, 250);
    assert_eq!((n1.clone(), s1), (n2, s2));
    let acme: Vec<&LedgerEntry> = ledger
        .entries()
        .iter()
        .filter(|e| e.company == "Acme" && e.year == 2024 && e.month == 7)
        .collect();
    assert_eq!(acme.len(), 1);
    assert_eq!(acme[0].amount, 250);
    assert_eq!(acme[0].invoice_number, n1);
    assert_eq!(ledger.entries().len(), 2);
}

#[test]
fn add_reports_removed_and_new_ids() {
    let mut ledger = Ledger::new();
    assert!(ledger.restore(stored(4, 2024, 7, "Acme", 1)));
    assert!(ledger.restore(stored(9, 2024, 7, "Globex", 2)));
    assert!(ledger.restore(stored(6, 2024, 7, "Acme", 1)));
    let d = july_2024();
    let (removed, id) = add_to_db(&mut ledger, "Acme", &d, "2024-0701", 3, "0.00", 1).unwrap();
    assert_eq!(removed, vec![4, 6]);
    assert_eq!(id, 10);
    assert_eq!(ledger.next_id(), 11);
    let ids: Vec<i64> = ledger.entries().iter().map(|e| e.id).collect();
    assert_eq!(ids, vec![9, 10]);
}

#[test]
fn restore_refuses_only_the_last_id() {
    let mut ledger = Ledger::new();
    assert!(!ledger.restore(stored(i64::MAX, 2024, 7, "Acme", 1)));
    assert_eq!(ledger.entries().len(), 0);
    assert!(ledger.restore(stored(i64::MAX - 1, 2024, 7, "Acme", 1)));
    assert_eq!(ledger.next_id(), i64::MAX);
    let d = july_2024();
    assert!(add_to_db(&mut ledger, "Globex", &d, "2024-0702", 0, "0.00", 2).is_none());
    assert_eq!(ledger.entries().len(), 1);
}

#[test]
fn existing_number_is_found_first_match() {
    let mut ledger = Ledger::new();
    ledger.restore(stored(1, 2024, 7, "Acme", 3));
    ledger.restore(stored(2, 2024, 7, "Acme", 5));
    let found = get_billnr_if_exists(&ledger, "Acme", &july_2024()).unwrap();
    assert_eq!(found, ("2024-0703".to_string(), 3));
    assert!(get_billnr_if_exists(&ledger, "Globex", &july_2024()).is_none());
}

#[test]
fn new_number_follows_the_period_maximum() {
    let mut ledger = Ledger::new();
    ledger.restore(stored(1, 2024, 7, "A", 3));
    ledger.restore(stored(2, 2024, 7, "B", 11));
    ledger.restore(stored(3, 2024, 8, "C", 40));
    ledger.restore(stored(4, 2023, 7, "D", 50));
    let (n, s) = get_new_billnr(&ledger, &july_2024(), "2024-07").unwrap();
    assert_eq!(s, 12);
    assert_eq!(n, "2024-0712");
}

#[test]
fn same_month_of_another_year_is_another_period() {
    let mut ledger = Ledger::new();
    ledger.restore(stored(1, 2023, 7, "Acme", 4));
    let d = july_2024();
    assert!(get_billnr_if_exists(&ledger, "Acme", &d).is_none());
    assert_eq!(resolve_invoice_number(&ledger, "Acme", &d, "2024-07").unwrap().1, 1);
}

#[test]
fn three_digit_sequence_is_not_cut() {
    let mut ledger = Ledger::new();
    ledger.restore(stored(1, 2024, 7, "A", 99));
    let (n, s) = get_new_billnr(&ledger, &july_2024(), "2024-07").unwrap();
    assert_eq!((n.as_str(), s), ("2024-07100", 100));
}

#[test]
fn exhausted_sequence_gives_none() {
    let mut ledger = Ledger::new();
    ledger.restore(stored(1, 2024, 7, "A", i32::MAX));
    assert!(get_new_billnr(&ledger, &july_2024(), "2024-07").is_none());
    assert!(resolve_invoice_number(&ledger, "B", &july_2024(), "2024-07").is_none());
    assert!(resolve_invoice_number(&ledger, "A", &july_2024(), "2024-07").is_some());
}

#[test]
fn company_names_match_exactly() {
    let mut ledger = Ledger::new();
    let d = july_2024();
    bill(&mut ledger, "O'Brien; DROP", &d, 1);
    assert!(get_billnr_if_exists(&ledger, "O'Brien", &d).is_none());
    assert!(get_billnr_if_exists(&ledger, "O'Brien; DROP", &d).is_some());
}

#[test]
fn restore_refuses_sequences_below_one() {
    let mut ledger = Ledger::new();
    assert!(!ledger.restore(stored(3, 2024, 7, "Acme", 0)));
    assert!(!ledger.restore(stored(3, 2024, 7, "Acme", -5)));
    assert_eq!(ledger.entries().len(), 0);
    assert_eq!(ledger.next_id(), 1);
    assert!(ledger.restore(stored(3, 2024, 7, "Acme", 1)));
    assert_eq!(ledger.next_id(), 4);
    assert!(ledger.restore(stored(2, 2024, 7, "Globex", 2)));
    assert_eq!(ledger.next_id(), 4);
}

#[test]
fn add_refuses_sequences_below_one() {
    let mut ledger = Ledger::new();
    let d = july_2024();
    assert!(add_to_db(&mut ledger, "Acme", &d, "2024-0700", 1, "x", 0).is_none());
    assert_eq!(ledger.entries().len(), 0);
    assert_eq!(ledger.next_id(), 1);
}

#[test]
fn recording_twice_keeps_one_row_with_new_amount() {
    let mut ledger = Ledger::new();
    let d = july_2024();
    let (_, first) = add_to_db(&mut ledger, "Acme", &d, "2024-0701", 238, "238.00", 1).unwrap();
    assert_eq!(ledger.next_id(), first + 1);
    let (removed, second) = add_to_db(&mut ledger, "Acme", &d, "2024-0701", 476, "476.00", 1).unwrap();
    assert_eq!(removed, vec![first]);
    assert_eq!(second, first + 1);
    assert_eq!(ledger.entries().len(), 1);
    let row = &ledger.entries()[0];
    assert_eq!((row.amount, row.amount_display.as_str()), (476, "476.00"));
    assert_eq!((row.invoice_number.as_str(), row.sequence), ("2024-0701", 1));
}
