use rustbill::config_reader::BankConfig;
use rustbill::date_utils::BillDate;
use rustbill::qrcode::{create_qrcode, payment_payload};

fn bank() -> BankConfig {
    BankConfig {
        bic: "BELADEBEXXX".to_string(),
        iban: "DE02100500000024290661".to_string(),
        name: "Erika Mustermann".to_string(),
    }
}

#[test]
fn payload_has_the_fixed_fields_in_order() {
    let date = BillDate::new(2024, 7, 31).unwrap();
    let p = payment_payload(&bank(), "238.00", &date, "2024-0701");
    assert_eq!(
        p,
        "BCD\n001\n2\nSCT\nBELADEBEXXX\nErika Mustermann\nDE02100500000024290661\nEUR238.00\nSCVE\n\nRE 2024-0701 vom 31.07.2024\n"
    );
    assert_eq!(p.lines().count(), 11);
    assert!(p.ends_with('\n'));
}

#[test]
fn payload_pads_day_and_month() {
    let date = BillDate::new(2025, 1, 2).unwrap();
    let p = payment_payload(&bank(), "1.19", &date, "2025-0103");
    assert!(p.ends_with("RE 2025-0103 vom 02.01.2025\n"));
}

#[test]
fn qr_code_is_drawn_as_svg_in_the_colour() {
    let date = BillDate::new(2024, 7, 31).unwrap();
    let svg = create_qrcode(&bank(), "238.00", &date, "2024-0701", "#123456").ok().unwrap();
    assert!(svg.contains("<svg"));
    assert!(svg.contains("#123456"));
    assert!(!svg.contains("BELADEBEXXX"));
}

#[test]
fn qr_code_of_same_input_is_the_same() {
    let date = BillDate::new(2024, 7, 31).unwrap();
    let a = create_qrcode(&bank(), "238.00", &date, "2024-0701", "#000").ok().unwrap();
    let b = create_qrcode(&bank(), "238.00", &date, "2024-0701", "#000").ok().unwrap();
    let c = create_qrcode(&bank(), "238.01", &date, "2024-0701", "#000").ok().unwrap();
    assert_eq!(a, b);
    assert_ne!(a, c);
}

#[test]
fn oversized_payload_is_refused() {
    let date = BillDate::new(2024, 7, 31).unwrap();
    let long = "x".repeat(5000);
    assert!(create_qrcode(&bank(), "1.00", &date, &long, "#000").is_err());
}
