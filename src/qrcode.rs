//! The payment code of an invoice: a bank-transfer payload of fixed fields,
//! encoded as a QR code and drawn as SVG.
use vstd::prelude::*;

use crate::config_reader::BankConfig;
use crate::date_utils::{dmy_text, BillDate};

verus! {

#[verifier::external_type_specification]
#[verifier::external_body]
pub struct ExQrError(::qrcode::types::QrError);

#[derive(Debug)]
pub enum QRGenErrors {
    QrError(::qrcode::types::QrError),
}

/// The payment payload: eleven newline-terminated lines, namely the service
/// tag `BCD`, version `001`, character set `2` (ISO 8859-1), identification
/// `SCT`, the BIC, the beneficiary's name, the IBAN, the amount after `EUR`,
/// the purpose code `SCVE`, an empty structured reference, and the text
/// `RE <invoice number> vom <dd.mm.yyyy>`.
pub open spec fn payment_payload_text(
    bic: Seq<char>,
    name: Seq<char>,
    iban: Seq<char>,
    amount_total: Seq<char>,
    billdate: BillDate,
    billnr: Seq<char>,
) -> Seq<char> {
    "BCD\n001\n2\nSCT\n"@ + bic + "\n"@ + name + "\n"@ + iban + "\nEUR"@ + amount_total
        + "\nSCVE\n\nRE "@ + billnr + " vom "@ + dmy_text(
        billdate.year as int,
        billdate.month as int,
        billdate.day as int,
    ) + "\n"@
}

/// The payment payload of an invoice over `amount_total` (euro text) with
/// number `billnr`, dated `billdate`, to the account in `bank_config`.
pub fn payment_payload(bank_config: &BankConfig, amount_total: &str, billdate: &BillDate, billnr: &str) -> (r:
    String)
    ensures
        r@ == payment_payload_text(
            bank_config.bic@,
            bank_config.name@,
            bank_config.iban@,
            amount_total@,
            *billdate,
            billnr@,
        ),
{
    let date = billdate.format_dmy();
    let mut s = String::new();
    s.append("BCD\n001\n2\nSCT\n");
    s.append(bank_config.bic.as_str());
    s.append("\n");
    s.append(bank_config.name.as_str());
    s.append("\n");
    s.append(bank_config.iban.as_str());
    s.append("\nEUR");
    s.append(amount_total);
    s.append("\nSCVE\n\nRE ");
    s.append(billnr);
    s.append(" vom ");
    s.append(date.as_str());
    s.append("\n");
    assert(s@ =~= payment_payload_text(
        bank_config.bic@,
        bank_config.name@,
        bank_config.iban@,
        amount_total@,
        *billdate,
        billnr@,
    ));
    s
}

/// What qrcode gives for a text and a dark colour: the SVG drawing of the QR
/// code of the text's UTF-8 bytes, or nothing where they do not fit a QR code.
pub uninterp spec fn qr_svg_of(payload: Seq<char>, dark_color: Seq<char>) -> Option<Seq<char>>;

/// Relies on qrcode's `QrCode::new` (error correction level M, the smallest
/// version that holds the data) and its SVG renderer with the given dark
/// colour: the drawing of the payload's bytes, or the encoder's error.
#[verifier::external_body]
fn render_qr_svg(payload: &str, dark_color: &str) -> (r: Result<String, ::qrcode::types::QrError>)
    ensures
        r matches Ok(svg) ==> qr_svg_of(payload@, dark_color@) == Some(svg@),
        r is Err ==> qr_svg_of(payload@, dark_color@) is None,
{
    match ::qrcode::QrCode::new(payload.as_bytes()) {
        Ok(code) => Ok(
            code.render::<::qrcode::render::svg::Color>().dark_color(
                ::qrcode::render::svg::Color(dark_color),
            ).build(),
        ),
        Err(e) => Err(e),
    }
}

/// The payment code of an invoice as SVG, its dark modules in `color`.
pub fn create_qrcode(
    bank_config: &BankConfig,
    amount_total: &str,
    billdate: &BillDate,
    billnr: &str,
    color: &str,
) -> (r: Result<String, QRGenErrors>)
    ensures
        ({
            let payload = payment_payload_text(
                bank_config.bic@,
                bank_config.name@,
                bank_config.iban@,
                amount_total@,
                *billdate,
                billnr@,
            );
            &&& r matches Ok(svg) ==> qr_svg_of(payload, color@) == Some(svg@)
            &&& r is Err ==> qr_svg_of(payload, color@) is None
        }),
{
    let payload = payment_payload(bank_config, amount_total, billdate, billnr);
    match render_qr_svg(payload.as_str(), color) {
        Ok(svg) => Ok(svg),
        Err(e) => Err(QRGenErrors::QrError(e)),
    }
}

} // verus!
