//! Configuration values: bank details, the issuer, mail settings and the
//! per-company settings.
use vstd::prelude::*;

verus! {

#[verifier::external_type_specification]
#[verifier::external_body]
pub struct ExYamlError(serde_yaml::Error);

#[verifier::external_type_specification]
#[verifier::external_body]
pub struct ExIoError(std::io::Error);

#[derive(Debug)]
pub enum ExtractError {
    YamlParseError(serde_yaml::Error),
    MissingData,
    Error(std::io::Error),
}

#[derive(Debug)]
pub struct BankConfig {
    pub bic: String,
    pub iban: String,
    pub name: String,
}

#[derive(Debug)]
pub struct CompanyAddress {
    pub name: String,
    pub city: String,
    pub postcode: String,
    pub addressline: String,
}

/// Settings for one billed company; `hourly_fee` is in cents.
#[derive(Debug)]
pub struct CompanyConfig {
    pub email: String,
    pub subject: String,
    pub greeting_to: String,
    pub greeting_from: String,
    pub hourly_fee: i64,
    pub address: CompanyAddress,
}

#[derive(Debug)]
pub struct BillConfig {
    pub company: String,
    pub name: String,
    pub street: String,
    pub city: String,
    pub country: String,
    pub postcode: String,
    pub email: String,
    pub telephone: String,
    pub bill_item: String,
    pub bill_item_description: String,
    pub vat_id: String,
    pub tax_id: String,
    pub color: String,
}

#[derive(Debug)]
pub struct MailConfig {
    pub email: String,
    pub imap_server: String,
    pub imap_port: u16,
    pub email_text: String,
}

#[derive(Debug)]
pub struct Config {
    pub bank_config: BankConfig,
    pub bill_config: BillConfig,
    pub mailconfig: MailConfig,
}

} // verus!
