//! Invoice amounts, numbering and payment payloads for freelance billing.
pub mod billing;
pub mod calculate;
pub mod config_reader;
pub mod csv_reader;
pub mod date_utils;
pub mod db;
pub mod qrcode;
pub mod text;
