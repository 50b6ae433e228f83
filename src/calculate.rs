//! Net, VAT and total of an invoice, and their display as euro text.
//!
//! Amounts are exact: money is counted in units of 1/600000 of a euro and
//! time in units of 1/600000 of an hour. At that grain a minute's share of an
//! hourly fee given in cents, and 19 % of it, are whole units, so no step
//! of the computation rounds.
use vstd::prelude::*;

use crate::config_reader::ExtractError;
use crate::text::{magnitude, nat_text, padded_text, push_nat_text, push_padded_text};

verus! {

/// Units per euro (and per hour).
pub const UNITS_PER_EURO: i128 = 600_000;

/// Units per cent.
pub const UNITS_PER_CENT: i128 = 6_000;

/// The VAT rate, in percent.
pub const VAT_PERCENT: i128 = 19;

#[derive(Debug)]
pub enum AmountCalcs {
    CalculationError,
    ExtractError(ExtractError),
}

/// One invoice's amounts; money in units of 1/600000 euro, hours in units of
/// 1/600000 hour.
#[derive(Clone, Copy, Debug, PartialEq, Eq, Structural)]
pub struct Amounts {
    pub net: i128,
    pub vat: i128,
    pub total: i128,
    pub hourly_fee: i128,
    pub hours_total: i128,
}

/// Hours worked, in units, for a count of minutes.
pub open spec fn hours_units(minutes: int) -> int {
    minutes * UNITS_PER_EURO / 60int
}

/// An hourly fee in cents, in units.
pub open spec fn fee_units(fee_cents: int) -> int {
    fee_cents * UNITS_PER_EURO / 100int
}

/// Net amount: hours times the hourly fee.
pub open spec fn net_units(minutes: int, fee_cents: int) -> int {
    hours_units(minutes) * fee_units(fee_cents) / (UNITS_PER_EURO as int)
}

/// VAT on a net amount.
pub open spec fn vat_units(net: int) -> int {
    net * VAT_PERCENT / 100int
}

/// What `calculate_amounts` returns for `minutes` at `fee_cents` per hour.
pub open spec fn amounts_spec(minutes: int, fee_cents: int) -> Amounts {
    let net = net_units(minutes, fee_cents);
    let vat = vat_units(net);
    Amounts {
        net: net as i128,
        vat: vat as i128,
        total: (net + vat) as i128,
        hourly_fee: fee_units(fee_cents) as i128,
        hours_total: hours_units(minutes) as i128,
    }
}

proof fn lemma_closed_forms(m: int, f: int)
    ensures
        hours_units(m) == m * 10000,
        fee_units(f) == f * 6000,
        net_units(m, f) == m * f * 100,
        vat_units(m * f * 100) == m * f * 19,
        hours_units(m) * fee_units(f) == net_units(m, f) * UNITS_PER_EURO,
{
    assert(m * 600000 == (m * 10000) * 60) by (nonlinear_arith);
    assert(f * 600000 == (f * 6000) * 100) by (nonlinear_arith);
    assert((m * 10000) * (f * 6000) == (m * f * 100) * 600000) by (nonlinear_arith);
    assert((m * f * 100) * 19 == (m * f * 19) * 100) by (nonlinear_arith);
}

/// Every step of `amounts_spec` is exact, and its fields fit their types.
proof fn lemma_amounts_exact(m: int, f: int)
    requires
        i32::MIN <= m <= i32::MAX,
        i64::MIN <= f <= i64::MAX,
    ensures
        hours_units(m) == m * 10000,
        fee_units(f) == f * 6000,
        net_units(m, f) == m * f * 100,
        vat_units(net_units(m, f)) == m * f * 19,
        hours_units(m) * fee_units(f) == net_units(m, f) * UNITS_PER_EURO,
        i128::MIN <= m * f * 119 <= i128::MAX,
{
    lemma_closed_forms(m, f);
    let mf = m * f;
    assert(-19807040628566084398385987584 <= mf <= 19807040628566084398385987584) by (nonlinear_arith)
        requires
            -2147483648 <= m <= 2147483648,
            -9223372036854775808 <= f <= 9223372036854775808,
            mf == m * f,
    ;
    assert(i128::MIN <= m * f * 119 <= i128::MAX) by (nonlinear_arith)
        requires
            -19807040628566084398385987584 <= mf <= 19807040628566084398385987584,
            mf == m * f,
    ;
}

/// Computes net (hours times fee), VAT (19 % of net) and total (their sum)
/// for `minutes_total` minutes at `hourly_fee` cents per hour.
pub fn calculate_amounts(minutes_total: &i32, hourly_fee: &i64) -> (r: Result<Amounts, AmountCalcs>)
    ensures
        r == Ok::<Amounts, AmountCalcs>(amounts_spec(*minutes_total as int, *hourly_fee as int)),
{
    let m = *minutes_total as i128;
    let f = *hourly_fee as i128;
    proof {
        lemma_amounts_exact(m as int, f as int);
    }
    let mf = m * f;
    let net = mf * 100;
    let vat = mf * 19;
    let total = net + vat;
    let amounts = Amounts { net, vat, total, hourly_fee: f * 6000, hours_total: m * 10000 };
    Ok(amounts)
}

/// VAT is 19 % of net and the total is net plus VAT, exactly, with net equal
/// to hours times fee; all for any count of minutes and any hourly fee.
pub proof fn lemma_total_is_net_plus_vat(minutes_total: i32, hourly_fee: i64)
    ensures
        ({
            let a = amounts_spec(minutes_total as int, hourly_fee as int);
            &&& a.total == a.net + a.vat
            &&& a.vat * 100 == a.net * VAT_PERCENT
            &&& a.net * UNITS_PER_EURO == a.hours_total * a.hourly_fee
        }),
{
    let m = minutes_total as int;
    let f = hourly_fee as int;
    lemma_amounts_exact(m, f);
    lemma_closed_forms(m, f);
    assert(m * f * 100 + m * f * 19 == m * f * 119) by (nonlinear_arith);
}

/// No minutes give zero hours and zero net, VAT and total, at any fee.
pub proof fn lemma_zero_minutes(hourly_fee: i64)
    ensures
        ({
            let a = amounts_spec(0, hourly_fee as int);
            &&& a.net == 0
            &&& a.vat == 0
            &&& a.total == 0
            &&& a.hours_total == 0
        }),
{
    lemma_closed_forms(0, hourly_fee as int);
}

/// `n` units rounded to whole cents, ties to the even cent.
pub open spec fn half_even_cents(n: nat) -> nat {
    let q = n / 6000;
    let r = n % 6000;
    if 2 * r < 6000 {
        q
    } else if 2 * r > 6000 {
        q + 1
    } else if q % 2 == 0 {
        q
    } else {
        q + 1
    }
}

/// An amount in units rounded to cents, ties to the even cent (symmetric
/// about zero).
pub open spec fn rounded_cents(units: int) -> int {
    if units < 0 {
        -(half_even_cents((-units) as nat) as int)
    } else {
        half_even_cents(units as nat) as int
    }
}

/// Cents as euro text: an optional minus sign, the euros, a point and two
/// digits of cents.
pub open spec fn cents_text(cents: int) -> Seq<char> {
    let a: nat = if cents < 0 { (-cents) as nat } else { cents as nat };
    (if cents < 0 { seq!['-'] } else { Seq::<char>::empty() }) + nat_text(a / 100) + seq!['.']
        + padded_text(a % 100, 2)
}

/// An amount in units as euro text, rounded half to even to two decimals.
pub open spec fn euro_text(units: int) -> Seq<char> {
    cents_text(rounded_cents(units))
}

/// Writes cents as euro text: `-12.05`, `0.00`, `238.00`.
pub fn cents_to_string(cents: i128) -> (r: String)
    ensures
        r@ == cents_text(cents as int),
{
    let mut s = String::new();
    if cents < 0 {
        proof {
            reveal_strlit("-");
        }
        s.append("-");
    }
    let a = magnitude(cents);
    push_nat_text(&mut s, a / 100);
    proof {
        reveal_strlit(".");
    }
    s.append(".");
    push_padded_text(&mut s, a % 100, 2);
    assert(s@ =~= cents_text(cents as int));
    s
}

/// Rounds an amount in units to cents, ties to the even cent.
pub fn round_to_cents(units: i128) -> (r: i128)
    ensures
        r as int == rounded_cents(units as int),
{
    let n = magnitude(units);
    let q = n / 6000;
    let rem = n % 6000;
    let c: u128 = if 2 * rem < 6000 {
        q
    } else if 2 * rem > 6000 {
        q + 1
    } else if q % 2 == 0 {
        q
    } else {
        q + 1
    };
    assert(c as nat == half_even_cents(n as nat));
    if units < 0 {
        -(c as i128)
    } else {
        c as i128
    }
}

/// Renders an amount in units as euro text, rounded half to even to two
/// decimals; every amount in units is finite, so this always succeeds.
pub fn to_euro_string(currency_units: &i128) -> (r: Result<String, AmountCalcs>)
    ensures
        r is Ok,
        r matches Ok(s) && s@ == euro_text(*currency_units as int),
{
    let cents = round_to_cents(*currency_units);
    Ok(cents_to_string(cents))
}

/// Rounds an amount in units up to whole cents: the least `r` with
/// `r` cents at least the amount.
pub fn round_up_to_cents(units: i128) -> (r: i128)
    ensures
        r as int * UNITS_PER_CENT >= units,
        (r as int - 1) * UNITS_PER_CENT < units,
{
    let a = magnitude(units);
    let q = a / 6000;
    let rem = a % 6000;
    assert(a == 6000 * q + rem && rem < 6000) by (nonlinear_arith)
        requires
            q == a / 6000,
            rem == a % 6000,
    ;
    if units < 0 {
        -(q as i128)
    } else if rem == 0 {
        q as i128
    } else {
        q as i128 + 1
    }
}

} // verus!
