//! One company's invoice in a billing run, before it is typeset and
//! recorded: its number, its amounts and the total as text.
use vstd::prelude::*;

use crate::calculate::{amounts_spec, calculate_amounts, euro_text, to_euro_string, AmountCalcs, Amounts};
use crate::date_utils::{period_text, BillDate};
use crate::db::{
    active_index, add_to_db, max_sequence, removed_ids, replaced, resolve_invoice_number, resolved,
    EntryView, Ledger,
};

verus! {

#[derive(Debug)]
pub enum BillingError {
    /// The period already holds the largest sequence number.
    SequenceExhausted,
    CalculationError(AmountCalcs),
    /// The ledger has no id left for a new invoice.
    IdsExhausted,
}

#[derive(Debug)]
pub struct InvoiceDraft {
    pub invoice_number: String,
    pub sequence: i32,
    pub amounts: Amounts,
    pub amount_display: String,
}

/// A company is billed only for a nonzero count of minutes.
pub fn is_billable(minutes_total: i32) -> (r: bool)
    ensures
        r == (minutes_total != 0),
{
    minutes_total != 0
}

/// The invoice of `company` for the period of `billdate`, for
/// `minutes_total` minutes at `hourly_fee` cents an hour; its number is
/// based on the period's label `yyyy-mm`. A company without minutes gets no
/// invoice (and no number). The ledger is only read.
pub fn draft_invoice(
    ledger: &Ledger,
    company: &str,
    billdate: &BillDate,
    minutes_total: i32,
    hourly_fee: i64,
) -> (r: Result<Option<InvoiceDraft>, BillingError>)
    ensures
        r matches Ok(None) <==> minutes_total == 0,
        r is Err <==> minutes_total != 0 && active_index(
            ledger@,
            company@,
            billdate.year,
            billdate.month,
        ) is None && max_sequence(ledger@, billdate.year, billdate.month) == Some(i32::MAX as int),
        r matches Ok(Some(d)) ==> ({
            let want = resolved(
                ledger@,
                company@,
                billdate.year,
                billdate.month,
                period_text(billdate.year as int, billdate.month as int),
            );
            &&& d.invoice_number@ == want.0
            &&& d.sequence == want.1
            &&& d.amounts == amounts_spec(minutes_total as int, hourly_fee as int)
            &&& d.amount_display@ == euro_text(d.amounts.total as int)
        }),
        ledger.wf() ==> (r matches Ok(Some(d)) ==> d.sequence >= 1),
{
    if !is_billable(minutes_total) {
        return Ok(None);
    }
    let base = billdate.period_label();
    let (invoice_number, sequence) = match resolve_invoice_number(ledger, company, billdate, base.as_str()) {
        Some(found) => found,
        None => return Err(BillingError::SequenceExhausted),
    };
    let amounts = match calculate_amounts(&minutes_total, &hourly_fee) {
        Ok(a) => a,
        Err(e) => return Err(BillingError::CalculationError(e)),
    };
    let amount_display = match to_euro_string(&amounts.total) {
        Ok(text) => text,
        Err(e) => return Err(BillingError::CalculationError(e)),
    };
    Ok(Some(InvoiceDraft { invoice_number, sequence, amounts, amount_display }))
}

/// Drafts the invoice of `company` for the period of `billdate` as
/// `draft_invoice` does and records it in the ledger, replacing the company's
/// earlier invoice for that period. A company without minutes gets no
/// invoice, and the ledger stays as it is; so it does on every error. Returns
/// the draft with the removed ids and the new invoice's id.
pub fn record_invoice(
    ledger: &mut Ledger,
    company: &str,
    billdate: &BillDate,
    minutes_total: i32,
    hourly_fee: i64,
) -> (r: Result<Option<(InvoiceDraft, Vec<i64>, i64)>, BillingError>)
    requires
        old(ledger).wf(),
    ensures
        final(ledger).wf(),
        r matches Ok(None) <==> minutes_total == 0,
        r is Err <==> minutes_total != 0 && ((active_index(
            old(ledger)@,
            company@,
            billdate.year,
            billdate.month,
        ) is None && max_sequence(old(ledger)@, billdate.year, billdate.month) == Some(
            i32::MAX as int,
        )) || old(ledger).fresh_id() == i64::MAX),
        !(r matches Ok(Some(_))) ==> final(ledger)@ == old(ledger)@ && final(ledger).fresh_id() == old(
            ledger,
        ).fresh_id(),
        r matches Ok(Some(x)) ==> ({
            let (d, removed, id) = x;
            let want = resolved(
                old(ledger)@,
                company@,
                billdate.year,
                billdate.month,
                period_text(billdate.year as int, billdate.month as int),
            );
            &&& d.invoice_number@ == want.0
            &&& d.sequence == want.1
            &&& d.sequence >= 1
            &&& d.amounts == amounts_spec(minutes_total as int, hourly_fee as int)
            &&& d.amount_display@ == euro_text(d.amounts.total as int)
            &&& id == old(ledger).fresh_id()
            &&& final(ledger).fresh_id() == id + 1
            &&& removed@ == removed_ids(old(ledger)@, company@, billdate.year, billdate.month)
            &&& final(ledger)@ == replaced(
                old(ledger)@,
                EntryView {
                    id,
                    year: billdate.year,
                    month: billdate.month,
                    day: billdate.day,
                    company: company@,
                    invoice_number: d.invoice_number@,
                    sequence: d.sequence,
                    amount: d.amounts.total,
                    amount_display: d.amount_display@,
                },
            )
        }),
{
    let draft = match draft_invoice(ledger, company, billdate, minutes_total, hourly_fee) {
        Ok(Some(d)) => d,
        Ok(None) => return Ok(None),
        Err(e) => return Err(e),
    };
    if ledger.next_id() == i64::MAX {
        return Err(BillingError::IdsExhausted);
    }
    match add_to_db(
        ledger,
        company,
        billdate,
        draft.invoice_number.as_str(),
        draft.amounts.total,
        draft.amount_display.as_str(),
        draft.sequence,
    ) {
        Some((removed, id)) => Ok(Some((draft, removed, id))),
        None => Err(BillingError::IdsExhausted),
    }
}

} // verus!
