//! The billing ledger: issued invoices, the allocation of invoice numbers
//! and the replacement of an invoice that is billed again.
//!
//! A billing period is a year and a month. Invoices are matched to a period
//! by both: scoping by the month alone would let the same month of two years
//! share or collide in numbering.
//!
//! The ledger is held in memory; whoever stores it applies the changes that
//! `add_to_db` reports (the ids to delete and the row to insert).
use vstd::prelude::*;

use crate::date_utils::BillDate;
use crate::text::{int_padded_text, push_int_padded_text};

verus! {

/// One issued invoice. `amount` is in units of 1/600000 euro.
#[derive(Debug)]
pub struct LedgerEntry {
    pub id: i64,
    pub year: i32,
    pub month: u32,
    pub day: u32,
    pub company: String,
    pub invoice_number: String,
    pub sequence: i32,
    pub amount: i128,
    pub amount_display: String,
}

pub struct EntryView {
    pub id: i64,
    pub year: i32,
    pub month: u32,
    pub day: u32,
    pub company: Seq<char>,
    pub invoice_number: Seq<char>,
    pub sequence: i32,
    pub amount: i128,
    pub amount_display: Seq<char>,
}

impl View for LedgerEntry {
    type V = EntryView;

    open spec fn view(&self) -> EntryView {
        EntryView {
            id: self.id,
            year: self.year,
            month: self.month,
            day: self.day,
            company: self.company@,
            invoice_number: self.invoice_number@,
            sequence: self.sequence,
            amount: self.amount,
            amount_display: self.amount_display@,
        }
    }
}

pub open spec fn in_period(e: EntryView, year: i32, month: u32) -> bool {
    e.year == year && e.month == month
}

/// `e` is an invoice of `company` for the period.
pub open spec fn is_active_for(e: EntryView, company: Seq<char>, year: i32, month: u32) -> bool {
    e.company == company && in_period(e, year, month)
}

/// The position of the first invoice of `company` for the period.
pub open spec fn active_index(s: Seq<EntryView>, company: Seq<char>, year: i32, month: u32) -> Option<
    int,
>
    decreases s.len(),
{
    if s.len() == 0 {
        None
    } else {
        let prev = active_index(s.drop_last(), company, year, month);
        if prev is Some {
            prev
        } else if is_active_for(s.last(), company, year, month) {
            Some(s.len() - 1)
        } else {
            None
        }
    }
}

/// The largest sequence number among the period's invoices.
pub open spec fn max_sequence(s: Seq<EntryView>, year: i32, month: u32) -> Option<int>
    decreases s.len(),
{
    if s.len() == 0 {
        None
    } else {
        let prev = max_sequence(s.drop_last(), year, month);
        let e = s.last();
        if !in_period(e, year, month) {
            prev
        } else {
            match prev {
                Some(x) => Some(if e.sequence > x { e.sequence as int } else { x }),
                None => Some(e.sequence as int),
            }
        }
    }
}

/// The next free sequence number of the period: one more than the largest,
/// or 1 in a period without invoices.
pub open spec fn next_sequence(s: Seq<EntryView>, year: i32, month: u32) -> int {
    match max_sequence(s, year, month) {
        Some(x) => x + 1,
        None => 1,
    }
}

/// An invoice number: the base followed by the sequence number padded to
/// two digits.
pub open spec fn invoice_number_text(base: Seq<char>, sequence: int) -> Seq<char> {
    base + int_padded_text(sequence, 2)
}

/// The invoice number and sequence of `company` for the period: those of its
/// invoice there, else the next free ones.
pub open spec fn resolved(s: Seq<EntryView>, company: Seq<char>, year: i32, month: u32, base: Seq<char>) -> (
    Seq<char>,
    int,
) {
    match active_index(s, company, year, month) {
        Some(i) => (s[i].invoice_number, s[i].sequence as int),
        None => (invoice_number_text(base, next_sequence(s, year, month)), next_sequence(s, year, month)),
    }
}

/// The invoices that are not of `company` for the period, in order.
pub open spec fn retained(s: Seq<EntryView>, company: Seq<char>, year: i32, month: u32) -> Seq<EntryView>
    decreases s.len(),
{
    if s.len() == 0 {
        s
    } else {
        let rest = retained(s.drop_last(), company, year, month);
        if is_active_for(s.last(), company, year, month) {
            rest
        } else {
            rest.push(s.last())
        }
    }
}

/// The ids of the invoices of `company` for the period, in order.
pub open spec fn removed_ids(s: Seq<EntryView>, company: Seq<char>, year: i32, month: u32) -> Seq<i64>
    decreases s.len(),
{
    if s.len() == 0 {
        Seq::empty()
    } else {
        let rest = removed_ids(s.drop_last(), company, year, month);
        if is_active_for(s.last(), company, year, month) {
            rest.push(s.last().id)
        } else {
            rest
        }
    }
}

/// The ledger after `e` replaces the invoices of its company and period.
pub open spec fn replaced(s: Seq<EntryView>, e: EntryView) -> Seq<EntryView> {
    retained(s, e.company, e.year, e.month).push(e)
}

/// The issued invoices, and the id that the next one gets.
#[derive(Debug)]
pub struct Ledger {
    entries: Vec<LedgerEntry>,
    next_id: i64,
}

impl View for Ledger {
    type V = Seq<EntryView>;

    closed spec fn view(&self) -> Seq<EntryView> {
        self.entries@.map_values(|e: LedgerEntry| e@)
    }
}

impl Ledger {
    /// Every invoice's id is below the next id, and every sequence number is
    /// at least 1.
    pub closed spec fn wf(&self) -> bool {
        forall|i: int|
            0 <= i < self.entries@.len() ==> #[trigger] self.entries@[i].id < self.next_id
                && self.entries@[i].sequence >= 1
    }

    /// The id that the next added invoice gets.
    pub closed spec fn fresh_id(&self) -> i64 {
        self.next_id
    }

    /// An empty ledger.
    pub fn new() -> (r: Ledger)
        ensures
            r.wf(),
            r@ == Seq::<EntryView>::empty(),
            r.fresh_id() == 1,
    {
        let r = Ledger { entries: Vec::new(), next_id: 1 };
        assert(r@ =~= Seq::<EntryView>::empty());
        r
    }

    /// Takes in a stored invoice with its id, as it was read back from
    /// storage; the next id then lies above it. Refused (and the ledger left
    /// as it is) for the id `i64::MAX`, after which no id would be left, and
    /// for a sequence number below 1.
    pub fn restore(&mut self, entry: LedgerEntry) -> (r: bool)
        requires
            old(self).wf(),
        ensures
            final(self).wf(),
            r == (entry.id < i64::MAX && entry.sequence >= 1),
            r ==> final(self)@ == old(self)@.push(entry@),
            r ==> final(self).fresh_id() == if entry.id >= old(self).fresh_id() {
                (entry.id + 1) as i64
            } else {
                old(self).fresh_id()
            },
            !r ==> final(self)@ == old(self)@ && final(self).fresh_id() == old(self).fresh_id(),
    {
        if entry.id == i64::MAX || entry.sequence < 1 {
            return false;
        }
        let ghost old_entries = self.entries@;
        if entry.id >= self.next_id {
            self.next_id = entry.id + 1;
        }
        self.entries.push(entry);
        assert(self.entries@ == old_entries.push(entry));
        assert(self@ =~= old(self)@.push(entry@));
        true
    }

    /// The invoices, in order.
    pub fn entries(&self) -> (r: &Vec<LedgerEntry>)
        ensures
            r@.map_values(|e: LedgerEntry| e@) == self@,
    {
        &self.entries
    }

    /// The id that the next added invoice gets.
    pub fn next_id(&self) -> (r: i64)
        ensures
            r == self.fresh_id(),
    {
        self.next_id
    }
}

proof fn lemma_prefix_step<A>(s: Seq<A>, i: int)
    requires
        0 <= i < s.len(),
    ensures
        s.subrange(0, i + 1).drop_last() == s.subrange(0, i),
        s.subrange(0, i + 1).last() == s[i],
        s.subrange(0, i + 1).len() == i + 1,
{
    assert(s.subrange(0, i + 1).drop_last() =~= s.subrange(0, i));
}

proof fn lemma_max_sequence_positive(s: Seq<EntryView>, year: i32, month: u32)
    requires
        forall|k: int| 0 <= k < s.len() ==> (#[trigger] s[k]).sequence >= 1,
    ensures
        max_sequence(s, year, month) matches Some(x) ==> x >= 1,
    decreases s.len(),
{
    if s.len() > 0 {
        let t = s.drop_last();
        assert forall|k: int| 0 <= k < t.len() implies (#[trigger] t[k]).sequence >= 1 by {
            assert(t[k] == s[k]);
        }
        lemma_max_sequence_positive(t, year, month);
        assert(s[s.len() - 1].sequence >= 1);
    }
}

impl Ledger {
    proof fn lemma_view_sequences_positive(&self)
        requires
            self.wf(),
        ensures
            forall|k: int| 0 <= k < self@.len() ==> (#[trigger] self@[k]).sequence >= 1,
    {
        assert forall|k: int| 0 <= k < self@.len() implies (#[trigger] self@[k]).sequence >= 1 by {
            assert(self@[k] == self.entries@[k]@);
        }
    }
}

/// The invoice number and sequence of the invoice of `company` for the
/// period of `billdate`, if it has one (the first, if it has several).
pub fn get_billnr_if_exists(ledger: &Ledger, company: &str, billdate: &BillDate) -> (r: Option<
    (String, i32),
>)
    ensures
        ({
            let found = active_index(ledger@, company@, billdate.year, billdate.month);
            &&& r is Some <==> found is Some
            &&& r matches Some(p) ==> p.0@ == ledger@[found->0].invoice_number && p.1
                == ledger@[found->0].sequence
        }),
        ledger.wf() ==> (r matches Some(p) ==> p.1 >= 1),
{
    let wanted = company.to_owned();
    let ghost s = ledger@;
    let mut i: usize = 0;
    while i < ledger.entries.len()
        invariant
            i <= ledger.entries@.len(),
            s == ledger@,
            wanted@ == company@,
            active_index(s.subrange(0, i as int), company@, billdate.year, billdate.month) is None,
        decreases ledger.entries.len() - i,
    {
        let e = &ledger.entries[i];
        proof {
            lemma_prefix_step(s, i as int);
            assert(s[i as int] == ledger.entries@[i as int]@);
        }
        if e.company == wanted && e.year == billdate.year && e.month == billdate.month {
            let found = (e.invoice_number.clone(), e.sequence);
            assert(active_index(s.subrange(0, i + 1), company@, billdate.year, billdate.month) == Some(
                i as int,
            ));
            proof {
                lemma_active_index_extends(s, i + 1, company@, billdate.year, billdate.month);
            }
            return Some(found);
        }
        i = i + 1;
    }
    assert(s.subrange(0, i as int) =~= s);
    None
}

proof fn lemma_active_index_extends(
    s: Seq<EntryView>,
    k: int,
    company: Seq<char>,
    year: i32,
    month: u32,
)
    requires
        0 <= k <= s.len(),
        active_index(s.subrange(0, k), company, year, month) is Some,
    ensures
        active_index(s, company, year, month) == active_index(s.subrange(0, k), company, year, month),
    decreases s.len() - k,
{
    if k < s.len() {
        lemma_prefix_step(s, k);
        lemma_active_index_extends(s, k + 1, company, year, month);
    } else {
        assert(s.subrange(0, k) =~= s);
    }
}

/// The next free invoice number and sequence of the period of `billdate`,
/// with `billnr_base` as the number's base; none where the period's largest
/// sequence number is already `i32::MAX`.
pub fn get_new_billnr(ledger: &Ledger, billdate: &BillDate, billnr_base: &str) -> (r: Option<
    (String, i32),
>)
    ensures
        r is None <==> max_sequence(ledger@, billdate.year, billdate.month) == Some(i32::MAX as int),
        r matches Some(p) ==> p.1 == next_sequence(ledger@, billdate.year, billdate.month) && p.0@
            == invoice_number_text(billnr_base@, p.1 as int),
        ledger.wf() ==> (r matches Some(p) ==> p.1 >= 1),
{
    let ghost s = ledger@;
    let mut best: Option<i32> = None;
    let mut i: usize = 0;
    while i < ledger.entries.len()
        invariant
            i <= ledger.entries@.len(),
            s == ledger@,
            max_sequence(s.subrange(0, i as int), billdate.year, billdate.month) == match best {
                Some(x) => Some(x as int),
                None => None::<int>,
            },
        decreases ledger.entries.len() - i,
    {
        let e = &ledger.entries[i];
        proof {
            lemma_prefix_step(s, i as int);
        }
        if e.year == billdate.year && e.month == billdate.month {
            best = match best {
                Some(x) => Some(if e.sequence > x { e.sequence } else { x }),
                None => Some(e.sequence),
            };
        }
        i = i + 1;
    }
    assert(s.subrange(0, i as int) =~= s);
    proof {
        if ledger.wf() {
            ledger.lemma_view_sequences_positive();
            lemma_max_sequence_positive(s, billdate.year, billdate.month);
        }
    }
    let next: i32 = match best {
        Some(x) => {
            if x == i32::MAX {
                return None;
            }
            x + 1
        },
        None => 1,
    };
    let mut number = billnr_base.to_owned();
    push_int_padded_text(&mut number, next as i128, 2);
    Some((number, next))
}

/// The invoice number and sequence for `company` in the period of
/// `billdate`: its existing ones if it was billed there, else the next free
/// ones after `billnr_base`. None only where a new number is needed and the
/// period's sequence numbers are exhausted.
pub fn resolve_invoice_number(ledger: &Ledger, company: &str, billdate: &BillDate, billnr_base: &str) -> (r:
    Option<(String, i32)>)
    ensures
        ({
            let want = resolved(ledger@, company@, billdate.year, billdate.month, billnr_base@);
            &&& r is None <==> active_index(ledger@, company@, billdate.year, billdate.month) is None
                && max_sequence(ledger@, billdate.year, billdate.month) == Some(i32::MAX as int)
            &&& r matches Some(p) ==> p.0@ == want.0 && p.1 == want.1
        }),
        ledger.wf() ==> (r matches Some(p) ==> p.1 >= 1),
{
    match get_billnr_if_exists(ledger, company, billdate) {
        Some(found) => Some(found),
        None => get_new_billnr(ledger, billdate, billnr_base),
    }
}

proof fn lemma_retained_step(s: Seq<EntryView>, j: int, company: Seq<char>, year: i32, month: u32)
    requires
        0 <= j < s.len(),
    ensures
        retained(s.subrange(0, j + 1), company, year, month) == if is_active_for(
            s[j],
            company,
            year,
            month,
        ) {
            retained(s.subrange(0, j), company, year, month)
        } else {
            retained(s.subrange(0, j), company, year, month).push(s[j])
        },
        removed_ids(s.subrange(0, j + 1), company, year, month) == if is_active_for(
            s[j],
            company,
            year,
            month,
        ) {
            removed_ids(s.subrange(0, j), company, year, month).push(s[j].id)
        } else {
            removed_ids(s.subrange(0, j), company, year, month)
        },
{
    lemma_prefix_step(s, j);
}

/// Records an invoice of `company` for the period of `billdate`: its
/// earlier invoices for that period are removed and the new one is added
/// under the next id, which then moves on by one. Returns the removed ids and
/// the new id; none, with the ledger unchanged, where no id is left or the
/// sequence number is below 1.
pub fn add_to_db(
    ledger: &mut Ledger,
    company: &str,
    billdate: &BillDate,
    bill_number: &str,
    amount: i128,
    amount_str: &str,
    billnr_int: i32,
) -> (r: Option<(Vec<i64>, i64)>)
    requires
        old(ledger).wf(),
    ensures
        final(ledger).wf(),
        r is None <==> old(ledger).fresh_id() == i64::MAX || billnr_int < 1,
        r is None ==> final(ledger)@ == old(ledger)@ && final(ledger).fresh_id() == old(ledger).fresh_id(),
        r matches Some(p) ==> {
            &&& p.1 == old(ledger).fresh_id()
            &&& final(ledger).fresh_id() == p.1 + 1
            &&& p.0@ == removed_ids(old(ledger)@, company@, billdate.year, billdate.month)
            &&& final(ledger)@ == replaced(
                old(ledger)@,
                EntryView {
                    id: p.1,
                    year: billdate.year,
                    month: billdate.month,
                    day: billdate.day,
                    company: company@,
                    invoice_number: bill_number@,
                    sequence: billnr_int,
                    amount,
                    amount_display: amount_str@,
                },
            )
            &&& forall|i: int| 0 <= i < old(ledger)@.len() ==> #[trigger] old(ledger)@[i].id < p.1
        },
{
    if ledger.next_id == i64::MAX || billnr_int < 1 {
        return None;
    }
    let wanted = company.to_owned();
    let ghost s = ledger@;
    let ghost n = s.len();
    let mut removed: Vec<i64> = Vec::new();
    let mut i: usize = 0;
    let ghost mut j: int = 0;
    while i < ledger.entries.len()
        invariant
            0 <= j <= n,
            n == s.len(),
            s == old(ledger)@,
            wanted@ == company@,
            ledger.next_id == old(ledger).next_id,
            ledger.next_id < i64::MAX,
            ledger@ == retained(s.subrange(0, j), company@, billdate.year, billdate.month) + s.subrange(
                j,
                n as int,
            ),
            i == retained(s.subrange(0, j), company@, billdate.year, billdate.month).len(),
            removed@ == removed_ids(s.subrange(0, j), company@, billdate.year, billdate.month),
            ledger.wf(),
        decreases ledger.entries.len() - i,
    {
        let ghost before = ledger.entries@;
        let ghost before_view = ledger@;
        let ghost r = retained(s.subrange(0, j), company@, billdate.year, billdate.month);
        proof {
            lemma_retained_step(s, j, company@, billdate.year, billdate.month);
            assert(ledger@[i as int] == (r + s.subrange(j, n as int))[i as int]);
            assert(ledger@[i as int] == s[j]);
        }
        let hit = {
            let e = &ledger.entries[i];
            e.company == wanted && e.year == billdate.year && e.month == billdate.month
        };
        if hit {
            let e = ledger.entries.remove(i);
            removed.push(e.id);
            proof {
                assert(ledger.entries@ == before.remove(i as int));
                assert(ledger@ =~= before_view.remove(i as int));
                assert(before_view == r + s.subrange(j, n as int));
                assert(before_view.remove(i as int) =~= r + s.subrange(j + 1, n as int));
                j = j + 1;
            }
        } else {
            i = i + 1;
            proof {
                assert(ledger@ =~= r.push(s[j]) + s.subrange(j + 1, n as int));
                j = j + 1;
            }
        }
    }
    proof {
        if j < n {
            assert(ledger@.len() == i + (n - j));
        }
        assert(s.subrange(0, j) =~= s);
        assert(ledger@ =~= retained(s, company@, billdate.year, billdate.month));
    }
    let id = ledger.next_id;
    let entry = LedgerEntry {
        id,
        year: billdate.year,
        month: billdate.month,
        day: billdate.day,
        company: wanted,
        invoice_number: bill_number.to_owned(),
        sequence: billnr_int,
        amount,
        amount_display: amount_str.to_owned(),
    };
    let ghost kept = ledger.entries@;
    ledger.entries.push(entry);
    ledger.next_id = id + 1;
    proof {
        assert(ledger.entries@ == kept.push(entry));
        assert(ledger@ =~= retained(s, company@, billdate.year, billdate.month).push(entry@));
        assert forall|k: int| 0 <= k < s.len() implies #[trigger] s[k].id < id by {
            assert(s[k] == old(ledger).entries@[k]@);
        }
    }
    Some((removed, id))
}

proof fn lemma_retained_inactive(s: Seq<EntryView>, company: Seq<char>, year: i32, month: u32)
    ensures
        forall|i: int|
            0 <= i < retained(s, company, year, month).len() ==> !is_active_for(
                #[trigger] retained(s, company, year, month)[i],
                company,
                year,
                month,
            ),
        active_index(retained(s, company, year, month), company, year, month) is None,
    decreases s.len(),
{
    if s.len() > 0 {
        let rest = retained(s.drop_last(), company, year, month);
        lemma_retained_inactive(s.drop_last(), company, year, month);
        if !is_active_for(s.last(), company, year, month) {
            assert(rest.push(s.last()).drop_last() =~= rest);
        }
    }
}

proof fn lemma_retained_all(s: Seq<EntryView>, company: Seq<char>, year: i32, month: u32)
    requires
        active_index(s, company, year, month) is None,
    ensures
        retained(s, company, year, month) == s,
    decreases s.len(),
{
    if s.len() > 0 {
        let prev = active_index(s.drop_last(), company, year, month);
        assert(prev is None);
        lemma_retained_all(s.drop_last(), company, year, month);
        assert(s.drop_last().push(s.last()) =~= s);
    }
}

proof fn lemma_active_after_push(t: Seq<EntryView>, e: EntryView, company: Seq<char>, year: i32, month: u32)
    requires
        active_index(t, company, year, month) is None,
    ensures
        active_index(t.push(e), company, year, month) == if is_active_for(e, company, year, month) {
            Some(t.len() as int)
        } else {
            None::<int>
        },
        max_sequence(t.push(e), year, month) == if !in_period(e, year, month) {
            max_sequence(t, year, month)
        } else {
            match max_sequence(t, year, month) {
                Some(x) => Some(if e.sequence > x { e.sequence as int } else { x }),
                None => Some(e.sequence as int),
            }
        },
{
    assert(t.push(e).drop_last() =~= t);
}

/// Billing a company again for a period gives back the number it already
/// has there: once its invoice is recorded under the resolved invoice
/// number and sequence, resolving again yields the same pair (with any
/// base).
pub proof fn lemma_resolve_idempotent(
    s: Seq<EntryView>,
    company: Seq<char>,
    year: i32,
    month: u32,
    base: Seq<char>,
    later_base: Seq<char>,
    e: EntryView,
)
    requires
        is_active_for(e, company, year, month),
        (e.invoice_number, e.sequence as int) == resolved(s, company, year, month, base),
    ensures
        resolved(replaced(s, e), company, year, month, later_base) == resolved(
            s,
            company,
            year,
            month,
            base,
        ),
{
    lemma_retained_inactive(s, company, year, month);
    lemma_active_after_push(retained(s, company, year, month), e, company, year, month);
}

/// Billing a company twice for one period leaves one invoice of it there,
/// the later one, under the number of the first.
pub proof fn lemma_rebilling_replaces(
    s: Seq<EntryView>,
    company: Seq<char>,
    year: i32,
    month: u32,
    base: Seq<char>,
    first: EntryView,
    second: EntryView,
)
    requires
        is_active_for(first, company, year, month),
        (first.invoice_number, first.sequence as int) == resolved(s, company, year, month, base),
        is_active_for(second, company, year, month),
        (second.invoice_number, second.sequence as int) == resolved(
            replaced(s, first),
            company,
            year,
            month,
            base,
        ),
    ensures
        ({
            let after = replaced(replaced(s, first), second);
            &&& after.last() == second
            &&& forall|i: int|
                0 <= i < after.len() ==> (is_active_for(#[trigger] after[i], company, year, month)
                    <==> i == after.len() - 1)
        }),
        second.invoice_number == first.invoice_number,
        second.sequence == first.sequence,
{
    lemma_resolve_idempotent(s, company, year, month, base, base, first);
    let s1 = replaced(s, first);
    lemma_retained_inactive(s1, company, year, month);
}

/// Two companies billed one after the other in a period where neither has
/// an invoice get consecutive sequence numbers, in call order.
pub proof fn lemma_fresh_companies_numbered_in_order(
    s: Seq<EntryView>,
    first_company: Seq<char>,
    second_company: Seq<char>,
    year: i32,
    month: u32,
    base: Seq<char>,
    first: EntryView,
)
    requires
        first_company != second_company,
        active_index(s, first_company, year, month) is None,
        active_index(s, second_company, year, month) is None,
        is_active_for(first, first_company, year, month),
        (first.invoice_number, first.sequence as int) == resolved(s, first_company, year, month, base),
    ensures
        first.sequence == next_sequence(s, year, month),
        resolved(replaced(s, first), second_company, year, month, base) == (
            invoice_number_text(base, first.sequence + 1),
            first.sequence + 1,
        ),
{
    lemma_retained_all(s, first_company, year, month);
    lemma_active_after_push(s, first, second_company, year, month);
}

/// No two invoices of one period share a sequence number.
pub open spec fn sequences_unique(s: Seq<EntryView>) -> bool {
    forall|i: int, j: int|
        0 <= i < s.len() && 0 <= j < s.len() && i != j && in_period(s[i], s[j].year, s[j].month)
            ==> #[trigger] s[i].sequence != #[trigger] s[j].sequence
}

proof fn lemma_retained_members(s: Seq<EntryView>, company: Seq<char>, year: i32, month: u32)
    ensures
        forall|i: int|
            0 <= i < retained(s, company, year, month).len() ==> exists|k: int|
                0 <= k < s.len() && s[k] == #[trigger] retained(s, company, year, month)[i],
    decreases s.len(),
{
    if s.len() > 0 {
        let t = s.drop_last();
        lemma_retained_members(t, company, year, month);
        let r = retained(s, company, year, month);
        assert forall|i: int| 0 <= i < r.len() implies exists|k: int|
            0 <= k < s.len() && s[k] == #[trigger] r[i] by {
            if i < retained(t, company, year, month).len() {
                let k = choose|k: int| 0 <= k < t.len() && t[k] == retained(t, company, year, month)[i];
                assert(s[k] == r[i]);
            } else {
                assert(s[s.len() - 1] == r[i]);
            }
        }
    }
}

proof fn lemma_unique_drop_last(s: Seq<EntryView>)
    requires
        sequences_unique(s),
        s.len() > 0,
    ensures
        sequences_unique(s.drop_last()),
{
    let t = s.drop_last();
    assert forall|i: int, j: int|
        0 <= i < t.len() && 0 <= j < t.len() && i != j && in_period(t[i], t[j].year, t[j].month)
            implies #[trigger] t[i].sequence != #[trigger] t[j].sequence by {
        assert(t[i] == s[i] && t[j] == s[j]);
    }
}

proof fn lemma_retained_unique(s: Seq<EntryView>, company: Seq<char>, year: i32, month: u32)
    requires
        sequences_unique(s),
    ensures
        sequences_unique(retained(s, company, year, month)),
    decreases s.len(),
{
    if s.len() > 0 {
        let t = s.drop_last();
        lemma_unique_drop_last(s);
        lemma_retained_unique(t, company, year, month);
        lemma_retained_members(t, company, year, month);
        let rt = retained(t, company, year, month);
        if !is_active_for(s.last(), company, year, month) {
            let r = rt.push(s.last());
            assert forall|i: int, j: int|
                0 <= i < r.len() && 0 <= j < r.len() && i != j && in_period(r[i], r[j].year, r[j].month)
                    implies #[trigger] r[i].sequence != #[trigger] r[j].sequence by {
                if i < rt.len() && j < rt.len() {
                    assert(r[i] == rt[i] && r[j] == rt[j]);
                } else if i < rt.len() {
                    let k = choose|k: int| 0 <= k < t.len() && t[k] == rt[i];
                    assert(s[k] == r[i] && s[s.len() - 1] == r[j]);
                } else {
                    let k = choose|k: int| 0 <= k < t.len() && t[k] == rt[j];
                    assert(s[k] == r[j] && s[s.len() - 1] == r[i]);
                }
            }
        }
    }
}

proof fn lemma_max_sequence_bounds(s: Seq<EntryView>, year: i32, month: u32, k: int)
    requires
        0 <= k < s.len(),
        in_period(s[k], year, month),
    ensures
        max_sequence(s, year, month) is Some,
        s[k].sequence <= max_sequence(s, year, month)->0,
    decreases s.len(),
{
    let t = s.drop_last();
    if k < t.len() {
        assert(t[k] == s[k]);
        lemma_max_sequence_bounds(t, year, month, k);
    }
}

proof fn lemma_active_index_facts(s: Seq<EntryView>, company: Seq<char>, year: i32, month: u32)
    ensures
        active_index(s, company, year, month) matches Some(a) ==> 0 <= a < s.len() && is_active_for(
            s[a],
            company,
            year,
            month,
        ),
        active_index(s, company, year, month) is None ==> forall|k: int|
            0 <= k < s.len() ==> !is_active_for(#[trigger] s[k], company, year, month),
    decreases s.len(),
{
    if s.len() > 0 {
        let t = s.drop_last();
        lemma_active_index_facts(t, company, year, month);
        if active_index(s, company, year, month) is None {
            assert forall|k: int| 0 <= k < s.len() implies !is_active_for(
                #[trigger] s[k],
                company,
                year,
                month,
            ) by {
                if k < t.len() {
                    assert(t[k] == s[k]);
                }
            }
        }
    }
}

/// Billing keeps sequence numbers unique within each period: recording an
/// invoice under the resolved number and sequence, in a ledger where no
/// period repeats a sequence number, leaves none repeated.
pub proof fn lemma_billing_keeps_sequences_unique(
    s: Seq<EntryView>,
    company: Seq<char>,
    year: i32,
    month: u32,
    base: Seq<char>,
    e: EntryView,
)
    requires
        sequences_unique(s),
        is_active_for(e, company, year, month),
        (e.invoice_number, e.sequence as int) == resolved(s, company, year, month, base),
    ensures
        sequences_unique(replaced(s, e)),
{
    let r = retained(s, company, year, month);
    lemma_retained_unique(s, company, year, month);
    lemma_retained_members(s, company, year, month);
    lemma_retained_inactive(s, company, year, month);
    lemma_active_index_facts(s, company, year, month);
    let after = r.push(e);
    assert forall|i: int, j: int|
        0 <= i < after.len() && 0 <= j < after.len() && i != j && in_period(
            after[i],
            after[j].year,
            after[j].month,
        ) implies #[trigger] after[i].sequence != #[trigger] after[j].sequence by {
        if i < r.len() && j < r.len() {
            assert(after[i] == r[i] && after[j] == r[j]);
        } else {
            let x = if i < r.len() { i } else { j };
            assert(x < r.len());
            assert(after[x] == r[x]);
            let k = choose|k: int| 0 <= k < s.len() && s[k] == r[x];
            assert(!is_active_for(s[k], company, year, month));
            assert(in_period(s[k], year, month));
            match active_index(s, company, year, month) {
                Some(a) => {
                    assert(k != a);
                    assert(s[k].sequence != s[a].sequence);
                },
                None => {
                    lemma_max_sequence_bounds(s, year, month, k);
                },
            }
        }
    }
}

} // verus!
