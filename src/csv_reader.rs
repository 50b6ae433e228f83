//! Rows of a company's time log and what is read from them.
use vstd::prelude::*;

use vstd::string::StrSliceExecFns;

use crate::date_utils::{parse_date, parsed_date_of, DateError};

verus! {

/// One row of a time log: the date as `dd.mm.yyyy`, the minutes worked and
/// a description; year, month and day once the date has been read.
#[derive(Debug)]
pub struct Record {
    pub date: String,
    pub minutes: i32,
    pub description: String,
    pub year: Option<i32>,
    pub month: Option<u32>,
    pub day: Option<u32>,
}

/// The minutes of all rows.
pub open spec fn minutes_sum(s: Seq<Record>) -> int
    decreases s.len(),
{
    if s.len() == 0 {
        0
    } else {
        minutes_sum(s.drop_last()) + s.last().minutes
    }
}

/// Year, month and day of a `dd.mm.yyyy` date.
pub fn get_ymd(datestr: &str) -> (r: Result<(i32, u32, u32), DateError>)
    ensures
        r matches Ok(t) ==> parsed_date_of(datestr@, "%d.%m.%Y"@) == Some(
            (t.0 as int, t.1 as int, t.2 as int),
        ),
        r is Err ==> parsed_date_of(datestr@, "%d.%m.%Y"@) is None,
{
    match parse_date(datestr, "%d.%m.%Y") {
        Some(t) => Ok(t),
        None => Err(DateError::CalculationError),
    }
}

/// Fills in year, month and day of a row from its date; a row whose date
/// does not read as `dd.mm.yyyy` is left as it is and refused.
pub fn complete_record(record: &mut Record) -> (r: Result<(), DateError>)
    ensures
        final(record).date == old(record).date,
        final(record).minutes == old(record).minutes,
        final(record).description == old(record).description,
        r is Ok <==> parsed_date_of(old(record).date@, "%d.%m.%Y"@) is Some,
        r is Err ==> *final(record) == *old(record),
        r is Ok ==> ({
            let t = parsed_date_of(old(record).date@, "%d.%m.%Y"@)->0;
            &&& final(record).year matches Some(y) && y == t.0
            &&& final(record).month matches Some(m) && m == t.1
            &&& final(record).day matches Some(d) && d == t.2
        }),
{
    let (year, month, day) = get_ymd(record.date.as_str())?;
    record.year = Some(year);
    record.month = Some(month);
    record.day = Some(day);
    Ok(())
}

/// The minutes worked over all rows; none where the sum does not fit an
/// `i32`.
pub fn extract_minutes_total(records: &Vec<Record>) -> (r: Option<i32>)
    ensures
        i32::MIN <= minutes_sum(records@) <= i32::MAX ==> r == Some(minutes_sum(records@) as i32),
        !(i32::MIN <= minutes_sum(records@) <= i32::MAX) ==> r is None,
{
    let mut total: i128 = 0;
    let mut i: usize = 0;
    while i < records.len()
        invariant
            i <= records@.len(),
            total as int == minutes_sum(records@.subrange(0, i as int)),
            -2147483648 * (i as int) <= total <= 2147483647 * (i as int),
        decreases records.len() - i,
    {
        proof {
            assert(records@.subrange(0, i + 1).drop_last() =~= records@.subrange(0, i as int));
        }
        total = total + records[i].minutes as i128;
        i = i + 1;
    }
    assert(records@.subrange(0, i as int) =~= records@);
    if total < i32::MIN as i128 || total > i32::MAX as i128 {
        None
    } else {
        Some(total as i32)
    }
}

/// `name` ends in `.csv`.
pub open spec fn has_csv_suffix(name: Seq<char>) -> bool {
    name.len() >= 4 && name.subrange(name.len() - 4, name.len() as int) == seq!['.', 'c', 's', 'v']
}

/// The time-log file of a company: its name, with `.csv` added unless it
/// ends so already.
pub fn csv_file_name(company: &str) -> (r: String)
    ensures
        r@ == if has_csv_suffix(company@) {
            company@
        } else {
            company@ + seq!['.', 'c', 's', 'v']
        },
{
    let n = company.unicode_len();
    let suffixed = n >= 4 && company.get_char(n - 4) == '.' && company.get_char(n - 3) == 'c'
        && company.get_char(n - 2) == 's' && company.get_char(n - 1) == 'v';
    proof {
        if n >= 4 {
            let tail = company@.subrange(n - 4, n as int);
            if suffixed {
                assert(tail =~= seq!['.', 'c', 's', 'v']);
            } else if tail == seq!['.', 'c', 's', 'v'] {
                assert(tail[0] == company@[n - 4]);
                assert(tail[1] == company@[n - 3]);
                assert(tail[2] == company@[n - 2]);
                assert(tail[3] == company@[n - 1]);
            }
        }
    }
    let mut name = company.to_owned();
    if !suffixed {
        proof {
            reveal_strlit(".csv");
        }
        name.append(".csv");
        assert(".csv"@ =~= seq!['.', 'c', 's', 'v']);
    }
    name
}

} // verus!
