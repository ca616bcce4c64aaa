use vstd::prelude::*;
use crate::error::KernelError;

verus! {

pub const SECONDS_PER_DAY: i64 = 86400;

/// The first second after 262142-12-31T23:59:59Z, the last instant of the
/// calendar's range.
pub const CALENDAR_END: i64 = 8210266876800;

pub open spec fn is_leap_year(y: int) -> bool {
    (y % 4 == 0 && y % 100 != 0) || y % 400 == 0
}

pub open spec fn days_in_year(y: int) -> int {
    if is_leap_year(y) {
        366
    } else {
        365
    }
}

/// Day of the year, counted from 1, of the day `d` days after 1 January of
/// the year `y` in the proleptic Gregorian calendar.
pub open spec fn ordinal_from(y: int, d: int) -> int
    decreases d,
{
    if d < days_in_year(y) {
        d + 1
    } else {
        ordinal_from(y + 1, d - days_in_year(y))
    }
}

/// Day of the year, counted from 1, of the UTC instant `ts` seconds after
/// the Unix epoch, for `ts >= 0`.
pub open spec fn day_of_year(ts: int) -> int {
    ordinal_from(1970, ts / (SECONDS_PER_DAY as int))
}

/// Seconds elapsed since the last UTC midnight at `ts` seconds after the epoch.
pub open spec fn seconds_of_day(ts: int) -> int {
    ts % (SECONDS_PER_DAY as int)
}

/// A day of the year lies between 1 and 366.
pub proof fn lemma_ordinal_in_year(y: int, d: int)
    requires
        d >= 0,
    ensures
        1 <= ordinal_from(y, d) <= 366,
    decreases d,
{
    if d >= days_in_year(y) {
        lemma_ordinal_in_year(y + 1, d - days_in_year(y));
    }
}

/// Relies on chrono's `NaiveDateTime::from_timestamp_opt(ts, 0)` to place a
/// timestamp in the proleptic Gregorian calendar (it splits `ts` into
/// `ts.div_euclid(86400)` days and `ts.rem_euclid(86400)` seconds, and
/// returns `None` past the year 262142), and on `Datelike::ordinal` and
/// `Timelike::num_seconds_from_midnight` to read the instant back.
#[verifier::external_body]
fn calendar_parts(ts: i64) -> (r: Option<(u32, u32)>)
    requires
        0 <= ts,
    ensures
        ts < CALENDAR_END <==> r is Some,
        r matches Some(p) ==> p.0 as int == day_of_year(ts as int),
        r matches Some(p) ==> p.1 as int == seconds_of_day(ts as int),
{
    #[allow(deprecated)]
    match chrono::NaiveDateTime::from_timestamp_opt(ts, 0) {
        Some(d) => Some((chrono::Datelike::ordinal(&d), chrono::Timelike::num_seconds_from_midnight(&d))),
        None => None,
    }
}

/// Splits each timestamp into its day of the year (1 to 366) and the
/// seconds elapsed since midnight; the hour of the day is the latter divided
/// by 3600. No time zone is applied. A timestamp past the calendar's range
/// is an `InvalidTimestamp`.
pub fn calculate_array_ghi_times(local_times: &Vec<u64>) -> (r: Result<(Vec<u32>, Vec<u32>), KernelError>)
    ensures
        r is Ok <==> forall|i: int| 0 <= i < local_times@.len() ==> #[trigger] local_times@[i] < CALENDAR_END,
        r is Err ==> r == Err::<(Vec<u32>, Vec<u32>), KernelError>(KernelError::InvalidTimestamp),
        r matches Ok(p) ==> {
            &&& p.0@.len() == local_times@.len()
            &&& p.1@.len() == local_times@.len()
            &&& forall|i: int| 0 <= i < local_times@.len() ==>
                #[trigger] p.0@[i] as int == day_of_year(local_times@[i] as int)
            &&& forall|i: int| 0 <= i < local_times@.len() ==> 1 <= #[trigger] p.0@[i] <= 366
            &&& forall|i: int| 0 <= i < local_times@.len() ==>
                #[trigger] p.1@[i] as int == seconds_of_day(local_times@[i] as int)
        },
{
    let mut days: Vec<u32> = Vec::with_capacity(local_times.len());
    let mut seconds: Vec<u32> = Vec::with_capacity(local_times.len());
    let mut i: usize = 0;
    while i < local_times.len()
        invariant
            i <= local_times@.len(),
            days@.len() == i,
            seconds@.len() == i,
            forall|k: int| 0 <= k < i ==> #[trigger] local_times@[k] < CALENDAR_END,
            forall|k: int| 0 <= k < i ==> #[trigger] days@[k] as int == day_of_year(local_times@[k] as int),
            forall|k: int| 0 <= k < i ==> 1 <= #[trigger] days@[k] <= 366,
            forall|k: int| 0 <= k < i ==> #[trigger] seconds@[k] as int == seconds_of_day(local_times@[k] as int),
        decreases local_times@.len() - i,
    {
        let ts: u64 = local_times[i];
        if ts >= CALENDAR_END as u64 {
            return Err(KernelError::InvalidTimestamp);
        }
        match calendar_parts(ts as i64) {
            Some(p) => {
                proof {
                    lemma_ordinal_in_year(1970, ts as int / (SECONDS_PER_DAY as int));
                }
                days.push(p.0);
                seconds.push(p.1);
            },
            None => {
                return Err(KernelError::InvalidTimestamp);
            },
        }
        i = i + 1;
    }
    Ok((days, seconds))
}

} // verus!
