use vstd::prelude::*;
use crate::error::KernelError;

verus! {

/// Absolute difference of two timestamps.
pub open spec fn distance(a: int, b: int) -> int {
    if a >= b {
        a - b
    } else {
        b - a
    }
}

/// `j` is the first index of `refs` whose timestamp lies closest to `t`.
pub open spec fn is_nearest(t: int, refs: Seq<i64>, j: int) -> bool {
    &&& 0 <= j < refs.len()
    &&& forall|k: int| 0 <= k < refs.len() ==> distance(t, refs[j] as int) <= #[trigger] distance(t, refs[k] as int)
    &&& forall|k: int| 0 <= k < j ==> distance(t, refs[j] as int) < #[trigger] distance(t, refs[k] as int)
}

/// The index that a forward scan keeping the first strict minimum settles on.
pub open spec fn nearest_of(t: int, refs: Seq<i64>) -> int
    decreases refs.len(),
{
    if refs.len() <= 1 {
        0
    } else {
        let p = nearest_of(t, refs.drop_last());
        if distance(t, refs.last() as int) < distance(t, refs[p] as int) {
            refs.len() - 1
        } else {
            p
        }
    }
}

/// The scan finds the closest reference timestamp, and of several equally
/// close ones the first.
pub proof fn lemma_nearest_of_is_nearest(t: int, refs: Seq<i64>)
    requires
        refs.len() >= 1,
    ensures
        is_nearest(t, refs, nearest_of(t, refs)),
    decreases refs.len(),
{
    if refs.len() > 1 {
        let init = refs.drop_last();
        lemma_nearest_of_is_nearest(t, init);
        let p = nearest_of(t, init);
        assert forall|k: int| 0 <= k < init.len() implies init[k] == refs[k] by {}
    }
}

/// Index of the reference timestamp closest to `target`, the first on a tie.
pub fn nearest_index(target: i64, refs: &Vec<i64>) -> (r: usize)
    requires
        refs@.len() >= 1,
    ensures
        r as int == nearest_of(target as int, refs@),
        is_nearest(target as int, refs@, r as int),
{
    let mut best: usize = 0;
    let mut best_distance: i128 = if (target as i128) >= (refs[0] as i128) {
        target as i128 - refs[0] as i128
    } else {
        refs[0] as i128 - target as i128
    };
    let mut k: usize = 1;
    assert(refs@.take(1).len() == 1);
    while k < refs.len()
        invariant
            1 <= k <= refs@.len(),
            best as int == nearest_of(target as int, refs@.take(k as int)),
            best < k,
            best_distance as int == distance(target as int, refs@[best as int] as int),
        decreases refs@.len() - k,
    {
        let d: i128 = if (target as i128) >= (refs[k] as i128) {
            target as i128 - refs[k] as i128
        } else {
            refs[k] as i128 - target as i128
        };
        assert(refs@.take(k as int + 1).drop_last() =~= refs@.take(k as int));
        if d < best_distance {
            best = k;
            best_distance = d;
        }
        k = k + 1;
    }
    assert(refs@.take(k as int) =~= refs@);
    proof {
        lemma_nearest_of_is_nearest(target as int, refs@);
    }
    best
}

/// For each target timestamp, the index of the closest reference timestamp,
/// the first of several equally close ones. The references need not be
/// sorted.
pub fn closest_timestamp_indices(unix_timestamps: &Vec<i64>, dt_local_array: &Vec<i64>) -> (r: Result<Vec<usize>, KernelError>)
    ensures
        dt_local_array@.len() == 0 <==> r == Err::<Vec<usize>, KernelError>(KernelError::EmptyReference),
        dt_local_array@.len() > 0 ==> r is Ok,
        r matches Ok(v) ==> {
            &&& v@.len() == unix_timestamps@.len()
            &&& forall|i: int| 0 <= i < v@.len() ==> (#[trigger] v@[i]) as int == nearest_of(unix_timestamps@[i] as int, dt_local_array@)
            &&& forall|i: int| 0 <= i < v@.len() ==> is_nearest(unix_timestamps@[i] as int, dt_local_array@, #[trigger] v@[i] as int)
        },
{
    if dt_local_array.len() == 0 {
        return Err(KernelError::EmptyReference);
    }
    let mut out: Vec<usize> = Vec::with_capacity(unix_timestamps.len());
    let mut i: usize = 0;
    while i < unix_timestamps.len()
        invariant
            i <= unix_timestamps@.len(),
            dt_local_array@.len() >= 1,
            out@.len() == i,
            forall|k: int| 0 <= k < i ==> (#[trigger] out@[k]) as int == nearest_of(unix_timestamps@[k] as int, dt_local_array@),
            forall|k: int| 0 <= k < i ==> is_nearest(unix_timestamps@[k] as int, dt_local_array@, #[trigger] out@[k] as int),
        decreases unix_timestamps@.len() - i,
    {
        let j = nearest_index(unix_timestamps[i], dt_local_array);
        out.push(j);
        i = i + 1;
    }
    Ok(out)
}

} // verus!
