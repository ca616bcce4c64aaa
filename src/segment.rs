use vstd::prelude::*;

verus! {

/// One step of the cursor: it moves forward by one when `x` exceeds the
/// boundary under it, and never past the last entry of the table.
pub open spec fn advance(c: int, x: int, table: Seq<u64>) -> int {
    if x > table[c] as int && c + 1 < table.len() {
        c + 1
    } else {
        c
    }
}

/// The cursor after the first `n` distances have been walked.
pub open spec fn cursor_after(dist: Seq<u64>, table: Seq<u64>, n: nat) -> int
    decreases n,
{
    if n == 0 {
        0
    } else {
        advance(cursor_after(dist, table, (n - 1) as nat), dist[n - 1] as int, table)
    }
}

/// The segment index reported for the distance at position `i`.
pub open spec fn segment_index(dist: Seq<u64>, table: Seq<u64>, i: int) -> int {
    cursor_after(dist, table, (i + 1) as nat)
}

/// `r` holds, position by position, the segment index of each distance.
pub open spec fn walked(dist: Seq<u64>, table: Seq<u64>, r: Seq<usize>) -> bool {
    &&& r.len() == dist.len()
    &&& forall|i: int| 0 <= i < r.len() ==> r[i] as int == #[trigger] segment_index(dist, table, i)
}

proof fn lemma_cursor_in_table(dist: Seq<u64>, table: Seq<u64>, n: nat)
    requires
        table.len() >= 1,
        n <= dist.len(),
    ensures
        0 <= cursor_after(dist, table, n) < table.len(),
    decreases n,
{
    if n > 0 {
        lemma_cursor_in_table(dist, table, (n - 1) as nat);
    }
}

/// Segment lookup that saturates the cursor once it reaches the last entry
/// and keeps comparing against that same boundary afterwards.
///
/// Distances and boundaries are order keys: any encoding in which `>` on the
/// keys agrees with `>` on the distances they stand for.
pub fn closest_gis_indices_loop(cumulative_distances: &Vec<u64>, average_distances: &Vec<u64>) -> (r: Vec<usize>)
    requires
        average_distances@.len() >= 1,
    ensures
        walked(cumulative_distances@, average_distances@, r@),
{
    let m: usize = average_distances.len();
    let last: usize = m - 1;
    let mut cursor: usize = 0;
    let mut result: Vec<usize> = Vec::with_capacity(cumulative_distances.len());
    let mut i: usize = 0;
    while i < cumulative_distances.len()
        invariant
            i <= cumulative_distances@.len(),
            last + 1 == m,
            m == average_distances@.len(),
            cursor as int == cursor_after(cumulative_distances@, average_distances@, i as nat),
            cursor <= last,
            result@.len() == i,
            forall|k: int| 0 <= k < i ==> result@[k] as int == #[trigger] segment_index(cumulative_distances@, average_distances@, k),
        decreases cumulative_distances@.len() - i,
    {
        let distance = cumulative_distances[i];
        if distance > average_distances[cursor] {
            if cursor > last {
                cursor = last;
            } else {
                cursor = cursor + 1;
                if cursor > last {
                    cursor = last;
                }
            }
        }
        result.push(cursor);
        i = i + 1;
    }
    result
}

/// Segment lookup that clamps the cursor to the last entry before every
/// comparison and again after every advance.
///
/// Distances and boundaries are order keys, as for [`closest_gis_indices_loop`].
pub fn closest_weather_indices_loop(cumulative_distances: &Vec<u64>, average_distances: &Vec<u64>) -> (r: Vec<usize>)
    requires
        average_distances@.len() >= 1,
    ensures
        walked(cumulative_distances@, average_distances@, r@),
{
    let m: usize = average_distances.len();
    let last: usize = m - 1;
    let mut cursor: usize = 0;
    let mut result: Vec<usize> = Vec::with_capacity(cumulative_distances.len());
    let mut i: usize = 0;
    while i < cumulative_distances.len()
        invariant
            i <= cumulative_distances@.len(),
            last + 1 == m,
            m == average_distances@.len(),
            cursor as int == cursor_after(cumulative_distances@, average_distances@, i as nat),
            cursor <= last,
            result@.len() == i,
            forall|k: int| 0 <= k < i ==> result@[k] as int == #[trigger] segment_index(cumulative_distances@, average_distances@, k),
        decreases cumulative_distances@.len() - i,
    {
        if cursor > last {
            cursor = last;
        }
        let distance = cumulative_distances[i];
        if distance > average_distances[cursor] {
            cursor = cursor + 1;
            if cursor > last {
                cursor = last;
            }
        }
        result.push(cursor);
        i = i + 1;
    }
    result
}

proof fn lemma_cursor_monotone_in_table(dist: Seq<u64>, table: Seq<u64>, i: int, j: int)
    requires
        table.len() >= 1,
        0 <= i <= j < dist.len(),
    ensures
        0 <= segment_index(dist, table, i) <= segment_index(dist, table, j) < table.len(),
    decreases j - i,
{
    lemma_cursor_in_table(dist, table, (j + 1) as nat);
    lemma_cursor_in_table(dist, table, (i + 1) as nat);
    if i < j {
        lemma_cursor_monotone_in_table(dist, table, i, j - 1);
    }
}

proof fn lemma_prefix_below_first_boundary(dist: Seq<u64>, table: Seq<u64>, i: int)
    requires
        table.len() >= 1,
        0 <= i < dist.len(),
        forall|k: int| 0 <= k <= i ==> (#[trigger] dist[k] as int) < table[0] as int,
    ensures
        segment_index(dist, table, i) == 0,
    decreases i,
{
    if i > 0 {
        lemma_prefix_below_first_boundary(dist, table, i - 1);
    }
    assert((dist[i] as int) < table[0] as int);
    assert(cursor_after(dist, table, i as nat) == 0);
}

/// The indices that a segment walker reports never decrease along the
/// sequence and all lie in the table.
pub proof fn lemma_walk_monotone_in_table(dist: Seq<u64>, table: Seq<u64>, r: Seq<usize>)
    requires
        table.len() >= 1,
        walked(dist, table, r),
    ensures
        forall|i: int, k: int| 0 <= i <= k < r.len() ==> #[trigger] r[i] <= #[trigger] r[k],
        forall|i: int| 0 <= i < r.len() ==> #[trigger] r[i] < table.len(),
{
    assert forall|i: int, k: int| 0 <= i <= k < r.len() implies #[trigger] r[i] <= #[trigger] r[k] by {
        assert(r[i] as int == segment_index(dist, table, i));
        assert(r[k] as int == segment_index(dist, table, k));
        lemma_cursor_monotone_in_table(dist, table, i, k);
    }
    assert forall|i: int| 0 <= i < r.len() implies #[trigger] r[i] < table.len() by {
        assert(r[i] as int == segment_index(dist, table, i));
        lemma_cursor_monotone_in_table(dist, table, i, i);
    }
}

/// On non-decreasing distances, a segment walker reports index 0 for every
/// distance strictly below the first boundary.
pub proof fn lemma_walk_below_first_boundary(dist: Seq<u64>, table: Seq<u64>, r: Seq<usize>, i: int)
    requires
        table.len() >= 1,
        walked(dist, table, r),
        forall|a: int, b: int| 0 <= a <= b < dist.len() ==> #[trigger] dist[a] <= #[trigger] dist[b],
        0 <= i < dist.len(),
        dist[i] < table[0],
    ensures
        r[i] == 0,
{
    assert forall|k: int| 0 <= k <= i implies (#[trigger] dist[k] as int) < table[0] as int by {
        assert(dist[k] <= dist[i]);
    }
    lemma_prefix_below_first_boundary(dist, table, i);
    assert(r[i] as int == segment_index(dist, table, i));
}

pub const SIGN_BIT: u64 = 0x8000_0000_0000_0000;

/// The order key of an IEEE-754 double given by its bits: for two non-NaN
/// doubles `a` and `b`, `a > b` exactly when the key of `a` exceeds the key
/// of `b`. Negative zero gets the key of positive zero.
pub open spec fn order_key(bits: u64) -> u64 {
    if bits == SIGN_BIT {
        SIGN_BIT
    } else if bits & SIGN_BIT != 0 {
        !bits
    } else {
        bits | SIGN_BIT
    }
}

/// Maps the bits of a double to its order key, the form in which the
/// segment walkers take distances and boundaries.
pub fn distance_key(bits: u64) -> (r: u64)
    ensures
        r == order_key(bits),
{
    if bits == SIGN_BIT {
        SIGN_BIT
    } else if bits & SIGN_BIT != 0 {
        !bits
    } else {
        bits | SIGN_BIT
    }
}

} // verus!
