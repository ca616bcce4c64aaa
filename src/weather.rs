use vstd::prelude::*;
use crate::error::KernelError;
use crate::nearest::{is_nearest, lemma_nearest_of_is_nearest, nearest_index, nearest_of};

verus! {

// A forecast is indexed by (coordinate, time sample, field). All coordinates
// share one time axis: the timestamp field read at the first coordinate.

/// The time axis of a forecast: the timestamp field of every time sample at
/// the first coordinate. A forecast without coordinates has an empty time
/// axis; a time sample without the timestamp field is a `ShapeMismatch`.
pub fn time_axis_column<T: Copy>(weather_forecast: &Vec<Vec<Vec<T>>>, dt_index: usize) -> (r: Result<Vec<T>, KernelError>)
    ensures
        r is Ok <==> weather_forecast@.len() == 0 || forall|t: int| 0 <= t < weather_forecast@[0]@.len()
            ==> dt_index < (#[trigger] weather_forecast@[0]@[t])@.len(),
        r is Err ==> r == Err::<Vec<T>, KernelError>(KernelError::ShapeMismatch),
        r matches Ok(v) ==> weather_forecast@.len() == 0 ==> v@.len() == 0,
        r matches Ok(v) ==> weather_forecast@.len() >= 1 ==> {
            &&& v@.len() == weather_forecast@[0]@.len()
            &&& forall|t: int| 0 <= t < v@.len() ==> #[trigger] v@[t] == weather_forecast@[0]@[t]@[dt_index as int]
        },
{
    if weather_forecast.len() == 0 {
        return Ok(Vec::new());
    }
    let first: &Vec<Vec<T>> = &weather_forecast[0];
    let mut column: Vec<T> = Vec::with_capacity(first.len());
    let mut t: usize = 0;
    while t < first.len()
        invariant
            weather_forecast@.len() >= 1,
            *first == weather_forecast@[0],
            t <= first@.len(),
            column@.len() == t,
            forall|k: int| 0 <= k < t ==> dt_index < (#[trigger] first@[k])@.len(),
            forall|k: int| 0 <= k < t ==> #[trigger] column@[k] == first@[k]@[dt_index as int],
        decreases first@.len() - t,
    {
        if dt_index >= first[t].len() {
            return Err(KernelError::ShapeMismatch);
        }
        column.push(first[t][dt_index]);
        t = t + 1;
    }
    Ok(column)
}

/// The forecast row reported for point `i`: at its coordinate, the time
/// sample nearest to its timestamp.
pub open spec fn resampled_row<T>(
    unix_timestamps: Seq<i64>,
    indices: Seq<i64>,
    weather_forecast: Seq<Vec<Vec<T>>>,
    time_axis: Seq<i64>,
    i: int,
) -> Seq<T> {
    weather_forecast[indices[i] as int]@[nearest_of(unix_timestamps[i] as int, time_axis)]@
}

/// The coordinate index of point `i` selects a slice of the forecast.
pub open spec fn coordinate_in_range<T>(indices: Seq<i64>, weather_forecast: Seq<Vec<Vec<T>>>, i: int) -> bool {
    0 <= indices[i] < weather_forecast.len()
}

/// Every coordinate index selects a slice of the forecast.
pub open spec fn all_in_range<T>(indices: Seq<i64>, weather_forecast: Seq<Vec<Vec<T>>>) -> bool {
    forall|i: int| 0 <= i < indices.len() ==> #[trigger] coordinate_in_range(indices, weather_forecast, i)
}

/// The slice selected for point `i` has one row per time-axis entry.
pub open spec fn slice_on_axis<T>(indices: Seq<i64>, weather_forecast: Seq<Vec<Vec<T>>>, time_axis: Seq<i64>, i: int) -> bool {
    weather_forecast[indices[i] as int]@.len() == time_axis.len()
}

/// Every selected slice has one row per time-axis entry.
pub open spec fn all_on_axis<T>(indices: Seq<i64>, weather_forecast: Seq<Vec<Vec<T>>>, time_axis: Seq<i64>) -> bool {
    forall|i: int| 0 <= i < indices.len() ==> #[trigger] slice_on_axis(indices, weather_forecast, time_axis, i)
}

/// For each point of a route, the forecast row closest to it in space and in
/// time: the coordinate comes from `indices`, the time sample is the one of
/// `time_axis` nearest to the point's timestamp.
///
/// Checked in this order: `ShapeMismatch` when the two point sequences
/// differ in length; `IndexOutOfRange` when a coordinate index lies outside
/// the forecast; `EmptyReference` when there is a point to match but the
/// time axis is empty; `ShapeMismatch` when a selected coordinate holds a
/// number of time samples other than the length of the time axis. An empty
/// batch gives no rows.
pub fn weather_in_time<T: Copy>(
    unix_timestamps: &Vec<i64>,
    indices: &Vec<i64>,
    weather_forecast: &Vec<Vec<Vec<T>>>,
    time_axis: &Vec<i64>,
) -> (r: Result<Vec<Vec<T>>, KernelError>)
    ensures
        unix_timestamps@.len() != indices@.len() ==> r == Err::<Vec<Vec<T>>, KernelError>(KernelError::ShapeMismatch),
        unix_timestamps@.len() == indices@.len() && !all_in_range(indices@, weather_forecast@)
            ==> r == Err::<Vec<Vec<T>>, KernelError>(KernelError::IndexOutOfRange),
        unix_timestamps@.len() == indices@.len() && all_in_range(indices@, weather_forecast@)
            && indices@.len() >= 1 && time_axis@.len() == 0
            ==> r == Err::<Vec<Vec<T>>, KernelError>(KernelError::EmptyReference),
        unix_timestamps@.len() == indices@.len() && all_in_range(indices@, weather_forecast@)
            && (indices@.len() == 0 || time_axis@.len() > 0)
            && !all_on_axis(indices@, weather_forecast@, time_axis@)
            ==> r == Err::<Vec<Vec<T>>, KernelError>(KernelError::ShapeMismatch),
        unix_timestamps@.len() == indices@.len() && all_in_range(indices@, weather_forecast@)
            && (indices@.len() == 0 || time_axis@.len() > 0)
            && all_on_axis(indices@, weather_forecast@, time_axis@)
            ==> r is Ok,
        r matches Ok(rows) ==> {
            &&& rows@.len() == indices@.len()
            &&& forall|i: int| 0 <= i < rows@.len() ==>
                (#[trigger] rows@[i])@ == resampled_row(unix_timestamps@, indices@, weather_forecast@, time_axis@, i)
        },
{
    let n: usize = indices.len();
    let m: usize = weather_forecast.len();
    if unix_timestamps.len() != n {
        return Err(KernelError::ShapeMismatch);
    }
    let mut i: usize = 0;
    while i < n
        invariant
            n == indices@.len(),
            n == unix_timestamps@.len(),
            m == weather_forecast@.len(),
            i <= n,
            forall|k: int| 0 <= k < i ==> #[trigger] coordinate_in_range(indices@, weather_forecast@, k),
        decreases n - i,
    {
        let c: i64 = indices[i];
        if c < 0 || c as u64 >= m as u64 {
            assert(!coordinate_in_range(indices@, weather_forecast@, i as int));
            return Err(KernelError::IndexOutOfRange);
        }
        i = i + 1;
    }
    if n == 0 {
        return Ok(Vec::new());
    }
    if time_axis.len() == 0 {
        return Err(KernelError::EmptyReference);
    }
    let mut i: usize = 0;
    while i < n
        invariant
            n == indices@.len(),
            n == unix_timestamps@.len(),
            time_axis@.len() > 0,
            m == weather_forecast@.len(),
            i <= n,
            all_in_range(indices@, weather_forecast@),
            forall|k: int| 0 <= k < i ==> #[trigger] slice_on_axis(indices@, weather_forecast@, time_axis@, k),
        decreases n - i,
    {
        assert(coordinate_in_range(indices@, weather_forecast@, i as int));
        let c: usize = indices[i] as usize;
        if weather_forecast[c].len() != time_axis.len() {
            assert(!slice_on_axis(indices@, weather_forecast@, time_axis@, i as int));
            return Err(KernelError::ShapeMismatch);
        }
        i = i + 1;
    }
    let mut rows: Vec<Vec<T>> = Vec::with_capacity(n);
    let mut i: usize = 0;
    while i < n
        invariant
            n == indices@.len(),
            n == unix_timestamps@.len(),
            m == weather_forecast@.len(),
            time_axis@.len() > 0,
            i <= n,
            rows@.len() == i,
            all_in_range(indices@, weather_forecast@),
            all_on_axis(indices@, weather_forecast@, time_axis@),
            forall|k: int| 0 <= k < i ==>
                (#[trigger] rows@[k])@ == resampled_row(unix_timestamps@, indices@, weather_forecast@, time_axis@, k),
        decreases n - i,
    {
        assert(coordinate_in_range(indices@, weather_forecast@, i as int));
        assert(slice_on_axis(indices@, weather_forecast@, time_axis@, i as int));
        let j: usize = nearest_index(unix_timestamps[i], time_axis);
        let c: usize = indices[i] as usize;
        let slice: &Vec<Vec<T>> = &weather_forecast[c];
        let source: &Vec<T> = &slice[j];
        let mut row: Vec<T> = Vec::with_capacity(source.len());
        let mut f: usize = 0;
        while f < source.len()
            invariant
                f <= source@.len(),
                row@ == source@.take(f as int),
            decreases source@.len() - f,
        {
            row.push(source[f]);
            f = f + 1;
            assert(row@ =~= source@.take(f as int));
        }
        assert(row@ =~= source@);
        rows.push(row);
        i = i + 1;
    }
    Ok(rows)
}

/// With a single coordinate, every row that the resampler reports is the
/// forecast row whose time-axis entry lies closest to the point's
/// timestamp, the first of several equally close ones.
pub proof fn lemma_single_coordinate_nearest_row<T>(
    unix_timestamps: Seq<i64>,
    indices: Seq<i64>,
    weather_forecast: Seq<Vec<Vec<T>>>,
    time_axis: Seq<i64>,
    rows: Seq<Vec<T>>,
)
    requires
        weather_forecast.len() == 1,
        time_axis.len() >= 1,
        rows.len() == indices.len(),
        indices.len() == unix_timestamps.len(),
        all_in_range(indices, weather_forecast),
        forall|i: int| 0 <= i < rows.len() ==>
            (#[trigger] rows[i])@ == resampled_row(unix_timestamps, indices, weather_forecast, time_axis, i),
    ensures
        forall|i: int| 0 <= i < rows.len() ==> is_nearest(
            unix_timestamps[i] as int,
            time_axis,
            #[trigger] nearest_of(unix_timestamps[i] as int, time_axis),
        ),
        forall|i: int| 0 <= i < rows.len() ==>
            (#[trigger] rows[i])@ == weather_forecast[0]@[nearest_of(unix_timestamps[i] as int, time_axis)]@,
{
    assert forall|i: int| 0 <= i < rows.len() implies is_nearest(
        unix_timestamps[i] as int,
        time_axis,
        #[trigger] nearest_of(unix_timestamps[i] as int, time_axis),
    ) by {
        lemma_nearest_of_is_nearest(unix_timestamps[i] as int, time_axis);
    }
    assert forall|i: int| 0 <= i < rows.len() implies
        (#[trigger] rows[i])@ == weather_forecast[0]@[nearest_of(unix_timestamps[i] as int, time_axis)]@ by {
        assert(coordinate_in_range(indices, weather_forecast, i));
        assert(indices[i] == 0);
    }
}

} // verus!
