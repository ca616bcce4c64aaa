use rust_simulation::calendar::calculate_array_ghi_times;
use rust_simulation::error::KernelError;
use rust_simulation::nearest::{closest_timestamp_indices, nearest_index};
use rust_simulation::segment::{closest_gis_indices_loop, closest_weather_indices_loop, distance_key};
use rust_simulation::weather::{time_axis_column, weather_in_time};

fn keys(values: &[f64]) -> Vec<u64> {
    values.iter().map(|v| distance_key(v.to_bits())).collect()
}

#[test]
fn walker_scenario_both_policies() {
    let table = keys(&[10.0, 25.0, 40.0]);
    let dist = keys(&[5.0, 10.0, 10.1, 30.0, 999.0]);
    assert_eq!(closest_gis_indices_loop(&dist, &table), vec![0, 0, 1, 2, 2]);
    assert_eq!(closest_weather_indices_loop(&dist, &table), vec![0, 0, 1, 2, 2]);
}

#[test]
fn walker_output_nondecreasing_and_in_range() {
    let table = keys(&[1.0, 2.0, 3.0, 4.0]);
    let dist = keys(&[0.0, 0.5, 1.5, 1.5, 2.0, 7.0, 8.0, 9.0, 100.0]);
    for r in [closest_gis_indices_loop(&dist, &table), closest_weather_indices_loop(&dist, &table)] {
        assert_eq!(r.len(), dist.len());
        for w in r.windows(2) {
            assert!(w[0] <= w[1]);
        }
        for &x in &r {
            assert!(x <= 3);
        }
    }
}

#[test]
fn walker_advances_one_segment_per_element() {
    let table = keys(&[1.0, 2.0, 3.0]);
    let dist = keys(&[100.0, 100.0, 100.0, 100.0]);
    assert_eq!(closest_gis_indices_loop(&dist, &table), vec![1, 2, 2, 2]);
    assert_eq!(closest_weather_indices_loop(&dist, &table), vec![1, 2, 2, 2]);
}

#[test]
fn walker_below_first_boundary_is_zero() {
    let table = keys(&[50.0, 60.0]);
    let dist = keys(&[0.0, 10.0, 49.9]);
    assert_eq!(closest_gis_indices_loop(&dist, &table), vec![0, 0, 0]);
    assert_eq!(closest_weather_indices_loop(&dist, &table), vec![0, 0, 0]);
}

#[test]
fn walker_single_segment_table() {
    let table = keys(&[5.0]);
    let dist = keys(&[1.0, 6.0, 600.0]);
    assert_eq!(closest_gis_indices_loop(&dist, &table), vec![0, 0, 0]);
    assert_eq!(closest_weather_indices_loop(&dist, &table), vec![0, 0, 0]);
}

#[test]
fn walker_empty_distances() {
    let table = keys(&[5.0]);
    assert!(closest_gis_indices_loop(&vec![], &table).is_empty());
    assert!(closest_weather_indices_loop(&vec![], &table).is_empty());
}

#[test]
fn distance_key_preserves_order() {
    let values = [-3.5, -1.0, -0.0, 0.0, 1e-300, 0.5, 1.0, 2.0, 1e300];
    for a in values {
        for b in values {
            let ka = distance_key(f64::to_bits(a));
            let kb = distance_key(f64::to_bits(b));
            assert_eq!(a > b, ka > kb, "{} {}", a, b);
            assert_eq!(a == b, ka == kb, "{} {}", a, b);
        }
    }
    assert_eq!(distance_key(0.0f64.to_bits()), 0x8000_0000_0000_0000);
    assert_eq!(distance_key((-0.0f64).to_bits()), 0x8000_0000_0000_0000);
}

#[test]
fn nearest_tie_takes_lowest_index() {
    assert_eq!(closest_timestamp_indices(&vec![150], &vec![100, 200]), Ok(vec![0]));
    assert_eq!(closest_timestamp_indices(&vec![250], &vec![100, 200, 300]), Ok(vec![1]));
}

#[test]
fn nearest_unsorted_references() {
    let refs = vec![300, 100, 200, 1000, -50];
    assert_eq!(closest_timestamp_indices(&vec![0, 120, 260, 900, 5000, -1000], &refs), Ok(vec![4, 1, 0, 3, 3, 4]));
    assert_eq!(nearest_index(199, &refs), 2);
}

#[test]
fn nearest_is_minimal_for_every_target() {
    let refs = vec![17, -4, 99, 42, 42, 8];
    for t in -20..120 {
        let j = nearest_index(t, &refs);
        for (k, &r) in refs.iter().enumerate() {
            let dj = (t - refs[j]).abs();
            let dk = (t - r).abs();
            assert!(dj <= dk);
            if k < j {
                assert!(dj < dk);
            }
        }
    }
}

#[test]
fn nearest_extreme_values_do_not_overflow() {
    assert_eq!(nearest_index(i64::MIN, &vec![i64::MAX, 0]), 1);
    assert_eq!(nearest_index(i64::MAX, &vec![i64::MIN, i64::MAX]), 1);
}

#[test]
fn nearest_empty_reference_is_an_error() {
    assert_eq!(closest_timestamp_indices(&vec![1, 2], &vec![]), Err(KernelError::EmptyReference));
    assert_eq!(closest_timestamp_indices(&vec![], &vec![]), Err(KernelError::EmptyReference));
    assert_eq!(closest_timestamp_indices(&vec![], &vec![5]), Ok(vec![]));
}

#[test]
fn ghi_times_march_first_leap_year() {
    // 2024-03-01T12:30:00Z
    let (days, seconds) = calculate_array_ghi_times(&vec![1709296200]).unwrap();
    assert_eq!(days, vec![61]);
    assert_eq!(seconds[0] as f64 / 3600.0, 12.5);
}

#[test]
fn ghi_times_several_instants() {
    // 1970-01-01T00:00:00Z, 2023-12-31T23:59:59Z, 2024-12-31T06:00:00Z
    let (days, seconds) = calculate_array_ghi_times(&vec![0, 1704067199, 1735624800]).unwrap();
    assert_eq!(days, vec![1, 365, 366]);
    assert_eq!(seconds, vec![0, 86399, 21600]);
}

#[test]
fn ghi_times_calendar_range_edge() {
    // 262142-12-31T23:59:59Z is the last instant of the calendar's range
    let last: u64 = 8210266876799;
    assert_eq!(calculate_array_ghi_times(&vec![last]), Ok((vec![365], vec![86399])));
    assert_eq!(calculate_array_ghi_times(&vec![last + 1]), Err(KernelError::InvalidTimestamp));
    // 2000-02-29T01:00:00Z, a leap day in a century year
    assert_eq!(calculate_array_ghi_times(&vec![951786000]), Ok((vec![60], vec![3600])));
}

#[test]
fn ghi_times_empty_input() {
    assert_eq!(calculate_array_ghi_times(&vec![]), Ok((vec![], vec![])));
}

#[test]
fn ghi_times_invalid_timestamp() {
    assert_eq!(calculate_array_ghi_times(&vec![0, u64::MAX]), Err(KernelError::InvalidTimestamp));
    assert_eq!(calculate_array_ghi_times(&vec![i64::MAX as u64]), Err(KernelError::InvalidTimestamp));
}

fn forecast_single() -> Vec<Vec<Vec<f64>>> {
    // one coordinate, three time samples, fields (value, timestamp)
    vec![vec![vec![1.0, 100.0], vec![2.0, 200.0], vec![3.0, 300.0]]]
}

#[test]
fn weather_single_coordinate_nearest_rows() {
    let forecast = forecast_single();
    let axis: Vec<i64> = time_axis_column(&forecast, 1).unwrap().iter().map(|&x| x as i64).collect();
    assert_eq!(axis, vec![100, 200, 300]);
    let rows = weather_in_time(&vec![90, 160, 250, 400], &vec![0, 0, 0, 0], &forecast, &axis).unwrap();
    assert_eq!(rows, vec![vec![1.0, 100.0], vec![2.0, 200.0], vec![2.0, 200.0], vec![3.0, 300.0]]);
}

#[test]
fn weather_uses_coordinate_of_each_point() {
    let forecast = vec![
        vec![vec![1.0, 10.0], vec![2.0, 20.0]],
        vec![vec![5.0, 10.0], vec![6.0, 20.0]],
    ];
    let axis: Vec<i64> = time_axis_column(&forecast, 1).unwrap().iter().map(|&x| x as i64).collect();
    let rows = weather_in_time(&vec![11, 19, 19], &vec![0, 0, 1], &forecast, &axis).unwrap();
    assert_eq!(rows, vec![vec![1.0, 10.0], vec![2.0, 20.0], vec![6.0, 20.0]]);
}

#[test]
fn weather_errors() {
    let forecast = forecast_single();
    let axis = vec![100, 200, 300];
    assert_eq!(weather_in_time(&vec![1, 2], &vec![0], &forecast, &axis), Err(KernelError::ShapeMismatch));
    assert_eq!(weather_in_time(&vec![1], &vec![0], &forecast, &vec![]), Err(KernelError::EmptyReference));
    assert_eq!(weather_in_time(&vec![1], &vec![1], &forecast, &axis), Err(KernelError::IndexOutOfRange));
    assert_eq!(weather_in_time(&vec![1], &vec![-1], &forecast, &axis), Err(KernelError::IndexOutOfRange));
    assert_eq!(weather_in_time(&vec![1], &vec![0], &forecast, &vec![100, 200]), Err(KernelError::ShapeMismatch));
    assert_eq!(time_axis_column(&forecast, 2), Err(KernelError::ShapeMismatch));
    assert_eq!(weather_in_time(&vec![1], &vec![3], &forecast, &vec![]), Err(KernelError::IndexOutOfRange));
    let empty: Vec<Vec<Vec<f64>>> = vec![];
    assert_eq!(time_axis_column(&empty, 0), Ok(vec![]));
    assert_eq!(weather_in_time(&vec![1], &vec![0], &empty, &vec![]), Err(KernelError::IndexOutOfRange));
}

#[test]
fn weather_empty_batch_gives_no_rows() {
    let no_samples: Vec<Vec<Vec<f64>>> = vec![vec![], vec![]];
    let axis: Vec<i64> = time_axis_column(&no_samples, 4).unwrap().iter().map(|&x| x as i64).collect();
    assert!(axis.is_empty());
    assert_eq!(weather_in_time(&vec![], &vec![], &no_samples, &axis), Ok(vec![]));
    let empty: Vec<Vec<Vec<f64>>> = vec![];
    assert_eq!(weather_in_time(&vec![], &vec![], &empty, &vec![]), Ok(vec![]));
    assert_eq!(weather_in_time(&vec![], &vec![], &forecast_single(), &vec![100, 200, 300]), Ok(vec![]));
}
