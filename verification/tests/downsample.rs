use fbw_systems::downsample::lttb;
use fbw_systems::fdr_reader::DataPoint;

fn p(t: f64, v: f64) -> DataPoint {
    DataPoint { time_s: t.to_bits(), value: v.to_bits() }
}

fn area(a: DataPoint, b: DataPoint, c: DataPoint) -> u64 {
    let (ax, ay) = (f64::from_bits(a.time_s), f64::from_bits(a.value));
    let (bx, by) = (f64::from_bits(b.time_s), f64::from_bits(b.value));
    let (cx, cy) = (f64::from_bits(c.time_s), f64::from_bits(c.value));
    ((bx - ax) * (cy - ay) - (cx - ax) * (by - ay)).abs().to_bits()
}

fn series(values: &[f64]) -> Vec<DataPoint> {
    values.iter().enumerate().map(|(i, v)| p(i as f64, *v)).collect()
}

#[test]
fn short_series_are_kept() {
    let input = vec![p(0.0, 1.0), p(1.0, 2.0), p(2.0, 3.0)];
    assert_eq!(lttb(&input, 3, area), input);
    assert_eq!(lttb(&input, 100, area), input);
    assert_eq!(lttb(&vec![], 0, area), vec![]);
}

#[test]
fn tiny_budgets() {
    let input = vec![p(0.0, 0.0), p(1.0, 5.0), p(2.0, 1.0)];
    assert_eq!(lttb(&input, 0, area), vec![]);
    assert_eq!(lttb(&input, 1, area), vec![p(0.0, 0.0)]);
    assert_eq!(lttb(&input, 2, area), vec![p(0.0, 0.0), p(2.0, 1.0)]);
}

#[test]
fn each_bucket_keeps_its_largest_triangle() {
    // Ten points, four kept: buckets 1..5 and 5..9.
    let input = series(&[0.0, 0.0, 0.0, 10.0, 0.0, 0.0, -8.0, 0.0, 0.0, 0.0]);
    let r = lttb(&input, 4, area);
    assert_eq!(r, vec![input[0], input[3], input[6], input[9]]);
}

#[test]
fn reductions_stay_within_budget_and_in_order() {
    let values: Vec<f64> = (0..57).map(|i| ((i * 37) % 11) as f64 - 5.0).collect();
    let input = series(&values);
    for max in 0..70 {
        let r = lttb(&input, max, area);
        assert!(r.len() <= max);
        if max >= input.len() {
            assert_eq!(r, input);
        } else if max >= 2 {
            assert_eq!(r.len(), max);
            assert_eq!(r[0], input[0]);
            assert_eq!(*r.last().unwrap(), *input.last().unwrap());
            for w in r.windows(2) {
                assert!(f64::from_bits(w[0].time_s) < f64::from_bits(w[1].time_s));
            }
        }
    }
}

#[test]
fn nan_areas_never_win() {
    let input = series(&[0.0, 1.0, 2.0, 3.0, 4.0]);
    let nan_area = |_: DataPoint, _: DataPoint, _: DataPoint| f64::NAN.to_bits();
    assert_eq!(lttb(&input, 3, nan_area), vec![input[0], input[1], input[4]]);
}
