use fbw_systems::fdr_query::{find_column, query_from_columns};
use fbw_systems::fdr_reader::{DataPoint, TimeIndex};

fn bits(v: &[f64]) -> Vec<u64> {
    v.iter().map(|x| x.to_bits()).collect()
}

fn setup(n: usize) -> (TimeIndex, Vec<(String, Vec<u64>)>) {
    let times: Vec<f64> = (0..n).map(|i| i as f64).collect();
    let values: Vec<f64> = (0..n).map(|i| (i * 100) as f64).collect();
    let cols = vec![
        ("b.speed".to_string(), bits(&values)),
        ("a.alt".to_string(), bits(&values[..n / 2])),
    ];
    (TimeIndex::new(bits(&times)), cols)
}

fn points(series: &[DataPoint]) -> Vec<(f64, f64)> {
    series
        .iter()
        .map(|p| (f64::from_bits(p.time_s), f64::from_bits(p.value)))
        .collect()
}

#[test]
fn query_returns_sorted_keys_and_window_points() {
    let (ti, cols) = setup(10);
    let keys = vec!["b.speed".to_string(), "missing".to_string(), "a.alt".to_string()];
    let r = query_from_columns(&ti, &cols, &keys, 2.0f64.to_bits(), 4.0f64.to_bits(), 100);
    let names: Vec<&str> = r.iter().map(|(k, _)| k.as_str()).collect();
    assert_eq!(names, vec!["a.alt", "b.speed"]);
    assert_eq!(points(&r[1].1), vec![(2.0, 200.0), (3.0, 300.0), (4.0, 400.0)]);
    assert_eq!(points(&r[0].1), vec![(2.0, 200.0), (3.0, 300.0), (4.0, 400.0)]);
}

#[test]
fn shorter_columns_stop_early() {
    let (ti, cols) = setup(10);
    let keys = vec!["a.alt".to_string()];
    let r = query_from_columns(&ti, &cols, &keys, 3.0f64.to_bits(), 8.0f64.to_bits(), 100);
    assert_eq!(points(&r[0].1), vec![(3.0, 300.0), (4.0, 400.0)]);
}

#[test]
fn long_windows_are_strided() {
    let (ti, cols) = setup(10);
    let keys = vec!["b.speed".to_string()];
    let r = query_from_columns(&ti, &cols, &keys, 0.0f64.to_bits(), 9.0f64.to_bits(), 5);
    assert_eq!(
        points(&r[0].1),
        vec![(0.0, 0.0), (2.0, 200.0), (4.0, 400.0), (6.0, 600.0), (8.0, 800.0)]
    );
    // Ten records at most three per series: the stride is ten divided by three, rounded up.
    let r = query_from_columns(&ti, &cols, &keys, 0.0f64.to_bits(), 9.0f64.to_bits(), 3);
    assert_eq!(points(&r[0].1), vec![(0.0, 0.0), (4.0, 400.0), (8.0, 800.0)]);
    for max in 1..=12 {
        let r = query_from_columns(&ti, &cols, &keys, 0.0f64.to_bits(), 9.0f64.to_bits(), max);
        assert!(r[0].1.len() <= max);
        assert_eq!(r[0].1[0].time_s, 0.0f64.to_bits());
    }
}

#[test]
fn empty_windows_give_nothing() {
    let (ti, cols) = setup(10);
    let keys = vec!["b.speed".to_string()];
    let r = query_from_columns(&ti, &cols, &keys, 20.0f64.to_bits(), 30.0f64.to_bits(), 10);
    assert!(r.is_empty());
    let r = query_from_columns(&ti, &cols, &keys, 5.0f64.to_bits(), 2.0f64.to_bits(), 10);
    assert!(r.is_empty());
    let r = query_from_columns(&TimeIndex::empty(), &cols, &keys, 0, 0, 10);
    assert!(r.is_empty());
}

#[test]
fn end_time_between_records_includes_the_next_record() {
    let (ti, cols) = setup(10);
    let keys = vec!["b.speed".to_string()];
    let r = query_from_columns(&ti, &cols, &keys, 1.5f64.to_bits(), 2.5f64.to_bits(), 10);
    assert_eq!(points(&r[0].1), vec![(2.0, 200.0), (3.0, 300.0)]);
}

#[test]
fn find_column_takes_the_first_match() {
    let cols = vec![
        ("x".to_string(), vec![1u64]),
        ("y".to_string(), vec![2u64]),
        ("x".to_string(), vec![3u64]),
    ];
    let key: Vec<char> = "x".chars().collect();
    assert_eq!(find_column(&cols, &key), Some(&vec![1u64]));
    let key: Vec<char> = "z".chars().collect();
    assert_eq!(find_column(&cols, &key), None);
}

#[test]
fn zero_points_gives_empty_series() {
    let (ti, cols) = setup(10);
    let keys = vec!["b.speed".to_string(), "missing".to_string()];
    let r = query_from_columns(&ti, &cols, &keys, 0.0f64.to_bits(), 9.0f64.to_bits(), 0);
    assert_eq!(r.len(), 1);
    assert_eq!(r[0].0, "b.speed");
    assert!(r[0].1.is_empty());
}
