use fbw_systems::fdr_csv::open_csv_records;
use fbw_systems::fdr_store::{is_csv_extension, FdrStore};

fn open_store() -> FdrStore {
    let headers = vec!["base.simulation_time_s".to_string(), "v".to_string()];
    let rows: Vec<Vec<Option<u64>>> = (0..5)
        .map(|i| vec![Some((i as f64).to_bits()), Some((i as f64 * 2.0).to_bits())])
        .collect();
    let mut store = FdrStore::new();
    match open_csv_records(&headers, &rows) {
        Ok(state) => store.set_state(state),
        Err(_) => panic!("csv rejected"),
    }
    store
}

#[test]
fn closed_store_answers_nothing() {
    let store = FdrStore::new();
    assert!(!store.is_open());
    assert!(store.metadata().is_none());
    assert!(store.time_index().is_none());
    assert!(store.parameters().is_empty());
    assert!(store.query_range(&vec!["v".to_string()], 0, 0, 10).is_empty());
    assert!(store.query_range(&vec!["v".to_string()], 0, 0, 0).is_empty());
    assert!(!FdrStore::default().is_open());
}

#[test]
fn open_store_queries_its_recording() {
    let mut store = open_store();
    assert!(store.is_open());
    assert_eq!(store.metadata().unwrap().total_records, 5);
    assert_eq!(store.time_index().unwrap().len(), 5);
    assert_eq!(store.parameters().len(), 2);
    let r = store.query_range(&vec!["v".to_string()], 1.0f64.to_bits(), 3.0f64.to_bits(), 10);
    assert_eq!(r.len(), 1);
    let vals: Vec<f64> = r[0].1.iter().map(|p| f64::from_bits(p.value)).collect();
    assert_eq!(vals, vec![2.0, 4.0, 6.0]);
    let r = store.query_range(&vec!["v".to_string()], 0.0f64.to_bits(), 4.0f64.to_bits(), 0);
    assert!(r[0].1.is_empty());
    store.close();
    assert!(!store.is_open());
}

#[test]
fn csv_extension_ignores_case() {
    assert!(is_csv_extension("csv"));
    assert!(is_csv_extension("CSV"));
    assert!(is_csv_extension("cSv"));
    assert!(!is_csv_extension("fdr"));
    assert!(!is_csv_extension(""));
    assert!(!is_csv_extension("csv2"));
}
