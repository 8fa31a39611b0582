use fbw_systems::fdr_csv::{
    assemble_csv_columns, csv_parameters, csv_time_column, open_csv_records, read_csv_text,
};
use fbw_systems::fdr_reader::{FdrError, FdrFileState};

fn headers(v: &[&str]) -> Vec<String> {
    v.iter().map(|s| s.to_string()).collect()
}

fn f(x: f64) -> Option<u64> {
    Some(x.to_bits())
}

fn expect_ok(r: Result<FdrFileState, FdrError>) -> FdrFileState {
    match r {
        Ok(s) => s,
        Err(_) => panic!("csv rejected"),
    }
}

fn column(state: &FdrFileState, key: &str) -> Vec<f64> {
    state
        .columns
        .iter()
        .rev()
        .find(|(k, _)| k == key)
        .map(|(_, v)| v.iter().map(|b| f64::from_bits(*b)).collect())
        .unwrap()
}

#[test]
fn time_column_is_the_first_containing_the_marker() {
    let h = headers(&["a.x", "base.simulation_time_s", "other_simulation_time_s"]);
    assert_eq!(csv_time_column(&h), Some(1));
    assert_eq!(csv_time_column(&headers(&["a", "b"])), None);
}

#[test]
fn csv_without_time_column_is_rejected() {
    let r = open_csv_records(&headers(&["a.x", "b.y"]), &vec![vec![f(1.0), f(2.0)]]);
    assert!(matches!(r, Err(FdrError::NoTimeColumn)));
}

#[test]
fn csv_rows_become_columns() {
    let h = headers(&["base.simulation_time_s", "base.aircraft_V_true_kn", "specific.flaps"]);
    let rows = vec![
        vec![f(10.0), f(250.0), f(1.0)],
        vec![f(11.0), None, f(2.0)],
        vec![f(12.0), f(260.0)],
    ];
    let state = expect_ok(open_csv_records(&h, &rows));
    assert_eq!(state.metadata.aircraft_type, None);
    assert_eq!(state.metadata.interface_version, 0);
    assert_eq!(state.metadata.total_records, 3);
    assert_eq!(f64::from_bits(state.metadata.time_start_s), 10.0);
    assert_eq!(f64::from_bits(state.metadata.time_end_s), 12.0);
    assert_eq!(state.time_index.len(), 3);
    assert_eq!(column(&state, "base.aircraft_V_true_kn"), vec![250.0, 0.0, 260.0]);
    assert_eq!(column(&state, "specific.flaps"), vec![1.0, 2.0, 0.0]);
    // The time column's values moved to the time index.
    assert_eq!(column(&state, "base.simulation_time_s"), Vec::<f64>::new());
    assert_eq!(state.parameters.len(), 3);
    assert_eq!(state.parameters[1].display_name, "Aircraft V True");
    assert_eq!(state.parameters[1].unit, "kt");
    assert_eq!(state.parameters[2].group, "Aircraft Systems");
}

#[test]
fn repeated_headers_keep_the_last_column() {
    let h = headers(&["t.simulation_time_s", "x", "x"]);
    let rows = vec![vec![f(0.0), f(1.0), f(2.0)]];
    let state = expect_ok(open_csv_records(&h, &rows));
    let first: Vec<f64> = state
        .columns
        .iter()
        .find(|(k, _)| k == "x")
        .map(|(_, v)| v.iter().map(|b| f64::from_bits(*b)).collect())
        .unwrap();
    assert_eq!(first, vec![2.0]);
}

#[test]
fn empty_csv_has_no_records() {
    let state = expect_ok(open_csv_records(&headers(&["simulation_time_s"]), &vec![]));
    assert_eq!(state.metadata.total_records, 0);
    assert_eq!(state.metadata.time_start_s, 0);
    assert_eq!(state.metadata.time_end_s, 0);
}

#[test]
fn helpers() {
    let cols = assemble_csv_columns(2, &vec![vec![f(1.0)], vec![None, f(3.0), f(4.0)]]);
    assert_eq!(cols, vec![vec![1.0f64.to_bits(), 0], vec![0, 3.0f64.to_bits()]]);
    let params = csv_parameters(&headers(&["base.aircraft_Theta_deg"]));
    assert_eq!(params[0].key, "base.aircraft_Theta_deg");
    assert_eq!(params[0].group, "Attitude");
    assert_eq!(params[0].display_name, "Aircraft Theta");
    assert_eq!(params[0].unit, "°");
}

#[test]
fn csv_text_is_read_and_cut_to_the_headers() {
    let data = b"base.simulation_time_s,alt\n1.5,100\n2.5\n3.5,300,extra\n";
    match read_csv_text(data) {
        Ok((h, rows)) => {
            assert_eq!(h, vec!["base.simulation_time_s".to_string(), "alt".to_string()]);
            assert_eq!(
                rows,
                vec![
                    vec!["1.5".to_string(), "100".to_string()],
                    vec!["2.5".to_string()],
                    vec!["3.5".to_string(), "300".to_string()],
                ]
            );
        }
        Err(_) => panic!("csv rejected"),
    }
}

#[test]
fn csv_text_errors() {
    assert!(matches!(read_csv_text(b"a,b\n1,2\n"), Err(FdrError::NoTimeColumn)));
    assert!(matches!(read_csv_text(b"x,\xff\xfe\n1,2\n"), Err(FdrError::Csv(_))));
    assert!(matches!(
        read_csv_text(b"simulation_time_s,b\n1,\xff\n"),
        Err(FdrError::Csv(_))
    ));
    match read_csv_text(b"simulation_time_s\n") {
        Ok((h, rows)) => {
            assert_eq!(h.len(), 1);
            assert!(rows.is_empty());
        }
        Err(_) => panic!("csv rejected"),
    }
}
