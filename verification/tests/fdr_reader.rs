use std::io::Write;

use fbw_systems::fdr_reader::{
    aircraft_type_for_version, open_fdr_bytes, parse_records, read_a320_columns, read_a380_columns,
    record_size, AircraftType,
    FdrError, FdrFileState, TimeIndex, A320_RECORD_SIZE, A380_MIN_VERSION, A380_RECORD_SIZE,
};

fn put(record: &mut [u8], offset: usize, value: f64) {
    record[offset..offset + 8].copy_from_slice(&value.to_ne_bytes());
}

/// A decompressed recording: the version, then one record per time, each with the time
/// at offset 0 and the pressure altitude (offset 200) set to ten times the time.
fn stream(version: u64, size: usize, times: &[f64], trailing: usize) -> Vec<u8> {
    let mut out = version.to_ne_bytes().to_vec();
    for t in times {
        let mut rec = vec![0u8; size];
        put(&mut rec, 0, *t);
        put(&mut rec, 200, *t * 10.0);
        out.extend_from_slice(&rec);
    }
    out.extend(std::iter::repeat(0xAAu8).take(trailing));
    out
}

fn gzip(data: &[u8]) -> Vec<u8> {
    let mut enc = flate2::write::GzEncoder::new(Vec::new(), flate2::Compression::default());
    enc.write_all(data).unwrap();
    enc.finish().unwrap()
}

fn column(state: &FdrFileState, key: &str) -> Vec<f64> {
    state
        .columns
        .iter()
        .find(|(k, _)| k == key)
        .map(|(_, v)| v.iter().map(|b| f64::from_bits(*b)).collect())
        .unwrap()
}

fn expect_ok(r: Result<FdrFileState, FdrError>) -> FdrFileState {
    match r {
        Ok(s) => s,
        Err(_) => panic!("recording rejected"),
    }
}

#[test]
fn aircraft_and_record_size_from_version() {
    assert_eq!(aircraft_type_for_version(A380_MIN_VERSION), AircraftType::A320);
    assert_eq!(aircraft_type_for_version(A380_MIN_VERSION + 1), AircraftType::A380);
    assert_eq!(record_size(AircraftType::A320), A320_RECORD_SIZE);
    assert_eq!(record_size(AircraftType::A380), A380_RECORD_SIZE);
    assert_eq!(A320_RECORD_SIZE, 1848);
    assert_eq!(A380_RECORD_SIZE, 2176);
}

#[test]
fn a380_stream_is_parsed_into_columns() {
    let data = stream(3_900_000, A380_RECORD_SIZE, &[1.0, 2.0, 3.5], 100);
    let state = expect_ok(parse_records(&data));
    assert_eq!(state.metadata.aircraft_type, Some(AircraftType::A380));
    assert_eq!(state.metadata.interface_version, 3_900_000);
    assert_eq!(state.metadata.total_records, 3);
    assert_eq!(f64::from_bits(state.metadata.time_start_s), 1.0);
    assert_eq!(f64::from_bits(state.metadata.time_end_s), 3.5);
    assert_eq!(state.time_index.len(), 3);
    assert_eq!(state.time_index.get_time(2), Some(3.5f64.to_bits()));
    assert_eq!(column(&state, "base.aircraft_H_pressure_ft"), vec![10.0, 20.0, 35.0]);
    assert_eq!(column(&state, "base.simulation_time_s"), vec![1.0, 2.0, 3.5]);
    assert_eq!(state.columns.len(), 19);
    assert_eq!(state.parameters.len(), 19);
    let keys: Vec<&str> = state.columns.iter().map(|(k, _)| k.as_str()).collect();
    let param_keys: Vec<&str> = state.parameters.iter().map(|p| p.key.as_str()).collect();
    assert_eq!(keys, param_keys);
}

#[test]
fn a320_stream_has_the_ambient_pressure_column() {
    let data = stream(3_000_000, A320_RECORD_SIZE, &[0.5, 0.75], 0);
    let state = expect_ok(parse_records(&data));
    assert_eq!(state.metadata.aircraft_type, Some(AircraftType::A320));
    assert_eq!(state.columns.len(), 20);
    assert_eq!(column(&state, "base.atmosphere_ambient_pressure_mbar"), vec![0.0, 0.0]);
    assert_eq!(state.parameters.last().unwrap().key, "base.atmosphere_ambient_pressure_mbar");
}

#[test]
fn short_streams_are_rejected() {
    assert!(matches!(parse_records(&[1, 2, 3]), Err(FdrError::MissingVersion)));
    let data = stream(3_900_000, A380_RECORD_SIZE, &[], A380_RECORD_SIZE - 1);
    assert!(matches!(parse_records(&data), Err(FdrError::TooSmall)));
}

#[test]
fn compressed_recording_is_opened() {
    let data = stream(3_900_000, A380_RECORD_SIZE, &[4.0, 5.0], 7);
    let state = expect_ok(open_fdr_bytes(&gzip(&data)));
    assert_eq!(state.metadata.total_records, 2);
    assert_eq!(column(&state, "base.aircraft_H_pressure_ft"), vec![40.0, 50.0]);
}

#[test]
fn invalid_gzip_is_a_decompression_error() {
    assert!(matches!(open_fdr_bytes(b"not a gzip stream"), Err(FdrError::Decompress(_))));
    assert!(matches!(open_fdr_bytes(&gzip(&[1, 2, 3, 4])), Err(FdrError::MissingVersion)));
}

#[test]
fn time_index_search() {
    let times: Vec<u64> = [0.0f64, 1.0, 2.0, 3.0].iter().map(|t| t.to_bits()).collect();
    let ti = TimeIndex::new(times);
    assert_eq!(ti.find_index(1.5f64.to_bits()), 2);
    assert_eq!(ti.find_index(2.0f64.to_bits()), 2);
    assert_eq!(ti.find_index((-1.0f64).to_bits()), 0);
    assert_eq!(ti.find_index(9.0f64.to_bits()), 4);
    assert_eq!(ti.time_range(), (0.0f64.to_bits(), 3.0f64.to_bits()));
    assert!(!ti.is_empty());
    assert_eq!(ti.get_time(4), None);
    let e = TimeIndex::empty();
    assert!(e.is_empty());
    assert_eq!(e.time_range(), (0, 0));
}

#[test]
fn columns_are_read_for_any_record_size() {
    // Two records of 304 bytes: the smallest size that holds every A320 field.
    let mut data = vec![0u8; 608];
    put(&mut data, 0, 7.0);
    put(&mut data, 296, 1013.25);
    put(&mut data, 304, 8.0);
    put(&mut data, 304 + 296, 990.0);
    let (params, cols) = read_a320_columns(&data, 304, 2);
    assert_eq!(params.len(), 20);
    assert_eq!(cols.len(), 20);
    let keys: Vec<&str> = cols.iter().map(|(k, _)| k.as_str()).collect();
    let param_keys: Vec<&str> = params.iter().map(|p| p.key.as_str()).collect();
    assert_eq!(keys, param_keys);
    let bits = |x: f64| x.to_bits();
    assert_eq!(cols[0].1, vec![bits(7.0), bits(8.0)]);
    assert_eq!(cols[19].1, vec![bits(1013.25), bits(990.0)]);
    // A field beyond the data reads as 0.
    let (_, short) = read_a380_columns(&data[..300], 304, 1);
    assert_eq!(short.len(), 19);
    assert_eq!(short[0].1, vec![bits(7.0)]);
    assert_eq!(short[18].1, vec![0]);
}
