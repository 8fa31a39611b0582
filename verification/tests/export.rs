use fbw_systems::export::{collect_csv_rows, export_rows, ExportRow};
use fbw_systems::fdr_reader::{AircraftType, DataPoint, FileMetadata};

fn p(t: f64, v: f64) -> DataPoint {
    DataPoint { time_s: t.to_bits(), value: v.to_bits() }
}

fn meta(aircraft: Option<AircraftType>) -> FileMetadata {
    FileMetadata {
        aircraft_type: aircraft,
        interface_version: 1,
        total_records: 7,
        time_start_s: 1.0f64.to_bits(),
        time_end_s: 2.0f64.to_bits(),
    }
}

#[test]
fn export_rows_skip_empty_series() {
    let series = vec![
        ("a".to_string(), vec![p(1.0, 10.0), p(2.0, 20.0)]),
        ("b".to_string(), vec![]),
        ("c".to_string(), vec![p(3.0, 30.0)]),
    ];
    let rows = export_rows(&meta(Some(AircraftType::A380)), &series);
    assert_eq!(
        rows,
        vec![
            ExportRow::Title,
            ExportRow::File,
            ExportRow::Aircraft(AircraftType::A380),
            ExportRow::Records {
                total_records: 7,
                time_start_s: 1.0f64.to_bits(),
                time_end_s: 2.0f64.to_bits()
            },
            ExportRow::Header,
            ExportRow::Marker(0),
            ExportRow::Point(p(1.0, 10.0)),
            ExportRow::Point(p(2.0, 20.0)),
            ExportRow::Marker(2),
            ExportRow::Point(p(3.0, 30.0)),
        ]
    );
}

#[test]
fn export_without_aircraft_has_no_aircraft_row() {
    let rows = export_rows(&meta(None), &vec![]);
    assert_eq!(rows.len(), 4);
    assert!(!rows.iter().any(|r| matches!(r, ExportRow::Aircraft(_))));
}

#[test]
fn csv_rows_flatten_all_series() {
    let series = vec![
        ("a".to_string(), vec![p(1.0, 10.0)]),
        ("b".to_string(), vec![]),
        ("c".to_string(), vec![p(3.0, 30.0), p(4.0, 40.0)]),
    ];
    let rows = collect_csv_rows(&series);
    assert_eq!(rows, vec![("a", p(1.0, 10.0)), ("c", p(3.0, 30.0)), ("c", p(4.0, 40.0))]);
}
