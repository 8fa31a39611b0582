//! Exporting queried series: the rows of a CSV export.
use vstd::prelude::*;

use crate::fdr_query::series_view;
use crate::fdr_reader::{AircraftType, DataPoint, FileMetadata};

verus! {

/// One row of a CSV export, before number formatting.
#[derive(Clone, Copy, PartialEq, Eq, Structural, Debug)]
pub enum ExportRow {
    /// "# FDR Analyzer Export"
    Title,
    /// "# File: {path}"
    File,
    /// "# Aircraft: {type}", present when the aircraft type is known.
    Aircraft(AircraftType),
    /// "# Records: {n} ({start}s - {end}s)"
    Records { total_records: usize, time_start_s: u64, time_end_s: u64 },
    /// The header row "time_s,value".
    Header,
    /// "## {key}" before the points of the series at this index of the series list.
    Marker(usize),
    /// One data point.
    Point(DataPoint),
}

/// The rows that introduce an export: title, file, aircraft (when known), record summary
/// and header.
pub open spec fn preamble_rows(meta: FileMetadata) -> Seq<ExportRow> {
    let aircraft = match meta.aircraft_type {
        Some(a) => seq![ExportRow::Aircraft(a)],
        None => Seq::empty(),
    };
    seq![ExportRow::Title, ExportRow::File] + aircraft + seq![
        ExportRow::Records {
            total_records: meta.total_records,
            time_start_s: meta.time_start_s,
            time_end_s: meta.time_end_s,
        },
        ExportRow::Header,
    ]
}

/// The rows of the series, in order: each non-empty series as its marker followed by its
/// points; empty series are skipped.
pub open spec fn series_rows(series: Seq<(Seq<char>, Seq<DataPoint>)>) -> Seq<ExportRow>
    decreases series.len(),
{
    if series.len() == 0 {
        Seq::empty()
    } else {
        let prev = series_rows(series.drop_last());
        let s = series.last().1;
        if s.len() > 0 {
            prev + seq![ExportRow::Marker((series.len() - 1) as usize)] + s.map_values(
                |p: DataPoint| ExportRow::Point(p),
            )
        } else {
            prev
        }
    }
}

/// The rows of a CSV export of `series` from a recording described by `meta`.
pub fn export_rows(meta: &FileMetadata, series: &Vec<(String, Vec<DataPoint>)>) -> (r: Vec<ExportRow>)
    ensures
        r@ == preamble_rows(*meta) + series_rows(series_view(series@)),
{
    let mut rows: Vec<ExportRow> = Vec::new();
    rows.push(ExportRow::Title);
    rows.push(ExportRow::File);
    match meta.aircraft_type {
        Some(a) => rows.push(ExportRow::Aircraft(a)),
        None => {},
    }
    rows.push(
        ExportRow::Records {
            total_records: meta.total_records,
            time_start_s: meta.time_start_s,
            time_end_s: meta.time_end_s,
        },
    );
    rows.push(ExportRow::Header);
    assert(rows@ =~= preamble_rows(*meta));
    let ghost pre = rows@;
    let mut i: usize = 0;
    while i < series.len()
        invariant
            i <= series.len(),
            rows@ == pre + series_rows(series_view(series@).take(i as int)),
        decreases series.len() - i,
    {
        let ghost next = series_view(series@).take(i + 1);
        assert(next.drop_last() =~= series_view(series@).take(i as int));
        assert(next.last() == (series@[i as int].0@, series@[i as int].1@));
        let points = &series[i].1;
        if points.len() > 0 {
            let ghost before = rows@;
            rows.push(ExportRow::Marker(i));
            let mut k: usize = 0;
            while k < points.len()
                invariant
                    k <= points.len(),
                    rows@ == before + seq![ExportRow::Marker(i)] + points@.take(k as int).map_values(
                        |p: DataPoint| ExportRow::Point(p),
                    ),
                decreases points.len() - k,
            {
                rows.push(ExportRow::Point(points[k]));
                k = k + 1;
                assert(rows@ =~= before + seq![ExportRow::Marker(i)] + points@.take(k as int).map_values(
                    |p: DataPoint| ExportRow::Point(p),
                ));
            }
            assert(points@.take(points.len() as int) =~= points@);
        }
        i = i + 1;
        assert(rows@ =~= pre + series_rows(next));
    }
    assert(series_view(series@).take(series.len() as int) =~= series_view(series@));
    rows
}

/// All points of all series with their series' key, series in order.
pub open spec fn flatten_rows(series: Seq<(Seq<char>, Seq<DataPoint>)>) -> Seq<(Seq<char>, DataPoint)>
    decreases series.len(),
{
    if series.len() == 0 {
        Seq::empty()
    } else {
        flatten_rows(series.drop_last()) + series.last().1.map_values(
            |p: DataPoint| (series.last().0, p),
        )
    }
}

/// Collects all data points across the series as (key, point) rows.
pub fn collect_csv_rows<'a>(series_map: &'a Vec<(String, Vec<DataPoint>)>) -> (r: Vec<(&'a str, DataPoint)>)
    ensures
        r@.map_values(|e: (&'a str, DataPoint)| (e.0@, e.1)) == flatten_rows(series_view(series_map@)),
{
    let mut rows: Vec<(&'a str, DataPoint)> = Vec::new();
    let mut i: usize = 0;
    while i < series_map.len()
        invariant
            i <= series_map.len(),
            rows@.map_values(|e: (&'a str, DataPoint)| (e.0@, e.1)) == flatten_rows(
                series_view(series_map@).take(i as int),
            ),
        decreases series_map.len() - i,
    {
        let ghost next = series_view(series_map@).take(i + 1);
        assert(next.drop_last() =~= series_view(series_map@).take(i as int));
        let key: &'a str = series_map[i].0.as_str();
        let points = &series_map[i].1;
        assert(next.last() == (key@, points@));
        let ghost before = rows@.map_values(|e: (&'a str, DataPoint)| (e.0@, e.1));
        let mut k: usize = 0;
        while k < points.len()
            invariant
                k <= points.len(),
                rows@.map_values(|e: (&'a str, DataPoint)| (e.0@, e.1)) == before + points@.take(
                    k as int,
                ).map_values(|p: DataPoint| (key@, p)),
            decreases points.len() - k,
        {
            let ghost old_rows = rows@;
            let pt = points[k];
            rows.push((key, pt));
            assert(rows@.map_values(|e: (&'a str, DataPoint)| (e.0@, e.1)) =~= old_rows.map_values(
                |e: (&'a str, DataPoint)| (e.0@, e.1),
            ).push((key@, pt)));
            assert(points@.take(k + 1) =~= points@.take(k as int).push(pt));
            k = k + 1;
            assert(rows@.map_values(|e: (&'a str, DataPoint)| (e.0@, e.1)) =~= before + points@.take(
                k as int,
            ).map_values(|p: DataPoint| (key@, p)));
        }
        assert(points@.take(points.len() as int) =~= points@);
        i = i + 1;
        assert(rows@.map_values(|e: (&'a str, DataPoint)| (e.0@, e.1)) =~= flatten_rows(next));
    }
    assert(series_view(series_map@).take(series_map.len() as int) =~= series_view(series_map@));
    rows
}

} // verus!
