//! Recordings exported as CSV: one column per recorded field, named by its header, with
//! a time column whose header contains "simulation_time_s".
use vstd::prelude::*;

use crate::fdr_query::column_lookup;
use crate::fdr_reader::{
    columns_view, first_or_zero, last_or_zero, FdrError, FdrFileState, FileMetadata, TimeIndex,
};
use crate::parameters::{
    infer_group, infer_group_spec, param_views, parse_header_name, parse_header_name_spec,
    ParameterInfo, ParameterSpec,
};
use crate::text::{chars_contain, chars_equal, chars_of, contains_seq};

verus! {

broadcast use vstd::string::group_string_axioms;

/// The views of a sequence of strings.
pub open spec fn string_views(v: Seq<String>) -> Seq<Seq<char>> {
    v.map_values(|s: String| s@)
}

/// The index of the first header containing "simulation_time_s", if any.
pub open spec fn time_column_spec(headers: Seq<Seq<char>>, from: int) -> Option<int>
    decreases headers.len() - from,
{
    if from < 0 || from >= headers.len() {
        None
    } else if contains_seq(headers[from], "simulation_time_s"@) {
        Some(from)
    } else {
        time_column_spec(headers, from + 1)
    }
}

/// The parameter described by a CSV header.
pub open spec fn csv_param_spec(h: Seq<char>) -> ParameterSpec {
    ParameterSpec {
        display_name: parse_header_name_spec(h).0,
        key: h,
        group: infer_group_spec(h),
        unit: parse_header_name_spec(h).1,
    }
}

/// The value of column `c` in a row: the parsed field, or 0 when the field is missing or
/// does not parse as a number.
pub open spec fn field_value(row: Seq<Option<u64>>, c: int) -> u64 {
    if 0 <= c < row.len() {
        match row[c] {
            Some(v) => v,
            None => 0u64,
        }
    } else {
        0u64
    }
}

/// Column `c` across all rows.
pub open spec fn csv_column(rows: Seq<Seq<Option<u64>>>, c: int) -> Seq<u64> {
    rows.map_values(|row: Seq<Option<u64>>| field_value(row, c))
}

/// The rows as sequences of parsed fields.
pub open spec fn rows_view(rows: Seq<Vec<Option<u64>>>) -> Seq<Seq<Option<u64>>> {
    rows.map_values(|r: Vec<Option<u64>>| r@)
}

/// The last header before position `n` equal to `key`.
pub open spec fn last_match(headers: Seq<Seq<char>>, n: int, key: Seq<char>) -> Option<int>
    decreases n,
{
    if n <= 0 {
        None
    } else if headers[n - 1] == key {
        Some(n - 1)
    } else {
        last_match(headers, n - 1, key)
    }
}

/// Finds the first header containing "simulation_time_s".
pub fn csv_time_column(headers: &Vec<String>) -> (r: Option<usize>)
    ensures
        match r {
            Some(i) => i < headers.len() && time_column_spec(string_views(headers@), 0) == Some(i as int),
            None => time_column_spec(string_views(headers@), 0) is None,
        },
{
    let ghost hv = string_views(headers@);
    let pattern = chars_of("simulation_time_s");
    let mut i: usize = 0;
    while i < headers.len()
        invariant
            i <= headers.len(),
            hv == string_views(headers@),
            pattern@ == "simulation_time_s"@,
            time_column_spec(hv, 0) == time_column_spec(hv, i as int),
        decreases headers.len() - i,
    {
        let h = chars_of(headers[i].as_str());
        assert(hv[i as int] == h@);
        if chars_contain(&h, &pattern) {
            return Some(i);
        }
        i = i + 1;
    }
    None
}

/// The parameter descriptions of the CSV columns, one per header in header order.
pub fn csv_parameters(headers: &Vec<String>) -> (r: Vec<ParameterInfo>)
    ensures
        param_views(r@) == string_views(headers@).map_values(|h: Seq<char>| csv_param_spec(h)),
{
    let mut params: Vec<ParameterInfo> = Vec::new();
    let mut i: usize = 0;
    while i < headers.len()
        invariant
            i <= headers.len(),
            param_views(params@) == string_views(headers@).take(i as int).map_values(
                |h: Seq<char>| csv_param_spec(h),
            ),
        decreases headers.len() - i,
    {
        let h = &headers[i];
        let (display_name, unit) = parse_header_name(h.as_str());
        let p = ParameterInfo {
            key: h.clone(),
            group: infer_group(h.as_str()),
            display_name,
            unit,
        };
        let ghost prev = param_views(params@);
        params.push(p);
        assert(param_views(params@) =~= prev.push(csv_param_spec(h@)));
        i = i + 1;
        assert(string_views(headers@).take(i as int) =~= string_views(headers@).take(i - 1).push(h@));
        assert(param_views(params@) =~= string_views(headers@).take(i as int).map_values(
            |h: Seq<char>| csv_param_spec(h),
        ));
    }
    assert(string_views(headers@).take(headers.len() as int) =~= string_views(headers@));
    params
}

/// Splits parsed rows into `num_columns` columns; missing or unparsable fields become 0.
pub fn assemble_csv_columns(num_columns: usize, rows: &Vec<Vec<Option<u64>>>) -> (r: Vec<Vec<u64>>)
    ensures
        r@.len() == num_columns,
        forall|c: int| 0 <= c < num_columns ==> (#[trigger] r@[c])@ == csv_column(rows_view(rows@), c),
{
    let mut columns: Vec<Vec<u64>> = Vec::new();
    let mut c: usize = 0;
    while c < num_columns
        invariant
            c <= num_columns,
            columns@.len() == c,
            forall|k: int| 0 <= k < c ==> (#[trigger] columns@[k])@ == csv_column(rows_view(rows@), k),
        decreases num_columns - c,
    {
        let mut col: Vec<u64> = Vec::new();
        let mut r: usize = 0;
        while r < rows.len()
            invariant
                r <= rows.len(),
                col@ == csv_column(rows_view(rows@), c as int).take(r as int),
            decreases rows.len() - r,
        {
            let row = &rows[r];
            let v: u64 = if c < row.len() {
                match row[c] {
                    Some(x) => x,
                    None => 0u64,
                }
            } else {
                0u64
            };
            col.push(v);
            r = r + 1;
            assert(col@ =~= csv_column(rows_view(rows@), c as int).take(r as int));
        }
        assert(csv_column(rows_view(rows@), c as int).take(rows.len() as int) =~= csv_column(
            rows_view(rows@),
            c as int,
        ));
        columns.push(col);
        c = c + 1;
    }
    columns
}

/// Appending a column under a new key makes it the column found for that key.
proof fn lemma_lookup_push(cols: Seq<(Seq<char>, Seq<u64>)>, key: Seq<char>, val: Seq<u64>, k: Seq<char>)
    requires
        column_lookup(cols, key) is None,
    ensures
        column_lookup(cols.push((key, val)), k) == if k == key {
            Some(val)
        } else {
            column_lookup(cols, k)
        },
    decreases cols.len(),
{
    let pushed = cols.push((key, val));
    if cols.len() > 0 {
        assert(pushed.drop_first() =~= cols.drop_first().push((key, val)));
        assert(pushed[0] == cols[0]);
        assert(cols[0].0 != key);
        lemma_lookup_push(cols.drop_first(), key, val, k);
    } else {
        assert(pushed.drop_first() =~= Seq::<(Seq<char>, Seq<u64>)>::empty());
        assert(pushed[0] == (key, val));
        assert(column_lookup(pushed.drop_first(), k) is None);
    }
}

/// Replacing the first column under `key` changes only what is found for `key`.
proof fn lemma_lookup_update(cols: Seq<(Seq<char>, Seq<u64>)>, j: int, key: Seq<char>, val: Seq<u64>, k: Seq<char>)
    requires
        0 <= j < cols.len(),
        cols[j].0 == key,
        forall|i: int| 0 <= i < j ==> (#[trigger] cols[i]).0 != key,
    ensures
        column_lookup(cols.update(j, (key, val)), k) == if k == key {
            Some(val)
        } else {
            column_lookup(cols, k)
        },
    decreases j,
{
    let upd = cols.update(j, (key, val));
    if j > 0 {
        assert(upd.drop_first() =~= cols.drop_first().update(j - 1, (key, val)));
        assert(upd[0] == cols[0]);
        assert(cols[0].0 != key);
        assert forall|i: int| 0 <= i < j - 1 implies (#[trigger] cols.drop_first()[i]).0 != key by {
            assert(cols.drop_first()[i] == cols[i + 1]);
        }
        lemma_lookup_update(cols.drop_first(), j - 1, key, val, k);
    } else {
        assert(upd[0] == (key, val));
        assert(upd.drop_first() =~= cols.drop_first());
    }
}

/// Whether a column named `key` exists: the index of the first one.
fn find_column_index(cols: &Vec<(String, Vec<u64>)>, key: &Vec<char>) -> (r: Option<usize>)
    ensures
        match r {
            Some(j) => j < cols@.len() && columns_view(cols@)[j as int].0 == key@ && forall|i: int|
                0 <= i < j ==> (#[trigger] columns_view(cols@)[i]).0 != key@,
            None => forall|i: int| 0 <= i < cols@.len() ==> (#[trigger] columns_view(cols@)[i]).0 != key@,
        },
{
    let mut i: usize = 0;
    while i < cols.len()
        invariant
            i <= cols.len(),
            forall|m: int| 0 <= m < i ==> (#[trigger] columns_view(cols@)[m]).0 != key@,
        decreases cols.len() - i,
    {
        let name = chars_of(cols[i].0.as_str());
        assert(columns_view(cols@)[i as int].0 == name@);
        if chars_equal(&name, key) {
            return Some(i);
        }
        i = i + 1;
    }
    None
}

/// The lookup finds the first column under the key.
proof fn lemma_lookup_first(cols: Seq<(Seq<char>, Seq<u64>)>, j: int, key: Seq<char>)
    requires
        0 <= j < cols.len(),
        cols[j].0 == key,
        forall|i: int| 0 <= i < j ==> (#[trigger] cols[i]).0 != key,
    ensures
        column_lookup(cols, key) == Some(cols[j].1),
    decreases j,
{
    if j > 0 {
        assert forall|i: int| 0 <= i < j - 1 implies (#[trigger] cols.drop_first()[i]).0 != key by {
            assert(cols.drop_first()[i] == cols[i + 1]);
        }
        lemma_lookup_first(cols.drop_first(), j - 1, key);
    }
}

/// A key no column carries is not found.
proof fn lemma_lookup_absent(cols: Seq<(Seq<char>, Seq<u64>)>, key: Seq<char>)
    requires
        forall|i: int| 0 <= i < cols.len() ==> (#[trigger] cols[i]).0 != key,
    ensures
        column_lookup(cols, key) is None,
    decreases cols.len(),
{
    if cols.len() > 0 {
        assert forall|i: int| 0 <= i < cols.len() - 1 implies (#[trigger] cols.drop_first()[i]).0 != key by {
            assert(cols.drop_first()[i] == cols[i + 1]);
        }
        lemma_lookup_absent(cols.drop_first(), key);
    }
}

/// Builds the state of a CSV recording from its headers and its rows of parsed fields
/// (`Some(bits)` for a field that parses as a number). The time column's values become
/// the time index and that column is left empty; every header names its column, the
/// last column winning when headers repeat; the record count is the number of rows.
pub fn open_csv_records(headers: &Vec<String>, rows: &Vec<Vec<Option<u64>>>) -> (r: Result<FdrFileState, FdrError>)
    ensures
        match time_column_spec(string_views(headers@), 0) {
            None => r matches Err(FdrError::NoTimeColumn),
            Some(t) => r matches Ok(state) && {
                let hv = string_views(headers@);
                let taken = |c: int| if c == t { Seq::<u64>::empty() } else { csv_column(rows_view(rows@), c) };
                &&& state.time_index@ == csv_column(rows_view(rows@), t)
                &&& state.metadata == (FileMetadata {
                    aircraft_type: None,
                    interface_version: 0,
                    total_records: rows@.len() as usize,
                    time_start_s: first_or_zero(csv_column(rows_view(rows@), t)),
                    time_end_s: last_or_zero(csv_column(rows_view(rows@), t)),
                })
                &&& param_views(state.parameters@) == hv.map_values(|h: Seq<char>| csv_param_spec(h))
                &&& forall|i: int|
                    0 <= i < hv.len() ==> #[trigger] column_lookup(columns_view(state.columns@), hv[i])
                        == match last_match(hv, hv.len() as int, hv[i]) {
                        Some(j) => Some(taken(j)),
                        None => None,
                    }
            },
        },
{
    let time_col = match csv_time_column(headers) {
        Some(t) => t,
        None => {
            return Err(FdrError::NoTimeColumn);
        },
    };
    let ghost hv = string_views(headers@);
    let num_columns = headers.len();
    let mut columns = assemble_csv_columns(num_columns, rows);
    let row_count: usize = if columns.len() == 0 {
        0
    } else {
        columns[0].len()
    };
    assert(row_count == rows@.len());
    let times = columns[time_col].clone();
    columns.set(time_col, Vec::new());
    let ghost taken = |c: int|
        if c == time_col as int {
            Seq::<u64>::empty()
        } else {
            csv_column(rows_view(rows@), c)
        };
    let time_index = TimeIndex::new(times);
    let (time_start, time_end) = time_index.time_range();
    let params = csv_parameters(headers);
    let mut col_map: Vec<(String, Vec<u64>)> = Vec::new();
    let mut i: usize = 0;
    while i < headers.len()
        invariant
            i <= headers.len(),
            num_columns == headers.len(),
            hv == string_views(headers@),
            time_col < num_columns,
            columns@.len() == num_columns,
            forall|c: int| 0 <= c < num_columns ==> (#[trigger] columns@[c])@ == taken(c),
            forall|k: Seq<char>|
                #[trigger] column_lookup(columns_view(col_map@), k) == match last_match(hv, i as int, k) {
                    Some(j) => Some(taken(j)),
                    None => None,
                },
        decreases headers.len() - i,
    {
        let key = headers[i].clone();
        let kc = chars_of(key.as_str());
        let value = columns[i].clone();
        assert(value@ == taken(i as int));
        assert(hv[i as int] == key@);
        let ghost old_map = columns_view(col_map@);
        match find_column_index(&col_map, &kc) {
            Some(j) => {
                col_map.set(j, (key, value));
                proof {
                    assert(columns_view(col_map@) =~= old_map.update(j as int, (hv[i as int], taken(i as int))));
                    assert forall|k: Seq<char>|
                        #[trigger] column_lookup(columns_view(col_map@), k) == match last_match(hv, i + 1, k) {
                            Some(m) => Some(taken(m)),
                            None => None,
                        } by {
                        lemma_lookup_update(old_map, j as int, hv[i as int], taken(i as int), k);
                    }
                }
            },
            None => {
                proof {
                    lemma_lookup_absent(old_map, key@);
                }
                col_map.push((key, value));
                proof {
                    assert(columns_view(col_map@) =~= old_map.push((hv[i as int], taken(i as int))));
                    assert forall|k: Seq<char>|
                        #[trigger] column_lookup(columns_view(col_map@), k) == match last_match(hv, i + 1, k) {
                            Some(m) => Some(taken(m)),
                            None => None,
                        } by {
                        lemma_lookup_push(old_map, hv[i as int], taken(i as int), k);
                    }
                }
            },
        }
        i = i + 1;
    }
    assert(time_index@ == csv_column(rows_view(rows@), time_col as int));
    assert(param_views(params@) == hv.map_values(|h: Seq<char>| csv_param_spec(h)));
    assert(time_column_spec(hv, 0) == Some(time_col as int));
    assert(forall|m: int| 0 <= m < hv.len() ==> #[trigger] column_lookup(columns_view(col_map@), hv[m]) == match last_match(hv, hv.len() as int, hv[m]) {
        Some(j) => Some(taken(j)),
        None => None,
    });
    Ok(FdrFileState {
        metadata: FileMetadata {
            aircraft_type: None,
            interface_version: 0,
            total_records: row_count,
            time_start_s: time_start,
            time_end_s: time_end,
        },
        time_index,
        parameters: params,
        columns: col_map,
    })
}

/// What CSV reading (with a header row, records of any length) finds in `data`: the
/// header fields, and the records' fields when every record reads; `None` when the header
/// row does not read.
pub uninterp spec fn csv_table_of(data: Seq<u8>) -> Option<(Seq<Seq<char>>, Option<Seq<Seq<Seq<char>>>>)>;

#[verifier::external_type_specification]
#[verifier::external_body]
pub struct ExCsvError(csv::Error);

/// The field views of a list of records.
pub open spec fn records_view(rows: Seq<Vec<String>>) -> Seq<Seq<Seq<char>>> {
    rows.map_values(|r: Vec<String>| string_views(r@))
}

/// Reads `data` with `csv::ReaderBuilder` (headers on, flexible record lengths): its
/// `headers()`, then its `records()` collected up to the first error. The contract names
/// what is read `csv_table_of(data)`; the result depends on the bytes alone.
#[verifier::external_body]
fn read_csv_table(data: &[u8]) -> (r: Result<(Vec<String>, Result<Vec<Vec<String>>, csv::Error>), csv::Error>)
    ensures
        match r {
            Ok((h, Ok(rows))) => csv_table_of(data@) == Some((string_views(h@), Some(records_view(rows@)))),
            Ok((h, Err(_))) => csv_table_of(data@) == Some((string_views(h@), None::<Seq<Seq<Seq<char>>>>)),
            Err(_) => csv_table_of(data@) is None,
        },
{
    let mut rdr = csv::ReaderBuilder::new().has_headers(true).flexible(true).from_reader(data);
    let headers: Vec<String> = match rdr.headers() {
        Ok(h) => h.iter().map(String::from).collect(),
        Err(e) => return Err(e),
    };
    let records: Result<Vec<Vec<String>>, csv::Error> =
        rdr.records().map(|r| r.map(|rec| rec.iter().map(String::from).collect())).collect();
    Ok((headers, records))
}

/// A record's fields up to the `n`-th; further fields belong to no column.
pub open spec fn cut_record(r: Seq<Seq<char>>, n: int) -> Seq<Seq<char>> {
    if r.len() <= n {
        r
    } else {
        r.take(n)
    }
}

/// The CSV text of a recording: its headers, and each record cut to the number of
/// headers, when the header row reads, some header contains "simulation_time_s" and every
/// record reads.
pub open spec fn csv_text_outcome(data: Seq<u8>, r: Result<(Vec<String>, Vec<Vec<String>>), FdrError>) -> bool {
    match csv_table_of(data) {
        None => r matches Err(FdrError::Csv(_)),
        Some((h, recs)) => if time_column_spec(h, 0) is None {
            r matches Err(FdrError::NoTimeColumn)
        } else {
            match recs {
                None => r matches Err(FdrError::Csv(_)),
                Some(rows) => r matches Ok((hs, rs)) && string_views(hs@) == h
                    && records_view(rs@) == rows.map_values(|x: Seq<Seq<char>>| cut_record(x, h.len() as int)),
            }
        },
    }
}

/// Reads the headers and records of a CSV recording from its bytes. The header row is
/// read first and must name a time column; then every record is read and cut to the
/// number of headers. The fields are left as text.
pub fn read_csv_text(data: &[u8]) -> (r: Result<(Vec<String>, Vec<Vec<String>>), FdrError>)
    ensures
        csv_text_outcome(data@, r),
{
    match read_csv_table(data) {
        Err(e) => Err(FdrError::Csv(e)),
        Ok((headers, records)) => {
            if csv_time_column(&headers).is_none() {
                return Err(FdrError::NoTimeColumn);
            }
            match records {
                Err(e) => Err(FdrError::Csv(e)),
                Ok(rows) => {
                    let n = headers.len();
                    let mut out: Vec<Vec<String>> = Vec::new();
                    let mut i: usize = 0;
                    while i < rows.len()
                        invariant
                            i <= rows.len(),
                            n == headers.len(),
                            records_view(out@) == records_view(rows@).take(i as int).map_values(
                                |x: Seq<Seq<char>>| cut_record(x, n as int),
                            ),
                        decreases rows.len() - i,
                    {
                        let row = &rows[i];
                        let mut cut: Vec<String> = Vec::new();
                        let mut j: usize = 0;
                        while j < row.len() && j < n
                            invariant
                                j <= row.len(),
                                j <= n,
                                string_views(cut@) == string_views(row@).take(j as int),
                            decreases row.len() - j,
                        {
                            let field = row[j].clone();
                            let ghost before = string_views(cut@);
                            cut.push(field);
                            assert(string_views(cut@) =~= before.push(row@[j as int]@));
                            j = j + 1;
                            assert(string_views(cut@) =~= string_views(row@).take(j as int));
                        }
                        assert(string_views(cut@) =~= cut_record(string_views(row@), n as int));
                        let ghost before_out = records_view(out@);
                        out.push(cut);
                        assert(records_view(out@) =~= before_out.push(string_views(cut@)));
                        i = i + 1;
                        assert(records_view(rows@).take(i as int) =~= records_view(rows@).take(i - 1).push(
                            string_views(row@),
                        ));
                        assert(records_view(out@) =~= records_view(rows@).take(i as int).map_values(
                            |x: Seq<Seq<char>>| cut_record(x, n as int),
                        ));
                    }
                    assert(records_view(rows@).take(rows.len() as int) =~= records_view(rows@));
                    Ok((headers, out))
                },
            }
        },
    }
}

} // verus!
