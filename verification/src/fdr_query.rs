//! Range queries over the columns of an open recording.
use vstd::prelude::*;

use crate::fdr_reader::{partitioned_by, DataPoint, TimeIndex};
use crate::float_bits::{f64_le, f64_lt};
use crate::text::{
    chars_equal, chars_less, chars_lt, chars_of, lemma_chars_lt_asymmetric,
    lemma_chars_lt_irreflexive, lemma_chars_lt_transitive, lemma_chars_lt_trichotomy,
};

verus! {

broadcast use vstd::string::group_string_axioms;

/// The values of the first column named `key`, if there is one.
pub open spec fn column_lookup(cols: Seq<(Seq<char>, Seq<u64>)>, key: Seq<char>) -> Option<Seq<u64>>
    decreases cols.len(),
{
    if cols.len() == 0 {
        None
    } else if cols[0].0 == key {
        Some(cols[0].1)
    } else {
        column_lookup(cols.drop_first(), key)
    }
}

/// The points of records `i`, `i + step`, `i + 2 * step`, ... below `lim`.
pub open spec fn sample_points(times: Seq<u64>, col: Seq<u64>, i: int, lim: int, step: int) -> Seq<DataPoint>
    decreases (if i < lim { lim - i } else { 0 }),
{
    if i >= lim || step <= 0 {
        Seq::empty()
    } else {
        seq![DataPoint { time_s: times[i], value: col[i] }] + sample_points(
            times,
            col,
            i + step,
            lim,
            step,
        )
    }
}

/// One past the last selected record: the record found for the end time is included,
/// and the range stops at the end of the index.
pub open spec fn window_end(found_end: int, len: int) -> int {
    let e = if found_end + 1 <= usize::MAX { found_end + 1 } else { usize::MAX as int };
    if e < len {
        e
    } else {
        len
    }
}

/// The stride between sampled records: 1 when the window has at most `max_points`
/// records, else the window length divided by `max_points`, rounded up, so that at most
/// `max_points` records are sampled.
pub open spec fn window_step(total: int, max_points: int) -> int {
    if total > max_points {
        total / max_points + if total % max_points == 0 { 0int } else { 1int }
    } else {
        1
    }
}

/// The series of one column over the window `start..end`: empty when no point is asked
/// for (`max_points` of 0).
pub open spec fn window_series(times: Seq<u64>, col: Seq<u64>, start: int, end: int, max_points: int) -> Seq<DataPoint> {
    let lim = if end < col.len() { end } else { col.len() as int };
    if max_points <= 0 {
        Seq::empty()
    } else {
        sample_points(times, col, start, lim, window_step(end - start, max_points))
    }
}

/// The entry's key names a column and its series is that column's window series.
pub open spec fn entry_is_window(
    e: (Seq<char>, Seq<DataPoint>),
    times: Seq<u64>,
    cols: Seq<(Seq<char>, Seq<u64>)>,
    start: int,
    end: int,
    max_points: int,
) -> bool {
    match column_lookup(cols, e.0) {
        Some(col) => e.1 == window_series(times, col, start, end, max_points),
        None => false,
    }
}

/// Keys strictly increase.
pub open spec fn keys_sorted(entries: Seq<(Seq<char>, Seq<DataPoint>)>) -> bool {
    forall|i: int, j: int| 0 <= i < j < entries.len() ==> chars_lt(#[trigger] entries[i].0, #[trigger] entries[j].0)
}

/// The abstract value of a query result.
pub open spec fn series_view(entries: Seq<(String, Vec<DataPoint>)>) -> Seq<(Seq<char>, Seq<DataPoint>)> {
    entries.map_values(|e: (String, Vec<DataPoint>)| (e.0@, e.1@))
}

/// Some entry has key `key`.
pub open spec fn has_key(entries: Seq<(Seq<char>, Seq<DataPoint>)>, key: Seq<char>) -> bool {
    exists|i: int| 0 <= i < entries.len() && #[trigger] entries[i].0 == key
}

/// The result of a query over the window `start..end` as a map from key to series: keys
/// in order, one entry per requested key that names a column, each with that column's
/// window series.
pub open spec fn query_result_is(
    r: Seq<(Seq<char>, Seq<DataPoint>)>,
    times: Seq<u64>,
    cols: Seq<(Seq<char>, Seq<u64>)>,
    keys: Seq<Seq<char>>,
    start: int,
    end: int,
    max_points: int,
) -> bool {
    &&& keys_sorted(r)
    &&& forall|i: int|
        0 <= i < r.len() ==> entry_is_window(#[trigger] r[i], times, cols, start, end, max_points)
    &&& forall|i: int| 0 <= i < r.len() ==> keys.contains(#[trigger] r[i].0)
    &&& forall|k: int|
        0 <= k < keys.len() && column_lookup(cols, #[trigger] keys[k]) is Some ==> has_key(r, keys[k])
}

/// The first column named `key`.
pub fn find_column<'a>(cols: &'a Vec<(String, Vec<u64>)>, key: &[char]) -> (r: Option<&'a Vec<u64>>)
    ensures
        match column_lookup(cols@.map_values(|c: (String, Vec<u64>)| (c.0@, c.1@)), key@) {
            Some(col) => r matches Some(v) && v@ == col,
            None => r is None,
        },
{
    let ghost cv = cols@.map_values(|c: (String, Vec<u64>)| (c.0@, c.1@));
    let mut i: usize = 0;
    assert(cv.skip(0) =~= cv);
    while i < cols.len()
        invariant
            i <= cols.len(),
            cv == cols@.map_values(|c: (String, Vec<u64>)| (c.0@, c.1@)),
            column_lookup(cv, key@) == column_lookup(cv.skip(i as int), key@),
        decreases cols.len() - i,
    {
        let name = chars_of(cols[i].0.as_str());
        assert(cv.skip(i as int)[0] == cv[i as int]);
        if chars_equal(&name, key) {
            return Some(&cols[i].1);
        }
        assert(cv.skip(i as int).drop_first() =~= cv.skip(i + 1));
        i = i + 1;
    }
    assert(cv.skip(i as int).len() == 0);
    None
}

/// Samples one column over records `start..lim` with stride `step`.
fn sample_column(times: &TimeIndex, col: &Vec<u64>, start: usize, lim: usize, step: usize) -> (r: Vec<DataPoint>)
    requires
        step > 0,
        lim <= times@.len(),
        lim <= col.len(),
    ensures
        r@ == sample_points(times@, col@, start as int, lim as int, step as int),
{
    let mut out: Vec<DataPoint> = Vec::new();
    let mut i = start;
    let ghost target = sample_points(times@, col@, start as int, lim as int, step as int);
    if start >= lim {
        assert(out@ =~= target);
        return out;
    }
    while i < lim
        invariant_except_break
            i < lim,
            out@ + sample_points(times@, col@, i as int, lim as int, step as int) == target,
        invariant
            step > 0,
            lim <= times@.len(),
            lim <= col.len(),
            target == sample_points(times@, col@, start as int, lim as int, step as int),
        ensures
            out@ == target,
        decreases lim - i,
    {
        let t = times.get_time(i);
        let time_s = match t {
            Some(x) => x,
            None => 0u64,
        };
        let ghost rest = sample_points(times@, col@, i + step, lim as int, step as int);
        out.push(DataPoint { time_s, value: col[i] });
        assert(sample_points(times@, col@, i as int, lim as int, step as int) == seq![
            DataPoint { time_s: times@[i as int], value: col@[i as int] },
        ] + rest);
        if lim - i <= step {
            assert(rest.len() == 0);
            assert(out@ =~= target);
            break;
        }
        i = i + step;
        assert(out@ + sample_points(times@, col@, i as int, lim as int, step as int) =~= target);
    }
    out
}

/// The position of `key` among sorted entries: the first entry whose key does not sort
/// before it, and whether that entry has exactly this key.
fn find_slot(entries: &Vec<(String, Vec<DataPoint>)>, k: &Vec<char>) -> (r: (usize, bool))
    requires
        keys_sorted(series_view(entries@)),
    ensures
        r.0 <= entries@.len(),
        forall|i: int| 0 <= i < r.0 ==> chars_lt(#[trigger] series_view(entries@)[i].0, k@),
        r.1 ==> r.0 < entries@.len() && series_view(entries@)[r.0 as int].0 == k@,
        !r.1 ==> r.0 < entries@.len() ==> chars_lt(k@, series_view(entries@)[r.0 as int].0),
{
    let ghost old_view = series_view(entries@);
    let mut j: usize = 0;
    while j < entries.len() && chars_less(&chars_of(entries[j].0.as_str()), k)
        invariant
            j <= entries.len(),
            old_view == series_view(entries@),
            forall|i: int| 0 <= i < j ==> chars_lt(#[trigger] old_view[i].0, k@),
        decreases entries.len() - j,
    {
        j = j + 1;
    }
    if j < entries.len() {
        let name = chars_of(entries[j].0.as_str());
        assert(old_view[j as int].0 == name@);
        let same = chars_equal(&name, k);
        proof {
            if !same {
                lemma_chars_lt_trichotomy(old_view[j as int].0, k@);
            }
        }
        (j, same)
    } else {
        (j, false)
    }
}

/// Inserts `(key, series)` into entries sorted by key; an entry with the same key gets
/// the new series.
fn insert_series(entries: &mut Vec<(String, Vec<DataPoint>)>, key: String, series: Vec<DataPoint>)
    requires
        keys_sorted(series_view(old(entries)@)),
    ensures
        inserted_into(series_view(old(entries)@), series_view(final(entries)@), key@, series@),
{
    let ghost old_view = series_view(entries@);
    let k = chars_of(key.as_str());
    let (j, same) = find_slot(entries, &k);
    let ghost sv = series@;
    if same {
        proof {
            lemma_replace_entry(old_view, j as int, key@, sv);
        }
        entries.set(j, (key, series));
        assert(series_view(entries@) =~= old_view.update(j as int, (key@, sv)));
    } else {
        proof {
            lemma_insert_entry(old_view, j as int, key@, sv);
        }
        entries.insert(j, (key, series));
        assert(series_view(entries@) =~= old_view.insert(j as int, (key@, sv)));
    }
}

/// `nv` is `old_view` with `(key, sv)` put in: sorted, holding `key` with `sv`, and
/// otherwise exactly the entries of `old_view` with other keys.
#[verifier::opaque]
pub open spec fn inserted_into(
    old_view: Seq<(Seq<char>, Seq<DataPoint>)>,
    nv: Seq<(Seq<char>, Seq<DataPoint>)>,
    key: Seq<char>,
    sv: Seq<DataPoint>,
) -> bool {
    &&& keys_sorted(nv)
    &&& has_key(nv, key)
    &&& forall|i: int|
        0 <= i < nv.len() ==> {
            let e = #[trigger] nv[i];
            (e.0 == key && e.1 == sv) || (e.0 != key && holds_entry(old_view, e))
        }
    &&& forall|m: int|
        0 <= m < old_view.len() && #[trigger] old_view[m].0 != key ==> holds_entry(nv, old_view[m])
}

/// Some entry of `entries` is `e`.
#[verifier::opaque]
pub open spec fn holds_entry(entries: Seq<(Seq<char>, Seq<DataPoint>)>, e: (Seq<char>, Seq<DataPoint>)) -> bool {
    exists|i: int| 0 <= i < entries.len() && entries[i] == e
}

/// Replacing the series of the entry with key `key` keeps a sorted result sorted, keeps
/// the other entries, and gives `key` the new series.
proof fn lemma_replace_entry(old_view: Seq<(Seq<char>, Seq<DataPoint>)>, j: int, key: Seq<char>, sv: Seq<DataPoint>)
    requires
        keys_sorted(old_view),
        0 <= j < old_view.len(),
        old_view[j].0 == key,
    ensures
        inserted_into(old_view, old_view.update(j, (key, sv)), key, sv),
{
    reveal(inserted_into);
    reveal(holds_entry);
    let nv = old_view.update(j, (key, sv));
    assert(nv[j].0 == key);
    assert forall|a: int, b: int| 0 <= a < b < nv.len() implies chars_lt(#[trigger] nv[a].0, #[trigger] nv[b].0) by {
        assert(nv[a].0 == old_view[a].0);
        assert(nv[b].0 == old_view[b].0);
    }
    assert forall|i: int| 0 <= i < nv.len() implies {
        let e = #[trigger] nv[i];
        (e.0 == key && e.1 == sv) || (e.0 != key && exists|m: int| 0 <= m < old_view.len() && old_view[m] == e)
    } by {
        if i != j {
            assert(old_view[i] == nv[i]);
            if nv[i].0 == key {
                lemma_chars_lt_irreflexive(key);
                if i < j {
                    assert(chars_lt(old_view[i].0, old_view[j].0));
                } else {
                    assert(chars_lt(old_view[j].0, old_view[i].0));
                }
            }
        }
    }
    assert forall|m: int| 0 <= m < old_view.len() && #[trigger] old_view[m].0 != key implies exists|i: int|
        0 <= i < nv.len() && nv[i] == old_view[m] by {
        assert(nv[m] == old_view[m]);
    }
}

/// Inserting a new key at its sorted position keeps the result sorted and keeps every
/// other entry.
proof fn lemma_insert_entry(old_view: Seq<(Seq<char>, Seq<DataPoint>)>, j: int, key: Seq<char>, sv: Seq<DataPoint>)
    requires
        keys_sorted(old_view),
        0 <= j <= old_view.len(),
        forall|i: int| 0 <= i < j ==> chars_lt(#[trigger] old_view[i].0, key),
        j < old_view.len() ==> chars_lt(key, old_view[j].0),
    ensures
        inserted_into(old_view, old_view.insert(j, (key, sv)), key, sv),
{
    reveal(inserted_into);
    reveal(holds_entry);
    let nv = old_view.insert(j, (key, sv));
    assert(nv[j].0 == key);
    assert forall|a: int, b: int| 0 <= a < b < nv.len() implies chars_lt(#[trigger] nv[a].0, #[trigger] nv[b].0) by {
        if a < j && b == j {
        } else if a < j && b > j {
            assert(nv[b] == old_view[b - 1]);
        } else if a == j && b > j {
            assert(nv[b] == old_view[b - 1]);
            if b - 1 > j {
                lemma_chars_lt_transitive(key, old_view[j].0, old_view[b - 1].0);
            }
        } else if a < j && b < j {
        } else {
            assert(nv[a] == old_view[a - 1]);
            assert(nv[b] == old_view[b - 1]);
        }
    }
    assert forall|i: int| 0 <= i < nv.len() implies {
        let e = #[trigger] nv[i];
        (e.0 == key && e.1 == sv) || (e.0 != key && exists|m: int| 0 <= m < old_view.len() && old_view[m] == e)
    } by {
        if i != j {
            let oi = if i < j { i } else { i - 1 };
            assert(nv[i] == old_view[oi]);
            lemma_chars_lt_irreflexive(key);
            if oi > j {
                lemma_chars_lt_transitive(key, old_view[j].0, old_view[oi].0);
            }
        }
    }
    assert forall|m: int| 0 <= m < old_view.len() && #[trigger] old_view[m].0 != key implies exists|i: int|
        0 <= i < nv.len() && nv[i] == old_view[m] by {
        if m < j {
            assert(nv[m] == old_view[m]);
        } else {
            assert(nv[m + 1] == old_view[m]);
        }
    }
}

/// Samples the requested columns over the records `idx_start..` up to and including
/// record `found_end` (clamped to the index). Each series holds every `step`-th record
/// of the window, `step` being 1 when the window has at most `max_points` records and
/// otherwise the window length divided by `max_points`, rounded up, so no series has
/// more than `max_points` points (none when `max_points` is 0); a column shorter than
/// the window ends its series early. Requested keys without a column are left out; an
/// empty window gives an empty result.
pub fn query_window(
    time_index: &TimeIndex,
    columns: &Vec<(String, Vec<u64>)>,
    param_keys: &Vec<String>,
    idx_start: usize,
    found_end: usize,
    max_points: usize,
) -> (r: Vec<(String, Vec<DataPoint>)>)
    ensures
        ({
            let end = window_end(found_end as int, time_index@.len() as int);
            if idx_start >= end {
                r@.len() == 0
            } else {
                query_result_is(
                    series_view(r@),
                    time_index@,
                    columns@.map_values(|c: (String, Vec<u64>)| (c.0@, c.1@)),
                    param_keys@.map_values(|k: String| k@),
                    idx_start as int,
                    end,
                    max_points as int,
                )
            }
        }),
{
    let len = time_index.len();
    let plus_one: usize = if found_end < usize::MAX {
        found_end + 1
    } else {
        usize::MAX
    };
    let idx_end: usize = if plus_one < len {
        plus_one
    } else {
        len
    };
    let mut result: Vec<(String, Vec<DataPoint>)> = Vec::new();
    if idx_start >= idx_end {
        return result;
    }
    let total_range: usize = idx_end - idx_start;
    let step: usize = if max_points > 0 && total_range > max_points {
        let whole: usize = total_range / max_points;
        proof {
            let rem: usize = total_range % max_points;
            assert(total_range == whole * max_points + rem && rem < max_points) by (nonlinear_arith)
                requires
                    whole == total_range / max_points,
                    rem == total_range % max_points,
                    max_points > 0,
            ;
            assert(whole >= 1 && (rem != 0 ==> whole < total_range)) by (nonlinear_arith)
                requires
                    total_range == whole * max_points + rem,
                    rem < max_points,
                    total_range > max_points,
                    max_points > 0,
            ;
        }
        if total_range % max_points == 0 {
            whole
        } else {
            whole + 1
        }
    } else {
        1
    };
    let ghost cv = columns@.map_values(|c: (String, Vec<u64>)| (c.0@, c.1@));
    let ghost kv = param_keys@.map_values(|k: String| k@);
    let mut n: usize = 0;
    assert(query_result_is(series_view(result@), time_index@, cv, kv.take(0), idx_start as int, idx_end as int, max_points as int));
    while n < param_keys.len()
        invariant
            n <= param_keys.len(),
            step > 0,
            max_points > 0 ==> step == window_step(idx_end - idx_start, max_points as int),
            idx_start < idx_end <= time_index@.len(),
            idx_end == window_end(found_end as int, time_index@.len() as int),
            cv == columns@.map_values(|c: (String, Vec<u64>)| (c.0@, c.1@)),
            kv == param_keys@.map_values(|k: String| k@),
            query_result_is(series_view(result@), time_index@, cv, kv.take(n as int), idx_start as int, idx_end as int, max_points as int),
        decreases param_keys.len() - n,
    {
        let key = &param_keys[n];
        let kc = chars_of(key.as_str());
        assert(kv[n as int] == key@);
        assert(kv.take(n + 1) =~= kv.take(n as int).push(key@));
        let found = find_column(columns, &kc);
        match found {
            Some(col) => {
                let lim: usize = if idx_end < col.len() {
                    idx_end
                } else {
                    col.len()
                };
                let series = if max_points == 0 {
                    Vec::new()
                } else {
                    sample_column(time_index, col, idx_start, lim, step)
                };
                assert(series@ == window_series(time_index@, col@, idx_start as int, idx_end as int, max_points as int));
                let ghost old_result = series_view(result@);
                let ghost sv = series@;
                insert_series(&mut result, key.clone(), series);
                proof {
                    lemma_query_step_found(
                        old_result,
                        series_view(result@),
                        time_index@,
                        cv,
                        kv.take(n as int),
                        key@,
                        col@,
                        sv,
                        idx_start as int,
                        idx_end as int,
                        max_points as int,
                    );
                }
            },
            None => {
                proof {
                    lemma_query_step_missing(
                        series_view(result@),
                        time_index@,
                        cv,
                        kv.take(n as int),
                        key@,
                        idx_start as int,
                        idx_end as int,
                        max_points as int,
                    );
                }
            },
        }
        n = n + 1;
    }
    assert(kv.take(param_keys.len() as int) =~= kv);
    result
}

/// Adding the series of a requested key that names a column keeps the result a query
/// result, now over the keys so far and this key.
proof fn lemma_query_step_found(
    old_r: Seq<(Seq<char>, Seq<DataPoint>)>,
    nr: Seq<(Seq<char>, Seq<DataPoint>)>,
    times: Seq<u64>,
    cv: Seq<(Seq<char>, Seq<u64>)>,
    keys: Seq<Seq<char>>,
    key: Seq<char>,
    col: Seq<u64>,
    sv: Seq<DataPoint>,
    start: int,
    end: int,
    max_points: int,
)
    requires
        query_result_is(old_r, times, cv, keys, start, end, max_points),
        inserted_into(old_r, nr, key, sv),
        column_lookup(cv, key) == Some(col),
        sv == window_series(times, col, start, end, max_points),
    ensures
        query_result_is(nr, times, cv, keys.push(key), start, end, max_points),
{
    lemma_step_windows(old_r, nr, times, cv, keys, key, col, sv, start, end, max_points);
    lemma_step_keys_requested(old_r, nr, times, cv, keys, key, col, sv, start, end, max_points);
    lemma_step_keys_present(old_r, nr, times, cv, keys, key, col, sv, start, end, max_points);
    reveal(inserted_into);
}

/// Adding an entry keeps every entry a window series.
proof fn lemma_step_windows(
    old_r: Seq<(Seq<char>, Seq<DataPoint>)>,
    nr: Seq<(Seq<char>, Seq<DataPoint>)>,
    times: Seq<u64>,
    cv: Seq<(Seq<char>, Seq<u64>)>,
    keys: Seq<Seq<char>>,
    key: Seq<char>,
    col: Seq<u64>,
    sv: Seq<DataPoint>,
    start: int,
    end: int,
    max_points: int,
)
    requires
        query_result_is(old_r, times, cv, keys, start, end, max_points),
        inserted_into(old_r, nr, key, sv),
        column_lookup(cv, key) == Some(col),
        sv == window_series(times, col, start, end, max_points),
    ensures
        forall|i: int| 0 <= i < nr.len() ==> entry_is_window(#[trigger] nr[i], times, cv, start, end, max_points),
{
    reveal(inserted_into);
    assert forall|i: int| 0 <= i < nr.len() implies entry_is_window(#[trigger] nr[i], times, cv, start, end, max_points) by {
        if nr[i].0 != key {
            assert(holds_entry(old_r, nr[i]));
            reveal(holds_entry);
            let m = choose|m: int| 0 <= m < old_r.len() && old_r[m] == nr[i];
            assert(entry_is_window(old_r[m], times, cv, start, end, max_points));
        }
    }
}

/// Adding an entry for a requested key keeps every key a requested one.
proof fn lemma_step_keys_requested(
    old_r: Seq<(Seq<char>, Seq<DataPoint>)>,
    nr: Seq<(Seq<char>, Seq<DataPoint>)>,
    times: Seq<u64>,
    cv: Seq<(Seq<char>, Seq<u64>)>,
    keys: Seq<Seq<char>>,
    key: Seq<char>,
    col: Seq<u64>,
    sv: Seq<DataPoint>,
    start: int,
    end: int,
    max_points: int,
)
    requires
        query_result_is(old_r, times, cv, keys, start, end, max_points),
        inserted_into(old_r, nr, key, sv),
        column_lookup(cv, key) == Some(col),
        sv == window_series(times, col, start, end, max_points),
    ensures
        forall|i: int| 0 <= i < nr.len() ==> keys.push(key).contains(#[trigger] nr[i].0),
{
    reveal(inserted_into);
    let nk = keys.push(key);
    assert forall|i: int| 0 <= i < nr.len() implies nk.contains(#[trigger] nr[i].0) by {
        if nr[i].0 != key {
            assert(holds_entry(old_r, nr[i]));
            reveal(holds_entry);
            let m = choose|m: int| 0 <= m < old_r.len() && old_r[m] == nr[i];
            assert(keys.contains(old_r[m].0));
            let w = choose|w: int| 0 <= w < keys.len() && keys[w] == old_r[m].0;
            assert(nk[w] == keys[w]);
        } else {
            assert(nk[keys.len() as int] == key);
        }
    }
}

/// Adding the entry for the next requested key keeps every requested key so far present.
proof fn lemma_step_keys_present(
    old_r: Seq<(Seq<char>, Seq<DataPoint>)>,
    nr: Seq<(Seq<char>, Seq<DataPoint>)>,
    times: Seq<u64>,
    cv: Seq<(Seq<char>, Seq<u64>)>,
    keys: Seq<Seq<char>>,
    key: Seq<char>,
    col: Seq<u64>,
    sv: Seq<DataPoint>,
    start: int,
    end: int,
    max_points: int,
)
    requires
        query_result_is(old_r, times, cv, keys, start, end, max_points),
        inserted_into(old_r, nr, key, sv),
        column_lookup(cv, key) == Some(col),
        sv == window_series(times, col, start, end, max_points),
    ensures
        forall|k: int| 0 <= k < keys.push(key).len() && column_lookup(cv, #[trigger] keys.push(key)[k]) is Some ==> has_key(nr, keys.push(key)[k]),
{
    reveal(inserted_into);
    let nk = keys.push(key);
    assert forall|k: int| 0 <= k < nk.len() && column_lookup(cv, #[trigger] nk[k]) is Some implies has_key(nr, nk[k]) by {
        if k < keys.len() {
            assert(nk[k] == keys[k]);
            if keys[k] != key {
                assert(has_key(old_r, keys[k]));
                let i = choose|i: int| 0 <= i < old_r.len() && #[trigger] old_r[i].0 == keys[k];
                assert(old_r[i].0 != key);
                assert(holds_entry(nr, old_r[i]));
                reveal(holds_entry);
                let i2 = choose|i2: int| 0 <= i2 < nr.len() && nr[i2] == old_r[i];
                assert(nr[i2].0 == nk[k]);
            }
        }
    }
}

/// A requested key that names no column leaves the result a query result over the keys
/// so far and this key.
proof fn lemma_query_step_missing(
    r: Seq<(Seq<char>, Seq<DataPoint>)>,
    times: Seq<u64>,
    cv: Seq<(Seq<char>, Seq<u64>)>,
    keys: Seq<Seq<char>>,
    key: Seq<char>,
    start: int,
    end: int,
    max_points: int,
)
    requires
        query_result_is(r, times, cv, keys, start, end, max_points),
        column_lookup(cv, key) is None,
    ensures
        query_result_is(r, times, cv, keys.push(key), start, end, max_points),
{
    let nk = keys.push(key);
    assert forall|i: int| 0 <= i < r.len() implies nk.contains(#[trigger] r[i].0) by {
        assert(keys.contains(r[i].0));
        let w = choose|w: int| 0 <= w < keys.len() && keys[w] == r[i].0;
        assert(nk[w] == keys[w]);
    }
    assert forall|k: int| 0 <= k < nk.len() && column_lookup(cv, #[trigger] nk[k]) is Some implies has_key(r, nk[k]) by {
        if k < keys.len() {
            assert(nk[k] == keys[k]);
        }
    }
}

/// `s` is where a search for `time` in `times` may end: within the index, and exactly the
/// first record not earlier than `time` when the times are partitioned by that.
pub open spec fn search_result(times: Seq<u64>, time: u64, s: int) -> bool {
    &&& 0 <= s <= times.len()
    &&& partitioned_by(times, time) ==> (forall|i: int| 0 <= i < s ==> f64_lt(#[trigger] times[i], time))
        && (forall|i: int| s <= i < times.len() ==> !f64_lt(#[trigger] times[i], time))
}

/// Record times that never decrease (and so hold no NaN) are partitioned by "earlier than
/// `time`" for every `time`.
pub proof fn lemma_ordered_times_partitioned(times: Seq<u64>, time: u64)
    requires
        forall|i: int, j: int| 0 <= i <= j < times.len() ==> f64_le(#[trigger] times[i], #[trigger] times[j]),
    ensures
        partitioned_by(times, time),
{
    assert forall|i: int, j: int|
        0 <= i <= j < times.len() && f64_lt(#[trigger] times[j], time) implies f64_lt(#[trigger] times[i], time) by {
        assert(f64_le(times[i], times[j]));
    }
}

/// On record times partitioned by "earlier than `time`" (as non-decreasing times without
/// NaN are), a search has exactly one possible result, so the query window, and with it
/// the query result, is determined.
pub proof fn lemma_search_result_unique(times: Seq<u64>, time: u64, s1: int, s2: int)
    requires
        partitioned_by(times, time),
        search_result(times, time, s1),
        search_result(times, time, s2),
    ensures
        s1 == s2,
{
    if s1 < s2 {
        assert(f64_lt(times[s1], time));
        assert(!f64_lt(times[s1], time));
    } else if s2 < s1 {
        assert(f64_lt(times[s2], time));
        assert(!f64_lt(times[s2], time));
    }
}

/// The outcome of a query between two times: for the window found by searching the start
/// and the end time, the window query's result.
pub open spec fn query_outcome(
    r: Seq<(Seq<char>, Seq<DataPoint>)>,
    times: Seq<u64>,
    cols: Seq<(Seq<char>, Seq<u64>)>,
    keys: Seq<Seq<char>>,
    time_start: u64,
    time_end: u64,
    max_points: int,
) -> bool {
    exists|s: int, e: int|
        #![trigger search_result(times, time_start, s), search_result(times, time_end, e)]
        search_result(times, time_start, s) && search_result(times, time_end, e) && if s
            >= window_end(e, times.len() as int) {
            r.len() == 0
        } else {
            query_result_is(r, times, cols, keys, s, window_end(e, times.len() as int), max_points)
        }
}

/// Queries the requested columns between two times: the window runs from the first
/// record at or after `time_start` through the first record at or after `time_end`
/// (see `query_window`).
pub fn query_from_columns(
    time_index: &TimeIndex,
    columns: &Vec<(String, Vec<u64>)>,
    param_keys: &Vec<String>,
    time_start: u64,
    time_end: u64,
    max_points: usize,
) -> (r: Vec<(String, Vec<DataPoint>)>)
    ensures
        query_outcome(
            series_view(r@),
            time_index@,
            columns@.map_values(|c: (String, Vec<u64>)| (c.0@, c.1@)),
            param_keys@.map_values(|k: String| k@),
            time_start,
            time_end,
            max_points as int,
        ),
{
    let idx_start = time_index.find_index(time_start);
    let found_end = time_index.find_index(time_end);
    let r = query_window(time_index, columns, param_keys, idx_start, found_end, max_points);
    assert(search_result(time_index@, time_start, idx_start as int));
    assert(search_result(time_index@, time_end, found_end as int));
    r
}


/// The number of sampled points: one for each of `i`, `i + step`, ... below `lim`.
pub proof fn lemma_sample_points_len(times: Seq<u64>, col: Seq<u64>, i: int, lim: int, step: int)
    requires
        step > 0,
    ensures
        sample_points(times, col, i, lim, step).len() == if i >= lim {
            0
        } else {
            (lim - i - 1) / step + 1
        },
    decreases (if i < lim { lim - i } else { 0 }),
{
    if i < lim {
        lemma_sample_points_len(times, col, i + step, lim, step);
        let x = lim - i - 1;
        if i + step >= lim {
            assert(x / step == 0) by (nonlinear_arith)
                requires
                    0 <= x < step,
            ;
        } else {
            assert((x - step) / step + 1 == x / step) by (nonlinear_arith)
                requires
                    x >= step,
                    step > 0,
            ;
        }
    }
}

/// A query never returns more than `max_points` points for one series.
pub proof fn lemma_series_at_most_max_points(times: Seq<u64>, col: Seq<u64>, start: int, end: int, max_points: int)
    requires
        0 <= start < end,
        max_points >= 0,
    ensures
        window_series(times, col, start, end, max_points).len() <= max_points,
{
    if max_points > 0 {
        let total = end - start;
        let step = window_step(total, max_points);
        let lim = if end < col.len() { end } else { col.len() as int };
        if total > max_points {
            let q = total / max_points;
            let r = total % max_points;
            assert(total == q * max_points + r && 0 <= r < max_points && q >= 1) by (nonlinear_arith)
                requires
                    q == total / max_points,
                    r == total % max_points,
                    total > max_points,
                    max_points > 0,
            ;
            assert(step * max_points >= total) by (nonlinear_arith)
                requires
                    total == q * max_points + r,
                    0 <= r < max_points,
                    step == q + if r == 0 { 0int } else { 1int },
            ;
        }
        assert(step >= 1);
        lemma_sample_points_len(times, col, start, lim, step);
        if start < lim {
            let n = lim - start - 1;
            assert(0 <= n <= total - 1);
            if total <= max_points {
                assert(n / 1 == n);
            } else {
                assert(n / step + 1 <= max_points) by (nonlinear_arith)
                    requires
                        0 <= n <= total - 1,
                        step * max_points >= total,
                        step >= 1,
                        max_points > 0,
                {
                    assert(n < step * max_points);
                    if n / step >= max_points {
                        assert(n >= step * (n / step));
                        assert(step * (n / step) >= step * max_points);
                    }
                }
            }
        }
    }
}

/// No series of a query's result has more than `max_points` points (and with
/// `max_points` of 0 every series is empty).
pub proof fn lemma_query_series_at_most_max_points(
    r: Seq<(Seq<char>, Seq<DataPoint>)>,
    times: Seq<u64>,
    cols: Seq<(Seq<char>, Seq<u64>)>,
    keys: Seq<Seq<char>>,
    time_start: u64,
    time_end: u64,
    max_points: int,
)
    requires
        max_points >= 0,
        query_outcome(r, times, cols, keys, time_start, time_end, max_points),
    ensures
        forall|i: int| 0 <= i < r.len() ==> (#[trigger] r[i]).1.len() <= max_points,
{
    let (s, e) = choose|s: int, e: int|
        #![trigger search_result(times, time_start, s), search_result(times, time_end, e)]
        search_result(times, time_start, s) && search_result(times, time_end, e) && if s
            >= window_end(e, times.len() as int) {
            r.len() == 0
        } else {
            query_result_is(r, times, cols, keys, s, window_end(e, times.len() as int), max_points)
        };
    let end = window_end(e, times.len() as int);
    assert forall|i: int| 0 <= i < r.len() implies (#[trigger] r[i]).1.len() <= max_points by {
        assert(s < end);
        assert(entry_is_window(r[i], times, cols, s, end, max_points));
        let col = column_lookup(cols, r[i].0)->0;
        lemma_series_at_most_max_points(times, col, s, end, max_points);
    }
}

} // verus!
