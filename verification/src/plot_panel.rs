//! Graph panels: which parameters a panel shows, their colours and visibility, and
//! whether its cached plot data is current.
use vstd::prelude::*;

use crate::downsample::{lttb, lttb_result};
use crate::fdr_query::series_view;
use crate::fdr_reader::DataPoint;
use crate::parameters::{ParameterInfo, ParameterSpec};
use crate::text::{chars_equal, chars_of};

verus! {

broadcast use vstd::string::group_string_axioms;

/// An opaque RGBA colour.
#[derive(Clone, Copy, PartialEq, Eq, Structural, Debug)]
pub struct Rgba {
    pub r: u8,
    pub g: u8,
    pub b: u8,
    pub a: u8,
}

/// Number of colours in the palette.
pub const PALETTE_LEN: usize = 12;

/// The colour palette, in assignment order.
pub open spec fn palette() -> Seq<Rgba> {
    seq![
        Rgba { r: 255, g: 87, b: 87, a: 255 },
        Rgba { r: 59, g: 180, b: 75, a: 255 },
        Rgba { r: 50, g: 120, b: 255, a: 255 },
        Rgba { r: 255, g: 193, b: 7, a: 255 },
        Rgba { r: 155, g: 89, b: 182, a: 255 },
        Rgba { r: 26, g: 188, b: 156, a: 255 },
        Rgba { r: 230, g: 126, b: 34, a: 255 },
        Rgba { r: 233, g: 30, b: 99, a: 255 },
        Rgba { r: 0, g: 188, b: 212, a: 255 },
        Rgba { r: 103, g: 58, b: 183, a: 255 },
        Rgba { r: 255, g: 152, b: 0, a: 255 },
        Rgba { r: 72, g: 61, b: 139, a: 255 },
    ]
}

/// The colour for the `n`-th entry of a panel: the palette repeats.
pub fn palette_color(n: usize) -> (c: Rgba)
    ensures
        c == palette()[(n % PALETTE_LEN) as int],
{
    let i = n % PALETTE_LEN;
    if i == 0 {
        Rgba { r: 255, g: 87, b: 87, a: 255 }
    } else if i == 1 {
        Rgba { r: 59, g: 180, b: 75, a: 255 }
    } else if i == 2 {
        Rgba { r: 50, g: 120, b: 255, a: 255 }
    } else if i == 3 {
        Rgba { r: 255, g: 193, b: 7, a: 255 }
    } else if i == 4 {
        Rgba { r: 155, g: 89, b: 182, a: 255 }
    } else if i == 5 {
        Rgba { r: 26, g: 188, b: 156, a: 255 }
    } else if i == 6 {
        Rgba { r: 230, g: 126, b: 34, a: 255 }
    } else if i == 7 {
        Rgba { r: 233, g: 30, b: 99, a: 255 }
    } else if i == 8 {
        Rgba { r: 0, g: 188, b: 212, a: 255 }
    } else if i == 9 {
        Rgba { r: 103, g: 58, b: 183, a: 255 }
    } else if i == 10 {
        Rgba { r: 255, g: 152, b: 0, a: 255 }
    } else {
        Rgba { r: 72, g: 61, b: 139, a: 255 }
    }
}

/// A parameter shown in a graph panel.
pub struct PlotEntry {
    pub param: ParameterInfo,
    pub color: Rgba,
    pub visible: bool,
}

/// The abstract value of a plot entry.
pub struct PlotEntrySpec {
    pub param: ParameterSpec,
    pub color: Rgba,
    pub visible: bool,
}

impl View for PlotEntry {
    type V = PlotEntrySpec;

    open spec fn view(&self) -> PlotEntrySpec {
        PlotEntrySpec { param: self.param@, color: self.color, visible: self.visible }
    }
}

/// The abstract values of a sequence of entries.
pub open spec fn entry_views(v: Seq<PlotEntry>) -> Seq<PlotEntrySpec> {
    v.map_values(|e: PlotEntry| e@)
}

/// The keys of the visible entries, in order.
pub open spec fn visible_keys_spec(entries: Seq<PlotEntrySpec>) -> Seq<Seq<char>>
    decreases entries.len(),
{
    if entries.len() == 0 {
        Seq::empty()
    } else {
        let prev = visible_keys_spec(entries.drop_last());
        if entries.last().visible {
            prev.push(entries.last().param.key)
        } else {
            prev
        }
    }
}

/// The series of the first entry of `raw` keyed `key`, if any.
pub open spec fn series_lookup(raw: Seq<(Seq<char>, Seq<DataPoint>)>, key: Seq<char>) -> Option<Seq<DataPoint>>
    decreases raw.len(),
{
    if raw.len() == 0 {
        None
    } else if raw[0].0 == key {
        Some(raw[0].1)
    } else {
        series_lookup(raw.drop_first(), key)
    }
}

/// The keys of the entries (visible or not) that `raw` has a series for, in entry order.
pub open spec fn cached_keys(entries: Seq<PlotEntrySpec>, raw: Seq<(Seq<char>, Seq<DataPoint>)>) -> Seq<Seq<char>>
    decreases entries.len(),
{
    if entries.len() == 0 {
        Seq::empty()
    } else {
        let prev = cached_keys(entries.drop_last(), raw);
        if series_lookup(raw, entries.last().param.key) is Some {
            prev.push(entries.last().param.key)
        } else {
            prev
        }
    }
}

/// The first series of `raw` keyed `key`.
fn find_series<'a>(raw: &'a Vec<(String, Vec<DataPoint>)>, key: &str) -> (r: Option<&'a Vec<DataPoint>>)
    ensures
        match series_lookup(series_view(raw@), key@) {
            Some(sv) => r matches Some(v) && v@ == sv,
            None => r is None,
        },
{
    let ghost rv = series_view(raw@);
    let k = chars_of(key);
    let mut i: usize = 0;
    assert(rv.skip(0) =~= rv);
    while i < raw.len()
        invariant
            i <= raw.len(),
            rv == series_view(raw@),
            k@ == key@,
            series_lookup(rv, key@) == series_lookup(rv.skip(i as int), key@),
        decreases raw.len() - i,
    {
        let name = chars_of(raw[i].0.as_str());
        assert(rv.skip(i as int)[0] == rv[i as int]);
        if chars_equal(&name, &k) {
            return Some(&raw[i].1);
        }
        assert(rv.skip(i as int).drop_first() =~= rv.skip(i + 1));
        i = i + 1;
    }
    assert(rv.skip(i as int).len() == 0);
    None
}

/// State of one graph panel.
pub struct PlotPanel {
    title: String,
    entries: Vec<PlotEntry>,
    auto_y: bool,
    cache_valid: bool,
}

impl Default for PlotPanel {
    /// An empty panel titled "New Graph" with an automatic Y axis and no valid cache.
    fn default() -> (r: Self)
        ensures
            r.title_spec() == "New Graph"@,
            r.entries_spec().len() == 0,
            r.auto_y_spec(),
            !r.cached(),
    {
        PlotPanel { title: "New Graph".to_string(), entries: Vec::new(), auto_y: true, cache_valid: false }
    }
}

impl PlotPanel {
    pub closed spec fn title_spec(&self) -> Seq<char> {
        self.title@
    }

    pub closed spec fn entries_spec(&self) -> Seq<PlotEntrySpec> {
        entry_views(self.entries@)
    }

    pub closed spec fn auto_y_spec(&self) -> bool {
        self.auto_y
    }

    pub closed spec fn cached(&self) -> bool {
        self.cache_valid
    }

    /// An empty panel with the given title.
    pub fn new(title: &str) -> (r: Self)
        ensures
            r.title_spec() == title@,
            r.entries_spec().len() == 0,
            r.auto_y_spec(),
            !r.cached(),
    {
        PlotPanel { title: title.to_string(), entries: Vec::new(), auto_y: true, cache_valid: false }
    }

    /// Adds a visible entry coloured by its position, and invalidates the cache.
    pub fn add_entry(&mut self, param: ParameterInfo)
        ensures
            final(self).entries_spec() == old(self).entries_spec().push(
                PlotEntrySpec {
                    param: param@,
                    color: palette()[(old(self).entries_spec().len() % PALETTE_LEN as nat) as int],
                    visible: true,
                },
            ),
            !final(self).cached(),
            final(self).title_spec() == old(self).title_spec(),
            final(self).auto_y_spec() == old(self).auto_y_spec(),
    {
        let color = palette_color(self.entries.len());
        let ghost old_entries = entry_views(self.entries@);
        let ghost pv = param@;
        self.entries.push(PlotEntry { param, color, visible: true });
        assert(entry_views(self.entries@) =~= old_entries.push(PlotEntrySpec { param: pv, color, visible: true }));
        self.cache_valid = false;
    }

    /// Removes the entry at `idx` if there is one, invalidating the cache; returns the
    /// removed entry's key (its cached series is to be dropped).
    pub fn remove_entry(&mut self, idx: usize) -> (r: Option<String>)
        ensures
            idx < old(self).entries_spec().len() ==> {
                &&& final(self).entries_spec() == old(self).entries_spec().remove(idx as int)
                &&& !final(self).cached()
                &&& r matches Some(k) && k@ == old(self).entries_spec()[idx as int].param.key
            },
            idx >= old(self).entries_spec().len() ==> {
                &&& final(self).entries_spec() == old(self).entries_spec()
                &&& final(self).cached() == old(self).cached()
                &&& r is None
            },
            final(self).title_spec() == old(self).title_spec(),
            final(self).auto_y_spec() == old(self).auto_y_spec(),
    {
        if idx < self.entries.len() {
            let key = self.entries[idx].param.key.clone();
            let ghost old_entries = self.entries@;
            self.entries.remove(idx);
            assert(entry_views(self.entries@) =~= entry_views(old_entries).remove(idx as int));
            self.cache_valid = false;
            Some(key)
        } else {
            None
        }
    }

    pub fn invalidate_cache(&mut self)
        ensures
            !final(self).cached(),
            final(self).entries_spec() == old(self).entries_spec(),
            final(self).title_spec() == old(self).title_spec(),
            final(self).auto_y_spec() == old(self).auto_y_spec(),
    {
        self.cache_valid = false;
    }

    pub fn is_cached(&self) -> (r: bool)
        ensures
            r == self.cached(),
    {
        self.cache_valid
    }

    pub fn title(&self) -> (r: &str)
        ensures
            r@ == self.title_spec(),
    {
        self.title.as_str()
    }

    pub fn entries(&self) -> (r: &Vec<PlotEntry>)
        ensures
            entry_views(r@) == self.entries_spec(),
    {
        &self.entries
    }

    /// The entries, for editing their visibility and colour.
    pub fn entries_mut(&mut self) -> (r: &mut Vec<PlotEntry>)
        ensures
            entry_views(r@) == old(self).entries_spec(),
            entry_views(final(r)@) == final(self).entries_spec(),
            final(self).title_spec() == old(self).title_spec(),
            final(self).auto_y_spec() == old(self).auto_y_spec(),
            final(self).cached() == old(self).cached(),
    {
        &mut self.entries
    }

    pub fn auto_y(&self) -> (r: bool)
        ensures
            r == self.auto_y_spec(),
    {
        self.auto_y
    }

    /// Rebuilds the panel's plot data from queried series: for each entry (visible or
    /// not), in entry order, whose key has a series in `raw`, that series reduced to at
    /// most `max_points` points (see `lttb`, with the triangle areas from `area`). The
    /// cache is then current.
    pub fn update_cache<F: Fn(DataPoint, DataPoint, DataPoint) -> u64 + Copy>(
        &mut self,
        raw: &Vec<(String, Vec<DataPoint>)>,
        max_points: usize,
        area: F,
    ) -> (r: Vec<(String, Vec<DataPoint>)>)
        requires
            forall|a: DataPoint, b: DataPoint, c: DataPoint| call_requires(area, (a, b, c)),
        ensures
            final(self).cached(),
            final(self).entries_spec() == old(self).entries_spec(),
            final(self).title_spec() == old(self).title_spec(),
            final(self).auto_y_spec() == old(self).auto_y_spec(),
            r@.len() == cached_keys(old(self).entries_spec(), series_view(raw@)).len(),
            forall|i: int|
                0 <= i < r@.len() ==> {
                    let key = cached_keys(old(self).entries_spec(), series_view(raw@))[i];
                    &&& (#[trigger] r@[i]).0@ == key
                    &&& lttb_result(series_lookup(series_view(raw@), key)->0, max_points as int, area, r@[i].1@)
                },
    {
        let ghost rv = series_view(raw@);
        let ghost ev = entry_views(self.entries@);
        let mut out: Vec<(String, Vec<DataPoint>)> = Vec::new();
        let mut e: usize = 0;
        while e < self.entries.len()
            invariant
                e <= self.entries.len(),
                ev == entry_views(self.entries@),
                rv == series_view(raw@),
                forall|a: DataPoint, b: DataPoint, c: DataPoint| call_requires(area, (a, b, c)),
                out@.len() == cached_keys(ev.take(e as int), rv).len(),
                forall|i: int|
                    0 <= i < out@.len() ==> {
                        let key = cached_keys(ev.take(e as int), rv)[i];
                        &&& (#[trigger] out@[i]).0@ == key
                        &&& lttb_result(series_lookup(rv, key)->0, max_points as int, area, out@[i].1@)
                    },
            decreases self.entries.len() - e,
        {
            let key = &self.entries[e].param.key;
            let ghost next = ev.take(e + 1);
            assert(next.drop_last() =~= ev.take(e as int));
            assert(next.last().param.key == key@);
            let ghost prev_keys = cached_keys(ev.take(e as int), rv);
            match find_series(raw, key.as_str()) {
                Some(series) => {
                    let reduced = lttb(series, max_points, area);
                    let ghost old_out = out@;
                    out.push((key.clone(), reduced));
                    proof {
                        assert(cached_keys(next, rv) == prev_keys.push(key@));
                        assert forall|i: int|
                            0 <= i < out@.len() implies {
                                let k = cached_keys(next, rv)[i];
                                &&& (#[trigger] out@[i]).0@ == k
                                &&& lttb_result(series_lookup(rv, k)->0, max_points as int, area, out@[i].1@)
                            } by {
                            if i < old_out.len() {
                                assert(out@[i] == old_out[i]);
                            }
                        }
                    }
                },
                None => {
                    assert(cached_keys(next, rv) == prev_keys);
                },
            }
            e = e + 1;
        }
        assert(ev.take(self.entries.len() as int) =~= ev);
        self.cache_valid = true;
        out
    }

    pub fn set_auto_y(&mut self, auto_y: bool)
        ensures
            final(self).auto_y_spec() == auto_y,
            final(self).entries_spec() == old(self).entries_spec(),
            final(self).title_spec() == old(self).title_spec(),
            final(self).cached() == old(self).cached(),
    {
        self.auto_y = auto_y;
    }

    /// The keys of all visible entries, in entry order.
    pub fn visible_keys(&self) -> (r: Vec<&str>)
        ensures
            r@.map_values(|k: &str| k@) == visible_keys_spec(self.entries_spec()),
    {
        let mut keys: Vec<&str> = Vec::new();
        let mut i: usize = 0;
        while i < self.entries.len()
            invariant
                i <= self.entries.len(),
                keys@.map_values(|k: &str| k@) == visible_keys_spec(entry_views(self.entries@).take(i as int)),
            decreases self.entries.len() - i,
        {
            let ghost next = entry_views(self.entries@).take(i + 1);
            assert(next.drop_last() =~= entry_views(self.entries@).take(i as int));
            assert(next.last() == self.entries@[i as int]@);
            let e = &self.entries[i];
            if e.visible {
                let ghost old_keys = keys@;
                let k: &str = e.param.key.as_str();
                keys.push(k);
                assert(keys@.map_values(|k: &str| k@) =~= old_keys.map_values(|k: &str| k@).push(k@));
            }
            i = i + 1;
        }
        assert(entry_views(self.entries@).take(self.entries.len() as int) =~= entry_views(self.entries@));
        keys
    }
}

/// The keys of all lists, each key once, in order of first appearance.
pub open spec fn unique_keys_spec(lists: Seq<Seq<Seq<char>>>) -> Seq<Seq<char>>
    decreases lists.len(),
{
    if lists.len() == 0 {
        Seq::empty()
    } else {
        append_new(unique_keys_spec(lists.drop_last()), lists.last())
    }
}

/// `acc` followed by the keys of `keys` it does not hold yet, in order, each once.
pub open spec fn append_new(acc: Seq<Seq<char>>, keys: Seq<Seq<char>>) -> Seq<Seq<char>>
    decreases keys.len(),
{
    if keys.len() == 0 {
        acc
    } else {
        let prev = append_new(acc, keys.drop_last());
        if prev.contains(keys.last()) {
            prev
        } else {
            prev.push(keys.last())
        }
    }
}

/// A key is in a list exactly when it is in the list without its last key, or is that key.
proof fn lemma_contains_after_drop_last(keys: Seq<Seq<char>>, k: Seq<char>)
    requires
        keys.len() > 0,
    ensures
        keys.contains(k) <==> (keys.drop_last().contains(k) || k == keys.last()),
{
    if keys.contains(k) {
        let i = choose|i: int| 0 <= i < keys.len() && keys[i] == k;
        if i < keys.len() - 1 {
            assert(keys.drop_last()[i] == k);
        }
    }
    if keys.drop_last().contains(k) {
        let i = choose|i: int| 0 <= i < keys.drop_last().len() && keys.drop_last()[i] == k;
        assert(keys[i] == k);
    }
    if k == keys.last() {
        assert(keys[keys.len() - 1] == k);
    }
}

/// `append_new` holds the keys of `acc` and of `keys` and no others, and adds no repeat.
proof fn lemma_append_new(acc: Seq<Seq<char>>, keys: Seq<Seq<char>>)
    ensures
        acc.no_duplicates() ==> append_new(acc, keys).no_duplicates(),
        forall|k: Seq<char>| #[trigger] append_new(acc, keys).contains(k) <==> (acc.contains(k) || keys.contains(k)),
    decreases keys.len(),
{
    if keys.len() > 0 {
        lemma_append_new(acc, keys.drop_last());
        let prev = append_new(acc, keys.drop_last());
        let x = keys.last();
        assert forall|k: Seq<char>| #[trigger] append_new(acc, keys).contains(k) <==> (acc.contains(k) || keys.contains(k)) by {
            lemma_contains_after_drop_last(keys, k);
            if !prev.contains(x) {
                lemma_contains_after_drop_last(prev.push(x), k);
                assert(prev.push(x).drop_last() =~= prev);
            }
        }
        if acc.no_duplicates() && !prev.contains(x) {
            assert forall|i: int, j: int| 0 <= i < j < prev.push(x).len() implies prev.push(x)[i] != prev.push(x)[j] by {
                if j == prev.len() {
                    assert(prev[i] == prev.push(x)[i]);
                }
            }
        }
    }
}

/// Merging keeps each key once, and keeps exactly the keys found in the lists.
pub proof fn lemma_merged_keys_unique(lists: Seq<Seq<Seq<char>>>)
    ensures
        unique_keys_spec(lists).no_duplicates(),
        forall|k: Seq<char>|
            #[trigger] unique_keys_spec(lists).contains(k) <==> exists|i: int| 0 <= i < lists.len() && lists[i].contains(k),
    decreases lists.len(),
{
    if lists.len() > 0 {
        lemma_merged_keys_unique(lists.drop_last());
        lemma_append_new(unique_keys_spec(lists.drop_last()), lists.last());
        assert forall|k: Seq<char>|
            #[trigger] unique_keys_spec(lists).contains(k) <==> exists|i: int| 0 <= i < lists.len() && lists[i].contains(k) by {
            if exists|i: int| 0 <= i < lists.len() && lists[i].contains(k) {
                let i = choose|i: int| 0 <= i < lists.len() && lists[i].contains(k);
                if i < lists.len() - 1 {
                    assert(lists.drop_last()[i].contains(k));
                }
            }
            if exists|i: int| 0 <= i < lists.drop_last().len() && lists.drop_last()[i].contains(k) {
                let i = choose|i: int| 0 <= i < lists.drop_last().len() && lists.drop_last()[i].contains(k);
                assert(lists[i].contains(k));
            }
        }
    }
}

fn contains_key(v: &Vec<&str>, key: &str) -> (r: bool)
    ensures
        r == v@.map_values(|k: &str| k@).contains(key@),
{
    let ghost kv = v@.map_values(|k: &str| k@);
    let mut i: usize = 0;
    while i < v.len()
        invariant
            i <= v.len(),
            kv == v@.map_values(|k: &str| k@),
            forall|m: int| 0 <= m < i ==> kv[m] != key@,
        decreases v.len() - i,
    {
        let a = crate::text::chars_of(v[i]);
        let b = crate::text::chars_of(key);
        assert(kv[i as int] == a@);
        if crate::text::chars_equal(&a, &b) {
            assert(kv[i as int] == key@);
            return true;
        }
        i = i + 1;
    }
    false
}

/// Merges the visible keys of several panels, keeping each key once.
pub fn merge_keys<'a>(lists: &Vec<Vec<&'a str>>) -> (r: Vec<&'a str>)
    ensures
        r@.map_values(|k: &str| k@) == unique_keys_spec(
            lists@.map_values(|l: Vec<&'a str>| l@.map_values(|k: &str| k@)),
        ),
{
    let ghost lv = lists@.map_values(|l: Vec<&'a str>| l@.map_values(|k: &str| k@));
    let mut keys: Vec<&'a str> = Vec::new();
    let mut i: usize = 0;
    while i < lists.len()
        invariant
            i <= lists.len(),
            lv == lists@.map_values(|l: Vec<&'a str>| l@.map_values(|k: &str| k@)),
            keys@.map_values(|k: &str| k@) == unique_keys_spec(lv.take(i as int)),
        decreases lists.len() - i,
    {
        let list = &lists[i];
        let ghost lk = list@.map_values(|k: &str| k@);
        let ghost start = keys@.map_values(|k: &str| k@);
        let ghost next = lv.take(i + 1);
        assert(next.drop_last() =~= lv.take(i as int));
        assert(next.last() == lk);
        let mut j: usize = 0;
        while j < list.len()
            invariant
                j <= list.len(),
                lk == list@.map_values(|k: &str| k@),
                keys@.map_values(|k: &str| k@) == append_new(start, lk.take(j as int)),
            decreases list.len() - j,
        {
            let key = list[j];
            let ghost nj = lk.take(j + 1);
            assert(nj.drop_last() =~= lk.take(j as int));
            assert(nj.last() == key@);
            if !contains_key(&keys, key) {
                let ghost old_keys = keys@;
                keys.push(key);
                assert(keys@.map_values(|k: &str| k@) =~= old_keys.map_values(|k: &str| k@).push(key@));
            }
            j = j + 1;
        }
        assert(lk.take(list.len() as int) =~= lk);
        i = i + 1;
    }
    assert(lv.take(lists.len() as int) =~= lv);
    keys
}

} // verus!
