//! The store holding the currently open recording.
use vstd::prelude::*;

use crate::fdr_query::{query_from_columns, query_outcome, series_view};
use crate::fdr_reader::columns_view;
use crate::fdr_reader::{DataPoint, FdrFileState, FileMetadata, TimeIndex};
use crate::parameters::{param_views, ParameterInfo, ParameterSpec};
use crate::text::{chars_equal, chars_of, lowercase_of, to_lowercase};

verus! {

broadcast use vstd::string::group_string_axioms;

/// The data store: the open recording, if any.
pub struct FdrStore {
    inner: Option<FdrFileState>,
}

/// Copies a list of parameters.
fn clone_params(v: &Vec<ParameterInfo>) -> (r: Vec<ParameterInfo>)
    ensures
        param_views(r@) == param_views(v@),
{
    let mut out: Vec<ParameterInfo> = Vec::new();
    let mut i: usize = 0;
    while i < v.len()
        invariant
            i <= v.len(),
            param_views(out@) == param_views(v@).take(i as int),
        decreases v.len() - i,
    {
        let p = v[i].clone();
        let ghost before = param_views(out@);
        out.push(p);
        assert(param_views(out@) =~= before.push(v@[i as int]@));
        i = i + 1;
        assert(param_views(out@) =~= param_views(v@).take(i as int));
    }
    assert(param_views(v@).take(v.len() as int) =~= param_views(v@));
    out
}

impl Default for FdrStore {
    /// No recording open.
    fn default() -> (r: Self)
        ensures
            !r.is_open_spec(),
    {
        FdrStore { inner: None }
    }
}

impl FdrStore {
    pub closed spec fn is_open_spec(&self) -> bool {
        self.inner is Some
    }

    pub closed spec fn metadata_spec(&self) -> FileMetadata {
        self.inner->0.metadata
    }

    pub closed spec fn times_spec(&self) -> Seq<u64> {
        self.inner->0.time_index@
    }

    pub closed spec fn columns_spec(&self) -> Seq<(Seq<char>, Seq<u64>)> {
        columns_view(self.inner->0.columns@)
    }

    pub closed spec fn parameters_spec(&self) -> Seq<ParameterSpec> {
        param_views(self.inner->0.parameters@)
    }

    /// No recording open.
    pub fn new() -> (r: Self)
        ensures
            !r.is_open_spec(),
    {
        FdrStore { inner: None }
    }

    /// Makes `state` the open recording, replacing any previous one.
    pub fn set_state(&mut self, state: FdrFileState)
        ensures
            final(self).is_open_spec(),
            final(self).metadata_spec() == state.metadata,
            final(self).times_spec() == state.time_index@,
            final(self).parameters_spec() == param_views(state.parameters@),
            final(self).columns_spec() == columns_view(state.columns@),
    {
        self.inner = Some(state);
    }

    /// Queries the open recording (see `query_from_columns`); without a recording the
    /// result is empty.
    pub fn query_range(
        &self,
        param_keys: &Vec<String>,
        time_start: u64,
        time_end: u64,
        max_points: usize,
    ) -> (r: Vec<(String, Vec<DataPoint>)>)
        ensures
            !self.is_open_spec() ==> r@.len() == 0,
            self.is_open_spec() ==> query_outcome(
                series_view(r@),
                self.times_spec(),
                self.columns_spec(),
                param_keys@.map_values(|k: String| k@),
                time_start,
                time_end,
                max_points as int,
            ),
    {
        match &self.inner {
            Some(state) => query_from_columns(
                &state.time_index,
                &state.columns,
                param_keys,
                time_start,
                time_end,
                max_points,
            ),
            None => Vec::new(),
        }
    }

    /// A copy of the open recording's time index.
    pub fn time_index(&self) -> (r: Option<TimeIndex>)
        ensures
            self.is_open_spec() <==> r is Some,
            r matches Some(t) ==> t@ == self.times_spec(),
    {
        match &self.inner {
            Some(state) => Some(state.time_index.clone()),
            None => None,
        }
    }

    pub fn metadata(&self) -> (r: Option<FileMetadata>)
        ensures
            self.is_open_spec() <==> r is Some,
            r matches Some(m) ==> m == self.metadata_spec(),
    {
        match &self.inner {
            Some(state) => Some(state.metadata),
            None => None,
        }
    }

    /// The open recording's parameters; none without a recording.
    pub fn parameters(&self) -> (r: Vec<ParameterInfo>)
        ensures
            self.is_open_spec() ==> param_views(r@) == self.parameters_spec(),
            !self.is_open_spec() ==> r@.len() == 0,
    {
        match &self.inner {
            Some(state) => clone_params(&state.parameters),
            None => Vec::new(),
        }
    }

    pub fn is_open(&self) -> (r: bool)
        ensures
            r == self.is_open_spec(),
    {
        self.inner.is_some()
    }

    /// Resets to no recording open.
    pub fn close(&mut self)
        ensures
            !final(self).is_open_spec(),
    {
        self.inner = None;
    }
}

/// Whether a file extension names a CSV recording ("csv" in any case, compared after
/// Unicode lower-casing); other files are read as binary recordings.
pub fn is_csv_extension(extension: &str) -> (r: bool)
    ensures
        r == (lowercase_of(extension@) == "csv"@),
{
    let lower = to_lowercase(extension);
    chars_equal(&chars_of(lower.as_str()), &chars_of("csv"))
}

} // verus!
