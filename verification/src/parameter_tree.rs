//! Parameter tree: parameters grouped by their browser group, groups in name order.
use vstd::prelude::*;

use crate::parameters::{param_views, ParameterInfo, ParameterSpec};
use crate::text::{
    chars_contain, chars_eq_ignore_ascii_case, chars_less, chars_lt, chars_of, contains_seq,
    eq_ignore_ascii_case_spec, lemma_chars_lt_asymmetric, lemma_chars_lt_irreflexive,
    lemma_chars_lt_transitive, lemma_chars_lt_trichotomy,
};

verus! {

broadcast use vstd::string::group_string_axioms;

/// The abstract value of one group: its name and its parameters.
pub open spec fn group_view(g: (String, Vec<ParameterInfo>)) -> (Seq<char>, Seq<ParameterSpec>) {
    (g.0@, param_views(g.1@))
}

/// The abstract values of a sequence of groups.
pub open spec fn groups_view(gs: Seq<(String, Vec<ParameterInfo>)>) -> Seq<(Seq<char>, Seq<ParameterSpec>)> {
    gs.map_values(|g: (String, Vec<ParameterInfo>)| group_view(g))
}

/// Group names strictly increase (so each name occurs once), as in a map keyed by name.
pub open spec fn names_strictly_sorted(gs: Seq<(Seq<char>, Seq<ParameterSpec>)>) -> bool {
    forall|i: int, j: int| 0 <= i < j < gs.len() ==> chars_lt(#[trigger] gs[i].0, #[trigger] gs[j].0)
}

/// The parameters of `params` whose group is `g`, in their original order.
pub open spec fn group_members(params: Seq<ParameterSpec>, g: Seq<char>) -> Seq<ParameterSpec>
    decreases params.len(),
{
    if params.len() == 0 {
        Seq::<ParameterSpec>::empty()
    } else {
        let prev = group_members(params.drop_last(), g);
        if params.last().group == g {
            prev.push(params.last())
        } else {
            prev
        }
    }
}

/// Whether a parameter matches a search query: its display name contains the query.
pub open spec fn param_matches(p: ParameterSpec, query: Seq<char>) -> bool {
    contains_seq(p.display_name, query)
}

/// The parameters of `ps` that match `query`, in order.
pub open spec fn matching_params(ps: Seq<ParameterSpec>, query: Seq<char>) -> Seq<ParameterSpec>
    decreases ps.len(),
{
    if ps.len() == 0 {
        Seq::<ParameterSpec>::empty()
    } else {
        let prev = matching_params(ps.drop_last(), query);
        if param_matches(ps.last(), query) {
            prev.push(ps.last())
        } else {
            prev
        }
    }
}

/// The groups with their matching parameters, leaving out groups where nothing matches.
pub open spec fn filter_groups(gs: Seq<(Seq<char>, Seq<ParameterSpec>)>, query: Seq<char>) -> Seq<
    (Seq<char>, Seq<ParameterSpec>),
>
    decreases gs.len(),
{
    if gs.len() == 0 {
        Seq::empty()
    } else {
        let prev = filter_groups(gs.drop_last(), query);
        let m = matching_params(gs.last().1, query);
        if m.len() > 0 {
            prev.push((gs.last().0, m))
        } else {
            prev
        }
    }
}

/// Some group of `gs` is named `g`.
pub open spec fn has_group(gs: Seq<(Seq<char>, Seq<ParameterSpec>)>, g: Seq<char>) -> bool {
    exists|i: int| 0 <= i < gs.len() && #[trigger] gs[i].0 == g
}

/// Hierarchical tree: group name -> parameters within that group.
pub struct ParameterTree {
    /// The groups, ordered by name, each with its parameters.
    pub groups: Vec<(String, Vec<ParameterInfo>)>,
}

impl View for ParameterTree {
    type V = Seq<(Seq<char>, Seq<ParameterSpec>)>;

    open spec fn view(&self) -> Self::V {
        groups_view(self.groups@)
    }
}

/// The views of a sequence of parameter references.
pub open spec fn ref_views(v: Seq<&ParameterInfo>) -> Seq<ParameterSpec> {
    v.map_values(|p: &ParameterInfo| p@)
}

/// The abstract values of a filtered result.
pub open spec fn filtered_view(gs: Seq<(String, Vec<&ParameterInfo>)>) -> Seq<(Seq<char>, Seq<ParameterSpec>)> {
    gs.map_values(|g: (String, Vec<&ParameterInfo>)| (g.0@, ref_views(g.1@)))
}

impl ParameterTree {
    /// The tree is well formed: group names strictly increase and no group is empty.
    pub open spec fn wf(&self) -> bool {
        &&& names_strictly_sorted(self@)
        &&& forall|i: int| 0 <= i < self@.len() ==> #[trigger] self@[i].1.len() > 0
    }

    /// Builds a tree from a flat list of parameters, grouped by their `group` field.
    /// Every group that some parameter names appears exactly once, with exactly the
    /// parameters of that group in their input order.
    pub fn build(params: &[ParameterInfo]) -> (r: Self)
        ensures
            r.wf(),
            forall|i: int|
                0 <= i < r@.len() ==> #[trigger] r@[i].1 == group_members(
                    params@.map_values(|p: ParameterInfo| p@),
                    r@[i].0,
                ),
            forall|k: int| 0 <= k < params.len() ==> has_group(r@, #[trigger] params@[k].group@),
    {
        let ghost ps = params@.map_values(|p: ParameterInfo| p@);
        let mut groups: Vec<(String, Vec<ParameterInfo>)> = Vec::new();
        let mut k: usize = 0;
        while k < params.len()
            invariant
                k <= params.len(),
                ps == params@.map_values(|p: ParameterInfo| p@),
                names_strictly_sorted(groups_view(groups@)),
                forall|i: int|
                    0 <= i < groups@.len() ==> #[trigger] groups_view(groups@)[i].1
                        == group_members(ps.take(k as int), groups_view(groups@)[i].0),
                forall|i: int|
                    0 <= i < groups@.len() ==> #[trigger] groups_view(groups@)[i].1.len() > 0,
                forall|m: int| 0 <= m < k ==> has_group(groups_view(groups@), #[trigger] ps[m].group),
            decreases params.len() - k,
        {
            let p = &params[k];
            let g = chars_of(p.group.as_str());
            let ghost old_view = groups_view(groups@);
            let ghost next = ps.take(k + 1);
            assert(next.drop_last() =~= ps.take(k as int));
            assert(next.last() == ps[k as int]);
            assert(ps[k as int] == p@);
            // Find the first group whose name does not sort before `g`.
            let mut j: usize = 0;
            while j < groups.len() && chars_less(&chars_of(groups[j].0.as_str()), &g)
                invariant
                    j <= groups.len(),
                    groups_view(groups@) == old_view,
                    g@ == p.group@,
                    forall|i: int| 0 <= i < j ==> chars_lt(#[trigger] old_view[i].0, g@),
                decreases groups.len() - j,
            {
                j = j + 1;
            }
            let same = if j < groups.len() {
                let name_chars = chars_of(groups[j].0.as_str());
                crate::text::chars_equal(&name_chars, &g)
            } else {
                false
            };
            if same {
                let ghost before_j = old_view[j as int];
                let ghost old_groups = groups@;
                let cp = p.clone();
                groups[j].1.push(cp);
                assert(groups@[j as int].0 == old_groups[j as int].0);
                assert(param_views(groups@[j as int].1@) =~= param_views(old_groups[j as int].1@).push(p@));
                assert(group_view(old_groups[j as int]) == before_j);
                assert(forall|i: int| 0 <= i < groups@.len() && i != j ==> groups@[i] == old_groups[i]);
                proof {
                    assert forall|i: int| 0 <= i < groups@.len() implies #[trigger] groups_view(
                        groups@,
                    )[i].1 == group_members(next, groups_view(groups@)[i].0) by {
                        if i == j {
                            assert(groups_view(groups@)[i] == (before_j.0, before_j.1.push(
                                p@,
                            )));
                        } else {
                            assert(groups_view(groups@)[i] == old_view[i]);
                            if old_view[i].0 == g@ {
                                if i < j {
                                    lemma_chars_lt_irreflexive(g@);
                                } else {
                                    lemma_chars_lt_irreflexive(g@);
                                    assert(chars_lt(old_view[j as int].0, old_view[i].0));
                                }
                            }
                        }
                    }
                    assert(groups_view(groups@) =~= old_view.update(
                        j as int,
                        (before_j.0, before_j.1.push(p@)),
                    ));
                    assert forall|m: int| 0 <= m < k + 1 implies has_group(groups_view(groups@), #[trigger] ps[m].group) by {
                        if m == k {
                            assert(groups_view(groups@)[j as int].0 == ps[m].group);
                        } else {
                            let i = choose|i: int|
                                0 <= i < old_view.len() && #[trigger] old_view[i].0 == ps[m].group;
                            assert(groups_view(groups@)[i].0 == ps[m].group);
                        }
                    }
                }
            } else {
                proof {
                    if j < groups.len() {
                        lemma_chars_lt_trichotomy(old_view[j as int].0, g@);
                    }
                }
                let name = p.group.clone();
                let mut members: Vec<ParameterInfo> = Vec::new();
                members.push(p.clone());
                assert(param_views(members@) =~= seq![p@]);
                groups.insert(j, (name, members));
                proof {
                    let new_view = groups_view(groups@);
                    assert(new_view =~= old_view.insert(j as int, (g@, seq![p@])));
                    assert(group_members(ps.take(k as int), g@).len() == 0) by {
                        assert forall|m: int| 0 <= m < k implies #[trigger] ps.take(
                            k as int,
                        )[m].group != g@ by {
                            let i = choose|i: int|
                                0 <= i < old_view.len() && #[trigger] old_view[i].0 == ps[m].group;
                            if ps[m].group == g@ {
                                if i < j {
                                    lemma_chars_lt_irreflexive(g@);
                                } else {
                                    lemma_chars_lt_irreflexive(g@);
                                    if i > j {
                                        lemma_chars_lt_asymmetric(g@, old_view[j as int].0);
                                        lemma_chars_lt_transitive(
                                            old_view[j as int].0,
                                            old_view[i].0,
                                            g@,
                                        );
                                    }
                                }
                            }
                        }
                        lemma_members_absent(ps.take(k as int), g@);
                    }
                    assert forall|a: int, b: int|
                        0 <= a < b < new_view.len() implies chars_lt(
                        #[trigger] new_view[a].0,
                        #[trigger] new_view[b].0,
                    ) by {
                        if a < j && b == j {
                        } else if a < j && b > j {
                        } else if a == j && b > j {
                            if b - 1 > j {
                                lemma_chars_lt_transitive(g@, old_view[j as int].0, old_view[b - 1].0);
                            }
                        } else if a > j {
                        }
                    }
                    assert forall|i: int| 0 <= i < groups@.len() implies #[trigger] groups_view(
                        groups@,
                    )[i].1 == group_members(next, groups_view(groups@)[i].0) by {
                        if i == j {
                        } else {
                            let oi = if i < j { i } else { i - 1 };
                            assert(new_view[i] == old_view[oi]);
                            if old_view[oi].0 == g@ {
                                lemma_chars_lt_irreflexive(g@);
                                if oi >= j && oi > j {
                                    lemma_chars_lt_asymmetric(g@, old_view[j as int].0);
                                    lemma_chars_lt_transitive(old_view[j as int].0, old_view[oi].0, g@);
                                }
                            }
                        }
                    }
                    assert forall|m: int| 0 <= m < k + 1 implies has_group(groups_view(groups@), #[trigger] ps[m].group) by {
                        if m == k {
                            assert(new_view[j as int].0 == ps[m].group);
                        } else {
                            let i = choose|i: int|
                                0 <= i < old_view.len() && #[trigger] old_view[i].0 == ps[m].group;
                            if i < j {
                                assert(new_view[i].0 == ps[m].group);
                            } else {
                                assert(new_view[i + 1].0 == ps[m].group);
                            }
                        }
                    }
                }
            }
            k = k + 1;
        }
        assert(ps.take(params.len() as int) =~= ps);
        let tree = ParameterTree { groups };
        assert forall|k2: int| 0 <= k2 < params.len() implies has_group(tree@, #[trigger] params@[k2].group@) by {
            assert(ps[k2] == params@[k2]@);
            assert(has_group(groups_view(tree.groups@), ps[k2].group));
        }
        tree
    }

    /// Looks up a group by name, ignoring ASCII case: the first group in name order whose
    /// name equals `name` up to ASCII case.
    pub fn get_group(&self, name: &str) -> (r: Option<&Vec<ParameterInfo>>)
        ensures
            r is Some <==> exists|i: int|
                0 <= i < self@.len() && eq_ignore_ascii_case_spec(#[trigger] self@[i].0, name@),
            r matches Some(v) ==> exists|i: int|
                0 <= i < self@.len() && eq_ignore_ascii_case_spec(self@[i].0, name@)
                    && param_views(v@) == #[trigger] self@[i].1 && forall|j: int|
                    0 <= j < i ==> !eq_ignore_ascii_case_spec(#[trigger] self@[j].0, name@),
    {
        let n = chars_of(name);
        let mut i: usize = 0;
        while i < self.groups.len()
            invariant
                i <= self.groups.len(),
                n@ == name@,
                forall|j: int| 0 <= j < i ==> !eq_ignore_ascii_case_spec(#[trigger] self@[j].0, name@),
            decreases self.groups.len() - i,
        {
            let key = chars_of(self.groups[i].0.as_str());
            assert(self@[i as int].0 == key@);
            if chars_eq_ignore_ascii_case(&key, &n) {
                assert(self@[i as int] == group_view(self.groups@[i as int]));
                assert(param_views(self.groups@[i as int].1@) == self@[i as int].1);
                return Some(&self.groups[i].1);
            }
            i = i + 1;
        }
        None
    }

    /// Filters the tree to the parameters whose display name contains `query`, dropping
    /// groups where nothing matches.
    pub fn filtered<'a>(&'a self, query: &str) -> (r: Vec<(String, Vec<&'a ParameterInfo>)>)
        ensures
            filtered_view(r@) == filter_groups(self@, query@),
    {
        let q = chars_of(query);
        let mut result: Vec<(String, Vec<&'a ParameterInfo>)> = Vec::new();
        let mut gi: usize = 0;
        while gi < self.groups.len()
            invariant
                gi <= self.groups.len(),
                q@ == query@,
                filtered_view(result@) == filter_groups(self@.take(gi as int), query@),
            decreases self.groups.len() - gi,
        {
            let params = &self.groups[gi].1;
            let ghost gv = self@[gi as int];
            assert(gv.1 == param_views(params@));
            let mut matches: Vec<&'a ParameterInfo> = Vec::new();
            let mut pi: usize = 0;
            while pi < params.len()
                invariant
                    pi <= params.len(),
                    params == &self.groups@[gi as int].1,
                    gv.1 == param_views(params@),
                    q@ == query@,
                    ref_views(matches@) == matching_params(gv.1.take(pi as int), query@),
                decreases params.len() - pi,
            {
                let p = &params[pi];
                let ghost next = gv.1.take(pi + 1);
                assert(next.drop_last() =~= gv.1.take(pi as int));
                assert(next.last() == p@);
                if chars_contain(&chars_of(p.display_name.as_str()), &q) {
                    matches.push(p);
                }
                pi = pi + 1;
                assert(ref_views(matches@) =~= matching_params(next, query@));
            }
            assert(gv.1.take(params.len() as int) =~= gv.1);
            let ghost next_g = self@.take(gi + 1);
            assert(next_g.drop_last() =~= self@.take(gi as int));
            assert(next_g.last() == gv);
            if matches.len() > 0 {
                let name = self.groups[gi].0.clone();
                result.push((name, matches));
            }
            gi = gi + 1;
            assert(filtered_view(result@) =~= filter_groups(next_g, query@));
        }
        assert(self@.take(self.groups.len() as int) =~= self@);
        result
    }
}

/// No parameter of `params` names group `g`, so `g` has no members.
pub proof fn lemma_members_absent(params: Seq<ParameterSpec>, g: Seq<char>)
    requires
        forall|m: int| 0 <= m < params.len() ==> #[trigger] params[m].group != g,
    ensures
        group_members(params, g).len() == 0,
    decreases params.len(),
{
    if params.len() > 0 {
        lemma_members_absent(params.drop_last(), g);
    }
}

/// Every text contains the empty query.
proof fn lemma_contains_empty(s: Seq<char>)
    ensures
        contains_seq(s, Seq::<char>::empty()),
{
    let e = Seq::<char>::empty();
    assert(s.subrange(0, 0 + e.len() as int) =~= e);
}

/// The empty query matches every parameter.
proof fn lemma_matching_empty_query(ps: Seq<ParameterSpec>)
    ensures
        matching_params(ps, Seq::<char>::empty()) == ps,
    decreases ps.len(),
{
    if ps.len() > 0 {
        lemma_matching_empty_query(ps.drop_last());
        lemma_contains_empty(ps.last().display_name);
        assert(ps.drop_last().push(ps.last()) =~= ps);
    }
}

/// Filtering with the empty query keeps every group whole, in order, when no group is
/// empty (as in every tree that `build` makes).
pub proof fn lemma_filter_empty_query(gs: Seq<(Seq<char>, Seq<ParameterSpec>)>)
    requires
        forall|i: int| 0 <= i < gs.len() ==> #[trigger] gs[i].1.len() > 0,
    ensures
        filter_groups(gs, Seq::<char>::empty()) == gs,
    decreases gs.len(),
{
    if gs.len() > 0 {
        assert(gs.last().1.len() > 0);
        lemma_filter_empty_query(gs.drop_last());
        lemma_matching_empty_query(gs.last().1);
        assert(gs.drop_last().push((gs.last().0, gs.last().1)) =~= gs);
    }
}

} // verus!
