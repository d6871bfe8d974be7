//! The laws of the builder, proved once and for all over the model that
//! [`crate::builder::FamilyTreeProcessor::build`] is held to.

use vstd::prelude::*;
use crate::graph::last_incoming;
use crate::model::{
    build_spec, has_incoming, init_model, lemma_init_model_wf, lemma_step_row_wf, model_wf,
    run_groups, run_rows, step_row, Model,
};
use crate::person::RootInfoView;
use crate::relation::{classify, has_char, has_triple, marker_count, Relationship};

verus! {

/// Folding one group of rows preserves well-formedness.
pub proof fn lemma_run_rows_wf(m: Model, rows: Seq<Seq<Seq<char>>>, base: int)
    requires
        model_wf(m),
        run_rows(m, rows, base) is Ok,
    ensures
        model_wf(run_rows(m, rows, base)->Ok_0),
    decreases rows.len(),
{
    if rows.len() > 0 {
        let m2 = step_row(m, rows.first(), base)->Ok_0;
        lemma_step_row_wf(m, rows.first(), base);
        lemma_run_rows_wf(m2, rows.drop_first(), base + 1);
    }
}

/// Folding the whole group sequence preserves well-formedness.
pub proof fn lemma_run_groups_wf(m: Model, groups: Seq<Seq<Seq<Seq<char>>>>, base: int)
    requires
        model_wf(m),
        run_groups(m, groups, base) is Ok,
    ensures
        model_wf(run_groups(m, groups, base)->Ok_0),
    decreases groups.len(),
{
    if groups.len() > 0 {
        let m2 = run_rows(m, groups.first(), base)->Ok_0;
        lemma_run_rows_wf(m, groups.first(), base);
        lemma_run_groups_wf(m2, groups.drop_first(), base + groups.first().len() as int);
    }
}

/// Every graph a successful build hands out is well formed.
pub proof fn lemma_build_wf(a: RootInfoView, b: RootInfoView, groups: Seq<Seq<Seq<Seq<char>>>>)
    requires
        build_spec(a, b, groups) is Ok,
    ensures
        model_wf(build_spec(a, b, groups)->Ok_0),
{
    lemma_init_model_wf(a, b);
    lemma_run_groups_wf(init_model(a, b), groups, 0);
}

/// Whatever the body of the sheet holds — even no groups at all — a
/// successful build contains exactly two generation `-1` root nodes, the
/// first two inserted, and exactly one edge joins them: the `Married` edge
/// inserted first.  Every other node is at a non-negative generation and
/// every other edge ends outside the root pair.
pub proof fn lemma_two_roots_one_marriage(
    a: RootInfoView,
    b: RootInfoView,
    groups: Seq<Seq<Seq<Seq<char>>>>,
)
    requires
        build_spec(a, b, groups) is Ok,
    ensures
        ({
            let m = build_spec(a, b, groups)->Ok_0;
            &&& m.nodes.len() >= 2
            &&& m.nodes[0].generation == -1
            &&& m.nodes[1].generation == -1
            &&& forall|k: int| 2 <= k < m.nodes.len() ==> (#[trigger] m.nodes[k]).generation >= 0
            &&& m.edges.len() >= 1
            &&& m.edges[0] == (0int, 1int, Relationship::Married)
            &&& forall|e: int|
                1 <= e < m.edges.len() ==> !((#[trigger] m.edges[e]).0 <= 1 && m.edges[e].1 <= 1)
        }),
{
    lemma_build_wf(a, b, groups);
}

/// Whether `edges` holds an arc from `x` to `y`.
pub open spec fn is_edge(edges: Seq<(int, int, Relationship)>, x: int, y: int) -> bool {
    exists|e: int| 0 <= e < edges.len() && (#[trigger] edges[e]).0 == x && edges[e].1 == y
}

/// Whether `p` is a directed path through `edges`.
pub open spec fn is_path(edges: Seq<(int, int, Relationship)>, p: Seq<int>) -> bool {
    p.len() >= 1 && forall|i: int| 0 <= i < p.len() - 1 ==> is_edge(edges, #[trigger] p[i], p[i + 1])
}

/// Whether node `k` can be reached from the first root by directed edges.
pub open spec fn reachable_from_root(edges: Seq<(int, int, Relationship)>, k: int) -> bool {
    exists|p: Seq<int>| is_path(edges, p) && p.first() == 0 && p.last() == k
}

proof fn lemma_wf_node_reachable(m: Model, k: int)
    requires
        model_wf(m),
        0 <= k < m.nodes.len(),
    ensures
        reachable_from_root(m.edges, k),
    decreases k,
{
    if k == 0 {
        let p = seq![0int];
        assert(is_path(m.edges, p));
        assert(p.first() == 0 && p.last() == 0);
    } else {
        assert(has_incoming(m.edges, k));
        let e = choose|e: int| 0 <= e < m.edges.len() && (#[trigger] m.edges[e]).1 == k;
        let s = m.edges[e].0;
        assert(0 <= s < k);
        lemma_wf_node_reachable(m, s);
        let p0 = choose|p: Seq<int>|
            is_path(m.edges, p) && p.first() == 0 && p.last() == s;
        let p = p0.push(k);
        assert(is_edge(m.edges, s, k));
        assert forall|i: int| 0 <= i < p.len() - 1 implies is_edge(m.edges, #[trigger] p[i], p[i + 1]) by {
            if i < p0.len() - 1 {
                assert(p[i] == p0[i] && p[i + 1] == p0[i + 1]);
            } else {
                assert(p[i] == s && p[i + 1] == k);
            }
        }
        assert(is_path(m.edges, p) && p.first() == 0 && p.last() == k);
    }
}

/// No orphans: from the first root there is a directed path to every other
/// node of a successful build — in particular to every node beyond the two
/// roots, whichever edges carried it in.
pub proof fn lemma_no_orphans(a: RootInfoView, b: RootInfoView, groups: Seq<Seq<Seq<Seq<char>>>>)
    requires
        build_spec(a, b, groups) is Ok,
    ensures
        forall|k: int|
            0 <= k < build_spec(a, b, groups)->Ok_0.nodes.len() ==> #[trigger] reachable_from_root(
                build_spec(a, b, groups)->Ok_0.edges,
                k,
            ),
{
    let m = build_spec(a, b, groups)->Ok_0;
    lemma_build_wf(a, b, groups);
    assert forall|k: int| 0 <= k < m.nodes.len() implies #[trigger] reachable_from_root(
        m.edges,
        k,
    ) by {
        lemma_wf_node_reachable(m, k);
    }
}

/// Whether a row is hierarchical: it carries generation markers, or its
/// marker-less name field classifies as `Relative`.
pub open spec fn hierarchical_row(cells: Seq<Seq<char>>) -> bool {
    marker_count(cells[0]) > 0 || classify(cells[0]) == Relationship::Relative
}

/// Whether a row is acceptable to one step: eight cells, and a marker count
/// a generation can hold.
pub open spec fn acceptable_row(cells: Seq<Seq<char>>) -> bool {
    cells.len() == 8 && marker_count(cells[0]) <= i32::MAX as nat
}

/// A sibling row — a hierarchical row at the cursor's own generation —
/// never changes the structural parent: the new person is attached under
/// the very node the previous hierarchical row attached under.
pub proof fn lemma_sibling_keeps_parent(m: Model, cells: Seq<Seq<char>>, idx: int)
    requires
        acceptable_row(cells),
        hierarchical_row(cells),
        marker_count(cells[0]) == m.level,
    ensures
        step_row(m, cells, idx) matches Ok(m2) && m2.parent == m.parent && m2.level == m.level
            && m2.edges == m.edges.push((m.parent, m.nodes.len() as int, Relationship::Child)),
{
}

/// Two consecutive sibling rows attach to the identical parent node.
pub proof fn lemma_consecutive_siblings_share_parent(
    m: Model,
    cells1: Seq<Seq<char>>,
    cells2: Seq<Seq<char>>,
    idx: int,
)
    requires
        acceptable_row(cells1),
        hierarchical_row(cells1),
        marker_count(cells1[0]) == m.level,
        acceptable_row(cells2),
        hierarchical_row(cells2),
        marker_count(cells2[0]) == m.level,
    ensures
        ({
            let m2 = step_row(m, cells1, idx)->Ok_0;
            &&& step_row(m, cells1, idx) is Ok
            &&& step_row(m2, cells2, idx + 1) is Ok
            &&& m2.edges.last().0 == m.parent
            &&& step_row(m2, cells2, idx + 1)->Ok_0.edges.last().0 == m.parent
        }),
{
    lemma_sibling_keeps_parent(m, cells1, idx);
    let m2 = step_row(m, cells1, idx)->Ok_0;
    lemma_sibling_keeps_parent(m2, cells2, idx + 1);
}

/// A hierarchical row one generation below the cursor always makes the
/// previous current node the new structural parent, and attaches the new
/// person under it.
pub proof fn lemma_descend_sets_parent(m: Model, cells: Seq<Seq<char>>, idx: int)
    requires
        acceptable_row(cells),
        hierarchical_row(cells),
        marker_count(cells[0]) == m.level + 1,
    ensures
        step_row(m, cells, idx) matches Ok(m2) && m2.parent == m.current && m2.current
            == m.nodes.len() && m2.edges == m.edges.push(
            (m.current, m.nodes.len() as int, Relationship::Child),
        ),
{
}

/// A name field holding the divorce token `-/-` — which also matches the
/// bare dash — classifies as `Divorced`, never `Dating`, as long as no
/// marriage symbol stands before it in precedence.
pub proof fn lemma_divorce_token_beats_dating(s: Seq<char>)
    requires
        has_triple(s, '-', '/', '-'),
        !has_char(s, '~'),
    ensures
        classify(s) == Relationship::Divorced,
        classify(s) != Relationship::Dating,
{
}

/// A name field holding the partner-descendant token `- -` classifies as
/// `ChildFromPartner` even though it also matches the bare-dash pattern.
pub proof fn lemma_partner_token_beats_dating(s: Seq<char>)
    requires
        has_triple(s, '-', ' ', '-'),
        !has_char(s, '~'),
        !has_triple(s, '-', '/', '-'),
    ensures
        classify(s) == Relationship::ChildFromPartner,
        has_char(s, '-'),
        classify(s) != Relationship::Dating,
{
    let i = choose|i: int|
        0 <= i && i + 2 < s.len() && #[trigger] s[i] == '-' && s[i + 1] == ' ' && s[i + 2] == '-';
    assert(s[i] == '-');
}

/// Whether a row is plain: eight cells, no generation markers, and a name
/// free of every relationship symbol.
pub open spec fn plain_row(cells: Seq<Seq<char>>) -> bool {
    cells.len() == 8 && marker_count(cells[0]) == 0 && classify(cells[0]) == Relationship::Relative
}

/// Whether every row of every group is plain.
pub open spec fn all_plain(groups: Seq<Seq<Seq<Seq<char>>>>) -> bool {
    forall|gi: int, ri: int|
        0 <= gi < groups.len() && 0 <= ri < groups[gi].len() ==> plain_row(
            #[trigger] groups[gi][ri],
        )
}

spec fn flat_state(m: Model) -> bool {
    &&& m.parent == 0
    &&& -1 <= m.level <= 0
    &&& (m.level == -1 ==> m.current == 0)
    &&& forall|e: int|
        1 <= e < m.edges.len() ==> (#[trigger] m.edges[e]).0 == 0 && m.edges[e].2
            == Relationship::Child
}

proof fn lemma_flat_rows(m: Model, rows: Seq<Seq<Seq<char>>>, base: int)
    requires
        flat_state(m),
        forall|ri: int| 0 <= ri < rows.len() ==> plain_row(#[trigger] rows[ri]),
    ensures
        run_rows(m, rows, base) is Ok,
        flat_state(run_rows(m, rows, base)->Ok_0),
    decreases rows.len(),
{
    if rows.len() > 0 {
        let m2 = step_row(m, rows.first(), base)->Ok_0;
        assert(m2.edges.drop_last() =~= m.edges);
        assert(flat_state(m2));
        lemma_flat_rows(m2, rows.drop_first(), base + 1);
    }
}

proof fn lemma_flat_groups(m: Model, groups: Seq<Seq<Seq<Seq<char>>>>, base: int)
    requires
        flat_state(m),
        all_plain(groups),
    ensures
        run_groups(m, groups, base) is Ok,
        flat_state(run_groups(m, groups, base)->Ok_0),
    decreases groups.len(),
{
    if groups.len() > 0 {
        lemma_flat_rows(m, groups.first(), base);
        let m2 = run_rows(m, groups.first(), base)->Ok_0;
        assert(all_plain(groups.drop_first())) by {
            assert forall|gi: int, ri: int|
                0 <= gi < groups.drop_first().len() && 0 <= ri
                    < groups.drop_first()[gi].len() implies plain_row(
                #[trigger] groups.drop_first()[gi][ri],
            ) by {
                assert(groups.drop_first()[gi] == groups[gi + 1]);
            }
        }
        lemma_flat_groups(m2, groups.drop_first(), base + groups.first().len() as int);
    }
}

/// With no generation markers and no relationship symbols anywhere in the
/// body, a build always succeeds and every person is attached flat: every
/// edge beyond the roots' marriage is a `Child` edge leaving the first
/// root.
pub proof fn lemma_plain_body_is_flat(
    a: RootInfoView,
    b: RootInfoView,
    groups: Seq<Seq<Seq<Seq<char>>>>,
)
    requires
        crate::model::root_complete(a),
        crate::model::root_complete(b),
        all_plain(groups),
    ensures
        build_spec(a, b, groups) is Ok,
        forall|e: int|
            1 <= e < build_spec(a, b, groups)->Ok_0.edges.len() ==> (#[trigger] build_spec(
                a,
                b,
                groups,
            )->Ok_0.edges[e]).0 == 0 && build_spec(a, b, groups)->Ok_0.edges[e].2
                == Relationship::Child,
{
    lemma_flat_groups(init_model(a, b), groups, 0);
}

} // verus!
