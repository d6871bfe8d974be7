//! The mathematical model of the graph builder: a state machine over the
//! ordered rows, written as total specification functions.  The executable
//! builder is proved to produce exactly what this model says, so every
//! property of a build can be read off — and proved of — these definitions.

use vstd::prelude::*;
use crate::person::{person_of_cells, root_person, BuildError, PersonView, RootInfoView};
use crate::relation::{classify, marker_count, Relationship};
use crate::graph::last_incoming;

verus! {

/// The builder's whole state: the graph grown so far (node and edge lists in
/// insertion order) and the transient cursor — the last hierarchical node,
/// the node new descendants attach under, and the generation of the last
/// hierarchical row.
pub ghost struct Model {
    pub nodes: Seq<PersonView>,
    pub edges: Seq<(int, int, Relationship)>,
    pub current: int,
    pub parent: int,
    pub level: int,
}

/// Walking `steps` times upward from `from`, each step to the source of the
/// node's one incoming edge; `None` when the walk runs out of ancestors.
pub open spec fn walk_up(edges: Seq<(int, int, Relationship)>, from: int, steps: nat) -> Option<int>
    decreases steps,
{
    if steps == 0 {
        Some(from)
    } else {
        match last_incoming(edges, from) {
            None => None,
            Some(p) => walk_up(edges, p, (steps - 1) as nat),
        }
    }
}

/// Whether a root ancestor's configuration is complete: none of the three
/// identity fields may be absent (empty).
pub open spec fn root_complete(r: RootInfoView) -> bool {
    r.name.len() > 0 && r.life.len() > 0 && r.last_name.len() > 0
}

/// The state before any row is processed: the two root ancestors at
/// generation `-1`, one `Married` edge between them, and the cursor on the
/// first root.
pub open spec fn init_model(a: RootInfoView, b: RootInfoView) -> Model {
    Model {
        nodes: seq![root_person(a), root_person(b)],
        edges: seq![(0int, 1int, Relationship::Married)],
        current: 0,
        parent: 0,
        level: -1,
    }
}

/// What one data row does to the state.  `cells` is the row's cell text,
/// `idx` the row's position among all grouped rows.
///
/// A row that does not have exactly eight cells is malformed, as is one
/// whose marker count cannot be a generation.  A row with markers, or a
/// marker-less one whose name classifies as `Relative`, is hierarchical:
/// the generation delta against the cursor decides whether the new person
/// is a child of the current node (delta `-1`), a sibling under the current
/// structural parent (delta `0`), or attached after an ancestor rewind
/// (delta positive); a jump of more than one generation downward attaches
/// under the unchanged structural parent.  Any other classification adds a
/// non-hierarchical edge from the current node and leaves the cursor alone.
pub open spec fn step_row(m: Model, cells: Seq<Seq<char>>, idx: int) -> Result<Model, BuildError> {
    if cells.len() != 8 {
        Err(BuildError::MalformedRow(idx as usize))
    } else if marker_count(cells[0]) > i32::MAX as nat {
        Err(BuildError::MalformedRow(idx as usize))
    } else {
        let gen = marker_count(cells[0]) as int;
        let rel = if gen == 0 {
            classify(cells[0])
        } else {
            Relationship::Relative
        };
        let n = m.nodes.len() as int;
        let nodes2 = m.nodes.push(person_of_cells(cells, gen));
        if rel == Relationship::Relative {
            let delta = m.level - gen;
            if delta == -1 {
                Ok(Model {
                    nodes: nodes2,
                    edges: m.edges.push((m.current, n, Relationship::Child)),
                    current: n,
                    parent: m.current,
                    level: gen,
                })
            } else if delta == 0 || delta < -1 {
                Ok(Model {
                    nodes: nodes2,
                    edges: m.edges.push((m.parent, n, Relationship::Child)),
                    current: n,
                    parent: m.parent,
                    level: gen,
                })
            } else {
                match walk_up(m.edges, m.parent, delta as nat) {
                    None => Err(BuildError::TopologyError(idx as usize)),
                    Some(anc) => Ok(Model {
                        nodes: nodes2,
                        edges: m.edges.push((anc, n, Relationship::Child)),
                        current: n,
                        parent: anc,
                        level: gen,
                    }),
                }
            }
        } else if rel == Relationship::ChildFromPartner {
            Ok(Model {
                nodes: nodes2,
                edges: m.edges.push((m.current, n, Relationship::ChildFromPartner)),
                current: m.current,
                parent: m.parent,
                level: m.level,
            })
        } else {
            Ok(Model {
                nodes: nodes2,
                edges: m.edges.push((m.current, n, rel)),
                current: m.current,
                parent: m.parent,
                level: m.level,
            })
        }
    }
}

/// Folds [`step_row`] over the rows of one group, `base` being the position
/// of the group's first row among all grouped rows.
pub open spec fn run_rows(m: Model, rows: Seq<Seq<Seq<char>>>, base: int) -> Result<Model, BuildError>
    decreases rows.len(),
{
    if rows.len() == 0 {
        Ok(m)
    } else {
        match step_row(m, rows.first(), base) {
            Err(e) => Err(e),
            Ok(m2) => run_rows(m2, rows.drop_first(), base + 1),
        }
    }
}

/// Folds the groups in order.  Group boundaries carry no meaning beyond
/// ordering: the rows are processed exactly as if the groups were
/// concatenated.
pub open spec fn run_groups(m: Model, groups: Seq<Seq<Seq<Seq<char>>>>, base: int) -> Result<
    Model,
    BuildError,
>
    decreases groups.len(),
{
    if groups.len() == 0 {
        Ok(m)
    } else {
        match run_rows(m, groups.first(), base) {
            Err(e) => Err(e),
            Ok(m2) => run_groups(m2, groups.drop_first(), base + groups.first().len() as int),
        }
    }
}

/// The complete build: a configuration check, the seeded initial state, and
/// one pass over all groups.
pub open spec fn build_spec(a: RootInfoView, b: RootInfoView, groups: Seq<Seq<Seq<Seq<char>>>>) -> Result<
    Model,
    BuildError,
> {
    if !(root_complete(a) && root_complete(b)) {
        Err(BuildError::MissingConfiguration)
    } else {
        run_groups(init_model(a, b), groups, 0)
    }
}

/// The number of rows in a group sequence.
pub open spec fn total_rows(groups: Seq<Seq<Seq<Seq<char>>>>) -> int
    decreases groups.len(),
{
    if groups.len() == 0 {
        0
    } else {
        groups.first().len() + total_rows(groups.drop_first())
    }
}

/// A group sequence never holds a negative number of rows.
pub proof fn lemma_total_rows_nonneg(groups: Seq<Seq<Seq<Seq<char>>>>)
    ensures
        total_rows(groups) >= 0,
    decreases groups.len(),
{
    if groups.len() > 0 {
        lemma_total_rows_nonneg(groups.drop_first());
    }
}

/// Whether some edge of `edges` ends at node `k`.
pub open spec fn has_incoming(edges: Seq<(int, int, Relationship)>, k: int) -> bool {
    exists|e: int| 0 <= e < edges.len() && (#[trigger] edges[e]).1 == k
}

/// Well-formedness of a builder state.  It holds of the initial state and
/// every step preserves it: the two roots stand first, at generation `-1`,
/// married by the first edge; every later node is at a non-negative
/// generation; every edge runs from a lower index to a strictly higher one;
/// no two edges share a target; every node but the first root has exactly
/// one incoming edge; the node list is always one longer than the edge
/// list; and the cursor points at existing nodes.
pub open spec fn model_wf(m: Model) -> bool {
    &&& m.nodes.len() >= 2
    &&& m.nodes.len() == m.edges.len() + 1
    &&& m.edges[0] == (0int, 1int, Relationship::Married)
    &&& forall|e: int|
        0 <= e < m.edges.len() ==> 0 <= (#[trigger] m.edges[e]).0 && m.edges[e].0 < m.edges[e].1
            && m.edges[e].1 < m.nodes.len()
    &&& forall|e1: int, e2: int|
        0 <= e1 < m.edges.len() && 0 <= e2 < m.edges.len() && (#[trigger] m.edges[e1]).1 == (
        #[trigger] m.edges[e2]).1 ==> e1 == e2
    &&& forall|e: int| 1 <= e < m.edges.len() ==> (#[trigger] m.edges[e]).1 >= 2
    &&& forall|k: int| 1 <= k < m.nodes.len() ==> #[trigger] has_incoming(m.edges, k)
    &&& m.nodes[0].generation == -1
    &&& m.nodes[1].generation == -1
    &&& forall|k: int| 2 <= k < m.nodes.len() ==> (#[trigger] m.nodes[k]).generation >= 0
    &&& 0 <= m.current < m.nodes.len()
    &&& 0 <= m.parent < m.nodes.len()
}

/// The initial state is well formed.
pub proof fn lemma_init_model_wf(a: RootInfoView, b: RootInfoView)
    ensures
        model_wf(init_model(a, b)),
{
    let m = init_model(a, b);
    assert(m.edges[0].1 == 1);
    assert forall|k: int| 1 <= k < m.nodes.len() implies #[trigger] has_incoming(m.edges, k) by {
        assert(m.edges[0].1 == k);
    }
}

/// A source handed back by [`last_incoming`] is itself a node, of index
/// strictly below the target's.
pub proof fn lemma_last_incoming_bound(edges: Seq<(int, int, Relationship)>, n: int, bound: int)
    requires
        forall|e: int|
            0 <= e < edges.len() ==> 0 <= (#[trigger] edges[e]).0 && edges[e].0 < edges[e].1
                && edges[e].1 < bound,
    ensures
        last_incoming(edges, n) matches Some(p) ==> 0 <= p < bound && p < n,
    decreases edges.len(),
{
    if edges.len() > 0 && !(edges.last().1 == n) {
        lemma_last_incoming_bound(edges.drop_last(), n, bound);
    }
}

/// A node handed back by [`walk_up`] is itself a node.
pub proof fn lemma_walk_up_bound(
    edges: Seq<(int, int, Relationship)>,
    from: int,
    steps: nat,
    bound: int,
)
    requires
        0 <= from < bound,
        forall|e: int|
            0 <= e < edges.len() ==> 0 <= (#[trigger] edges[e]).0 && edges[e].0 < edges[e].1
                && edges[e].1 < bound,
    ensures
        walk_up(edges, from, steps) matches Some(p) ==> 0 <= p < bound,
    decreases steps,
{
    if steps > 0 {
        lemma_last_incoming_bound(edges, from, bound);
        match last_incoming(edges, from) {
            None => {},
            Some(p) => {
                lemma_walk_up_bound(edges, p, (steps - 1) as nat, bound);
            },
        }
    }
}

/// One successful step preserves well-formedness and grows the node and
/// edge lists by exactly one element each.
pub proof fn lemma_step_row_wf(m: Model, cells: Seq<Seq<char>>, idx: int)
    requires
        model_wf(m),
        step_row(m, cells, idx) is Ok,
    ensures
        model_wf(step_row(m, cells, idx)->Ok_0),
        step_row(m, cells, idx)->Ok_0.nodes.len() == m.nodes.len() + 1,
        step_row(m, cells, idx)->Ok_0.edges.len() == m.edges.len() + 1,
{
    let m2 = step_row(m, cells, idx)->Ok_0;
    let n = m.nodes.len() as int;
    let gen = marker_count(cells[0]) as int;
    let rel = if gen == 0 {
        classify(cells[0])
    } else {
        Relationship::Relative
    };
    if rel == Relationship::Relative && m.level - gen > 0 {
        lemma_walk_up_bound(m.edges, m.parent, (m.level - gen) as nat, n);
    }
    let src = m2.edges.last().0;
    assert(0 <= src < n);
    assert(m2.edges.last().1 == n);
    assert(m2.edges.drop_last() =~= m.edges);
    assert(m2.nodes.drop_last() =~= m.nodes);
    assert(m2.edges[0] == (0int, 1int, Relationship::Married));
    assert forall|e: int|
        0 <= e < m2.edges.len() implies 0 <= (#[trigger] m2.edges[e]).0 && m2.edges[e].0
        < m2.edges[e].1 && m2.edges[e].1 < m2.nodes.len() by {
        if e < m.edges.len() {
            assert(m2.edges[e] == m.edges[e]);
        } else {
            assert(m2.edges[e] == m2.edges.last());
        }
    }
    assert forall|e1: int, e2: int|
        0 <= e1 < m2.edges.len() && 0 <= e2 < m2.edges.len() && (#[trigger] m2.edges[e1]).1 == (
    #[trigger] m2.edges[e2]).1 implies e1 == e2 by {
        if e1 < m.edges.len() && e2 < m.edges.len() {
        } else if e1 < m.edges.len() {
            assert(m.edges[e1].1 < n);
        } else if e2 < m.edges.len() {
            assert(m.edges[e2].1 < n);
        }
    }
    assert forall|k: int| 1 <= k < m2.nodes.len() implies #[trigger] has_incoming(m2.edges, k) by {
        if k < m.nodes.len() {
            assert(has_incoming(m.edges, k));
            let e0 = choose|e: int| 0 <= e < m.edges.len() && (#[trigger] m.edges[e]).1 == k;
            assert(m2.edges[e0].1 == k);
        } else {
            assert(m2.edges[m.edges.len() as int].1 == k);
        }
    }
    assert forall|k: int| 2 <= k < m2.nodes.len() implies (#[trigger] m2.nodes[k]).generation
        >= 0 by {
        if k < m.nodes.len() {
            assert(m2.nodes[k] == m.nodes[k]);
        } else {
            assert(m2.nodes[k] == m2.nodes.last());
        }
    }
}

} // verus!
