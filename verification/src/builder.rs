//! The executable graph builder.  One linear pass over the family groups
//! grows the graph and mutates the cursor; the result is proved to be
//! exactly what the state machine in [`crate::model`] says.

use vstd::prelude::*;
use crate::graph::{
    graph_add_edge, graph_add_node, graph_edges, graph_first_incoming, graph_new, graph_nodes,
    FamilyGraph,
};
use crate::model::{
    build_spec, init_model, lemma_init_model_wf, lemma_last_incoming_bound, lemma_step_row_wf,
    model_wf, run_groups, run_rows, step_row, total_rows, walk_up, Model,
};
use crate::person::{person_views, BuildError, Person, PersonView, RootInfo};
use crate::relation::{count_markers, relation_check, Relationship};

verus! {

broadcast use vstd::std_specs::vec::vec_clone_deep_view_proof;

/// The builder's transient cursor: the last node fully processed, the node
/// new generation-descending rows attach under, and the generation of the
/// last hierarchical row.
#[derive(Debug, Clone, Copy)]
pub struct Cursor {
    pub current: usize,
    pub parent: usize,
    pub level: i32,
}

/// The builder state a graph and a cursor stand for.
pub open spec fn model_of(g: FamilyGraph, c: Cursor) -> Model {
    Model {
        nodes: person_views(graph_nodes(g)),
        edges: graph_edges(g),
        current: c.current as int,
        parent: c.parent as int,
        level: c.level as int,
    }
}

/// What a finished processor exposes: the node and edge lists of its graph.
pub ghost struct FamilyGraphView {
    pub nodes: Seq<PersonView>,
    pub edges: Seq<(int, int, Relationship)>,
}

/// Holds a family graph and builds it from configured roots and grouped
/// rows.
pub struct FamilyTreeProcessor {
    pub(crate) graph: FamilyGraph,
}

/// What the processor's view is made of, for the crate's own proofs.
pub(crate) proof fn lemma_view_parts(p: &FamilyTreeProcessor)
    ensures
        p@.nodes == person_views(graph_nodes(p.graph)),
        p@.edges == graph_edges(p.graph),
{
}

impl View for FamilyTreeProcessor {
    type V = FamilyGraphView;

    closed spec fn view(&self) -> FamilyGraphView {
        FamilyGraphView { nodes: person_views(graph_nodes(self.graph)), edges: graph_edges(self.graph) }
    }
}

proof fn lemma_person_views_push(s: Seq<Person>, p: Person)
    ensures
        person_views(s.push(p)) == person_views(s).push(p@),
{
    assert(person_views(s.push(p)) =~= person_views(s).push(p@));
}

/// Applies one data row to the graph and the cursor, exactly as
/// [`step_row`] says: on success the new state is the model's; on failure
/// the row's error is handed back and the caller discards the graph.
#[verifier::loop_isolation(false)]
pub(crate) fn process_row(
    family: &mut FamilyGraph,
    cur: &mut Cursor,
    row: &Vec<String>,
    idx: usize,
) -> (r: Result<(), BuildError>)
    requires
        model_wf(model_of(*old(family), *old(cur))),
        graph_nodes(*old(family)).len() + 1 <= u32::MAX as usize,
    ensures
        match step_row(model_of(*old(family), *old(cur)), row.deep_view(), idx as int) {
            Ok(m2) => r is Ok && model_of(*final(family), *final(cur)) == m2,
            Err(e) => r == Err::<(), BuildError>(e),
        },
{
    let ghost pre = model_of(*family, *cur);
    let ghost cells = row.deep_view();
    proof {
        assert(cells.len() == row@.len());
    }
    if row.len() != 8 {
        return Err(BuildError::MalformedRow(idx));
    }
    let name = &row[0];
    proof {
        assert(cells[0] == row@[0]@);
    }
    let markers: usize = count_markers(name);
    if markers > i32::MAX as usize {
        return Err(BuildError::MalformedRow(idx));
    }
    let gen: i32 = markers as i32;
    let rel = if gen == 0 {
        relation_check(name)
    } else {
        Relationship::Relative
    };
    let person = match Person::new(row.clone(), gen) {
        Ok(p) => p,
        Err(_) => {
            return Err(BuildError::MalformedRow(idx));
        },
    };
    proof {
        assert(person@ == crate::person::person_of_cells(cells, gen as int));
    }
    let ghost sr = step_row(pre, cells, idx as int);
    if rel == Relationship::Relative {
        let delta: i64 = cur.level as i64 - gen as i64;
        if delta == -1 {
            let new_node = graph_add_node(family, person);
            proof {
                lemma_person_views_push(graph_nodes(*old(family)), person);
            }
            cur.parent = cur.current;
            graph_add_edge(family, cur.parent, new_node, Relationship::Child);
            cur.current = new_node;
            cur.level = gen;
            proof {
                assert(model_of(*family, *cur) == sr->Ok_0);
            }
            Ok(())
        } else if delta == 0 || delta < -1 {
            let new_node = graph_add_node(family, person);
            proof {
                lemma_person_views_push(graph_nodes(*old(family)), person);
            }
            graph_add_edge(family, cur.parent, new_node, Relationship::Child);
            cur.current = new_node;
            cur.level = gen;
            proof {
                assert(model_of(*family, *cur) == sr->Ok_0);
            }
            Ok(())
        } else {
            // The row is `delta` generations above the cursor: rewind by
            // walking up from the structural parent, one incoming
            // structural edge per generation.
            let new_node = graph_add_node(family, person);
            proof {
                lemma_person_views_push(graph_nodes(*old(family)), person);
            }
            let ghost g1 = *family;
            let ghost cur0 = *cur;
            let mut anc: usize = cur.parent;
            let mut j: i64 = 0;
            while j < delta
                invariant
                    0 <= j <= delta,
                    *family == g1,
                    *cur == cur0,
                    0 <= anc < pre.nodes.len(),
                    model_wf(pre),
                    pre == model_of(*old(family), *old(cur)),
                    graph_nodes(g1) == graph_nodes(*old(family)).push(person),
                    graph_edges(g1) == pre.edges,
                    graph_nodes(*old(family)).len() + 1 <= u32::MAX as usize,
                    walk_up(pre.edges, pre.parent, delta as nat) == walk_up(
                        pre.edges,
                        anc as int,
                        (delta - j) as nat,
                    ),
                decreases delta - j,
            {
                proof {
                    lemma_last_incoming_bound(pre.edges, anc as int, pre.nodes.len() as int);
                }
                match graph_first_incoming(family, anc) {
                    Some(p) => {
                        anc = p;
                    },
                    None => {
                        proof {
                            assert(walk_up(pre.edges, anc as int, (delta - j) as nat) is None);
                            assert(sr == Err::<Model, BuildError>(BuildError::TopologyError(idx)));
                        }
                        return Err(BuildError::TopologyError(idx));
                    },
                }
                j = j + 1;
            }
            cur.parent = anc;
            graph_add_edge(family, anc, new_node, Relationship::Child);
            cur.current = new_node;
            cur.level = gen;
            proof {
                assert(model_of(*family, *cur) == sr->Ok_0);
            }
            Ok(())
        }
    } else if rel == Relationship::ChildFromPartner {
        // A partner's separate descendant line: the edge leaves the current
        // node, and the cursor is untouched.
        let new_node = graph_add_node(family, person);
        proof {
            lemma_person_views_push(graph_nodes(*old(family)), person);
        }
        graph_add_edge(family, cur.current, new_node, Relationship::ChildFromPartner);
        proof {
            assert(model_of(*family, *cur) == sr->Ok_0);
        }
        Ok(())
    } else {
        // Married, divorced or dating: a non-hierarchical edge from the
        // current node; the cursor is untouched.
        let new_node = graph_add_node(family, person);
        proof {
            lemma_person_views_push(graph_nodes(*old(family)), person);
        }
        graph_add_edge(family, cur.current, new_node, rel);
        proof {
            assert(model_of(*family, *cur) == sr->Ok_0);
        }
        Ok(())
    }
}

impl FamilyTreeProcessor {
    /// A processor with an empty graph; [`build`](Self::build) fills it.
    pub fn new() -> (r: FamilyTreeProcessor)
        ensures
            r@.nodes == Seq::<PersonView>::empty(),
            r@.edges == Seq::<(int, int, Relationship)>::empty(),
    {
        let g = graph_new();
        proof {
            assert(person_views(graph_nodes(g)) =~= Seq::<PersonView>::empty());
        }
        FamilyTreeProcessor { graph: g }
    }

    /// Builds the family graph from the two configured root ancestors and
    /// the grouped rows, exactly as [`build_spec`] says: the roots are
    /// seeded first, then every row of every group is applied in order.
    /// On any fatal condition the processor is left as it was — no partial
    /// graph is ever kept.  The row bound is the graph's index-type limit.
    pub fn build(
        &mut self,
        a: &RootInfo,
        b: &RootInfo,
        groups: &Vec<Vec<Vec<String>>>,
    ) -> (r: Result<(), BuildError>)
        requires
            total_rows(groups.deep_view()) + 2 <= u32::MAX as int,
        ensures
            match build_spec(a@, b@, groups.deep_view()) {
                Ok(m) => r is Ok && final(self)@.nodes == m.nodes && final(self)@.edges == m.edges,
                Err(e) => r == Err::<(), BuildError>(e) && final(self)@ == old(self)@,
            },
    {
        if a.name.as_str().is_empty() || a.life.as_str().is_empty()
            || a.last_name.as_str().is_empty() || b.name.as_str().is_empty()
            || b.life.as_str().is_empty() || b.last_name.as_str().is_empty() {
            return Err(BuildError::MissingConfiguration);
        }
        let mut family = graph_new();
        let root_a = Person {
            generation: -1,
            name: a.name.clone(),
            birthdate: a.life.clone(),
            last_name: a.last_name.clone(),
            address: String::new(),
            city: String::new(),
            landline: String::new(),
            mobile_number: String::new(),
            email: String::new(),
        };
        let root_b = Person {
            generation: -1,
            name: b.name.clone(),
            birthdate: b.life.clone(),
            last_name: b.last_name.clone(),
            address: String::new(),
            city: String::new(),
            landline: String::new(),
            mobile_number: String::new(),
            email: String::new(),
        };
        let ghost m0 = init_model(a@, b@);
        proof {
            lemma_init_model_wf(a@, b@);
        }
        let ghost e0 = graph_nodes(family);
        let _ = graph_add_node(&mut family, root_a);
        proof {
            lemma_person_views_push(e0, root_a);
        }
        let ghost n1 = graph_nodes(family);
        let _ = graph_add_node(&mut family, root_b);
        proof {
            lemma_person_views_push(n1, root_b);
        }
        graph_add_edge(&mut family, 0, 1, Relationship::Married);
        let mut cur = Cursor { current: 0, parent: 0, level: -1 };
        let ghost gv = groups.deep_view();
        proof {
            assert(person_views(e0).push(root_a@).push(root_b@) =~= m0.nodes);
            assert(graph_edges(family) =~= m0.edges);
            assert(model_of(family, cur) == m0);
            assert(gv.skip(0) =~= gv);
        }
        let ghost mut base: int = 0;
        let mut done: usize = 0;
        for gi in 0..groups.len()
            invariant
                gv == groups.deep_view(),
                gv.len() == groups@.len(),
                total_rows(gv) + 2 <= u32::MAX as int,
                0 <= base,
                done == base,
                base + total_rows(gv.skip(gi as int)) == total_rows(gv),
                build_spec(a@, b@, gv) == run_groups(m0, gv, 0),
                m0 == init_model(a@, b@),
                model_wf(model_of(family, cur)),
                graph_nodes(family).len() == base + 2,
                graph_edges(family).len() == base + 1,
                run_groups(m0, gv, 0) == run_groups(model_of(family, cur), gv.skip(gi as int), base),
        {
            let group = &groups[gi];
            let ghost rows = gv[gi as int];
            let ghost group_end: int = base + rows.len();
            proof {
                assert(rows == group.deep_view());
                assert(gv.skip(gi as int).first() == rows);
                assert(gv.skip(gi as int).drop_first() =~= gv.skip(gi as int + 1));
                crate::model::lemma_total_rows_nonneg(gv.skip(gi as int + 1));
                assert(rows.skip(0) =~= rows);
            }
            for ri in 0..group.len()
                invariant
                    gv == groups.deep_view(),
                    gv.len() == groups@.len(),
                    gi < groups@.len(),
                    rows == group.deep_view(),
                    group.deep_view() == gv[gi as int],
                    rows.len() == group@.len(),
                    total_rows(gv) + 2 <= u32::MAX as int,
                    0 <= base,
                    done == base + ri,
                    group_end == base + rows.len(),
                    base + total_rows(gv.skip(gi as int)) == total_rows(gv),
                    total_rows(gv.skip(gi as int)) == rows.len() + total_rows(gv.skip(gi as int + 1)),
                    0 <= total_rows(gv.skip(gi as int + 1)),
                    build_spec(a@, b@, gv) == run_groups(m0, gv, 0),
                    m0 == init_model(a@, b@),
                    model_wf(model_of(family, cur)),
                    graph_nodes(family).len() == base + ri + 2,
                    graph_edges(family).len() == base + ri + 1,
                    run_groups(m0, gv, 0) == match run_rows(
                        model_of(family, cur),
                        rows.skip(ri as int),
                        base + ri,
                    ) {
                        Err(e) => Err(e),
                        Ok(m2) => run_groups(m2, gv.skip(gi as int + 1), group_end),
                    },
            {
                let row = &group[ri];
                let ghost m_pre = model_of(family, cur);
                proof {
                    assert(rows[ri as int] == row.deep_view());
                    assert(rows.skip(ri as int).first() == rows[ri as int]);
                    assert(rows.skip(ri as int).drop_first() =~= rows.skip(ri as int + 1));
                }
                match process_row(&mut family, &mut cur, row, done) {
                    Ok(()) => {
                        proof {
                            lemma_step_row_wf(m_pre, row.deep_view(), done as int);
                        }
                    },
                    Err(e) => {
                        proof {
                            assert(run_groups(m0, gv, 0) == Err::<Model, BuildError>(e));
                        }
                        return Err(e);
                    },
                }
                done = done + 1;
            }
            proof {
                assert(rows.skip(rows.len() as int) =~= Seq::<Seq<Seq<char>>>::empty());
                base = base + rows.len();
            }
        }
        proof {
            assert(gv.skip(groups@.len() as int) =~= Seq::<Seq<Seq<Seq<char>>>>::empty());
            assert(run_groups(m0, gv, 0) == Ok::<Model, BuildError>(model_of(family, cur)));
        }
        self.graph = family;
        Ok(())
    }
}

} // verus!
