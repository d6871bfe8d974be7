//! Projection of the finished graph into the node/edge view model of the
//! interactive visualization widget: positional identifiers, labels,
//! colors and line styles derived from generation and relationship tag.

use vstd::prelude::*;
use vstd::string::StringExecFns;
use vstd::string::StrSliceExecFns;
use crate::builder::{lemma_view_parts, FamilyTreeProcessor};
use crate::graph::{
    graph_edge_count, graph_edge_endpoints_at, graph_edge_rel_at, graph_node_at, graph_node_count,
};
use crate::person::{Person, PersonView};
use crate::relation::Relationship;
use crate::text::{all_digits, dec_digits, digits_value, parse_decimal, usize_to_string};

verus! {

/// One node of the view model.
#[derive(Debug)]
pub struct NetworkNode {
    pub id: String,
    pub label: String,
    pub title: String,
    pub level: i32,
    pub color: NodeColor,
    pub font: FontStyle,
    pub person_data: Person,
}

/// Fill and border colors of one node.
#[derive(Debug)]
pub struct NodeColor {
    pub background: String,
    pub border: String,
}

/// Label typography of one node.
#[derive(Debug)]
pub struct FontStyle {
    pub size: i32,
    pub color: String,
}

/// One edge of the view model.
#[derive(Debug)]
pub struct NetworkEdge {
    pub from: String,
    pub to: String,
    pub label: String,
    pub color: String,
    pub dashes: bool,
    pub width: i32,
    pub arrows: String,
}

/// The whole view model: every node and every edge of the graph.
#[derive(Debug)]
pub struct FamilyNetworkData {
    pub nodes: Vec<NetworkNode>,
    pub edges: Vec<NetworkEdge>,
}

/// The positional identifier of node `i`.
pub open spec fn node_id_seq(i: int) -> Seq<char> {
    "node_"@ + dec_digits(i as nat)
}

/// The fill color for a generation: a fixed palette for the roots and the
/// first four generations below them, gray as the fallback.
pub open spec fn spec_generation_color(g: int) -> Seq<char> {
    if g == -1 {
        "#fffccb"@
    } else if g == 0 {
        "#ffcccb"@
    } else if g == 1 {
        "#add8e6"@
    } else if g == 2 {
        "#90ee90"@
    } else if g == 3 {
        "#ffb6c1"@
    } else {
        "#f0f0f0"@
    }
}

/// The label for a relationship tag; tags without a closer label fall back
/// to the unknown label.
pub open spec fn spec_relationship_label(rel: Relationship) -> Seq<char> {
    match rel {
        Relationship::Child => "Barn"@,
        Relationship::Married => "Gift"@,
        Relationship::Divorced => "Skilt"@,
        Relationship::Dating => "K\u{e6}rester"@,
        Relationship::Relative => "Relateret"@,
        _ => "Ukendt"@,
    }
}

/// The line color for a relationship tag.
pub open spec fn spec_relationship_color(rel: Relationship) -> Seq<char> {
    match rel {
        Relationship::Married => "#ff0000"@,
        Relationship::Divorced => "#800080"@,
        Relationship::Relative => "#808080"@,
        _ => "#000000"@,
    }
}

/// The line width for a relationship tag.
pub open spec fn spec_relationship_width(rel: Relationship) -> int {
    match rel {
        Relationship::Married => 3,
        Relationship::Child => 2,
        _ => 1,
    }
}

/// What the view model says of node `i` with person `p`.
pub open spec fn node_entry_ok(nd: NetworkNode, i: int, p: PersonView) -> bool {
    &&& nd.id@ == node_id_seq(i)
    &&& nd.label@ == p.name
    &&& nd.title@ == "Click for details about "@ + p.name
    &&& nd.level as int == p.generation
    &&& nd.color.background@ == spec_generation_color(p.generation)
    &&& nd.color.border@ == "#2B7CE9"@
    &&& nd.font.size == 16
    &&& nd.font.color@ == "#343434"@
    &&& nd.person_data@ == p
}

/// What the view model says of one graph edge.
pub open spec fn edge_entry_ok(ed: NetworkEdge, x: (int, int, Relationship)) -> bool {
    &&& ed.from@ == node_id_seq(x.0)
    &&& ed.to@ == node_id_seq(x.1)
    &&& ed.label@ == spec_relationship_label(x.2)
    &&& ed.color@ == spec_relationship_color(x.2)
    &&& ed.dashes == (x.2 == Relationship::Divorced || x.2 == Relationship::Dating)
    &&& ed.width as int == spec_relationship_width(x.2)
    &&& ed.arrows@ == "to"@
}

/// The node index a widget identifier denotes: the `node_` prefix followed
/// by a decimal index that the machine can hold.
pub open spec fn id_index(s: Seq<char>) -> Option<int> {
    if s.len() >= 5 && s.take(5) == "node_"@ {
        let d = s.skip(5);
        if d.len() >= 1 && all_digits(d) && digits_value(d) <= usize::MAX as int {
            Some(digits_value(d))
        } else {
            None
        }
    } else {
        None
    }
}

impl FamilyTreeProcessor {
    /// The fill color for a generation.
    pub fn get_generation_color(&self, generation: i32) -> (c: String)
        ensures
            c@ == spec_generation_color(generation as int),
    {
        match generation {
            -1 => String::from_str("#fffccb"),
            0 => String::from_str("#ffcccb"),
            1 => String::from_str("#add8e6"),
            2 => String::from_str("#90ee90"),
            3 => String::from_str("#ffb6c1"),
            _ => String::from_str("#f0f0f0"),
        }
    }

    /// The label for a relationship tag.
    pub fn relationship_label(&self, rel: &Relationship) -> (l: String)
        ensures
            l@ == spec_relationship_label(*rel),
    {
        match rel {
            Relationship::Child => String::from_str("Barn"),
            Relationship::Married => String::from_str("Gift"),
            Relationship::Divorced => String::from_str("Skilt"),
            Relationship::Dating => String::from_str("K\u{e6}rester"),
            Relationship::Relative => String::from_str("Relateret"),
            _ => String::from_str("Ukendt"),
        }
    }

    /// The line color for a relationship tag.
    pub fn relationship_color(&self, rel: &Relationship) -> (c: String)
        ensures
            c@ == spec_relationship_color(*rel),
    {
        match rel {
            Relationship::Married => String::from_str("#ff0000"),
            Relationship::Divorced => String::from_str("#800080"),
            Relationship::Relative => String::from_str("#808080"),
            _ => String::from_str("#000000"),
        }
    }

    /// The line width for a relationship tag.
    pub fn relationship_width(&self, rel: &Relationship) -> (w: i32)
        ensures
            w as int == spec_relationship_width(*rel),
    {
        match rel {
            Relationship::Married => 3,
            Relationship::Child => 2,
            _ => 1,
        }
    }

    /// Projects the whole graph into the view model: one entry per node, in
    /// node order, and one entry per edge, in edge order.
    #[verifier::loop_isolation(false)]
    pub fn get_network_data(&self) -> (r: FamilyNetworkData)
        ensures
            r.nodes@.len() == self@.nodes.len(),
            forall|i: int|
                0 <= i < self@.nodes.len() ==> node_entry_ok(
                    #[trigger] r.nodes@[i],
                    i,
                    self@.nodes[i],
                ),
            r.edges@.len() == self@.edges.len(),
            forall|e: int|
                0 <= e < self@.edges.len() ==> edge_entry_ok(#[trigger] r.edges@[e], self@.edges[e]),
    {
        proof {
            lemma_view_parts(self);
        }
        let mut nodes: Vec<NetworkNode> = Vec::new();
        let mut edges: Vec<NetworkEdge> = Vec::new();
        let n: usize = graph_node_count(&self.graph);
        for i in 0..n
            invariant
                nodes@.len() == i,
                forall|j: int|
                    0 <= j < i ==> node_entry_ok(#[trigger] nodes@[j], j, self@.nodes[j]),
        {
            let person = graph_node_at(&self.graph, i);
            let id = String::from_str("node_").concat(usize_to_string(i).as_str());
            let title = String::from_str("Click for details about ").concat(person.name.as_str());
            let entry = NetworkNode {
                id,
                label: person.name.clone(),
                title,
                level: person.generation,
                color: NodeColor {
                    background: self.get_generation_color(person.generation),
                    border: String::from_str("#2B7CE9"),
                },
                font: FontStyle { size: 16, color: String::from_str("#343434") },
                person_data: person.clone(),
            };
            proof {
                assert(node_entry_ok(entry, i as int, self@.nodes[i as int]));
            }
            nodes.push(entry);
        }
        let ne: usize = graph_edge_count(&self.graph);
        for e in 0..ne
            invariant
                nodes@.len() == self@.nodes.len(),
                forall|j: int|
                    0 <= j < self@.nodes.len() ==> node_entry_ok(
                        #[trigger] nodes@[j],
                        j,
                        self@.nodes[j],
                    ),
                edges@.len() == e,
                forall|j: int|
                    0 <= j < e ==> edge_entry_ok(#[trigger] edges@[j], self@.edges[j]),
        {
            let (a, b) = graph_edge_endpoints_at(&self.graph, e);
            let rel = graph_edge_rel_at(&self.graph, e);
            let entry = NetworkEdge {
                from: String::from_str("node_").concat(usize_to_string(a).as_str()),
                to: String::from_str("node_").concat(usize_to_string(b).as_str()),
                label: self.relationship_label(&rel),
                color: self.relationship_color(&rel),
                dashes: matches!(rel, Relationship::Divorced | Relationship::Dating),
                width: self.relationship_width(&rel),
                arrows: String::from_str("to"),
            };
            proof {
                assert(edge_entry_ok(entry, self@.edges[e as int]));
            }
            edges.push(entry);
        }
        FamilyNetworkData { nodes, edges }
    }

    /// Looks a person up by the widget identifier of a node: the `node_`
    /// prefix followed by the node's decimal index.  Nothing is returned
    /// for an identifier of any other shape, or for an index beyond the
    /// graph.
    pub fn get_person_details<'a>(&'a self, node_id: &str) -> (r: Option<&'a Person>)
        ensures
            ({
                let ix = id_index(node_id@);
                match r {
                    Some(p) => ix matches Some(k) && k < self@.nodes.len() && p@ == self@.nodes[k],
                    None => !(ix matches Some(k) && k < self@.nodes.len()),
                }
            }),
    {
        proof {
            lemma_view_parts(self);
            reveal_strlit("node_");
        }
        let n: usize = node_id.unicode_len();
        if n < 5 {
            return None;
        }
        if !(node_id.get_char(0) == 'n' && node_id.get_char(1) == 'o' && node_id.get_char(2)
            == 'd' && node_id.get_char(3) == 'e' && node_id.get_char(4) == '_') {
            proof {
                assert(node_id@.take(5).len() == 5);
                if node_id@.take(5) == "node_"@ {
                    assert(node_id@[0] == "node_"@[0] && node_id@[1] == "node_"@[1] && node_id@[2]
                        == "node_"@[2] && node_id@[3] == "node_"@[3] && node_id@[4]
                        == "node_"@[4]) by {
                        assert(forall|k: int|
                            0 <= k < 5 ==> #[trigger] node_id@.take(5)[k] == node_id@[k]);
                    }
                }
            }
            return None;
        }
        proof {
            assert(node_id@.take(5) =~= "node_"@);
        }
        match parse_decimal(node_id, 5) {
            None => None,
            Some(v) => {
                let count: usize = graph_node_count(&self.graph);
                if v < count {
                    Some(graph_node_at(&self.graph, v))
                } else {
                    None
                }
            },
        }
    }
}

} // verus!
