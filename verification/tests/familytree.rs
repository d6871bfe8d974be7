//! End-to-end tests of the grouper, the builder and the view model.

use familytree::builder::FamilyTreeProcessor;
use familytree::grouper::group_rows;
use familytree::person::{BuildError, Person, RootInfo};
use familytree::relation::{count_markers, relation_check, Relationship};

fn row(name: &str) -> Vec<String> {
    vec![
        name.to_string(),
        "1.1.1990".to_string(),
        "Hansen".to_string(),
        "Somewhere 1".to_string(),
        "Aarhus".to_string(),
        "11111111".to_string(),
        "22222222".to_string(),
        "mail@example.com".to_string(),
    ]
}

fn roots() -> (RootInfo, RootInfo) {
    (
        RootInfo {
            name: "Ahnentafel".to_string(),
            life: "1900-1980".to_string(),
            last_name: "Hansen".to_string(),
        },
        RootInfo {
            name: "Stammutter".to_string(),
            life: "1902-1988".to_string(),
            last_name: "Hansen".to_string(),
        },
    )
}

fn build(groups: Vec<Vec<Vec<String>>>) -> Result<FamilyTreeProcessor, BuildError> {
    let (a, b) = roots();
    let mut p = FamilyTreeProcessor::new();
    p.build(&a, &b, &groups)?;
    Ok(p)
}

fn build_err(groups: Vec<Vec<Vec<String>>>) -> BuildError {
    let (a, b) = roots();
    let mut p = FamilyTreeProcessor::new();
    p.build(&a, &b, &groups).unwrap_err()
}

#[test]
fn roots_only_build() {
    let p = build(vec![]).unwrap();
    let data = p.get_network_data();
    assert_eq!(data.nodes.len(), 2);
    assert_eq!(data.edges.len(), 1);
    assert_eq!(data.nodes[0].level, -1);
    assert_eq!(data.nodes[1].level, -1);
    assert_eq!(data.edges[0].from, "node_0");
    assert_eq!(data.edges[0].to, "node_1");
    assert_eq!(data.edges[0].label, "Gift");
    assert_eq!(data.edges[0].width, 3);
    assert_eq!(data.edges[0].color, "#ff0000");
}

#[test]
fn insufficient_rows_is_not_fatal() {
    let rows = vec![row("H1"), row("H2"), row("A"), row("F1"), row("F2")];
    let outcome = group_rows(&rows);
    assert!(outcome.insufficient);
    assert_eq!(outcome.groups.len(), 0);
    let p = build(outcome.groups).unwrap();
    let data = p.get_network_data();
    assert_eq!(data.nodes.len(), 2);
    assert_eq!(data.edges.len(), 1);
}

#[test]
fn grouping_splits_on_blank_first_cell() {
    let mut sep = row("");
    sep[0] = String::new();
    let rows = vec![
        row("Header"),
        row("Header2"),
        row("A"),
        row("B"),
        sep,
        row("C"),
        row("Footer1"),
        row("Footer2"),
        row("Footer3"),
    ];
    let outcome = group_rows(&rows);
    assert!(!outcome.insufficient);
    assert_eq!(outcome.groups.len(), 2);
    assert_eq!(outcome.groups[0].len(), 2);
    assert_eq!(outcome.groups[0][0][0], "A");
    assert_eq!(outcome.groups[0][1][0], "B");
    assert_eq!(outcome.groups[1].len(), 1);
    assert_eq!(outcome.groups[1][0][0], "C");
}

#[test]
fn scenario_jens_peter_anna() {
    let groups = vec![vec![row("Jens")], vec![row("*Peter"), row("*Anna")]];
    let p = build(groups).unwrap();
    let data = p.get_network_data();
    assert_eq!(data.nodes.len(), 5);
    assert_eq!(data.nodes[2].label, "Jens");
    assert_eq!(data.nodes[2].level, 0);
    assert_eq!(data.nodes[3].label, "*Peter");
    assert_eq!(data.nodes[3].level, 1);
    assert_eq!(data.nodes[4].level, 1);
    assert_eq!(data.edges.len(), 4);
    // Jens is a child of the first root.
    assert_eq!(data.edges[1].from, "node_0");
    assert_eq!(data.edges[1].to, "node_2");
    assert_eq!(data.edges[1].label, "Barn");
    // Peter descends one generation, so Jens becomes the structural parent.
    assert_eq!(data.edges[2].from, "node_2");
    assert_eq!(data.edges[2].to, "node_3");
    assert_eq!(data.edges[2].label, "Barn");
    // Anna is a sibling of Peter and attaches to the identical parent.
    assert_eq!(data.edges[3].from, "node_2");
    assert_eq!(data.edges[3].to, "node_4");
    assert_eq!(data.edges[3].label, "Barn");
}

#[test]
fn scenario_married_maria_leaves_cursor_alone() {
    let groups = vec![vec![row("Jens"), row("~Maria"), row("*Child1")]];
    let p = build(groups).unwrap();
    let data = p.get_network_data();
    assert_eq!(data.nodes.len(), 5);
    // Maria is married to Jens.
    assert_eq!(data.edges[2].from, "node_2");
    assert_eq!(data.edges[2].to, "node_3");
    assert_eq!(data.edges[2].label, "Gift");
    // The child still attaches under Jens, not under Maria.
    assert_eq!(data.edges[3].from, "node_2");
    assert_eq!(data.edges[3].to, "node_4");
    assert_eq!(data.edges[3].label, "Barn");
}

#[test]
fn symbol_precedence() {
    assert_eq!(relation_check(&"x-/-y".to_string()), Relationship::Divorced);
    assert_eq!(relation_check(&"a- -b".to_string()), Relationship::ChildFromPartner);
    assert_eq!(relation_check(&"a-b".to_string()), Relationship::Dating);
    assert_eq!(relation_check(&"~Maria".to_string()), Relationship::Married);
    assert_eq!(relation_check(&"plain".to_string()), Relationship::Relative);
    // The divorce token also matches the bare dash, yet never reads as dating.
    assert_eq!(relation_check(&"a - b -/- c".to_string()), Relationship::Divorced);
    // The marriage symbol stands first in precedence.
    assert_eq!(relation_check(&"~a-/-b".to_string()), Relationship::Married);
}

#[test]
fn plain_rows_attach_flat_under_first_root() {
    let groups = vec![vec![row("A"), row("B")], vec![row("C")]];
    let p = build(groups).unwrap();
    let data = p.get_network_data();
    assert_eq!(data.nodes.len(), 5);
    assert_eq!(data.edges.len(), 4);
    for e in 1..data.edges.len() {
        assert_eq!(data.edges[e].from, "node_0");
        assert_eq!(data.edges[e].label, "Barn");
    }
}

#[test]
fn malformed_row_aborts_with_position() {
    let mut short = row("Bad");
    short.pop();
    let groups = vec![vec![row("A")], vec![row("B"), short]];
    let err = build_err(groups);
    assert_eq!(err, BuildError::MalformedRow(2));
}

#[test]
fn topology_error_on_inconsistent_depths() {
    // A double-marker row right below the roots leaves the parent at the
    // first root; rewinding two generations from there runs out of
    // ancestors.
    let groups = vec![vec![row("**Deep"), row("Flat")]];
    let err = build_err(groups);
    assert_eq!(err, BuildError::TopologyError(1));
}

#[test]
fn missing_configuration_is_fatal() {
    let (a, mut b) = roots();
    b.life = String::new();
    let mut p = FamilyTreeProcessor::new();
    let r = p.build(&a, &b, &vec![]);
    assert_eq!(r.unwrap_err(), BuildError::MissingConfiguration);
}

#[test]
fn failed_build_keeps_previous_graph() {
    let mut p = FamilyTreeProcessor::new();
    let (a, b) = roots();
    p.build(&a, &b, &vec![vec![row("Jens")]]).unwrap();
    let mut short = row("Bad");
    short.truncate(3);
    let r = p.build(&a, &b, &vec![vec![short]]);
    assert_eq!(r.unwrap_err(), BuildError::MalformedRow(0));
    let data = p.get_network_data();
    assert_eq!(data.nodes.len(), 3);
    assert_eq!(data.nodes[2].label, "Jens");
}

#[test]
fn rewind_walks_back_to_the_root() {
    let groups = vec![vec![row("Jens")], vec![row("*Peter")], vec![row("Karen")]];
    let p = build(groups).unwrap();
    let data = p.get_network_data();
    assert_eq!(data.nodes.len(), 5);
    // Karen is two generations above the cursor; the walk ends at the root.
    assert_eq!(data.edges[3].from, "node_0");
    assert_eq!(data.edges[3].to, "node_4");
    assert_eq!(data.edges[3].label, "Barn");
}

#[test]
fn partner_child_edge_leaves_current_node() {
    let groups = vec![vec![row("Jens"), row("a- -b"), row("*After")]];
    let p = build(groups).unwrap();
    let data = p.get_network_data();
    // The partner descendant hangs off Jens without moving the cursor.
    assert_eq!(data.edges[2].from, "node_2");
    assert_eq!(data.edges[2].to, "node_3");
    assert_eq!(data.edges[2].label, "Ukendt");
    assert_eq!(data.edges[3].from, "node_2");
    assert_eq!(data.edges[3].to, "node_4");
    assert_eq!(data.edges[3].label, "Barn");
}

#[test]
fn divorced_edge_styling() {
    let groups = vec![vec![row("Jens"), row("x-/-y")]];
    let p = build(groups).unwrap();
    let data = p.get_network_data();
    assert_eq!(data.edges[2].label, "Skilt");
    assert_eq!(data.edges[2].color, "#800080");
    assert!(data.edges[2].dashes);
    assert_eq!(data.edges[2].width, 1);
    assert!(!data.edges[1].dashes);
}

#[test]
fn network_node_presentation() {
    let p = build(vec![vec![row("Jens")]]).unwrap();
    let data = p.get_network_data();
    assert_eq!(data.nodes[2].id, "node_2");
    assert_eq!(data.nodes[2].label, "Jens");
    assert_eq!(data.nodes[2].title, "Click for details about Jens");
    assert_eq!(data.nodes[2].color.background, "#ffcccb");
    assert_eq!(data.nodes[2].color.border, "#2B7CE9");
    assert_eq!(data.nodes[0].color.background, "#fffccb");
    assert_eq!(data.nodes[2].font.size, 16);
    assert_eq!(data.nodes[2].font.color, "#343434");
    assert_eq!(data.nodes[2].person_data.name, "Jens");
    assert_eq!(data.edges[1].arrows, "to");
}

#[test]
fn person_details_lookup() {
    let p = build(vec![vec![row("Jens")]]).unwrap();
    let jens = p.get_person_details("node_2").unwrap();
    assert_eq!(jens.name, "Jens");
    assert_eq!(jens.generation, 0);
    assert_eq!(jens.birthdate, "1.1.1990");
    assert!(p.get_person_details("node_9").is_none());
    assert!(p.get_person_details("node_").is_none());
    assert!(p.get_person_details("nod_2").is_none());
    assert!(p.get_person_details("node_2x").is_none());
    assert!(p.get_person_details("").is_none());
    // A leading zero still denotes the same index.
    assert_eq!(p.get_person_details("node_02").unwrap().name, "Jens");
}

#[test]
fn marker_counting() {
    assert_eq!(count_markers(&"**Peter*".to_string()), 3);
    assert_eq!(count_markers(&"Peter".to_string()), 0);
    assert_eq!(count_markers(&String::new()), 0);
}

#[test]
fn person_from_row() {
    let p = Person::new(row("Jens"), 0).unwrap();
    assert_eq!(p.name, "Jens");
    assert_eq!(p.birthdate, "1.1.1990");
    assert_eq!(p.last_name, "Hansen");
    assert_eq!(p.address, "Somewhere 1");
    assert_eq!(p.city, "Aarhus");
    assert_eq!(p.landline, "11111111");
    assert_eq!(p.mobile_number, "22222222");
    assert_eq!(p.email, "mail@example.com");
    assert_eq!(p.generation, 0);
    let mut short = row("Jens");
    short.pop();
    assert!(Person::new(short, 0).is_err());
}

#[test]
fn person_placeholder() {
    let p = Person::default();
    assert_eq!(p.generation, 0);
    assert_eq!(p.name, "insert_name");
    assert_eq!(p.birthdate, "insert birthdate");
    assert_eq!(p.last_name, "insert_lastname");
}

#[test]
fn generation_palette_fallback() {
    let p = FamilyTreeProcessor::new();
    assert_eq!(p.get_generation_color(-1), "#fffccb");
    assert_eq!(p.get_generation_color(2), "#90ee90");
    assert_eq!(p.get_generation_color(3), "#ffb6c1");
    assert_eq!(p.get_generation_color(7), "#f0f0f0");
    assert_eq!(p.relationship_label(&Relationship::Dating), "Kærester");
    assert_eq!(p.relationship_label(&Relationship::NotFound), "Ukendt");
    assert_eq!(p.relationship_width(&Relationship::Child), 2);
    assert_eq!(p.relationship_color(&Relationship::Relative), "#808080");
}

#[test]
fn double_digit_node_identifiers() {
    let names = ["A", "B", "C", "D", "E", "F", "G", "H", "I"];
    let groups = vec![names.iter().map(|n| row(n)).collect::<Vec<_>>()];
    let p = build(groups).unwrap();
    let data = p.get_network_data();
    assert_eq!(data.nodes.len(), 11);
    assert_eq!(data.nodes[10].id, "node_10");
    assert_eq!(data.nodes[10].label, "I");
    assert_eq!(p.get_person_details("node_10").unwrap().name, "I");
}
