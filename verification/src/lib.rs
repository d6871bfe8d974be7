//! Reconstruction of a directed family graph from a flat, human-authored
//! spreadsheet: one row per person, generation depth signalled by a repeated
//! marker character (`*`) in the name field, and special symbols (`~`, `-/-`,
//! `- -`, `-`) denoting marriage, divorce, partner descent and dating.
//!
//! The crate splits the raw row sequence into family groups, then walks the
//! groups in order, inferring each person's generation, structural parent and
//! relationship kind from positional and symbolic cues alone.  The resulting
//! graph is projected into a node/edge view model for an interactive widget.

pub mod person;
pub mod relation;
pub mod graph;
pub mod model;
pub mod builder;
pub mod laws;
pub mod grouper;
pub mod text;
pub mod network;

pub use builder::FamilyTreeProcessor;
pub use network::{FamilyNetworkData, FontStyle, NetworkEdge, NetworkNode, NodeColor};
