//! Scene-graph compiler for a signed-distance-field renderer.
//!
//! A scene is edited as a graph of nodes. The traverser resolves that graph
//! into a scene tree, the passer lowers the tree into shader source, and the
//! reload manager decides when a new compute pipeline has to be built and
//! which pipeline stays active.
//!
//! The numbers of a scene are decimals, stored exactly; the text that is
//! generated for them is the text that denotes them.

pub mod text;
pub mod decimal;
pub mod datastructures;
pub mod ident;
pub mod transform_mat;
pub mod layer;
pub mod stmt;
pub mod passer;
pub mod graph;
pub mod index;
pub mod graph_traverser;
pub mod reload;
pub mod flipper;
pub mod settings;
pub mod laws;
