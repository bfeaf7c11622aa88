//! Inspection of machine-learning model files: the typed computation-graph
//! format and the flat tensor archive with a JSON header.
//!
//! - `registry`: a name-indexed store handing out stable ids.
//! - `types`: type descriptors and their rendering (`f32[batch,128]`).
//! - `depgraph`: the node-dependency graph, kept in petgraph's `GraphMap`.
//! - `onnx`: the graph model, built in passes from a decoded tree.
//! - `usage`: operator usage counts, most used first.
//! - `summary`: the summary record of a graph model.
//! - `safetensors`: the tensor archive's header.
//! - `model`: one summary operation over both formats.

pub mod registry;
pub mod types;
pub mod depgraph;
pub mod onnx;
pub mod usage;
pub mod summary;
pub mod safetensors;
pub mod model;
