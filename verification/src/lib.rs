//! Structural core of a hydrothermal scheduling study: entity identifiers,
//! study validation rules, model indexing, commitment constraint layout,
//! variable naming and the iterative network-cut process.

pub mod ids;
pub mod text;
pub mod system;
pub mod validation;
pub mod indexing;
pub mod naming;
pub mod model;
pub mod commitment;
pub mod iteration;
pub mod laws;
pub mod study;
pub mod relaxation;
pub mod layout;
pub mod network;
pub mod layout_laws;
