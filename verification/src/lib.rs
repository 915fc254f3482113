//! Intermediate representation of a declarative UI document: an object tree
//! of typed elements grouped into components, together with the normalization
//! pass that extracts the content of repeated elements into self-contained
//! synthesized components.

pub mod diagnostics;
pub mod laws;
pub mod object_tree;
pub mod repeater_component;
pub mod walker;
