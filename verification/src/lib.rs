//! Ontogen: the logic of a build-time code generator for ontology-driven
//! applications, with its contracts.

pub mod text;
pub mod ir;
pub mod naming;
pub mod schema;
pub mod servers;
pub mod attrs;
pub mod api;
pub mod order;
pub mod store;
pub mod clients;
pub mod admin;
pub mod docs;
pub mod pipeline;
pub mod source;
