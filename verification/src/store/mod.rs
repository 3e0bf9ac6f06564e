//! The generated CRUD store: update structs and conversions, CRUD
//! methods for each backend, and lifecycle hooks.

pub mod gen_update;
pub mod gen_crud;
pub mod markdown;
pub mod hooks;
