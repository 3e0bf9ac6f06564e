//! The schema model and the checks applied to parsed schema values.

pub mod model;
pub mod parse;
