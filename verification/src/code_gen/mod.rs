//! The schema compiler: from a Type Language schema to codec definitions.

pub mod generator;
pub mod schema;
pub mod tl_ident;
pub mod utils;
