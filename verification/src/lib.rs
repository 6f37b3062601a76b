//! Codecs for the Type Language wire format, and the schema compiler that
//! turns a Type Language schema into codec definitions.

pub mod code_gen;
pub mod error;
pub mod tl_types;
pub mod transport;
pub mod utils;
