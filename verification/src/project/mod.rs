//! Project scanning: what the index records about a Patto project.
pub mod parser_support;
pub mod parser;
pub mod package;
pub mod scanner;
pub mod locations;

use vstd::prelude::*;

verus! {

/// The version of the layout of the project index.
pub const INDEX_SCHEMA_VERSION: u32 = 1;

/// Where the project index is written, relative to the root.
pub const INDEX_RELATIVE_PATH: &'static str = ".patto/index.json";

/// Where the project configuration is read, relative to the root.
pub const CONFIG_RELATIVE_PATH: &'static str = ".patto/config.json";

} // verus!
