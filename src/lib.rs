//! Converts a small Markdown dialect to HTML, and fills the title, table of
//! contents and content slots of an existing HTML page while keeping every
//! other line of it as it is.
use vstd::prelude::*;

pub mod blocks;
pub mod codegen;
pub mod cursor;
pub mod data;
pub mod escaping;
pub mod links;
pub mod lookup;
pub mod parser;
pub mod progress;
pub mod spans;
pub mod template;

verus! {

} // verus!
