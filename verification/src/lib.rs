//! A library for testing a compiler-like program against annotated source
//! files: inline comments state which diagnostics are expected, golden files
//! hold the reference output, and this crate checks one against the other.

use vstd::prelude::*;

pub mod cmd;
pub mod comments;
pub mod config;
pub mod data;
pub mod decoder;
pub mod filters;
pub mod matcher;
pub mod output;
pub mod parser;
pub mod results;
pub mod runner;
pub mod rustfixer;
pub mod rx;
pub mod util;
pub mod words;

verus! {

} // verus!
