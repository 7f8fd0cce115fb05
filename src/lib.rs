//! Profile catalogue and query matching for a launcher plugin.
//!
//! Each application is declared by a configuration record; its profiles are
//! found by running a pattern over file names or over the text of one file.
//! Queries of the form `<shorthand> <fragment>` are matched against the
//! catalogue, with a browsable fallback list when nothing matches.
use vstd::prelude::*;

pub mod config;
pub mod loader;
pub mod pattern;
pub mod search;
pub mod text;

verus! {

} // verus!
