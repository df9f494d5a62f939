//! Core logic of a chat bot that serves a searchable catalog of strains,
//! per-dimension autocomplete suggestions, and a per-user "puff" counter
//! with a two-step confirmed reset.
//!
//! Everything here works on plain values. The surrounding program owns the
//! chat session and the database connection; it loads rows into the types of
//! this crate, calls the functions here to decide what to answer, and carries
//! the answers back out.

pub mod catalog;
pub mod composer;
pub mod counter;
pub mod dispatch;
pub mod reset_flow;
pub mod suggest;
pub mod text;
pub mod totals;

use vstd::prelude::*;

verus! {

/// The fixed cap on how many catalog matches a search returns.
pub const SEARCH_CAP: usize = 15;

} // verus!
