//! Core of a chat front end for a cave-layout generator: a per-key cooldown
//! check, a deadline-bound cancellable seed search, a Monte Carlo estimate of
//! how many seeds match a query, and the reading of command arguments.
use vstd::prelude::*;

pub mod args;
pub mod cavegen;
pub mod cooldown;
pub mod policy;
pub mod sampling;
pub mod search;
pub mod seed;
pub mod specifier;
pub mod text;

verus! {

} // verus!
