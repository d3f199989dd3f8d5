//! Runs a set of independently configured external commands ("plugins")
//! concurrently, collects their outputs or failures without letting one
//! plugin's failure affect the others, and renders a single textual report
//! that keeps the configured plugin order regardless of completion order.
//!
//! The asynchronous fan-out over real subprocesses lives outside this
//! library; it hands each plugin's raw capture back in as plain values.

pub mod config;
pub mod error;
pub mod exec;
pub mod output;

use vstd::prelude::*;

verus! {

} // verus!
