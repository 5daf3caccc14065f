//! Command logic of a chat bot that relays prompts to a locally hosted
//! language model and delivers the answers within the chat platform's limits.
//!
//! Everything here is pure: the functions take and return plain values, and
//! the program around the library performs the network and chat operations.
use vstd::prelude::*;

pub mod commands;
pub mod delivery;
pub mod json;
pub mod pattern;

verus! {

/// Data shared by all command invocations. No state outlives an invocation,
/// so it is empty.
pub struct Data {}

} // verus!
