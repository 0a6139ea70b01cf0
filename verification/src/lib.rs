//! Verified core of a terminal chat client for a branching conversation
//! server: text layout, the conversation tree and the interface state machine.
use vstd::prelude::*;

pub mod app;
pub mod interface_laws;
pub mod laws;
pub mod text;
pub mod tree;
pub mod types;

verus! {
} // verus!
