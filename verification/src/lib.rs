//! Zellij-style sticky modes for herdr: the keymap, the index arithmetic of
//! the tab, agent and space rings, and the decisions a mode takes per key.
use vstd::prelude::*;

pub mod client;
pub mod config;
pub mod hint;
pub mod keymap;
pub mod modes;
pub mod nav;
pub mod resume;
pub mod run;
pub mod script;
pub mod search;
pub mod start;
pub mod text;

verus! {

} // verus!
