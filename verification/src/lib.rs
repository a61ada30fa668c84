//! A terminal command library: folders of saved shell commands, fuzzy and
//! exact search over them, configuration, remote synchronisation decisions,
//! shell integration planning and the state machine of the terminal browser.
use vstd::prelude::*;

pub mod cli;
pub mod config;
pub mod order;
pub mod search;
pub mod shell;
pub mod store;
pub mod sync;
pub mod text;
pub mod tui;

verus! {
} // verus!
