//! Inventory replenishment and lateral transshipment for a network of one
//! warehouse and two stores, solved as a finite-horizon Markov decision
//! process. This crate holds the integer logic of the model: the state and
//! action spaces, the rationing cascade of warehouse stock, the heuristic
//! ordering and rebalancing rules and the period schedule of backward
//! induction.
use vstd::prelude::*;

pub mod actions;
pub mod base_stock;
pub mod policy_table;
pub mod rebalance;
pub mod schedule;
pub mod state;
pub mod tie;
pub mod transitions;

verus! {

/// Demand values run over `0..D_MAX` for each store.
pub const D_MAX: usize = 25;

} // verus!
