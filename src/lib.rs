//! Scrape-and-persist pipeline for an investment portal's holdings table:
//! exact decimal cell parsing, table extraction, wait and retry policies,
//! trigger planning and batch persistence text.
use vstd::prelude::*;

pub mod amount;
pub mod cell;
pub mod table;
pub mod wait;
pub mod retry;
pub mod schedule;
pub mod session;
pub mod store;

verus! {

} // verus!
