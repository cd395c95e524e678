//! A verified settlement engine for splitting shared group expenses.
//!
//! The engine ingests a list of expense line items and configuration flags and
//! produces a reconciled ledger of per-person balances. Money is fixed-point
//! with eight decimal places, so every step of the arithmetic is exact
//! integer work, and the rounding of the few divisions stays several orders
//! of magnitude inside the one-cent settlement band — the ledger invariants
//! can then be stated and proved precisely.

pub mod arith;
pub mod models;
pub mod aggregate;
pub mod sums;
pub mod order;
pub mod settle;
pub mod engine;
pub mod laws;
pub mod guard;
pub mod session;
pub mod boundary;
pub mod dataurl;
pub mod imaging;

use vstd::prelude::*;

verus! {

/// Liveness probe for embedders: the library is linked and callable.
pub fn health_check() -> (r: bool)
    ensures
        r,
{
    true
}

} // verus!
