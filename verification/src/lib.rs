//! Composable interface schemas for smart-contract assets, and a read-only,
//! strongly-typed projection layer over a bound contract's generic state.
//!
//! The crate builds interface definitions by layering optional capability
//! fragments (renaming, inflation, burning, replacement) onto a mandatory
//! base in a fixed canonical order, derives a content-addressed identifier
//! for each composition, infers the capabilities of an observed interface
//! from its declared transition names, and extracts typed domain values
//! (specifications, supplies, allocations, operation histories) from the
//! untyped state of a contract bound to such an interface.

use vstd::prelude::*;

pub mod amount;
pub mod iface;
pub mod rgb20;
pub mod rgb25;
pub mod state;

verus! {

pub const LNPBP_IDENTITY: &'static str = "lnp-bp.org";

} // verus!
