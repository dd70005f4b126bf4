//! Dealer side of an aggregated range-proof protocol.
use vstd::prelude::*;

pub mod group;
pub mod transcript;
pub mod messages;
pub mod dealer;

verus! {

} // verus!
