//! ChainBounty: the rules of a decentralized bounty board for open-source
//! contributors, with escrow, platform fees, dispute resolution and
//! contributor reputation.
use vstd::prelude::*;

pub mod types;
pub mod validation;
pub mod model;
pub mod contract;
pub mod bounty;
pub mod dispute;
pub mod laws;
pub mod rules;

verus! {
}
