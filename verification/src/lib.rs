use vstd::prelude::*;

pub mod agent;
pub mod akashic;
pub mod apoptosis;
pub mod clock;
pub mod compliance;
pub mod crypto;
pub mod embedding;
pub mod exchange;
pub mod fortress;
pub mod healer;
pub mod hexutil;
pub mod identity;
pub mod ledger;
pub mod locator;
pub mod meta_logic;
pub mod neural_map;
pub mod noetic;
pub mod observer;
pub mod perception;
pub mod security;
pub mod strsim;
pub mod strutil;
pub mod swarm;
pub mod traffic;
pub mod vortex;
pub mod world;

verus! {

} // verus!
