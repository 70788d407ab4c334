//! Game rules of an auto-battler played through an on-ledger account:
//! the shop actions a player takes between rounds, the automatic battle
//! between two teams, fighter abilities and the bookkeeping of a round.
//!
//! Every function here works on plain values; reading and writing the
//! ledger, the vaults and the runtime's random source is the caller's part.

pub mod decimal;
pub mod structs;
pub mod team;
pub mod actions;
pub mod combat;
pub mod rng;
pub mod abilities;
pub mod gameplay;
pub mod laws;
