//! Record keeping for a crowdfunding platform: a registry of projects, a
//! lending pool per project, and a registry of achievement badges that can
//! never change hands.
//!
//! Each component is a plain value that holds its whole state. An operation
//! takes the proofs of intent that came with the call and the ledger's time as
//! arguments, and either commits its full effect or leaves the state as it was.

pub mod access;
pub mod badges;
pub mod pool;
pub mod registry;
