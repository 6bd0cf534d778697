//! A marketplace ledger for unique digital assets.
//!
//! The core is the listing lifecycle state machine: creation, purchase,
//! price edits, cancellation and an admin-only emergency override, together
//! with platform-fee computation and access-control gating. The ledger state
//! is an explicit value threaded through every operation, and the caller
//! identity and attached payment are explicit parameters, so every operation
//! is a pure state transition with a proved contract.
//!
//! Alongside the ledger stand two small companions: numeric-to-text
//! formatting utilities and a plain employee registry.

pub mod bazaar;
pub mod fees;
pub mod laws;
pub mod strings;
pub mod strings_demo;
pub mod workers;
