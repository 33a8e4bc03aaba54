//! Core engine for a rotating-savings pool ("money circle"): a fixed group of
//! members each contribute a fixed amount per round into a shared pot, and on a
//! schedule one member per payout round receives the pot minus an organizer fee.
//! Members post refundable collateral; missed contributions are penalized by
//! partial or full collateral slashing.
//!
//! This crate holds the cycle state machine and the settlement accounting: cycle
//! creation, membership admission, round progression, payout computation, default
//! penalties, and collateral reconciliation. Asset custody, account storage,
//! signing, and the clock are external collaborators: every operation takes the
//! current time and the relevant escrow balances as plain values and returns the
//! transfer amounts the host must perform.

pub mod arith;
pub mod cycle;
pub mod errors;
pub mod member;
pub mod organizer;
pub mod penalty;
pub mod roster;
pub mod schedule;
