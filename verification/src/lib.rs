//! Decision logic of a provider-side control plane for an on-chain compute
//! marketplace: the per-job lifecycle engine, its solvency arithmetic, the
//! decoding of job events, and the pure parts of cloud provisioning.
//!
//! Everything here computes on plain values. The program around the library
//! performs the network, cloud and timer operations that the library asks for
//! and hands the outcomes back.

pub mod amount;
pub mod connection;
pub mod event;
pub mod lifecycle;
pub mod manager;
pub mod provision;
pub mod rate_card;
pub mod spin_up;
pub mod text;
