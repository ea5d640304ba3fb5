//! Authentication and session management for a multi-user game lobby service.
//!
//! The crate models the service's relational store in memory and verifies the
//! logic that runs over it: ad-hoc credential issuance and verification,
//! PASETO-backed session lifecycle (create, verify, refresh, expire, sweep),
//! the request-time authorization step, and the lobby game state machine.
//! Cryptographic primitives and the clock are reached through a small set of
//! trusted wrappers around outside crates.

pub mod clock;
pub mod codec;
pub mod config;
pub mod model;
pub mod mutation;
pub mod numstr;
pub mod paseto;
pub mod query;
pub mod service;
pub mod util;
