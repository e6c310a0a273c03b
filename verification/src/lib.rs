//! Core of an e-commerce backend: basket lifecycle, order composition and
//! identity resolution.
//!
//! The store-facing state (baskets, users, addresses, orders) is modelled as
//! in-memory collections with exact contracts; every mutation is a verified
//! state transition that preserves the store invariants, chief among them
//! that a user has at most one active basket at any time.  Token signing and
//! verification and password hashing are performed by outside crates behind
//! small trusted wrappers.

pub mod basket;
pub mod identity;
pub mod user;
pub mod address;
pub mod order;
pub mod session;
pub mod api;
