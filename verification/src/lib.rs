//! Core logic of a small polling system: one identity creates a poll with a
//! fixed list of named options; other identities cast at most one vote each.
//! Polls live in a shared key-addressed store; the guard against double
//! voting is a record created at an address derived purely from the
//! (poll, voter) pair, so a second attempt finds the address occupied.

pub mod dispatch;
pub mod error;
pub mod guard;
pub mod identity;
pub mod layout;
pub mod poll;
