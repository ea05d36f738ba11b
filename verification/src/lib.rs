//! A named mutual-exclusion lock: independent execution contexts coordinate
//! exclusive access to a resource identified only by a string name, through a
//! shared storage medium that offers no native compare-and-swap.
//!
//! The acquisition protocol stores a decimal millisecond timestamp (a
//! *marker*) under a namespaced identifier derived from the lock name. A
//! marker younger than a fixed staleness threshold means the lock is held; an
//! absent, unparseable, or stale marker means the holder position is open and
//! may be claimed by writing a fresh marker and verifying the value read back.
//!
//! This crate verifies the protocol itself: marker formatting and parsing,
//! name validation, the staleness decision, and the read-verify-write claim
//! sequence against a model of the storage cell. Real backends (a filesystem
//! entry, a browser key/value store) supply the storage primitives and the
//! clock from outside, and drive the same decision functions.

pub mod error;
pub mod lock;
pub mod marker;
pub mod store;
