//! Structural deltas between record instances.
//!
//! A record is an ordered collection of fields; each field carries one of
//! three diff strategies. The diff engine compares two instances of the
//! same record shape and yields a compact delta, or reports that nothing
//! changed at all; the patch engine replays a delta onto a live instance.
//! A schema classifier resolves per-field strategy tokens and aggregates
//! every invalid declaration into a single error.

pub mod diff;
pub mod laws;
pub mod patch;
pub mod record;
pub mod schema;
pub mod unordered;
