//! Core of a transparent package registry: an append-only, verifiable log
//! service that accepts signed package records, validates them against a
//! per-log state machine, promotes them under signed checkpoints, and serves
//! the resulting history.

use vstd::prelude::*;

pub mod api;
pub mod bytes;
pub mod digest;
pub mod keyset;
pub mod laws;
pub mod operator;
pub mod opshard;
pub mod package;
pub mod records;
pub mod service;
pub mod shard;

verus! {

/// The client command that updates all local package logs to the latest
/// published records of a registry. The command's I/O lives outside the
/// library; this type carries its options.
pub struct UpdateCommand {
    /// The registry to update from, when overriding the configured one.
    pub registry: Option<String>,
}

/// Returns the version string of this library.
pub fn version() -> (res: &'static str)
    ensures
        res@ == "0.1.0"@,
{
    "0.1.0"
}

} // verus!
