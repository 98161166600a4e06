//! Cryptographic identifiers: content digests, log ids, record ids and
//! signer key ids. All are opaque SHA-256 digests used as map keys.

use vstd::prelude::*;
use vstd::string::StringSliceAdditionalSpecFns;
use crate::bytes::{bytes_equal, clone_bytes};

verus! {

/// The SHA-256 digest of a byte sequence. The digest is a pure function of
/// the input bytes; its definition is left to the hashing primitive.
pub uninterp spec fn sha256_of(bytes: Seq<u8>) -> Seq<u8>;

/// Relies on sha2::Sha256::digest: the digest depends on the input bytes
/// alone, and is always exactly 32 bytes long.
#[verifier::external_body]
fn sha256_raw(bytes: &[u8]) -> (r: Vec<u8>)
    ensures
        r@ == sha256_of(bytes@),
        r@.len() == 32,
{
    <sha2::Sha256 as sha2::Digest>::digest(bytes).to_vec()
}

/// An opaque content digest (the hash of a content blob).
#[derive(Debug, Clone, PartialEq, Eq)]
pub struct Digest {
    pub bytes: Vec<u8>,
}

impl View for Digest {
    type V = Seq<u8>;

    open spec fn view(&self) -> Seq<u8> {
        self.bytes@
    }
}

impl Digest {
    /// Wraps raw digest bytes.
    pub fn new(bytes: Vec<u8>) -> (r: Digest)
        ensures
            r@ == bytes@,
    {
        Digest { bytes }
    }

    /// Computes the SHA-256 digest of the given data.
    pub fn sha256(data: &Vec<u8>) -> (r: Digest)
        ensures
            r@ == sha256_of(data@),
            r@.len() == 32,
    {
        Digest { bytes: sha256_raw(data.as_slice()) }
    }

    /// Returns a copy of this digest.
    pub fn dup(&self) -> (r: Digest)
        ensures
            r@ == self@,
    {
        Digest { bytes: clone_bytes(&self.bytes) }
    }

    /// Compares two digests for equality of their bytes.
    pub fn equals(&self, other: &Digest) -> (r: bool)
        ensures
            r == (self@ == other@),
    {
        bytes_equal(&self.bytes, &other.bytes)
    }
}

/// The identifier of a log: the SHA-256 digest of the log's name.
#[derive(Debug, Clone, PartialEq, Eq)]
pub struct LogId {
    pub bytes: Vec<u8>,
}

impl View for LogId {
    type V = Seq<u8>;

    open spec fn view(&self) -> Seq<u8> {
        self.bytes@
    }
}

impl LogId {
    /// Computes the log id of the package log with the given name.
    pub fn package_log(name: &str) -> (r: LogId)
        ensures
            r@ == sha256_of(name.spec_bytes()),
    {
        LogId { bytes: sha256_raw(name.as_bytes()) }
    }

    /// Returns a copy of this log id.
    pub fn dup(&self) -> (r: LogId)
        ensures
            r@ == self@,
    {
        LogId { bytes: clone_bytes(&self.bytes) }
    }

    /// Compares two log ids.
    pub fn equals(&self, other: &LogId) -> (r: bool)
        ensures
            r == (self@ == other@),
    {
        bytes_equal(&self.bytes, &other.bytes)
    }
}

/// The identifier of a record: the SHA-256 digest of the record's canonical
/// envelope bytes.
#[derive(Debug, Clone, PartialEq, Eq)]
pub struct RecordId {
    pub bytes: Vec<u8>,
}

impl View for RecordId {
    type V = Seq<u8>;

    open spec fn view(&self) -> Seq<u8> {
        self.bytes@
    }
}

impl RecordId {
    /// Wraps raw record id bytes.
    pub fn new(bytes: Vec<u8>) -> (r: RecordId)
        ensures
            r@ == bytes@,
    {
        RecordId { bytes }
    }

    /// Returns a copy of this record id.
    pub fn dup(&self) -> (r: RecordId)
        ensures
            r@ == self@,
    {
        RecordId { bytes: clone_bytes(&self.bytes) }
    }

    /// Compares two record ids.
    pub fn equals(&self, other: &RecordId) -> (r: bool)
        ensures
            r == (self@ == other@),
    {
        bytes_equal(&self.bytes, &other.bytes)
    }
}

/// The identifier of a signing key (its fingerprint digest).
#[derive(Debug, Clone, PartialEq, Eq)]
pub struct KeyId {
    pub bytes: Vec<u8>,
}

impl View for KeyId {
    type V = Seq<u8>;

    open spec fn view(&self) -> Seq<u8> {
        self.bytes@
    }
}

impl KeyId {
    /// Wraps raw key id bytes.
    pub fn new(bytes: Vec<u8>) -> (r: KeyId)
        ensures
            r@ == bytes@,
    {
        KeyId { bytes }
    }

    /// Returns a copy of this key id.
    pub fn dup(&self) -> (r: KeyId)
        ensures
            r@ == self@,
    {
        KeyId { bytes: clone_bytes(&self.bytes) }
    }

    /// Compares two key ids.
    pub fn equals(&self, other: &KeyId) -> (r: bool)
        ensures
            r == (self@ == other@),
    {
        bytes_equal(&self.bytes, &other.bytes)
    }
}

} // verus!
