//! The data model of the registry: record payloads, signed envelopes,
//! content sources, checkpoints, log leaves and record states.
//!
//! Every executable type has a ghost mirror (suffixed `V`) over `Seq` and
//! plain values; contracts are stated over those views.

use vstd::prelude::*;
use crate::bytes::clone_bytes;
use crate::digest::{sha256_of, Digest, KeyId, LogId, RecordId};

verus! {

/// A semantic version of a released package.
#[derive(Clone, Copy, Debug, PartialEq, Eq, Structural)]
pub struct Version {
    pub major: u64,
    pub minor: u64,
    pub patch: u64,
}

/// Strict ordering of versions: lexicographic over (major, minor, patch).
pub open spec fn version_lt(a: Version, b: Version) -> bool {
    ||| a.major < b.major
    ||| (a.major == b.major && a.minor < b.minor)
    ||| (a.major == b.major && a.minor == b.minor && a.patch < b.patch)
}

impl Version {
    /// Builds a version from its three components.
    pub fn new(major: u64, minor: u64, patch: u64) -> (r: Version)
        ensures
            r == (Version { major, minor, patch }),
    {
        Version { major, minor, patch }
    }

    /// Decides the strict version order.
    pub fn lt(&self, other: &Version) -> (r: bool)
        ensures
            r == version_lt(*self, *other),
    {
        if self.major != other.major {
            self.major < other.major
        } else if self.minor != other.minor {
            self.minor < other.minor
        } else {
            self.patch < other.patch
        }
    }
}

/// One operation carried by a package record.
#[derive(Debug, Clone, PartialEq, Eq)]
pub enum PackageEntry {
    /// Establishes the package log and its first authorized key.
    Init { key: KeyId },
    /// Authorizes an additional key.
    Grant { key: KeyId },
    /// Removes a key from the authorized set.
    Revoke { key: KeyId },
    /// Releases a version whose content blob has the given digest.
    Release { version: Version, content: Digest },
}

/// Ghost mirror of `PackageEntry`.
#[verifier::ext_equal]
pub enum PackageEntryV {
    Init { key: Seq<u8> },
    Grant { key: Seq<u8> },
    Revoke { key: Seq<u8> },
    Release { version: Version, content: Seq<u8> },
}

impl View for PackageEntry {
    type V = PackageEntryV;

    open spec fn view(&self) -> PackageEntryV {
        match self {
            PackageEntry::Init { key } => PackageEntryV::Init { key: key@ },
            PackageEntry::Grant { key } => PackageEntryV::Grant { key: key@ },
            PackageEntry::Revoke { key } => PackageEntryV::Revoke { key: key@ },
            PackageEntry::Release { version, content } => PackageEntryV::Release {
                version: *version,
                content: content@,
            },
        }
    }
}

impl PackageEntry {
    /// Returns a copy of this entry.
    pub fn dup(&self) -> (r: PackageEntry)
        ensures
            r@ == self@,
    {
        match self {
            PackageEntry::Init { key } => PackageEntry::Init { key: key.dup() },
            PackageEntry::Grant { key } => PackageEntry::Grant { key: key.dup() },
            PackageEntry::Revoke { key } => PackageEntry::Revoke { key: key.dup() },
            PackageEntry::Release { version, content } => PackageEntry::Release {
                version: *version,
                content: content.dup(),
            },
        }
    }
}

/// The payload of a package record: an ordered list of operations.
#[derive(Debug, Clone, PartialEq, Eq)]
pub struct PackageRecord {
    pub entries: Vec<PackageEntry>,
}

/// Ghost mirror of `PackageRecord`.
#[verifier::ext_equal]
pub struct PackageRecordV {
    pub entries: Seq<PackageEntryV>,
}

impl View for PackageRecord {
    type V = PackageRecordV;

    open spec fn view(&self) -> PackageRecordV {
        PackageRecordV { entries: self.entries@.map_values(|e: PackageEntry| e@) }
    }
}

impl PackageRecord {
    /// Returns a copy of this record.
    pub fn dup(&self) -> (r: PackageRecord)
        ensures
            r@ == self@,
    {
        let mut entries: Vec<PackageEntry> = Vec::new();
        let mut i: usize = 0;
        while i < self.entries.len()
            invariant
                i <= self.entries.len(),
                entries@.len() == i,
                forall|j: int| 0 <= j < i ==> entries@[j]@ == self.entries@[j]@,
            decreases self.entries.len() - i,
        {
            entries.push(self.entries[i].dup());
            i = i + 1;
        }
        let r = PackageRecord { entries };
        proof {
            assert(r@.entries =~= self@.entries);
        }
        r
    }
}

/// A package record wrapped in its signed envelope. `content_bytes` is the
/// canonical serialization produced by the wire layer; the signature over it
/// is presumed already verified when the envelope reaches the core.
#[derive(Debug, Clone, PartialEq, Eq)]
pub struct PackageRecordEnvelope {
    pub contents: PackageRecord,
    pub key_id: KeyId,
    pub signature: Vec<u8>,
    pub content_bytes: Vec<u8>,
}

/// Ghost mirror of `PackageRecordEnvelope`.
#[verifier::ext_equal]
pub struct PackageRecordEnvelopeV {
    pub contents: PackageRecordV,
    pub key_id: Seq<u8>,
    pub signature: Seq<u8>,
    pub content_bytes: Seq<u8>,
}

impl View for PackageRecordEnvelope {
    type V = PackageRecordEnvelopeV;

    open spec fn view(&self) -> PackageRecordEnvelopeV {
        PackageRecordEnvelopeV {
            contents: self.contents@,
            key_id: self.key_id@,
            signature: self.signature@,
            content_bytes: self.content_bytes@,
        }
    }
}

impl PackageRecordEnvelope {
    /// Returns a copy of this envelope.
    pub fn dup(&self) -> (r: PackageRecordEnvelope)
        ensures
            r@ == self@,
    {
        PackageRecordEnvelope {
            contents: self.contents.dup(),
            key_id: self.key_id.dup(),
            signature: clone_bytes(&self.signature),
            content_bytes: clone_bytes(&self.content_bytes),
        }
    }
}

impl RecordId {
    /// Computes the record id of a package record: the digest of the
    /// envelope's canonical bytes.
    pub fn package_record(env: &PackageRecordEnvelope) -> (r: RecordId)
        ensures
            r@ == sha256_of(env.content_bytes@),
    {
        let d = Digest::sha256(&env.content_bytes);
        RecordId { bytes: d.bytes }
    }
}

/// One operation carried by an operator record.
#[derive(Debug, Clone, PartialEq, Eq)]
pub enum OperatorEntry {
    /// Establishes the operator log and its first authorized key.
    Init { key: KeyId },
    /// Authorizes an additional key.
    Grant { key: KeyId },
    /// Removes a key from the authorized set.
    Revoke { key: KeyId },
}

/// Ghost mirror of `OperatorEntry`.
#[verifier::ext_equal]
pub enum OperatorEntryV {
    Init { key: Seq<u8> },
    Grant { key: Seq<u8> },
    Revoke { key: Seq<u8> },
}

impl View for OperatorEntry {
    type V = OperatorEntryV;

    open spec fn view(&self) -> OperatorEntryV {
        match self {
            OperatorEntry::Init { key } => OperatorEntryV::Init { key: key@ },
            OperatorEntry::Grant { key } => OperatorEntryV::Grant { key: key@ },
            OperatorEntry::Revoke { key } => OperatorEntryV::Revoke { key: key@ },
        }
    }
}

impl OperatorEntry {
    /// Returns a copy of this entry.
    pub fn dup(&self) -> (r: OperatorEntry)
        ensures
            r@ == self@,
    {
        match self {
            OperatorEntry::Init { key } => OperatorEntry::Init { key: key.dup() },
            OperatorEntry::Grant { key } => OperatorEntry::Grant { key: key.dup() },
            OperatorEntry::Revoke { key } => OperatorEntry::Revoke { key: key.dup() },
        }
    }
}

/// The payload of an operator record.
#[derive(Debug, Clone, PartialEq, Eq)]
pub struct OperatorRecord {
    pub entries: Vec<OperatorEntry>,
}

/// Ghost mirror of `OperatorRecord`.
#[verifier::ext_equal]
pub struct OperatorRecordV {
    pub entries: Seq<OperatorEntryV>,
}

impl View for OperatorRecord {
    type V = OperatorRecordV;

    open spec fn view(&self) -> OperatorRecordV {
        OperatorRecordV { entries: self.entries@.map_values(|e: OperatorEntry| e@) }
    }
}

impl OperatorRecord {
    /// Returns a copy of this record.
    pub fn dup(&self) -> (r: OperatorRecord)
        ensures
            r@ == self@,
    {
        let mut entries: Vec<OperatorEntry> = Vec::new();
        let mut i: usize = 0;
        while i < self.entries.len()
            invariant
                i <= self.entries.len(),
                entries@.len() == i,
                forall|j: int| 0 <= j < i ==> entries@[j]@ == self.entries@[j]@,
            decreases self.entries.len() - i,
        {
            entries.push(self.entries[i].dup());
            i = i + 1;
        }
        let r = OperatorRecord { entries };
        proof {
            assert(r@.entries =~= self@.entries);
        }
        r
    }
}

/// An operator record wrapped in its signed envelope.
#[derive(Debug, Clone, PartialEq, Eq)]
pub struct OperatorRecordEnvelope {
    pub contents: OperatorRecord,
    pub key_id: KeyId,
    pub signature: Vec<u8>,
    pub content_bytes: Vec<u8>,
}

/// Ghost mirror of `OperatorRecordEnvelope`.
#[verifier::ext_equal]
pub struct OperatorRecordEnvelopeV {
    pub contents: OperatorRecordV,
    pub key_id: Seq<u8>,
    pub signature: Seq<u8>,
    pub content_bytes: Seq<u8>,
}

impl View for OperatorRecordEnvelope {
    type V = OperatorRecordEnvelopeV;

    open spec fn view(&self) -> OperatorRecordEnvelopeV {
        OperatorRecordEnvelopeV {
            contents: self.contents@,
            key_id: self.key_id@,
            signature: self.signature@,
            content_bytes: self.content_bytes@,
        }
    }
}

impl OperatorRecordEnvelope {
    /// Returns a copy of this envelope.
    pub fn dup(&self) -> (r: OperatorRecordEnvelope)
        ensures
            r@ == self@,
    {
        OperatorRecordEnvelope {
            contents: self.contents.dup(),
            key_id: self.key_id.dup(),
            signature: clone_bytes(&self.signature),
            content_bytes: clone_bytes(&self.content_bytes),
        }
    }
}

impl RecordId {
    /// Computes the record id of an operator record.
    pub fn operator_record(env: &OperatorRecordEnvelope) -> (r: RecordId)
        ensures
            r@ == sha256_of(env.content_bytes@),
    {
        let d = Digest::sha256(&env.content_bytes);
        RecordId { bytes: d.bytes }
    }
}

/// Where a content blob with a given digest can be retrieved from.
#[derive(Debug, Clone, PartialEq, Eq)]
pub enum ContentSourceKind {
    /// The blob can be fetched anonymously over HTTP from the given URL.
    HttpAnonymous { url: String },
}

/// Ghost mirror of `ContentSourceKind`.
#[verifier::ext_equal]
pub enum ContentSourceKindV {
    HttpAnonymous { url: Seq<char> },
}

impl View for ContentSourceKind {
    type V = ContentSourceKindV;

    open spec fn view(&self) -> ContentSourceKindV {
        match self {
            ContentSourceKind::HttpAnonymous { url } => ContentSourceKindV::HttpAnonymous {
                url: url@,
            },
        }
    }
}

impl ContentSourceKind {
    /// Returns a copy of this source kind.
    pub fn dup(&self) -> (r: ContentSourceKind)
        ensures
            r@ == self@,
    {
        match self {
            ContentSourceKind::HttpAnonymous { url } => ContentSourceKind::HttpAnonymous {
                url: url.clone(),
            },
        }
    }
}

/// A content source submitted alongside a record: a digest and where to get
/// the blob it names.
#[derive(Debug, Clone, PartialEq, Eq)]
pub struct ContentSource {
    pub digest: Digest,
    pub kind: ContentSourceKind,
}

/// Ghost mirror of `ContentSource`.
#[verifier::ext_equal]
pub struct ContentSourceV {
    pub digest: Seq<u8>,
    pub kind: ContentSourceKindV,
}

impl View for ContentSource {
    type V = ContentSourceV;

    open spec fn view(&self) -> ContentSourceV {
        ContentSourceV { digest: self.digest@, kind: self.kind@ }
    }
}

impl ContentSource {
    /// Returns a copy of this content source.
    pub fn dup(&self) -> (r: ContentSource)
        ensures
            r@ == self@,
    {
        ContentSource { digest: self.digest.dup(), kind: self.kind.dup() }
    }
}

/// Returns a copy of a list of content sources.
pub fn dup_sources(sources: &Vec<ContentSource>) -> (r: Vec<ContentSource>)
    ensures
        r@.map_values(|s: ContentSource| s@) == sources@.map_values(|s: ContentSource| s@),
{
    let mut r: Vec<ContentSource> = Vec::new();
    let mut i: usize = 0;
    while i < sources.len()
        invariant
            i <= sources.len(),
            r@.len() == i,
            forall|j: int| 0 <= j < i ==> r@[j]@ == sources@[j]@,
        decreases sources.len() - i,
    {
        r.push(sources[i].dup());
        i = i + 1;
    }
    proof {
        assert(r@.map_values(|s: ContentSource| s@) =~= sources@.map_values(
            |s: ContentSource| s@,
        ));
    }
    r
}

/// The payload of a checkpoint: a commitment to the published prefix of
/// every log at a point in time.
#[derive(Debug, Clone, PartialEq, Eq)]
pub struct MapCheckpoint {
    pub log_root: Digest,
    pub log_length: u64,
    pub map_root: Digest,
}

/// Ghost mirror of `MapCheckpoint`.
#[verifier::ext_equal]
pub struct MapCheckpointV {
    pub log_root: Seq<u8>,
    pub log_length: u64,
    pub map_root: Seq<u8>,
}

impl View for MapCheckpoint {
    type V = MapCheckpointV;

    open spec fn view(&self) -> MapCheckpointV {
        MapCheckpointV {
            log_root: self.log_root@,
            log_length: self.log_length,
            map_root: self.map_root@,
        }
    }
}

impl MapCheckpoint {
    /// Returns a copy of this checkpoint payload.
    pub fn dup(&self) -> (r: MapCheckpoint)
        ensures
            r@ == self@,
    {
        MapCheckpoint {
            log_root: self.log_root.dup(),
            log_length: self.log_length,
            map_root: self.map_root.dup(),
        }
    }
}

/// A checkpoint wrapped in its signed envelope. `bytes` is the canonical
/// serialization produced by the wire layer; its digest identifies the
/// checkpoint.
#[derive(Debug, Clone, PartialEq, Eq)]
pub struct SignedCheckpoint {
    pub contents: MapCheckpoint,
    pub key_id: KeyId,
    pub signature: Vec<u8>,
    pub bytes: Vec<u8>,
}

/// Ghost mirror of `SignedCheckpoint`.
#[verifier::ext_equal]
pub struct SignedCheckpointV {
    pub contents: MapCheckpointV,
    pub key_id: Seq<u8>,
    pub signature: Seq<u8>,
    pub bytes: Seq<u8>,
}

impl View for SignedCheckpoint {
    type V = SignedCheckpointV;

    open spec fn view(&self) -> SignedCheckpointV {
        SignedCheckpointV {
            contents: self.contents@,
            key_id: self.key_id@,
            signature: self.signature@,
            bytes: self.bytes@,
        }
    }
}

impl SignedCheckpoint {
    /// Returns a copy of this signed checkpoint.
    pub fn dup(&self) -> (r: SignedCheckpoint)
        ensures
            r@ == self@,
    {
        SignedCheckpoint {
            contents: self.contents.dup(),
            key_id: self.key_id.dup(),
            signature: clone_bytes(&self.signature),
            bytes: clone_bytes(&self.bytes),
        }
    }

    /// Computes the hash identifying this checkpoint.
    pub fn hash(&self) -> (r: Digest)
        ensures
            r@ == sha256_of(self.bytes@),
    {
        Digest::sha256(&self.bytes)
    }
}

/// A log leaf: the pair submitted to the transparency sequencer when a
/// record is accepted.
#[derive(Debug, Clone, PartialEq, Eq)]
pub struct LogLeaf {
    pub log_id: LogId,
    pub record_id: RecordId,
}

/// Ghost mirror of `LogLeaf`.
#[verifier::ext_equal]
pub struct LogLeafV {
    pub log_id: Seq<u8>,
    pub record_id: Seq<u8>,
}

impl View for LogLeaf {
    type V = LogLeafV;

    open spec fn view(&self) -> LogLeafV {
        LogLeafV { log_id: self.log_id@, record_id: self.record_id@ }
    }
}

impl LogLeaf {
    /// Returns a copy of this leaf.
    pub fn dup(&self) -> (r: LogLeaf)
        ensures
            r@ == self@,
    {
        LogLeaf { log_id: self.log_id.dup(), record_id: self.record_id.dup() }
    }
}

/// An error surfaced by the core's fetch operations.
#[derive(Clone, Copy, Debug, PartialEq, Eq, Structural)]
pub enum CoreError {
    /// The queried checkpoint has not been installed.
    CheckpointNotKnown,
    /// The `since` record is not in the log, or the package is unknown.
    RecordNotFound,
}

/// The state of a record in the registry.
#[derive(Debug, Clone, PartialEq, Eq)]
pub enum RecordState {
    /// The record is not in the registry.
    Unknown,
    /// Accepted by the validator; its leaf has been emitted and it awaits a
    /// checkpoint.
    Processing,
    /// Promoted under a specific signed checkpoint.
    Published { checkpoint: SignedCheckpoint },
    /// Refused by the validator or by admission control; terminal.
    Rejected { reason: String },
}

/// Ghost mirror of `RecordState`.
#[verifier::ext_equal]
pub enum RecordStateV {
    Unknown,
    Processing,
    Published { checkpoint: SignedCheckpointV },
    Rejected { reason: Seq<char> },
}

impl View for RecordState {
    type V = RecordStateV;

    open spec fn view(&self) -> RecordStateV {
        match self {
            RecordState::Unknown => RecordStateV::Unknown,
            RecordState::Processing => RecordStateV::Processing,
            RecordState::Published { checkpoint } => RecordStateV::Published {
                checkpoint: checkpoint@,
            },
            RecordState::Rejected { reason } => RecordStateV::Rejected { reason: reason@ },
        }
    }
}

impl RecordState {
    /// Whether this state is `Rejected`.
    pub fn is_rejected(&self) -> (r: bool)
        ensures
            r == (self@ is Rejected),
    {
        match self {
            RecordState::Rejected { .. } => true,
            _ => false,
        }
    }

    /// Whether this state is `Published`.
    pub fn is_published(&self) -> (r: bool)
        ensures
            r == (self@ is Published),
    {
        match self {
            RecordState::Published { .. } => true,
            _ => false,
        }
    }

    /// Returns a copy of this state.
    pub fn dup(&self) -> (r: RecordState)
        ensures
            r@ == self@,
    {
        match self {
            RecordState::Unknown => RecordState::Unknown,
            RecordState::Processing => RecordState::Processing,
            RecordState::Published { checkpoint } => RecordState::Published {
                checkpoint: checkpoint.dup(),
            },
            RecordState::Rejected { reason } => RecordState::Rejected { reason: reason.clone() },
        }
    }
}

/// Everything the registry keeps about one package record.
#[derive(Debug, Clone, PartialEq, Eq)]
pub struct PackageRecordInfo {
    pub record: PackageRecordEnvelope,
    pub content_sources: Vec<ContentSource>,
    pub state: RecordState,
}

/// Ghost mirror of `PackageRecordInfo`.
#[verifier::ext_equal]
pub struct PackageRecordInfoV {
    pub record: PackageRecordEnvelopeV,
    pub content_sources: Seq<ContentSourceV>,
    pub state: RecordStateV,
}

impl View for PackageRecordInfo {
    type V = PackageRecordInfoV;

    open spec fn view(&self) -> PackageRecordInfoV {
        PackageRecordInfoV {
            record: self.record@,
            content_sources: self.content_sources@.map_values(|s: ContentSource| s@),
            state: self.state@,
        }
    }
}

impl PackageRecordInfo {
    /// Returns a copy of this record information.
    pub fn dup(&self) -> (r: PackageRecordInfo)
        ensures
            r@ == self@,
    {
        let r = PackageRecordInfo {
            record: self.record.dup(),
            content_sources: dup_sources(&self.content_sources),
            state: self.state.dup(),
        };
        proof {
            assert(r@ =~= self@);
        }
        r
    }
}

/// Everything the registry keeps about one operator record.
#[derive(Debug, Clone, PartialEq, Eq)]
pub struct OperatorRecordInfo {
    pub record: OperatorRecordEnvelope,
    pub state: RecordState,
}

/// Ghost mirror of `OperatorRecordInfo`.
#[verifier::ext_equal]
pub struct OperatorRecordInfoV {
    pub record: OperatorRecordEnvelopeV,
    pub state: RecordStateV,
}

impl View for OperatorRecordInfo {
    type V = OperatorRecordInfoV;

    open spec fn view(&self) -> OperatorRecordInfoV {
        OperatorRecordInfoV { record: self.record@, state: self.state@ }
    }
}

} // verus!
