//! The per-package shard: validator, ordered record log, promotion index
//! list and record table, with the invariants that tie them together.

use vstd::prelude::*;
use vstd::string::StringExecFns;
use crate::bytes::{hex_of, to_hex};
use crate::digest::{sha256_of, Digest, LogId, RecordId};
use crate::keyset::{count_le, get_records_before_checkpoint, non_decreasing};
use crate::package::{fresh_validator, validate_spec, PackageValidator, PackageValidatorV,
    ValidationError};
use crate::records::{dup_sources, ContentSource, ContentSourceV, CoreError, LogLeaf, LogLeafV,
    PackageRecordEnvelope, PackageRecordEnvelopeV, PackageRecordInfo, PackageRecordInfoV,
    RecordState, RecordStateV, SignedCheckpoint, SignedCheckpointV};

verus! {

/// One entry of a shard's ordered log: the record envelope together with
/// its precomputed id.
pub struct LogEntry {
    pub record_id: RecordId,
    pub envelope: PackageRecordEnvelope,
}

/// Ghost mirror of `LogEntry`.
#[verifier::ext_equal]
pub struct LogEntryV {
    pub record_id: Seq<u8>,
    pub envelope: PackageRecordEnvelopeV,
}

impl View for LogEntry {
    type V = LogEntryV;

    open spec fn view(&self) -> LogEntryV {
        LogEntryV { record_id: self.record_id@, envelope: self.envelope@ }
    }
}

/// One entry of a shard's record table.
pub struct RecordEntry {
    pub record_id: RecordId,
    pub info: PackageRecordInfo,
}

/// Ghost mirror of `RecordEntry`.
#[verifier::ext_equal]
pub struct RecordEntryV {
    pub record_id: Seq<u8>,
    pub info: PackageRecordInfoV,
}

impl View for RecordEntry {
    type V = RecordEntryV;

    open spec fn view(&self) -> RecordEntryV {
        RecordEntryV { record_id: self.record_id@, info: self.info@ }
    }
}

/// The view of a record table.
pub open spec fn recs_view(records: Seq<RecordEntry>) -> Seq<RecordEntryV> {
    records.map_values(|e: RecordEntry| e@)
}

/// The view of a log.
pub open spec fn log_view(log: Seq<LogEntry>) -> Seq<LogEntryV> {
    log.map_values(|e: LogEntry| e@)
}

/// Whether the record table holds an entry for `id`.
pub open spec fn rec_has(records: Seq<RecordEntryV>, id: Seq<u8>) -> bool {
    exists|i: int| 0 <= i < records.len() && records[i].record_id == id
}

/// The index of the first entry for `id`.
pub open spec fn rec_first(records: Seq<RecordEntryV>, id: Seq<u8>) -> int
    decreases records.len(),
{
    if records.len() == 0 {
        0
    } else if records[0].record_id == id {
        0
    } else {
        1 + rec_first(records.drop_first(), id)
    }
}

/// `rec_first` returns the first matching entry.
pub proof fn lemma_rec_first(records: Seq<RecordEntryV>, id: Seq<u8>)
    requires
        rec_has(records, id),
    ensures
        0 <= rec_first(records, id) < records.len(),
        records[rec_first(records, id)].record_id == id,
        forall|j: int| 0 <= j < rec_first(records, id) ==> records[j].record_id != id,
    decreases records.len(),
{
    if records.len() > 0 && records[0].record_id != id {
        let i = choose|i: int| 0 <= i < records.len() && records[i].record_id == id;
        assert(records.drop_first()[i - 1] == records[i]);
        lemma_rec_first(records.drop_first(), id);
        assert forall|j: int| 0 <= j < rec_first(records, id) implies records[j].record_id
            != id by {
            if j > 0 {
                assert(records.drop_first()[j - 1] == records[j]);
            }
        }
    }
}

/// Any index with the first-occurrence property equals `rec_first`.
pub proof fn lemma_rec_first_is(records: Seq<RecordEntryV>, id: Seq<u8>, i: int)
    requires
        0 <= i < records.len(),
        records[i].record_id == id,
        forall|j: int| 0 <= j < i ==> records[j].record_id != id,
    ensures
        rec_first(records, id) == i,
{
    assert(rec_has(records, id));
    lemma_rec_first(records, id);
}

/// The information stored for `id`.
pub open spec fn rec_info(records: Seq<RecordEntryV>, id: Seq<u8>) -> PackageRecordInfoV
    recommends
        rec_has(records, id),
{
    records[rec_first(records, id)].info
}

/// The state stored for `id`; `Unknown` when absent.
pub open spec fn rec_state(records: Seq<RecordEntryV>, id: Seq<u8>) -> RecordStateV {
    if rec_has(records, id) {
        rec_info(records, id).state
    } else {
        RecordStateV::Unknown
    }
}

/// The record table with the entry for `id` set to `info`.
pub open spec fn rec_set(records: Seq<RecordEntryV>, id: Seq<u8>, info: PackageRecordInfoV) -> Seq<
    RecordEntryV,
> {
    if rec_has(records, id) {
        records.update(rec_first(records, id), RecordEntryV { record_id: id, info })
    } else {
        records.push(RecordEntryV { record_id: id, info })
    }
}

/// Whether the record table has pairwise distinct ids.
pub open spec fn unique_records(records: Seq<RecordEntryV>) -> bool {
    forall|i: int, j: int|
        #![trigger records[i].record_id, records[j].record_id]
        0 <= i < j < records.len() ==> records[i].record_id != records[j].record_id
}

/// Setting an entry: what the result holds for the set id.
pub proof fn lemma_rec_set_same(records: Seq<RecordEntryV>, id: Seq<u8>, info: PackageRecordInfoV)
    ensures
        ({
            let r = rec_set(records, id, info);
            &&& rec_has(r, id)
            &&& rec_first(r, id) == (if rec_has(records, id) {
                rec_first(records, id)
            } else {
                records.len() as int
            })
            &&& rec_info(r, id) == info
            &&& rec_state(r, id) == info.state
            &&& r.len() == records.len() + (if rec_has(records, id) {
                0int
            } else {
                1int
            })
        }),
{
    let r = rec_set(records, id, info);
    if rec_has(records, id) {
        lemma_rec_first(records, id);
        let i = rec_first(records, id);
        assert(r[i].record_id == id);
        assert forall|j: int| 0 <= j < i implies r[j].record_id != id by {
            assert(r[j] == records[j]);
        }
        lemma_rec_first_is(r, id, i);
    } else {
        let i = records.len() as int;
        assert(r[i].record_id == id);
        assert forall|j: int| 0 <= j < i implies r[j].record_id != id by {
            assert(r[j] == records[j]);
            assert(!(exists|l: int| 0 <= l < records.len() && records[l].record_id == id));
        }
        lemma_rec_first_is(r, id, i);
    }
}

/// Setting an entry: lookups of every other id are unchanged.
pub proof fn lemma_rec_set_other(
    records: Seq<RecordEntryV>,
    id: Seq<u8>,
    info: PackageRecordInfoV,
    other: Seq<u8>,
)
    requires
        other != id,
    ensures
        ({
            let r = rec_set(records, id, info);
            &&& rec_has(r, other) == rec_has(records, other)
            &&& rec_has(records, other) ==> rec_first(r, other) == rec_first(records, other)
                && rec_info(r, other) == rec_info(records, other)
            &&& rec_state(r, other) == rec_state(records, other)
        }),
{
    let r = rec_set(records, id, info);
    if rec_has(records, id) {
        lemma_rec_first(records, id);
    }
    if rec_has(records, other) {
        lemma_rec_first(records, other);
        let j = rec_first(records, other);
        assert(r[j].record_id == other);
        assert forall|l: int| 0 <= l < j implies r[l].record_id != other by {
            if records[l].record_id == other {
            }
        }
        lemma_rec_first_is(r, other, j);
        assert(r[j] == records[j]);
    } else {
        assert forall|l: int| 0 <= l < r.len() implies r[l].record_id != other by {
            if l < records.len() {
                assert(!(exists|m: int| 0 <= m < records.len() && records[m].record_id == other));
            }
        }
    }
}

/// Setting an entry preserves uniqueness of ids.
pub proof fn lemma_rec_set_unique(records: Seq<RecordEntryV>, id: Seq<u8>, info: PackageRecordInfoV)
    requires
        unique_records(records),
    ensures
        unique_records(rec_set(records, id, info)),
{
    let r = rec_set(records, id, info);
    if rec_has(records, id) {
        lemma_rec_first(records, id);
        assert forall|i: int, j: int|
            0 <= i < j < r.len() implies #[trigger] r[i].record_id != #[trigger] r[
            j
        ].record_id by {
            assert(r[i].record_id == records[i].record_id);
            assert(r[j].record_id == records[j].record_id);
        }
    } else {
        assert forall|i: int, j: int|
            0 <= i < j < r.len() implies #[trigger] r[i].record_id != #[trigger] r[
            j
        ].record_id by {
            if j == records.len() {
                assert(!(exists|m: int| 0 <= m < records.len() && records[m].record_id == id));
                assert(r[i].record_id == records[i].record_id);
            }
        }
    }
}

/// Whether the log holds an entry for `id`.
pub open spec fn log_has(log: Seq<LogEntryV>, id: Seq<u8>) -> bool {
    exists|i: int| 0 <= i < log.len() && log[i].record_id == id
}

/// The index of the first log entry for `id`.
pub open spec fn log_first(log: Seq<LogEntryV>, id: Seq<u8>) -> int
    decreases log.len(),
{
    if log.len() == 0 {
        0
    } else if log[0].record_id == id {
        0
    } else {
        1 + log_first(log.drop_first(), id)
    }
}

/// `log_first` returns the first matching entry.
pub proof fn lemma_log_first(log: Seq<LogEntryV>, id: Seq<u8>)
    requires
        log_has(log, id),
    ensures
        0 <= log_first(log, id) < log.len(),
        log[log_first(log, id)].record_id == id,
        forall|j: int| 0 <= j < log_first(log, id) ==> log[j].record_id != id,
    decreases log.len(),
{
    if log.len() > 0 && log[0].record_id != id {
        let i = choose|i: int| 0 <= i < log.len() && log[i].record_id == id;
        assert(log.drop_first()[i - 1] == log[i]);
        lemma_log_first(log.drop_first(), id);
        assert forall|j: int| 0 <= j < log_first(log, id) implies log[j].record_id != id by {
            if j > 0 {
                assert(log.drop_first()[j - 1] == log[j]);
            }
        }
    }
}

/// Any index with the first-occurrence property equals `log_first`.
pub proof fn lemma_log_first_is(log: Seq<LogEntryV>, id: Seq<u8>, i: int)
    requires
        0 <= i < log.len(),
        log[i].record_id == id,
        forall|j: int| 0 <= j < i ==> log[j].record_id != id,
    ensures
        log_first(log, id) == i,
{
    assert(log_has(log, id));
    lemma_log_first(log, id);
}

/// Whether the submitted sources carry the digest `d`.
pub open spec fn sources_have(sources: Seq<ContentSourceV>, d: Seq<u8>) -> bool {
    exists|i: int| 0 <= i < sources.len() && sources[i].digest == d
}

/// Whether some required digest is missing from the sources.
pub open spec fn has_missing(ds: Seq<Seq<u8>>, sources: Seq<ContentSourceV>) -> bool {
    exists|i: int| 0 <= i < ds.len() && !sources_have(sources, ds[i])
}

/// The index of the first required digest missing from the sources.
pub open spec fn missing_first(ds: Seq<Seq<u8>>, sources: Seq<ContentSourceV>) -> int
    decreases ds.len(),
{
    if ds.len() == 0 {
        0
    } else if !sources_have(sources, ds[0]) {
        0
    } else {
        1 + missing_first(ds.drop_first(), sources)
    }
}

/// `missing_first` returns the first missing digest.
pub proof fn lemma_missing_first(ds: Seq<Seq<u8>>, sources: Seq<ContentSourceV>)
    requires
        has_missing(ds, sources),
    ensures
        0 <= missing_first(ds, sources) < ds.len(),
        !sources_have(sources, ds[missing_first(ds, sources)]),
        forall|j: int| 0 <= j < missing_first(ds, sources) ==> sources_have(sources, ds[j]),
    decreases ds.len(),
{
    if ds.len() > 0 && sources_have(sources, ds[0]) {
        let i = choose|i: int| 0 <= i < ds.len() && !sources_have(sources, ds[i]);
        assert(ds.drop_first()[i - 1] == ds[i]);
        lemma_missing_first(ds.drop_first(), sources);
        assert forall|j: int| 0 <= j < missing_first(ds, sources) implies sources_have(
            sources,
            ds[j],
        ) by {
            if j > 0 {
                assert(ds.drop_first()[j - 1] == ds[j]);
            }
        }
    }
}

/// Any index with the first-missing property equals `missing_first`.
pub proof fn lemma_missing_first_is(ds: Seq<Seq<u8>>, sources: Seq<ContentSourceV>, i: int)
    requires
        0 <= i < ds.len(),
        !sources_have(sources, ds[i]),
        forall|j: int| 0 <= j < i ==> sources_have(sources, ds[j]),
    ensures
        missing_first(ds, sources) == i,
{
    assert(has_missing(ds, sources));
    lemma_missing_first(ds, sources);
}

/// A per-package shard: the mutable container owned by one log.
pub struct PackageShard {
    pub id: LogId,
    pub name: String,
    pub validator: PackageValidator,
    pub log: Vec<LogEntry>,
    pub checkpoint_indices: Vec<usize>,
    pub records: Vec<RecordEntry>,
}

/// Ghost mirror of `PackageShard`.
#[verifier::ext_equal]
pub struct PackageShardV {
    pub id: Seq<u8>,
    pub name: Seq<char>,
    pub validator: PackageValidatorV,
    pub log: Seq<LogEntryV>,
    pub checkpoint_indices: Seq<usize>,
    pub records: Seq<RecordEntryV>,
}

impl View for PackageShard {
    type V = PackageShardV;

    open spec fn view(&self) -> PackageShardV {
        PackageShardV {
            id: self.id@,
            name: self.name@,
            validator: self.validator@,
            log: log_view(self.log@),
            checkpoint_indices: self.checkpoint_indices@,
            records: recs_view(self.records@),
        }
    }
}

/// The validator state reached by applying the log in order from a fresh
/// validator, starting at position `i`. A record that fails to validate
/// leaves the state where it was; on a well-formed shard every log entry
/// validates.
pub open spec fn apply_log_from(v: PackageValidatorV, log: Seq<LogEntryV>, i: int) -> PackageValidatorV
    decreases log.len() - i,
{
    if i < 0 || i >= log.len() {
        v
    } else {
        match validate_spec(v, log[i].envelope) {
            Ok(p) => apply_log_from(p.0, log, i + 1),
            Err(_) => v,
        }
    }
}

/// Whether every log entry from position `i` on validates in order.
pub open spec fn log_validates(v: PackageValidatorV, log: Seq<LogEntryV>, i: int) -> bool
    decreases log.len() - i,
{
    i < 0 || i >= log.len() || (match validate_spec(v, log[i].envelope) {
        Ok(p) => log_validates(p.0, log, i + 1),
        Err(_) => false,
    })
}

/// Appending one entry to a log whose entries all validate extends the
/// applied state by exactly one validation step.
pub proof fn lemma_apply_log_push(v: PackageValidatorV, log: Seq<LogEntryV>, e: LogEntryV, i: int)
    requires
        0 <= i <= log.len(),
        log_validates(v, log, i),
    ensures
        apply_log_from(v, log.push(e), i) == (match validate_spec(
            apply_log_from(v, log, i),
            e.envelope,
        ) {
            Ok(p) => p.0,
            Err(_) => apply_log_from(v, log, i),
        }),
        validate_spec(apply_log_from(v, log, i), e.envelope) is Ok ==> log_validates(
            v,
            log.push(e),
            i,
        ),
    decreases log.len() - i,
{
    assert(log.push(e).len() == log.len() + 1);
    if i < log.len() {
        assert(log.push(e)[i] == log[i]);
        match validate_spec(v, log[i].envelope) {
            Ok(p) => {
                lemma_apply_log_push(p.0, log, e, i + 1);
                assert(apply_log_from(v, log, i) == apply_log_from(p.0, log, i + 1));
                assert(apply_log_from(v, log.push(e), i) == apply_log_from(
                    p.0,
                    log.push(e),
                    i + 1,
                ));
                if validate_spec(apply_log_from(v, log, i), e.envelope) is Ok {
                    assert(log_validates(p.0, log.push(e), i + 1));
                    assert(log_validates(v, log.push(e), i));
                }
            },
            Err(_) => {},
        }
    } else {
        assert(log.push(e)[i] == e);
        assert(apply_log_from(v, log, i) == v);
        match validate_spec(v, e.envelope) {
            Ok(p) => {
                assert(apply_log_from(p.0, log.push(e), i + 1) == p.0);
                assert(apply_log_from(v, log.push(e), i) == p.0);
                assert(log_validates(p.0, log.push(e), i + 1));
                assert(log_validates(v, log.push(e), i));
            },
            Err(_) => {
                assert(apply_log_from(v, log.push(e), i) == v);
            },
        }
    }
}

/// The shard invariants: log ids are unique; the promotion index list is a
/// non-decreasing prefix of the log; promoted entries are `Published` and
/// the tail is `Processing` (so `Rejected` records are never in the log);
/// the record table is keyed by unique, correctly computed ids and holds
/// the same envelope as the log.
pub open spec fn shard_wf(s: PackageShardV) -> bool {
    &&& forall|i: int, j: int|
        #![trigger s.log[i].record_id, s.log[j].record_id]
        0 <= i < j < s.log.len() ==> s.log[i].record_id != s.log[j].record_id
    &&& non_decreasing(s.checkpoint_indices)
    &&& s.checkpoint_indices.len() <= s.log.len()
    &&& unique_records(s.records)
    &&& forall|i: int|
        #![trigger s.log[i]]
        0 <= i < s.log.len() ==> rec_has(s.records, s.log[i].record_id) && rec_info(
            s.records,
            s.log[i].record_id,
        ).record == s.log[i].envelope && s.log[i].record_id == sha256_of(
            s.log[i].envelope.content_bytes,
        )
    &&& forall|i: int|
        #![trigger s.log[i]]
        0 <= i < s.log.len() ==> (if i < s.checkpoint_indices.len() {
            rec_state(s.records, s.log[i].record_id) is Published
        } else {
            rec_state(s.records, s.log[i].record_id) is Processing
        })
    &&& forall|i: int|
        #![trigger s.records[i]]
        0 <= i < s.records.len() ==> s.records[i].record_id == sha256_of(
            s.records[i].info.record.content_bytes,
        )
    &&& log_validates(fresh_validator(), s.log, 0)
    &&& s.validator == apply_log_from(fresh_validator(), s.log, 0)
}

/// The shard invariants that relate it to the installed checkpoint list:
/// every promotion index is a valid checkpoint index, and the `i`-th log
/// entry is `Published` under exactly that checkpoint.
pub open spec fn shard_ck_wf(s: PackageShardV, checkpoints: Seq<SignedCheckpointV>) -> bool {
    &&& forall|i: int|
        #![trigger s.checkpoint_indices[i]]
        0 <= i < s.checkpoint_indices.len() ==> (s.checkpoint_indices[i] as int)
            < checkpoints.len()
    &&& forall|i: int|
        #![trigger s.checkpoint_indices[i]]
        0 <= i < s.checkpoint_indices.len() ==> rec_state(s.records, s.log[i].record_id) == (
        RecordStateV::Published { checkpoint: checkpoints[s.checkpoint_indices[i] as int] })
}

/// The reason recorded when a record's id is already in progress or
/// published.
pub open spec fn dup_reason() -> Seq<char> {
    "record is already in progress or published"@
}

/// The reason recorded when a required content digest was not supplied.
pub open spec fn needed_reason(d: Seq<u8>) -> Seq<char> {
    "Needed content sha256:"@ + hex_of(d) + " but not provided"@
}

/// Builds the needed-content reason string for a digest.
fn needed_reason_string(d: &Digest) -> (r: String)
    ensures
        r@ == needed_reason(d@),
{
    let mut r = "Needed content sha256:".to_owned();
    let hex = to_hex(&d.bytes);
    r.append(hex.as_str());
    r.append(" but not provided");
    r
}

/// The record information stored for a rejected record.
pub open spec fn rejected_info(
    env: PackageRecordEnvelopeV,
    sources: Seq<ContentSourceV>,
    reason: Seq<char>,
) -> PackageRecordInfoV {
    PackageRecordInfoV {
        record: env,
        content_sources: sources,
        state: RecordStateV::Rejected { reason },
    }
}

/// What submitting a record to a shard does. `pre` and `post` are the shard
/// before and after, `r` the returned state, `emitted` whether a leaf was
/// sent to the checkpoint sink.
pub open spec fn submit_rel(
    pre: PackageShardV,
    post: PackageShardV,
    env: PackageRecordEnvelopeV,
    sources: Seq<ContentSourceV>,
    r: RecordStateV,
    emitted: bool,
) -> bool {
    let rid = sha256_of(env.content_bytes);
    let active = rec_has(pre.records, rid) && !(rec_state(pre.records, rid) is Rejected);
    if active {
        &&& post == pre
        &&& r == (RecordStateV::Rejected { reason: dup_reason() })
        &&& !emitted
    } else {
        match validate_spec(pre.validator, env) {
            Err(e) => {
                &&& post == (PackageShardV {
                    records: rec_set(pre.records, rid, rejected_info(env, sources, reason_of(e))),
                    ..pre
                })
                &&& r == (RecordStateV::Rejected { reason: reason_of(e) })
                &&& !emitted
            },
            Ok(p) => {
                if has_missing(p.1, sources) {
                    let reason = needed_reason(p.1[missing_first(p.1, sources)]);
                    &&& post == (PackageShardV {
                        records: rec_set(pre.records, rid, rejected_info(env, sources, reason)),
                        ..pre
                    })
                    &&& r == (RecordStateV::Rejected { reason })
                    &&& !emitted
                } else {
                    &&& post == (PackageShardV {
                        validator: p.0,
                        log: pre.log.push(LogEntryV { record_id: rid, envelope: env }),
                        records: rec_set(
                            pre.records,
                            rid,
                            PackageRecordInfoV {
                                record: env,
                                content_sources: sources,
                                state: RecordStateV::Processing,
                            },
                        ),
                        ..pre
                    })
                    &&& r == RecordStateV::Processing
                    &&& emitted
                }
            },
        }
    }
}

/// The reason text recorded for each validation error.
pub open spec fn reason_of(e: ValidationError) -> Seq<char> {
    match e {
        ValidationError::EmptyRecord => "record contains no operations"@,
        ValidationError::NotInitialized => "log is not initialized"@,
        ValidationError::AlreadyInitialized => "log is already initialized"@,
        ValidationError::UnauthorizedSigner => "record not signed by an authorized key"@,
        ValidationError::KeyAlreadyAuthorized => "key is already authorized"@,
        ValidationError::KeyNotAuthorized => "key is not authorized"@,
        ValidationError::VersionNotIncreasing => "release version does not increase"@,
    }
}

/// Builds the reason string for a validation error.
fn reason_string(e: ValidationError) -> (r: String)
    ensures
        r@ == reason_of(e),
{
    match e {
        ValidationError::EmptyRecord => "record contains no operations".to_owned(),
        ValidationError::NotInitialized => "log is not initialized".to_owned(),
        ValidationError::AlreadyInitialized => "log is already initialized".to_owned(),
        ValidationError::UnauthorizedSigner => "record not signed by an authorized key".to_owned(),
        ValidationError::KeyAlreadyAuthorized => "key is already authorized".to_owned(),
        ValidationError::KeyNotAuthorized => "key is not authorized".to_owned(),
        ValidationError::VersionNotIncreasing => "release version does not increase".to_owned(),
    }
}

/// Finds the first record-table entry for `id`.
fn find_record(records: &Vec<RecordEntry>, id: &RecordId) -> (r: Option<usize>)
    ensures
        match r {
            Some(i) => rec_has(recs_view(records@), id@) && i < records@.len() && i == rec_first(
                recs_view(records@),
                id@,
            ),
            None => !rec_has(recs_view(records@), id@),
        },
{
    let mut i: usize = 0;
    while i < records.len()
        invariant
            i <= records.len(),
            forall|j: int| 0 <= j < i ==> recs_view(records@)[j].record_id != id@,
        decreases records.len() - i,
    {
        if records[i].record_id.equals(id) {
            proof {
                assert(recs_view(records@)[i as int] == records@[i as int]@);
                lemma_rec_first_is(recs_view(records@), id@, i as int);
            }
            return Some(i);
        }
        i = i + 1;
    }
    None
}

/// Finds the first log entry for `id`.
fn find_in_log(log: &Vec<LogEntry>, id: &RecordId) -> (r: Option<usize>)
    ensures
        match r {
            Some(i) => log_has(log_view(log@), id@) && i < log@.len() && i == log_first(
                log_view(log@),
                id@,
            ),
            None => !log_has(log_view(log@), id@),
        },
{
    let mut i: usize = 0;
    while i < log.len()
        invariant
            i <= log.len(),
            forall|j: int| 0 <= j < i ==> log_view(log@)[j].record_id != id@,
        decreases log.len() - i,
    {
        if log[i].record_id.equals(id) {
            proof {
                assert(log_view(log@)[i as int] == log@[i as int]@);
                lemma_log_first_is(log_view(log@), id@, i as int);
            }
            return Some(i);
        }
        i = i + 1;
    }
    None
}

/// Finds the first required digest not present in the submitted sources.
fn find_missing(ds: &Vec<Digest>, sources: &Vec<ContentSource>) -> (r: Option<usize>)
    ensures
        ({
            let dsv = ds@.map_values(|d: Digest| d@);
            let srcv = sources@.map_values(|s: ContentSource| s@);
            match r {
                Some(i) => has_missing(dsv, srcv) && i < ds@.len() && i == missing_first(dsv, srcv),
                None => !has_missing(dsv, srcv),
            }
        }),
{
    let ghost dsv = ds@.map_values(|d: Digest| d@);
    let ghost srcv = sources@.map_values(|s: ContentSource| s@);
    let mut i: usize = 0;
    while i < ds.len()
        invariant
            i <= ds.len(),
            dsv == ds@.map_values(|d: Digest| d@),
            srcv == sources@.map_values(|s: ContentSource| s@),
            forall|j: int| 0 <= j < i ==> sources_have(srcv, dsv[j]),
        decreases ds.len() - i,
    {
        let mut found = false;
        let mut j: usize = 0;
        while j < sources.len()
            invariant
                j <= sources.len(),
                srcv == sources@.map_values(|s: ContentSource| s@),
                dsv == ds@.map_values(|d: Digest| d@),
                i < ds@.len(),
                found ==> sources_have(srcv, dsv[i as int]),
                !found ==> forall|l: int| 0 <= l < j ==> srcv[l].digest != dsv[i as int],
            decreases sources.len() - j,
        {
            if sources[j].digest.equals(&ds[i]) {
                found = true;
                proof {
                    assert(srcv[j as int].digest == dsv[i as int]);
                }
            }
            j = j + 1;
        }
        if !found {
            proof {
                lemma_missing_first_is(dsv, srcv, i as int);
            }
            return Some(i);
        }
        i = i + 1;
    }
    None
}

/// Sets the record-table entry for `id` to `info`.
fn set_record_exec(records: &mut Vec<RecordEntry>, id: RecordId, info: PackageRecordInfo)
    ensures
        recs_view(final(records)@) == rec_set(recs_view(old(records)@), id@, info@),
{
    let ghost pre = recs_view(records@);
    let ghost idv = id@;
    let ghost infov = info@;
    match find_record(records, &id) {
        Some(i) => {
            records[i] = RecordEntry { record_id: id, info };
            proof {
                assert(recs_view(records@) =~= pre.update(
                    i as int,
                    RecordEntryV { record_id: idv, info: infov },
                ));
            }
        },
        None => {
            records.push(RecordEntry { record_id: id, info });
            proof {
                assert(recs_view(records@) =~= pre.push(
                    RecordEntryV { record_id: idv, info: infov },
                ));
            }
        },
    }
}

/// An id that is not in progress or published is not in the log.
proof fn lemma_inactive_not_in_log(pre: PackageShardV, rid: Seq<u8>)
    requires
        shard_wf(pre),
        !(rec_has(pre.records, rid) && !(rec_state(pre.records, rid) is Rejected)),
    ensures
        forall|i: int| 0 <= i < pre.log.len() ==> (#[trigger] pre.log[i]).record_id != rid,
{
    assert forall|i: int| 0 <= i < pre.log.len() implies (#[trigger] pre.log[i]).record_id
        != rid by {
        if pre.log[i].record_id == rid {
            assert(rec_has(pre.records, rid));
            if i < pre.checkpoint_indices.len() {
                assert(rec_state(pre.records, rid) is Published);
            } else {
                assert(rec_state(pre.records, rid) is Processing);
            }
        }
    }
}

/// Storing a rejected record keeps every shard invariant: the log, the
/// promotion list and the validator are untouched.
proof fn lemma_store_rejected(pre: PackageShardV, post: PackageShardV, rid: Seq<u8>, info: PackageRecordInfoV)
    requires
        shard_wf(pre),
        !(rec_has(pre.records, rid) && !(rec_state(pre.records, rid) is Rejected)),
        rid == sha256_of(info.record.content_bytes),
        info.state is Rejected,
        post == (PackageShardV { records: rec_set(pre.records, rid, info), ..pre }),
    ensures
        shard_wf(post),
        forall|cps: Seq<SignedCheckpointV>| shard_ck_wf(pre, cps) ==> #[trigger] shard_ck_wf(
            post,
            cps,
        ),
{
    lemma_inactive_not_in_log(pre, rid);
    lemma_rec_set_unique(pre.records, rid, info);
    lemma_rec_set_same(pre.records, rid, info);
    assert forall|i: int| 0 <= i < post.log.len() implies rec_has(
        post.records,
        (#[trigger] post.log[i]).record_id,
    ) && rec_info(post.records, post.log[i].record_id).record == post.log[i].envelope && post.log[
        i
    ].record_id == sha256_of(post.log[i].envelope.content_bytes) by {
        lemma_rec_set_other(pre.records, rid, info, pre.log[i].record_id);
    }
    assert forall|i: int| 0 <= i < post.log.len() implies (if i < post.checkpoint_indices.len() {
        rec_state(post.records, (#[trigger] post.log[i]).record_id) is Published
    } else {
        rec_state(post.records, post.log[i].record_id) is Processing
    }) by {
        lemma_rec_set_other(pre.records, rid, info, pre.log[i].record_id);
    }
    assert forall|i: int| 0 <= i < post.records.len() implies (#[trigger] post.records[i]).record_id
        == sha256_of(post.records[i].info.record.content_bytes) by {
        if rec_has(pre.records, rid) {
            lemma_rec_first(pre.records, rid);
            if i != rec_first(pre.records, rid) {
                assert(post.records[i] == pre.records[i]);
            }
        } else {
            if i < pre.records.len() {
                assert(post.records[i] == pre.records[i]);
            }
        }
    }
    assert forall|cps: Seq<SignedCheckpointV>| shard_ck_wf(pre, cps) implies #[trigger] shard_ck_wf(
        post,
        cps,
    ) by {
        assert forall|i: int| 0 <= i < post.checkpoint_indices.len() implies rec_state(
            post.records,
            post.log[i].record_id,
        ) == (RecordStateV::Published {
            checkpoint: cps[(#[trigger] post.checkpoint_indices[i]) as int],
        }) by {
            lemma_rec_set_other(pre.records, rid, info, pre.log[i].record_id);
        }
    }
}

impl PackageShard {
    /// A fresh shard for a package log with no records yet.
    pub fn new(id: LogId, name: String) -> (r: PackageShard)
        ensures
            r@ == (PackageShardV {
                id: id@,
                name: name@,
                validator: PackageValidatorV { initialized: false, keys: seq![], releases: seq![] },
                log: seq![],
                checkpoint_indices: seq![],
                records: seq![],
            }),
            shard_wf(r@),
    {
        let r = PackageShard {
            id,
            name,
            validator: PackageValidator::new(),
            log: Vec::new(),
            checkpoint_indices: Vec::new(),
            records: Vec::new(),
        };
        proof {
            assert(r@ =~= PackageShardV {
                id: r.id@,
                name: r.name@,
                validator: PackageValidatorV { initialized: false, keys: seq![], releases: seq![] },
                log: seq![],
                checkpoint_indices: seq![],
                records: seq![],
            });
        }
        r
    }

    /// The state of the record with the given id, `Unknown` when absent.
    pub fn record_status(&self, record_id: &RecordId) -> (r: RecordState)
        ensures
            r@ == rec_state(self@.records, record_id@),
    {
        match find_record(&self.records, record_id) {
            Some(i) => {
                proof {
                    assert(recs_view(self.records@)[i as int] == self.records@[i as int]@);
                }
                self.records[i].info.state.dup()
            },
            None => RecordState::Unknown,
        }
    }

    /// The stored information for the record with the given id, returned
    /// only when the record is published.
    pub fn record_info(&self, record_id: &RecordId) -> (r: Option<PackageRecordInfo>)
        ensures
            match r {
                Some(info) => rec_has(self@.records, record_id@) && rec_state(
                    self@.records,
                    record_id@,
                ) is Published && info@ == rec_info(self@.records, record_id@),
                None => !(rec_state(self@.records, record_id@) is Published),
            },
    {
        match find_record(&self.records, record_id) {
            Some(i) => {
                proof {
                    assert(recs_view(self.records@)[i as int] == self.records@[i as int]@);
                }
                if self.records[i].info.state.is_published() {
                    Some(self.records[i].info.dup())
                } else {
                    None
                }
            },
            None => None,
        }
    }

    /// Submits a record: validates it against the shard's state machine,
    /// checks content availability, and either stages it as `Processing`
    /// (emitting a log leaf) or records the rejection.
    pub fn submit(&mut self, record: PackageRecordEnvelope, content_sources: Vec<ContentSource>) -> (r: (
        RecordState,
        Option<LogLeaf>,
    ))
        requires
            shard_wf(old(self)@),
        ensures
            shard_wf(final(self)@),
            submit_rel(
                old(self)@,
                final(self)@,
                record@,
                content_sources@.map_values(|s: ContentSource| s@),
                r.0@,
                r.1 is Some,
            ),
            r.1 matches Some(l) ==> l@ == (LogLeafV {
                log_id: old(self)@.id,
                record_id: sha256_of(record@.content_bytes),
            }),
            forall|cps: Seq<SignedCheckpointV>| shard_ck_wf(old(self)@, cps) ==> #[trigger] shard_ck_wf(
                final(self)@,
                cps,
            ),
    {
        let ghost pre = self@;
        let ghost envv = record@;
        let ghost srcv = content_sources@.map_values(|s: ContentSource| s@);
        let record_id = RecordId::package_record(&record);
        let ghost rid = record_id@;

        let active = match find_record(&self.records, &record_id) {
            Some(i) => {
                proof {
                    assert(recs_view(self.records@)[i as int] == self.records@[i as int]@);
                }
                !self.records[i].info.state.is_rejected()
            },
            None => false,
        };
        if active {
            let reason = "record is already in progress or published".to_owned();
            return (RecordState::Rejected { reason }, None);
        }

        let snapshot = self.validator.snapshot();
        match self.validator.validate(&record) {
            Err(e) => {
                let reason = reason_string(e);
                let state = RecordState::Rejected { reason: reason.clone() };
                let info = PackageRecordInfo { record, content_sources, state };
                let ghost infov = info@;
                set_record_exec(&mut self.records, record_id, info);
                proof {
                    assert(infov == rejected_info(envv, srcv, reason_of(e)));
                    assert(self@ =~= (PackageShardV {
                        records: rec_set(pre.records, rid, infov),
                        ..pre
                    }));
                    lemma_store_rejected(pre, self@, rid, infov);
                }
                (RecordState::Rejected { reason }, None)
            },
            Ok(ds) => {
                match find_missing(&ds, &content_sources) {
                    Some(mi) => {
                        self.validator.rollback(snapshot);
                        let reason = needed_reason_string(&ds[mi]);
                        let state = RecordState::Rejected { reason: reason.clone() };
                        let info = PackageRecordInfo { record, content_sources, state };
                        let ghost infov = info@;
                        set_record_exec(&mut self.records, record_id, info);
                        proof {
                            let dsv = ds@.map_values(|d: Digest| d@);
                            assert(infov == rejected_info(
                                envv,
                                srcv,
                                needed_reason(dsv[missing_first(dsv, srcv)]),
                            ));
                            assert(self@ =~= (PackageShardV {
                                records: rec_set(pre.records, rid, infov),
                                ..pre
                            }));
                            lemma_store_rejected(pre, self@, rid, infov);
                        }
                        (RecordState::Rejected { reason }, None)
                    },
                    None => {
                        let info = PackageRecordInfo {
                            record: record.dup(),
                            content_sources,
                            state: RecordState::Processing,
                        };
                        let ghost infov = info@;
                        set_record_exec(&mut self.records, record_id.dup(), info);
                        self.log.push(LogEntry { record_id: record_id.dup(), envelope: record });
                        let leaf = LogLeaf { log_id: self.id.dup(), record_id };
                        proof {
                            assert(log_view(self.log@) =~= pre.log.push(
                                LogEntryV { record_id: rid, envelope: envv },
                            ));
                            assert(self@ =~= (PackageShardV {
                                validator: self@.validator,
                                log: pre.log.push(LogEntryV { record_id: rid, envelope: envv }),
                                records: rec_set(pre.records, rid, infov),
                                ..pre
                            }));
                            lemma_submit_processing(pre, self@, rid, infov, envv);
                        }
                        (RecordState::Processing, Some(leaf))
                    },
                }
            },
        }
    }

    /// Promotes the next unpromoted log entry to `Published` under the
    /// given checkpoint. The caller supplies leaves in log order.
    pub fn promote(&mut self, record_id: &RecordId, checkpoint: &SignedCheckpoint, checkpoint_index: usize)
        requires
            shard_wf(old(self)@),
            old(self)@.checkpoint_indices.len() < old(self)@.log.len(),
            old(self)@.log[old(self)@.checkpoint_indices.len() as int].record_id == record_id@,
            old(self)@.checkpoint_indices.len() > 0 ==> old(self)@.checkpoint_indices.last()
                <= checkpoint_index,
        ensures
            shard_wf(final(self)@),
            final(self)@ == (PackageShardV {
                checkpoint_indices: old(self)@.checkpoint_indices.push(checkpoint_index),
                records: rec_set(
                    old(self)@.records,
                    record_id@,
                    PackageRecordInfoV {
                        record: rec_info(old(self)@.records, record_id@).record,
                        content_sources: rec_info(old(self)@.records, record_id@).content_sources,
                        state: RecordStateV::Published { checkpoint: checkpoint@ },
                    },
                ),
                ..old(self)@
            }),
            forall|cps: Seq<SignedCheckpointV>|
                shard_ck_wf(old(self)@, cps) && (checkpoint_index as int) < cps.len() && cps[
                    checkpoint_index as int
                ] == checkpoint@ ==> #[trigger] shard_ck_wf(final(self)@, cps),
    {
        let ghost pre = self@;
        let ghost rid = record_id@;
        let i = match find_record(&self.records, record_id) {
            Some(i) => i,
            None => {
                proof {
                    assert(rec_has(pre.records, rid));
                    assert(false);
                }
                0
            },
        };
        proof {
            assert(recs_view(self.records@)[i as int] == self.records@[i as int]@);
            assert(rec_info(pre.records, rid) == recs_view(self.records@)[i as int].info);
        }
        let new_info = PackageRecordInfo {
            record: self.records[i].info.record.dup(),
            content_sources: dup_sources(&self.records[i].info.content_sources),
            state: RecordState::Published { checkpoint: checkpoint.dup() },
        };
        let ghost infov = new_info@;
        proof {
            assert(infov =~= PackageRecordInfoV {
                record: rec_info(pre.records, rid).record,
                content_sources: rec_info(pre.records, rid).content_sources,
                state: RecordStateV::Published { checkpoint: checkpoint@ },
            });
        }
        let new_entry = RecordEntry { record_id: record_id.dup(), info: new_info };
        self.records[i] = new_entry;
        self.checkpoint_indices.push(checkpoint_index);
        proof {
            assert(recs_view(self.records@) =~= pre.records.update(
                i as int,
                RecordEntryV { record_id: rid, info: infov },
            ));
            lemma_promote(pre, self@, rid, infov, checkpoint@, checkpoint_index, i as int);
        }
    }

    /// Returns the published prefix of the log under the given checkpoint
    /// index, starting after `since` when it is supplied. Fails when
    /// `since` is not in the log.
    pub fn fetch_records(&self, since: Option<&RecordId>, checkpoint_index: usize) -> (r: Result<
        Vec<PackageRecordEnvelope>,
        CoreError,
    >)
        requires
            shard_wf(self@),
        ensures
            match r {
                Ok(v) => ({
                    let start: int = match since {
                        Some(h) => log_first(self@.log, h@) + 1,
                        None => 0,
                    };
                    let end = count_le(self@.checkpoint_indices, checkpoint_index);
                    &&& (match since {
                        Some(h) => log_has(self@.log, h@),
                        None => true,
                    })
                    &&& v@.len() == (if start <= end {
                        end - start
                    } else {
                        0int
                    })
                    &&& forall|j: int|
                        0 <= j < v@.len() ==> (#[trigger] v@[j])@ == self@.log[start + j].envelope
                }),
                Err(e) => e == CoreError::RecordNotFound && (match since {
                    Some(h) => !log_has(self@.log, h@),
                    None => false,
                }),
            },
    {
        let total = self.log.len();
        let start: usize = match since {
            Some(h) => {
                match find_in_log(&self.log, h) {
                    Some(i) => {
                        proof {
                            assert(i < total);
                        }
                        i + 1
                    },
                    None => {
                        return Err(CoreError::RecordNotFound);
                    },
                }
            },
            None => 0,
        };
        let end = get_records_before_checkpoint(&self.checkpoint_indices, checkpoint_index);
        let mut v: Vec<PackageRecordEnvelope> = Vec::new();
        let mut j: usize = start;
        while j < end
            invariant
                start <= j,
                j <= end || j == start,
                end <= self.checkpoint_indices@.len(),
                self@.checkpoint_indices.len() <= self@.log.len(),
                end == count_le(self@.checkpoint_indices, checkpoint_index),
                v@.len() == j - start,
                forall|l: int|
                    0 <= l < v@.len() ==> (#[trigger] v@[l])@ == self@.log[start + l].envelope,
            decreases end - j,
        {
            proof {
                assert(log_view(self.log@)[j as int] == self.log@[j as int]@);
            }
            v.push(self.log[j].envelope.dup());
            j = j + 1;
        }
        Ok(v)
    }
}

/// Submitting never changes a shard's identity, name or promotion list.
pub proof fn lemma_submit_rel_frame(
    pre: PackageShardV,
    post: PackageShardV,
    env: PackageRecordEnvelopeV,
    sources: Seq<ContentSourceV>,
    r: RecordStateV,
    emitted: bool,
)
    requires
        submit_rel(pre, post, env, sources, r, emitted),
    ensures
        post.id == pre.id,
        post.name == pre.name,
        post.checkpoint_indices == pre.checkpoint_indices,
        emitted <==> r is Processing,
{
}

/// Staging a fresh `Processing` record keeps every shard invariant.
proof fn lemma_submit_processing(
    pre: PackageShardV,
    post: PackageShardV,
    rid: Seq<u8>,
    info: PackageRecordInfoV,
    env: PackageRecordEnvelopeV,
)
    requires
        shard_wf(pre),
        !(rec_has(pre.records, rid) && !(rec_state(pre.records, rid) is Rejected)),
        rid == sha256_of(env.content_bytes),
        info == (PackageRecordInfoV {
            record: env,
            content_sources: info.content_sources,
            state: RecordStateV::Processing,
        }),
        validate_spec(pre.validator, env) is Ok,
        post.validator == validate_spec(pre.validator, env)->Ok_0.0,
        post.id == pre.id,
        post.name == pre.name,
        post.checkpoint_indices == pre.checkpoint_indices,
        post.log == pre.log.push(LogEntryV { record_id: rid, envelope: env }),
        post.records == rec_set(pre.records, rid, info),
    ensures
        shard_wf(post),
        forall|cps: Seq<SignedCheckpointV>| shard_ck_wf(pre, cps) ==> #[trigger] shard_ck_wf(
            post,
            cps,
        ),
{
    lemma_inactive_not_in_log(pre, rid);
    lemma_rec_set_unique(pre.records, rid, info);
    lemma_rec_set_same(pre.records, rid, info);
    lemma_apply_log_push(
        fresh_validator(),
        pre.log,
        LogEntryV { record_id: rid, envelope: env },
        0,
    );
    assert forall|i: int, j: int|
        0 <= i < j < post.log.len() implies (#[trigger] post.log[i].record_id) != (
    #[trigger] post.log[j].record_id) by {
        if j < pre.log.len() {
        } else {
            assert(post.log[i].record_id == pre.log[i].record_id);
            assert(post.log[j].record_id == rid);
        }
    }
    assert forall|i: int| 0 <= i < post.log.len() implies rec_has(
        post.records,
        (#[trigger] post.log[i]).record_id,
    ) && rec_info(post.records, post.log[i].record_id).record == post.log[i].envelope && post.log[
        i
    ].record_id == sha256_of(post.log[i].envelope.content_bytes) by {
        if i < pre.log.len() {
            lemma_rec_set_other(pre.records, rid, info, pre.log[i].record_id);
        }
    }
    assert forall|i: int| 0 <= i < post.log.len() implies (if i < post.checkpoint_indices.len() {
        rec_state(post.records, (#[trigger] post.log[i]).record_id) is Published
    } else {
        rec_state(post.records, post.log[i].record_id) is Processing
    }) by {
        if i < pre.log.len() {
            lemma_rec_set_other(pre.records, rid, info, pre.log[i].record_id);
        }
    }
    assert forall|i: int| 0 <= i < post.records.len() implies (#[trigger] post.records[i]).record_id
        == sha256_of(post.records[i].info.record.content_bytes) by {
        if rec_has(pre.records, rid) {
            lemma_rec_first(pre.records, rid);
            if i != rec_first(pre.records, rid) {
                assert(post.records[i] == pre.records[i]);
            }
        } else {
            if i < pre.records.len() {
                assert(post.records[i] == pre.records[i]);
            }
        }
    }
    assert forall|cps: Seq<SignedCheckpointV>| shard_ck_wf(pre, cps) implies #[trigger] shard_ck_wf(
        post,
        cps,
    ) by {
        assert forall|i: int| 0 <= i < post.checkpoint_indices.len() implies rec_state(
            post.records,
            post.log[i].record_id,
        ) == (RecordStateV::Published {
            checkpoint: cps[(#[trigger] post.checkpoint_indices[i]) as int],
        }) by {
            assert(post.log[i] == pre.log[i]);
            lemma_rec_set_other(pre.records, rid, info, pre.log[i].record_id);
        }
    }
}

/// Promoting the next log entry keeps every shard invariant.
proof fn lemma_promote(
    pre: PackageShardV,
    post: PackageShardV,
    rid: Seq<u8>,
    info: PackageRecordInfoV,
    cp: SignedCheckpointV,
    k: usize,
    i: int,
)
    requires
        shard_wf(pre),
        pre.checkpoint_indices.len() < pre.log.len(),
        pre.log[pre.checkpoint_indices.len() as int].record_id == rid,
        pre.checkpoint_indices.len() > 0 ==> pre.checkpoint_indices.last() <= k,
        rec_has(pre.records, rid),
        i == rec_first(pre.records, rid),
        info == (PackageRecordInfoV {
            record: rec_info(pre.records, rid).record,
            content_sources: rec_info(pre.records, rid).content_sources,
            state: RecordStateV::Published { checkpoint: cp },
        }),
        post.id == pre.id,
        post.name == pre.name,
        post.validator == pre.validator,
        post.log == pre.log,
        post.checkpoint_indices == pre.checkpoint_indices.push(k),
        post.records == pre.records.update(i, RecordEntryV { record_id: rid, info }),
    ensures
        shard_wf(post),
        post.records == rec_set(pre.records, rid, info),
        forall|cps: Seq<SignedCheckpointV>|
            shard_ck_wf(pre, cps) && (k as int) < cps.len() && cps[k as int] == cp
                ==> #[trigger] shard_ck_wf(post, cps),
{
    lemma_rec_first(pre.records, rid);
    assert(post.records == rec_set(pre.records, rid, info));
    lemma_rec_set_unique(pre.records, rid, info);
    lemma_rec_set_same(pre.records, rid, info);
    let n = pre.checkpoint_indices.len() as int;
    assert(non_decreasing(post.checkpoint_indices));
    assert forall|a: int| 0 <= a < post.log.len() implies rec_has(
        post.records,
        (#[trigger] post.log[a]).record_id,
    ) && rec_info(post.records, post.log[a].record_id).record == post.log[a].envelope && post.log[
        a
    ].record_id == sha256_of(post.log[a].envelope.content_bytes) by {
        if pre.log[a].record_id == rid {
            assert(rec_info(post.records, rid) == info);
            assert(a == n);
            assert(rec_info(pre.records, rid).record == pre.log[a].envelope);
        } else {
            lemma_rec_set_other(pre.records, rid, info, pre.log[a].record_id);
        }
    }
    assert forall|a: int| 0 <= a < post.log.len() implies (if a < post.checkpoint_indices.len() {
        rec_state(post.records, (#[trigger] post.log[a]).record_id) is Published
    } else {
        rec_state(post.records, post.log[a].record_id) is Processing
    }) by {
        if pre.log[a].record_id == rid {
            assert(a == n);
        } else {
            lemma_rec_set_other(pre.records, rid, info, pre.log[a].record_id);
        }
    }
    assert forall|a: int| 0 <= a < post.records.len() implies (#[trigger] post.records[a]).record_id
        == sha256_of(post.records[a].info.record.content_bytes) by {
        if a != i {
            assert(post.records[a] == pre.records[a]);
        } else {
            assert(pre.records[i].record_id == rid);
            assert(rec_info(pre.records, rid).record == pre.records[i].info.record);
        }
    }
    assert forall|cps: Seq<SignedCheckpointV>|
        shard_ck_wf(pre, cps) && (k as int) < cps.len() && cps[k as int]
            == cp implies #[trigger] shard_ck_wf(post, cps) by {
        assert forall|a: int| 0 <= a < post.checkpoint_indices.len() implies rec_state(
            post.records,
            post.log[a].record_id,
        ) == (RecordStateV::Published {
            checkpoint: cps[(#[trigger] post.checkpoint_indices[a]) as int],
        }) by {
            if a < n {
                if pre.log[a].record_id == rid {
                    assert(a == n);
                } else {
                    lemma_rec_set_other(pre.records, rid, info, pre.log[a].record_id);
                    assert(post.checkpoint_indices[a] == pre.checkpoint_indices[a]);
                }
            } else {
                assert(a == n);
                assert(post.log[a].record_id == rid);
                assert(post.checkpoint_indices[a] == k);
                assert(rec_state(post.records, rid) == info.state);
            }
        }
    }
}

} // verus!
