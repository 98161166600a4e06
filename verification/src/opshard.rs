//! The operator shard: the single global operator log. In this slice it is
//! populated with the bootstrap record at construction and serves reads.

use vstd::prelude::*;
use crate::digest::{sha256_of, RecordId};
use crate::keyset::{count_le, get_records_before_checkpoint, non_decreasing};
use crate::operator::{OperatorValidator, OperatorValidatorV};
use crate::records::{CoreError, OperatorRecordEnvelope, OperatorRecordEnvelopeV,
    OperatorRecordInfo, OperatorRecordInfoV, RecordStateV};

verus! {

/// One entry of the operator log.
pub struct OpLogEntry {
    pub record_id: RecordId,
    pub envelope: OperatorRecordEnvelope,
}

/// Ghost mirror of `OpLogEntry`.
#[verifier::ext_equal]
pub struct OpLogEntryV {
    pub record_id: Seq<u8>,
    pub envelope: OperatorRecordEnvelopeV,
}

impl View for OpLogEntry {
    type V = OpLogEntryV;

    open spec fn view(&self) -> OpLogEntryV {
        OpLogEntryV { record_id: self.record_id@, envelope: self.envelope@ }
    }
}

/// One entry of the operator record table.
pub struct OpRecordEntry {
    pub record_id: RecordId,
    pub info: OperatorRecordInfo,
}

/// Ghost mirror of `OpRecordEntry`.
#[verifier::ext_equal]
pub struct OpRecordEntryV {
    pub record_id: Seq<u8>,
    pub info: OperatorRecordInfoV,
}

impl View for OpRecordEntry {
    type V = OpRecordEntryV;

    open spec fn view(&self) -> OpRecordEntryV {
        OpRecordEntryV { record_id: self.record_id@, info: self.info@ }
    }
}

/// The view of the operator log.
pub open spec fn oplog_view(log: Seq<OpLogEntry>) -> Seq<OpLogEntryV> {
    log.map_values(|e: OpLogEntry| e@)
}

/// Whether the operator log holds an entry for `id`.
pub open spec fn oplog_has(log: Seq<OpLogEntryV>, id: Seq<u8>) -> bool {
    exists|i: int| 0 <= i < log.len() && log[i].record_id == id
}

/// The index of the first operator log entry for `id`.
pub open spec fn oplog_first(log: Seq<OpLogEntryV>, id: Seq<u8>) -> int
    decreases log.len(),
{
    if log.len() == 0 {
        0
    } else if log[0].record_id == id {
        0
    } else {
        1 + oplog_first(log.drop_first(), id)
    }
}

/// Any index with the first-occurrence property equals `oplog_first`.
pub proof fn lemma_oplog_first_is(log: Seq<OpLogEntryV>, id: Seq<u8>, i: int)
    requires
        0 <= i < log.len(),
        log[i].record_id == id,
        forall|j: int| 0 <= j < i ==> log[j].record_id != id,
    ensures
        oplog_first(log, id) == i,
    decreases i,
{
    if i > 0 {
        assert(log.drop_first()[i - 1] == log[i]);
        assert forall|j: int| 0 <= j < i - 1 implies log.drop_first()[j].record_id != id by {
            assert(log.drop_first()[j] == log[j + 1]);
        }
        lemma_oplog_first_is(log.drop_first(), id, i - 1);
    }
}

/// Finds the first operator log entry for `id`.
fn find_in_oplog(log: &Vec<OpLogEntry>, id: &RecordId) -> (r: Option<usize>)
    ensures
        match r {
            Some(i) => oplog_has(oplog_view(log@), id@) && i < log@.len() && i == oplog_first(
                oplog_view(log@),
                id@,
            ),
            None => !oplog_has(oplog_view(log@), id@),
        },
{
    let mut i: usize = 0;
    while i < log.len()
        invariant
            i <= log.len(),
            forall|j: int| 0 <= j < i ==> oplog_view(log@)[j].record_id != id@,
        decreases log.len() - i,
    {
        if log[i].record_id.equals(id) {
            proof {
                assert(oplog_view(log@)[i as int] == log@[i as int]@);
                lemma_oplog_first_is(oplog_view(log@), id@, i as int);
            }
            return Some(i);
        }
        i = i + 1;
    }
    None
}

/// The operator shard container.
pub struct OperatorShard {
    pub validator: OperatorValidator,
    pub log: Vec<OpLogEntry>,
    pub checkpoint_indices: Vec<usize>,
    pub records: Vec<OpRecordEntry>,
}

/// Ghost mirror of `OperatorShard`.
#[verifier::ext_equal]
pub struct OperatorShardV {
    pub validator: OperatorValidatorV,
    pub log: Seq<OpLogEntryV>,
    pub checkpoint_indices: Seq<usize>,
    pub records: Seq<OpRecordEntryV>,
}

impl View for OperatorShard {
    type V = OperatorShardV;

    open spec fn view(&self) -> OperatorShardV {
        OperatorShardV {
            validator: self.validator@,
            log: oplog_view(self.log@),
            checkpoint_indices: self.checkpoint_indices@,
            records: self.records@.map_values(|e: OpRecordEntry| e@),
        }
    }
}

/// The operator-shard invariants, parallel to the package-shard ones:
/// unique log ids, non-decreasing promotion indices over a prefix of the
/// log, and a record table keyed by correctly computed ids that marks
/// exactly the promoted prefix as `Published`.
pub open spec fn opshard_wf(s: OperatorShardV) -> bool {
    &&& forall|i: int, j: int|
        #![trigger s.log[i].record_id, s.log[j].record_id]
        0 <= i < j < s.log.len() ==> s.log[i].record_id != s.log[j].record_id
    &&& non_decreasing(s.checkpoint_indices)
    &&& s.checkpoint_indices.len() <= s.log.len()
    &&& forall|i: int, j: int|
        #![trigger s.records[i].record_id, s.records[j].record_id]
        0 <= i < j < s.records.len() ==> s.records[i].record_id != s.records[j].record_id
    &&& forall|i: int|
        #![trigger s.log[i]]
        0 <= i < s.log.len() ==> s.log[i].record_id == sha256_of(s.log[i].envelope.content_bytes)
    &&& forall|i: int|
        #![trigger s.records[i]]
        0 <= i < s.records.len() ==> s.records[i].record_id == sha256_of(
            s.records[i].info.record.content_bytes,
        ) && (s.records[i].info.state is Published || s.records[i].info.state is Processing)
}

impl OperatorShard {
    /// Returns the published prefix of the operator log under the given
    /// checkpoint index, starting after `since` when it is supplied.
    pub fn fetch_records(&self, since: Option<&RecordId>, checkpoint_index: usize) -> (r: Result<
        Vec<OperatorRecordEnvelope>,
        CoreError,
    >)
        requires
            opshard_wf(self@),
        ensures
            match r {
                Ok(v) => ({
                    let start: int = match since {
                        Some(h) => oplog_first(self@.log, h@) + 1,
                        None => 0,
                    };
                    let end = count_le(self@.checkpoint_indices, checkpoint_index);
                    &&& (match since {
                        Some(h) => oplog_has(self@.log, h@),
                        None => true,
                    })
                    &&& v@.len() == (if start <= end {
                        end - start
                    } else {
                        0int
                    })
                    &&& forall|j: int|
                        0 <= j < v@.len() ==> (#[trigger] v@[j])@ == self@.log[start + j].envelope
                }),
                Err(e) => e == CoreError::RecordNotFound && (match since {
                    Some(h) => !oplog_has(self@.log, h@),
                    None => false,
                }),
            },
    {
        let total = self.log.len();
        let start: usize = match since {
            Some(h) => {
                match find_in_oplog(&self.log, h) {
                    Some(i) => {
                        proof {
                            assert(i < total);
                        }
                        i + 1
                    },
                    None => {
                        return Err(CoreError::RecordNotFound);
                    },
                }
            },
            None => 0,
        };
        let end = get_records_before_checkpoint(&self.checkpoint_indices, checkpoint_index);
        let mut v: Vec<OperatorRecordEnvelope> = Vec::new();
        let mut j: usize = start;
        while j < end
            invariant
                start <= j,
                j <= end || j == start,
                end <= self.checkpoint_indices@.len(),
                self@.checkpoint_indices.len() <= self@.log.len(),
                end == count_le(self@.checkpoint_indices, checkpoint_index),
                v@.len() == j - start,
                forall|l: int|
                    0 <= l < v@.len() ==> (#[trigger] v@[l])@ == self@.log[start + l].envelope,
            decreases end - j,
        {
            proof {
                assert(oplog_view(self.log@)[j as int] == self.log@[j as int]@);
            }
            v.push(self.log[j].envelope.dup());
            j = j + 1;
        }
        Ok(v)
    }
}

} // verus!
