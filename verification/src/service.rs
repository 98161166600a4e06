//! The registry service actor: the single owner of all mutable registry state. It
//! serializes publishes, installs checkpoints that promote pending records,
//! and answers point and range queries over the committed prefixes.

use vstd::prelude::*;
use vstd::utf8::encode_utf8;
use crate::digest::{sha256_of, Digest, LogId, RecordId};
use crate::keyset::{count_le, seq_first, seq_has};
use crate::operator::{op_validate_spec, OperatorValidator, OperatorValidatorV};
use crate::opshard::{oplog_first, oplog_has, opshard_wf, OpLogEntry, OpRecordEntry, OperatorShard,
    OperatorShardV};
use crate::package::PackageValidatorV;
use crate::records::{ContentSource, ContentSourceV, CoreError, LogLeaf, LogLeafV,
    OperatorRecordEnvelope, OperatorRecordInfo, PackageRecordEnvelope, PackageRecordEnvelopeV,
    PackageRecordInfo, PackageRecordInfoV, RecordState, RecordStateV, SignedCheckpoint,
    SignedCheckpointV};
use crate::shard::{log_first, log_has, rec_info, rec_set, rec_state, shard_ck_wf, shard_wf,
    lemma_submit_rel_frame, submit_rel, PackageShard, PackageShardV};

verus! {

/// Whether the shard table holds a shard for log `lid`.
pub open spec fn shard_has(packages: Seq<PackageShardV>, lid: Seq<u8>) -> bool {
    exists|i: int| 0 <= i < packages.len() && packages[i].id == lid
}

/// The index of the first shard for log `lid`.
pub open spec fn shard_first(packages: Seq<PackageShardV>, lid: Seq<u8>) -> int
    decreases packages.len(),
{
    if packages.len() == 0 {
        0
    } else if packages[0].id == lid {
        0
    } else {
        1 + shard_first(packages.drop_first(), lid)
    }
}

/// Any index with the first-occurrence property equals `shard_first`.
pub proof fn lemma_shard_first_is(packages: Seq<PackageShardV>, lid: Seq<u8>, i: int)
    requires
        0 <= i < packages.len(),
        packages[i].id == lid,
        forall|j: int| 0 <= j < i ==> packages[j].id != lid,
    ensures
        shard_first(packages, lid) == i,
    decreases i,
{
    if i > 0 {
        assert(packages.drop_first()[i - 1] == packages[i]);
        assert forall|j: int| 0 <= j < i - 1 implies packages.drop_first()[j].id != lid by {
            assert(packages.drop_first()[j] == packages[j + 1]);
        }
        lemma_shard_first_is(packages.drop_first(), lid, i - 1);
    }
}

/// `shard_first` returns the first matching shard.
pub proof fn lemma_shard_first(packages: Seq<PackageShardV>, lid: Seq<u8>)
    requires
        shard_has(packages, lid),
    ensures
        0 <= shard_first(packages, lid) < packages.len(),
        packages[shard_first(packages, lid)].id == lid,
        forall|j: int| 0 <= j < shard_first(packages, lid) ==> packages[j].id != lid,
    decreases packages.len(),
{
    if packages.len() > 0 && packages[0].id != lid {
        let i = choose|i: int| 0 <= i < packages.len() && packages[i].id == lid;
        assert(packages.drop_first()[i - 1] == packages[i]);
        lemma_shard_first(packages.drop_first(), lid);
        assert forall|j: int| 0 <= j < shard_first(packages, lid) implies packages[j].id != lid by {
            if j > 0 {
                assert(packages.drop_first()[j - 1] == packages[j]);
            }
        }
    }
}

/// The view of a list of checkpoint hashes.
pub open spec fn hashes_view(hashes: Seq<Digest>) -> Seq<Seq<u8>> {
    hashes.map_values(|d: Digest| d@)
}

/// Finds the first shard for the given log id.
fn find_shard(packages: &Vec<PackageShard>, id: &LogId) -> (r: Option<usize>)
    ensures
        match r {
            Some(i) => shard_has(packages@.map_values(|s: PackageShard| s@), id@) && i
                < packages@.len() && i == shard_first(
                packages@.map_values(|s: PackageShard| s@),
                id@,
            ),
            None => !shard_has(packages@.map_values(|s: PackageShard| s@), id@),
        },
{
    let ghost pkv = packages@.map_values(|s: PackageShard| s@);
    let mut i: usize = 0;
    while i < packages.len()
        invariant
            i <= packages.len(),
            pkv == packages@.map_values(|s: PackageShard| s@),
            forall|j: int| 0 <= j < i ==> pkv[j].id != id@,
        decreases packages.len() - i,
    {
        if packages[i].id.equals(id) {
            proof {
                assert(pkv[i as int] == packages@[i as int]@);
                lemma_shard_first_is(pkv, id@, i as int);
            }
            return Some(i);
        }
        i = i + 1;
    }
    None
}

/// Finds the first checkpoint hash equal to `h`.
fn find_hash(hashes: &Vec<Digest>, h: &Digest) -> (r: Option<usize>)
    ensures
        match r {
            Some(i) => seq_has(hashes_view(hashes@), h@) && i < hashes@.len() && i == seq_first(
                hashes_view(hashes@),
                h@,
            ),
            None => !seq_has(hashes_view(hashes@), h@),
        },
{
    let mut i: usize = 0;
    while i < hashes.len()
        invariant
            i <= hashes.len(),
            forall|j: int| 0 <= j < i ==> hashes_view(hashes@)[j] != h@,
        decreases hashes.len() - i,
    {
        if hashes[i].equals(h) {
            proof {
                assert(hashes_view(hashes@)[i as int] == hashes@[i as int]@);
                crate::keyset::lemma_seq_first_is(hashes_view(hashes@), h@, i as int);
            }
            return Some(i);
        }
        i = i + 1;
    }
    None
}

/// The registry state owned by the core service.
pub struct State {
    pub checkpoints: Vec<SignedCheckpoint>,
    pub checkpoint_hashes: Vec<Digest>,
    pub operator: OperatorShard,
    pub packages: Vec<PackageShard>,
}

/// Ghost mirror of `State`.
#[verifier::ext_equal]
pub struct StateV {
    pub checkpoints: Seq<SignedCheckpointV>,
    pub checkpoint_hashes: Seq<Seq<u8>>,
    pub operator: OperatorShardV,
    pub packages: Seq<PackageShardV>,
}

impl View for State {
    type V = StateV;

    open spec fn view(&self) -> StateV {
        StateV {
            checkpoints: self.checkpoints@.map_values(|c: SignedCheckpoint| c@),
            checkpoint_hashes: hashes_view(self.checkpoint_hashes@),
            operator: self.operator@,
            packages: self.packages@.map_values(|s: PackageShard| s@),
        }
    }
}

/// The global invariants: the genesis checkpoint is always present, the
/// hash list mirrors the checkpoint list, shard ids are unique, and every
/// shard satisfies its own invariants and is promoted only under installed
/// checkpoints.
pub open spec fn state_wf(s: StateV) -> bool {
    &&& s.checkpoints.len() >= 1
    &&& s.checkpoint_hashes.len() == s.checkpoints.len()
    &&& forall|k: int|
        #![trigger s.checkpoint_hashes[k]]
        0 <= k < s.checkpoints.len() ==> s.checkpoint_hashes[k] == sha256_of(s.checkpoints[k].bytes)
    &&& forall|i: int, j: int|
        #![trigger s.packages[i].id, s.packages[j].id]
        0 <= i < j < s.packages.len() ==> s.packages[i].id != s.packages[j].id
    &&& forall|i: int|
        #![trigger s.packages[i]]
        0 <= i < s.packages.len() ==> shard_wf(s.packages[i]) && shard_ck_wf(
            s.packages[i],
            s.checkpoints,
        )
    &&& opshard_wf(s.operator)
    &&& forall|i: int|
        #![trigger s.operator.checkpoint_indices[i]]
        0 <= i < s.operator.checkpoint_indices.len() ==> (s.operator.checkpoint_indices[i] as int)
            < s.checkpoints.len() && i < s.operator.records.len() && s.operator.records[
            i
        ].record_id == s.operator.log[i].record_id && s.operator.records[i].info.state == (
        RecordStateV::Published {
            checkpoint: s.checkpoints[s.operator.checkpoint_indices[i] as int],
        })
}

impl State {
    /// Builds the initial state from the genesis checkpoint and the
    /// bootstrap operator record, which must validate against a fresh
    /// operator log. The bootstrap record is immediately `Published` under
    /// the genesis checkpoint.
    pub fn new(init_checkpoint: SignedCheckpoint, init_record: OperatorRecordEnvelope) -> (r: State)
        requires
            op_validate_spec(
                OperatorValidatorV { initialized: false, keys: seq![] },
                init_record@,
            ) is Ok,
        ensures
            state_wf(r@),
            r@.checkpoints == seq![init_checkpoint@],
            r@.checkpoint_hashes == seq![sha256_of(init_checkpoint@.bytes)],
            r@.packages == Seq::<PackageShardV>::empty(),
            r@.operator.log.len() == 1,
            r@.operator.log[0].envelope == init_record@,
            r@.operator.log[0].record_id == sha256_of(init_record@.content_bytes),
            r@.operator.checkpoint_indices == seq![0usize],
            r@.operator.records.len() == 1,
            r@.operator.records[0].record_id == sha256_of(init_record@.content_bytes),
            r@.operator.records[0].info.record == init_record@,
            r@.operator.records[0].info.state == (RecordStateV::Published {
                checkpoint: init_checkpoint@,
            }),
    {
        let h = init_checkpoint.hash();
        let rid = RecordId::operator_record(&init_record);
        let mut validator = OperatorValidator::new();
        match validator.validate(&init_record) {
            Ok(_) => {},
            Err(_) => {
                proof {
                    assert(false);
                }
            },
        }
        let info = OperatorRecordInfo {
            record: init_record.dup(),
            state: RecordState::Published { checkpoint: init_checkpoint.dup() },
        };
        let log_entry = OpLogEntry { record_id: rid.dup(), envelope: init_record };
        let rec_entry = OpRecordEntry { record_id: rid, info };
        let mut op_log: Vec<OpLogEntry> = Vec::new();
        op_log.push(log_entry);
        let mut op_ci: Vec<usize> = Vec::new();
        op_ci.push(0);
        let mut op_records: Vec<OpRecordEntry> = Vec::new();
        op_records.push(rec_entry);
        let operator = OperatorShard {
            validator,
            log: op_log,
            checkpoint_indices: op_ci,
            records: op_records,
        };
        let mut checkpoints: Vec<SignedCheckpoint> = Vec::new();
        checkpoints.push(init_checkpoint);
        let mut checkpoint_hashes: Vec<Digest> = Vec::new();
        checkpoint_hashes.push(h);
        let r = State { checkpoints, checkpoint_hashes, operator, packages: Vec::new() };
        proof {
            assert(r@.checkpoints =~= seq![r.checkpoints@[0]@]);
            assert(r@.checkpoint_hashes =~= seq![r.checkpoint_hashes@[0]@]);
            assert(r@.packages =~= Seq::<PackageShardV>::empty());
            assert(r@.operator.log =~= seq![r.operator.log@[0]@]);
            assert(r@.operator.records =~= seq![r.operator.records@[0]@]);
            assert(r@.operator.checkpoint_indices =~= seq![0usize]);
        }
        r
    }
}

/// A fresh shard for a package log that has not been seen before.
pub open spec fn fresh_shard_v(lid: Seq<u8>, name: Seq<char>) -> PackageShardV {
    PackageShardV {
        id: lid,
        name,
        validator: PackageValidatorV { initialized: false, keys: seq![], releases: seq![] },
        log: seq![],
        checkpoint_indices: seq![],
        records: seq![],
    }
}

/// What submitting a package record does to the whole service state: the
/// checkpoints and the operator log are untouched; the target shard (found
/// by the package's log id, or created fresh) changes as `submit_rel`
/// says; and exactly when the record enters `Processing`, its leaf is
/// appended to the checkpoint sink — once.
pub open spec fn submit_core_rel(
    pre: StateV,
    post: StateV,
    name: Seq<char>,
    env: PackageRecordEnvelopeV,
    sources: Seq<ContentSourceV>,
    r: RecordStateV,
    pre_sink: Seq<LogLeafV>,
    post_sink: Seq<LogLeafV>,
) -> bool {
    let lid = sha256_of(encode_utf8(name));
    let rid = sha256_of(env.content_bytes);
    &&& post.checkpoints == pre.checkpoints
    &&& post.checkpoint_hashes == pre.checkpoint_hashes
    &&& post.operator == pre.operator
    &&& (if r is Processing {
        post_sink == pre_sink.push(LogLeafV { log_id: lid, record_id: rid })
    } else {
        post_sink == pre_sink
    })
    &&& (if shard_has(pre.packages, lid) {
        let si = shard_first(pre.packages, lid);
        &&& post.packages == pre.packages.update(si, post.packages[si])
        &&& submit_rel(pre.packages[si], post.packages[si], env, sources, r, r is Processing)
    } else {
        &&& post.packages.len() == pre.packages.len() + 1
        &&& post.packages == pre.packages.push(post.packages[pre.packages.len() as int])
        &&& submit_rel(
            fresh_shard_v(lid, name),
            post.packages[pre.packages.len() as int],
            env,
            sources,
            r,
            r is Processing,
        )
    })
}

/// Whether a leaf names an existing shard whose next unpromoted log entry
/// is exactly this record.
pub open spec fn leaf_ok(packages: Seq<PackageShardV>, leaf: LogLeafV) -> bool {
    &&& shard_has(packages, leaf.log_id)
    &&& ({
        let s = packages[shard_first(packages, leaf.log_id)];
        s.checkpoint_indices.len() < s.log.len() && s.log[s.checkpoint_indices.len() as int].record_id
            == leaf.record_id
    })
}

/// Promotes one leaf: its shard's next log entry becomes `Published` under
/// checkpoint `cp` with index `k`.
pub open spec fn apply_leaf(
    packages: Seq<PackageShardV>,
    leaf: LogLeafV,
    k: usize,
    cp: SignedCheckpointV,
) -> Seq<PackageShardV> {
    let si = shard_first(packages, leaf.log_id);
    let s = packages[si];
    packages.update(
        si,
        PackageShardV {
            checkpoint_indices: s.checkpoint_indices.push(k),
            records: rec_set(
                s.records,
                leaf.record_id,
                PackageRecordInfoV {
                    record: rec_info(s.records, leaf.record_id).record,
                    content_sources: rec_info(s.records, leaf.record_id).content_sources,
                    state: RecordStateV::Published { checkpoint: cp },
                },
            ),
            ..s
        },
    )
}

/// Whether the leaves from position `i` on can be promoted in order: each
/// leaf must name the next unpromoted entry of its shard at its turn.
pub open spec fn batch_ok_from(
    packages: Seq<PackageShardV>,
    leaves: Seq<LogLeafV>,
    i: int,
    k: usize,
    cp: SignedCheckpointV,
) -> bool
    decreases leaves.len() - i,
{
    i < 0 || i >= leaves.len() || (leaf_ok(packages, leaves[i]) && batch_ok_from(
        apply_leaf(packages, leaves[i], k, cp),
        leaves,
        i + 1,
        k,
        cp,
    ))
}

/// Promotes the leaves from position `i` on, in order.
pub open spec fn apply_batch_from(
    packages: Seq<PackageShardV>,
    leaves: Seq<LogLeafV>,
    i: int,
    k: usize,
    cp: SignedCheckpointV,
) -> Seq<PackageShardV>
    decreases leaves.len() - i,
{
    if i < 0 || i >= leaves.len() {
        packages
    } else {
        apply_batch_from(apply_leaf(packages, leaves[i], k, cp), leaves, i + 1, k, cp)
    }
}

/// The core service: owns the registry state and the outbound sink of log
/// leaves. `sink` models the one-way channel to the transparency
/// sequencer: it is the full history of emitted leaves, in order.
pub struct CoreService {
    pub state: State,
    pub sink: Vec<LogLeaf>,
}

/// The view of the sink.
pub open spec fn sink_view(sink: Seq<LogLeaf>) -> Seq<LogLeafV> {
    sink.map_values(|l: LogLeaf| l@)
}

impl CoreService {
    /// Starts the service over an initial state.
    pub fn new(state: State) -> (r: CoreService)
        ensures
            r.state@ == state@,
            r.sink@ == Seq::<LogLeaf>::empty(),
    {
        CoreService { state, sink: Vec::new() }
    }

    /// Submits a package record: resolves or creates the package's shard,
    /// validates the record, checks content availability, and stages or
    /// rejects it. Emits the log leaf to the sink exactly when the record
    /// enters `Processing`.
    pub fn submit_package_record(
        &mut self,
        package_name: String,
        record: PackageRecordEnvelope,
        content_sources: Vec<ContentSource>,
    ) -> (r: RecordState)
        requires
            state_wf(old(self).state@),
        ensures
            state_wf(final(self).state@),
            submit_core_rel(
                old(self).state@,
                final(self).state@,
                package_name@,
                record@,
                content_sources@.map_values(|s: ContentSource| s@),
                r@,
                sink_view(old(self).sink@),
                sink_view(final(self).sink@),
            ),
    {
        let ghost pre = self.state@;
        let ghost presink = sink_view(self.sink@);
        let ghost namev = package_name@;
        let ghost envv = record@;
        let ghost srcv = content_sources@.map_values(|s: ContentSource| s@);
        let package_id = LogId::package_log(package_name.as_str());
        let ghost lid = package_id@;
        let ghost rid = sha256_of(envv.content_bytes);

        let idx: usize = match find_shard(&self.state.packages, &package_id) {
            Some(i) => i,
            None => {
                let n = self.state.packages.len();
                let sh = PackageShard::new(package_id, package_name);
                self.state.packages.push(sh);
                proof {
                    assert(self.state@.packages =~= pre.packages.push(fresh_shard_v(lid, namev)));
                }
                n
            },
        };
        let ghost mid = self.state@;
        let ghost shard_pre = self.state@.packages[idx as int];

        let shard = &mut self.state.packages[idx];
        let (st, leaf) = shard.submit(record, content_sources);
        let ghost shard_post = self.state@.packages[idx as int];
        proof {
            lemma_submit_rel_frame(shard_pre, shard_post, envv, srcv, st@, leaf is Some);
        }
        proof {
            if shard_has(pre.packages, lid) {
                lemma_shard_first(pre.packages, lid);
            }
            assert(shard_pre.id == lid);
        }
        let r = match leaf {
            Some(l) => {
                self.sink.push(l);
                proof {
                    assert(sink_view(self.sink@) =~= presink.push(
                        LogLeafV { log_id: lid, record_id: rid },
                    ));
                }
                st
            },
            None => st,
        };
        proof {
            if shard_has(pre.packages, lid) {
                lemma_shard_first(pre.packages, lid);
                assert(self.state@.packages =~= pre.packages.update(
                    idx as int,
                    self.state@.packages[idx as int],
                ));
            } else {
                assert(self.state@.packages =~= pre.packages.push(
                    self.state@.packages[pre.packages.len() as int],
                ));
                assert(shard_ck_wf(fresh_shard_v(lid, namev), pre.checkpoints));
            }
            assert(state_wf(self.state@)) by {
                assert forall|i: int| 0 <= i < self.state@.packages.len() implies shard_wf(
                    #[trigger] self.state@.packages[i],
                ) && shard_ck_wf(self.state@.packages[i], self.state@.checkpoints) by {
                    if i != idx as int {
                        assert(self.state@.packages[i] == pre.packages[i]);
                    }
                }
                assert forall|i: int, j: int|
                    0 <= i < j < self.state@.packages.len() implies (
                #[trigger] self.state@.packages[i].id) != (
                #[trigger] self.state@.packages[j].id) by {
                    if i != idx as int && j != idx as int {
                        assert(self.state@.packages[i] == pre.packages[i]);
                        assert(self.state@.packages[j] == pre.packages[j]);
                    }
                }
            }
        }
        r
    }

    /// Installs a new checkpoint: appends it to the checkpoint list,
    /// records its hash, and promotes every leaf of the batch, in order,
    /// to `Published` under it. Installing a checkpoint whose hash is
    /// already known changes nothing. The caller supplies each shard's
    /// leaves in log order, starting at the shard's first unpromoted entry.
    pub fn new_checkpoint(&mut self, checkpoint: SignedCheckpoint, leaves: Vec<LogLeaf>)
        requires
            state_wf(old(self).state@),
            !seq_has(old(self).state@.checkpoint_hashes, sha256_of(checkpoint@.bytes))
                ==> batch_ok_from(
                old(self).state@.packages,
                leaves@.map_values(|l: LogLeaf| l@),
                0,
                old(self).state@.checkpoints.len() as usize,
                checkpoint@,
            ),
        ensures
            state_wf(final(self).state@),
            final(self).sink == old(self).sink,
            ({
                let h = sha256_of(checkpoint@.bytes);
                if seq_has(old(self).state@.checkpoint_hashes, h) {
                    final(self).state@ == old(self).state@
                } else {
                    &&& final(self).state@.checkpoints == old(self).state@.checkpoints.push(
                        checkpoint@,
                    )
                    &&& final(self).state@.checkpoint_hashes == old(
                        self,
                    ).state@.checkpoint_hashes.push(h)
                    &&& final(self).state@.operator == old(self).state@.operator
                    &&& final(self).state@.packages == apply_batch_from(
                        old(self).state@.packages,
                        leaves@.map_values(|l: LogLeaf| l@),
                        0,
                        old(self).state@.checkpoints.len() as usize,
                        checkpoint@,
                    )
                }
            }),
    {
        let ghost pre = self.state@;
        let ghost leavesv = leaves@.map_values(|l: LogLeaf| l@);
        let ghost cpv = checkpoint@;
        let h = checkpoint.hash();
        match find_hash(&self.state.checkpoint_hashes, &h) {
            Some(_) => {
                return ;
            },
            None => {},
        }
        let k = self.state.checkpoints.len();
        let ghost cksnew = pre.checkpoints.push(cpv);
        self.state.checkpoints.push(checkpoint.dup());
        self.state.checkpoint_hashes.push(h);
        proof {
            assert(self.state@.checkpoints =~= cksnew);
            assert(self.state@.checkpoint_hashes =~= pre.checkpoint_hashes.push(
                sha256_of(cpv.bytes),
            ));
        }
        let mut i: usize = 0;
        while i < leaves.len()
            invariant
                i <= leaves.len(),
                state_wf(pre),
                cpv == checkpoint@,
                leavesv == leaves@.map_values(|l: LogLeaf| l@),
                leavesv.len() == leaves@.len(),
                cksnew == pre.checkpoints.push(cpv),
                k as int == pre.checkpoints.len(),
                cksnew[k as int] == cpv,
                self.state@.checkpoints == cksnew,
                self.state@.checkpoint_hashes == pre.checkpoint_hashes.push(sha256_of(cpv.bytes)),
                self.state@.operator == pre.operator,
                self.sink == old(self).sink,
                old(self).state@ == pre,
                self.state@.packages.len() == pre.packages.len(),
                forall|p: int|
                    0 <= p < pre.packages.len() ==> (#[trigger] self.state@.packages[p]).id
                        == pre.packages[p].id,
                forall|p: int|
                    0 <= p < pre.packages.len() ==> shard_wf(#[trigger] self.state@.packages[p])
                        && shard_ck_wf(self.state@.packages[p], cksnew),
                batch_ok_from(self.state@.packages, leavesv, i as int, k, cpv),
                apply_batch_from(pre.packages, leavesv, 0, k, cpv) == apply_batch_from(
                    self.state@.packages,
                    leavesv,
                    i as int,
                    k,
                    cpv,
                ),
            decreases leaves.len() - i,
        {
            let ghost curpk = self.state@.packages;
            let leaf = &leaves[i];
            proof {
                assert(leavesv[i as int] == leaves@[i as int]@);
                assert(leaf_ok(curpk, leavesv[i as int]));
                lemma_shard_first(curpk, leavesv[i as int].log_id);
            }
            let si = match find_shard(&self.state.packages, &leaf.log_id) {
                Some(s) => s,
                None => {
                    proof {
                        assert(false);
                    }
                    0
                },
            };
            let ghost shard_pre = curpk[si as int];
            proof {
                if shard_pre.checkpoint_indices.len() > 0 {
                    assert((shard_pre.checkpoint_indices[shard_pre.checkpoint_indices.len() - 1]
                        as int) < cksnew.len());
                }
            }
            let sh = &mut self.state.packages[si];
            proof {
                assert(sh@ == shard_pre);
            }
            sh.promote(&leaf.record_id, &checkpoint, k);
            proof {
                let lfv = leavesv[i as int];
                let info = PackageRecordInfoV {
                    record: rec_info(shard_pre.records, lfv.record_id).record,
                    content_sources: rec_info(shard_pre.records, lfv.record_id).content_sources,
                    state: RecordStateV::Published { checkpoint: cpv },
                };
                assert(si as int == shard_first(curpk, lfv.log_id));
                assert(self.state@.packages[si as int] == self.state.packages@[si as int]@);
                assert(self.state@.packages[si as int] =~= (PackageShardV {
                    checkpoint_indices: shard_pre.checkpoint_indices.push(k),
                    records: rec_set(shard_pre.records, lfv.record_id, info),
                    ..shard_pre
                }));
                assert(self.state@.packages =~= apply_leaf(curpk, lfv, k, cpv));
                assert(shard_ck_wf(shard_pre, cksnew));
                assert(shard_ck_wf(self.state@.packages[si as int], cksnew));
            }
            i = i + 1;
            proof {
                assert forall|p: int| 0 <= p < pre.packages.len() implies shard_wf(
                    #[trigger] self.state@.packages[p],
                ) && shard_ck_wf(self.state@.packages[p], cksnew) by {
                    if p != si as int {
                        assert(self.state@.packages[p] == curpk[p]);
                    }
                }
                assert(apply_batch_from(curpk, leavesv, (i - 1) as int, k, cpv)
                    == apply_batch_from(self.state@.packages, leavesv, i as int, k, cpv));
            }
        }
        proof {
            assert(state_wf(self.state@)) by {
                assert forall|c: int| 0 <= c < self.state@.checkpoints.len() implies
                    #[trigger] self.state@.checkpoint_hashes[c] == sha256_of(
                    self.state@.checkpoints[c].bytes,
                ) by {
                    if c < pre.checkpoints.len() {
                        assert(pre.checkpoint_hashes[c] == sha256_of(pre.checkpoints[c].bytes));
                    }
                }
                assert forall|a: int, b: int|
                    0 <= a < b < self.state@.packages.len() implies (
                #[trigger] self.state@.packages[a].id) != (
                #[trigger] self.state@.packages[b].id) by {
                    assert(pre.packages[a].id != pre.packages[b].id);
                }
            }
        }
    }

    /// Decides whether the batch of leaves can be promoted in order under
    /// the next checkpoint index: each leaf must name, at its turn, the
    /// first unpromoted log entry of an existing shard.
    fn batch_matches(&self, checkpoint: &SignedCheckpoint, leaves: &Vec<LogLeaf>) -> (r: bool)
        requires
            state_wf(self.state@),
        ensures
            r == batch_ok_from(
                self.state@.packages,
                leaves@.map_values(|l: LogLeaf| l@),
                0,
                self.state@.checkpoints.len() as usize,
                checkpoint@,
            ),
    {
        let ghost p0 = self.state@.packages;
        let ghost leavesv = leaves@.map_values(|l: LogLeaf| l@);
        let ghost cpv = checkpoint@;
        let kx = self.state.checkpoints.len();
        let ghost k = kx;
        let mut counts: Vec<usize> = Vec::new();
        let mut p: usize = 0;
        while p < self.state.packages.len()
            invariant
                p <= self.state.packages.len(),
                p0 == self.state@.packages,
                counts@.len() == p,
                forall|q: int|
                    0 <= q < p ==> counts@[q] == (#[trigger] p0[q]).checkpoint_indices.len(),
            decreases self.state.packages.len() - p,
        {
            proof {
                assert(p0[p as int] == self.state.packages@[p as int]@);
            }
            counts.push(self.state.packages[p].checkpoint_indices.len());
            p = p + 1;
        }
        let mut i: usize = 0;
        let ghost mut curg = p0;
        while i < leaves.len()
            invariant
                i <= leaves.len(),
                state_wf(self.state@),
                p0 == self.state@.packages,
                leavesv == leaves@.map_values(|l: LogLeaf| l@),
                cpv == checkpoint@,
                k as int == self.state@.checkpoints.len(),
                counts@.len() == p0.len(),
                curg.len() == p0.len(),
                forall|q: int|
                    0 <= q < p0.len() ==> (#[trigger] curg[q]).id == p0[q].id && curg[q].log == p0[
                        q
                    ].log && curg[q].checkpoint_indices.len() == counts@[q],
                batch_ok_from(p0, leavesv, 0, k, cpv) == batch_ok_from(
                    curg,
                    leavesv,
                    i as int,
                    k,
                    cpv,
                ),
            decreases leaves.len() - i,
        {
            let leaf = &leaves[i];
            proof {
                assert(leavesv[i as int] == leaves@[i as int]@);
            }
            let si = match find_shard(&self.state.packages, &leaf.log_id) {
                Some(s) => s,
                None => {
                    proof {
                        assert forall|q: int| 0 <= q < curg.len() implies (#[trigger] curg[q]).id
                            != leavesv[i as int].log_id by {
                            assert(p0[q].id != leavesv[i as int].log_id);
                        }
                        assert(!shard_has(curg, leavesv[i as int].log_id));
                        assert(!leaf_ok(curg, leavesv[i as int]));
                    }
                    return false;
                },
            };
            proof {
                lemma_shard_first(p0, leavesv[i as int].log_id);
                assert forall|j: int| 0 <= j < si implies curg[j].id != leavesv[
                    i as int
                ].log_id by {
                    assert(p0[j].id != leavesv[i as int].log_id);
                }
                lemma_shard_first_is(curg, leavesv[i as int].log_id, si as int);
            }
            let c = counts[si];
            proof {
                assert(p0[si as int] == self.state.packages@[si as int]@);
            }
            if c >= self.state.packages[si].log.len() {
                proof {
                    assert(!leaf_ok(curg, leavesv[i as int]));
                }
                return false;
            }
            if !self.state.packages[si].log[c].record_id.equals(&leaf.record_id) {
                proof {
                    assert(curg[si as int].log[c as int] == self.state.packages@[si as int].log@[
                        c as int
                    ]@);
                    assert(!leaf_ok(curg, leavesv[i as int]));
                }
                return false;
            }
            proof {
                assert(curg[si as int].log[c as int] == self.state.packages@[si as int].log@[
                    c as int
                ]@);
                assert(leaf_ok(curg, leavesv[i as int]));
            }
            counts[si] = c + 1;
            proof {
                curg = apply_leaf(curg, leavesv[i as int], k, cpv);
            }
            i = i + 1;
        }
        proof {
            assert(batch_ok_from(curg, leavesv, i as int, k, cpv));
        }
        true
    }

    /// Installs a checkpoint after checking that its batch of leaves is
    /// promotable in order. Returns whether the checkpoint was accepted: a
    /// duplicate installs nothing and is accepted; a batch out of order is
    /// refused and changes nothing.
    pub fn try_new_checkpoint(&mut self, checkpoint: SignedCheckpoint, leaves: Vec<LogLeaf>) -> (ok:
        bool)
        requires
            state_wf(old(self).state@),
        ensures
            state_wf(final(self).state@),
            final(self).sink == old(self).sink,
            ({
                let h = sha256_of(checkpoint@.bytes);
                let leavesv = leaves@.map_values(|l: LogLeaf| l@);
                let k = old(self).state@.checkpoints.len() as usize;
                &&& (!ok ==> final(self).state@ == old(self).state@ && !seq_has(
                    old(self).state@.checkpoint_hashes,
                    h,
                ) && !batch_ok_from(old(self).state@.packages, leavesv, 0, k, checkpoint@))
                &&& (ok ==> (if seq_has(old(self).state@.checkpoint_hashes, h) {
                    final(self).state@ == old(self).state@
                } else {
                    &&& batch_ok_from(old(self).state@.packages, leavesv, 0, k, checkpoint@)
                    &&& final(self).state@.checkpoints == old(self).state@.checkpoints.push(
                        checkpoint@,
                    )
                    &&& final(self).state@.checkpoint_hashes == old(
                        self,
                    ).state@.checkpoint_hashes.push(h)
                    &&& final(self).state@.operator == old(self).state@.operator
                    &&& final(self).state@.packages == apply_batch_from(
                        old(self).state@.packages,
                        leavesv,
                        0,
                        k,
                        checkpoint@,
                    )
                }))
            }),
    {
        let h = checkpoint.hash();
        if find_hash(&self.state.checkpoint_hashes, &h).is_some() {
            self.new_checkpoint(checkpoint, leaves);
            return true;
        }
        if self.batch_matches(&checkpoint, &leaves) {
            self.new_checkpoint(checkpoint, leaves);
            true
        } else {
            false
        }
    }

    /// The state of a package record; `Unknown` when the package or the
    /// record is absent.
    pub fn get_package_record_status(&self, package_id: &LogId, record_id: &RecordId) -> (r:
        RecordState)
        ensures
            r@ == (if shard_has(self.state@.packages, package_id@) {
                rec_state(
                    self.state@.packages[shard_first(self.state@.packages, package_id@)].records,
                    record_id@,
                )
            } else {
                RecordStateV::Unknown
            }),
    {
        match find_shard(&self.state.packages, package_id) {
            Some(i) => {
                proof {
                    assert(self.state@.packages[i as int] == self.state.packages@[i as int]@);
                }
                self.state.packages[i].record_status(record_id)
            },
            None => RecordState::Unknown,
        }
    }

    /// The stored information for a package record, returned only when the
    /// record is `Published`.
    pub fn get_package_record_info(&self, package_id: &LogId, record_id: &RecordId) -> (r: Option<
        PackageRecordInfo,
    >)
        ensures
            ({
                let known = shard_has(self.state@.packages, package_id@);
                let recs = self.state@.packages[shard_first(
                    self.state@.packages,
                    package_id@,
                )].records;
                match r {
                    Some(info) => known && rec_state(recs, record_id@) is Published && info@
                        == rec_info(recs, record_id@),
                    None => !known || !(rec_state(recs, record_id@) is Published),
                }
            }),
    {
        match find_shard(&self.state.packages, package_id) {
            Some(i) => {
                proof {
                    assert(self.state@.packages[i as int] == self.state.packages@[i as int]@);
                }
                self.state.packages[i].record_info(record_id)
            },
            None => None,
        }
    }

    /// The most recently installed checkpoint.
    pub fn get_latest_checkpoint(&self) -> (r: &SignedCheckpoint)
        requires
            state_wf(self.state@),
        ensures
            r@ == self.state@.checkpoints.last(),
    {
        let i = self.state.checkpoints.len() - 1;
        proof {
            assert(self.state@.checkpoints[i as int] == self.state.checkpoints@[i as int]@);
        }
        &self.state.checkpoints[i]
    }

    /// Returns the published prefix of the operator log under the given
    /// checkpoint, starting after `since` when supplied.
    pub fn fetch_operator_records(&self, root: &Digest, since: Option<&RecordId>) -> (r: Result<
        Vec<OperatorRecordEnvelope>,
        CoreError,
    >)
        requires
            state_wf(self.state@),
        ensures
            ({
                let known = seq_has(self.state@.checkpoint_hashes, root@);
                let k = seq_first(self.state@.checkpoint_hashes, root@);
                let sh = self.state@.operator;
                match r {
                    Ok(v) => known && ({
                        let start: int = match since {
                            Some(h) => oplog_first(sh.log, h@) + 1,
                            None => 0,
                        };
                        let end = count_le(sh.checkpoint_indices, k as usize);
                        &&& (match since {
                            Some(h) => oplog_has(sh.log, h@),
                            None => true,
                        })
                        &&& v@.len() == (if start <= end {
                            end - start
                        } else {
                            0int
                        })
                        &&& forall|j: int|
                            0 <= j < v@.len() ==> (#[trigger] v@[j])@ == sh.log[start + j].envelope
                    }),
                    Err(e) => (if !known {
                        e == CoreError::CheckpointNotKnown
                    } else {
                        e == CoreError::RecordNotFound && (match since {
                            Some(h) => !oplog_has(sh.log, h@),
                            None => false,
                        })
                    }),
                }
            }),
    {
        match find_hash(&self.state.checkpoint_hashes, root) {
            Some(k) => self.state.operator.fetch_records(since, k),
            None => Err(CoreError::CheckpointNotKnown),
        }
    }

    /// Returns the published prefix of a package log under the given
    /// checkpoint, starting after `since` when supplied.
    pub fn fetch_package_records(
        &self,
        root: &Digest,
        package_name: &str,
        since: Option<&RecordId>,
    ) -> (r: Result<Vec<PackageRecordEnvelope>, CoreError>)
        requires
            state_wf(self.state@),
        ensures
            ({
                let known = seq_has(self.state@.checkpoint_hashes, root@);
                let k = seq_first(self.state@.checkpoint_hashes, root@);
                let lid = sha256_of(encode_utf8(package_name@));
                let found = shard_has(self.state@.packages, lid);
                let sh = self.state@.packages[shard_first(self.state@.packages, lid)];
                match r {
                    Ok(v) => known && found && ({
                        let start: int = match since {
                            Some(h) => log_first(sh.log, h@) + 1,
                            None => 0,
                        };
                        let end = count_le(sh.checkpoint_indices, k as usize);
                        &&& (match since {
                            Some(h) => log_has(sh.log, h@),
                            None => true,
                        })
                        &&& v@.len() == (if start <= end {
                            end - start
                        } else {
                            0int
                        })
                        &&& forall|j: int|
                            0 <= j < v@.len() ==> (#[trigger] v@[j])@ == sh.log[start + j].envelope
                    }),
                    Err(e) => (if !known {
                        e == CoreError::CheckpointNotKnown
                    } else if !found {
                        e == CoreError::RecordNotFound
                    } else {
                        e == CoreError::RecordNotFound && (match since {
                            Some(h) => !log_has(sh.log, h@),
                            None => false,
                        })
                    }),
                }
            }),
    {
        let package_id = LogId::package_log(package_name);
        match find_hash(&self.state.checkpoint_hashes, root) {
            Some(k) => {
                match find_shard(&self.state.packages, &package_id) {
                    Some(i) => {
                        proof {
                            assert(self.state@.packages[i as int] == self.state.packages@[
                                i as int
                            ]@);
                        }
                        self.state.packages[i].fetch_records(since, k)
                    },
                    None => Err(CoreError::RecordNotFound),
                }
            },
            None => Err(CoreError::CheckpointNotKnown),
        }
    }
}

} // verus!
