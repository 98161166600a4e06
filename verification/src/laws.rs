//! The registry's system-wide laws, stated and proved over the views and
//! relations that the operation contracts use.

use vstd::prelude::*;
use vstd::utf8::encode_utf8;
use crate::digest::sha256_of;
use crate::keyset::{count_le, lemma_count_le_split, non_decreasing};
use crate::package::{fresh_validator, validate_spec};
use crate::records::{ContentSourceV, LogLeafV, PackageRecordEnvelopeV, PackageRecordInfoV,
    RecordStateV, SignedCheckpointV};
use crate::service::{apply_batch_from, apply_leaf, batch_ok_from, leaf_ok, shard_first, shard_has,
    state_wf, submit_core_rel, StateV};
use crate::shard::{apply_log_from, has_missing, lemma_rec_set_same, log_validates, rec_info,
    rec_set, rec_state, shard_ck_wf, shard_wf, submit_rel, LogEntryV, PackageShardV};

verus! {

/// Within a shard, the record ids of the log entries are pairwise
/// distinct.
pub proof fn lemma_log_record_ids_unique(s: PackageShardV)
    requires
        shard_wf(s),
    ensures
        forall|i: int, j: int|
            #![trigger s.log[i].record_id, s.log[j].record_id]
            0 <= i < j < s.log.len() ==> s.log[i].record_id != s.log[j].record_id,
{
}

/// Within a shard, the promotion index list is non-decreasing and no
/// longer than the log.
pub proof fn lemma_checkpoint_indices_monotone(s: PackageShardV)
    requires
        shard_wf(s),
    ensures
        non_decreasing(s.checkpoint_indices),
        s.checkpoint_indices.len() <= s.log.len(),
{
}

/// Every promoted log entry is `Published` under exactly the installed
/// checkpoint that its promotion index names.
pub proof fn lemma_promoted_published(s: StateV, p: int, i: int)
    requires
        state_wf(s),
        0 <= p < s.packages.len(),
        0 <= i < s.packages[p].checkpoint_indices.len(),
    ensures
        rec_state(s.packages[p].records, s.packages[p].log[i].record_id) == (
        RecordStateV::Published {
            checkpoint: s.checkpoints[s.packages[p].checkpoint_indices[i] as int],
        }),
{
}

/// A `Rejected` record never appears in a shard's log.
pub proof fn lemma_rejected_not_in_log(s: PackageShardV, i: int)
    requires
        shard_wf(s),
        0 <= i < s.log.len(),
    ensures
        !(rec_state(s.records, s.log[i].record_id) is Rejected),
{
}

/// A leaf is appended to the checkpoint sink exactly once per `Processing`
/// transition, and never otherwise.
pub proof fn lemma_leaf_emitted_once(
    pre: StateV,
    post: StateV,
    name: Seq<char>,
    env: PackageRecordEnvelopeV,
    sources: Seq<ContentSourceV>,
    r: RecordStateV,
    pre_sink: Seq<LogLeafV>,
    post_sink: Seq<LogLeafV>,
)
    requires
        submit_core_rel(pre, post, name, env, sources, r, pre_sink, post_sink),
    ensures
        r is Processing ==> post_sink == pre_sink.push(
            LogLeafV {
                log_id: sha256_of(encode_utf8(name)),
                record_id: sha256_of(env.content_bytes),
            },
        ),
        !(r is Processing) ==> post_sink == pre_sink,
{
}

/// A fetch under checkpoint index `k` sees exactly the log prefix whose
/// promotion indices are at most `k`: everything before the cut is
/// `Published` under a checkpoint up to `k`, everything after it was
/// promoted later or not at all.
pub proof fn lemma_fetch_published_prefix(s: PackageShardV, k: usize)
    requires
        shard_wf(s),
    ensures
        0 <= count_le(s.checkpoint_indices, k) <= s.checkpoint_indices.len(),
        forall|j: int|
            0 <= j < count_le(s.checkpoint_indices, k) ==> (#[trigger] s.checkpoint_indices[j])
                <= k && (rec_state(s.records, s.log[j].record_id) is Published),
        forall|j: int|
            count_le(s.checkpoint_indices, k) <= j < s.checkpoint_indices.len() ==> (
            #[trigger] s.checkpoint_indices[j]) > k,
{
    lemma_count_le_split(s.checkpoint_indices, k, s.checkpoint_indices.len() as int);
}

/// A record that validates but fails the content-availability check
/// leaves the validator exactly as it was before validation.
pub proof fn lemma_rollback_restores(
    pre: PackageShardV,
    post: PackageShardV,
    env: PackageRecordEnvelopeV,
    sources: Seq<ContentSourceV>,
    r: RecordStateV,
    emitted: bool,
)
    requires
        submit_rel(pre, post, env, sources, r, emitted),
        validate_spec(pre.validator, env) is Ok,
        has_missing(validate_spec(pre.validator, env)->Ok_0.1, sources),
    ensures
        post.validator == pre.validator,
{
}

/// Round trip: a record accepted as `Processing` whose shard had no other
/// pending records is, after a checkpoint that covers its leaf, stored as
/// `Published` under exactly that checkpoint, with the submitted envelope.
pub proof fn lemma_publish_round_trip(
    s0: StateV,
    s1: StateV,
    s2: StateV,
    name: Seq<char>,
    env: PackageRecordEnvelopeV,
    sources: Seq<ContentSourceV>,
    r: RecordStateV,
    sink0: Seq<LogLeafV>,
    sink1: Seq<LogLeafV>,
    cp: SignedCheckpointV,
    k: usize,
)
    requires
        state_wf(s0),
        submit_core_rel(s0, s1, name, env, sources, r, sink0, sink1),
        r is Processing,
        ({
            let lid = sha256_of(encode_utf8(name));
            !shard_has(s0.packages, lid) || ({
                let sh = s0.packages[shard_first(s0.packages, lid)];
                sh.checkpoint_indices.len() == sh.log.len()
            })
        }),
        s2.packages == apply_batch_from(
            s1.packages,
            seq![
                LogLeafV {
                    log_id: sha256_of(encode_utf8(name)),
                    record_id: sha256_of(env.content_bytes),
                },
            ],
            0,
            k,
            cp,
        ),
    ensures
        batch_ok_from(
            s1.packages,
            seq![
                LogLeafV {
                    log_id: sha256_of(encode_utf8(name)),
                    record_id: sha256_of(env.content_bytes),
                },
            ],
            0,
            k,
            cp,
        ),
        ({
            let lid = sha256_of(encode_utf8(name));
            let rid = sha256_of(env.content_bytes);
            &&& shard_has(s2.packages, lid)
            &&& rec_state(s2.packages[shard_first(s2.packages, lid)].records, rid) == (
            RecordStateV::Published { checkpoint: cp })
            &&& rec_info(s2.packages[shard_first(s2.packages, lid)].records, rid).record == env
        }),
{
    let lid = sha256_of(encode_utf8(name));
    let rid = sha256_of(env.content_bytes);
    let leaf = LogLeafV { log_id: lid, record_id: rid };
    let leaves = seq![leaf];

    let si: int = if shard_has(s0.packages, lid) {
        crate::service::lemma_shard_first(s0.packages, lid);
        shard_first(s0.packages, lid)
    } else {
        s0.packages.len() as int
    };
    let sh_pre: PackageShardV = if shard_has(s0.packages, lid) {
        s0.packages[si]
    } else {
        crate::service::fresh_shard_v(lid, name)
    };
    let sh_post = s1.packages[si];
    assert(submit_rel(sh_pre, sh_post, env, sources, r, r is Processing));
    assert(sh_pre.checkpoint_indices.len() == sh_pre.log.len());

    let vres = validate_spec(sh_pre.validator, env);
    assert(vres is Ok);
    let proc_info = PackageRecordInfoV {
        record: env,
        content_sources: sources,
        state: RecordStateV::Processing,
    };
    assert(sh_post == (PackageShardV {
        validator: vres->Ok_0.0,
        log: sh_pre.log.push(LogEntryV { record_id: rid, envelope: env }),
        records: rec_set(sh_pre.records, rid, proc_info),
        ..sh_pre
    }));
    lemma_rec_set_same(sh_pre.records, rid, proc_info);
    assert(rec_info(sh_post.records, rid) == proc_info);
    assert(rec_state(sh_post.records, rid) == RecordStateV::Processing);

    assert(sh_post.id == lid);
    assert forall|j: int| 0 <= j < si implies s1.packages[j].id != lid by {
        if shard_has(s0.packages, lid) {
            assert(s1.packages[j] == s0.packages[j]);
        } else {
            assert(s1.packages[j] == s0.packages[j]);
            assert(!(exists|l: int|
                0 <= l < s0.packages.len() && s0.packages[l].id == lid));
        }
    }
    crate::service::lemma_shard_first_is(s1.packages, lid, si);
    assert(shard_first(s1.packages, lid) == si);

    assert(leaf_ok(s1.packages, leaf)) by {
        assert(sh_post.checkpoint_indices.len() < sh_post.log.len());
        assert(sh_post.log[sh_post.checkpoint_indices.len() as int].record_id == rid);
    }
    assert(batch_ok_from(s1.packages, leaves, 0, k, cp)) by {
        assert(leaves[0] == leaf);
        assert(batch_ok_from(apply_leaf(s1.packages, leaf, k, cp), leaves, 1, k, cp));
    }

    let pub_info = PackageRecordInfoV {
        record: rec_info(sh_post.records, rid).record,
        content_sources: rec_info(sh_post.records, rid).content_sources,
        state: RecordStateV::Published { checkpoint: cp },
    };
    assert(s2.packages == apply_leaf(s1.packages, leaf, k, cp)) by {
        assert(apply_batch_from(apply_leaf(s1.packages, leaf, k, cp), leaves, 1, k, cp)
            == apply_leaf(s1.packages, leaf, k, cp));
    }
    let sh2 = s2.packages[si];
    assert(sh2 == (PackageShardV {
        checkpoint_indices: sh_post.checkpoint_indices.push(k),
        records: rec_set(sh_post.records, rid, pub_info),
        ..sh_post
    }));
    lemma_rec_set_same(sh_post.records, rid, pub_info);
    assert(rec_state(sh2.records, rid) == (RecordStateV::Published { checkpoint: cp }));
    assert(rec_info(sh2.records, rid).record == env);

    assert(sh2.id == lid);
    assert forall|j: int| 0 <= j < si implies s2.packages[j].id != lid by {
        assert(s2.packages[j] == s1.packages[j]);
    }
    assert(shard_has(s2.packages, lid));
    crate::service::lemma_shard_first_is(s2.packages, lid, si);
}

/// A shard's validator state is exactly the result of applying its log in
/// order from a fresh validator, every entry of which validates.
pub proof fn lemma_validator_tracks_log(s: PackageShardV)
    requires
        shard_wf(s),
    ensures
        log_validates(fresh_validator(), s.log, 0),
        s.validator == apply_log_from(fresh_validator(), s.log, 0),
{
}

/// The operator log keeps the same laws: unique record ids, a
/// non-decreasing promotion list over a prefix of the log, and promoted
/// entries `Published` under exactly the installed checkpoint named by
/// their promotion index.
pub proof fn lemma_operator_shard_invariants(s: StateV, i: int)
    requires
        state_wf(s),
        0 <= i < s.operator.checkpoint_indices.len(),
    ensures
        non_decreasing(s.operator.checkpoint_indices),
        s.operator.checkpoint_indices.len() <= s.operator.log.len(),
        s.operator.records[i].record_id == s.operator.log[i].record_id,
        s.operator.records[i].info.state == (RecordStateV::Published {
            checkpoint: s.checkpoints[s.operator.checkpoint_indices[i] as int],
        }),
{
    assert((s.operator.checkpoint_indices[i] as int) < s.checkpoints.len());
}

/// Every shard of a well-formed state keeps the per-shard laws, and its
/// promotion indices point at installed checkpoints.
pub proof fn lemma_state_shards_wf(s: StateV, p: int)
    requires
        state_wf(s),
        0 <= p < s.packages.len(),
    ensures
        shard_wf(s.packages[p]),
        shard_ck_wf(s.packages[p], s.checkpoints),
{
}

} // verus!
