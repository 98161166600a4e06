use warg_core::api::{create_pending_response, pending_record_url, record_url, ApiError,
    PendingRecordResponse};
use warg_core::bytes::to_hex;
use warg_core::digest::{Digest, KeyId, LogId, RecordId};
use warg_core::keyset::get_records_before_checkpoint;
use warg_core::package::{PackageValidator, ValidationError};
use warg_core::records::{ContentSource, ContentSourceKind, CoreError, MapCheckpoint,
    OperatorEntry, OperatorRecord, OperatorRecordEnvelope, PackageEntry, PackageRecord,
    PackageRecordEnvelope, RecordState, SignedCheckpoint, Version};
use warg_core::service::{CoreService, State};
use warg_core::version;

fn hex(bytes: &[u8]) -> String {
    bytes.iter().map(|b| format!("{:02x}", b)).collect()
}

fn key(b: u8) -> KeyId {
    KeyId { bytes: vec![b; 32] }
}

fn digest(b: u8) -> Digest {
    Digest { bytes: vec![b; 32] }
}

fn checkpoint(tag: u8) -> SignedCheckpoint {
    SignedCheckpoint {
        contents: MapCheckpoint {
            log_root: digest(tag),
            log_length: tag as u64,
            map_root: digest(tag.wrapping_add(1)),
        },
        key_id: key(9),
        signature: vec![7, 7, 7],
        bytes: vec![b'c', b'p', tag],
    }
}

fn op_init_record(k: u8) -> OperatorRecordEnvelope {
    OperatorRecordEnvelope {
        contents: OperatorRecord { entries: vec![OperatorEntry::Init { key: key(k) }] },
        key_id: key(k),
        signature: vec![],
        content_bytes: vec![b'o', b'p', k],
    }
}

fn pkg_record(signer: u8, entries: Vec<PackageEntry>, tag: u8) -> PackageRecordEnvelope {
    PackageRecordEnvelope {
        contents: PackageRecord { entries },
        key_id: key(signer),
        signature: vec![],
        content_bytes: vec![b'p', b'k', tag],
    }
}

fn source(d: Digest) -> ContentSource {
    ContentSource {
        digest: d,
        kind: ContentSourceKind::HttpAnonymous { url: "http://localhost/content".to_string() },
    }
}

fn fresh_core() -> CoreService {
    CoreService::new(State::new(checkpoint(0), op_init_record(7)))
}

#[test]
fn version_string() {
    assert_eq!(version(), "0.1.0");
}

#[test]
fn log_id_is_real_sha256() {
    let id = LogId::package_log("p");
    let expected = <sha2::Sha256 as sha2::Digest>::digest(b"p").to_vec();
    assert_eq!(id.bytes, expected);
    assert_ne!(id.bytes, b"p".to_vec());
    assert_eq!(id.bytes.len(), 32);
}

#[test]
fn empty_input_sha256_known_value() {
    let d = Digest::sha256(&Vec::new());
    assert_eq!(
        hex(&d.bytes),
        "e3b0c44298fc1c149afbf4c8996fb92427ae41e4649b934ca495991b7852b855"
    );
}

#[test]
fn hex_rendering_exact() {
    assert_eq!(to_hex(&vec![0u8, 255u8, 16u8]), "00ff10");
    assert_eq!(to_hex(&Vec::new()), "");
}

#[test]
fn version_ordering() {
    let a = Version::new(1, 0, 0);
    let b = Version::new(0, 9, 0);
    let c = Version::new(1, 0, 1);
    assert!(b.lt(&a));
    assert!(a.lt(&c));
    assert!(!a.lt(&b));
    assert!(!a.lt(&a));
}

#[test]
fn records_before_checkpoint_counts() {
    assert_eq!(get_records_before_checkpoint(&vec![0usize, 0, 1, 2], 1), 3);
    assert_eq!(get_records_before_checkpoint(&vec![0usize, 0, 1, 2], 5), 4);
    assert_eq!(get_records_before_checkpoint(&Vec::new(), 3), 0);
}

#[test]
fn urls_exact() {
    let lid = LogId { bytes: vec![0xab, 0xcd] };
    let rid = RecordId { bytes: vec![0x01, 0x02] };
    assert_eq!(record_url(&lid, &rid), "/package/sha256:abcd/records/sha256:0102");
    assert_eq!(pending_record_url(&lid, &rid), "/package/sha256:abcd/pending/sha256:0102");
}

#[test]
fn pending_response_shapes() {
    let lid = LogId { bytes: vec![0xab] };
    let rid = RecordId { bytes: vec![0x01] };
    match create_pending_response(&lid, &rid, RecordState::Processing) {
        Ok(PendingRecordResponse::Processing { status_url }) => {
            assert_eq!(status_url, "/package/sha256:ab/pending/sha256:01");
        }
        other => panic!("unexpected response: {:?}", response_kind(&other)),
    }
    match create_pending_response(&lid, &rid, RecordState::Published { checkpoint: checkpoint(0) })
    {
        Ok(PendingRecordResponse::Published { record_url }) => {
            assert_eq!(record_url, "/package/sha256:ab/records/sha256:01");
        }
        other => panic!("unexpected response: {:?}", response_kind(&other)),
    }
    match create_pending_response(&lid, &rid, RecordState::Rejected { reason: "no".to_string() }) {
        Ok(PendingRecordResponse::Rejected { reason }) => assert_eq!(reason, "no"),
        other => panic!("unexpected response: {:?}", response_kind(&other)),
    }
    assert_eq!(
        create_pending_response(&lid, &rid, RecordState::Unknown).unwrap_err(),
        ApiError::InternalInconsistency
    );
}

fn response_kind(r: &Result<PendingRecordResponse, ApiError>) -> &'static str {
    match r {
        Ok(PendingRecordResponse::Processing { .. }) => "processing",
        Ok(PendingRecordResponse::Published { .. }) => "published",
        Ok(PendingRecordResponse::Rejected { .. }) => "rejected",
        Err(_) => "error",
    }
}

#[test]
fn genesis_checkpoint_always_present() {
    let core = fresh_core();
    let latest = core.get_latest_checkpoint();
    assert_eq!(latest.bytes, checkpoint(0).bytes);
}

#[test]
fn operator_fetch_returns_bootstrap() {
    let core = fresh_core();
    let root = checkpoint(0).hash();
    let records = core.fetch_operator_records(&root, None).unwrap();
    assert_eq!(records.len(), 1);
    assert_eq!(records[0].content_bytes, op_init_record(7).content_bytes);
}

#[test]
fn operator_fetch_unknown_since() {
    let core = fresh_core();
    let root = checkpoint(0).hash();
    let bogus = RecordId { bytes: vec![9; 32] };
    assert_eq!(
        core.fetch_operator_records(&root, Some(&bogus)).unwrap_err(),
        CoreError::RecordNotFound
    );
}

#[test]
fn happy_publish_round_trip() {
    let mut core = fresh_core();
    let init = pkg_record(1, vec![PackageEntry::Init { key: key(1) }], 0);
    let rid = RecordId::package_record(&init);
    let state = core.submit_package_record("p".to_string(), init.dup(), vec![]);
    assert!(matches!(state, RecordState::Processing));
    assert_eq!(core.sink.len(), 1);
    assert_eq!(core.sink[0].log_id, LogId::package_log("p"));
    assert_eq!(core.sink[0].record_id, rid);

    let c1 = checkpoint(1);
    let leaves = vec![core.sink[0].dup()];
    core.new_checkpoint(c1.dup(), leaves);

    let info = core
        .get_package_record_info(&LogId::package_log("p"), &rid)
        .expect("record should be published");
    match info.state {
        RecordState::Published { checkpoint } => assert_eq!(checkpoint.bytes, c1.bytes),
        _ => panic!("record not published"),
    }
    assert_eq!(info.record, init);

    let fetched = core.fetch_package_records(&c1.hash(), "p", None).unwrap();
    assert_eq!(fetched.len(), 1);
    assert_eq!(fetched[0], init);
}

#[test]
fn content_missing_rejects_and_rolls_back() {
    let mut core = fresh_core();
    let init = pkg_record(1, vec![PackageEntry::Init { key: key(1) }], 0);
    core.submit_package_record("p".to_string(), init.dup(), vec![]);
    let c1 = checkpoint(1);
    core.new_checkpoint(c1.dup(), vec![core.sink[0].dup()]);

    let needed = digest(0xab);
    let release = pkg_record(
        1,
        vec![PackageEntry::Release { version: Version::new(1, 0, 0), content: needed.dup() }],
        1,
    );
    let state = core.submit_package_record("p".to_string(), release.dup(), vec![]);
    match state {
        RecordState::Rejected { reason } => {
            let expected = format!(
                "Needed content sha256:{} but not provided",
                hex(&needed.bytes)
            );
            assert_eq!(reason, expected);
        }
        _ => panic!("expected rejection"),
    }
    // no leaf was emitted for the rejected record
    assert_eq!(core.sink.len(), 1);
    // the log under C1 is unchanged
    let fetched = core.fetch_package_records(&c1.hash(), "p", None).unwrap();
    assert_eq!(fetched.len(), 1);
    // the validator was rolled back: the same release with content succeeds
    let retry = core.submit_package_record(
        "p".to_string(),
        release.dup(),
        vec![source(needed.dup())],
    );
    assert!(matches!(retry, RecordState::Processing));
}

#[test]
fn version_regression_rejected() {
    let mut core = fresh_core();
    let init = pkg_record(1, vec![PackageEntry::Init { key: key(1) }], 0);
    core.submit_package_record("p".to_string(), init, vec![]);
    let d = digest(0xcd);
    let rel = pkg_record(
        1,
        vec![PackageEntry::Release { version: Version::new(1, 0, 0), content: d.dup() }],
        1,
    );
    let st = core.submit_package_record("p".to_string(), rel, vec![source(d.dup())]);
    assert!(matches!(st, RecordState::Processing));
    let c2 = checkpoint(2);
    let leaves = vec![core.sink[0].dup(), core.sink[1].dup()];
    core.new_checkpoint(c2.dup(), leaves);

    let old = pkg_record(
        1,
        vec![PackageEntry::Release { version: Version::new(0, 9, 0), content: digest(0xce) }],
        2,
    );
    let st = core.submit_package_record(
        "p".to_string(),
        old,
        vec![source(digest(0xce))],
    );
    match st {
        RecordState::Rejected { reason } => {
            assert_eq!(reason, "release version does not increase");
        }
        _ => panic!("expected rejection"),
    }
    let fetched = core.fetch_package_records(&c2.hash(), "p", None).unwrap();
    assert_eq!(fetched.len(), 2);
}

#[test]
fn unknown_checkpoint_fails_fetch() {
    let core = fresh_core();
    let bogus = Digest { bytes: vec![0x42; 32] };
    assert_eq!(
        core.fetch_package_records(&bogus, "p", None).unwrap_err(),
        CoreError::CheckpointNotKnown
    );
}

#[test]
fn since_not_in_log_fails_fetch() {
    let mut core = fresh_core();
    let init = pkg_record(1, vec![PackageEntry::Init { key: key(1) }], 0);
    core.submit_package_record("p".to_string(), init, vec![]);
    let c1 = checkpoint(1);
    core.new_checkpoint(c1.dup(), vec![core.sink[0].dup()]);
    let missing = RecordId { bytes: vec![5; 32] };
    assert_eq!(
        core.fetch_package_records(&c1.hash(), "p", Some(&missing)).unwrap_err(),
        CoreError::RecordNotFound
    );
}

#[test]
fn unknown_package_fails_fetch() {
    let core = fresh_core();
    let root = checkpoint(0).hash();
    assert_eq!(
        core.fetch_package_records(&root, "nope", None).unwrap_err(),
        CoreError::RecordNotFound
    );
}

#[test]
fn two_packages_promote_independently() {
    let mut core = fresh_core();
    let ra = pkg_record(1, vec![PackageEntry::Init { key: key(1) }], 0);
    let rb = pkg_record(2, vec![PackageEntry::Init { key: key(2) }], 1);
    let ra_id = RecordId::package_record(&ra);
    let rb_id = RecordId::package_record(&rb);
    assert!(matches!(
        core.submit_package_record("a".to_string(), ra, vec![]),
        RecordState::Processing
    ));
    assert!(matches!(
        core.submit_package_record("b".to_string(), rb, vec![]),
        RecordState::Processing
    ));
    let c1 = checkpoint(1);
    let leaves = vec![core.sink[0].dup(), core.sink[1].dup()];
    core.new_checkpoint(c1.dup(), leaves);
    for (name, rid) in [("a", &ra_id), ("b", &rb_id)] {
        let st = core.get_package_record_status(&LogId::package_log(name), rid);
        assert!(matches!(st, RecordState::Published { .. }));
    }
}

#[test]
fn record_status_unknown_cases() {
    let mut core = fresh_core();
    let lid = LogId::package_log("p");
    let rid = RecordId { bytes: vec![1; 32] };
    assert!(matches!(core.get_package_record_status(&lid, &rid), RecordState::Unknown));
    let init = pkg_record(1, vec![PackageEntry::Init { key: key(1) }], 0);
    core.submit_package_record("p".to_string(), init, vec![]);
    assert!(matches!(core.get_package_record_status(&lid, &rid), RecordState::Unknown));
}

#[test]
fn info_hidden_until_published() {
    let mut core = fresh_core();
    let init = pkg_record(1, vec![PackageEntry::Init { key: key(1) }], 0);
    let rid = RecordId::package_record(&init);
    core.submit_package_record("p".to_string(), init, vec![]);
    let lid = LogId::package_log("p");
    assert!(matches!(
        core.get_package_record_status(&lid, &rid),
        RecordState::Processing
    ));
    assert!(core.get_package_record_info(&lid, &rid).is_none());
}

#[test]
fn duplicate_checkpoint_ignored() {
    let mut core = fresh_core();
    let init = pkg_record(1, vec![PackageEntry::Init { key: key(1) }], 0);
    core.submit_package_record("p".to_string(), init, vec![]);
    let c1 = checkpoint(1);
    core.new_checkpoint(c1.dup(), vec![core.sink[0].dup()]);
    assert_eq!(core.state.checkpoints.len(), 2);
    core.new_checkpoint(c1.dup(), Vec::new());
    assert_eq!(core.state.checkpoints.len(), 2);
}

#[test]
fn duplicate_submission_rejected_without_overwrite() {
    let mut core = fresh_core();
    let init = pkg_record(1, vec![PackageEntry::Init { key: key(1) }], 0);
    let rid = RecordId::package_record(&init);
    core.submit_package_record("p".to_string(), init.dup(), vec![]);
    let again = core.submit_package_record("p".to_string(), init, vec![]);
    match again {
        RecordState::Rejected { reason } => {
            assert_eq!(reason, "record is already in progress or published");
        }
        _ => panic!("expected rejection"),
    }
    // the staged record is still Processing and only one leaf was emitted
    let lid = LogId::package_log("p");
    assert!(matches!(
        core.get_package_record_status(&lid, &rid),
        RecordState::Processing
    ));
    assert_eq!(core.sink.len(), 1);
}

#[test]
fn fetch_hides_processing_tail() {
    let mut core = fresh_core();
    let init = pkg_record(1, vec![PackageEntry::Init { key: key(1) }], 0);
    core.submit_package_record("p".to_string(), init, vec![]);
    let c1 = checkpoint(1);
    core.new_checkpoint(c1.dup(), vec![core.sink[0].dup()]);
    let d = digest(0xcd);
    let rel = pkg_record(
        1,
        vec![PackageEntry::Release { version: Version::new(1, 0, 0), content: d.dup() }],
        1,
    );
    assert!(matches!(
        core.submit_package_record("p".to_string(), rel, vec![source(d)]),
        RecordState::Processing
    ));
    // the release is Processing: invisible under C1
    let fetched = core.fetch_package_records(&c1.hash(), "p", None).unwrap();
    assert_eq!(fetched.len(), 1);
}

#[test]
fn validator_error_variants() {
    let mut v = PackageValidator::new();
    // empty record
    let empty = pkg_record(1, vec![], 0);
    assert_eq!(v.validate(&empty).unwrap_err(), ValidationError::EmptyRecord);
    // first operation must be an init
    let grant_first = pkg_record(1, vec![PackageEntry::Grant { key: key(2) }], 1);
    assert_eq!(v.validate(&grant_first).unwrap_err(), ValidationError::NotInitialized);
    // init must be self-signed
    let missigned = pkg_record(1, vec![PackageEntry::Init { key: key(2) }], 2);
    assert_eq!(v.validate(&missigned).unwrap_err(), ValidationError::UnauthorizedSigner);
    // initialize
    let init = pkg_record(1, vec![PackageEntry::Init { key: key(1) }], 3);
    assert!(v.validate(&init).is_ok());
    // double init
    let reinit = pkg_record(1, vec![PackageEntry::Init { key: key(1) }], 4);
    assert_eq!(v.validate(&reinit).unwrap_err(), ValidationError::AlreadyInitialized);
    // unauthorized signer
    let outsider = pkg_record(3, vec![PackageEntry::Grant { key: key(4) }], 5);
    assert_eq!(v.validate(&outsider).unwrap_err(), ValidationError::UnauthorizedSigner);
    // granting a key twice
    let regrant = pkg_record(1, vec![PackageEntry::Grant { key: key(1) }], 6);
    assert_eq!(v.validate(&regrant).unwrap_err(), ValidationError::KeyAlreadyAuthorized);
    // revoking an unknown key
    let revoke = pkg_record(1, vec![PackageEntry::Revoke { key: key(5) }], 7);
    assert_eq!(v.validate(&revoke).unwrap_err(), ValidationError::KeyNotAuthorized);
    // version must strictly increase per signer
    let r1 = pkg_record(
        1,
        vec![PackageEntry::Release { version: Version::new(1, 0, 0), content: digest(1) }],
        8,
    );
    assert!(v.validate(&r1).is_ok());
    let r2 = pkg_record(
        1,
        vec![PackageEntry::Release { version: Version::new(1, 0, 0), content: digest(2) }],
        9,
    );
    assert_eq!(v.validate(&r2).unwrap_err(), ValidationError::VersionNotIncreasing);
}

#[test]
fn grant_and_revoke_update_authorized_set() {
    let mut v = PackageValidator::new();
    let init = pkg_record(1, vec![PackageEntry::Init { key: key(1) }], 0);
    assert!(v.validate(&init).is_ok());
    let grant = pkg_record(1, vec![PackageEntry::Grant { key: key(2) }], 1);
    assert!(v.validate(&grant).is_ok());
    // the granted key may now sign
    let by_new = pkg_record(2, vec![PackageEntry::Grant { key: key(3) }], 2);
    assert!(v.validate(&by_new).is_ok());
    // revoke it again, atomically with the record
    let revoke = pkg_record(1, vec![PackageEntry::Revoke { key: key(2) }], 3);
    assert!(v.validate(&revoke).is_ok());
    let by_revoked = pkg_record(2, vec![PackageEntry::Grant { key: key(6) }], 4);
    assert_eq!(v.validate(&by_revoked).unwrap_err(), ValidationError::UnauthorizedSigner);
}

#[test]
fn rollback_restores_validator_exactly() {
    let mut v = PackageValidator::new();
    let init = pkg_record(1, vec![PackageEntry::Init { key: key(1) }], 0);
    assert!(v.validate(&init).is_ok());
    let before = v.snapshot();
    let rel = pkg_record(
        1,
        vec![PackageEntry::Release { version: Version::new(2, 0, 0), content: digest(9) }],
        1,
    );
    assert!(v.validate(&rel).is_ok());
    let snap = before.snapshot();
    v.rollback(snap);
    assert_eq!(v, before);
}

#[test]
fn per_shard_invariants_hold_after_flow() {
    let mut core = fresh_core();
    let init = pkg_record(1, vec![PackageEntry::Init { key: key(1) }], 0);
    core.submit_package_record("p".to_string(), init, vec![]);
    let c1 = checkpoint(1);
    core.new_checkpoint(c1.dup(), vec![core.sink[0].dup()]);
    let shard = &core.state.packages[0];
    // record ids in the log are unique and never rejected
    for i in 0..shard.log.len() {
        for j in (i + 1)..shard.log.len() {
            assert_ne!(shard.log[i].record_id, shard.log[j].record_id);
        }
    }
    // promotion indices are a non-decreasing prefix of the log
    assert!(shard.checkpoint_indices.len() <= shard.log.len());
    for w in shard.checkpoint_indices.windows(2) {
        assert!(w[0] <= w[1]);
    }
}

#[test]
fn fetch_with_since_returns_suffix() {
    let mut core = fresh_core();
    let init = pkg_record(1, vec![PackageEntry::Init { key: key(1) }], 0);
    let init_id = RecordId::package_record(&init);
    core.submit_package_record("p".to_string(), init, vec![]);
    let d = digest(0xcd);
    let rel = pkg_record(
        1,
        vec![PackageEntry::Release { version: Version::new(1, 0, 0), content: d.dup() }],
        1,
    );
    core.submit_package_record("p".to_string(), rel.dup(), vec![source(d)]);
    let c2 = checkpoint(2);
    let leaves = vec![core.sink[0].dup(), core.sink[1].dup()];
    core.new_checkpoint(c2.dup(), leaves);

    let suffix = core.fetch_package_records(&c2.hash(), "p", Some(&init_id)).unwrap();
    assert_eq!(suffix.len(), 1);
    assert_eq!(suffix[0], rel);
}

#[test]
fn try_new_checkpoint_refuses_out_of_order_batch() {
    let mut core = fresh_core();
    let init = pkg_record(1, vec![PackageEntry::Init { key: key(1) }], 0);
    core.submit_package_record("p".to_string(), init, vec![]);
    let bogus_leaf = warg_core::records::LogLeaf {
        log_id: LogId::package_log("p"),
        record_id: RecordId { bytes: vec![3; 32] },
    };
    let accepted = core.try_new_checkpoint(checkpoint(1), vec![bogus_leaf]);
    assert!(!accepted);
    assert_eq!(core.state.checkpoints.len(), 1);
    let good = core.try_new_checkpoint(checkpoint(1), vec![core.sink[0].dup()]);
    assert!(good);
    assert_eq!(core.state.checkpoints.len(), 2);
}

#[test]
fn update_command_options() {
    let cmd = warg_core::UpdateCommand { registry: Some("https://registry.example".to_string()) };
    assert_eq!(cmd.registry.as_deref(), Some("https://registry.example"));
    let default_cmd = warg_core::UpdateCommand { registry: None };
    assert!(default_cmd.registry.is_none());
}
