//! The package-log validator: a deterministic state machine over package
//! records. The first record must initialize the log; later records must be
//! signed by a currently authorized key; releases must carry strictly
//! increasing versions per signer; grants and revocations update the
//! authorized key set atomically with the record's acceptance.

use vstd::prelude::*;
use crate::digest::{Digest, KeyId};
use crate::keyset::{find_key, keys_view, seq_first, seq_has};
use crate::records::{version_lt, PackageEntry, PackageEntryV, PackageRecordEnvelope,
    PackageRecordEnvelopeV, Version};

verus! {

/// Why a record was refused by a validator.
#[derive(Clone, Copy, Debug, PartialEq, Eq, Structural)]
pub enum ValidationError {
    /// The record carries no operation.
    EmptyRecord,
    /// An operation other than initialization reached an uninitialized log.
    NotInitialized,
    /// An initialization reached a log that is already initialized.
    AlreadyInitialized,
    /// The record's signer is not currently authorized.
    UnauthorizedSigner,
    /// A grant names a key that is already authorized.
    KeyAlreadyAuthorized,
    /// A revocation names a key that is not authorized.
    KeyNotAuthorized,
    /// A release's version does not exceed the signer's previous version.
    VersionNotIncreasing,
}

/// The last released version recorded for one signer.
#[derive(Debug, Clone, PartialEq, Eq)]
pub struct SignerRelease {
    pub key: KeyId,
    pub version: Version,
}

/// The state of a package-log validator.
#[derive(Debug, Clone, PartialEq, Eq)]
pub struct PackageValidator {
    pub initialized: bool,
    pub keys: Vec<KeyId>,
    pub releases: Vec<SignerRelease>,
}

/// Ghost mirror of `PackageValidator`.
#[verifier::ext_equal]
pub struct PackageValidatorV {
    pub initialized: bool,
    pub keys: Seq<Seq<u8>>,
    pub releases: Seq<(Seq<u8>, Version)>,
}

/// The view of a list of signer releases.
pub open spec fn rel_view(rels: Seq<SignerRelease>) -> Seq<(Seq<u8>, Version)> {
    rels.map_values(|r: SignerRelease| (r.key@, r.version))
}

impl View for PackageValidator {
    type V = PackageValidatorV;

    open spec fn view(&self) -> PackageValidatorV {
        PackageValidatorV {
            initialized: self.initialized,
            keys: keys_view(self.keys@),
            releases: rel_view(self.releases@),
        }
    }
}

/// Whether the release list holds an entry for signer `k`.
pub open spec fn rel_has(rels: Seq<(Seq<u8>, Version)>, k: Seq<u8>) -> bool {
    exists|i: int| 0 <= i < rels.len() && rels[i].0 == k
}

/// The index of the first release entry for signer `k`.
pub open spec fn rel_first(rels: Seq<(Seq<u8>, Version)>, k: Seq<u8>) -> int
    decreases rels.len(),
{
    if rels.len() == 0 {
        0
    } else if rels[0].0 == k {
        0
    } else {
        1 + rel_first(rels.drop_first(), k)
    }
}

/// `rel_first` returns the first matching entry.
pub proof fn lemma_rel_first(rels: Seq<(Seq<u8>, Version)>, k: Seq<u8>)
    requires
        rel_has(rels, k),
    ensures
        0 <= rel_first(rels, k) < rels.len(),
        rels[rel_first(rels, k)].0 == k,
        forall|j: int| 0 <= j < rel_first(rels, k) ==> rels[j].0 != k,
    decreases rels.len(),
{
    if rels.len() > 0 && rels[0].0 != k {
        let i = choose|i: int| 0 <= i < rels.len() && rels[i].0 == k;
        assert(rels.drop_first()[i - 1] == rels[i]);
        lemma_rel_first(rels.drop_first(), k);
        assert forall|j: int| 0 <= j < rel_first(rels, k) implies rels[j].0 != k by {
            if j > 0 {
                assert(rels.drop_first()[j - 1] == rels[j]);
            }
        }
    }
}

/// Any index with the first-occurrence property equals `rel_first`.
pub proof fn lemma_rel_first_is(rels: Seq<(Seq<u8>, Version)>, k: Seq<u8>, i: int)
    requires
        0 <= i < rels.len(),
        rels[i].0 == k,
        forall|j: int| 0 <= j < i ==> rels[j].0 != k,
    ensures
        rel_first(rels, k) == i,
{
    assert(rel_has(rels, k));
    lemma_rel_first(rels, k);
}

/// The last version recorded for signer `k`, if any.
pub open spec fn rel_lookup(rels: Seq<(Seq<u8>, Version)>, k: Seq<u8>) -> Option<Version> {
    if rel_has(rels, k) {
        Some(rels[rel_first(rels, k)].1)
    } else {
        None
    }
}

/// The release list with signer `k`'s entry set to version `v`.
pub open spec fn rel_set(rels: Seq<(Seq<u8>, Version)>, k: Seq<u8>, v: Version) -> Seq<
    (Seq<u8>, Version),
> {
    if rel_has(rels, k) {
        rels.update(rel_first(rels, k), (k, v))
    } else {
        rels.push((k, v))
    }
}

/// The state of a validator for a log with no records.
pub open spec fn fresh_validator() -> PackageValidatorV {
    PackageValidatorV { initialized: false, keys: seq![], releases: seq![] }
}

/// The view of an optional digest.
pub open spec fn opt_digest_view(d: Option<Digest>) -> Option<Seq<u8>> {
    match d {
        Some(x) => Some(x@),
        None => None,
    }
}

/// One step of the package state machine: applies a single entry signed by
/// `signer`, returning the next state and the content digest the entry
/// requires, if any.
pub open spec fn step_entry(s: PackageValidatorV, signer: Seq<u8>, e: PackageEntryV) -> Result<
    (PackageValidatorV, Option<Seq<u8>>),
    ValidationError,
> {
    match e {
        PackageEntryV::Init { key } => {
            if s.initialized {
                Err(ValidationError::AlreadyInitialized)
            } else if signer != key {
                Err(ValidationError::UnauthorizedSigner)
            } else {
                Ok(
                    (
                        PackageValidatorV {
                            initialized: true,
                            keys: seq![key],
                            releases: s.releases,
                        },
                        None,
                    ),
                )
            }
        },
        PackageEntryV::Grant { key } => {
            if !s.initialized {
                Err(ValidationError::NotInitialized)
            } else if !seq_has(s.keys, signer) {
                Err(ValidationError::UnauthorizedSigner)
            } else if seq_has(s.keys, key) {
                Err(ValidationError::KeyAlreadyAuthorized)
            } else {
                Ok(
                    (
                        PackageValidatorV {
                            initialized: s.initialized,
                            keys: s.keys.push(key),
                            releases: s.releases,
                        },
                        None,
                    ),
                )
            }
        },
        PackageEntryV::Revoke { key } => {
            if !s.initialized {
                Err(ValidationError::NotInitialized)
            } else if !seq_has(s.keys, signer) {
                Err(ValidationError::UnauthorizedSigner)
            } else if !seq_has(s.keys, key) {
                Err(ValidationError::KeyNotAuthorized)
            } else {
                Ok(
                    (
                        PackageValidatorV {
                            initialized: s.initialized,
                            keys: s.keys.remove(seq_first(s.keys, key)),
                            releases: s.releases,
                        },
                        None,
                    ),
                )
            }
        },
        PackageEntryV::Release { version, content } => {
            if !s.initialized {
                Err(ValidationError::NotInitialized)
            } else if !seq_has(s.keys, signer) {
                Err(ValidationError::UnauthorizedSigner)
            } else if match rel_lookup(s.releases, signer) {
                Some(prev) => !version_lt(prev, version),
                None => false,
            } {
                Err(ValidationError::VersionNotIncreasing)
            } else {
                Ok(
                    (
                        PackageValidatorV {
                            initialized: s.initialized,
                            keys: s.keys,
                            releases: rel_set(s.releases, signer, version),
                        },
                        Some(content),
                    ),
                )
            }
        },
    }
}

/// Applies the entries of a record from position `i` on, collecting the
/// required content digests in order.
pub open spec fn apply_from(
    s: PackageValidatorV,
    signer: Seq<u8>,
    entries: Seq<PackageEntryV>,
    i: int,
) -> Result<(PackageValidatorV, Seq<Seq<u8>>), ValidationError>
    decreases entries.len() - i,
{
    if i < 0 || i >= entries.len() {
        Ok((s, seq![]))
    } else {
        match step_entry(s, signer, entries[i]) {
            Err(e) => Err(e),
            Ok((s1, d)) => match apply_from(s1, signer, entries, i + 1) {
                Err(e) => Err(e),
                Ok((s2, ds)) => Ok(
                    (
                        s2,
                        (match d {
                            Some(x) => seq![x],
                            None => seq![],
                        }) + ds,
                    ),
                ),
            },
        }
    }
}

/// What validating a record does: the record must carry at least one
/// operation, and every operation must be accepted in order.
pub open spec fn validate_spec(s: PackageValidatorV, env: PackageRecordEnvelopeV) -> Result<
    (PackageValidatorV, Seq<Seq<u8>>),
    ValidationError,
> {
    if env.contents.entries.len() == 0 {
        Err(ValidationError::EmptyRecord)
    } else {
        apply_from(s, env.key_id, env.contents.entries, 0)
    }
}

/// Finds the first release entry of the given signer.
fn find_release(rels: &Vec<SignerRelease>, k: &KeyId) -> (r: Option<usize>)
    ensures
        match r {
            Some(i) => rel_has(rel_view(rels@), k@) && i < rels@.len() && i == rel_first(
                rel_view(rels@),
                k@,
            ),
            None => !rel_has(rel_view(rels@), k@),
        },
{
    let mut i: usize = 0;
    while i < rels.len()
        invariant
            i <= rels.len(),
            forall|j: int| 0 <= j < i ==> rel_view(rels@)[j].0 != k@,
        decreases rels.len() - i,
    {
        if rels[i].key.equals(k) {
            proof {
                assert(rel_view(rels@)[i as int] == (rels@[i as int].key@, rels@[i as int].version));
                lemma_rel_first_is(rel_view(rels@), k@, i as int);
            }
            return Some(i);
        }
        i = i + 1;
    }
    None
}

/// Applies one entry to the working validator state.
fn apply_entry(v: &mut PackageValidator, signer: &KeyId, e: &PackageEntry) -> (r: Result<
    Option<Digest>,
    ValidationError,
>)
    ensures
        match r {
            Ok(d) => step_entry(old(v)@, signer@, e@) == Ok::<_, ValidationError>(
                (final(v)@, opt_digest_view(d)),
            ),
            Err(er) => final(v)@ == old(v)@ && step_entry(old(v)@, signer@, e@) == Err::<
                (PackageValidatorV, Option<Seq<u8>>),
                _,
            >(er),
        },
{
    match e {
        PackageEntry::Init { key } => {
            if v.initialized {
                return Err(ValidationError::AlreadyInitialized);
            }
            if !signer.equals(key) {
                return Err(ValidationError::UnauthorizedSigner);
            }
            v.initialized = true;
            v.keys = vec![key.dup()];
            proof {
                assert(keys_view(v.keys@) =~= seq![key@]);
            }
            Ok(None)
        },
        PackageEntry::Grant { key } => {
            if !v.initialized {
                return Err(ValidationError::NotInitialized);
            }
            if find_key(&v.keys, signer).is_none() {
                return Err(ValidationError::UnauthorizedSigner);
            }
            if find_key(&v.keys, key).is_some() {
                return Err(ValidationError::KeyAlreadyAuthorized);
            }
            let ghost pre = keys_view(v.keys@);
            v.keys.push(key.dup());
            proof {
                assert(keys_view(v.keys@) =~= pre.push(key@));
            }
            Ok(None)
        },
        PackageEntry::Revoke { key } => {
            if !v.initialized {
                return Err(ValidationError::NotInitialized);
            }
            if find_key(&v.keys, signer).is_none() {
                return Err(ValidationError::UnauthorizedSigner);
            }
            match find_key(&v.keys, key) {
                None => Err(ValidationError::KeyNotAuthorized),
                Some(i) => {
                    let ghost pre = keys_view(v.keys@);
                    v.keys.remove(i);
                    proof {
                        assert(keys_view(v.keys@) =~= pre.remove(i as int));
                    }
                    Ok(None)
                },
            }
        },
        PackageEntry::Release { version, content } => {
            if !v.initialized {
                return Err(ValidationError::NotInitialized);
            }
            if find_key(&v.keys, signer).is_none() {
                return Err(ValidationError::UnauthorizedSigner);
            }
            let ghost pre = rel_view(v.releases@);
            match find_release(&v.releases, signer) {
                Some(i) => {
                    if !v.releases[i].version.lt(version) {
                        return Err(ValidationError::VersionNotIncreasing);
                    }
                    v.releases[i] = SignerRelease { key: signer.dup(), version: *version };
                    proof {
                        assert(rel_view(v.releases@) =~= pre.update(i as int, (signer@, *version)));
                    }
                },
                None => {
                    v.releases.push(SignerRelease { key: signer.dup(), version: *version });
                    proof {
                        assert(rel_view(v.releases@) =~= pre.push((signer@, *version)));
                    }
                },
            }
            Ok(Some(content.dup()))
        },
    }
}

impl PackageValidator {
    /// A fresh validator for a log that has no records yet.
    pub fn new() -> (r: PackageValidator)
        ensures
            r@ == (PackageValidatorV { initialized: false, keys: seq![], releases: seq![] }),
    {
        let r = PackageValidator { initialized: false, keys: Vec::new(), releases: Vec::new() };
        proof {
            assert(r@ =~= PackageValidatorV { initialized: false, keys: seq![], releases: seq![] });
        }
        r
    }

    /// Captures a restorable copy of the validator's current state.
    pub fn snapshot(&self) -> (r: PackageValidator)
        ensures
            r@ == self@,
    {
        let mut keys: Vec<KeyId> = Vec::new();
        let mut i: usize = 0;
        while i < self.keys.len()
            invariant
                i <= self.keys.len(),
                keys@.len() == i,
                forall|j: int| 0 <= j < i ==> keys@[j]@ == self.keys@[j]@,
            decreases self.keys.len() - i,
        {
            keys.push(self.keys[i].dup());
            i = i + 1;
        }
        let mut releases: Vec<SignerRelease> = Vec::new();
        let mut j: usize = 0;
        while j < self.releases.len()
            invariant
                j <= self.releases.len(),
                releases@.len() == j,
                forall|l: int|
                    0 <= l < j ==> releases@[l].key@ == self.releases@[l].key@ && releases@[l].version
                        == self.releases@[l].version,
            decreases self.releases.len() - j,
        {
            releases.push(
                SignerRelease {
                    key: self.releases[j].key.dup(),
                    version: self.releases[j].version,
                },
            );
            j = j + 1;
        }
        let r = PackageValidator { initialized: self.initialized, keys, releases };
        proof {
            assert(keys_view(r.keys@) =~= keys_view(self.keys@));
            assert(rel_view(r.releases@) =~= rel_view(self.releases@));
            assert(r@ =~= self@);
        }
        r
    }

    /// Restores the validator to a previously captured snapshot.
    pub fn rollback(&mut self, snapshot: PackageValidator)
        ensures
            final(self)@ == snapshot@,
    {
        *self = snapshot;
    }

    /// Validates a record against the current state. On success the state
    /// advances and the digests required by the record's releases are
    /// returned in order; on failure the state is unchanged.
    pub fn validate(&mut self, env: &PackageRecordEnvelope) -> (r: Result<
        Vec<Digest>,
        ValidationError,
    >)
        ensures
            match r {
                Ok(ds) => ({
                    let vr = validate_spec(old(self)@, env@);
                    vr is Ok && vr->Ok_0.0 == final(self)@ && vr->Ok_0.1 == ds@.map_values(
                        |d: Digest| d@,
                    )
                }),
                Err(er) => final(self)@ == old(self)@ && validate_spec(old(self)@, env@) == Err::<
                    (PackageValidatorV, Seq<Seq<u8>>),
                    _,
                >(er),
            },
    {
        if env.contents.entries.len() == 0 {
            return Err(ValidationError::EmptyRecord);
        }
        let ghost s0 = self@;
        let ghost entries_v = env@.contents.entries;
        let mut work = self.snapshot();
        let mut digests: Vec<Digest> = Vec::new();
        let n = env.contents.entries.len();
        let mut i: usize = 0;
        while i < n
            invariant
                i <= n,
                n == env.contents.entries@.len(),
                entries_v == env@.contents.entries,
                old(self)@ == s0,
                self@ == s0,
                entries_v.len() == n,
                ({
                    let full = apply_from(s0, env@.key_id, entries_v, 0);
                    match apply_from(work@, env@.key_id, entries_v, i as int) {
                        Ok(p) => full == Ok::<_, ValidationError>(
                            (p.0, digests@.map_values(|d: Digest| d@) + p.1),
                        ),
                        Err(er) => full == Err::<(PackageValidatorV, Seq<Seq<u8>>), _>(er),
                    }
                }),
            decreases n - i,
        {
            let ghost work_pre = work@;
            let ghost digests_pre = digests@.map_values(|d: Digest| d@);
            let e = &env.contents.entries[i];
            proof {
                assert(entries_v[i as int] == env.contents.entries@[i as int]@);
            }
            match apply_entry(&mut work, &env.key_id, e) {
                Err(er) => {
                    proof {
                        assert(apply_from(work_pre, env@.key_id, entries_v, i as int) == Err::<
                            (PackageValidatorV, Seq<Seq<u8>>),
                            _,
                        >(er));
                        assert(apply_from(s0, env@.key_id, entries_v, 0) == Err::<
                            (PackageValidatorV, Seq<Seq<u8>>),
                            _,
                        >(er));
                        assert(env@.contents.entries.len() != 0);
                        assert(validate_spec(old(self)@, env@) == Err::<
                            (PackageValidatorV, Seq<Seq<u8>>),
                            _,
                        >(er));
                    }
                    return Err(er);
                },
                Ok(d) => {
                    let ghost dpart = match opt_digest_view(d) {
                        Some(x) => seq![x],
                        None => Seq::<Seq<u8>>::empty(),
                    };
                    match d {
                        Some(dg) => {
                            digests.push(dg);
                            proof {
                                assert(digests@.map_values(|d: Digest| d@) =~= digests_pre + dpart);
                            }
                        },
                        None => {
                            proof {
                                assert(digests@.map_values(|d: Digest| d@) =~= digests_pre + dpart);
                            }
                        },
                    }
                    i = i + 1;
                    proof {
                        let full = apply_from(s0, env@.key_id, entries_v, 0);
                        match apply_from(work@, env@.key_id, entries_v, i as int) {
                            Ok(p) => {
                                assert((digests_pre + dpart) + p.1 =~= digests_pre + (dpart + p.1));
                            },
                            Err(er) => {},
                        }
                    }
                },
            }
        }
        proof {
            let full = apply_from(s0, env@.key_id, entries_v, 0);
            assert(apply_from(work@, env@.key_id, entries_v, n as int) == Ok::<
                _,
                ValidationError,
            >((work@, Seq::<Seq<u8>>::empty())));
            assert(digests@.map_values(|d: Digest| d@) + Seq::<Seq<u8>>::empty() =~= digests@
                .map_values(|d: Digest| d@));
        }
        *self = work;
        Ok(digests)
    }
}

} // verus!
