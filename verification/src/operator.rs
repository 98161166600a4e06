//! The operator-log validator: the state machine over operator records
//! (registry keys and permissions). Structurally a restriction of the
//! package validator: no release operations.

use vstd::prelude::*;
use crate::digest::KeyId;
use crate::keyset::{find_key, keys_view, seq_first, seq_has};
use crate::package::ValidationError;
use crate::records::{OperatorEntry, OperatorEntryV, OperatorRecordEnvelope,
    OperatorRecordEnvelopeV};

verus! {

/// The state of the operator-log validator.
#[derive(Debug, Clone, PartialEq, Eq)]
pub struct OperatorValidator {
    pub initialized: bool,
    pub keys: Vec<KeyId>,
}

/// Ghost mirror of `OperatorValidator`.
#[verifier::ext_equal]
pub struct OperatorValidatorV {
    pub initialized: bool,
    pub keys: Seq<Seq<u8>>,
}

impl View for OperatorValidator {
    type V = OperatorValidatorV;

    open spec fn view(&self) -> OperatorValidatorV {
        OperatorValidatorV { initialized: self.initialized, keys: keys_view(self.keys@) }
    }
}

/// One step of the operator state machine.
pub open spec fn op_step_entry(s: OperatorValidatorV, signer: Seq<u8>, e: OperatorEntryV) -> Result<
    OperatorValidatorV,
    ValidationError,
> {
    match e {
        OperatorEntryV::Init { key } => {
            if s.initialized {
                Err(ValidationError::AlreadyInitialized)
            } else if signer != key {
                Err(ValidationError::UnauthorizedSigner)
            } else {
                Ok(OperatorValidatorV { initialized: true, keys: seq![key] })
            }
        },
        OperatorEntryV::Grant { key } => {
            if !s.initialized {
                Err(ValidationError::NotInitialized)
            } else if !seq_has(s.keys, signer) {
                Err(ValidationError::UnauthorizedSigner)
            } else if seq_has(s.keys, key) {
                Err(ValidationError::KeyAlreadyAuthorized)
            } else {
                Ok(OperatorValidatorV { initialized: s.initialized, keys: s.keys.push(key) })
            }
        },
        OperatorEntryV::Revoke { key } => {
            if !s.initialized {
                Err(ValidationError::NotInitialized)
            } else if !seq_has(s.keys, signer) {
                Err(ValidationError::UnauthorizedSigner)
            } else if !seq_has(s.keys, key) {
                Err(ValidationError::KeyNotAuthorized)
            } else {
                Ok(
                    OperatorValidatorV {
                        initialized: s.initialized,
                        keys: s.keys.remove(seq_first(s.keys, key)),
                    },
                )
            }
        },
    }
}

/// Applies the entries of an operator record from position `i` on.
pub open spec fn op_apply_from(
    s: OperatorValidatorV,
    signer: Seq<u8>,
    entries: Seq<OperatorEntryV>,
    i: int,
) -> Result<OperatorValidatorV, ValidationError>
    decreases entries.len() - i,
{
    if i < 0 || i >= entries.len() {
        Ok(s)
    } else {
        match op_step_entry(s, signer, entries[i]) {
            Err(e) => Err(e),
            Ok(s1) => op_apply_from(s1, signer, entries, i + 1),
        }
    }
}

/// What validating an operator record does.
pub open spec fn op_validate_spec(s: OperatorValidatorV, env: OperatorRecordEnvelopeV) -> Result<
    OperatorValidatorV,
    ValidationError,
> {
    if env.contents.entries.len() == 0 {
        Err(ValidationError::EmptyRecord)
    } else {
        op_apply_from(s, env.key_id, env.contents.entries, 0)
    }
}

/// Applies one entry to the working operator state.
fn op_apply_entry(v: &mut OperatorValidator, signer: &KeyId, e: &OperatorEntry) -> (r: Result<
    (),
    ValidationError,
>)
    ensures
        match r {
            Ok(_) => op_step_entry(old(v)@, signer@, e@) == Ok::<_, ValidationError>(final(v)@),
            Err(er) => final(v)@ == old(v)@ && op_step_entry(old(v)@, signer@, e@) == Err::<
                OperatorValidatorV,
                _,
            >(er),
        },
{
    match e {
        OperatorEntry::Init { key } => {
            if v.initialized {
                return Err(ValidationError::AlreadyInitialized);
            }
            if !signer.equals(key) {
                return Err(ValidationError::UnauthorizedSigner);
            }
            v.initialized = true;
            v.keys = vec![key.dup()];
            proof {
                assert(keys_view(v.keys@) =~= seq![key@]);
            }
            Ok(())
        },
        OperatorEntry::Grant { key } => {
            if !v.initialized {
                return Err(ValidationError::NotInitialized);
            }
            if find_key(&v.keys, signer).is_none() {
                return Err(ValidationError::UnauthorizedSigner);
            }
            if find_key(&v.keys, key).is_some() {
                return Err(ValidationError::KeyAlreadyAuthorized);
            }
            let ghost pre = keys_view(v.keys@);
            v.keys.push(key.dup());
            proof {
                assert(keys_view(v.keys@) =~= pre.push(key@));
            }
            Ok(())
        },
        OperatorEntry::Revoke { key } => {
            if !v.initialized {
                return Err(ValidationError::NotInitialized);
            }
            if find_key(&v.keys, signer).is_none() {
                return Err(ValidationError::UnauthorizedSigner);
            }
            match find_key(&v.keys, key) {
                None => Err(ValidationError::KeyNotAuthorized),
                Some(i) => {
                    let ghost pre = keys_view(v.keys@);
                    v.keys.remove(i);
                    proof {
                        assert(keys_view(v.keys@) =~= pre.remove(i as int));
                    }
                    Ok(())
                },
            }
        },
    }
}

impl OperatorValidator {
    /// A fresh validator for an operator log that has no records yet.
    pub fn new() -> (r: OperatorValidator)
        ensures
            r@ == (OperatorValidatorV { initialized: false, keys: seq![] }),
    {
        let r = OperatorValidator { initialized: false, keys: Vec::new() };
        proof {
            assert(r@ =~= OperatorValidatorV { initialized: false, keys: seq![] });
        }
        r
    }

    /// Captures a restorable copy of the validator's current state.
    pub fn snapshot(&self) -> (r: OperatorValidator)
        ensures
            r@ == self@,
    {
        let mut keys: Vec<KeyId> = Vec::new();
        let mut i: usize = 0;
        while i < self.keys.len()
            invariant
                i <= self.keys.len(),
                keys@.len() == i,
                forall|j: int| 0 <= j < i ==> keys@[j]@ == self.keys@[j]@,
            decreases self.keys.len() - i,
        {
            keys.push(self.keys[i].dup());
            i = i + 1;
        }
        let r = OperatorValidator { initialized: self.initialized, keys };
        proof {
            assert(keys_view(r.keys@) =~= keys_view(self.keys@));
            assert(r@ =~= self@);
        }
        r
    }

    /// Restores the validator to a previously captured snapshot.
    pub fn rollback(&mut self, snapshot: OperatorValidator)
        ensures
            final(self)@ == snapshot@,
    {
        *self = snapshot;
    }

    /// Validates an operator record against the current state. On success
    /// the state advances; on failure it is unchanged.
    pub fn validate(&mut self, env: &OperatorRecordEnvelope) -> (r: Result<(), ValidationError>)
        ensures
            match r {
                Ok(_) => op_validate_spec(old(self)@, env@) == Ok::<_, ValidationError>(
                    final(self)@,
                ),
                Err(er) => final(self)@ == old(self)@ && op_validate_spec(old(self)@, env@)
                    == Err::<OperatorValidatorV, _>(er),
            },
    {
        if env.contents.entries.len() == 0 {
            return Err(ValidationError::EmptyRecord);
        }
        let ghost s0 = self@;
        let ghost entries_v = env@.contents.entries;
        let mut work = self.snapshot();
        let n = env.contents.entries.len();
        let mut i: usize = 0;
        while i < n
            invariant
                i <= n,
                n == env.contents.entries@.len(),
                entries_v == env@.contents.entries,
                entries_v.len() == n,
                old(self)@ == s0,
                self@ == s0,
                op_apply_from(s0, env@.key_id, entries_v, 0) == op_apply_from(
                    work@,
                    env@.key_id,
                    entries_v,
                    i as int,
                ),
            decreases n - i,
        {
            let ghost work_pre = work@;
            let e = &env.contents.entries[i];
            proof {
                assert(entries_v[i as int] == env.contents.entries@[i as int]@);
            }
            match op_apply_entry(&mut work, &env.key_id, e) {
                Err(er) => {
                    proof {
                        assert(op_apply_from(work_pre, env@.key_id, entries_v, i as int) == Err::<
                            OperatorValidatorV,
                            _,
                        >(er));
                        assert(env@.contents.entries.len() != 0);
                    }
                    return Err(er);
                },
                Ok(_) => {
                    i = i + 1;
                },
            }
        }
        *self = work;
        Ok(())
    }
}

} // verus!
