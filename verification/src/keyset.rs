//! Verified helpers over sequences of byte strings (key sets, hash lists)
//! and over sequences of indices (checkpoint index lists).

use vstd::prelude::*;
use crate::digest::KeyId;

verus! {

/// Whether `x` occurs in `s`.
pub open spec fn seq_has(s: Seq<Seq<u8>>, x: Seq<u8>) -> bool {
    exists|i: int| 0 <= i < s.len() && s[i] == x
}

/// The index of the first occurrence of `x` in `s`.
pub open spec fn seq_first(s: Seq<Seq<u8>>, x: Seq<u8>) -> int
    decreases s.len(),
{
    if s.len() == 0 {
        0
    } else if s[0] == x {
        0
    } else {
        1 + seq_first(s.drop_first(), x)
    }
}

/// `seq_first` returns the first occurrence: in bounds, matching, and with
/// no earlier match.
pub proof fn lemma_seq_first(s: Seq<Seq<u8>>, x: Seq<u8>)
    requires
        seq_has(s, x),
    ensures
        0 <= seq_first(s, x) < s.len(),
        s[seq_first(s, x)] == x,
        forall|j: int| 0 <= j < seq_first(s, x) ==> s[j] != x,
    decreases s.len(),
{
    if s.len() > 0 && s[0] != x {
        let i = choose|i: int| 0 <= i < s.len() && s[i] == x;
        assert(s.drop_first()[i - 1] == x);
        lemma_seq_first(s.drop_first(), x);
        assert forall|j: int| 0 <= j < seq_first(s, x) implies s[j] != x by {
            if j > 0 {
                assert(s.drop_first()[j - 1] == s[j]);
            }
        }
    }
}

/// Any index with the first-occurrence property equals `seq_first`.
pub proof fn lemma_seq_first_is(s: Seq<Seq<u8>>, x: Seq<u8>, i: int)
    requires
        0 <= i < s.len(),
        s[i] == x,
        forall|j: int| 0 <= j < i ==> s[j] != x,
    ensures
        seq_first(s, x) == i,
{
    assert(seq_has(s, x));
    lemma_seq_first(s, x);
}

/// The view of a vector of key ids: the sequence of their byte strings.
pub open spec fn keys_view(keys: Seq<KeyId>) -> Seq<Seq<u8>> {
    keys.map_values(|k: KeyId| k@)
}

/// Finds the first occurrence of a key in a list of keys.
pub fn find_key(keys: &Vec<KeyId>, k: &KeyId) -> (r: Option<usize>)
    ensures
        match r {
            Some(i) => seq_has(keys_view(keys@), k@) && i < keys@.len() && i == seq_first(
                keys_view(keys@),
                k@,
            ),
            None => !seq_has(keys_view(keys@), k@),
        },
{
    let mut i: usize = 0;
    while i < keys.len()
        invariant
            i <= keys.len(),
            forall|j: int| 0 <= j < i ==> keys_view(keys@)[j] != k@,
        decreases keys.len() - i,
    {
        if keys[i].equals(k) {
            proof {
                lemma_seq_first_is(keys_view(keys@), k@, i as int);
            }
            return Some(i);
        }
        i = i + 1;
    }
    None
}

/// Whether the sequence of indices is non-decreasing.
pub open spec fn non_decreasing(s: Seq<usize>) -> bool {
    forall|i: int, j: int| 0 <= i && i <= j && j < s.len() ==> s[i] <= s[j]
}

/// How many entries among the first `i` of `s` are at most `k`.
pub open spec fn count_le_upto(s: Seq<usize>, k: usize, i: int) -> int
    decreases i,
{
    if i <= 0 {
        0
    } else {
        count_le_upto(s, k, i - 1) + if s[i - 1] <= k {
            1int
        } else {
            0int
        }
    }
}

/// How many entries of `s` are at most `k`.
pub open spec fn count_le(s: Seq<usize>, k: usize) -> int {
    count_le_upto(s, k, s.len() as int)
}

/// The count over a prefix is bounded by the prefix length.
pub proof fn lemma_count_le_upto_bound(s: Seq<usize>, k: usize, i: int)
    requires
        0 <= i <= s.len(),
    ensures
        0 <= count_le_upto(s, k, i) <= i,
    decreases i,
{
    if i > 0 {
        lemma_count_le_upto_bound(s, k, i - 1);
    }
}

/// Over a non-decreasing sequence, the entries at most `k` form exactly the
/// prefix of length `count_le`.
pub proof fn lemma_count_le_split(s: Seq<usize>, k: usize, i: int)
    requires
        0 <= i <= s.len(),
        non_decreasing(s),
    ensures
        0 <= count_le_upto(s, k, i) <= i,
        forall|j: int| 0 <= j < count_le_upto(s, k, i) ==> s[j] <= k,
        forall|j: int| count_le_upto(s, k, i) <= j < i ==> s[j] > k,
    decreases i,
{
    lemma_count_le_upto_bound(s, k, i);
    if i > 0 {
        lemma_count_le_split(s, k, i - 1);
        let c = count_le_upto(s, k, i - 1);
        if s[i - 1] <= k {
            assert forall|j: int| c <= j < i - 1 implies #[trigger] s[j] > k by {
                assert(s[j] <= s[i - 1]);
            }
        }
    }
}

/// Counts how many entries of `indices` are at most `checkpoint_index`.
/// Over a non-decreasing list this is the length of the prefix of entries
/// promoted under checkpoints up to `checkpoint_index`.
pub fn get_records_before_checkpoint(indices: &Vec<usize>, checkpoint_index: usize) -> (r: usize)
    ensures
        r == count_le(indices@, checkpoint_index),
        0 <= r <= indices@.len(),
{
    let mut c: usize = 0;
    let mut i: usize = 0;
    while i < indices.len()
        invariant
            i <= indices.len(),
            c == count_le_upto(indices@, checkpoint_index, i as int),
            c <= i,
        decreases indices.len() - i,
    {
        if indices[i] <= checkpoint_index {
            c = c + 1;
        }
        i = i + 1;
    }
    proof {
        lemma_count_le_upto_bound(indices@, checkpoint_index, indices@.len() as int);
    }
    c
}

} // verus!
