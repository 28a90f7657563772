//! Deterministic 64-bit fold hashing over bytes and storage journals.
//!
//! The chain needs a deterministic digest of state and of a block's
//! transactions; cryptographic strength is a pluggable primitive outside this
//! core, so a simple multiply-and-xor fold stands in for it.  Every node folds
//! the same bytes in the same order and reaches the same digest.

use vstd::prelude::*;
use crate::storage::Entry;

verus! {

/// Seed of the 64-bit fold hash.
pub const HASH_SEED: u64 = 0xcbf2_9ce4_8422_2325;

/// Multiplier of the 64-bit fold hash.
pub const HASH_PRIME: u64 = 0x0000_0100_0000_01b3;

/// Folds one 64-bit word into a running digest.
pub open spec fn mix(h: u64, x: u64) -> u64 {
    vstd::wrapping::u64_specs::wrapping_mul(h ^ x, HASH_PRIME)
}

/// Folds a byte string into a running digest, first byte first.
pub open spec fn fold_bytes(h: u64, s: Seq<u8>) -> u64
    decreases s.len(),
{
    if s.len() == 0 {
        h
    } else {
        mix(fold_bytes(h, s.drop_last()), s.last() as u64)
    }
}

/// Folds one journal entry into a running digest; writes and removals are
/// kept apart by a domain tag.
pub open spec fn fold_entry(h: u64, e: Entry) -> u64 {
    match e.val {
        Option::Some(v) => fold_bytes(mix(fold_bytes(mix(h, 1), e.key@), 2), v@),
        Option::None => fold_bytes(mix(h, 3), e.key@),
    }
}

/// Folds a whole journal into a running digest, oldest entry first.
pub open spec fn fold_entries(h: u64, s: Seq<Entry>) -> u64
    decreases s.len(),
{
    if s.len() == 0 {
        h
    } else {
        fold_entry(fold_entries(h, s.drop_last()), s.last())
    }
}

/// The state root over a committed journal.
pub open spec fn root_of(s: Seq<Entry>) -> u64 {
    fold_entries(HASH_SEED, s)
}

/// Folding a concatenated journal folds the parts in turn.
pub proof fn lemma_fold_entries_concat(h: u64, a: Seq<Entry>, b: Seq<Entry>)
    ensures
        fold_entries(h, a + b) == fold_entries(fold_entries(h, a), b),
    decreases b.len(),
{
    if b.len() == 0 {
        assert(a + b =~= a);
    } else {
        assert((a + b).drop_last() =~= a + b.drop_last());
        assert((a + b).last() == b.last());
        lemma_fold_entries_concat(h, a, b.drop_last());
    }
}

/// Folds one 64-bit word into a running digest.
pub fn mix_word(h: u64, x: u64) -> (r: u64)
    ensures
        r == mix(h, x),
{
    (h ^ x).wrapping_mul(HASH_PRIME)
}

/// Folds a byte string into a running digest.
pub fn hash_bytes(h: u64, s: &Vec<u8>) -> (r: u64)
    ensures
        r == fold_bytes(h, s@),
{
    let mut acc = h;
    let mut i: usize = 0;
    while i < s.len()
        invariant
            i <= s@.len(),
            acc == fold_bytes(h, s@.take(i as int)),
        decreases s@.len() - i,
    {
        proof {
            assert(s@.take(i + 1).drop_last() =~= s@.take(i as int));
            assert(s@.take(i + 1).last() == s@[i as int]);
        }
        acc = mix_word(acc, s[i] as u64);
        i = i + 1;
    }
    proof {
        assert(s@.take(s@.len() as int) =~= s@);
    }
    acc
}

/// Folds one journal entry into a running digest.
pub fn hash_entry(h: u64, e: &Entry) -> (r: u64)
    ensures
        r == fold_entry(h, *e),
{
    match &e.val {
        Option::Some(v) => {
            let hk = hash_bytes(mix_word(h, 1), &e.key);
            hash_bytes(mix_word(hk, 2), v)
        },
        Option::None => hash_bytes(mix_word(h, 3), &e.key),
    }
}

/// Folds a whole journal into a running digest.
pub fn hash_entries(h: u64, s: &Vec<Entry>) -> (r: u64)
    ensures
        r == fold_entries(h, s@),
{
    let mut acc = h;
    let mut i: usize = 0;
    while i < s.len()
        invariant
            i <= s@.len(),
            acc == fold_entries(h, s@.take(i as int)),
        decreases s@.len() - i,
    {
        proof {
            assert(s@.take(i + 1).drop_last() =~= s@.take(i as int));
            assert(s@.take(i + 1).last() == s@[i as int]);
        }
        acc = hash_entry(acc, &s[i]);
        i = i + 1;
    }
    proof {
        assert(s@.take(s@.len() as int) =~= s@);
    }
    acc
}

} // verus!
