//! The system module: per-account nonces and per-transaction outcome events.
//!
//! The nonce is a strictly increasing counter that makes every transaction of
//! an account unique, preventing replay.

use vstd::prelude::*;
use crate::{AccountId, Nonce};
use crate::calls::SYSTEM_MODULE_ID;
use crate::codec::{u32_from_le, u32_le_bytes, u32_to_le, u64_le_bytes, u64_to_le, read_u32, lemma_u32_round_trip};
use crate::dispatch::DispatchError;
use crate::storage::Storage;
use crate::weights::Weight;

verus! {

/// Events the system module records about each included transaction.
#[derive(PartialEq, Eq, Structural, Clone, Copy, Debug)]
pub enum SystemEvent {
    /// The transaction was dispatched and its handler succeeded.
    ExtrinsicSuccess {
        /// The actual cost charged for the dispatch.
        weight: Weight,
    },
    /// The transaction was included but its handler failed; its state changes
    /// were rolled back.
    ExtrinsicFailed {
        /// Why the dispatch failed.
        error: DispatchError,
    },
}

/// The storage key holding an account's nonce.
pub open spec fn nonce_key_spec(who: AccountId) -> Seq<u8> {
    seq![SYSTEM_MODULE_ID, 0u8] + u64_le_bytes(who)
}

/// Builds the storage key holding an account's nonce.
pub fn nonce_key(who: AccountId) -> (k: Vec<u8>)
    ensures
        k@ == nonce_key_spec(who),
{
    let mut k: Vec<u8> = Vec::new();
    k.push(SYSTEM_MODULE_ID);
    k.push(0u8);
    let mut acct = u64_to_le(who);
    k.append(&mut acct);
    proof {
        assert(k@ =~= nonce_key_spec(who));
    }
    k
}

/// The nonce of an account under a storage view; an account never credited
/// starts at zero.
pub open spec fn nonce_of(s: Storage, who: AccountId) -> Nonce {
    match s.lookup(nonce_key_spec(who)) {
        Option::Some(v) => if v.len() == 4 {
            u32_from_le(v)
        } else {
            0
        },
        Option::None => 0,
    }
}

/// Reads an account's nonce.
pub fn get_nonce(s: &Storage, who: AccountId) -> (n: Nonce)
    requires
        s.wf(),
    ensures
        n == nonce_of(*s, who),
{
    let key = nonce_key(who);
    match s.get(&key) {
        Option::Some(v) => {
            if v.len() == 4 {
                let n = read_u32(&v, 0);
                proof {
                    assert(v@.subrange(0, 4) =~= v@);
                }
                n
            } else {
                0
            }
        },
        Option::None => 0,
    }
}

/// Writes an account's nonce.
pub fn set_nonce(s: &mut Storage, who: AccountId, n: Nonce)
    requires
        old(s).wf(),
    ensures
        final(s).wf(),
        final(s).depth() == old(s).depth(),
        final(s).layers@.drop_last() == old(s).layers@.drop_last(),
        nonce_of(*final(s), who) == n,
        final(s).lookup(nonce_key_spec(who)) == Option::Some(u32_le_bytes(n)),
        forall|k: Seq<u8>| k != nonce_key_spec(who) ==> final(s).lookup(k) == old(s).lookup(k),
    {
    let key = nonce_key(who);
    let value = u32_to_le(n);
    s.set(key, value);
    proof {
        lemma_u32_round_trip(n);
    }
}

} // verus!
