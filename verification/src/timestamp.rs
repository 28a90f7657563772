//! The timestamp module: stores the current block's timestamp, set once per
//! block by a mandatory inherent and required to move strictly forward.

use vstd::prelude::*;
use crate::calls::{Origin, TIMESTAMP_MODULE_ID};
use crate::codec::{u64_from_le, u64_le_bytes, u64_to_le, read_u64, lemma_u64_round_trip};
use crate::dispatch::{DispatchError, ModuleError};
use crate::storage::Storage;

verus! {

/// Errors of the timestamp module.
#[derive(PartialEq, Eq, Structural, Clone, Copy, Debug)]
pub enum TimestampError {
    /// The new timestamp does not lie strictly after the stored one.
    MustIncrease,
}

/// The storage key holding the chain's timestamp.
pub open spec fn now_key_spec() -> Seq<u8> {
    seq![TIMESTAMP_MODULE_ID, 0u8]
}

/// Builds the storage key holding the chain's timestamp.
pub fn now_key() -> (k: Vec<u8>)
    ensures
        k@ == now_key_spec(),
{
    let mut k: Vec<u8> = Vec::new();
    k.push(TIMESTAMP_MODULE_ID);
    k.push(0u8);
    proof {
        assert(k@ =~= now_key_spec());
    }
    k
}

/// The stored timestamp under a storage view, if any was ever set.
pub open spec fn now_of(s: Storage) -> Option<u64> {
    match s.lookup(now_key_spec()) {
        Option::Some(v) => if v.len() == 8 {
            Option::Some(u64_from_le(v))
        } else {
            Option::None
        },
        Option::None => Option::None,
    }
}

/// Reads the stored timestamp.
pub fn get_now(s: &Storage) -> (r: Option<u64>)
    requires
        s.wf(),
    ensures
        r == now_of(*s),
{
    let key = now_key();
    match s.get(&key) {
        Option::Some(v) => {
            if v.len() == 8 {
                let n = read_u64(&v, 0);
                proof {
                    assert(v@.subrange(0, 8) =~= v@);
                }
                Option::Some(n)
            } else {
                Option::None
            }
        },
        Option::None => Option::None,
    }
}

/// Whether a new timestamp may replace the stored one: it must lie strictly
/// after it, and anything is accepted when none was ever stored.
pub open spec fn now_acceptable(prev: Option<u64>, now: u64) -> bool {
    match prev {
        Option::Some(p) => now > p,
        Option::None => true,
    }
}

/// The handler of the timestamp-setting inherent: requires the unauthenticated
/// origin and a timestamp strictly after the stored one.
pub fn set_now(origin: Origin, now: u64, s: &mut Storage) -> (r: Result<(), DispatchError>)
    requires
        old(s).wf(),
    ensures
        final(s).wf(),
        final(s).depth() == old(s).depth(),
        final(s).layers@.drop_last() == old(s).layers@.drop_last(),
        (match origin {
            Origin::Unsigned => {
                if now_acceptable(now_of(*old(s)), now) {
                    r == Result::<(), DispatchError>::Ok(())
                        && now_of(*final(s)) == Option::Some(now)
                        && final(s).lookup(now_key_spec()) == Option::Some(u64_le_bytes(now))
                        && (forall|k: Seq<u8>| k != now_key_spec() ==> final(s).lookup(k)
                            == old(s).lookup(k))
                } else {
                    r == Result::<(), DispatchError>::Err(DispatchError::Module(
                        ModuleError::Timestamp(TimestampError::MustIncrease)))
                        && *final(s) == *old(s)
                }
            },
            _ => r == Result::<(), DispatchError>::Err(DispatchError::BadOrigin)
                && *final(s) == *old(s),
        }),
{
    match origin {
        Origin::Unsigned => {
            let prev = get_now(s);
            let ok = match prev {
                Option::Some(p) => now > p,
                Option::None => true,
            };
            if ok {
                let key = now_key();
                let value = u64_to_le(now);
                s.set(key, value);
                proof {
                    lemma_u64_round_trip(now);
                }
                Result::Ok(())
            } else {
                Result::Err(DispatchError::Module(ModuleError::Timestamp(
                    TimestampError::MustIncrease)))
            }
        },
        _ => Result::Err(DispatchError::BadOrigin),
    }
}

} // verus!
