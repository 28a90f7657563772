//! The balances module: per-account balances, transfers and fee handling.
//!
//! An account is created implicitly on first credit and never destroyed; a
//! drained account simply holds a zero balance.

use vstd::prelude::*;
use crate::{AccountId, Balance, BlockNumber};
use crate::calls::{Origin, BALANCES_MODULE_ID};
use crate::codec::{u128_from_le, u128_le_bytes, u128_to_le, u64_le_bytes, u64_to_le, read_u128,
    lemma_u128_round_trip, lemma_u64_round_trip};
use crate::dispatch::{DispatchError, ModuleError};
use crate::events::{EventRecord, RuntimeEvent};
use crate::storage::Storage;

verus! {

/// Errors of the balances module.
#[derive(PartialEq, Eq, Structural, Clone, Copy, Debug)]
pub enum BalancesError {
    /// The sender's balance does not cover the transfer.
    InsufficientBalance,
    /// Crediting the destination would overflow its balance.
    Overflow,
}

/// Events of the balances module.
#[derive(PartialEq, Eq, Structural, Clone, Copy, Debug)]
pub enum BalancesEvent {
    /// Units moved from one account to another.
    Transferred {
        /// The account debited.
        from: AccountId,
        /// The account credited.
        to: AccountId,
        /// The amount moved.
        amount: Balance,
    },
}

/// The storage key holding an account's balance.
pub open spec fn balance_key_spec(who: AccountId) -> Seq<u8> {
    seq![BALANCES_MODULE_ID, 0u8] + u64_le_bytes(who)
}

/// Builds the storage key holding an account's balance.
pub fn balance_key(who: AccountId) -> (k: Vec<u8>)
    ensures
        k@ == balance_key_spec(who),
{
    let mut k: Vec<u8> = Vec::new();
    k.push(BALANCES_MODULE_ID);
    k.push(0u8);
    let mut acct = u64_to_le(who);
    k.append(&mut acct);
    proof {
        assert(k@ =~= balance_key_spec(who));
    }
    k
}

/// Different accounts keep their balances under different keys.
pub proof fn lemma_balance_key_injective(a: AccountId, b: AccountId)
    ensures
        a != b ==> balance_key_spec(a) != balance_key_spec(b),
{
    if a != b && balance_key_spec(a) == balance_key_spec(b) {
        assert(balance_key_spec(a).subrange(2, 10) =~= u64_le_bytes(a));
        assert(balance_key_spec(b).subrange(2, 10) =~= u64_le_bytes(b));
        lemma_u64_round_trip(a);
        lemma_u64_round_trip(b);
    }
}

/// The balance of an account under a storage view; an account never credited
/// holds zero.
pub open spec fn balance_of(s: Storage, who: AccountId) -> Balance {
    match s.lookup(balance_key_spec(who)) {
        Option::Some(v) => if v.len() == 16 {
            u128_from_le(v)
        } else {
            0
        },
        Option::None => 0,
    }
}

/// Reads an account's balance.
pub fn get_balance(s: &Storage, who: AccountId) -> (b: Balance)
    requires
        s.wf(),
    ensures
        b == balance_of(*s, who),
{
    let key = balance_key(who);
    match s.get(&key) {
        Option::Some(v) => {
            if v.len() == 16 {
                let b = read_u128(&v, 0);
                proof {
                    assert(v@.subrange(0, 16) =~= v@);
                }
                b
            } else {
                0
            }
        },
        Option::None => 0,
    }
}

/// Writes an account's balance.
pub fn set_balance(s: &mut Storage, who: AccountId, b: Balance)
    requires
        old(s).wf(),
    ensures
        final(s).wf(),
        final(s).depth() == old(s).depth(),
        final(s).layers@.drop_last() == old(s).layers@.drop_last(),
        balance_of(*final(s), who) == b,
        final(s).lookup(balance_key_spec(who)) == Option::Some(u128_le_bytes(b)),
        forall|k: Seq<u8>| k != balance_key_spec(who) ==> final(s).lookup(k) == old(s).lookup(k),
{
    let key = balance_key(who);
    let value = u128_to_le(b);
    s.set(key, value);
    proof {
        lemma_u128_round_trip(b);
    }
}

/// The handler of a transfer: debits the sender, credits the destination.
///
/// The sufficiency check runs before the debit, but the destination's
/// overflow check only after it: a failing handler may leave a partial write
/// behind, which the dispatch engine discards by rolling back the
/// transaction's scope.
pub fn transfer(origin: Origin, dest: AccountId, value: Balance, s: &mut Storage,
    events: &mut Vec<EventRecord>, block_number: BlockNumber, index: u32)
    -> (r: Result<(), DispatchError>)
    requires
        old(s).wf(),
    ensures
        final(s).wf(),
        final(s).depth() == old(s).depth(),
        final(s).layers@.drop_last() == old(s).layers@.drop_last(),
        (match origin {
            Origin::Signed(who) => {
                if balance_of(*old(s), who) < value {
                    r == Result::<(), DispatchError>::Err(DispatchError::Module(
                        ModuleError::Balances(BalancesError::InsufficientBalance)))
                        && *final(s) == *old(s)
                        && final(events)@ == old(events)@
                } else if dest == who {
                    r == Result::<(), DispatchError>::Ok(())
                        && *final(s) == *old(s)
                        && final(events)@ == old(events)@.push((EventRecord {
                            block_number,
                            index,
                            event: RuntimeEvent::Balances(BalancesEvent::Transferred {
                                from: who,
                                to: dest,
                                amount: value,
                            }),
                        }))
                } else if balance_of(*old(s), dest) + value > u128::MAX {
                    r == Result::<(), DispatchError>::Err(DispatchError::Module(
                        ModuleError::Balances(BalancesError::Overflow)))
                        && final(s).lookup(balance_key_spec(who))
                            == Option::Some(u128_le_bytes((balance_of(*old(s), who) - value) as u128))
                        && (forall|k: Seq<u8>| k != balance_key_spec(who)
                            ==> final(s).lookup(k) == old(s).lookup(k))
                        && final(events)@ == old(events)@
                } else {
                    r == Result::<(), DispatchError>::Ok(())
                        && balance_of(*final(s), who) == balance_of(*old(s), who) - value
                        && balance_of(*final(s), dest) == balance_of(*old(s), dest) + value
                        && (forall|k: Seq<u8>| k != balance_key_spec(who)
                            && k != balance_key_spec(dest)
                            ==> final(s).lookup(k) == old(s).lookup(k))
                        && final(events)@ == old(events)@.push((EventRecord {
                            block_number,
                            index,
                            event: RuntimeEvent::Balances(BalancesEvent::Transferred {
                                from: who,
                                to: dest,
                                amount: value,
                            }),
                        }))
                }
            },
            _ => r == Result::<(), DispatchError>::Err(DispatchError::BadOrigin)
                && *final(s) == *old(s)
                && final(events)@ == old(events)@,
        }),
{
    match origin {
        Origin::Signed(who) => {
            let from_bal = get_balance(s, who);
            if from_bal < value {
                return Result::Err(DispatchError::Module(ModuleError::Balances(
                    BalancesError::InsufficientBalance)));
            }
            if dest == who {
                let rec = EventRecord {
                    block_number,
                    index,
                    event: RuntimeEvent::Balances(BalancesEvent::Transferred {
                        from: who,
                        to: dest,
                        amount: value,
                    }),
                };
                events.push(rec);
                return Result::Ok(());
            }
            set_balance(s, who, from_bal - value);
            proof {
                lemma_balance_key_injective(who, dest);
            }
            let to_bal = get_balance(s, dest);
            match to_bal.checked_add(value) {
                Option::Some(nb) => {
                    set_balance(s, dest, nb);
                    let rec = EventRecord {
                        block_number,
                        index,
                        event: RuntimeEvent::Balances(BalancesEvent::Transferred {
                            from: who,
                            to: dest,
                            amount: value,
                        }),
                    };
                    events.push(rec);
                    Result::Ok(())
                },
                Option::None => Result::Err(DispatchError::Module(ModuleError::Balances(
                    BalancesError::Overflow))),
            }
        },
        _ => Result::Err(DispatchError::BadOrigin),
    }
}

} // verus!
