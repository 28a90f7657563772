//! The dispatch engine: routes a decoded call to the owning module's handler
//! under an authenticated origin.
//!
//! Whether a dispatch succeeds, what it changes and what it emits are each a
//! function of the call and of the storage values it reads, so dispatch is
//! deterministic across nodes.

use vstd::prelude::*;
use crate::{AccountId, Balance, BlockNumber};
use crate::balances::{BalancesError, BalancesEvent, balance_key_spec, balance_of, transfer};
use crate::calls::{BalancesCall, Origin, RuntimeCall, TemplateCall, TimestampCall, spec_weight_of,
    weight_of};
use crate::events::{EventRecord, RuntimeEvent};
use crate::storage::Storage;
use crate::template::{Error, Event, Pezpallet, something_key_spec, something_of};
use crate::timestamp::{TimestampError, now_acceptable, now_key_spec, now_of, set_now};
use crate::weights::Weight;

verus! {

/// A module-scoped error of a dispatched handler.
#[derive(PartialEq, Eq, Structural, Clone, Copy, Debug)]
pub enum ModuleError {
    /// An error of the timestamp module.
    Timestamp(TimestampError),
    /// An error of the balances module.
    Balances(BalancesError),
    /// An error of the template module.
    Template(Error),
}

/// Why a dispatched call failed; the transaction stays included but its state
/// changes are rolled back.
#[derive(PartialEq, Eq, Structural, Clone, Copy, Debug)]
pub enum DispatchError {
    /// The call demands another kind of origin.
    BadOrigin,
    /// The module's handler failed.
    Module(ModuleError),
}

/// The account an origin speaks for; privileged and unauthenticated origins
/// speak for no account.
pub open spec fn origin_account(origin: Origin) -> AccountId {
    match origin {
        Origin::Signed(who) => who,
        _ => 0,
    }
}

/// The account a transfer credits; any other call credits none.
pub open spec fn dest_of(c: RuntimeCall) -> AccountId {
    match c {
        RuntimeCall::Balances(BalancesCall::Transfer { dest, .. }) => dest,
        _ => 0,
    }
}

/// The outcome a dispatch will have, as a function of the call, the origin
/// and the storage values the handler reads.
pub open spec fn dispatch_outcome(c: RuntimeCall, origin: Origin, sender_bal: Balance,
    dest_bal: Balance, something: Option<u32>, now: Option<u64>) -> Result<(), DispatchError> {
    match c {
        RuntimeCall::Timestamp(TimestampCall::SetNow { now: t }) => match origin {
            Origin::Unsigned => if now_acceptable(now, t) {
                Result::Ok(())
            } else {
                Result::Err(DispatchError::Module(ModuleError::Timestamp(
                    TimestampError::MustIncrease)))
            },
            _ => Result::Err(DispatchError::BadOrigin),
        },
        RuntimeCall::Balances(BalancesCall::Transfer { dest, value }) => match origin {
            Origin::Signed(who) => if sender_bal < value {
                Result::Err(DispatchError::Module(ModuleError::Balances(
                    BalancesError::InsufficientBalance)))
            } else if dest != who && dest_bal + value > u128::MAX {
                Result::Err(DispatchError::Module(ModuleError::Balances(BalancesError::Overflow)))
            } else {
                Result::Ok(())
            },
            _ => Result::Err(DispatchError::BadOrigin),
        },
        RuntimeCall::Template(TemplateCall::DoSomething { .. }) => match origin {
            Origin::Signed(_) => Result::Ok(()),
            _ => Result::Err(DispatchError::BadOrigin),
        },
        RuntimeCall::Template(TemplateCall::CauseError) => match origin {
            Origin::Signed(_) => match something {
                Option::None => Result::Err(DispatchError::Module(ModuleError::Template(
                    Error::NoneValue))),
                Option::Some(v) => if v == u32::MAX {
                    Result::Err(DispatchError::Module(ModuleError::Template(
                        Error::StorageOverflow)))
                } else {
                    Result::Ok(())
                },
            },
            _ => Result::Err(DispatchError::BadOrigin),
        },
    }
}

/// The events a successful dispatch appends, in order.
pub open spec fn dispatch_success_events(c: RuntimeCall, signer: AccountId,
    block_number: BlockNumber, index: u32) -> Seq<EventRecord> {
    match c {
        RuntimeCall::Timestamp(_) => Seq::<EventRecord>::empty(),
        RuntimeCall::Balances(BalancesCall::Transfer { dest, value }) => seq![
            (EventRecord {
                block_number,
                index,
                event: RuntimeEvent::Balances(BalancesEvent::Transferred {
                    from: signer,
                    to: dest,
                    amount: value,
                }),
            }),
        ],
        RuntimeCall::Template(TemplateCall::DoSomething { something }) => seq![
            (EventRecord {
                block_number,
                index,
                event: RuntimeEvent::Template(Event::SomethingStored { something, who: signer }),
            }),
        ],
        RuntimeCall::Template(TemplateCall::CauseError) => Seq::<EventRecord>::empty(),
    }
}

/// How a successful dispatch relates the storage after the call to the
/// storage before it: each call touches only the keys its module owns.
pub open spec fn dispatch_success_state(c: RuntimeCall, signer: AccountId, pre: Storage,
    post: Storage) -> bool {
    match c {
        RuntimeCall::Timestamp(TimestampCall::SetNow { now: t }) => {
            &&& now_of(post) == Option::Some(t)
            &&& forall|k: Seq<u8>| k != now_key_spec() ==> post.lookup(k) == pre.lookup(k)
        },
        RuntimeCall::Balances(BalancesCall::Transfer { dest, value }) => {
            if dest == signer {
                forall|k: Seq<u8>| post.lookup(k) == pre.lookup(k)
            } else {
                &&& balance_of(post, signer) == balance_of(pre, signer) - value
                &&& balance_of(post, dest) == balance_of(pre, dest) + value
                &&& forall|k: Seq<u8>| k != balance_key_spec(signer) && k != balance_key_spec(dest)
                    ==> post.lookup(k) == pre.lookup(k)
            }
        },
        RuntimeCall::Template(TemplateCall::DoSomething { something }) => {
            &&& something_of(post) == Option::Some(something)
            &&& forall|k: Seq<u8>| k != something_key_spec() ==> post.lookup(k) == pre.lookup(k)
        },
        RuntimeCall::Template(TemplateCall::CauseError) => {
            &&& something_of(post) == (match something_of(pre) {
                Option::Some(v) => Option::Some((v + 1) as u32),
                Option::None => Option::None,
            })
            &&& forall|k: Seq<u8>| k != something_key_spec() ==> post.lookup(k) == pre.lookup(k)
        },
    }
}

/// Resolves a call to its module's handler and invokes it under `origin`.
/// On success the handler's static cost is returned; on failure the caller
/// must discard the transaction's storage scope, since a handler may have
/// written before failing.
pub fn dispatch_call(origin: Origin, call: &RuntimeCall, s: &mut Storage,
    events: &mut Vec<EventRecord>, block_number: BlockNumber, index: u32)
    -> (r: Result<Weight, DispatchError>)
    requires
        old(s).wf(),
    ensures
        final(s).wf(),
        final(s).depth() == old(s).depth(),
        final(s).layers@.drop_last() == old(s).layers@.drop_last(),
        ({
            let d = dispatch_outcome(*call, origin, balance_of(*old(s), origin_account(origin)),
                balance_of(*old(s), dest_of(*call)), something_of(*old(s)), now_of(*old(s)));
            match d {
                Result::Ok(_) => r == Result::<Weight, DispatchError>::Ok(spec_weight_of(*call))
                    && dispatch_success_state(*call, origin_account(origin), *old(s), *final(s))
                    && final(events)@ == old(events)@ + dispatch_success_events(*call,
                        origin_account(origin), block_number, index),
                Result::Err(e) => r == Result::<Weight, DispatchError>::Err(e)
                    && final(events)@ == old(events)@,
            }
        }),
{
    let w = weight_of(call);
    let outcome: Result<(), DispatchError> = match call {
        RuntimeCall::Timestamp(TimestampCall::SetNow { now }) => set_now(origin, *now, s),
        RuntimeCall::Balances(BalancesCall::Transfer { dest, value }) => transfer(origin, *dest,
            *value, s, events, block_number, index),
        RuntimeCall::Template(TemplateCall::DoSomething { something }) => Pezpallet::do_something(
            origin, *something, s, events, block_number, index),
        RuntimeCall::Template(TemplateCall::CauseError) => Pezpallet::cause_error(origin, s),
    };
    match outcome {
        Result::Ok(()) => Result::Ok(w),
        Result::Err(e) => Result::Err(e),
    }
}

} // verus!
