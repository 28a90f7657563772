//! The template module: a demonstration state-transition module that stores a
//! single value, emits an event when it is set, and errs on absent or
//! overflowing increments.

use vstd::prelude::*;
use crate::{AccountId, BlockNumber};
use crate::calls::{Origin, TEMPLATE_MODULE_ID};
use crate::codec::{u32_from_le, u32_le_bytes, u32_to_le, read_u32, lemma_u32_round_trip};
use crate::dispatch::{DispatchError, ModuleError};
use crate::events::{EventRecord, RuntimeEvent};
use crate::storage::Storage;

verus! {

/// Events of the template module.
#[derive(PartialEq, Eq, Structural, Clone, Copy, Debug)]
pub enum Event {
    /// A user has successfully set a new value.
    SomethingStored {
        /// The new value set.
        something: u32,
        /// The account who set the new value.
        who: AccountId,
    },
}

/// Errors of the template module.
#[derive(PartialEq, Eq, Structural, Clone, Copy, Debug)]
pub enum Error {
    /// No value was previously set.
    NoneValue,
    /// Incrementing the stored value would pass the maximum.
    StorageOverflow,
}

/// The storage key holding the module's single value.
pub open spec fn something_key_spec() -> Seq<u8> {
    seq![TEMPLATE_MODULE_ID, 0u8]
}

/// Builds the storage key holding the module's single value.
pub fn something_key() -> (k: Vec<u8>)
    ensures
        k@ == something_key_spec(),
{
    let mut k: Vec<u8> = Vec::new();
    k.push(TEMPLATE_MODULE_ID);
    k.push(0u8);
    proof {
        assert(k@ =~= something_key_spec());
    }
    k
}

/// The stored value under a storage view, if any was ever set.
pub open spec fn something_of(s: Storage) -> Option<u32> {
    match s.lookup(something_key_spec()) {
        Option::Some(v) => if v.len() == 4 {
            Option::Some(u32_from_le(v))
        } else {
            Option::None
        },
        Option::None => Option::None,
    }
}

/// Reads the stored value.
pub fn get_something(s: &Storage) -> (r: Option<u32>)
    requires
        s.wf(),
    ensures
        r == something_of(*s),
{
    let key = something_key();
    match s.get(&key) {
        Option::Some(v) => {
            if v.len() == 4 {
                let n = read_u32(&v, 0);
                proof {
                    assert(v@.subrange(0, 4) =~= v@);
                }
                Option::Some(n)
            } else {
                Option::None
            }
        },
        Option::None => Option::None,
    }
}

/// The template module's handlers.
pub struct Pezpallet;

impl Pezpallet {
    /// Takes a single value, writes it to the module's storage and emits an
    /// event; requires a signed origin.
    pub fn do_something(origin: Origin, something: u32, s: &mut Storage,
        events: &mut Vec<EventRecord>, block_number: BlockNumber, index: u32)
        -> (r: Result<(), DispatchError>)
        requires
            old(s).wf(),
        ensures
            final(s).wf(),
            final(s).depth() == old(s).depth(),
            final(s).layers@.drop_last() == old(s).layers@.drop_last(),
            (match origin {
                Origin::Signed(who) => r == Result::<(), DispatchError>::Ok(())
                    && something_of(*final(s)) == Option::Some(something)
                    && final(s).lookup(something_key_spec())
                        == Option::Some(u32_le_bytes(something))
                    && (forall|k: Seq<u8>| k != something_key_spec()
                        ==> final(s).lookup(k) == old(s).lookup(k))
                    && final(events)@ == old(events)@.push((EventRecord {
                        block_number,
                        index,
                        event: RuntimeEvent::Template(Event::SomethingStored { something, who }),
                    })),
                _ => r == Result::<(), DispatchError>::Err(DispatchError::BadOrigin)
                    && *final(s) == *old(s)
                    && final(events)@ == old(events)@,
            }),
    {
        match origin {
            Origin::Signed(who) => {
                let key = something_key();
                let value = u32_to_le(something);
                s.set(key, value);
                proof {
                    lemma_u32_round_trip(something);
                }
                let rec = EventRecord {
                    block_number,
                    index,
                    event: RuntimeEvent::Template(Event::SomethingStored { something, who }),
                };
                events.push(rec);
                Result::Ok(())
            },
            _ => Result::Err(DispatchError::BadOrigin),
        }
    }

    /// Reads the stored value and increments it, erring when no value was
    /// ever set or the increment would overflow; requires a signed origin.
    pub fn cause_error(origin: Origin, s: &mut Storage) -> (r: Result<(), DispatchError>)
        requires
            old(s).wf(),
        ensures
            final(s).wf(),
            final(s).depth() == old(s).depth(),
            final(s).layers@.drop_last() == old(s).layers@.drop_last(),
            (match origin {
                Origin::Signed(_) => (match something_of(*old(s)) {
                    Option::None => r == Result::<(), DispatchError>::Err(DispatchError::Module(
                        ModuleError::Template(Error::NoneValue)))
                        && *final(s) == *old(s),
                    Option::Some(v) => if v == u32::MAX {
                        r == Result::<(), DispatchError>::Err(DispatchError::Module(
                            ModuleError::Template(Error::StorageOverflow)))
                            && *final(s) == *old(s)
                    } else {
                        r == Result::<(), DispatchError>::Ok(())
                            && something_of(*final(s)) == Option::Some((v + 1) as u32)
                            && final(s).lookup(something_key_spec())
                                == Option::Some(u32_le_bytes((v + 1) as u32))
                            && (forall|k: Seq<u8>| k != something_key_spec()
                                ==> final(s).lookup(k) == old(s).lookup(k))
                    },
                }),
                _ => r == Result::<(), DispatchError>::Err(DispatchError::BadOrigin)
                    && *final(s) == *old(s),
            }),
    {
        match origin {
            Origin::Signed(_who) => {
                match get_something(s) {
                    Option::None => Result::Err(DispatchError::Module(ModuleError::Template(
                        Error::NoneValue))),
                    Option::Some(v) => {
                        if v == u32::MAX {
                            Result::Err(DispatchError::Module(ModuleError::Template(
                                Error::StorageOverflow)))
                        } else {
                            let key = something_key();
                            let value = u32_to_le(v + 1);
                            s.set(key, value);
                            proof {
                                lemma_u32_round_trip((v + 1) as u32);
                            }
                            Result::Ok(())
                        }
                    },
                }
            },
            _ => Result::Err(DispatchError::BadOrigin),
        }
    }
}

} // verus!
