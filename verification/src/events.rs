//! The per-block event log: an ordered record of emitted domain events and
//! dispatch outcomes, cleared at each block's initialization.

use vstd::prelude::*;
use crate::BlockNumber;
use crate::balances::BalancesEvent;
use crate::system::SystemEvent;
use crate::template::Event;

verus! {

/// Any event a module of this runtime can emit.
#[derive(PartialEq, Eq, Structural, Clone, Copy, Debug)]
pub enum RuntimeEvent {
    /// An event of the system module.
    System(SystemEvent),
    /// An event of the balances module.
    Balances(BalancesEvent),
    /// An event of the template module.
    Template(Event),
}

/// One emitted event, with the block and transaction that emitted it.
#[derive(PartialEq, Eq, Structural, Clone, Copy, Debug)]
pub struct EventRecord {
    /// The block during which the event was emitted.
    pub block_number: BlockNumber,
    /// The index of the emitting transaction within its block.
    pub index: u32,
    /// The event itself.
    pub event: RuntimeEvent,
}

} // verus!
