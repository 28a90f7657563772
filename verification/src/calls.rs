//! The dispatch surface: a closed tagged union over every dispatchable
//! function of every registered module.
//!
//! The registry is fixed at build time: each module owns a module id, each
//! function a function id, and each function a pre-declared static execution
//! cost.  Unknown ids are a decode error, never a dispatch error.

use vstd::prelude::*;
use crate::AccountId;
use crate::weights::Weight;

verus! {

/// Module id of the system module.
pub const SYSTEM_MODULE_ID: u8 = 0;

/// Module id of the timestamp module.
pub const TIMESTAMP_MODULE_ID: u8 = 1;

/// Module id of the balances module.
pub const BALANCES_MODULE_ID: u8 = 4;

/// Module id of the template module.
pub const TEMPLATE_MODULE_ID: u8 = 7;

/// The authenticated identity under which a call is dispatched.
#[derive(PartialEq, Eq, Structural, Clone, Copy, Debug)]
pub enum Origin {
    /// Dispatched on behalf of a signed account.
    Signed(AccountId),
    /// Dispatched with root privilege.
    Root,
    /// Dispatched without authentication, as inherents are.
    Unsigned,
}

/// Dispatchable functions of the timestamp module.
#[derive(PartialEq, Eq, Structural, Clone, Copy, Debug)]
pub enum TimestampCall {
    /// Sets the current block's timestamp; a mandatory inherent.
    SetNow {
        /// The timestamp in milliseconds.
        now: u64,
    },
}

/// Dispatchable functions of the balances module.
#[derive(PartialEq, Eq, Structural, Clone, Copy, Debug)]
pub enum BalancesCall {
    /// Moves `value` units from the sender to `dest`.
    Transfer {
        /// The account credited.
        dest: AccountId,
        /// The amount moved.
        value: u128,
    },
}

/// Dispatchable functions of the template module.
#[derive(PartialEq, Eq, Structural, Clone, Copy, Debug)]
pub enum TemplateCall {
    /// Stores a value and emits an event.
    DoSomething {
        /// The value stored.
        something: u32,
    },
    /// Increments the stored value, erring when absent or at the maximum.
    CauseError,
}

/// A decoded transaction's call, resolved to exactly one module handler.
#[derive(PartialEq, Eq, Structural, Clone, Copy, Debug)]
pub enum RuntimeCall {
    /// A call into the timestamp module.
    Timestamp(TimestampCall),
    /// A call into the balances module.
    Balances(BalancesCall),
    /// A call into the template module.
    Template(TemplateCall),
}

/// The module id owning a call.
pub open spec fn spec_module_id(c: RuntimeCall) -> u8 {
    match c {
        RuntimeCall::Timestamp(_) => TIMESTAMP_MODULE_ID,
        RuntimeCall::Balances(_) => BALANCES_MODULE_ID,
        RuntimeCall::Template(_) => TEMPLATE_MODULE_ID,
    }
}

/// The function id of a call within its module.
pub open spec fn spec_function_id(c: RuntimeCall) -> u8 {
    match c {
        RuntimeCall::Timestamp(TimestampCall::SetNow { .. }) => 0,
        RuntimeCall::Balances(BalancesCall::Transfer { .. }) => 0,
        RuntimeCall::Template(TemplateCall::DoSomething { .. }) => 0,
        RuntimeCall::Template(TemplateCall::CauseError) => 1,
    }
}

/// Whether a call is a mandatory inherent, inserted by the block author and
/// never submitted by an account.
pub open spec fn spec_is_inherent(c: RuntimeCall) -> bool {
    match c {
        RuntimeCall::Timestamp(TimestampCall::SetNow { .. }) => true,
        _ => false,
    }
}

/// Whether a call is a mandatory inherent.
pub fn is_inherent(c: &RuntimeCall) -> (r: bool)
    ensures
        r == spec_is_inherent(*c),
{
    match c {
        RuntimeCall::Timestamp(TimestampCall::SetNow { .. }) => true,
        _ => false,
    }
}

/// The pre-declared static execution cost of a call.  Static tables keep cost
/// metering deterministic across hardware.
pub open spec fn spec_weight_of(c: RuntimeCall) -> Weight {
    match c {
        RuntimeCall::Timestamp(TimestampCall::SetNow { .. }) => Weight { compute: 2, io: 1 },
        RuntimeCall::Balances(BalancesCall::Transfer { .. }) => Weight { compute: 5, io: 2 },
        RuntimeCall::Template(TemplateCall::DoSomething { .. }) => Weight { compute: 5, io: 1 },
        RuntimeCall::Template(TemplateCall::CauseError) => Weight { compute: 5, io: 1 },
    }
}

/// The pre-declared static execution cost of a call.
pub fn weight_of(c: &RuntimeCall) -> (w: Weight)
    ensures
        w == spec_weight_of(*c),
{
    match c {
        RuntimeCall::Timestamp(TimestampCall::SetNow { .. }) => Weight { compute: 2, io: 1 },
        RuntimeCall::Balances(BalancesCall::Transfer { .. }) => Weight { compute: 5, io: 2 },
        RuntimeCall::Template(TemplateCall::DoSomething { .. }) => Weight { compute: 5, io: 1 },
        RuntimeCall::Template(TemplateCall::CauseError) => Weight { compute: 5, io: 1 },
    }
}

} // verus!
