//! A deterministic state-transition core for a single-chain blockchain node.
//!
//! The crate takes an ordered batch of transactions plus a block header,
//! validates and applies each transaction against persistent state, and
//! produces a new state root and a finalized block.  Execution is bit-for-bit
//! deterministic: every correctly configured node reaches an identical state.

use vstd::prelude::*;
use crate::weights::Weight;

pub mod balances;
pub mod calls;
pub mod codec;
pub mod dispatch;
pub mod events;
pub mod executive;
pub mod extensions;
pub mod hashing;
pub mod storage;
pub mod system;
pub mod template;
pub mod transaction;
pub mod timestamp;
pub mod weights;

verus! {

/// Identifier of an account, derived from the account's public key.
pub type AccountId = u64;

/// Balance of an account.
pub type Balance = u128;

/// Per-account strictly increasing transaction counter.
pub type Nonce = u32;

/// An index to a block.
pub type BlockNumber = u32;

/// A hash of some data used by the chain.
pub type Hash = u64;

/// A signature over a transaction's signed payload.  Signature schemes are a
/// pluggable primitive verified outside the core; the core only carries the
/// value and checks its presence.
pub type Signature = u64;

/// The version of the runtime specification.
pub const SPEC_VERSION: u32 = 100;

/// The version of the implementation of the specification.
pub const IMPL_VERSION: u32 = 1;

/// The version of the authorship interface.
pub const AUTHORING_VERSION: u32 = 1;

/// The version of the transaction wire format.
pub const TRANSACTION_VERSION: u32 = 1;

/// The immutable configuration of the state-transition core: loaded once at
/// process start and passed explicitly to the block executive, never a
/// mutable global.
#[derive(PartialEq, Eq, Structural, Clone, Copy, Debug)]
pub struct Config {
    /// The runtime specification version transactions must be built for.
    pub spec_version: u32,
    /// The genesis hash transactions must be bound to.
    pub genesis_hash: Hash,
    /// The runtime metadata hash transactions must be built against.
    pub metadata_hash: Hash,
    /// The block-level execution cost ceiling.
    pub block_cost_limit: Weight,
    /// The transaction-level execution cost ceiling.
    pub tx_cost_limit: Weight,
    /// The block-level encoded-length ceiling.
    pub block_length_limit: u32,
    /// The transaction-level encoded-length ceiling.
    pub tx_length_limit: u32,
}

/// The version information used to identify this runtime.
#[derive(PartialEq, Eq, Structural, Clone, Copy, Debug)]
pub struct Version {
    /// The version of the runtime specification.
    pub spec_version: u32,
    /// The version of the implementation of the specification.
    pub impl_version: u32,
    /// The version of the authorship interface.
    pub authoring_version: u32,
    /// The version of the transaction wire format.
    pub transaction_version: u32,
}

/// The version information used to identify this runtime when compiled
/// natively.
pub fn native_version() -> (v: Version)
    ensures
        v.spec_version == SPEC_VERSION,
        v.impl_version == IMPL_VERSION,
        v.authoring_version == AUTHORING_VERSION,
        v.transaction_version == TRANSACTION_VERSION,
{
    Version {
        spec_version: SPEC_VERSION,
        impl_version: IMPL_VERSION,
        authoring_version: AUTHORING_VERSION,
        transaction_version: TRANSACTION_VERSION,
    }
}

} // verus!
