//! Transactions, headers and blocks: the values the block executive consumes
//! and produces.

use vstd::prelude::*;
use crate::{AccountId, BlockNumber, Nonce, Signature};
use crate::calls::RuntimeCall;
use crate::weights::Weight;

verus! {

/// The origin a transaction carries on the wire: a signature over its signed
/// payload, or nothing for inherents.
#[derive(PartialEq, Eq, Structural, Clone, Copy, Debug)]
pub enum TxOrigin {
    /// No signature: only mandatory inherents travel this way.
    Unsigned,
    /// Signed by an account.
    Signed {
        /// The signing account.
        who: AccountId,
        /// The signature over the transaction's signed payload.
        signature: Signature,
    },
}

/// The transaction's validity window: block numbers `birth` up to but not
/// including `birth + lifetime`.  A zero lifetime never expires.
#[derive(PartialEq, Eq, Structural, Clone, Copy, Debug)]
pub struct Era {
    /// The first block number at which the transaction is valid.
    pub birth: BlockNumber,
    /// How many blocks the transaction stays valid; zero for no bound.
    pub lifetime: u32,
}

/// The extension data every transaction carries, consumed by the extension
/// pipeline's checks in their fixed order.
#[derive(PartialEq, Eq, Structural, Clone, Copy, Debug)]
pub struct TxExtension {
    /// The runtime specification version the transaction was built for.
    pub spec_version: u32,
    /// The genesis hash of the chain the transaction targets.
    pub genesis_hash: crate::Hash,
    /// The transaction's validity window.
    pub era: Era,
    /// The sender's nonce this transaction declares.
    pub nonce: Nonce,
    /// The declared cost bound; the fee is charged against it.
    pub cost_limit: Weight,
    /// The hash of the runtime metadata the transaction was built against.
    pub metadata_hash: crate::Hash,
}

/// A transaction: immutable once constructed, consumed exactly once.
#[derive(PartialEq, Eq, Structural, Clone, Copy, Debug)]
pub struct Transaction {
    /// The origin signature, or none.
    pub origin: TxOrigin,
    /// The call to dispatch.
    pub call: RuntimeCall,
    /// The extension data.
    pub extension: TxExtension,
}

/// The account that signed a transaction; an unsigned transaction speaks for
/// no account.
pub open spec fn tx_signer(t: Transaction) -> AccountId {
    match t.origin {
        TxOrigin::Signed { who, .. } => who,
        TxOrigin::Unsigned => 0,
    }
}

/// A block header.  The state root is undefined until execution completes:
/// it is an output while authoring and an input to verify while importing.
#[derive(PartialEq, Eq, Structural, Clone, Copy, Debug)]
pub struct Header {
    /// The hash of the parent block's header.
    pub parent_hash: crate::Hash,
    /// This block's number: the parent's number plus one.
    pub number: BlockNumber,
    /// The state root after executing the block.
    pub state_root: crate::Hash,
    /// The digest over the block's transactions.
    pub extrinsics_root: crate::Hash,
    /// Consensus-supplied digest value, carried through untouched.
    pub digest: u64,
}

/// A block: a header plus the ordered transactions it contains.
pub struct Block {
    /// The block's header.
    pub header: Header,
    /// The ordered transaction list, inherents first.
    pub transactions: Vec<Transaction>,
}

/// The digest of a header, binding every field.
pub open spec fn spec_header_hash(h: Header) -> u64 {
    crate::hashing::mix(crate::hashing::mix(crate::hashing::mix(crate::hashing::mix(
        crate::hashing::mix(crate::hashing::HASH_SEED, h.parent_hash), h.number as u64),
        h.state_root), h.extrinsics_root), h.digest)
}

/// Computes the digest of a header.
pub fn header_hash(h: &Header) -> (r: u64)
    ensures
        r == spec_header_hash(*h),
{
    let a = crate::hashing::mix_word(crate::hashing::HASH_SEED, h.parent_hash);
    let b = crate::hashing::mix_word(a, h.number as u64);
    let c = crate::hashing::mix_word(b, h.state_root);
    let d = crate::hashing::mix_word(c, h.extrinsics_root);
    crate::hashing::mix_word(d, h.digest)
}

} // verus!
