//! The transaction extension pipeline: an ordered, fixed sequence of
//! independent validity checks applied to every transaction before dispatch.
//!
//! Earlier checks are cheaper and broader, to fail fast.  The pipeline is
//! all-or-nothing: a transaction failing any check is excluded from the block
//! entirely — never charged, never dispatched.

use vstd::prelude::*;
use crate::{Balance, BlockNumber, Config, Nonce};
use crate::calls::{is_inherent, spec_is_inherent, spec_weight_of, weight_of};
use crate::transaction::{Transaction, TxOrigin};
use crate::weights::{compute_fee, fee_of};

verus! {

/// Why the pipeline rejected a transaction; a rejected transaction is
/// excluded, costs the sender nothing and is never dispatched.
#[derive(PartialEq, Eq, Structural, Clone, Copy, Debug)]
pub enum InvalidTransaction {
    /// A mandatory inherent was submitted as a regular transaction.
    MandatoryDispatch,
    /// The call demands a signature and none is present.
    MissingSignature,
    /// The zero account may not send transactions.
    ZeroSender,
    /// Built for another runtime specification version.
    SpecVersionMismatch,
    /// Bound to another chain's genesis hash.
    GenesisMismatch,
    /// The block number lies before the transaction's validity window.
    Premature,
    /// The block number lies after the transaction's validity window.
    Expired,
    /// The declared nonce lies below the account's nonce: a replay.
    StaleNonce,
    /// The declared nonce lies above the account's nonce.
    FutureNonce,
    /// The account's nonce can no longer be incremented.
    NonceOverflow,
    /// The declared cost passes the per-transaction ceiling.
    CostOverLimit,
    /// The declared cost does not cover the call's static cost.
    CostTooLow,
    /// The sender's balance does not cover the fee.
    InsufficientFee,
    /// The encoded transaction passes the per-transaction length ceiling.
    Oversized,
    /// Built against other runtime metadata.
    MetadataMismatch,
}

/// The verdict of the whole pipeline on one transaction, as a function of the
/// configuration, the block number, the sender's nonce and balance, and the
/// transaction's encoded length.  Checks run in their fixed order and the
/// first failing check names the error.
pub open spec fn spec_validity(cfg: Config, number: BlockNumber, account_nonce: Nonce,
    balance: Balance, tx: Transaction, len: nat) -> Result<(), InvalidTransaction> {
    if spec_is_inherent(tx.call) {
        Result::Err(InvalidTransaction::MandatoryDispatch)
    } else if tx.origin is Unsigned {
        Result::Err(InvalidTransaction::MissingSignature)
    } else if crate::transaction::tx_signer(tx) == 0 {
        Result::Err(InvalidTransaction::ZeroSender)
    } else if tx.extension.spec_version != cfg.spec_version {
        Result::Err(InvalidTransaction::SpecVersionMismatch)
    } else if tx.extension.genesis_hash != cfg.genesis_hash {
        Result::Err(InvalidTransaction::GenesisMismatch)
    } else if number < tx.extension.era.birth {
        Result::Err(InvalidTransaction::Premature)
    } else if tx.extension.era.lifetime != 0
        && number >= tx.extension.era.birth + tx.extension.era.lifetime {
        Result::Err(InvalidTransaction::Expired)
    } else if tx.extension.nonce < account_nonce {
        Result::Err(InvalidTransaction::StaleNonce)
    } else if tx.extension.nonce > account_nonce {
        Result::Err(InvalidTransaction::FutureNonce)
    } else if account_nonce == u32::MAX {
        Result::Err(InvalidTransaction::NonceOverflow)
    } else if !tx.extension.cost_limit.spec_le(cfg.tx_cost_limit) {
        Result::Err(InvalidTransaction::CostOverLimit)
    } else if !spec_weight_of(tx.call).spec_le(tx.extension.cost_limit) {
        Result::Err(InvalidTransaction::CostTooLow)
    } else if balance < fee_of(tx.extension.cost_limit, len) {
        Result::Err(InvalidTransaction::InsufficientFee)
    } else if len > cfg.tx_length_limit {
        Result::Err(InvalidTransaction::Oversized)
    } else if tx.extension.metadata_hash != cfg.metadata_hash {
        Result::Err(InvalidTransaction::MetadataMismatch)
    } else {
        Result::Ok(())
    }
}

/// A transaction consumes its nonce slot: once a valid transaction has moved
/// the sender's nonce past its declared one, the very same transaction is
/// rejected as stale at the same block, whatever the sender's balance has
/// become.
pub proof fn lemma_nonce_replay(cfg: Config, number: BlockNumber, account_nonce: Nonce,
    balance: Balance, balance2: Balance, tx: Transaction, len: nat)
    requires
        spec_validity(cfg, number, account_nonce, balance, tx, len) is Ok,
    ensures
        spec_validity(cfg, number, (account_nonce + 1) as Nonce, balance2, tx, len)
            == Result::<(), InvalidTransaction>::Err(InvalidTransaction::StaleNonce),
{
}

/// Runs the whole pipeline on one transaction.
pub fn validate(cfg: &Config, number: BlockNumber, account_nonce: Nonce, balance: Balance,
    tx: &Transaction, len: u32) -> (r: Result<(), InvalidTransaction>)
    ensures
        r == spec_validity(*cfg, number, account_nonce, balance, *tx, len as nat),
{
    if is_inherent(&tx.call) {
        return Result::Err(InvalidTransaction::MandatoryDispatch);
    }
    let who = match tx.origin {
        TxOrigin::Unsigned => {
            return Result::Err(InvalidTransaction::MissingSignature);
        },
        TxOrigin::Signed { who, .. } => who,
    };
    if who == 0 {
        return Result::Err(InvalidTransaction::ZeroSender);
    }
    if tx.extension.spec_version != cfg.spec_version {
        return Result::Err(InvalidTransaction::SpecVersionMismatch);
    }
    if tx.extension.genesis_hash != cfg.genesis_hash {
        return Result::Err(InvalidTransaction::GenesisMismatch);
    }
    if number < tx.extension.era.birth {
        return Result::Err(InvalidTransaction::Premature);
    }
    if tx.extension.era.lifetime != 0
        && (number as u64) >= (tx.extension.era.birth as u64) + (tx.extension.era.lifetime as u64)
    {
        return Result::Err(InvalidTransaction::Expired);
    }
    if tx.extension.nonce < account_nonce {
        return Result::Err(InvalidTransaction::StaleNonce);
    }
    if tx.extension.nonce > account_nonce {
        return Result::Err(InvalidTransaction::FutureNonce);
    }
    if account_nonce == u32::MAX {
        return Result::Err(InvalidTransaction::NonceOverflow);
    }
    if !tx.extension.cost_limit.checked_le(&cfg.tx_cost_limit) {
        return Result::Err(InvalidTransaction::CostOverLimit);
    }
    let w = weight_of(&tx.call);
    if !w.checked_le(&tx.extension.cost_limit) {
        return Result::Err(InvalidTransaction::CostTooLow);
    }
    let fee = compute_fee(tx.extension.cost_limit, len);
    if balance < fee {
        return Result::Err(InvalidTransaction::InsufficientFee);
    }
    if len > cfg.tx_length_limit {
        return Result::Err(InvalidTransaction::Oversized);
    }
    if tx.extension.metadata_hash != cfg.metadata_hash {
        return Result::Err(InvalidTransaction::MetadataMismatch);
    }
    Result::Ok(())
}

} // verus!
