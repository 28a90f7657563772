//! The block executive: orchestrates block initialization, applies inherent
//! and submitted transactions through the extension pipeline and the dispatch
//! engine, meters their cost, and finalizes the block, producing the new
//! state root.
//!
//! Two operating modes share the state machine: authoring picks transactions
//! greedily up to the cost ceiling and skips invalid ones; importing takes
//! the transactions fixed by the block being verified, and any invalid or
//! ceiling-breaching one rejects the whole block.

use vstd::prelude::*;
use crate::{AccountId, Balance, BlockNumber, Config, Nonce};
use crate::balances::{balance_key_spec, balance_of, get_balance, set_balance,
    lemma_balance_key_injective};
use crate::calls::{Origin, RuntimeCall, TimestampCall, is_inherent, spec_is_inherent,
    spec_weight_of};
use crate::codec::{encode_transaction, lemma_encode_len, spec_encode};
use crate::dispatch::{DispatchError, dispatch_call, dispatch_outcome, dispatch_success_events,
    dispatch_success_state, dest_of};
use crate::events::{EventRecord, RuntimeEvent};
use crate::extensions::{InvalidTransaction, spec_validity, validate};
use crate::hashing::{HASH_SEED, fold_bytes, hash_bytes, hash_entries,
    lemma_fold_entries_concat, mix, mix_word, root_of};
use crate::storage::{Entry, Storage};
use crate::system::{SystemEvent, nonce_key_spec, nonce_of, get_nonce, set_nonce};
use crate::template::something_of;
use crate::timestamp::{now_acceptable, now_of};
use crate::transaction::{Block, Header, Transaction, TxOrigin, header_hash, spec_header_hash,
    tx_signer};
use crate::weights::{CostTracker, FeeDetails, Weight, compute_fee, fee_of};

verus! {

/// The executive's position in the block life cycle.
#[derive(PartialEq, Eq, Structural, Clone, Copy, Debug)]
pub enum Phase {
    /// Between blocks: the last block's effects are committed.
    Idle,
    /// A block is open and only inherents have run so far.
    Inherent,
    /// A block is open and submitted transactions are being applied.
    Accepting,
    /// The open block was aborted and its overlay discarded.
    Errored,
}

/// Why a submitted transaction was not included in the open block.
#[derive(PartialEq, Eq, Structural, Clone, Copy, Debug)]
pub enum ApplyError {
    /// No block is open for submitted transactions.
    WrongPhase,
    /// The extension pipeline rejected the transaction: it is excluded,
    /// costs the sender nothing and is never dispatched.
    Invalid(InvalidTransaction),
    /// Admitting the transaction would pass the block's cost ceiling: it is
    /// excluded and the caller must stop including further transactions.
    CostExceeded,
}

/// Why a whole block was rejected or aborted.
#[derive(PartialEq, Eq, Structural, Clone, Copy, Debug)]
pub enum BlockError {
    /// The executive is not in a state that allows the operation.
    WrongPhase,
    /// The header's parent hash does not name the current chain head.
    ParentHashMismatch,
    /// The header's number is not the successor of the chain head's.
    NumberMismatch,
    /// A transaction in the inherent position is no mandatory inherent, or
    /// an inherent stands after a submitted transaction.
    NotInherent,
    /// A mandatory inherent failed; inherents are trusted and never excluded,
    /// so the block is aborted.
    InherentFailure,
    /// The block's transactions pass its cost ceiling.
    CostExceeded,
    /// An imported block carries a transaction its chain rejects as invalid.
    InvalidTransaction(InvalidTransaction),
    /// The imported header's state root does not match the executed state.
    StateRootMismatch,
    /// The imported header's transaction digest does not match the block's
    /// transactions.
    ExtrinsicsRootMismatch,
}

/// Whether a header may follow the chain head: its parent hash names the
/// head and its number is the head's successor.
pub open spec fn linkage_ok(head_number: BlockNumber, head_hash: crate::Hash, h: Header) -> bool {
    h.parent_hash == head_hash && h.number == head_number + 1
}

/// Importing the same block twice against the same starting state is
/// rejected the second time: a successful import moves the chain head to the
/// imported block itself, whose linkage can never match again.
pub proof fn lemma_reimport_rejected(head_number: BlockNumber, head_hash: crate::Hash, h: Header)
    requires
        linkage_ok(head_number, head_hash, h),
    ensures
        !linkage_ok(h.number, spec_header_hash(h), h),
{
}

/// Keys of different module storage regions never collide: each module's
/// keys start with its own module id.
proof fn lemma_distinct_keys(a: AccountId, b: AccountId)
    ensures
        nonce_key_spec(a) != balance_key_spec(b),
        nonce_key_spec(a) != crate::template::something_key_spec(),
        nonce_key_spec(a) != crate::timestamp::now_key_spec(),
        balance_key_spec(b) != crate::template::something_key_spec(),
        balance_key_spec(b) != crate::timestamp::now_key_spec(),
{
    assert(nonce_key_spec(a)[0] == 0u8);
    assert(balance_key_spec(b)[0] == 4u8);
    assert(crate::template::something_key_spec()[0] == 7u8);
    assert(crate::timestamp::now_key_spec()[0] == 1u8);
}

/// The dispatch outcome an included transaction will have, evaluated over
/// the state before the transaction: the handler runs after the nonce
/// increment and the fee pre-charge, which only move the sender's balance.
pub open spec fn included_outcome(pre: Storage, tx: Transaction, len: nat)
    -> Result<(), DispatchError> {
    let signer = tx_signer(tx);
    let fee = fee_of(tx.extension.cost_limit, len);
    let after_fee = (balance_of(pre, signer) - fee) as Balance;
    dispatch_outcome(tx.call, Origin::Signed(signer), after_fee,
        if dest_of(tx.call) == signer {
            after_fee
        } else {
            balance_of(pre, dest_of(tx.call))
        }, something_of(pre), now_of(pre))
}

/// How a successful dispatch leaves the storage, relative to the state
/// before the transaction, with the actual fee already charged and the rest
/// of the pre-charge refunded.
pub open spec fn success_state(pre: Storage, post: Storage, signer: AccountId, call: RuntimeCall,
    actual_fee: Balance) -> bool {
    let b0 = balance_of(pre, signer);
    match call {
        RuntimeCall::Timestamp(_) => false,
        RuntimeCall::Balances(crate::calls::BalancesCall::Transfer { dest, value }) => if dest
            == signer {
            &&& balance_of(post, signer) == b0 - actual_fee
            &&& forall|k: Seq<u8>| k != nonce_key_spec(signer) && k != balance_key_spec(signer)
                ==> post.lookup(k) == pre.lookup(k)
        } else {
            &&& balance_of(post, signer) == b0 - actual_fee - value
            &&& balance_of(post, dest) == balance_of(pre, dest) + value
            &&& forall|k: Seq<u8>| k != nonce_key_spec(signer) && k != balance_key_spec(signer)
                && k != balance_key_spec(dest) ==> post.lookup(k) == pre.lookup(k)
        },
        RuntimeCall::Template(crate::calls::TemplateCall::DoSomething { something }) => {
            &&& balance_of(post, signer) == b0 - actual_fee
            &&& something_of(post) == Option::Some(something)
            &&& forall|k: Seq<u8>| k != nonce_key_spec(signer) && k != balance_key_spec(signer)
                && k != crate::template::something_key_spec() ==> post.lookup(k) == pre.lookup(k)
        },
        RuntimeCall::Template(crate::calls::TemplateCall::CauseError) => {
            &&& balance_of(post, signer) == b0 - actual_fee
            &&& something_of(post) == (match something_of(pre) {
                Option::Some(v) => Option::Some((v + 1) as u32),
                Option::None => Option::None,
            })
            &&& forall|k: Seq<u8>| k != nonce_key_spec(signer) && k != balance_key_spec(signer)
                && k != crate::template::something_key_spec() ==> post.lookup(k) == pre.lookup(k)
        },
    }
}

/// How a failed dispatch leaves the storage: the handler's writes are rolled
/// back wholesale, so only the nonce and the full declared fee stand.
pub open spec fn failed_state(pre: Storage, post: Storage, signer: AccountId, fee: Balance)
    -> bool {
    &&& balance_of(post, signer) == balance_of(pre, signer) - fee
    &&& forall|k: Seq<u8>| k != nonce_key_spec(signer) && k != balance_key_spec(signer)
        ==> post.lookup(k) == pre.lookup(k)
}

/// What every included transaction does to the executive, whatever its
/// dispatch outcome: it consumes a nonce slot, its declared cost and its
/// encoded length, and joins the block's transaction digest.
pub open spec fn included_common(pre: Runtime, post: Runtime, tx: Transaction, len: nat) -> bool {
    &&& post.config == pre.config
    &&& post.head_number == pre.head_number
    &&& post.head_hash == pre.head_hash
    &&& post.phase == Phase::Accepting
    &&& post.block_number == pre.block_number
    &&& post.block_parent == pre.block_parent
    &&& post.block_digest == pre.block_digest
    &&& post.extrinsic_index == pre.extrinsic_index + 1
    &&& post.extrinsics_hash == mix(pre.extrinsics_hash, fold_bytes(HASH_SEED, spec_encode(tx)))
    &&& post.tracker.used.compute == pre.tracker.used.compute + tx.extension.cost_limit.compute
    &&& post.tracker.used.io == pre.tracker.used.io + tx.extension.cost_limit.io
    &&& post.tracker.used_length == pre.tracker.used_length + len
    &&& nonce_of(post.storage, tx_signer(tx)) == nonce_of(pre.storage, tx_signer(tx)) + 1
    &&& post.storage.base() == pre.storage.base()
}

/// The whole contract of applying one submitted transaction: the pipeline's
/// verdict decides inclusion; an excluded transaction changes nothing; an
/// included one consumes its nonce, cost and fee, and its dispatch outcome
/// decides between the success effects and a rollback with a failure event.
#[verifier::opaque]
pub open spec fn apply_post(pre: Runtime, post: Runtime, tx: Transaction,
    r: Result<Result<Weight, DispatchError>, ApplyError>) -> bool {
    let len = spec_encode(tx).len();
    let signer = tx_signer(tx);
    let v = spec_validity(pre.config, pre.block_number, nonce_of(pre.storage, signer),
        balance_of(pre.storage, signer), tx, len);
    if !pre.in_block() {
        r == Result::<Result<Weight, DispatchError>, ApplyError>::Err(ApplyError::WrongPhase)
            && post == pre
    } else {
        match v {
            Result::Err(e) => r == Result::<Result<Weight, DispatchError>, ApplyError>::Err(
                ApplyError::Invalid(e)) && post == pre,
            Result::Ok(_) => if !pre.tracker.can_consume(tx.extension.cost_limit, len as u32) {
                r == Result::<Result<Weight, DispatchError>, ApplyError>::Err(
                    ApplyError::CostExceeded) && post == pre
            } else {
                match included_outcome(pre.storage, tx, len) {
                    Result::Ok(_) => {
                        &&& r == Result::<Result<Weight, DispatchError>, ApplyError>::Ok(
                            Result::Ok(spec_weight_of(tx.call)))
                        &&& included_common(pre, post, tx, len)
                        &&& success_state(pre.storage, post.storage, signer, tx.call,
                            fee_of(spec_weight_of(tx.call), len))
                        &&& post.events@ == pre.events@ + dispatch_success_events(tx.call,
                            signer, pre.block_number, pre.extrinsic_index) + seq![
                            (EventRecord {
                                block_number: pre.block_number,
                                index: pre.extrinsic_index,
                                event: RuntimeEvent::System(SystemEvent::ExtrinsicSuccess {
                                    weight: spec_weight_of(tx.call),
                                }),
                            })]
                    },
                    Result::Err(e) => {
                        &&& r == Result::<Result<Weight, DispatchError>, ApplyError>::Ok(
                            Result::Err(e))
                        &&& included_common(pre, post, tx, len)
                        &&& failed_state(pre.storage, post.storage, signer,
                            fee_of(tx.extension.cost_limit, len))
                        &&& post.events@ == pre.events@ + seq![
                            (EventRecord {
                                block_number: pre.block_number,
                                index: pre.extrinsic_index,
                                event: RuntimeEvent::System(SystemEvent::ExtrinsicFailed {
                                    error: e,
                                }),
                            })]
                    },
                }
            },
        }
    }
}

/// The mandatory timestamp inherent the block author inserts: unsigned, with
/// empty extension data, since inherents never pass the extension pipeline.
pub open spec fn inherent_tx(now: u64) -> Transaction {
    Transaction {
        origin: TxOrigin::Unsigned,
        call: RuntimeCall::Timestamp(TimestampCall::SetNow { now }),
        extension: crate::transaction::TxExtension {
            spec_version: 0,
            genesis_hash: 0,
            era: crate::transaction::Era { birth: 0, lifetime: 0 },
            nonce: 0,
            cost_limit: Weight { compute: 0, io: 0 },
            metadata_hash: 0,
        },
    }
}

/// The summed declared computational cost of the candidates a report marks
/// included, over the first `n` candidates.
pub open spec fn sum_included_compute(txs: Seq<Transaction>,
    reports: Seq<Result<Result<Weight, DispatchError>, ApplyError>>, n: int) -> int
    decreases n,
{
    if n <= 0 {
        0
    } else {
        sum_included_compute(txs, reports, n - 1) + if reports[n - 1] is Ok {
            txs[n - 1].extension.cost_limit.compute as int
        } else {
            0
        }
    }
}

/// The summed declared storage I/O cost of the candidates a report marks
/// included, over the first `n` candidates.
pub open spec fn sum_included_io(txs: Seq<Transaction>,
    reports: Seq<Result<Result<Weight, DispatchError>, ApplyError>>, n: int) -> int
    decreases n,
{
    if n <= 0 {
        0
    } else {
        sum_included_io(txs, reports, n - 1) + if reports[n - 1] is Ok {
            txs[n - 1].extension.cost_limit.io as int
        } else {
            0
        }
    }
}

/// The summed encoded length of the candidates a report marks included, over
/// the first `n` candidates.
pub open spec fn sum_included_len(txs: Seq<Transaction>,
    reports: Seq<Result<Result<Weight, DispatchError>, ApplyError>>, n: int) -> int
    decreases n,
{
    if n <= 0 {
        0
    } else {
        sum_included_len(txs, reports, n - 1) + if reports[n - 1] is Ok {
            spec_encode(txs[n - 1]).len() as int
        } else {
            0
        }
    }
}

/// The summed declared computational cost of the first `n` candidates.
pub open spec fn sum_declared_compute(txs: Seq<Transaction>, n: int) -> int
    decreases n,
{
    if n <= 0 {
        0
    } else {
        sum_declared_compute(txs, n - 1) + txs[n - 1].extension.cost_limit.compute
    }
}

/// When every candidate is admitted, the admitted cost sum is the whole
/// declared sum.
proof fn lemma_all_admitted_sum(txs: Seq<Transaction>,
    reports: Seq<Result<Result<Weight, DispatchError>, ApplyError>>, n: int)
    requires
        n <= reports.len(),
        forall|i: int| 0 <= i < n ==> reports[i] is Ok,
    ensures
        sum_included_compute(txs, reports, n) == sum_declared_compute(txs, n),
    decreases n,
{
    if n > 0 {
        lemma_all_admitted_sum(txs, reports, n - 1);
    }
}

/// A candidate batch whose summed declared cost passes the block's ceiling
/// is never admitted wholesale: whenever the admitted cost stays under the
/// ceiling, some candidate was excluded.
pub proof fn lemma_ceiling_excludes(txs: Seq<Transaction>,
    reports: Seq<Result<Result<Weight, DispatchError>, ApplyError>>, inherent_cost: int,
    limit: int)
    requires
        reports.len() == txs.len(),
        inherent_cost >= 0,
        inherent_cost + sum_included_compute(txs, reports, txs.len() as int) <= limit,
        sum_declared_compute(txs, txs.len() as int) > limit,
    ensures
        exists|i: int| 0 <= i < txs.len() && !(reports[i] is Ok),
{
    if !(exists|i: int| 0 <= i < txs.len() && !(reports[i] is Ok)) {
        assert forall|i: int| 0 <= i < txs.len() implies reports[i] is Ok by {
            assert(!(0 <= i < txs.len() && !(reports[i] is Ok)));
        }
        lemma_all_admitted_sum(txs, reports, txs.len() as int);
        assert(false);
    }
}

/// The effects of successfully opening a block on a validated parent
/// linkage: fresh cost totals, a cleared event log, an untouched store under
/// a new overlay scope.
pub open spec fn init_post(pre: Runtime, post: Runtime, parent_hash: crate::Hash,
    number: BlockNumber, digest: u64) -> bool {
    &&& post.wf()
    &&& post.phase == Phase::Inherent
    &&& post.config == pre.config
    &&& post.head_number == pre.head_number
    &&& post.head_hash == pre.head_hash
    &&& post.block_number == number
    &&& post.block_parent == parent_hash
    &&& post.block_digest == digest
    &&& post.extrinsic_index == 0
    &&& post.extrinsics_hash == HASH_SEED
    &&& post.tracker.used.compute == 0
    &&& post.tracker.used.io == 0
    &&& post.tracker.used_length == 0
    &&& post.events@ == Seq::<EventRecord>::empty()
    &&& post.storage.base() == pre.storage.base()
    &&& (forall|k: Seq<u8>| post.storage.lookup(k) == pre.storage.lookup(k))
}

/// Whether the cost ceiling has halted inclusion before candidate `i`: some
/// earlier candidate was already excluded for the ceiling.
pub open spec fn spec_halted(reports: Seq<Result<Result<Weight, DispatchError>, ApplyError>>,
    i: int) -> bool {
    exists|j: int| 0 <= j < i && reports[j] == Result::<Result<Weight, DispatchError>,
        ApplyError>::Err(ApplyError::CostExceeded)
}

/// How one authored candidate is handled.  Once the ceiling has halted
/// inclusion the candidate is excluded untouched; before that it runs the
/// whole admission pipeline, whose contract ties the report to the
/// candidate's own verdict against the running state: rejected exactly when
/// `spec_validity` errs there, excluded for cost exactly when the tracker
/// cannot admit it, included with its exact effects otherwise.
pub open spec fn author_step(pre: Runtime, post: Runtime, tx: Transaction,
    report: Result<Result<Weight, DispatchError>, ApplyError>, halted: bool) -> bool {
    if halted {
        report == Result::<Result<Weight, DispatchError>, ApplyError>::Err(
            ApplyError::CostExceeded) && post == pre
    } else {
        apply_post(pre, post, tx, report)
    }
}

/// An authoring trace: the executive states between the inherent and
/// finalization, each candidate handled by `author_step` in arrival order.
pub open spec fn author_trace(states: Seq<Runtime>, txs: Seq<Transaction>,
    reports: Seq<Result<Result<Weight, DispatchError>, ApplyError>>) -> bool {
    &&& states.len() == txs.len() + 1
    &&& reports.len() == txs.len()
    &&& (forall|i: int| 0 <= i < txs.len() ==> author_step(states[i], states[i + 1], txs[i],
        reports[i], spec_halted(reports, i)))
}

/// One imported transaction applied cleanly: an inherent-shaped one runs as
/// the trusted inherent and must succeed, anything else runs through the
/// pipeline and must be included.
pub open spec fn import_step(pre: Runtime, post: Runtime, tx: Transaction) -> bool {
    if spec_is_inherent(tx.call) {
        inherent_post(pre, post, tx, Result::<(), BlockError>::Ok(()))
    } else {
        exists|inner: Result<Weight, DispatchError>| apply_post(pre, post, tx,
            Result::<Result<Weight, DispatchError>, ApplyError>::Ok(inner))
    }
}

/// An import trace: every transaction of the block applied cleanly in
/// order.
pub open spec fn import_trace(states: Seq<Runtime>, txs: Seq<Transaction>) -> bool {
    &&& states.len() == txs.len() + 1
    &&& (forall|i: int| 0 <= i < txs.len() ==> import_step(states[i], states[i + 1], txs[i]))
}

/// Why importing one transaction aborts the block: the error its own step
/// contract surfaces against the running state.  An inherent standing after
/// a submitted transaction is surfaced as `NotInherent`.
pub open spec fn import_step_fails(pre: Runtime, tx: Transaction, e: BlockError) -> bool {
    if spec_is_inherent(tx.call) {
        exists|post: Runtime, cause: BlockError| inherent_post(pre, post, tx,
            Result::<(), BlockError>::Err(cause))
            && e == (if cause == BlockError::WrongPhase {
                BlockError::NotInherent
            } else {
                cause
            })
    } else {
        match e {
            BlockError::InvalidTransaction(iv) => exists|post: Runtime| apply_post(pre, post,
                tx, Result::<Result<Weight, DispatchError>, ApplyError>::Err(
                    ApplyError::Invalid(iv))),
            BlockError::CostExceeded => exists|post: Runtime| apply_post(pre, post, tx,
                Result::<Result<Weight, DispatchError>, ApplyError>::Err(
                    ApplyError::CostExceeded)),
            _ => false,
        }
    }
}

/// Extending a report list does not change the sums over its prefix.
proof fn lemma_sum_included_push(txs: Seq<Transaction>,
    reports: Seq<Result<Result<Weight, DispatchError>, ApplyError>>,
    x: Result<Result<Weight, DispatchError>, ApplyError>, n: int)
    requires
        0 <= n <= reports.len(),
    ensures
        sum_included_compute(txs, reports.push(x), n) == sum_included_compute(txs, reports, n),
        sum_included_io(txs, reports.push(x), n) == sum_included_io(txs, reports, n),
        sum_included_len(txs, reports.push(x), n) == sum_included_len(txs, reports, n),
    decreases n,
{
    if n > 0 {
        assert(reports.push(x)[n - 1] == reports[n - 1]);
        lemma_sum_included_push(txs, reports, x, n - 1);
    }
}

/// The whole contract of applying one mandatory inherent.
#[verifier::opaque]
pub open spec fn inherent_post(pre: Runtime, post: Runtime, tx: Transaction,
    r: Result<(), BlockError>) -> bool {

                let s = pre;
                let len = spec_encode(tx).len();
                if !(s.phase is Inherent) {
                    r == Result::<(), BlockError>::Err(BlockError::WrongPhase)
                        && post == s
                } else if !(spec_is_inherent(tx.call) && tx.origin is Unsigned) {
                    r == Result::<(), BlockError>::Err(BlockError::NotInherent)
                        && post == s
                } else if !s.tracker.can_consume(spec_weight_of(tx.call), len as u32) {
                    r == Result::<(), BlockError>::Err(BlockError::CostExceeded)
                        && post.phase == Phase::Errored
                        && post.storage.layers@ == s.storage.layers@.drop_last()
                        && post.config == s.config
                        && post.head_number == s.head_number
                        && post.head_hash == s.head_hash
                } else {
                    match dispatch_outcome(tx.call, Origin::Unsigned,
                        balance_of(s.storage, 0), balance_of(s.storage, dest_of(tx.call)),
                        something_of(s.storage), now_of(s.storage)) {
                        Result::Ok(_) => {
                            &&& r == Result::<(), BlockError>::Ok(())
                            &&& post.phase == Phase::Inherent
                            &&& dispatch_success_state(tx.call, 0, s.storage,
                                post.storage)
                            &&& post.events@ == s.events@ + dispatch_success_events(
                                tx.call, 0, s.block_number, s.extrinsic_index) + seq![
                                (EventRecord {
                                    block_number: s.block_number,
                                    index: s.extrinsic_index,
                                    event: RuntimeEvent::System(SystemEvent::ExtrinsicSuccess {
                                        weight: spec_weight_of(tx.call),
                                    }),
                                })]
                            &&& post.tracker.used.compute == s.tracker.used.compute
                                + spec_weight_of(tx.call).compute
                            &&& post.tracker.used.io == s.tracker.used.io
                                + spec_weight_of(tx.call).io
                            &&& post.tracker.used_length == s.tracker.used_length + len
                            &&& post.extrinsic_index == s.extrinsic_index + 1
                            &&& post.extrinsics_hash == mix(s.extrinsics_hash,
                                fold_bytes(HASH_SEED, spec_encode(tx)))
                            &&& post.storage.base() == s.storage.base()
                            &&& post.config == s.config
                            &&& post.head_number == s.head_number
                            &&& post.head_hash == s.head_hash
                            &&& post.block_number == s.block_number
                            &&& post.block_parent == s.block_parent
                            &&& post.block_digest == s.block_digest
                        },
                        Result::Err(_) => {
                            &&& r == Result::<(), BlockError>::Err(BlockError::InherentFailure)
                            &&& post.phase == Phase::Errored
                            &&& post.storage.layers@ == s.storage.layers@.drop_last()
                            &&& post.config == s.config
                            &&& post.head_number == s.head_number
                            &&& post.head_hash == s.head_hash
                        },
                    }
                }
}

/// The composed runtime: the chain's configuration, its storage, its event
/// log and the block executive's state machine.
pub struct Runtime {
    /// The immutable configuration.
    pub config: Config,
    /// The storage layer; one base layer between blocks, plus the block's
    /// overlay scope while a block is open.
    pub storage: Storage,
    /// The open block's event log; cleared at block initialization.
    pub events: Vec<EventRecord>,
    /// The executive's position in the block life cycle.
    pub phase: Phase,
    /// The number of the last committed block; zero at genesis.
    pub head_number: BlockNumber,
    /// The header digest of the last committed block; the genesis hash at
    /// genesis.
    pub head_hash: crate::Hash,
    /// The open block's running cost totals.
    pub tracker: CostTracker,
    /// The open block's number.
    pub block_number: BlockNumber,
    /// The open block's parent hash.
    pub block_parent: crate::Hash,
    /// The open block's consensus digest value.
    pub block_digest: u64,
    /// How many transactions the open block holds so far.
    pub extrinsic_index: u32,
    /// The running digest over the open block's encoded transactions.
    pub extrinsics_hash: u64,
}

impl Runtime {
    /// Whether a block is open.
    pub open spec fn in_block(self) -> bool {
        self.phase is Inherent || self.phase is Accepting
    }

    /// The executive's invariant: the storage depth follows the phase, cost
    /// totals stay under their ceilings, and the transaction count never
    /// passes the consumed length.
    pub open spec fn wf(self) -> bool {
        &&& self.storage.wf()
        &&& self.tracker.wf()
        &&& self.tracker.limit == self.config.block_cost_limit
        &&& self.tracker.length_limit == self.config.block_length_limit
        &&& self.extrinsic_index <= self.tracker.used_length
        &&& (self.in_block() ==> self.storage.depth() == 2
            && self.block_number == self.head_number + 1
            && self.block_parent == self.head_hash)
        &&& (!self.in_block() ==> self.storage.depth() == 1)
    }

    /// A runtime at genesis: empty storage, chain head at block zero with the
    /// configured genesis hash.
    pub fn new(config: Config) -> (r: Runtime)
        ensures
            r.wf(),
            r.config == config,
            r.phase == Phase::Idle,
            r.head_number == 0,
            r.head_hash == config.genesis_hash,
            r.events@ == Seq::<EventRecord>::empty(),
            r.storage.base() == Seq::<Entry>::empty(),
            forall|k: Seq<u8>| r.storage.lookup(k) == Option::<Seq<u8>>::None,
    {
        Runtime {
            config,
            storage: Storage::new(),
            events: Vec::new(),
            phase: Phase::Idle,
            head_number: 0,
            head_hash: config.genesis_hash,
            tracker: CostTracker::new(config.block_cost_limit, config.block_length_limit),
            block_number: 0,
            block_parent: 0,
            block_digest: 0,
            extrinsic_index: 0,
            extrinsics_hash: HASH_SEED,
        }
    }

    /// Loads one genesis entry into the storage layer; only allowed before
    /// the first block.
    pub fn genesis_set(&mut self, key: Vec<u8>, value: Vec<u8>) -> (r: Result<(), BlockError>)
        requires
            old(self).wf(),
        ensures
            final(self).wf(),
            (if old(self).phase is Idle && old(self).head_number == 0 {
                r == Result::<(), BlockError>::Ok(())
                    && final(self).storage.lookup(key@) == Option::Some(value@)
                    && (forall|k: Seq<u8>| k != key@ ==> final(self).storage.lookup(k)
                        == old(self).storage.lookup(k))
                    && final(self).config == old(self).config
                    && final(self).phase == old(self).phase
                    && final(self).head_number == old(self).head_number
                    && final(self).head_hash == old(self).head_hash
                    && final(self).events@ == old(self).events@
            } else {
                r == Result::<(), BlockError>::Err(BlockError::WrongPhase)
                    && *final(self) == *old(self)
            }),
    {
        let allowed = match self.phase {
            Phase::Idle => self.head_number == 0,
            _ => false,
        };
        if !allowed {
            return Result::Err(BlockError::WrongPhase);
        }
        self.storage.set(key, value);
        Result::Ok(())
    }

    /// Endows an account with a starting balance at genesis.
    pub fn genesis_endow(&mut self, who: AccountId, amount: Balance) -> (r: Result<(), BlockError>)
        requires
            old(self).wf(),
        ensures
            final(self).wf(),
            (if old(self).phase is Idle && old(self).head_number == 0 {
                r == Result::<(), BlockError>::Ok(())
                    && balance_of(final(self).storage, who) == amount
                    && (forall|k: Seq<u8>| k != balance_key_spec(who)
                        ==> final(self).storage.lookup(k) == old(self).storage.lookup(k))
                    && final(self).config == old(self).config
                    && final(self).phase == old(self).phase
                    && final(self).head_number == old(self).head_number
                    && final(self).head_hash == old(self).head_hash
                    && final(self).events@ == old(self).events@
            } else {
                r == Result::<(), BlockError>::Err(BlockError::WrongPhase)
                    && *final(self) == *old(self)
            }),
    {
        let allowed = match self.phase {
            Phase::Idle => self.head_number == 0,
            _ => false,
        };
        if !allowed {
            return Result::Err(BlockError::WrongPhase);
        }
        set_balance(&mut self.storage, who, amount);
        Result::Ok(())
    }

    /// The nonce of an account under the last-committed state; a read-only
    /// query for external callers.
    pub fn account_nonce(&self, who: AccountId) -> (n: Nonce)
        requires
            self.wf(),
        ensures
            n == nonce_of(self.storage, who),
    {
        get_nonce(&self.storage, who)
    }

    /// The balance of an account under the last-committed state; a read-only
    /// query for external callers.
    pub fn free_balance(&self, who: AccountId) -> (b: Balance)
        requires
            self.wf(),
        ensures
            b == balance_of(self.storage, who),
    {
        get_balance(&self.storage, who)
    }

    /// The fee a transaction would owe, split into its parts; a read-only
    /// query for external callers.
    pub fn query_fee(&self, tx: &Transaction) -> (f: FeeDetails)
        ensures
            f.weight_fee == tx.extension.cost_limit.compute + tx.extension.cost_limit.io,
            f.length_fee == spec_encode(*tx).len(),
            f.total == fee_of(tx.extension.cost_limit, spec_encode(*tx).len()),
    {
        let bytes = encode_transaction(tx);
        proof {
            lemma_encode_len(*tx);
        }
        let len = bytes.len();
        let weight_fee = tx.extension.cost_limit.compute as u128 + tx.extension.cost_limit.io as u128;
        FeeDetails { weight_fee, length_fee: len as u128, total: weight_fee + len as u128 }
    }

    /// Opens a block: validates the parent linkage against the chain head,
    /// opens the block's storage scope, and resets the event log and the
    /// cost totals.
    pub fn initialize_block(&mut self, parent_hash: crate::Hash, number: BlockNumber,
        digest: u64) -> (r: Result<(), BlockError>)
        requires
            old(self).wf(),
        ensures
            final(self).wf(),
            ({
                let s = *old(self);
                if s.in_block() {
                    r == Result::<(), BlockError>::Err(BlockError::WrongPhase) && *final(self) == s
                } else if parent_hash != s.head_hash {
                    r == Result::<(), BlockError>::Err(BlockError::ParentHashMismatch)
                        && *final(self) == s
                } else if number != s.head_number + 1 {
                    r == Result::<(), BlockError>::Err(BlockError::NumberMismatch)
                        && *final(self) == s
                } else {
                    r == Result::<(), BlockError>::Ok(())
                        && init_post(s, *final(self), parent_hash, number, digest)
                }
            }),
    {
        let in_block = match self.phase {
            Phase::Inherent | Phase::Accepting => true,
            _ => false,
        };
        if in_block {
            return Result::Err(BlockError::WrongPhase);
        }
        if parent_hash != self.head_hash {
            return Result::Err(BlockError::ParentHashMismatch);
        }
        if self.head_number == u32::MAX || number != self.head_number + 1 {
            return Result::Err(BlockError::NumberMismatch);
        }
        let ghost pre = *self;
        self.storage.scope();
        self.events = Vec::new();
        self.tracker = CostTracker::new(self.config.block_cost_limit,
            self.config.block_length_limit);
        self.block_number = number;
        self.block_parent = parent_hash;
        self.block_digest = digest;
        self.extrinsic_index = 0;
        self.extrinsics_hash = HASH_SEED;
        self.phase = Phase::Inherent;
        proof {
            assert(self.storage.layers@.drop_last() == pre.storage.layers@);
            assert(self.storage.base() == pre.storage.base());
        }
        Result::Ok(())
    }

    /// Applies one mandatory inherent; only allowed while no submitted
    /// transaction has been applied yet.  Inherents are trusted and never
    /// excluded: any failure aborts the whole block.
    #[verifier::rlimit(100)]
    #[verifier::spinoff_prover]
    pub fn apply_inherent(&mut self, tx: &Transaction) -> (r: Result<(), BlockError>)
        requires
            old(self).wf(),
        ensures
            final(self).wf(),
            final(self).config == old(self).config,
            final(self).head_number == old(self).head_number,
            final(self).head_hash == old(self).head_hash,
            final(self).storage.base() == old(self).storage.base(),
            r is Ok ==> final(self).phase == Phase::Inherent
                && final(self).block_number == old(self).block_number
                && final(self).block_parent == old(self).block_parent
                && final(self).block_digest == old(self).block_digest,
            r is Err ==> (final(self).phase == Phase::Errored
                && final(self).storage.depth() == 1) || *final(self) == *old(self),
            inherent_post(*old(self), *final(self), *tx, r),
    {
        proof {
            reveal(inherent_post);
        }
        match self.phase {
            Phase::Inherent => {},
            _ => {
                return Result::Err(BlockError::WrongPhase);
            },
        }
        if !is_inherent(&tx.call) {
            return Result::Err(BlockError::NotInherent);
        }
        match tx.origin {
            TxOrigin::Unsigned => {},
            _ => {
                return Result::Err(BlockError::NotInherent);
            },
        }
        let bytes = encode_transaction(tx);
        proof {
            lemma_encode_len(*tx);
        }
        let len = bytes.len() as u32;
        let w = crate::calls::weight_of(&tx.call);
        match self.tracker.try_consume(w, len) {
            Result::Err(_) => {
                self.storage.rollback_scope();
                self.phase = Phase::Errored;
                return Result::Err(BlockError::CostExceeded);
            },
            Result::Ok(_) => {},
        }
        let ghost before_scope = self.storage;
        self.storage.scope();
        let ghost after_scope = self.storage;
        let outcome = dispatch_call(Origin::Unsigned, &tx.call, &mut self.storage,
            &mut self.events, self.block_number, self.extrinsic_index);
        let ghost after_dispatch = self.storage;
        match outcome {
            Result::Ok(_) => {
                self.storage.commit_scope();
                proof {
                    assert(after_scope.layers@.drop_last() == before_scope.layers@);
                    assert(after_scope.layers@.drop_last()[0] == after_scope.layers@[0]);
                    assert(after_scope.layers@[0] == before_scope.layers@[0]);
                    assert(after_dispatch.layers@.drop_last() == after_scope.layers@.drop_last());
                    assert(after_dispatch.layers@.drop_last()[0] == after_dispatch.layers@[0]);
                    assert(after_scope.layers@.drop_last()[0] == after_scope.layers@[0]);
                    assert(after_dispatch.layers@[0] == after_scope.layers@[0]);
                    assert(self.storage.layers@.drop_last()
                        == after_dispatch.layers@.drop_last().drop_last());
                    assert(after_dispatch.layers@.drop_last().drop_last()[0]
                        == after_dispatch.layers@.drop_last()[0]);
                    assert(self.storage.layers@.drop_last()[0] == self.storage.layers@[0]);
                    assert(self.storage.layers@[0] == after_dispatch.layers@[0]);
                }
                let rec = EventRecord {
                    block_number: self.block_number,
                    index: self.extrinsic_index,
                    event: RuntimeEvent::System(SystemEvent::ExtrinsicSuccess { weight: w }),
                };
                self.events.push(rec);
                self.extrinsic_index = self.extrinsic_index + 1;
                self.extrinsics_hash = mix_word(self.extrinsics_hash,
                    hash_bytes(HASH_SEED, &bytes));
                Result::Ok(())
            },
            Result::Err(_) => {
                self.storage.rollback_scope();
                proof {
                    assert(self.storage.layers@ == before_scope.layers@);
                }
                self.storage.rollback_scope();
                self.phase = Phase::Errored;
                Result::Err(BlockError::InherentFailure)
            },
        }
    }

    /// Applies one submitted transaction to the open block: the extension
    /// pipeline validates it, the cost accounting admits it, and the
    /// dispatch engine runs it inside its own storage scope.  A rejected
    /// transaction is excluded and changes nothing; an included one consumes
    /// its nonce and fee even when its handler fails, but a failing
    /// handler's writes are rolled back wholesale.
    #[verifier::rlimit(100)]
    #[verifier::spinoff_prover]
    pub fn apply_extrinsic(&mut self, tx: &Transaction)
        -> (r: Result<Result<Weight, DispatchError>, ApplyError>)
        requires
            old(self).wf(),
        ensures
            final(self).wf(),
            apply_post(*old(self), *final(self), *tx, r),
            final(self).config == old(self).config,
            final(self).head_number == old(self).head_number,
            final(self).head_hash == old(self).head_hash,
            final(self).storage.base() == old(self).storage.base(),
            r is Err ==> *final(self) == *old(self),
            r is Ok ==> old(self).in_block()
                && final(self).in_block()
                && final(self).block_number == old(self).block_number
                && final(self).block_parent == old(self).block_parent
                && final(self).block_digest == old(self).block_digest,
    {
        proof {
            reveal(apply_post);
        }
        let ghost pre = *self;
        let in_block = match self.phase {
            Phase::Inherent | Phase::Accepting => true,
            _ => false,
        };
        if !in_block {
            return Result::Err(ApplyError::WrongPhase);
        }
        let bytes = encode_transaction(tx);
        proof {
            lemma_encode_len(*tx);
        }
        let len = bytes.len() as u32;
        let signer = match tx.origin {
            TxOrigin::Signed { who, .. } => who,
            TxOrigin::Unsigned => 0,
        };
        let n0 = get_nonce(&self.storage, signer);
        let b0 = get_balance(&self.storage, signer);
        match validate(&self.config, self.block_number, n0, b0, tx, len) {
            Result::Err(e) => {
                return Result::Err(ApplyError::Invalid(e));
            },
            Result::Ok(_) => {},
        }
        match self.tracker.try_consume(tx.extension.cost_limit, len) {
            Result::Err(_) => {
                return Result::Err(ApplyError::CostExceeded);
            },
            Result::Ok(_) => {},
        }
        let fee = compute_fee(tx.extension.cost_limit, len);
        set_nonce(&mut self.storage, signer, n0 + 1);
        let ghost nonced = self.storage;
        set_balance(&mut self.storage, signer, b0 - fee);
        proof {
            lemma_distinct_keys(signer, signer);
            lemma_distinct_keys(signer, dest_of(tx.call));
            lemma_balance_key_injective(signer, dest_of(tx.call));
            assert(balance_of(self.storage, signer) == b0 - fee);
            assert(something_of(self.storage) == something_of(pre.storage));
            assert(now_of(self.storage) == now_of(pre.storage));
            assert(dest_of(tx.call) != signer ==> balance_of(self.storage, dest_of(tx.call))
                == balance_of(pre.storage, dest_of(tx.call)));
        }
        let ghost charged = self.storage;
        self.storage.scope();
        let ghost mid = self.storage;
        proof {
            assert(nonced.layers@.drop_last()[0] == nonced.layers@[0]);
            assert(pre.storage.layers@.drop_last()[0] == pre.storage.layers@[0]);
            assert(nonced.layers@[0] == pre.storage.layers@[0]);
            assert(charged.layers@.drop_last()[0] == charged.layers@[0]);
            assert(charged.layers@[0] == nonced.layers@[0]);
            assert(mid.layers@.drop_last() == charged.layers@);
            assert(mid.layers@.drop_last()[0] == mid.layers@[0]);
            assert(mid.layers@[0] == pre.storage.layers@[0]);
        }
        let outcome = dispatch_call(Origin::Signed(signer), &tx.call, &mut self.storage,
            &mut self.events, self.block_number, self.extrinsic_index);
        proof {
            assert(dispatch_outcome(tx.call, Origin::Signed(signer),
                balance_of(mid, signer), balance_of(mid, dest_of(tx.call)),
                something_of(mid), now_of(mid)) == included_outcome(pre.storage, *tx,
                spec_encode(*tx).len()));
        }
        let ghost after_dispatch = self.storage;
        let inner: Result<Weight, DispatchError>;
        match outcome {
            Result::Ok(w) => {
                self.storage.commit_scope();
                proof {
                    assert(mid.layers@[0] == pre.storage.layers@[0]);
                    assert(mid.depth() == 3);
                    assert(after_dispatch.layers@.drop_last() == mid.layers@.drop_last());
                    assert(after_dispatch.layers@.drop_last()[0] == after_dispatch.layers@[0]);
                    assert(mid.layers@.drop_last()[0] == mid.layers@[0]);
                    assert(after_dispatch.layers@[0] == mid.layers@[0]);
                    assert(self.storage.layers@.drop_last()
                        == after_dispatch.layers@.drop_last().drop_last());
                    assert(after_dispatch.layers@.drop_last().drop_last()[0]
                        == after_dispatch.layers@.drop_last()[0]);
                    assert(self.storage.layers@.drop_last()[0] == self.storage.layers@[0]);
                    assert(self.storage.layers@[0] == after_dispatch.layers@[0]);
                }
                let actual_fee = compute_fee(w, len);
                let cur = get_balance(&self.storage, signer);
                set_balance(&mut self.storage, signer, cur + (fee - actual_fee));
                let rec = EventRecord {
                    block_number: self.block_number,
                    index: self.extrinsic_index,
                    event: RuntimeEvent::System(SystemEvent::ExtrinsicSuccess { weight: w }),
                };
                self.events.push(rec);
                proof {
                    assert(self.events@ =~= pre.events@ + dispatch_success_events(tx.call,
                        signer, pre.block_number, pre.extrinsic_index) + seq![rec]);
                }
                inner = Result::Ok(w);
            },
            Result::Err(e) => {
                self.storage.rollback_scope();
                proof {
                    assert(self.storage.layers@ == mid.layers@.drop_last());
                    assert(mid.layers@[0] == pre.storage.layers@[0]);
                    assert(self.storage.layers@[0] == mid.layers@[0]);
                }
                let rec = EventRecord {
                    block_number: self.block_number,
                    index: self.extrinsic_index,
                    event: RuntimeEvent::System(SystemEvent::ExtrinsicFailed { error: e }),
                };
                self.events.push(rec);
                proof {
                    assert(self.events@ =~= pre.events@ + seq![rec]);
                }
                inner = Result::Err(e);
            },
        }
        self.extrinsic_index = self.extrinsic_index + 1;
        self.extrinsics_hash = mix_word(self.extrinsics_hash, hash_bytes(HASH_SEED, &bytes));
        self.phase = Phase::Accepting;
        Result::Ok(inner)
    }

    /// Closes the open block: folds its storage overlay into the committed
    /// store, computes the new state root, moves the chain head to the
    /// completed header and returns it.  No registered module declares
    /// end-of-block work, so closing runs no further handlers.
    pub fn finalize_block(&mut self) -> (r: Result<Header, BlockError>)
        requires
            old(self).wf(),
        ensures
            final(self).wf(),
            ({
                let s = *old(self);
                if !s.in_block() {
                    r == Result::<Header, BlockError>::Err(BlockError::WrongPhase)
                        && *final(self) == s
                } else {
                    match r {
                        Result::Ok(h) => {
                            &&& h.parent_hash == s.block_parent
                            &&& h.number == s.block_number
                            &&& h.digest == s.block_digest
                            &&& h.extrinsics_root == s.extrinsics_hash
                            &&& h.state_root == root_of(final(self).storage.base())
                            &&& final(self).storage.base() == s.storage.base()
                                + s.storage.layers@.last()@
                            &&& final(self).phase == Phase::Idle
                            &&& final(self).head_number == s.block_number
                            &&& final(self).head_hash == spec_header_hash(h)
                            &&& final(self).config == s.config
                            &&& final(self).tracker == s.tracker
                            &&& final(self).events@ == s.events@
                            &&& (forall|k: Seq<u8>| final(self).storage.lookup(k)
                                == s.storage.lookup(k))
                        },
                        Result::Err(_) => false,
                    }
                }
            }),
    {
        let in_block = match self.phase {
            Phase::Inherent | Phase::Accepting => true,
            _ => false,
        };
        if !in_block {
            return Result::Err(BlockError::WrongPhase);
        }
        self.storage.commit_scope();
        let state_root = hash_entries(HASH_SEED, &self.storage.layers[0]);
        let h = Header {
            parent_hash: self.block_parent,
            number: self.block_number,
            state_root,
            extrinsics_root: self.extrinsics_hash,
            digest: self.block_digest,
        };
        self.head_number = self.block_number;
        self.head_hash = header_hash(&h);
        self.phase = Phase::Idle;
        Result::Ok(h)
    }

    /// Aborts the open block, discarding its overlay, and surfaces `e`.
    fn abort_block(&mut self, e: BlockError) -> (r: Result<(), BlockError>)
        requires
            old(self).wf(),
        ensures
            final(self).wf(),
            r == Result::<(), BlockError>::Err(e),
            final(self).phase == Phase::Errored,
            final(self).config == old(self).config,
            final(self).head_number == old(self).head_number,
            final(self).head_hash == old(self).head_hash,
            final(self).storage.depth() == 1,
            final(self).storage.base() == old(self).storage.base(),
    {
        let in_block = match self.phase {
            Phase::Inherent | Phase::Accepting => true,
            _ => false,
        };
        if in_block {
            self.storage.rollback_scope();
        }
        self.phase = Phase::Errored;
        Result::Err(e)
    }


    /// Imports one transaction of a block being executed, aborting the block
    /// on anything a well-formed block may not carry.
    #[verifier::rlimit(100)]
    #[verifier::spinoff_prover]
    fn import_one(&mut self, tx: &Transaction) -> (r: Result<(), BlockError>)
        requires
            old(self).wf(),
            old(self).in_block(),
        ensures
            final(self).wf(),
            final(self).config == old(self).config,
            final(self).head_number == old(self).head_number,
            final(self).head_hash == old(self).head_hash,
            final(self).storage.base() == old(self).storage.base(),
            (match r {
                Result::Ok(_) => final(self).in_block()
                    && final(self).block_number == old(self).block_number
                    && final(self).block_parent == old(self).block_parent
                    && final(self).block_digest == old(self).block_digest
                    && import_step(*old(self), *final(self), *tx),
                Result::Err(e) => final(self).phase == Phase::Errored
                    && final(self).storage.depth() == 1
                    && import_step_fails(*old(self), *tx, e)
                    && (e is NotInherent || e is CostExceeded || e is InherentFailure
                        || e is InvalidTransaction),
            }),
    {
        let ghost entry = *self;
        if is_inherent(&tx.call) {
            let ri = self.apply_inherent(tx);
            let ghost mid = *self;
            match ri {
                Result::Ok(u) => {
                    proof {
                        assert(u == ());
                        assert(ri == Result::<(), BlockError>::Ok(u));
                        assert(inherent_post(entry, mid, *tx,
                            Result::<(), BlockError>::Ok(())));
                        assert(import_step(entry, mid, *tx));
                    }
                    Result::Ok(())
                },
                Result::Err(cause) => {
                    let mapped = match cause {
                        BlockError::WrongPhase => BlockError::NotInherent,
                        _ => cause,
                    };
                    proof {
                        assert(inherent_post(entry, mid, *tx,
                            Result::<(), BlockError>::Err(cause)));
                        assert(import_step_fails(entry, *tx, mapped));
                        assert(cause is WrongPhase || cause is NotInherent
                            || cause is CostExceeded || cause is InherentFailure) by {
                            reveal(inherent_post);
                        }
                    }
                    self.abort_block(mapped)
                },
            }
        } else {
            let ra = self.apply_extrinsic(tx);
            let ghost mid = *self;
            match ra {
                Result::Ok(inner) => {
                    proof {
                        assert(apply_post(entry, mid, *tx,
                            Result::<Result<Weight, DispatchError>, ApplyError>::Ok(inner)));
                        assert(import_step(entry, mid, *tx));
                    }
                    Result::Ok(())
                },
                Result::Err(ApplyError::Invalid(e)) => {
                    proof {
                        assert(apply_post(entry, mid, *tx,
                            Result::<Result<Weight, DispatchError>, ApplyError>::Err(
                                ApplyError::Invalid(e))));
                        assert(import_step_fails(entry, *tx,
                            BlockError::InvalidTransaction(e)));
                    }
                    self.abort_block(BlockError::InvalidTransaction(e))
                },
                Result::Err(ApplyError::CostExceeded) => {
                    proof {
                        assert(apply_post(entry, mid, *tx,
                            Result::<Result<Weight, DispatchError>, ApplyError>::Err(
                                ApplyError::CostExceeded)));
                        assert(import_step_fails(entry, *tx, BlockError::CostExceeded));
                    }
                    self.abort_block(BlockError::CostExceeded)
                },
                Result::Err(ApplyError::WrongPhase) => {
                    proof {
                        reveal(apply_post);
                        assert(false);
                    }
                    self.abort_block(BlockError::WrongPhase)
                },
            }
        }
    }

    /// Tries to admit one authored candidate, reporting how it fared; the
    /// cost totals grow exactly by an admitted candidate's declared cost.
    #[verifier::rlimit(100)]
    #[verifier::spinoff_prover]
    fn admit_one(&mut self, tx: &Transaction)
        -> (report: Result<Result<Weight, DispatchError>, ApplyError>)
        requires
            old(self).wf(),
            old(self).in_block(),
        ensures
            final(self).wf(),
            final(self).in_block(),
            final(self).config == old(self).config,
            final(self).head_number == old(self).head_number,
            final(self).head_hash == old(self).head_hash,
            final(self).block_number == old(self).block_number,
            final(self).block_parent == old(self).block_parent,
            final(self).block_digest == old(self).block_digest,
            (match report {
                Result::Ok(_) => final(self).tracker.used.compute
                    == old(self).tracker.used.compute + tx.extension.cost_limit.compute
                    && final(self).tracker.used.io == old(self).tracker.used.io
                        + tx.extension.cost_limit.io
                    && final(self).tracker.used_length == old(self).tracker.used_length
                        + spec_encode(*tx).len(),
                Result::Err(_) => final(self).tracker == old(self).tracker
                    && *final(self) == *old(self),
            }),
            apply_post(*old(self), *final(self), *tx, report),
    {
        proof {
            reveal(apply_post);
        }
        self.apply_extrinsic(tx)
    }

    /// Imports a block: validates the parent linkage, applies every
    /// transaction it carries, and verifies the header's transaction digest
    /// and state root against the executed result before committing.  Any
    /// invalid or ceiling-breaching transaction, and any root mismatch,
    /// rejects the whole block and discards its overlay.
    #[verifier::rlimit(100)]
    #[verifier::spinoff_prover]
    pub fn execute_block(&mut self, block: &Block) -> (r: Result<(), BlockError>)
        requires
            old(self).wf(),
        ensures
            final(self).wf(),
            ({
                let s = *old(self);
                if s.in_block() {
                    r == Result::<(), BlockError>::Err(BlockError::WrongPhase)
                        && *final(self) == s
                } else if block.header.parent_hash != s.head_hash {
                    r == Result::<(), BlockError>::Err(BlockError::ParentHashMismatch)
                        && *final(self) == s
                } else if block.header.number != s.head_number + 1 {
                    r == Result::<(), BlockError>::Err(BlockError::NumberMismatch)
                        && *final(self) == s
                } else {
                    match r {
                        Result::Ok(_) => {
                            &&& final(self).phase == Phase::Idle
                            &&& final(self).head_number == block.header.number
                            &&& final(self).head_hash == spec_header_hash(block.header)
                            &&& final(self).config == s.config
                            &&& final(self).storage.depth() == 1
                            &&& root_of(final(self).storage.base()) == block.header.state_root
                            &&& (exists|states: Seq<Runtime>| {
                                &&& init_post(s, states[0], block.header.parent_hash,
                                    block.header.number, block.header.digest)
                                &&& import_trace(states, block.transactions@)
                                &&& states.last().extrinsics_hash
                                    == block.header.extrinsics_root
                            })
                        },
                        Result::Err(e) => {
                            &&& final(self).phase == Phase::Errored
                            &&& final(self).config == s.config
                            &&& final(self).head_number == s.head_number
                            &&& final(self).head_hash == s.head_hash
                            &&& final(self).storage.depth() == 1
                            &&& final(self).storage.base() == s.storage.base()
                            &&& (match e {
                                BlockError::WrongPhase => false,
                                BlockError::ParentHashMismatch => false,
                                BlockError::NumberMismatch => false,
                                BlockError::ExtrinsicsRootMismatch => exists|
                                    states: Seq<Runtime>| {
                                    &&& init_post(s, states[0], block.header.parent_hash,
                                        block.header.number, block.header.digest)
                                    &&& import_trace(states, block.transactions@)
                                    &&& states.last().extrinsics_hash
                                        != block.header.extrinsics_root
                                },
                                BlockError::StateRootMismatch => exists|
                                    states: Seq<Runtime>| {
                                    &&& init_post(s, states[0], block.header.parent_hash,
                                        block.header.number, block.header.digest)
                                    &&& import_trace(states, block.transactions@)
                                    &&& states.last().extrinsics_hash
                                        == block.header.extrinsics_root
                                },
                                _ => exists|states: Seq<Runtime>, k: int| {
                                    &&& 0 <= k < block.transactions@.len()
                                    &&& states.len() == k + 1
                                    &&& init_post(s, states[0], block.header.parent_hash,
                                        block.header.number, block.header.digest)
                                    &&& (forall|j: int| 0 <= j < k ==> import_step(states[j],
                                        states[j + 1], block.transactions@[j]))
                                    &&& import_step_fails(states[k], block.transactions@[k],
                                        e)
                                },
                            })
                        },
                    }
                }
            }),
    {
        let ghost s0 = *self;
        let in_block = match self.phase {
            Phase::Inherent | Phase::Accepting => true,
            _ => false,
        };
        if in_block {
            return Result::Err(BlockError::WrongPhase);
        }
        if block.header.parent_hash != self.head_hash {
            return Result::Err(BlockError::ParentHashMismatch);
        }
        if self.head_number == u32::MAX || block.header.number != self.head_number + 1 {
            return Result::Err(BlockError::NumberMismatch);
        }
        match self.initialize_block(block.header.parent_hash, block.header.number,
            block.header.digest) {
            Result::Ok(_) => {},
            Result::Err(e) => {
                proof {
                    assert(false);
                }
                return Result::Err(e);
            },
        }
        let ghost mut states: Seq<Runtime> = seq![*self];
        let mut i: usize = 0;
        while i < block.transactions.len()
            invariant
                i <= block.transactions@.len(),
                self.wf(),
                self.in_block(),
                self.config == s0.config,
                self.head_number == s0.head_number,
                self.head_hash == s0.head_hash,
                self.storage.base() == s0.storage.base(),
                self.block_number == block.header.number,
                self.block_parent == block.header.parent_hash,
                self.block_digest == block.header.digest,
                s0 == *old(self),
                !s0.in_block(),
                block.header.parent_hash == s0.head_hash,
                block.header.number == s0.head_number + 1,
                states.len() == i + 1,
                init_post(s0, states[0], block.header.parent_hash, block.header.number,
                    block.header.digest),
                states.last() == *self,
                forall|j: int| 0 <= j < i ==> import_step(states[j], states[j + 1],
                    block.transactions@[j]),
            decreases block.transactions@.len() - i,
        {
            let ghost states0 = states;
            match self.import_one(&block.transactions[i]) {
                Result::Ok(_) => {},
                Result::Err(e) => {
                    proof {
                        assert(import_step_fails(states0.last(),
                            block.transactions@[i as int], e));
                        assert(states0.len() == i + 1);
                        assert(0 <= i < block.transactions@.len());
                    }
                    return Result::Err(e);
                },
            }
            proof {
                states = states.push(*self);
                assert(states.drop_last() =~= states0);
                assert(import_step(states0.last(), *self, block.transactions@[i as int]));
                assert forall|j: int| 0 <= j < i + 1 implies import_step(states[j],
                    states[j + 1], block.transactions@[j]) by {
                    if j < i {
                        assert(states[j] == states0[j]);
                        assert(states[j + 1] == states0[j + 1]);
                        assert(import_step(states0[j], states0[j + 1],
                            block.transactions@[j]));
                    } else {
                        assert(states[j] == states0.last());
                        assert(states[j + 1] == states.last());
                    }
                }
            }
            i = i + 1;
        }
        if self.extrinsics_hash != block.header.extrinsics_root {
            proof {
                assert(import_trace(states, block.transactions@));
                assert(states.last().extrinsics_hash != block.header.extrinsics_root);
            }
            return self.abort_block(BlockError::ExtrinsicsRootMismatch);
        }
        let under = hash_entries(HASH_SEED, &self.storage.layers[0]);
        let preview = hash_entries(under, &self.storage.layers[1]);
        proof {
            lemma_fold_entries_concat(HASH_SEED, self.storage.base(),
                self.storage.layers@[1]@);
        }
        if preview != block.header.state_root {
            proof {
                assert(import_trace(states, block.transactions@));
                assert(states.last().extrinsics_hash == block.header.extrinsics_root);
            }
            return self.abort_block(BlockError::StateRootMismatch);
        }
        match self.finalize_block() {
            Result::Ok(h) => {
                proof {
                    assert(h == block.header);
                    assert(import_trace(states, block.transactions@));
                    assert(states.last().extrinsics_hash == block.header.extrinsics_root);
                }
                Result::Ok(())
            },
            Result::Err(e) => {
                proof {
                    assert(false);
                }
                Result::Err(e)
            },
        }
    }

    /// Opens a block for authoring on top of the chain head and runs the
    /// timestamp inherent.
    #[verifier::rlimit(100)]
    #[verifier::spinoff_prover]
    fn author_open(&mut self, now: u64, digest: u64) -> (r: Result<(), BlockError>)
        requires
            old(self).wf(),
            !old(self).in_block(),
            old(self).head_number < u32::MAX,
        ensures
            final(self).wf(),
            final(self).config == old(self).config,
            final(self).head_number == old(self).head_number,
            final(self).head_hash == old(self).head_hash,
            (match r {
                Result::Ok(_) => {
                    &&& final(self).in_block()
                    &&& final(self).block_number == old(self).head_number + 1
                    &&& final(self).block_parent == old(self).head_hash
                    &&& final(self).block_digest == digest
                    &&& final(self).tracker.used.compute
                        == spec_weight_of(inherent_tx(now).call).compute
                    &&& final(self).tracker.used.io == spec_weight_of(inherent_tx(now).call).io
                    &&& final(self).tracker.used_length == spec_encode(inherent_tx(now)).len()
                    &&& (exists|mid: Runtime| init_post(*old(self), mid, old(self).head_hash,
                        (old(self).head_number + 1) as BlockNumber, digest)
                        && inherent_post(mid, *final(self), inherent_tx(now),
                            Result::<(), BlockError>::Ok(())))
                },
                Result::Err(_) => !final(self).in_block() && final(self).storage.depth() == 1,
            }),
            ({
                let t0 = (CostTracker {
                    limit: old(self).config.block_cost_limit,
                    length_limit: old(self).config.block_length_limit,
                    used: (Weight { compute: 0, io: 0 }),
                    used_length: 0,
                });
                (now_acceptable(now_of(old(self).storage), now)
                    && t0.can_consume(spec_weight_of(inherent_tx(now).call),
                        spec_encode(inherent_tx(now)).len() as u32)) ==> r is Ok
            }),
    {
        proof {
            reveal(inherent_post);
        }
        let ghost entry = *self;
        let number = self.head_number + 1;
        let parent = self.head_hash;
        match self.initialize_block(parent, number, digest) {
            Result::Ok(_) => {},
            Result::Err(e) => {
                proof {
                    assert(false);
                }
                return Result::Err(e);
            },
        }
        let ghost opened = *self;
        let inh = Transaction {
            origin: TxOrigin::Unsigned,
            call: RuntimeCall::Timestamp(TimestampCall::SetNow { now }),
            extension: crate::transaction::TxExtension {
                spec_version: 0,
                genesis_hash: 0,
                era: crate::transaction::Era { birth: 0, lifetime: 0 },
                nonce: 0,
                cost_limit: Weight { compute: 0, io: 0 },
                metadata_hash: 0,
            },
        };
        proof {
            assert(inh == inherent_tx(now));
        }
        let ri = self.apply_inherent(&inh);
        let ghost closed = *self;
        match ri {
            Result::Ok(u) => {
                proof {
                    assert(u == ());
                    assert(ri == Result::<(), BlockError>::Ok(u));
                    assert(init_post(entry, opened, entry.head_hash,
                        (entry.head_number + 1) as BlockNumber, digest));
                    assert(inherent_post(opened, closed, inherent_tx(now),
                        Result::<(), BlockError>::Ok(())));
                }
                Result::Ok(())
            },
            Result::Err(e) => {
                proof {
                    // only the budget or the clock can have refused the inherent
                    assert(opened.tracker == (CostTracker {
                        limit: entry.config.block_cost_limit,
                        length_limit: entry.config.block_length_limit,
                        used: (Weight { compute: 0, io: 0 }),
                        used_length: 0,
                    }));
                    assert(now_of(opened.storage) == now_of(entry.storage));
                }
                Result::Err(e)
            },
        }
    }

    /// Authors a block: runs the timestamp inherent, then greedily applies
    /// the given candidates in arrival order.  An invalid candidate is
    /// skipped; the first candidate past the cost ceiling halts inclusion,
    /// and it and everything after it is excluded and left uncharged.
    /// Returns the finished block beside one report per candidate.
    #[verifier::rlimit(100)]
    #[verifier::spinoff_prover]
    pub fn build_block(&mut self, now: u64, digest: u64, txs: &Vec<Transaction>)
        -> (r: Result<(Block, Vec<Result<Result<Weight, DispatchError>, ApplyError>>),
            BlockError>)
        requires
            old(self).wf(),
        ensures
            final(self).wf(),
            ({
                let s = *old(self);
                match r {
                    Result::Ok(out) => {
                        &&& !s.in_block()
                        &&& out.0.header.parent_hash == s.head_hash
                        &&& out.0.header.number == s.head_number + 1
                        &&& out.0.transactions@.len() >= 1
                        &&& out.0.transactions@[0] == inherent_tx(now)
                        &&& final(self).phase == Phase::Idle
                        &&& final(self).config == s.config
                        &&& final(self).head_number == s.head_number + 1
                        &&& final(self).head_hash == spec_header_hash(out.0.header)
                        &&& out.1@.len() == txs@.len()
                        &&& (forall|i: int, j: int| 0 <= i <= j < out.1@.len()
                            && out.1@[i] == Result::<Result<Weight, DispatchError>,
                                ApplyError>::Err(ApplyError::CostExceeded)
                            ==> out.1@[j] == Result::<Result<Weight, DispatchError>,
                                ApplyError>::Err(ApplyError::CostExceeded))
                        &&& final(self).tracker.used.compute
                            == spec_weight_of(inherent_tx(now).call).compute
                                + sum_included_compute(txs@, out.1@, txs@.len() as int)
                        &&& final(self).tracker.used.io
                            == spec_weight_of(inherent_tx(now).call).io
                                + sum_included_io(txs@, out.1@, txs@.len() as int)
                        &&& final(self).tracker.used_length
                            == spec_encode(inherent_tx(now)).len()
                                + sum_included_len(txs@, out.1@, txs@.len() as int)
                        &&& final(self).tracker.used.spec_le(s.config.block_cost_limit)
                        &&& final(self).tracker.used_length <= s.config.block_length_limit
                        &&& (exists|s_init: Runtime, states: Seq<Runtime>| {
                            &&& init_post(s, s_init, s.head_hash,
                                (s.head_number + 1) as BlockNumber, digest)
                            &&& inherent_post(s_init, states[0], inherent_tx(now),
                                Result::<(), BlockError>::Ok(()))
                            &&& author_trace(states, txs@, out.1@)
                            &&& states.last().extrinsics_hash == out.0.header.extrinsics_root
                        })
                    },
                    Result::Err(_) => {
                        &&& final(self).config == s.config
                        &&& final(self).head_number == s.head_number
                        &&& final(self).head_hash == s.head_hash
                        &&& (*final(self) == s || (!final(self).in_block()
                            && final(self).storage.depth() == 1))
                    },
                }
            }),
            ({
                let t0 = (CostTracker {
                    limit: old(self).config.block_cost_limit,
                    length_limit: old(self).config.block_length_limit,
                    used: (Weight { compute: 0, io: 0 }),
                    used_length: 0,
                });
                (!old(self).in_block() && old(self).head_number < u32::MAX
                    && now_acceptable(now_of(old(self).storage), now)
                    && t0.can_consume(spec_weight_of(inherent_tx(now).call),
                        spec_encode(inherent_tx(now)).len() as u32)) ==> r is Ok
            }),
    {
        let ghost s0 = *self;
        let in_block = match self.phase {
            Phase::Inherent | Phase::Accepting => true,
            _ => false,
        };
        if in_block {
            return Result::Err(BlockError::WrongPhase);
        }
        if self.head_number == u32::MAX {
            return Result::Err(BlockError::NumberMismatch);
        }
        match self.author_open(now, digest) {
            Result::Ok(_) => {},
            Result::Err(e) => {
                return Result::Err(e);
            },
        }
        let inh = Transaction {
            origin: TxOrigin::Unsigned,
            call: RuntimeCall::Timestamp(TimestampCall::SetNow { now }),
            extension: crate::transaction::TxExtension {
                spec_version: 0,
                genesis_hash: 0,
                era: crate::transaction::Era { birth: 0, lifetime: 0 },
                nonce: 0,
                cost_limit: Weight { compute: 0, io: 0 },
                metadata_hash: 0,
            },
        };
        proof {
            assert(inh == inherent_tx(now));
        }
        let ghost s1 = *self;
        let ghost mut states: Seq<Runtime> = seq![*self];
        let mut reports: Vec<Result<Result<Weight, DispatchError>, ApplyError>> = Vec::new();
        let mut included: Vec<Transaction> = Vec::new();
        included.push(inh);
        let mut halted = false;
        let mut i: usize = 0;
        while i < txs.len()
            invariant
                i <= txs@.len(),
                reports@.len() == i,
                self.wf(),
                self.in_block(),
                self.config == s0.config,
                self.head_number == s0.head_number,
                self.head_hash == s0.head_hash,
                self.block_number == s0.head_number + 1,
                self.block_parent == s0.head_hash,
                self.block_digest == digest,
                included@.len() >= 1,
                included@[0] == inherent_tx(now),
                states.len() == i + 1,
                states[0] == s1,
                states.last() == *self,
                forall|j: int| 0 <= j < i ==> author_step(states[j], states[j + 1], txs@[j],
                    reports@[j], spec_halted(reports@, j)),
                halted == spec_halted(reports@, i as int),
                s0 == *old(self),
                !s0.in_block(),
                (exists|m: Runtime| init_post(s0, m, s0.head_hash,
                    (s0.head_number + 1) as BlockNumber, digest)
                    && inherent_post(m, s1, inherent_tx(now),
                        Result::<(), BlockError>::Ok(()))),
                (forall|a: int, b: int| 0 <= a <= b < reports@.len()
                    && reports@[a] == Result::<Result<Weight, DispatchError>,
                        ApplyError>::Err(ApplyError::CostExceeded)
                    ==> reports@[b] == Result::<Result<Weight, DispatchError>,
                        ApplyError>::Err(ApplyError::CostExceeded)),
                halted <==> (reports@.len() > 0 && reports@[reports@.len() - 1]
                    == Result::<Result<Weight, DispatchError>, ApplyError>::Err(
                        ApplyError::CostExceeded)),
                self.tracker.used.compute == spec_weight_of(inherent_tx(now).call).compute
                    + sum_included_compute(txs@, reports@, i as int),
                self.tracker.used.io == spec_weight_of(inherent_tx(now).call).io
                    + sum_included_io(txs@, reports@, i as int),
                self.tracker.used_length == spec_encode(inherent_tx(now)).len()
                    + sum_included_len(txs@, reports@, i as int),
            decreases txs@.len() - i,
        {
            let ghost reports0 = reports@;
            let ghost states0 = states;
            let ghost halted0 = halted;
            let report: Result<Result<Weight, DispatchError>, ApplyError>;
            if halted {
                report = Result::Err(ApplyError::CostExceeded);
            } else {
                match self.admit_one(&txs[i]) {
                    Result::Ok(inner) => {
                        included.push(txs[i]);
                        report = Result::Ok(inner);
                    },
                    Result::Err(ApplyError::CostExceeded) => {
                        halted = true;
                        report = Result::Err(ApplyError::CostExceeded);
                    },
                    Result::Err(e) => {
                        report = Result::Err(e);
                    },
                }
            }
            reports.push(report);
            proof {
                states = states.push(*self);
                assert(reports@.drop_last() =~= reports0);
                assert(reports@[i as int] == report);
                assert forall|j: int| 0 <= j < i implies reports@[j] == reports0[j] by {}
                lemma_sum_included_push(txs@, reports0, report, i as int);
                assert(states.drop_last() =~= states0);
                assert forall|j: int| 0 <= j <= i implies spec_halted(reports@, j)
                    == spec_halted(reports0, j) by {
                    if spec_halted(reports@, j) {
                        let k = choose|k: int| 0 <= k < j && reports@[k]
                            == Result::<Result<Weight, DispatchError>, ApplyError>::Err(
                                ApplyError::CostExceeded);
                        assert(reports0[k] == reports@[k]);
                        assert(spec_halted(reports0, j));
                    }
                    if spec_halted(reports0, j) {
                        let k = choose|k: int| 0 <= k < j && reports0[k]
                            == Result::<Result<Weight, DispatchError>, ApplyError>::Err(
                                ApplyError::CostExceeded);
                        assert(reports@[k] == reports0[k]);
                        assert(spec_halted(reports@, j));
                    }
                }
                assert(spec_halted(reports@, i as int) == halted0);
                assert(author_step(states0.last(), *self, txs@[i as int], report, halted0));
                assert forall|j: int| 0 <= j < i + 1 implies author_step(states[j],
                    states[j + 1], txs@[j], reports@[j], spec_halted(reports@, j)) by {
                    if j < i {
                        assert(states[j] == states0[j]);
                        assert(states[j + 1] == states0[j + 1]);
                        assert(reports@[j] == reports0[j]);
                        assert(author_step(states0[j], states0[j + 1], txs@[j], reports0[j],
                            spec_halted(reports0, j)));
                    } else {
                        assert(states[j] == states0.last());
                        assert(states[j + 1] == states.last());
                        assert(reports@[j] == report);
                    }
                }
                assert(spec_halted(reports@, i + 1) == (halted0 || report
                    == Result::<Result<Weight, DispatchError>, ApplyError>::Err(
                        ApplyError::CostExceeded))) by {
                    if spec_halted(reports@, i + 1) {
                        let k = choose|k: int| 0 <= k < i + 1 && reports@[k]
                            == Result::<Result<Weight, DispatchError>, ApplyError>::Err(
                                ApplyError::CostExceeded);
                        if k < i {
                            assert(spec_halted(reports@, i as int));
                        }
                    }
                    if halted0 {
                        assert(spec_halted(reports@, i as int));
                        let k = choose|k: int| 0 <= k < i && reports@[k]
                            == Result::<Result<Weight, DispatchError>, ApplyError>::Err(
                                ApplyError::CostExceeded);
                        assert(0 <= k < i + 1);
                    }
                    if report == Result::<Result<Weight, DispatchError>, ApplyError>::Err(
                        ApplyError::CostExceeded) {
                        assert(reports@[i as int] == report);
                    }
                }
            }
            i = i + 1;
        }
        let header = match self.finalize_block() {
            Result::Ok(h) => h,
            Result::Err(e) => {
                proof {
                    assert(false);
                }
                return Result::Err(e);
            },
        };
        proof {
            let s_init = choose|m: Runtime| init_post(s0, m, s0.head_hash,
                (s0.head_number + 1) as BlockNumber, digest)
                && inherent_post(m, s1, inherent_tx(now), Result::<(), BlockError>::Ok(()));
            assert(init_post(s0, s_init, s0.head_hash, (s0.head_number + 1) as BlockNumber,
                digest));
            assert(inherent_post(s_init, states[0], inherent_tx(now),
                Result::<(), BlockError>::Ok(())));
            assert(author_trace(states, txs@, reports@));
            assert(states.last().extrinsics_hash == header.extrinsics_root);
        }
        Result::Ok((Block { header, transactions: included }, reports))
    }
}

} // verus!
