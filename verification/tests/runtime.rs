use solochain_runtime::balances::BalancesError;
use solochain_runtime::calls::{BalancesCall, RuntimeCall, TemplateCall, TimestampCall};
use solochain_runtime::codec::u32_to_le;
use solochain_runtime::dispatch::{DispatchError, ModuleError};
use solochain_runtime::events::RuntimeEvent;
use solochain_runtime::executive::{ApplyError, BlockError, Phase, Runtime};
use solochain_runtime::extensions::InvalidTransaction;
use solochain_runtime::system::{nonce_key, SystemEvent};
use solochain_runtime::template::{get_something, Error};
use solochain_runtime::transaction::{Era, Transaction, TxExtension, TxOrigin};
use solochain_runtime::weights::Weight;
use solochain_runtime::{native_version, Config, SPEC_VERSION};

fn test_config() -> Config {
    Config {
        spec_version: SPEC_VERSION,
        genesis_hash: 0x47,
        metadata_hash: 0x4d,
        block_cost_limit: Weight { compute: 100, io: 100 },
        tx_cost_limit: Weight { compute: 50, io: 50 },
        block_length_limit: 10_000,
        tx_length_limit: 1_000,
    }
}

fn ext_for(cfg: &Config, nonce: u32, cost: Weight) -> TxExtension {
    TxExtension {
        spec_version: cfg.spec_version,
        genesis_hash: cfg.genesis_hash,
        era: Era { birth: 0, lifetime: 0 },
        nonce,
        cost_limit: cost,
        metadata_hash: cfg.metadata_hash,
    }
}

fn signed(who: u64, call: RuntimeCall, extension: TxExtension) -> Transaction {
    Transaction { origin: TxOrigin::Signed { who, signature: 0x5157 }, call, extension }
}

#[test]
fn version_constants() {
    let v = native_version();
    assert_eq!(v.spec_version, 100);
    assert_eq!(v.transaction_version, 1);
}

#[test]
fn accepts_exact_nonce_and_meters_cost() {
    // account 7 at nonce 4 submits a call declaring nonce 4 and a cost of 10
    // units against a ceiling of 100: accepted, nonce 5, running cost 10
    let cfg = test_config();
    let mut rt = Runtime::new(cfg);
    rt.genesis_endow(7, 1_000_000).unwrap();
    rt.genesis_set(nonce_key(7), u32_to_le(4)).unwrap();
    rt.initialize_block(cfg.genesis_hash, 1, 0).unwrap();
    let tx = signed(7, RuntimeCall::Template(TemplateCall::DoSomething { something: 99 }),
        ext_for(&cfg, 4, Weight { compute: 10, io: 1 }));
    let r = rt.apply_extrinsic(&tx);
    assert_eq!(r, Ok(Ok(Weight { compute: 5, io: 1 })));
    assert_eq!(rt.account_nonce(7), 5);
    assert_eq!(rt.tracker.used.compute, 10);
    assert_eq!(get_something(&rt.storage), Some(99));
}

#[test]
fn rejects_stale_nonce_on_replay() {
    // the same account immediately resubmits a transaction declaring nonce 4
    let cfg = test_config();
    let mut rt = Runtime::new(cfg);
    rt.genesis_endow(7, 1_000_000).unwrap();
    rt.genesis_set(nonce_key(7), u32_to_le(4)).unwrap();
    rt.initialize_block(cfg.genesis_hash, 1, 0).unwrap();
    let tx = signed(7, RuntimeCall::Template(TemplateCall::DoSomething { something: 99 }),
        ext_for(&cfg, 4, Weight { compute: 10, io: 1 }));
    assert!(rt.apply_extrinsic(&tx).is_ok());
    let r = rt.apply_extrinsic(&tx);
    assert_eq!(r, Err(ApplyError::Invalid(InvalidTransaction::StaleNonce)));
    assert_eq!(rt.account_nonce(7), 5);
    assert_eq!(rt.tracker.used.compute, 10);
}

#[test]
fn failed_handler_is_rolled_back_but_charged() {
    // the transfer handler debits the sender before it notices the
    // destination would overflow: the debit leaves no trace, the fee stands,
    // and a failure event is recorded
    let cfg = test_config();
    let mut rt = Runtime::new(cfg);
    rt.genesis_endow(7, 1_000_000).unwrap();
    rt.genesis_endow(8, u128::MAX).unwrap();
    let tx = signed(7, RuntimeCall::Balances(BalancesCall::Transfer { dest: 8, value: 5 }),
        ext_for(&cfg, 0, Weight { compute: 10, io: 5 }));
    let fee = rt.query_fee(&tx).total;
    rt.initialize_block(cfg.genesis_hash, 1, 0).unwrap();
    let r = rt.apply_extrinsic(&tx);
    assert_eq!(r, Ok(Err(DispatchError::Module(ModuleError::Balances(
        BalancesError::Overflow)))));
    assert_eq!(rt.free_balance(8), u128::MAX);
    assert_eq!(rt.free_balance(7), 1_000_000 - fee);
    assert_eq!(rt.account_nonce(7), 1);
    let last = rt.events.last().unwrap();
    assert_eq!(last.event, RuntimeEvent::System(SystemEvent::ExtrinsicFailed {
        error: DispatchError::Module(ModuleError::Balances(BalancesError::Overflow)),
    }));
}

#[test]
fn ceiling_admits_a_prefix_and_excludes_the_rest() {
    // ten transactions each declaring 15 cost units against a ceiling of
    // 100: six fit beside the inherent, the seventh breaches the ceiling and
    // it and everything after it is excluded and left uncharged
    let cfg = test_config();
    let mut rt = Runtime::new(cfg);
    rt.genesis_endow(7, 1_000_000).unwrap();
    let mut txs = Vec::new();
    for n in 0..10u32 {
        txs.push(signed(7, RuntimeCall::Balances(BalancesCall::Transfer { dest: 9, value: 1 }),
            ext_for(&cfg, n, Weight { compute: 15, io: 2 })));
    }
    let fee = rt.query_fee(&txs[0]).total;
    let (block, reports) = rt.build_block(1_000, 0, &txs).unwrap();
    assert_eq!(reports.len(), 10);
    for i in 0..6 {
        assert_eq!(reports[i], Ok(Ok(Weight { compute: 5, io: 2 })));
    }
    for i in 6..10 {
        assert_eq!(reports[i], Err(ApplyError::CostExceeded));
    }
    // the inherent (2 units) plus six times 15 declared units
    assert_eq!(rt.tracker.used.compute, 92);
    assert_eq!(rt.account_nonce(7), 6);
    assert_eq!(rt.free_balance(9), 6);
    assert_eq!(rt.free_balance(7), 1_000_000 - 6 * (fee - 10) - 6);
    // one inherent plus the six admitted transfers travel in the block
    assert_eq!(block.transactions.len(), 7);
}

#[test]
fn import_accepts_authored_block_and_rejects_reimport() {
    // authoring then importing against the same genesis reaches the same
    // head; importing the same block twice is rejected by the parent-hash
    // linkage check and the chain head stays unchanged
    let cfg = test_config();
    let mut author = Runtime::new(cfg);
    author.genesis_endow(7, 1_000_000).unwrap();
    let mut importer = Runtime::new(cfg);
    importer.genesis_endow(7, 1_000_000).unwrap();
    let txs = vec![signed(7, RuntimeCall::Template(TemplateCall::DoSomething { something: 3 }),
        ext_for(&cfg, 0, Weight { compute: 10, io: 1 }))];
    let (block, reports) = author.build_block(1_000, 0, &txs).unwrap();
    assert!(reports[0].is_ok());
    assert_eq!(importer.execute_block(&block), Ok(()));
    assert_eq!(importer.head_hash, author.head_hash);
    assert_eq!(importer.account_nonce(7), 1);
    assert_eq!(get_something(&importer.storage), Some(3));
    assert_eq!(solochain_runtime::timestamp::get_now(&importer.storage), Some(1_000));
    let head_before = importer.head_hash;
    assert_eq!(importer.execute_block(&block), Err(BlockError::ParentHashMismatch));
    assert_eq!(importer.head_hash, head_before);
    assert_eq!(importer.head_number, 1);
}

#[test]
fn import_rejects_tampered_state_root() {
    let cfg = test_config();
    let mut author = Runtime::new(cfg);
    author.genesis_endow(7, 1_000_000).unwrap();
    let mut importer = Runtime::new(cfg);
    importer.genesis_endow(7, 1_000_000).unwrap();
    let txs = vec![signed(7, RuntimeCall::Template(TemplateCall::DoSomething { something: 3 }),
        ext_for(&cfg, 0, Weight { compute: 10, io: 1 }))];
    let (mut block, _) = author.build_block(1_000, 0, &txs).unwrap();
    block.header.state_root ^= 1;
    assert_eq!(importer.execute_block(&block), Err(BlockError::StateRootMismatch));
    assert_eq!(importer.head_number, 0);
}

#[test]
fn import_rejects_misplaced_inherent() {
    let cfg = test_config();
    let mut author = Runtime::new(cfg);
    author.genesis_endow(7, 1_000_000).unwrap();
    let mut importer = Runtime::new(cfg);
    importer.genesis_endow(7, 1_000_000).unwrap();
    let txs = vec![signed(7, RuntimeCall::Template(TemplateCall::DoSomething { something: 3 }),
        ext_for(&cfg, 0, Weight { compute: 10, io: 1 }))];
    let (mut block, _) = author.build_block(1_000, 0, &txs).unwrap();
    // move the mandatory inherent behind the submitted transaction
    block.transactions.swap(0, 1);
    assert_eq!(importer.execute_block(&block), Err(BlockError::NotInherent));
    assert_eq!(importer.head_number, 0);
}

#[test]
fn import_rejects_invalid_transaction_in_block() {
    let cfg = test_config();
    let mut author = Runtime::new(cfg);
    author.genesis_endow(7, 1_000_000).unwrap();
    let mut importer = Runtime::new(cfg);
    // the importer's chain never funded account 7, so the fee is uncovered
    let txs = vec![signed(7, RuntimeCall::Template(TemplateCall::DoSomething { something: 3 }),
        ext_for(&cfg, 0, Weight { compute: 10, io: 1 }))];
    let (block, _) = author.build_block(1_000, 0, &txs).unwrap();
    assert_eq!(importer.execute_block(&block),
        Err(BlockError::InvalidTransaction(InvalidTransaction::InsufficientFee)));
}

#[test]
fn cause_error_without_value_fails_dispatch() {
    let cfg = test_config();
    let mut rt = Runtime::new(cfg);
    rt.genesis_endow(7, 1_000_000).unwrap();
    rt.initialize_block(cfg.genesis_hash, 1, 0).unwrap();
    let tx = signed(7, RuntimeCall::Template(TemplateCall::CauseError),
        ext_for(&cfg, 0, Weight { compute: 10, io: 1 }));
    let r = rt.apply_extrinsic(&tx);
    assert_eq!(r, Ok(Err(DispatchError::Module(ModuleError::Template(Error::NoneValue)))));
}

#[test]
fn cause_error_increments_stored_value() {
    let cfg = test_config();
    let mut rt = Runtime::new(cfg);
    rt.genesis_endow(7, 1_000_000).unwrap();
    rt.initialize_block(cfg.genesis_hash, 1, 0).unwrap();
    let set = signed(7, RuntimeCall::Template(TemplateCall::DoSomething { something: 5 }),
        ext_for(&cfg, 0, Weight { compute: 10, io: 1 }));
    assert_eq!(rt.apply_extrinsic(&set), Ok(Ok(Weight { compute: 5, io: 1 })));
    let bump = signed(7, RuntimeCall::Template(TemplateCall::CauseError),
        ext_for(&cfg, 1, Weight { compute: 10, io: 1 }));
    assert_eq!(rt.apply_extrinsic(&bump), Ok(Ok(Weight { compute: 5, io: 1 })));
    assert_eq!(get_something(&rt.storage), Some(6));
}

#[test]
fn cause_error_at_maximum_fails_with_storage_overflow() {
    let cfg = test_config();
    let mut rt = Runtime::new(cfg);
    rt.genesis_endow(7, 1_000_000).unwrap();
    rt.genesis_set(solochain_runtime::template::something_key(), u32_to_le(u32::MAX)).unwrap();
    rt.initialize_block(cfg.genesis_hash, 1, 0).unwrap();
    let tx = signed(7, RuntimeCall::Template(TemplateCall::CauseError),
        ext_for(&cfg, 0, Weight { compute: 10, io: 1 }));
    let r = rt.apply_extrinsic(&tx);
    assert_eq!(r, Ok(Err(DispatchError::Module(ModuleError::Template(
        Error::StorageOverflow)))));
    assert_eq!(get_something(&rt.storage), Some(u32::MAX));
}

#[test]
fn transfer_moves_balance_and_emits_event() {
    let cfg = test_config();
    let mut rt = Runtime::new(cfg);
    rt.genesis_endow(7, 1_000_000).unwrap();
    let tx = signed(7, RuntimeCall::Balances(BalancesCall::Transfer { dest: 8, value: 250 }),
        ext_for(&cfg, 0, Weight { compute: 10, io: 5 }));
    let details = rt.query_fee(&tx);
    assert_eq!(details.weight_fee, 15);
    assert_eq!(details.total, details.weight_fee + details.length_fee);
    rt.initialize_block(cfg.genesis_hash, 1, 0).unwrap();
    assert_eq!(rt.apply_extrinsic(&tx), Ok(Ok(Weight { compute: 5, io: 2 })));
    assert_eq!(rt.free_balance(8), 250);
    // the actual fee is the table cost of the transfer plus the length
    let actual_fee = 5 + 2 + details.length_fee;
    assert_eq!(rt.free_balance(7), 1_000_000 - 250 - actual_fee);
    assert!(rt.events.iter().any(|e| e.event
        == RuntimeEvent::Balances(solochain_runtime::balances::BalancesEvent::Transferred {
            from: 7,
            to: 8,
            amount: 250,
        })));
}

#[test]
fn pipeline_rejects_each_bad_extension() {
    let cfg = test_config();
    let mut rt = Runtime::new(cfg);
    rt.genesis_endow(7, 1_000_000).unwrap();
    rt.initialize_block(cfg.genesis_hash, 1, 0).unwrap();
    let call = RuntimeCall::Template(TemplateCall::DoSomething { something: 1 });
    let good = ext_for(&cfg, 0, Weight { compute: 10, io: 1 });

    let mut e = good;
    e.spec_version += 1;
    assert_eq!(rt.apply_extrinsic(&signed(7, call, e)),
        Err(ApplyError::Invalid(InvalidTransaction::SpecVersionMismatch)));

    let mut e = good;
    e.genesis_hash ^= 1;
    assert_eq!(rt.apply_extrinsic(&signed(7, call, e)),
        Err(ApplyError::Invalid(InvalidTransaction::GenesisMismatch)));

    let mut e = good;
    e.era = Era { birth: 5, lifetime: 10 };
    assert_eq!(rt.apply_extrinsic(&signed(7, call, e)),
        Err(ApplyError::Invalid(InvalidTransaction::Premature)));

    let mut e = good;
    e.era = Era { birth: 0, lifetime: 1 };
    assert_eq!(rt.apply_extrinsic(&signed(7, call, e)),
        Err(ApplyError::Invalid(InvalidTransaction::Expired)));

    let mut e = good;
    e.nonce = 3;
    assert_eq!(rt.apply_extrinsic(&signed(7, call, e)),
        Err(ApplyError::Invalid(InvalidTransaction::FutureNonce)));

    let mut e = good;
    e.cost_limit = Weight { compute: 51, io: 1 };
    assert_eq!(rt.apply_extrinsic(&signed(7, call, e)),
        Err(ApplyError::Invalid(InvalidTransaction::CostOverLimit)));

    let mut e = good;
    e.cost_limit = Weight { compute: 4, io: 1 };
    assert_eq!(rt.apply_extrinsic(&signed(7, call, e)),
        Err(ApplyError::Invalid(InvalidTransaction::CostTooLow)));

    let mut e = good;
    e.metadata_hash ^= 1;
    assert_eq!(rt.apply_extrinsic(&signed(7, call, e)),
        Err(ApplyError::Invalid(InvalidTransaction::MetadataMismatch)));

    // an origin-less call demanding a signature
    let unsigned = Transaction { origin: TxOrigin::Unsigned, call, extension: good };
    assert_eq!(rt.apply_extrinsic(&unsigned),
        Err(ApplyError::Invalid(InvalidTransaction::MissingSignature)));

    // the zero account may not send
    assert_eq!(rt.apply_extrinsic(&signed(0, call, good)),
        Err(ApplyError::Invalid(InvalidTransaction::ZeroSender)));

    // a mandatory inherent submitted as a regular transaction
    let mandatory = signed(7, RuntimeCall::Timestamp(TimestampCall::SetNow { now: 1 }), good);
    assert_eq!(rt.apply_extrinsic(&mandatory),
        Err(ApplyError::Invalid(InvalidTransaction::MandatoryDispatch)));

    // an unfunded sender cannot cover the fee
    assert_eq!(rt.apply_extrinsic(&signed(55, call, good)),
        Err(ApplyError::Invalid(InvalidTransaction::InsufficientFee)));

    // nothing of all that was included or charged
    assert_eq!(rt.tracker.used.compute, 0);
    assert_eq!(rt.free_balance(7), 1_000_000);
    assert_eq!(rt.events.len(), 0);
}

#[test]
fn timestamp_must_move_forward() {
    let cfg = test_config();
    let mut rt = Runtime::new(cfg);
    rt.genesis_endow(7, 1_000_000).unwrap();
    let txs: Vec<Transaction> = Vec::new();
    assert!(rt.build_block(1_000, 0, &txs).is_ok());
    // a second block with the same timestamp fails its inherent
    assert_eq!(rt.build_block(1_000, 0, &txs).err(), Some(BlockError::InherentFailure));
    assert_eq!(rt.phase, Phase::Errored);
    assert_eq!(rt.head_number, 1);
    // a later timestamp authors fine again
    assert!(rt.build_block(2_000, 0, &txs).is_ok());
    assert_eq!(rt.head_number, 2);
}

#[test]
fn operations_demand_their_phase() {
    let cfg = test_config();
    let mut rt = Runtime::new(cfg);
    let tx = signed(7, RuntimeCall::Template(TemplateCall::DoSomething { something: 1 }),
        ext_for(&cfg, 0, Weight { compute: 10, io: 1 }));
    assert_eq!(rt.apply_extrinsic(&tx), Err(ApplyError::WrongPhase));
    assert_eq!(rt.finalize_block(), Err(BlockError::WrongPhase));
    rt.initialize_block(cfg.genesis_hash, 1, 0).unwrap();
    assert_eq!(rt.initialize_block(cfg.genesis_hash, 1, 0), Err(BlockError::WrongPhase));
    assert_eq!(rt.genesis_set(nonce_key(1), u32_to_le(1)), Err(BlockError::WrongPhase));
    let h = rt.finalize_block().unwrap();
    assert_eq!(h.number, 1);
    // genesis loading is only allowed before the first block
    assert_eq!(rt.genesis_endow(1, 1), Err(BlockError::WrongPhase));
}

#[test]
fn initialize_checks_linkage() {
    let cfg = test_config();
    let mut rt = Runtime::new(cfg);
    assert_eq!(rt.initialize_block(0xbad, 1, 0), Err(BlockError::ParentHashMismatch));
    assert_eq!(rt.initialize_block(cfg.genesis_hash, 2, 0), Err(BlockError::NumberMismatch));
    assert_eq!(rt.initialize_block(cfg.genesis_hash, 1, 0), Ok(()));
}

#[test]
fn self_transfer_changes_nothing_but_the_fee() {
    let cfg = test_config();
    let mut rt = Runtime::new(cfg);
    rt.genesis_endow(7, 1_000_000).unwrap();
    let tx = signed(7, RuntimeCall::Balances(BalancesCall::Transfer { dest: 7, value: 100 }),
        ext_for(&cfg, 0, Weight { compute: 10, io: 5 }));
    let len_fee = rt.query_fee(&tx).length_fee;
    rt.initialize_block(cfg.genesis_hash, 1, 0).unwrap();
    assert_eq!(rt.apply_extrinsic(&tx), Ok(Ok(Weight { compute: 5, io: 2 })));
    assert_eq!(rt.free_balance(7), 1_000_000 - (5 + 2 + len_fee));
}

#[test]
fn transfer_with_insufficient_funds_fails_dispatch_cleanly() {
    let cfg = test_config();
    let mut rt = Runtime::new(cfg);
    rt.genesis_endow(7, 200).unwrap();
    let tx = signed(7, RuntimeCall::Balances(BalancesCall::Transfer { dest: 8, value: 150 }),
        ext_for(&cfg, 0, Weight { compute: 10, io: 5 }));
    let fee = rt.query_fee(&tx).total;
    rt.initialize_block(cfg.genesis_hash, 1, 0).unwrap();
    // the fee leaves less than the transferred value
    let r = rt.apply_extrinsic(&tx);
    assert_eq!(r, Ok(Err(DispatchError::Module(ModuleError::Balances(
        BalancesError::InsufficientBalance)))));
    assert_eq!(rt.free_balance(7), 200 - fee);
    assert_eq!(rt.free_balance(8), 0);
}
