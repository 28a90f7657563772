use solochain_runtime::calls::{BalancesCall, RuntimeCall, TemplateCall, TimestampCall};
use solochain_runtime::codec::{decode_transaction, encode_transaction, DecodeError};
use solochain_runtime::transaction::{Era, Transaction, TxExtension, TxOrigin};
use solochain_runtime::weights::Weight;

fn sample_extension() -> TxExtension {
    TxExtension {
        spec_version: 100,
        genesis_hash: 0x1122_3344_5566_7788,
        era: Era { birth: 7, lifetime: 64 },
        nonce: 42,
        cost_limit: Weight { compute: 15, io: 3 },
        metadata_hash: 0x99aa_bbcc_ddee_ff00,
    }
}

#[test]
fn round_trip_signed_transfer() {
    let tx = Transaction {
        origin: TxOrigin::Signed { who: 11, signature: 0xdead_beef },
        call: RuntimeCall::Balances(BalancesCall::Transfer { dest: 22, value: u128::MAX - 5 }),
        extension: sample_extension(),
    };
    let bytes = encode_transaction(&tx);
    assert_eq!(decode_transaction(&bytes), Ok(tx));
}

#[test]
fn round_trip_unsigned_timestamp() {
    let tx = Transaction {
        origin: TxOrigin::Unsigned,
        call: RuntimeCall::Timestamp(TimestampCall::SetNow { now: u64::MAX }),
        extension: TxExtension {
            spec_version: 0,
            genesis_hash: 0,
            era: Era { birth: 0, lifetime: 0 },
            nonce: 0,
            cost_limit: Weight { compute: 0, io: 0 },
            metadata_hash: 0,
        },
    };
    let bytes = encode_transaction(&tx);
    assert_eq!(decode_transaction(&bytes), Ok(tx));
}

#[test]
fn round_trip_do_something_immortal_era() {
    let mut ext = sample_extension();
    ext.era = Era { birth: 0, lifetime: 0 };
    let tx = Transaction {
        origin: TxOrigin::Signed { who: u64::MAX, signature: 1 },
        call: RuntimeCall::Template(TemplateCall::DoSomething { something: u32::MAX }),
        extension: ext,
    };
    let bytes = encode_transaction(&tx);
    assert_eq!(decode_transaction(&bytes), Ok(tx));
}

#[test]
fn round_trip_cause_error_extreme_extension() {
    let tx = Transaction {
        origin: TxOrigin::Signed { who: 1, signature: u64::MAX },
        call: RuntimeCall::Template(TemplateCall::CauseError),
        extension: TxExtension {
            spec_version: u32::MAX,
            genesis_hash: u64::MAX,
            era: Era { birth: u32::MAX, lifetime: u32::MAX },
            nonce: u32::MAX,
            cost_limit: Weight { compute: u64::MAX, io: u64::MAX },
            metadata_hash: u64::MAX,
        },
    };
    let bytes = encode_transaction(&tx);
    assert_eq!(decode_transaction(&bytes), Ok(tx));
}

#[test]
fn decode_rejects_empty() {
    let bytes: Vec<u8> = Vec::new();
    assert_eq!(decode_transaction(&bytes), Err(DecodeError::Truncated));
}

#[test]
fn decode_rejects_bad_origin_tag() {
    let bytes = vec![9u8];
    assert_eq!(decode_transaction(&bytes), Err(DecodeError::BadOriginTag));
}

#[test]
fn decode_rejects_unknown_call() {
    // unsigned origin, then a module id no module owns
    let mut bytes = vec![0u8, 200u8, 0u8];
    bytes.extend(std::iter::repeat(0u8).take(60));
    assert_eq!(decode_transaction(&bytes), Err(DecodeError::UnknownCall));
}

#[test]
fn decode_rejects_truncated_extension() {
    let tx = Transaction {
        origin: TxOrigin::Unsigned,
        call: RuntimeCall::Timestamp(TimestampCall::SetNow { now: 5 }),
        extension: sample_extension(),
    };
    let mut bytes = encode_transaction(&tx);
    bytes.pop();
    assert_eq!(decode_transaction(&bytes), Err(DecodeError::Truncated));
}

#[test]
fn decode_rejects_trailing_bytes() {
    let tx = Transaction {
        origin: TxOrigin::Unsigned,
        call: RuntimeCall::Timestamp(TimestampCall::SetNow { now: 5 }),
        extension: sample_extension(),
    };
    let mut bytes = encode_transaction(&tx);
    bytes.push(0u8);
    assert_eq!(decode_transaction(&bytes), Err(DecodeError::TrailingBytes));
}

#[test]
fn encoding_is_deterministic() {
    let tx = Transaction {
        origin: TxOrigin::Signed { who: 3, signature: 4 },
        call: RuntimeCall::Balances(BalancesCall::Transfer { dest: 5, value: 6 }),
        extension: sample_extension(),
    };
    assert_eq!(encode_transaction(&tx), encode_transaction(&tx));
    // layout starts with the signed tag and the little-endian account id
    let bytes = encode_transaction(&tx);
    assert_eq!(bytes[0], 1);
    assert_eq!(bytes[1], 3);
    assert_eq!(&bytes[2..9], &[0, 0, 0, 0, 0, 0, 0]);
}
