//! The deterministic wire codec.
//!
//! Integers travel little-endian with a fixed width; the transaction format
//! is a fixed layout of tagged fields, so that a transaction's signed payload
//! and its wire encoding are identical across nodes.

use vstd::prelude::*;
use crate::calls::{BalancesCall, RuntimeCall, TemplateCall, TimestampCall, spec_function_id,
    spec_module_id, BALANCES_MODULE_ID, TEMPLATE_MODULE_ID, TIMESTAMP_MODULE_ID};
use crate::transaction::{Era, Transaction, TxExtension, TxOrigin};
use crate::weights::Weight;

verus! {

/// The little-endian bytes of a 32-bit integer.
pub open spec fn u32_le_bytes(x: u32) -> Seq<u8> {
    seq![
        (x & 0xff) as u8,
        ((x >> 8) & 0xff) as u8,
        ((x >> 16) & 0xff) as u8,
        ((x >> 24) & 0xff) as u8,
    ]
}

/// The 32-bit integer read from four little-endian bytes.
pub open spec fn u32_from_le(s: Seq<u8>) -> u32
    recommends
        s.len() == 4,
{
    (s[0] as u32) | ((s[1] as u32) << 8) | ((s[2] as u32) << 16) | ((s[3] as u32) << 24)
}

/// Reading back the little-endian bytes of a 32-bit integer returns it.
pub proof fn lemma_u32_round_trip(x: u32)
    ensures
        u32_from_le(u32_le_bytes(x)) == x,
{
    assert(((x & 0xff) as u8 as u32) | (((x >> 8) & 0xff) as u8 as u32) << 8
        | (((x >> 16) & 0xff) as u8 as u32) << 16 | (((x >> 24) & 0xff) as u8 as u32) << 24
        == x) by (bit_vector);
}

/// The little-endian bytes of a 64-bit integer.
pub open spec fn u64_le_bytes(x: u64) -> Seq<u8> {
    seq![
        (x & 0xff) as u8,
        ((x >> 8) & 0xff) as u8,
        ((x >> 16) & 0xff) as u8,
        ((x >> 24) & 0xff) as u8,
        ((x >> 32) & 0xff) as u8,
        ((x >> 40) & 0xff) as u8,
        ((x >> 48) & 0xff) as u8,
        ((x >> 56) & 0xff) as u8,
    ]
}

/// The 64-bit integer read from eight little-endian bytes.
pub open spec fn u64_from_le(s: Seq<u8>) -> u64
    recommends
        s.len() == 8,
{
    (s[0] as u64) | ((s[1] as u64) << 8) | ((s[2] as u64) << 16) | ((s[3] as u64) << 24)
        | ((s[4] as u64) << 32) | ((s[5] as u64) << 40) | ((s[6] as u64) << 48)
        | ((s[7] as u64) << 56)
}

/// Reading back the little-endian bytes of a 64-bit integer returns it.
pub proof fn lemma_u64_round_trip(x: u64)
    ensures
        u64_from_le(u64_le_bytes(x)) == x,
{
    assert(((x & 0xff) as u8 as u64) | (((x >> 8) & 0xff) as u8 as u64) << 8
        | (((x >> 16) & 0xff) as u8 as u64) << 16 | (((x >> 24) & 0xff) as u8 as u64) << 24
        | (((x >> 32) & 0xff) as u8 as u64) << 32 | (((x >> 40) & 0xff) as u8 as u64) << 40
        | (((x >> 48) & 0xff) as u8 as u64) << 48 | (((x >> 56) & 0xff) as u8 as u64) << 56
        == x) by (bit_vector);
}

/// The little-endian bytes of a 128-bit integer.
pub open spec fn u128_le_bytes(x: u128) -> Seq<u8> {
    u64_le_bytes((x & 0xffff_ffff_ffff_ffff) as u64) + u64_le_bytes((x >> 64) as u64)
}

/// The 128-bit integer read from sixteen little-endian bytes.
pub open spec fn u128_from_le(s: Seq<u8>) -> u128
    recommends
        s.len() == 16,
{
    (u64_from_le(s.subrange(0, 8)) as u128)
        | ((u64_from_le(s.subrange(8, 16)) as u128) << 64)
}

/// Reading back the little-endian bytes of a 128-bit integer returns it.
pub proof fn lemma_u128_round_trip(x: u128)
    ensures
        u128_from_le(u128_le_bytes(x)) == x,
{
    let lo = (x & 0xffff_ffff_ffff_ffff) as u64;
    let hi = (x >> 64) as u64;
    assert(u128_le_bytes(x).subrange(0, 8) =~= u64_le_bytes(lo));
    assert(u128_le_bytes(x).subrange(8, 16) =~= u64_le_bytes(hi));
    lemma_u64_round_trip(lo);
    lemma_u64_round_trip(hi);
    assert((((x & 0xffff_ffff_ffff_ffff) as u64 as u128)
        | (((x >> 64) as u64 as u128) << 64)) == x) by (bit_vector);
}

/// Writes a 32-bit integer little-endian.
pub fn u32_to_le(x: u32) -> (r: Vec<u8>)
    ensures
        r@ == u32_le_bytes(x),
        r@.len() == 4,
{
    let mut r: Vec<u8> = Vec::new();
    r.push((x & 0xff) as u8);
    r.push(((x >> 8) & 0xff) as u8);
    r.push(((x >> 16) & 0xff) as u8);
    r.push(((x >> 24) & 0xff) as u8);
    proof {
        assert(r@ =~= u32_le_bytes(x));
    }
    r
}

/// Writes a 64-bit integer little-endian.
pub fn u64_to_le(x: u64) -> (r: Vec<u8>)
    ensures
        r@ == u64_le_bytes(x),
        r@.len() == 8,
{
    let mut r: Vec<u8> = Vec::new();
    r.push((x & 0xff) as u8);
    r.push(((x >> 8) & 0xff) as u8);
    r.push(((x >> 16) & 0xff) as u8);
    r.push(((x >> 24) & 0xff) as u8);
    r.push(((x >> 32) & 0xff) as u8);
    r.push(((x >> 40) & 0xff) as u8);
    r.push(((x >> 48) & 0xff) as u8);
    r.push(((x >> 56) & 0xff) as u8);
    proof {
        assert(r@ =~= u64_le_bytes(x));
    }
    r
}

/// Writes a 128-bit integer little-endian.
pub fn u128_to_le(x: u128) -> (r: Vec<u8>)
    ensures
        r@ == u128_le_bytes(x),
        r@.len() == 16,
{
    let mut r = u64_to_le((x & 0xffff_ffff_ffff_ffff) as u64);
    let mut hi = u64_to_le((x >> 64) as u64);
    r.append(&mut hi);
    proof {
        assert(r@ =~= u128_le_bytes(x));
    }
    r
}

/// Reads a 32-bit integer little-endian at offset `o`.
pub fn read_u32(b: &Vec<u8>, o: usize) -> (r: u32)
    requires
        o + 4 <= b@.len(),
    ensures
        r == u32_from_le(b@.subrange(o as int, o as int + 4)),
{
    let n = b.len();
    proof {
        assert(o + 4 <= n);
    }
    let r = (b[o] as u32) | ((b[o + 1] as u32) << 8) | ((b[o + 2] as u32) << 16)
        | ((b[o + 3] as u32) << 24);
    proof {
        let s = b@.subrange(o as int, o as int + 4);
        assert(s[0] == b@[o as int]);
        assert(s[1] == b@[o as int + 1]);
        assert(s[2] == b@[o as int + 2]);
        assert(s[3] == b@[o as int + 3]);
    }
    r
}

/// Reads a 64-bit integer little-endian at offset `o`.
pub fn read_u64(b: &Vec<u8>, o: usize) -> (r: u64)
    requires
        o + 8 <= b@.len(),
    ensures
        r == u64_from_le(b@.subrange(o as int, o as int + 8)),
{
    let n = b.len();
    proof {
        assert(o + 8 <= n);
    }
    let r = (b[o] as u64) | ((b[o + 1] as u64) << 8) | ((b[o + 2] as u64) << 16)
        | ((b[o + 3] as u64) << 24) | ((b[o + 4] as u64) << 32) | ((b[o + 5] as u64) << 40)
        | ((b[o + 6] as u64) << 48) | ((b[o + 7] as u64) << 56);
    proof {
        let s = b@.subrange(o as int, o as int + 8);
        assert(s[0] == b@[o as int]);
        assert(s[1] == b@[o as int + 1]);
        assert(s[2] == b@[o as int + 2]);
        assert(s[3] == b@[o as int + 3]);
        assert(s[4] == b@[o as int + 4]);
        assert(s[5] == b@[o as int + 5]);
        assert(s[6] == b@[o as int + 6]);
        assert(s[7] == b@[o as int + 7]);
    }
    r
}

/// Reads a 128-bit integer little-endian at offset `o`.
pub fn read_u128(b: &Vec<u8>, o: usize) -> (r: u128)
    requires
        o + 16 <= b@.len(),
    ensures
        r == u128_from_le(b@.subrange(o as int, o as int + 16)),
{
    let n = b.len();
    proof {
        assert(o + 16 <= n);
    }
    let lo = read_u64(b, o);
    let hi = read_u64(b, o + 8);
    let r = (lo as u128) | ((hi as u128) << 64);
    proof {
        let s = b@.subrange(o as int, o as int + 16);
        assert(s.subrange(0, 8) =~= b@.subrange(o as int, o as int + 8));
        assert(s.subrange(8, 16) =~= b@.subrange(o as int + 8, o as int + 16));
    }
    r
}

/// The wire encoding of a transaction's origin: a tag byte, then for a signed
/// origin the account and the signature.
pub open spec fn enc_origin(o: TxOrigin) -> Seq<u8> {
    match o {
        TxOrigin::Unsigned => seq![0u8],
        TxOrigin::Signed { who, signature } => seq![1u8] + u64_le_bytes(who)
            + u64_le_bytes(signature),
    }
}

/// The wire encoding of a call's arguments.
pub open spec fn enc_args(c: RuntimeCall) -> Seq<u8> {
    match c {
        RuntimeCall::Timestamp(TimestampCall::SetNow { now }) => u64_le_bytes(now),
        RuntimeCall::Balances(BalancesCall::Transfer { dest, value }) => u64_le_bytes(dest)
            + u128_le_bytes(value),
        RuntimeCall::Template(TemplateCall::DoSomething { something }) => u32_le_bytes(something),
        RuntimeCall::Template(TemplateCall::CauseError) => Seq::<u8>::empty(),
    }
}

/// The wire encoding of a call: module id, function id, then the arguments.
pub open spec fn enc_call(c: RuntimeCall) -> Seq<u8> {
    seq![spec_module_id(c), spec_function_id(c)] + enc_args(c)
}

/// The wire encoding of the extension data, field by field in registration
/// order.
pub open spec fn enc_ext(e: TxExtension) -> Seq<u8> {
    u32_le_bytes(e.spec_version) + u64_le_bytes(e.genesis_hash) + u32_le_bytes(e.era.birth)
        + u32_le_bytes(e.era.lifetime) + u32_le_bytes(e.nonce)
        + u64_le_bytes(e.cost_limit.compute) + u64_le_bytes(e.cost_limit.io)
        + u64_le_bytes(e.metadata_hash)
}

/// The wire encoding of a whole transaction.
pub open spec fn spec_encode(t: Transaction) -> Seq<u8> {
    enc_origin(t.origin) + enc_call(t.call) + enc_ext(t.extension)
}

/// A transaction's wire encoding stays under a small fixed size.
pub proof fn lemma_encode_len(t: Transaction)
    ensures
        1 <= spec_encode(t).len() <= 91,
{
}

/// Why a byte string is not a transaction.
#[derive(PartialEq, Eq, Structural, Clone, Copy, Debug)]
pub enum DecodeError {
    /// The bytes end before the format does.
    Truncated,
    /// The origin tag is neither unsigned nor signed.
    BadOriginTag,
    /// No registered module function carries these ids.
    UnknownCall,
    /// Bytes follow the end of the format.
    TrailingBytes,
}

/// Parses a transaction origin at the front of `s`, returning it with the
/// offset after it.
pub open spec fn dec_origin(s: Seq<u8>) -> Result<(TxOrigin, int), DecodeError> {
    if s.len() < 1 {
        Result::Err(DecodeError::Truncated)
    } else if s[0] == 0 {
        Result::Ok((TxOrigin::Unsigned, 1int))
    } else if s[0] == 1 {
        if s.len() < 17 {
            Result::Err(DecodeError::Truncated)
        } else {
            Result::Ok((TxOrigin::Signed {
                who: u64_from_le(s.subrange(1, 9)),
                signature: u64_from_le(s.subrange(9, 17)),
            }, 17int))
        }
    } else {
        Result::Err(DecodeError::BadOriginTag)
    }
}

/// Parses a call at offset `o`, returning it with the offset after it.
pub open spec fn dec_call(s: Seq<u8>, o: int) -> Result<(RuntimeCall, int), DecodeError> {
    if s.len() < o + 2 {
        Result::Err(DecodeError::Truncated)
    } else if s[o] == TIMESTAMP_MODULE_ID && s[o + 1] == 0 {
        if s.len() < o + 10 {
            Result::Err(DecodeError::Truncated)
        } else {
            Result::Ok((RuntimeCall::Timestamp(TimestampCall::SetNow {
                now: u64_from_le(s.subrange(o + 2, o + 10)),
            }), o + 10))
        }
    } else if s[o] == BALANCES_MODULE_ID && s[o + 1] == 0 {
        if s.len() < o + 26 {
            Result::Err(DecodeError::Truncated)
        } else {
            Result::Ok((RuntimeCall::Balances(BalancesCall::Transfer {
                dest: u64_from_le(s.subrange(o + 2, o + 10)),
                value: u128_from_le(s.subrange(o + 10, o + 26)),
            }), o + 26))
        }
    } else if s[o] == TEMPLATE_MODULE_ID && s[o + 1] == 0 {
        if s.len() < o + 6 {
            Result::Err(DecodeError::Truncated)
        } else {
            Result::Ok((RuntimeCall::Template(TemplateCall::DoSomething {
                something: u32_from_le(s.subrange(o + 2, o + 6)),
            }), o + 6))
        }
    } else if s[o] == TEMPLATE_MODULE_ID && s[o + 1] == 1 {
        Result::Ok((RuntimeCall::Template(TemplateCall::CauseError), o + 2))
    } else {
        Result::Err(DecodeError::UnknownCall)
    }
}

/// Parses the extension data at offset `o`, returning it with the offset
/// after it.
pub open spec fn dec_ext(s: Seq<u8>, o: int) -> Result<(TxExtension, int), DecodeError> {
    if s.len() < o + 48 {
        Result::Err(DecodeError::Truncated)
    } else {
        Result::Ok(((TxExtension {
            spec_version: u32_from_le(s.subrange(o, o + 4)),
            genesis_hash: u64_from_le(s.subrange(o + 4, o + 12)),
            era: Era {
                birth: u32_from_le(s.subrange(o + 12, o + 16)),
                lifetime: u32_from_le(s.subrange(o + 16, o + 20)),
            },
            nonce: u32_from_le(s.subrange(o + 20, o + 24)),
            cost_limit: Weight {
                compute: u64_from_le(s.subrange(o + 24, o + 32)),
                io: u64_from_le(s.subrange(o + 32, o + 40)),
            },
            metadata_hash: u64_from_le(s.subrange(o + 40, o + 48)),
        }), o + 48))
    }
}

/// Parses a whole transaction, demanding that the bytes end exactly where the
/// format does.
pub open spec fn spec_decode(s: Seq<u8>) -> Result<Transaction, DecodeError> {
    match dec_origin(s) {
        Result::Err(e) => Result::Err(e),
        Result::Ok((origin, o1)) => match dec_call(s, o1) {
            Result::Err(e) => Result::Err(e),
            Result::Ok((call, o2)) => match dec_ext(s, o2) {
                Result::Err(e) => Result::Err(e),
                Result::Ok((extension, o3)) => if o3 == s.len() {
                    Result::Ok((Transaction { origin, call, extension }))
                } else {
                    Result::Err(DecodeError::TrailingBytes)
                },
            },
        },
    }
}

/// Writes a transaction to the wire.
pub fn encode_transaction(t: &Transaction) -> (r: Vec<u8>)
    ensures
        r@ == spec_encode(*t),
{
    let mut out: Vec<u8> = Vec::new();
    match t.origin {
        TxOrigin::Unsigned => {
            out.push(0u8);
        },
        TxOrigin::Signed { who, signature } => {
            out.push(1u8);
            let mut a = u64_to_le(who);
            out.append(&mut a);
            let mut b = u64_to_le(signature);
            out.append(&mut b);
        },
    }
    proof {
        assert(out@ =~= enc_origin(t.origin));
    }
    match t.call {
        RuntimeCall::Timestamp(TimestampCall::SetNow { now }) => {
            out.push(TIMESTAMP_MODULE_ID);
            out.push(0u8);
            let mut a = u64_to_le(now);
            out.append(&mut a);
        },
        RuntimeCall::Balances(BalancesCall::Transfer { dest, value }) => {
            out.push(BALANCES_MODULE_ID);
            out.push(0u8);
            let mut a = u64_to_le(dest);
            out.append(&mut a);
            let mut b = u128_to_le(value);
            out.append(&mut b);
        },
        RuntimeCall::Template(TemplateCall::DoSomething { something }) => {
            out.push(TEMPLATE_MODULE_ID);
            out.push(0u8);
            let mut a = u32_to_le(something);
            out.append(&mut a);
        },
        RuntimeCall::Template(TemplateCall::CauseError) => {
            out.push(TEMPLATE_MODULE_ID);
            out.push(1u8);
        },
    }
    proof {
        assert(out@ =~= enc_origin(t.origin) + enc_call(t.call));
    }
    let mut e1 = u32_to_le(t.extension.spec_version);
    out.append(&mut e1);
    let mut e2 = u64_to_le(t.extension.genesis_hash);
    out.append(&mut e2);
    let mut e3 = u32_to_le(t.extension.era.birth);
    out.append(&mut e3);
    let mut e4 = u32_to_le(t.extension.era.lifetime);
    out.append(&mut e4);
    let mut e5 = u32_to_le(t.extension.nonce);
    out.append(&mut e5);
    let mut e6 = u64_to_le(t.extension.cost_limit.compute);
    out.append(&mut e6);
    let mut e7 = u64_to_le(t.extension.cost_limit.io);
    out.append(&mut e7);
    let mut e8 = u64_to_le(t.extension.metadata_hash);
    out.append(&mut e8);
    proof {
        assert(out@ =~= spec_encode(*t));
    }
    out
}

/// Reads a transaction from the wire.
pub fn decode_transaction(b: &Vec<u8>) -> (r: Result<Transaction, DecodeError>)
    ensures
        r == spec_decode(b@),
{
    let n = b.len();
    if n < 1 {
        return Result::Err(DecodeError::Truncated);
    }
    let tag = b[0];
    let origin: TxOrigin;
    let o1: usize;
    if tag == 0 {
        origin = TxOrigin::Unsigned;
        o1 = 1;
    } else if tag == 1 {
        if n < 17 {
            return Result::Err(DecodeError::Truncated);
        }
        origin = TxOrigin::Signed { who: read_u64(b, 1), signature: read_u64(b, 9) };
        o1 = 17;
    } else {
        return Result::Err(DecodeError::BadOriginTag);
    }
    if n < o1 + 2 {
        return Result::Err(DecodeError::Truncated);
    }
    let m = b[o1];
    let f = b[o1 + 1];
    let call: RuntimeCall;
    let o2: usize;
    if m == TIMESTAMP_MODULE_ID && f == 0 {
        if n < o1 + 10 {
            return Result::Err(DecodeError::Truncated);
        }
        call = RuntimeCall::Timestamp(TimestampCall::SetNow { now: read_u64(b, o1 + 2) });
        o2 = o1 + 10;
    } else if m == BALANCES_MODULE_ID && f == 0 {
        if n < o1 + 26 {
            return Result::Err(DecodeError::Truncated);
        }
        call = RuntimeCall::Balances(BalancesCall::Transfer {
            dest: read_u64(b, o1 + 2),
            value: read_u128(b, o1 + 10),
        });
        o2 = o1 + 26;
    } else if m == TEMPLATE_MODULE_ID && f == 0 {
        if n < o1 + 6 {
            return Result::Err(DecodeError::Truncated);
        }
        call = RuntimeCall::Template(TemplateCall::DoSomething { something: read_u32(b, o1 + 2) });
        o2 = o1 + 6;
    } else if m == TEMPLATE_MODULE_ID && f == 1 {
        call = RuntimeCall::Template(TemplateCall::CauseError);
        o2 = o1 + 2;
    } else {
        return Result::Err(DecodeError::UnknownCall);
    }
    if n < o2 + 48 {
        return Result::Err(DecodeError::Truncated);
    }
    let extension = TxExtension {
        spec_version: read_u32(b, o2),
        genesis_hash: read_u64(b, o2 + 4),
        era: Era { birth: read_u32(b, o2 + 12), lifetime: read_u32(b, o2 + 16) },
        nonce: read_u32(b, o2 + 20),
        cost_limit: Weight { compute: read_u64(b, o2 + 24), io: read_u64(b, o2 + 32) },
        metadata_hash: read_u64(b, o2 + 40),
    };
    if o2 + 48 != n {
        return Result::Err(DecodeError::TrailingBytes);
    }
    Result::Ok(Transaction { origin, call, extension })
}

/// Reading back a written transaction returns a value equal to the original,
/// whatever its origin, call and extension data hold.
/// Parsing the origin at the front of an encoded transaction returns it.
#[verifier::spinoff_prover]
proof fn lemma_dec_origin_of_encode(t: Transaction)
    ensures
        dec_origin(spec_encode(t)) == Result::<(TxOrigin, int), DecodeError>::Ok((t.origin,
            enc_origin(t.origin).len() as int)),
{
    let s = spec_encode(t);
    match t.origin {
        TxOrigin::Unsigned => {
            assert(s[0] == 0);
            assert(dec_origin(s) == Result::<(TxOrigin, int), DecodeError>::Ok((t.origin, 1int)));
        },
        TxOrigin::Signed { who, signature } => {
            assert(s[0] == 1);
            assert(s.subrange(1, 9) =~= u64_le_bytes(who));
            assert(s.subrange(9, 17) =~= u64_le_bytes(signature));
            lemma_u64_round_trip(who);
            lemma_u64_round_trip(signature);
            assert(dec_origin(s) == Result::<(TxOrigin, int), DecodeError>::Ok((t.origin, 17int)));
        },
    }
}

/// Parsing the call of an encoded transaction at its offset returns it.
#[verifier::rlimit(100)]
#[verifier::spinoff_prover]
proof fn lemma_dec_call_of_encode(t: Transaction)
    ensures
        dec_call(spec_encode(t), enc_origin(t.origin).len() as int)
            == Result::<(RuntimeCall, int), DecodeError>::Ok((t.call,
                (enc_origin(t.origin).len() + enc_call(t.call).len()) as int)),
{
    let s = spec_encode(t);
    let o1 = enc_origin(t.origin).len() as int;
    let bc = enc_call(t.call);
    let args = enc_args(t.call);
    assert forall|i: int| 0 <= i < bc.len() implies s[o1 + i] == bc[i] by {
        assert(bc[i] == (bc + enc_ext(t.extension))[i]);
    }
    assert(s[o1] == spec_module_id(t.call));
    assert(s[o1 + 1] == spec_function_id(t.call));
    assert forall|j: int| 0 <= j < args.len() implies s[o1 + 2 + j] == args[j] by {
        assert(bc[2 + j] == args[j]);
    }
    match t.call {
        RuntimeCall::Timestamp(TimestampCall::SetNow { now }) => {
            assert(s.subrange(o1 + 2, o1 + 10) =~= u64_le_bytes(now));
            lemma_u64_round_trip(now);
            assert(dec_call(s, o1) == Result::<(RuntimeCall, int), DecodeError>::Ok((t.call,
                o1 + 10)));
        },
        RuntimeCall::Balances(BalancesCall::Transfer { dest, value }) => {
            assert(s.subrange(o1 + 2, o1 + 10) =~= u64_le_bytes(dest));
            assert(s.subrange(o1 + 10, o1 + 26) =~= u128_le_bytes(value));
            lemma_u64_round_trip(dest);
            lemma_u128_round_trip(value);
            assert(dec_call(s, o1) == Result::<(RuntimeCall, int), DecodeError>::Ok((t.call,
                o1 + 26)));
        },
        RuntimeCall::Template(TemplateCall::DoSomething { something }) => {
            assert(s.subrange(o1 + 2, o1 + 6) =~= u32_le_bytes(something));
            lemma_u32_round_trip(something);
            assert(dec_call(s, o1) == Result::<(RuntimeCall, int), DecodeError>::Ok((t.call,
                o1 + 6)));
        },
        RuntimeCall::Template(TemplateCall::CauseError) => {
            assert(dec_call(s, o1) == Result::<(RuntimeCall, int), DecodeError>::Ok((t.call,
                o1 + 2)));
        },
    }
}

/// Parsing the extension data of an encoded transaction at its offset
/// returns it.
#[verifier::spinoff_prover]
proof fn lemma_dec_ext_of_encode(t: Transaction)
    ensures
        dec_ext(spec_encode(t), (enc_origin(t.origin).len() + enc_call(t.call).len()) as int)
            == Result::<(TxExtension, int), DecodeError>::Ok((t.extension,
                spec_encode(t).len() as int)),
{
    let s = spec_encode(t);
    let o2 = (enc_origin(t.origin).len() + enc_call(t.call).len()) as int;
    assert(s.subrange(o2, o2 + 4) =~= u32_le_bytes(t.extension.spec_version));
    assert(s.subrange(o2 + 4, o2 + 12) =~= u64_le_bytes(t.extension.genesis_hash));
    assert(s.subrange(o2 + 12, o2 + 16) =~= u32_le_bytes(t.extension.era.birth));
    assert(s.subrange(o2 + 16, o2 + 20) =~= u32_le_bytes(t.extension.era.lifetime));
    assert(s.subrange(o2 + 20, o2 + 24) =~= u32_le_bytes(t.extension.nonce));
    assert(s.subrange(o2 + 24, o2 + 32) =~= u64_le_bytes(t.extension.cost_limit.compute));
    assert(s.subrange(o2 + 32, o2 + 40) =~= u64_le_bytes(t.extension.cost_limit.io));
    assert(s.subrange(o2 + 40, o2 + 48) =~= u64_le_bytes(t.extension.metadata_hash));
    lemma_u32_round_trip(t.extension.spec_version);
    lemma_u64_round_trip(t.extension.genesis_hash);
    lemma_u32_round_trip(t.extension.era.birth);
    lemma_u32_round_trip(t.extension.era.lifetime);
    lemma_u32_round_trip(t.extension.nonce);
    lemma_u64_round_trip(t.extension.cost_limit.compute);
    lemma_u64_round_trip(t.extension.cost_limit.io);
    lemma_u64_round_trip(t.extension.metadata_hash);
    assert(dec_ext(s, o2) == Result::<(TxExtension, int), DecodeError>::Ok((t.extension,
        o2 + 48)));
    assert(o2 + 48 == s.len());
}

/// Reading back a written transaction returns a value equal to the original,
/// whatever its origin, call and extension data hold.
#[verifier::spinoff_prover]
pub proof fn lemma_tx_round_trip(t: Transaction)
    ensures
        spec_decode(spec_encode(t)) == Result::<Transaction, DecodeError>::Ok(t),
{
    lemma_dec_origin_of_encode(t);
    lemma_dec_call_of_encode(t);
    lemma_dec_ext_of_encode(t);
    assert(spec_decode(spec_encode(t)) == Result::<Transaction, DecodeError>::Ok(
        (Transaction { origin: t.origin, call: t.call, extension: t.extension })));
}

} // verus!
