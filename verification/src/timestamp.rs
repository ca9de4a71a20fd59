//! Binary codec for the persisted last-update timestamp.
//!
//! The store keeps one reserved file holding the UNIX time of the most recent
//! successful append, encoded as eight big-endian bytes. Encoding and decoding
//! are verified against the mathematical byte layout, and a proved round-trip
//! law guarantees that a persisted timestamp survives a restart unchanged.

use vstd::prelude::*;

verus! {

/// Size of the persisted timestamp record in bytes.
pub const TIMESTAMP_BYTES: usize = 8;

/// The big-endian byte layout of a 64-bit value: most significant byte first.
pub open spec fn spec_be_bytes(v: u64) -> Seq<u8> {
    seq![
        (v >> 56) as u8,
        (v >> 48) as u8,
        (v >> 40) as u8,
        (v >> 32) as u8,
        (v >> 24) as u8,
        (v >> 16) as u8,
        (v >> 8) as u8,
        v as u8,
    ]
}

/// The 64-bit value read from eight big-endian bytes.
pub open spec fn spec_be_value(s: Seq<u8>) -> u64
    recommends
        s.len() == 8,
{
    ((s[0] as u64) << 56 | (s[1] as u64) << 48 | (s[2] as u64) << 40 | (s[3] as u64) << 32 | (
    s[4] as u64) << 24 | (s[5] as u64) << 16 | (s[6] as u64) << 8 | (s[7] as u64)) as u64
}

/// Encodes a timestamp as the eight big-endian bytes that the reserved file holds.
pub fn encode_last_update(v: u64) -> (r: Vec<u8>)
    ensures
        r@ == spec_be_bytes(v),
        r@.len() == TIMESTAMP_BYTES,
{
    let mut out: Vec<u8> = Vec::new();
    out.push(#[verifier::truncate] ((v >> 56) as u8));
    out.push(#[verifier::truncate] ((v >> 48) as u8));
    out.push(#[verifier::truncate] ((v >> 40) as u8));
    out.push(#[verifier::truncate] ((v >> 32) as u8));
    out.push(#[verifier::truncate] ((v >> 24) as u8));
    out.push(#[verifier::truncate] ((v >> 16) as u8));
    out.push(#[verifier::truncate] ((v >> 8) as u8));
    out.push(#[verifier::truncate] (v as u8));
    proof {
        assert(out@ =~= spec_be_bytes(v));
    }
    out
}

/// Decodes a persisted timestamp record. A record needs at least eight bytes;
/// the value is read from the first eight, and anything shorter is rejected.
pub fn decode_last_update(raw: &Vec<u8>) -> (r: Option<u64>)
    ensures
        raw@.len() >= TIMESTAMP_BYTES ==> r == Some(spec_be_value(raw@.take(8))),
        raw@.len() < TIMESTAMP_BYTES ==> r is None,
{
    if raw.len() < TIMESTAMP_BYTES {
        return None;
    }
    let v: u64 = (raw[0] as u64) << 56 | (raw[1] as u64) << 48 | (raw[2] as u64) << 40 | (
    raw[3] as u64) << 32 | (raw[4] as u64) << 24 | (raw[5] as u64) << 16 | (raw[6] as u64) << 8 | (
    raw[7] as u64);
    proof {
        let s = raw@.take(8);
        assert(s[0] == raw@[0] && s[1] == raw@[1] && s[2] == raw@[2] && s[3] == raw@[3] && s[4]
            == raw@[4] && s[5] == raw@[5] && s[6] == raw@[6] && s[7] == raw@[7]);
    }
    Some(v)
}

/// Round-trip law: decoding the bytes written for a timestamp yields that
/// timestamp, so the persisted last-update time survives a restart exactly.
pub proof fn lemma_timestamp_round_trip(v: u64)
    ensures
        spec_be_value(spec_be_bytes(v)) == v,
{
    let s = spec_be_bytes(v);
    assert(s[0] == (v >> 56) as u8 && s[1] == (v >> 48) as u8 && s[2] == (v >> 40) as u8 && s[3]
        == (v >> 32) as u8 && s[4] == (v >> 24) as u8 && s[5] == (v >> 16) as u8 && s[6] == (v
        >> 8) as u8 && s[7] == v as u8);
    assert((((v >> 56) as u8 as u64) << 56 | ((v >> 48) as u8 as u64) << 48 | ((v
        >> 40) as u8 as u64) << 40 | ((v >> 32) as u8 as u64) << 32 | ((v >> 24) as u8 as u64)
        << 24 | ((v >> 16) as u8 as u64) << 16 | ((v >> 8) as u8 as u64) << 8 | (
    v as u8 as u64)) == v) by (bit_vector);
}

} // verus!
