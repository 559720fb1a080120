//! Scalar rules of the canonical codec: unsigned integers encode as their
//! fixed-width little-endian bytes and decode by consuming exactly that many
//! bytes from the head of the input, returning the unconsumed remainder.

use vstd::prelude::*;
use vstd::slice::{slice_index_get, slice_subrange};

verus! {

/// Error returned when a byte string does not conform to the canonical
/// shape expected for the value being decoded.
#[derive(Clone, Copy, Debug, PartialEq, Eq, Structural)]
pub enum DecodeError {
    /// The byte string ended before the expected value was complete.
    EarlyEndOfStream,
}

/// The canonical encoding of a `u32`: four little-endian bytes.
pub open spec fn u32_le_bytes(v: u32) -> Seq<u8> {
    seq![
        (v & 0xff) as u8,
        ((v >> 8) & 0xff) as u8,
        ((v >> 16) & 0xff) as u8,
        ((v >> 24) & 0xff) as u8,
    ]
}

/// The `u32` carried by four little-endian bytes.
pub open spec fn u32_from_le(s: Seq<u8>) -> u32
    recommends
        s.len() == 4,
{
    (s[0] as u32) | ((s[1] as u32) << 8) | ((s[2] as u32) << 16) | ((s[3] as u32) << 24)
}

/// Parse of a `u32` at the head of a byte string: its four bytes, then the
/// remainder; no parse when fewer than four bytes are left.
pub open spec fn spec_decode_u32(s: Seq<u8>) -> Option<(u32, Seq<u8>)> {
    if s.len() >= 4 {
        Some((u32_from_le(s.take(4)), s.skip(4)))
    } else {
        None
    }
}

/// The canonical encoding of a `u64`: eight little-endian bytes.
pub open spec fn u64_le_bytes(v: u64) -> Seq<u8> {
    seq![
        (v & 0xff) as u8,
        ((v >> 8) & 0xff) as u8,
        ((v >> 16) & 0xff) as u8,
        ((v >> 24) & 0xff) as u8,
        ((v >> 32) & 0xff) as u8,
        ((v >> 40) & 0xff) as u8,
        ((v >> 48) & 0xff) as u8,
        ((v >> 56) & 0xff) as u8,
    ]
}

/// The `u64` carried by eight little-endian bytes.
pub open spec fn u64_from_le(s: Seq<u8>) -> u64
    recommends
        s.len() == 8,
{
    (s[0] as u64) | ((s[1] as u64) << 8) | ((s[2] as u64) << 16) | ((s[3] as u64) << 24)
        | ((s[4] as u64) << 32) | ((s[5] as u64) << 40) | ((s[6] as u64) << 48)
        | ((s[7] as u64) << 56)
}

/// Parse of a `u64` at the head of a byte string: its eight bytes, then the
/// remainder; no parse when fewer than eight bytes are left.
pub open spec fn spec_decode_u64(s: Seq<u8>) -> Option<(u64, Seq<u8>)> {
    if s.len() >= 8 {
        Some((u64_from_le(s.take(8)), s.skip(8)))
    } else {
        None
    }
}

/// Reading back the four little-endian bytes of a `u32` gives the value.
pub proof fn lemma_u32_le_round_trip(v: u32)
    ensures
        u32_from_le(u32_le_bytes(v)) == v,
{
    let b0 = (v & 0xff) as u8;
    let b1 = ((v >> 8) & 0xff) as u8;
    let b2 = ((v >> 16) & 0xff) as u8;
    let b3 = ((v >> 24) & 0xff) as u8;
    assert((b0 as u32) | ((b1 as u32) << 8) | ((b2 as u32) << 16) | ((b3 as u32) << 24) == v)
        by (bit_vector)
        requires
            b0 == (v & 0xff) as u8,
            b1 == ((v >> 8) & 0xff) as u8,
            b2 == ((v >> 16) & 0xff) as u8,
            b3 == ((v >> 24) & 0xff) as u8,
    ;
}

/// A `u32` parses back from its own encoding followed by anything, leaving
/// exactly that remainder.
pub proof fn lemma_decode_u32_of_encode(v: u32, rest: Seq<u8>)
    ensures
        spec_decode_u32(u32_le_bytes(v) + rest) == Some((v, rest)),
{
    let s = u32_le_bytes(v) + rest;
    assert(s.take(4) =~= u32_le_bytes(v));
    assert(s.skip(4) =~= rest);
    lemma_u32_le_round_trip(v);
}

/// Reading back the eight little-endian bytes of a `u64` gives the value.
pub proof fn lemma_u64_le_round_trip(v: u64)
    ensures
        u64_from_le(u64_le_bytes(v)) == v,
{
    let b0 = (v & 0xff) as u8;
    let b1 = ((v >> 8) & 0xff) as u8;
    let b2 = ((v >> 16) & 0xff) as u8;
    let b3 = ((v >> 24) & 0xff) as u8;
    let b4 = ((v >> 32) & 0xff) as u8;
    let b5 = ((v >> 40) & 0xff) as u8;
    let b6 = ((v >> 48) & 0xff) as u8;
    let b7 = ((v >> 56) & 0xff) as u8;
    assert((b0 as u64) | ((b1 as u64) << 8) | ((b2 as u64) << 16) | ((b3 as u64) << 24)
        | ((b4 as u64) << 32) | ((b5 as u64) << 40) | ((b6 as u64) << 48)
        | ((b7 as u64) << 56) == v)
        by (bit_vector)
        requires
            b0 == (v & 0xff) as u8,
            b1 == ((v >> 8) & 0xff) as u8,
            b2 == ((v >> 16) & 0xff) as u8,
            b3 == ((v >> 24) & 0xff) as u8,
            b4 == ((v >> 32) & 0xff) as u8,
            b5 == ((v >> 40) & 0xff) as u8,
            b6 == ((v >> 48) & 0xff) as u8,
            b7 == ((v >> 56) & 0xff) as u8,
    ;
}

/// A `u64` parses back from its own encoding followed by anything, leaving
/// exactly that remainder.
pub proof fn lemma_decode_u64_of_encode(v: u64, rest: Seq<u8>)
    ensures
        spec_decode_u64(u64_le_bytes(v) + rest) == Some((v, rest)),
{
    let s = u64_le_bytes(v) + rest;
    assert(s.take(8) =~= u64_le_bytes(v));
    assert(s.skip(8) =~= rest);
    lemma_u64_le_round_trip(v);
}

/// Encodes a `u32` as its four little-endian bytes.
pub fn encode_u32(v: u32) -> (r: Vec<u8>)
    ensures
        r@ == u32_le_bytes(v),
{
    proof {
        assert(v & 0xff < 256 && (v >> 8) & 0xff < 256 && (v >> 16) & 0xff < 256
            && (v >> 24) & 0xff < 256) by (bit_vector);
    }
    let mut r: Vec<u8> = Vec::new();
    r.push((v & 0xff) as u8);
    r.push(((v >> 8) & 0xff) as u8);
    r.push(((v >> 16) & 0xff) as u8);
    r.push(((v >> 24) & 0xff) as u8);
    proof {
        assert(r@ =~= u32_le_bytes(v));
    }
    r
}

/// Encodes a `u64` as its eight little-endian bytes.
pub fn encode_u64(v: u64) -> (r: Vec<u8>)
    ensures
        r@ == u64_le_bytes(v),
{
    proof {
        assert(v & 0xff < 256 && (v >> 8) & 0xff < 256 && (v >> 16) & 0xff < 256
            && (v >> 24) & 0xff < 256 && (v >> 32) & 0xff < 256 && (v >> 40) & 0xff < 256
            && (v >> 48) & 0xff < 256 && (v >> 56) & 0xff < 256) by (bit_vector);
    }
    let mut r: Vec<u8> = Vec::new();
    r.push((v & 0xff) as u8);
    r.push(((v >> 8) & 0xff) as u8);
    r.push(((v >> 16) & 0xff) as u8);
    r.push(((v >> 24) & 0xff) as u8);
    r.push(((v >> 32) & 0xff) as u8);
    r.push(((v >> 40) & 0xff) as u8);
    r.push(((v >> 48) & 0xff) as u8);
    r.push(((v >> 56) & 0xff) as u8);
    proof {
        assert(r@ =~= u64_le_bytes(v));
    }
    r
}

/// Decodes a `u32` from the head of `bytes`, returning the remainder.
pub fn decode_u32(bytes: &[u8]) -> (r: Result<(u32, &[u8]), DecodeError>)
    ensures
        match r {
            Ok(p) => spec_decode_u32(bytes@) == Some((p.0, p.1@)),
            Err(e) => spec_decode_u32(bytes@) is None && e == DecodeError::EarlyEndOfStream,
        },
{
    if bytes.len() < 4 {
        return Err(DecodeError::EarlyEndOfStream);
    }
    let b0 = *slice_index_get(bytes, 0);
    let b1 = *slice_index_get(bytes, 1);
    let b2 = *slice_index_get(bytes, 2);
    let b3 = *slice_index_get(bytes, 3);
    let v = (b0 as u32) | ((b1 as u32) << 8u32) | ((b2 as u32) << 16u32) | ((b3 as u32) << 24u32);
    let rem = slice_subrange(bytes, 4, bytes.len());
    proof {
        let t = bytes@.take(4);
        assert(t[0] == b0 && t[1] == b1 && t[2] == b2 && t[3] == b3);
        assert(v == u32_from_le(t));
        assert(rem@ =~= bytes@.skip(4));
    }
    Ok((v, rem))
}

/// Decodes a `u64` from the head of `bytes`, returning the remainder.
pub fn decode_u64(bytes: &[u8]) -> (r: Result<(u64, &[u8]), DecodeError>)
    ensures
        match r {
            Ok(p) => spec_decode_u64(bytes@) == Some((p.0, p.1@)),
            Err(e) => spec_decode_u64(bytes@) is None && e == DecodeError::EarlyEndOfStream,
        },
{
    if bytes.len() < 8 {
        return Err(DecodeError::EarlyEndOfStream);
    }
    let b0 = *slice_index_get(bytes, 0);
    let b1 = *slice_index_get(bytes, 1);
    let b2 = *slice_index_get(bytes, 2);
    let b3 = *slice_index_get(bytes, 3);
    let b4 = *slice_index_get(bytes, 4);
    let b5 = *slice_index_get(bytes, 5);
    let b6 = *slice_index_get(bytes, 6);
    let b7 = *slice_index_get(bytes, 7);
    let v = (b0 as u64) | ((b1 as u64) << 8u64) | ((b2 as u64) << 16u64) | ((b3 as u64) << 24u64)
        | ((b4 as u64) << 32u64) | ((b5 as u64) << 40u64) | ((b6 as u64) << 48u64)
        | ((b7 as u64) << 56u64);
    let rem = slice_subrange(bytes, 8, bytes.len());
    proof {
        let t = bytes@.take(8);
        assert(t[0] == b0 && t[1] == b1 && t[2] == b2 && t[3] == b3 && t[4] == b4 && t[5] == b5
            && t[6] == b6 && t[7] == b7);
        assert(v == u64_from_le(t));
        assert(rem@ =~= bytes@.skip(8));
    }
    Ok((v, rem))
}

} // verus!
