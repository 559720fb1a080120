//! The opaque value primitives the configuration entities are built from: a
//! public-key identity and a motes amount. The cryptography and fixed-point
//! arithmetic behind them are collaborators elsewhere; here each is carried
//! as the plain value the codec and the entities read, with its canonical
//! fixed-width encoding.

use vstd::prelude::*;
use vstd::slice::{slice_subrange, slice_to_vec};
use crate::codec::{
    DecodeError, decode_u64, encode_u64, spec_decode_u64, u64_le_bytes,
};

verus! {

/// The fixed byte length of a public-key identity.
pub const PUBLIC_KEY_LENGTH: usize = 32;

/// Draws an arbitrary machine word for test-support instance generation.
///
/// Relies on `rand::random`: nothing is promised of the value drawn.
#[verifier::external_body]
pub(crate) fn random_u64() -> u64 {
    rand::random::<u64>()
}

/// Copies a byte vector.
pub(crate) fn clone_bytes(v: &Vec<u8>) -> (r: Vec<u8>)
    ensures
        r@ == v@,
{
    let mut r: Vec<u8> = Vec::new();
    let mut i: usize = 0;
    while i < v.len()
        invariant
            i <= v@.len(),
            r@ == v@.take(i as int),
        decreases v@.len() - i,
    {
        r.push(v[i]);
        proof {
            assert(v@.take(i as int).push(v@[i as int]) =~= v@.take(i as int + 1));
        }
        i += 1;
    }
    proof {
        assert(v@.take(v@.len() as int) =~= v@);
    }
    r
}

/// An opaque public-key identity: a fixed-size byte value. Its view is the
/// sequence of those bytes.
#[derive(Debug, PartialEq, Eq)]
pub struct PublicKey {
    bytes: Vec<u8>,
}

impl View for PublicKey {
    type V = Seq<u8>;

    closed spec fn view(&self) -> Seq<u8> {
        self.bytes@
    }
}

impl Clone for PublicKey {
    /// Clones the key, keeping its bytes.
    fn clone(&self) -> (r: Self)
        ensures
            r@ == self@,
    {
        PublicKey { bytes: clone_bytes(&self.bytes) }
    }
}

/// The canonical encoding of a public key: its bytes, fixed width.
pub open spec fn spec_encode_public_key(key: Seq<u8>) -> Seq<u8> {
    key
}

/// Parse of a public key at the head of a byte string: a fixed number of
/// bytes, then the remainder; no parse when fewer are left.
pub open spec fn spec_decode_public_key(s: Seq<u8>) -> Option<(Seq<u8>, Seq<u8>)> {
    if s.len() >= PUBLIC_KEY_LENGTH {
        Some((s.take(PUBLIC_KEY_LENGTH as int), s.skip(PUBLIC_KEY_LENGTH as int)))
    } else {
        None
    }
}

impl PublicKey {
    /// A public key is well formed when it holds exactly the fixed length.
    pub open spec fn wf(&self) -> bool {
        self@.len() == PUBLIC_KEY_LENGTH
    }

    /// Constructs a key from its canonical bytes.
    pub fn new(bytes: Vec<u8>) -> (r: Self)
        requires
            bytes@.len() == PUBLIC_KEY_LENGTH,
        ensures
            r@ == bytes@,
            r.wf(),
    {
        PublicKey { bytes }
    }

    /// The canonical encoding: the key's bytes.
    pub fn to_bytes(&self) -> (r: Vec<u8>)
        ensures
            r@ == spec_encode_public_key(self@),
    {
        clone_bytes(&self.bytes)
    }

    /// Declared byte size of the canonical encoding.
    pub fn serialized_length(&self) -> (r: usize)
        ensures
            r == spec_encode_public_key(self@).len(),
    {
        self.bytes.len()
    }

    /// Decodes a key as a fixed number of bytes, returning the remainder.
    pub fn from_bytes(bytes: &[u8]) -> (r: Result<(Self, &[u8]), DecodeError>)
        ensures
            match r {
                Ok(p) => spec_decode_public_key(bytes@) == Some((p.0@, p.1@)) && p.0.wf(),
                Err(e) => spec_decode_public_key(bytes@) is None
                    && e == DecodeError::EarlyEndOfStream,
            },
    {
        if bytes.len() < PUBLIC_KEY_LENGTH {
            return Err(DecodeError::EarlyEndOfStream);
        }
        let key = slice_to_vec(slice_subrange(bytes, 0, PUBLIC_KEY_LENGTH));
        let rem = slice_subrange(bytes, PUBLIC_KEY_LENGTH, bytes.len());
        proof {
            assert(key@ =~= bytes@.take(PUBLIC_KEY_LENGTH as int));
            assert(rem@ =~= bytes@.skip(PUBLIC_KEY_LENGTH as int));
        }
        Ok((PublicKey { bytes: key }, rem))
    }

    /// Draws a fresh key from the process random number source (test
    /// support).
    pub fn random() -> (r: Self)
        ensures
            r.wf(),
    {
        let mut bytes = encode_u64(random_u64());
        let mut w1 = encode_u64(random_u64());
        bytes.append(&mut w1);
        let mut w2 = encode_u64(random_u64());
        bytes.append(&mut w2);
        let mut w3 = encode_u64(random_u64());
        bytes.append(&mut w3);
        PublicKey { bytes }
    }
}

/// A motes amount: the ledger's opaque non-negative token unit, carried as
/// an unsigned machine scalar.
#[derive(Clone, Copy, Debug, PartialEq, Eq, Structural)]
pub struct Motes {
    value: u64,
}

/// The canonical encoding of a motes amount: its scalar, fixed width.
pub open spec fn spec_encode_motes(value: u64) -> Seq<u8> {
    u64_le_bytes(value)
}

impl Motes {
    /// The amount the value carries.
    pub closed spec fn spec_value(&self) -> u64 {
        self.value
    }

    /// Constructs an amount.
    pub fn new(value: u64) -> (r: Self)
        ensures
            r.spec_value() == value,
    {
        Motes { value }
    }

    /// The amount as a scalar.
    pub fn value(&self) -> (r: u64)
        ensures
            r == self.spec_value(),
    {
        self.value
    }

    /// Whether the amount is zero.
    pub fn is_zero(&self) -> (r: bool)
        ensures
            r == (self.spec_value() == 0),
    {
        self.value == 0
    }

    /// The canonical encoding: the scalar's fixed-width bytes.
    pub fn to_bytes(&self) -> (r: Vec<u8>)
        ensures
            r@ == spec_encode_motes(self.spec_value()),
    {
        encode_u64(self.value)
    }

    /// Declared byte size of the canonical encoding.
    pub fn serialized_length(&self) -> (r: usize)
        ensures
            r == spec_encode_motes(self.spec_value()).len(),
    {
        8
    }

    /// Decodes an amount as a fixed number of bytes, returning the
    /// remainder.
    pub fn from_bytes(bytes: &[u8]) -> (r: Result<(Self, &[u8]), DecodeError>)
        ensures
            match r {
                Ok(p) => spec_decode_u64(bytes@) == Some((p.0.spec_value(), p.1@)),
                Err(e) => spec_decode_u64(bytes@) is None
                    && e == DecodeError::EarlyEndOfStream,
            },
    {
        let (value, rem) = match decode_u64(bytes) {
            Ok(p) => p,
            Err(e) => {
                return Err(e);
            },
        };
        Ok((Motes { value }, rem))
    }

    /// Draws a fresh amount from the process random number source (test
    /// support).
    pub fn random() -> (r: Self) {
        Motes { value: random_u64() }
    }
}

} // verus!
