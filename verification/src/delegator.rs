//! One genesis delegation: a delegator identity staking to a validator
//! identity, with a starting balance and a delegated amount. The canonical
//! encoding composes the fields' encodings in that declared order; decoding
//! reads them back in the same order, threading the remainder. No identity
//! constraint between the two keys is enforced at this layer.

use vstd::prelude::*;
use crate::codec::{
    DecodeError, lemma_decode_u32_of_encode, lemma_decode_u64_of_encode, spec_decode_u32,
    spec_decode_u64, u32_le_bytes, u64_le_bytes, decode_u32, encode_u32,
};
use crate::primitives::{
    Motes, PublicKey, PUBLIC_KEY_LENGTH, spec_decode_public_key, spec_encode_motes,
    spec_encode_public_key,
};

verus! {

/// The mathematical content of a `DelegatorConfig`.
#[verifier::ext_equal]
pub struct DelegatorModel {
    /// The validator's public-key identity the stake is delegated to.
    pub validator_public_key: Seq<u8>,
    /// The delegator's own public-key identity.
    pub delegator_public_key: Seq<u8>,
    /// The delegator account's starting balance.
    pub balance: u64,
    /// The amount delegated to the validator.
    pub delegated_amount: u64,
}

impl DelegatorModel {
    /// A model is well formed when both keys have the fixed key length.
    pub open spec fn wf(self) -> bool {
        self.validator_public_key.len() == PUBLIC_KEY_LENGTH
            && self.delegator_public_key.len() == PUBLIC_KEY_LENGTH
    }

    /// Canonical encoding: validator key, delegator key, balance, delegated
    /// amount, in that order.
    pub open spec fn spec_encode(self) -> Seq<u8> {
        spec_encode_public_key(self.validator_public_key)
            + spec_encode_public_key(self.delegator_public_key)
            + spec_encode_motes(self.balance) + spec_encode_motes(self.delegated_amount)
    }
}

/// Parse of a delegation at the head of a byte string: the four fields in
/// declared order, threading the remainder through each step.
pub open spec fn spec_decode_delegator(s: Seq<u8>) -> Option<(DelegatorModel, Seq<u8>)> {
    match spec_decode_public_key(s) {
        None => None,
        Some((validator_public_key, s1)) => match spec_decode_public_key(s1) {
            None => None,
            Some((delegator_public_key, s2)) => match spec_decode_u64(s2) {
                None => None,
                Some((balance, s3)) => match spec_decode_u64(s3) {
                    None => None,
                    Some((delegated_amount, s4)) => Some(
                        (
                            DelegatorModel {
                                validator_public_key,
                                delegator_public_key,
                                balance,
                                delegated_amount,
                            },
                            s4,
                        ),
                    ),
                },
            },
        },
    }
}

/// One genesis delegation: delegator identity, validator identity, balance,
/// delegated amount. Immutable after construction; no validation is
/// performed here.
#[derive(Clone, Debug, PartialEq, Eq)]
pub struct DelegatorConfig {
    validator_public_key: PublicKey,
    delegator_public_key: PublicKey,
    balance: Motes,
    delegated_amount: Motes,
}

impl View for DelegatorConfig {
    type V = DelegatorModel;

    closed spec fn view(&self) -> DelegatorModel {
        DelegatorModel {
            validator_public_key: self.validator_public_key@,
            delegator_public_key: self.delegator_public_key@,
            balance: self.balance.spec_value(),
            delegated_amount: self.delegated_amount.spec_value(),
        }
    }
}

impl DelegatorConfig {
    /// Constructs a delegation from all of its fields.
    pub fn new(
        validator_public_key: PublicKey,
        delegator_public_key: PublicKey,
        balance: Motes,
        delegated_amount: Motes,
    ) -> (r: Self)
        ensures
            r@ == (DelegatorModel {
                validator_public_key: validator_public_key@,
                delegator_public_key: delegator_public_key@,
                balance: balance.spec_value(),
                delegated_amount: delegated_amount.spec_value(),
            }),
            validator_public_key.wf() && delegator_public_key.wf() ==> r@.wf(),
    {
        Self { validator_public_key, delegator_public_key, balance, delegated_amount }
    }

    /// The validator's public-key identity.
    pub fn validator_public_key(&self) -> (r: PublicKey)
        ensures
            r@ == self@.validator_public_key,
    {
        self.validator_public_key.clone()
    }

    /// The delegator's own public-key identity.
    pub fn delegator_public_key(&self) -> (r: PublicKey)
        ensures
            r@ == self@.delegator_public_key,
    {
        self.delegator_public_key.clone()
    }

    /// The delegator account's starting balance.
    pub fn balance(&self) -> (r: Motes)
        ensures
            r.spec_value() == self@.balance,
    {
        self.balance
    }

    /// The amount delegated to the validator.
    pub fn delegated_amount(&self) -> (r: Motes)
        ensures
            r.spec_value() == self@.delegated_amount,
    {
        self.delegated_amount
    }

    /// Canonical encoding of the delegation: its fields in declared order.
    pub fn to_bytes(&self) -> (r: Vec<u8>)
        ensures
            r@ == self@.spec_encode(),
    {
        let mut buf = self.validator_public_key.to_bytes();
        let mut delegator = self.delegator_public_key.to_bytes();
        buf.append(&mut delegator);
        let mut balance = self.balance.to_bytes();
        buf.append(&mut balance);
        let mut delegated = self.delegated_amount.to_bytes();
        buf.append(&mut delegated);
        proof {
            assert(buf@ =~= self@.spec_encode());
        }
        buf
    }

    /// Declared byte size of the canonical encoding; equal to the length
    /// `to_bytes` produces.
    pub fn serialized_length(&self) -> (r: usize)
        requires
            self@.spec_encode().len() <= usize::MAX,
        ensures
            r == self@.spec_encode().len(),
    {
        self.validator_public_key.serialized_length()
            + self.delegator_public_key.serialized_length() + self.balance.serialized_length()
            + self.delegated_amount.serialized_length()
    }

    /// Decodes a delegation from the head of `bytes`, returning the
    /// remainder.
    pub fn from_bytes(bytes: &[u8]) -> (r: Result<(Self, &[u8]), DecodeError>)
        ensures
            match r {
                Ok(p) => spec_decode_delegator(bytes@) == Some((p.0@, p.1@)) && p.0@.wf(),
                Err(e) => spec_decode_delegator(bytes@) is None
                    && e == DecodeError::EarlyEndOfStream,
            },
    {
        let (validator_public_key, rem) = match PublicKey::from_bytes(bytes) {
            Ok(p) => p,
            Err(e) => {
                return Err(e);
            },
        };
        let (delegator_public_key, rem) = match PublicKey::from_bytes(rem) {
            Ok(p) => p,
            Err(e) => {
                return Err(e);
            },
        };
        let (balance, rem) = match Motes::from_bytes(rem) {
            Ok(p) => p,
            Err(e) => {
                return Err(e);
            },
        };
        let (delegated_amount, rem) = match Motes::from_bytes(rem) {
            Ok(p) => p,
            Err(e) => {
                return Err(e);
            },
        };
        Ok((Self { validator_public_key, delegator_public_key, balance, delegated_amount }, rem))
    }

    /// Draws a fresh delegation from the process random number source (test
    /// support).
    pub fn random() -> (r: Self)
        ensures
            r@.wf(),
    {
        Self {
            validator_public_key: PublicKey::random(),
            delegator_public_key: PublicKey::random(),
            balance: Motes::random(),
            delegated_amount: Motes::random(),
        }
    }
}

/// A delegation parses back from its own encoding followed by anything,
/// leaving exactly that remainder. With an empty continuation this is the
/// round trip: decoding an encoding yields the value and an empty remainder.
pub proof fn lemma_delegator_round_trip(m: DelegatorModel, rest: Seq<u8>)
    requires
        m.wf(),
    ensures
        spec_decode_delegator(m.spec_encode() + rest) == Some((m, rest)),
{
    let s = m.spec_encode() + rest;
    assert(s.take(PUBLIC_KEY_LENGTH as int) =~= m.validator_public_key);
    let s1 = s.skip(PUBLIC_KEY_LENGTH as int);
    assert(s1 =~= m.delegator_public_key + (u64_le_bytes(m.balance)
        + (u64_le_bytes(m.delegated_amount) + rest)));
    assert(s1.take(PUBLIC_KEY_LENGTH as int) =~= m.delegator_public_key);
    assert(s1.skip(PUBLIC_KEY_LENGTH as int) =~= u64_le_bytes(m.balance)
        + (u64_le_bytes(m.delegated_amount) + rest));
    lemma_decode_u64_of_encode(m.balance, u64_le_bytes(m.delegated_amount) + rest);
    lemma_decode_u64_of_encode(m.delegated_amount, rest);
    assert(spec_decode_delegator(s) == Some((m, rest)));
}

/// Any truncation of a delegation's encoding, by at least one byte, has no
/// parse: decode reports an error on it rather than a value.
pub proof fn lemma_delegator_truncation_fails(m: DelegatorModel, n: int)
    requires
        m.wf(),
        0 <= n < m.spec_encode().len(),
    ensures
        spec_decode_delegator(m.spec_encode().take(n)) is None,
{
    let t = m.spec_encode().take(n);
    assert(m.spec_encode().len() == PUBLIC_KEY_LENGTH + PUBLIC_KEY_LENGTH + 16);
    assert(t.len() < PUBLIC_KEY_LENGTH + PUBLIC_KEY_LENGTH + 16);
}

/// Encoding of a run of delegations without its length prefix: each
/// element's encoding, concatenated in sequence order.
pub open spec fn spec_encode_delegator_elems(s: Seq<DelegatorModel>) -> Seq<u8>
    decreases s.len(),
{
    if s.len() == 0 {
        Seq::empty()
    } else {
        s[0].spec_encode() + spec_encode_delegator_elems(s.skip(1))
    }
}

/// Canonical encoding of a sequence of delegations: a fixed-width length
/// prefix, then the elements in order.
pub open spec fn spec_encode_delegator_seq(s: Seq<DelegatorModel>) -> Seq<u8> {
    u32_le_bytes(s.len() as u32) + spec_encode_delegator_elems(s)
}

/// Parse of exactly `n` delegations from the head of a byte string.
pub open spec fn spec_decode_delegator_elems(s: Seq<u8>, n: nat) -> Option<
    (Seq<DelegatorModel>, Seq<u8>),
>
    decreases n,
{
    if n == 0 {
        Some((Seq::empty(), s))
    } else {
        match spec_decode_delegator(s) {
            None => None,
            Some((d, s1)) => match spec_decode_delegator_elems(s1, (n - 1) as nat) {
                None => None,
                Some((tail, rem)) => Some((seq![d] + tail, rem)),
            },
        }
    }
}

/// Parse of a length-prefixed sequence of delegations: the count, then that
/// many elements in order, threading the remainder.
pub open spec fn spec_decode_delegator_seq(s: Seq<u8>) -> Option<(Seq<DelegatorModel>, Seq<u8>)> {
    match spec_decode_u32(s) {
        None => None,
        Some((n, s1)) => spec_decode_delegator_elems(s1, n as nat),
    }
}

/// Concatenation rule of the element encoding: encoding a concatenation is
/// the concatenation of the encodings.
pub proof fn lemma_encode_delegator_elems_concat(a: Seq<DelegatorModel>, b: Seq<DelegatorModel>)
    ensures
        spec_encode_delegator_elems(a + b) == spec_encode_delegator_elems(a)
            + spec_encode_delegator_elems(b),
    decreases a.len(),
{
    if a.len() == 0 {
        assert(a + b =~= b);
        assert(spec_encode_delegator_elems(a) + spec_encode_delegator_elems(b)
            =~= spec_encode_delegator_elems(b));
    } else {
        assert((a + b).skip(1) =~= a.skip(1) + b);
        lemma_encode_delegator_elems_concat(a.skip(1), b);
        assert((a + b)[0] == a[0]);
        assert(spec_encode_delegator_elems(a + b) =~= spec_encode_delegator_elems(a)
            + spec_encode_delegator_elems(b));
    }
}

/// Appending one delegation to a run appends its encoding.
pub proof fn lemma_encode_delegator_elems_snoc(s: Seq<DelegatorModel>, d: DelegatorModel)
    ensures
        spec_encode_delegator_elems(s.push(d)) == spec_encode_delegator_elems(s)
            + d.spec_encode(),
{
    assert(s.push(d) =~= s + seq![d]);
    lemma_encode_delegator_elems_concat(s, seq![d]);
    assert(seq![d].skip(1) =~= Seq::<DelegatorModel>::empty());
    assert(spec_encode_delegator_elems(Seq::<DelegatorModel>::empty()) =~= Seq::<u8>::empty());
    assert(spec_encode_delegator_elems(seq![d]) =~= d.spec_encode());
    assert(spec_encode_delegator_elems(s) + spec_encode_delegator_elems(seq![d])
        =~= spec_encode_delegator_elems(s) + d.spec_encode());
}

/// A run of delegations parses back from its own element encodings followed
/// by anything, leaving exactly that remainder.
pub proof fn lemma_delegator_elems_round_trip(s: Seq<DelegatorModel>, rest: Seq<u8>)
    requires
        forall|i: int| 0 <= i < s.len() ==> s[i].wf(),
    ensures
        spec_decode_delegator_elems(spec_encode_delegator_elems(s) + rest, s.len() as nat)
            == Some((s, rest)),
    decreases s.len(),
{
    if s.len() == 0 {
        assert(spec_encode_delegator_elems(s) + rest =~= rest);
        assert(spec_decode_delegator_elems(rest, 0)
            == Some((Seq::<DelegatorModel>::empty(), rest)));
        assert(s =~= Seq::<DelegatorModel>::empty());
    } else {
        let tail_bytes = spec_encode_delegator_elems(s.skip(1)) + rest;
        assert(spec_encode_delegator_elems(s) + rest =~= s[0].spec_encode() + tail_bytes);
        lemma_delegator_round_trip(s[0], tail_bytes);
        lemma_delegator_elems_round_trip(s.skip(1), rest);
        assert(seq![s[0]] + s.skip(1) =~= s);
    }
}

/// A sequence of delegations parses back from its own length-prefixed
/// encoding followed by anything, leaving exactly that remainder.
pub proof fn lemma_delegator_seq_round_trip(s: Seq<DelegatorModel>, rest: Seq<u8>)
    requires
        forall|i: int| 0 <= i < s.len() ==> s[i].wf(),
        s.len() <= u32::MAX,
    ensures
        spec_decode_delegator_seq(spec_encode_delegator_seq(s) + rest) == Some((s, rest)),
{
    let n = s.len() as u32;
    let elems = spec_encode_delegator_elems(s) + rest;
    assert(spec_encode_delegator_seq(s) + rest =~= u32_le_bytes(n) + elems);
    lemma_decode_u32_of_encode(n, elems);
    lemma_delegator_elems_round_trip(s, rest);
    assert(n as nat == s.len());
}

/// The views of a run of delegations.
pub open spec fn delegator_views(s: Seq<DelegatorConfig>) -> Seq<DelegatorModel> {
    s.map_values(|d: DelegatorConfig| d@)
}

/// Encodes a vector of delegations: a length prefix, then each element's
/// encoding in order.
pub fn encode_delegator_vec(delegators: &Vec<DelegatorConfig>) -> (r: Vec<u8>)
    requires
        delegators@.len() <= u32::MAX,
    ensures
        r@ == spec_encode_delegator_seq(delegator_views(delegators@)),
{
    let n: u32 = delegators.len() as u32;
    let mut buf = encode_u32(n);
    let mut i: usize = 0;
    proof {
        assert(delegator_views(delegators@).take(0) =~= Seq::<DelegatorModel>::empty());
        assert(buf@ =~= u32_le_bytes(n)
            + spec_encode_delegator_elems(delegator_views(delegators@).take(0)));
    }
    while i < delegators.len()
        invariant
            i <= delegators@.len(),
            delegators@.len() <= u32::MAX,
            n == delegators@.len() as u32,
            buf@ == u32_le_bytes(n)
                + spec_encode_delegator_elems(delegator_views(delegators@).take(i as int)),
        decreases delegators@.len() - i,
    {
        let mut elem = delegators[i].to_bytes();
        buf.append(&mut elem);
        proof {
            let views = delegator_views(delegators@);
            lemma_encode_delegator_elems_snoc(views.take(i as int), views[i as int]);
            assert(views.take(i as int).push(views[i as int]) =~= views.take(i as int + 1));
            assert(buf@ =~= u32_le_bytes(n)
                + spec_encode_delegator_elems(views.take(i as int + 1)));
        }
        i += 1;
    }
    proof {
        let views = delegator_views(delegators@);
        assert(views.take(views.len() as int) =~= views);
    }
    buf
}

/// Decodes a length-prefixed vector of delegations from the head of
/// `bytes`, returning the remainder.
pub fn decode_delegator_vec(bytes: &[u8]) -> (r: Result<
    (Vec<DelegatorConfig>, &[u8]),
    DecodeError,
>)
    ensures
        match r {
            Ok(p) => spec_decode_delegator_seq(bytes@) == Some((delegator_views(p.0@), p.1@))
                && p.0@.len() <= u32::MAX && forall|i: int| 0 <= i < p.0@.len() ==> p.0@[i]@.wf(),
            Err(e) => spec_decode_delegator_seq(bytes@) is None
                && e == DecodeError::EarlyEndOfStream,
        },
{
    let (n, first_rest) = match decode_u32(bytes) {
        Ok(p) => p,
        Err(e) => {
            return Err(e);
        },
    };
    let mut rest = first_rest;
    let ghost rest0 = rest@;
    let mut out: Vec<DelegatorConfig> = Vec::new();
    let mut i: u32 = 0;
    proof {
        assert(delegator_views(out@) =~= Seq::<DelegatorModel>::empty());
    }
    while i < n
        invariant
            i <= n,
            out@.len() == i,
            spec_decode_u32(bytes@) == Some((n, rest0)),
            forall|j: int| 0 <= j < out@.len() ==> out@[j]@.wf(),
            spec_decode_delegator_elems(rest0, n as nat) == (match spec_decode_delegator_elems(
                rest@,
                (n - i) as nat,
            ) {
                None => None,
                Some((tail, rem)) => Some((delegator_views(out@) + tail, rem)),
            }),
        decreases n - i,
    {
        let ghost prev = rest@;
        let (d, next) = match DelegatorConfig::from_bytes(rest) {
            Ok(p) => p,
            Err(e) => {
                proof {
                    assert(spec_decode_delegator_elems(prev, (n - i) as nat) is None);
                }
                return Err(e);
            },
        };
        proof {
            let ghost old_views = delegator_views(out@);
            match spec_decode_delegator_elems(next@, (n - i - 1) as nat) {
                None => {
                    assert(spec_decode_delegator_elems(prev, (n - i) as nat) is None);
                },
                Some((tail, rem)) => {
                    assert(spec_decode_delegator_elems(prev, (n - i) as nat)
                        == Some((seq![d@] + tail, rem)));
                    assert(old_views + (seq![d@] + tail) =~= (old_views + seq![d@]) + tail);
                    assert(old_views + seq![d@] =~= delegator_views(out@.push(d)));
                },
            }
        }
        out.push(d);
        rest = next;
        i += 1;
    }
    proof {
        assert(spec_decode_delegator_elems(rest@, 0)
            == Some((Seq::<DelegatorModel>::empty(), rest@)));
        assert(delegator_views(out@) + Seq::<DelegatorModel>::empty() =~= delegator_views(out@));
    }
    Ok((out, rest))
}

} // verus!
