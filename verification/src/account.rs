//! One genesis account: identity, starting balance, bonded amount. The
//! canonical encoding composes the fields' encodings in that declared order;
//! decoding reads them back in the same order, threading the remainder.

use vstd::prelude::*;
use crate::codec::{
    DecodeError, lemma_decode_u32_of_encode, lemma_decode_u64_of_encode, spec_decode_u32,
    spec_decode_u64, u32_le_bytes, u64_le_bytes, decode_u32, encode_u32,
};
use crate::primitives::{
    Motes, PublicKey, PUBLIC_KEY_LENGTH, spec_decode_public_key, spec_encode_motes,
    spec_encode_public_key,
};

verus! {

/// The mathematical content of an `AccountConfig`.
#[verifier::ext_equal]
pub struct AccountModel {
    /// The account's public-key identity.
    pub public_key: Seq<u8>,
    /// The account's starting balance.
    pub balance: u64,
    /// The stake the account bonds at genesis.
    pub bonded_amount: u64,
}

impl AccountModel {
    /// A model is well formed when its key has the fixed key length.
    pub open spec fn wf(self) -> bool {
        self.public_key.len() == PUBLIC_KEY_LENGTH
    }

    /// Canonical encoding: public key, then balance, then bonded amount.
    pub open spec fn spec_encode(self) -> Seq<u8> {
        spec_encode_public_key(self.public_key) + spec_encode_motes(self.balance)
            + spec_encode_motes(self.bonded_amount)
    }
}

/// Parse of an account at the head of a byte string: the three fields in
/// declared order, threading the remainder through each step.
pub open spec fn spec_decode_account(s: Seq<u8>) -> Option<(AccountModel, Seq<u8>)> {
    match spec_decode_public_key(s) {
        None => None,
        Some((public_key, s1)) => match spec_decode_u64(s1) {
            None => None,
            Some((balance, s2)) => match spec_decode_u64(s2) {
                None => None,
                Some((bonded_amount, s3)) => Some(
                    (AccountModel { public_key, balance, bonded_amount }, s3),
                ),
            },
        },
    }
}

/// One genesis account: identity, starting balance, bonded amount.
/// Immutable after construction; no validation is performed here.
#[derive(Clone, Debug, PartialEq, Eq)]
pub struct AccountConfig {
    public_key: PublicKey,
    balance: Motes,
    bonded_amount: Motes,
}

impl View for AccountConfig {
    type V = AccountModel;

    closed spec fn view(&self) -> AccountModel {
        AccountModel {
            public_key: self.public_key@,
            balance: self.balance.spec_value(),
            bonded_amount: self.bonded_amount.spec_value(),
        }
    }
}

impl AccountConfig {
    /// Constructs an account from all of its fields.
    pub fn new(public_key: PublicKey, balance: Motes, bonded_amount: Motes) -> (r: Self)
        ensures
            r@ == (AccountModel {
                public_key: public_key@,
                balance: balance.spec_value(),
                bonded_amount: bonded_amount.spec_value(),
            }),
            public_key.wf() ==> r@.wf(),
    {
        Self { public_key, balance, bonded_amount }
    }

    /// The account's public-key identity.
    pub fn public_key(&self) -> (r: PublicKey)
        ensures
            r@ == self@.public_key,
    {
        self.public_key.clone()
    }

    /// The account's starting balance.
    pub fn balance(&self) -> (r: Motes)
        ensures
            r.spec_value() == self@.balance,
    {
        self.balance
    }

    /// The stake the account bonds at genesis.
    pub fn bonded_amount(&self) -> (r: Motes)
        ensures
            r.spec_value() == self@.bonded_amount,
    {
        self.bonded_amount
    }

    /// Whether the account enters genesis as a validator: exactly when its
    /// bonded amount is not zero.
    pub fn is_genesis_validator(&self) -> (r: bool)
        ensures
            r == (self@.bonded_amount != 0),
    {
        !self.bonded_amount.is_zero()
    }

    /// Canonical encoding of the account: its fields in declared order.
    pub fn to_bytes(&self) -> (r: Vec<u8>)
        ensures
            r@ == self@.spec_encode(),
    {
        let mut buf = self.public_key.to_bytes();
        let mut balance = self.balance.to_bytes();
        buf.append(&mut balance);
        let mut bonded = self.bonded_amount.to_bytes();
        buf.append(&mut bonded);
        proof {
            assert(buf@ =~= self@.spec_encode());
        }
        buf
    }

    /// Declared byte size of the canonical encoding; equal to the length
    /// `to_bytes` produces.
    pub fn serialized_length(&self) -> (r: usize)
        requires
            self@.spec_encode().len() <= usize::MAX,
        ensures
            r == self@.spec_encode().len(),
    {
        self.public_key.serialized_length() + self.balance.serialized_length()
            + self.bonded_amount.serialized_length()
    }

    /// Decodes an account from the head of `bytes`, returning the remainder.
    pub fn from_bytes(bytes: &[u8]) -> (r: Result<(Self, &[u8]), DecodeError>)
        ensures
            match r {
                Ok(p) => spec_decode_account(bytes@) == Some((p.0@, p.1@)) && p.0@.wf(),
                Err(e) => spec_decode_account(bytes@) is None
                    && e == DecodeError::EarlyEndOfStream,
            },
    {
        let (public_key, rem) = match PublicKey::from_bytes(bytes) {
            Ok(p) => p,
            Err(e) => {
                return Err(e);
            },
        };
        let (balance, rem) = match Motes::from_bytes(rem) {
            Ok(p) => p,
            Err(e) => {
                return Err(e);
            },
        };
        let (bonded_amount, rem) = match Motes::from_bytes(rem) {
            Ok(p) => p,
            Err(e) => {
                return Err(e);
            },
        };
        Ok((Self { public_key, balance, bonded_amount }, rem))
    }

    /// Draws a fresh account from the process random number source (test
    /// support).
    pub fn random() -> (r: Self)
        ensures
            r@.wf(),
    {
        Self {
            public_key: PublicKey::random(),
            balance: Motes::random(),
            bonded_amount: Motes::random(),
        }
    }
}

/// An account parses back from its own encoding followed by anything,
/// leaving exactly that remainder. With an empty continuation this is the
/// round trip: decoding an encoding yields the value and an empty remainder.
pub proof fn lemma_account_round_trip(m: AccountModel, rest: Seq<u8>)
    requires
        m.wf(),
    ensures
        spec_decode_account(m.spec_encode() + rest) == Some((m, rest)),
{
    let s = m.spec_encode() + rest;
    assert(s.take(PUBLIC_KEY_LENGTH as int) =~= m.public_key);
    assert(s.skip(PUBLIC_KEY_LENGTH as int) =~= u64_le_bytes(m.balance)
        + (u64_le_bytes(m.bonded_amount) + rest));
    lemma_decode_u64_of_encode(m.balance, u64_le_bytes(m.bonded_amount) + rest);
    lemma_decode_u64_of_encode(m.bonded_amount, rest);
    assert(spec_decode_account(s) == Some((m, rest)));
}

/// Any truncation of an account's encoding, by at least one byte, has no
/// parse: decode reports an error on it rather than a value.
pub proof fn lemma_account_truncation_fails(m: AccountModel, n: int)
    requires
        m.wf(),
        0 <= n < m.spec_encode().len(),
    ensures
        spec_decode_account(m.spec_encode().take(n)) is None,
{
    let t = m.spec_encode().take(n);
    assert(m.spec_encode().len() == PUBLIC_KEY_LENGTH + 16);
    assert(t.len() < PUBLIC_KEY_LENGTH + 16);
}

/// Encoding of a run of accounts without its length prefix: each element's
/// encoding, concatenated in sequence order.
pub open spec fn spec_encode_account_elems(s: Seq<AccountModel>) -> Seq<u8>
    decreases s.len(),
{
    if s.len() == 0 {
        Seq::empty()
    } else {
        s[0].spec_encode() + spec_encode_account_elems(s.skip(1))
    }
}

/// Canonical encoding of a sequence of accounts: a fixed-width length
/// prefix, then the elements in order.
pub open spec fn spec_encode_account_seq(s: Seq<AccountModel>) -> Seq<u8> {
    u32_le_bytes(s.len() as u32) + spec_encode_account_elems(s)
}

/// Parse of exactly `n` accounts from the head of a byte string.
pub open spec fn spec_decode_account_elems(s: Seq<u8>, n: nat) -> Option<
    (Seq<AccountModel>, Seq<u8>),
>
    decreases n,
{
    if n == 0 {
        Some((Seq::empty(), s))
    } else {
        match spec_decode_account(s) {
            None => None,
            Some((a, s1)) => match spec_decode_account_elems(s1, (n - 1) as nat) {
                None => None,
                Some((tail, rem)) => Some((seq![a] + tail, rem)),
            },
        }
    }
}

/// Parse of a length-prefixed sequence of accounts: the count, then that
/// many elements in order, threading the remainder.
pub open spec fn spec_decode_account_seq(s: Seq<u8>) -> Option<(Seq<AccountModel>, Seq<u8>)> {
    match spec_decode_u32(s) {
        None => None,
        Some((n, s1)) => spec_decode_account_elems(s1, n as nat),
    }
}

/// Concatenation rule of the element encoding: encoding a concatenation is
/// the concatenation of the encodings.
pub proof fn lemma_encode_account_elems_concat(a: Seq<AccountModel>, b: Seq<AccountModel>)
    ensures
        spec_encode_account_elems(a + b) == spec_encode_account_elems(a)
            + spec_encode_account_elems(b),
    decreases a.len(),
{
    if a.len() == 0 {
        assert(a + b =~= b);
        assert(spec_encode_account_elems(a) + spec_encode_account_elems(b)
            =~= spec_encode_account_elems(b));
    } else {
        assert((a + b).skip(1) =~= a.skip(1) + b);
        lemma_encode_account_elems_concat(a.skip(1), b);
        assert((a + b)[0] == a[0]);
        assert(spec_encode_account_elems(a + b) =~= spec_encode_account_elems(a)
            + spec_encode_account_elems(b));
    }
}

/// Appending one account to a run appends its encoding.
pub proof fn lemma_encode_account_elems_snoc(s: Seq<AccountModel>, a: AccountModel)
    ensures
        spec_encode_account_elems(s.push(a)) == spec_encode_account_elems(s) + a.spec_encode(),
{
    assert(s.push(a) =~= s + seq![a]);
    lemma_encode_account_elems_concat(s, seq![a]);
    assert(seq![a].skip(1) =~= Seq::<AccountModel>::empty());
    assert(spec_encode_account_elems(Seq::<AccountModel>::empty()) =~= Seq::<u8>::empty());
    assert(spec_encode_account_elems(seq![a]) =~= a.spec_encode());
    assert(spec_encode_account_elems(s) + spec_encode_account_elems(seq![a])
        =~= spec_encode_account_elems(s) + a.spec_encode());
}

/// A run of accounts parses back from its own element encodings followed by
/// anything, leaving exactly that remainder.
pub proof fn lemma_account_elems_round_trip(s: Seq<AccountModel>, rest: Seq<u8>)
    requires
        forall|i: int| 0 <= i < s.len() ==> s[i].wf(),
    ensures
        spec_decode_account_elems(spec_encode_account_elems(s) + rest, s.len() as nat)
            == Some((s, rest)),
    decreases s.len(),
{
    if s.len() == 0 {
        assert(spec_encode_account_elems(s) + rest =~= rest);
        assert(spec_decode_account_elems(rest, 0) == Some((Seq::<AccountModel>::empty(), rest)));
        assert(s =~= Seq::<AccountModel>::empty());
    } else {
        let tail_bytes = spec_encode_account_elems(s.skip(1)) + rest;
        assert(spec_encode_account_elems(s) + rest =~= s[0].spec_encode() + tail_bytes);
        lemma_account_round_trip(s[0], tail_bytes);
        lemma_account_elems_round_trip(s.skip(1), rest);
        assert(seq![s[0]] + s.skip(1) =~= s);
    }
}

/// A sequence of accounts parses back from its own length-prefixed encoding
/// followed by anything, leaving exactly that remainder.
pub proof fn lemma_account_seq_round_trip(s: Seq<AccountModel>, rest: Seq<u8>)
    requires
        forall|i: int| 0 <= i < s.len() ==> s[i].wf(),
        s.len() <= u32::MAX,
    ensures
        spec_decode_account_seq(spec_encode_account_seq(s) + rest) == Some((s, rest)),
{
    let n = s.len() as u32;
    let elems = spec_encode_account_elems(s) + rest;
    assert(spec_encode_account_seq(s) + rest =~= u32_le_bytes(n) + elems);
    lemma_decode_u32_of_encode(n, elems);
    lemma_account_elems_round_trip(s, rest);
    assert(n as nat == s.len());
}

/// The views of a run of accounts.
pub open spec fn account_views(s: Seq<AccountConfig>) -> Seq<AccountModel> {
    s.map_values(|a: AccountConfig| a@)
}

/// Encodes a vector of accounts: a length prefix, then each element's
/// encoding in order.
pub fn encode_account_vec(accounts: &Vec<AccountConfig>) -> (r: Vec<u8>)
    requires
        accounts@.len() <= u32::MAX,
    ensures
        r@ == spec_encode_account_seq(account_views(accounts@)),
{
    let n: u32 = accounts.len() as u32;
    let mut buf = encode_u32(n);
    let mut i: usize = 0;
    proof {
        assert(account_views(accounts@).take(0) =~= Seq::<AccountModel>::empty());
        assert(buf@ =~= u32_le_bytes(n)
            + spec_encode_account_elems(account_views(accounts@).take(0)));
    }
    while i < accounts.len()
        invariant
            i <= accounts@.len(),
            accounts@.len() <= u32::MAX,
            n == accounts@.len() as u32,
            buf@ == u32_le_bytes(n)
                + spec_encode_account_elems(account_views(accounts@).take(i as int)),
        decreases accounts@.len() - i,
    {
        let mut elem = accounts[i].to_bytes();
        buf.append(&mut elem);
        proof {
            let views = account_views(accounts@);
            lemma_encode_account_elems_snoc(views.take(i as int), views[i as int]);
            assert(views.take(i as int).push(views[i as int]) =~= views.take(i as int + 1));
            assert(buf@ =~= u32_le_bytes(n)
                + spec_encode_account_elems(views.take(i as int + 1)));
        }
        i += 1;
    }
    proof {
        let views = account_views(accounts@);
        assert(views.take(views.len() as int) =~= views);
    }
    buf
}

/// Decodes a length-prefixed vector of accounts from the head of `bytes`,
/// returning the remainder.
pub fn decode_account_vec(bytes: &[u8]) -> (r: Result<(Vec<AccountConfig>, &[u8]), DecodeError>)
    ensures
        match r {
            Ok(p) => spec_decode_account_seq(bytes@) == Some((account_views(p.0@), p.1@))
                && p.0@.len() <= u32::MAX && forall|i: int| 0 <= i < p.0@.len() ==> p.0@[i]@.wf(),
            Err(e) => spec_decode_account_seq(bytes@) is None
                && e == DecodeError::EarlyEndOfStream,
        },
{
    let (n, first_rest) = match decode_u32(bytes) {
        Ok(p) => p,
        Err(e) => {
            return Err(e);
        },
    };
    let mut rest = first_rest;
    let ghost rest0 = rest@;
    let mut out: Vec<AccountConfig> = Vec::new();
    let mut i: u32 = 0;
    proof {
        assert(account_views(out@) + Seq::<AccountModel>::empty() =~= account_views(out@));
        assert(account_views(out@) =~= Seq::<AccountModel>::empty());
    }
    while i < n
        invariant
            i <= n,
            out@.len() == i,
            spec_decode_u32(bytes@) == Some((n, rest0)),
            forall|j: int| 0 <= j < out@.len() ==> out@[j]@.wf(),
            spec_decode_account_elems(rest0, n as nat) == (match spec_decode_account_elems(
                rest@,
                (n - i) as nat,
            ) {
                None => None,
                Some((tail, rem)) => Some((account_views(out@) + tail, rem)),
            }),
        decreases n - i,
    {
        let ghost prev = rest@;
        let (a, next) = match AccountConfig::from_bytes(rest) {
            Ok(p) => p,
            Err(e) => {
                proof {
                    assert(spec_decode_account_elems(prev, (n - i) as nat) is None);
                }
                return Err(e);
            },
        };
        proof {
            let ghost old_views = account_views(out@);
            match spec_decode_account_elems(next@, (n - i - 1) as nat) {
                None => {
                    assert(spec_decode_account_elems(prev, (n - i) as nat) is None);
                },
                Some((tail, rem)) => {
                    assert(spec_decode_account_elems(prev, (n - i) as nat)
                        == Some((seq![a@] + tail, rem)));
                    assert(old_views + (seq![a@] + tail) =~= (old_views + seq![a@]) + tail);
                    assert(old_views + seq![a@] =~= account_views(out@.push(a)));
                },
            }
        }
        out.push(a);
        rest = next;
        i += 1;
    }
    proof {
        assert(spec_decode_account_elems(rest@, 0) == Some((Seq::<AccountModel>::empty(), rest@)));
        assert(account_views(out@) + Seq::<AccountModel>::empty() =~= account_views(out@));
    }
    Ok((out, rest))
}

} // verus!
