//! The genesis adapter: a pure, order-preserving transformation of a
//! finished configuration into the per-account records the execution engine
//! seeds the initial ledger state from. Each record carries the account's
//! identity, an account hash derived solely from that identity, its balance
//! and its bonded amount. Delegations are not part of this output; applying
//! them is the engine's responsibility.

use vstd::prelude::*;
use crate::account::AccountModel;
use crate::config::AccountsConfig;
use crate::primitives::{clone_bytes, Motes, PublicKey};

verus! {

/// The 256-bit digest the ledger's account-hash derivation is built on; a
/// function of the input bytes alone.
pub uninterp spec fn blake2b_of(data: Seq<u8>) -> Seq<u8>;

/// Computes the digest that `blake2b_of` names.
///
/// Relies on `casper_types::account::blake2b`: a 32-byte digest computed
/// from the input bytes alone.
#[verifier::external_body]
fn blake2b_digest(data: Vec<u8>) -> (r: Vec<u8>)
    ensures
        r@ == blake2b_of(data@),
        r@.len() == 32,
{
    casper_types::account::blake2b(&data).to_vec()
}

/// The preimage of the account-hash derivation: the name of the key
/// algorithm in lower case, a zero separator, then the key's bytes.
pub open spec fn account_hash_preimage(key: Seq<u8>) -> Seq<u8> {
    seq![0x65u8, 0x64u8, 0x32u8, 0x35u8, 0x35u8, 0x31u8, 0x39u8, 0u8] + key
}

/// The account hash of a public-key identity: the digest of its derivation
/// preimage, a function of the key alone.
pub open spec fn account_hash_of(key: Seq<u8>) -> Seq<u8> {
    blake2b_of(account_hash_preimage(key))
}

/// Derives the account hash of a key: the digest of the algorithm name, a
/// zero separator, and the key's bytes.
fn derive_account_hash(key: &PublicKey) -> (r: Vec<u8>)
    ensures
        r@ == account_hash_of(key@),
        r@.len() == 32,
{
    // The algorithm name "ed25519", as bytes, then the zero separator.
    let mut preimage: Vec<u8> = Vec::new();
    preimage.push(0x65);
    preimage.push(0x64);
    preimage.push(0x32);
    preimage.push(0x35);
    preimage.push(0x35);
    preimage.push(0x31);
    preimage.push(0x39);
    preimage.push(0);
    let mut key_bytes = key.to_bytes();
    preimage.append(&mut key_bytes);
    proof {
        assert(preimage@ =~= account_hash_preimage(key@));
    }
    blake2b_digest(preimage)
}

/// The mathematical content of a `GenesisRecord`.
#[verifier::ext_equal]
pub struct GenesisRecordModel {
    /// The account's public-key identity.
    pub public_key: Seq<u8>,
    /// The hash derived from that identity.
    pub account_hash: Seq<u8>,
    /// The account's starting balance.
    pub balance: u64,
    /// The stake the account bonds at genesis.
    pub bonded_amount: u64,
}

/// One record of the produced genesis structure: identity, derived account
/// hash, balance, bonded amount.
#[derive(Clone, Debug, PartialEq, Eq)]
pub struct GenesisRecord {
    public_key: PublicKey,
    account_hash: Vec<u8>,
    balance: Motes,
    bonded_amount: Motes,
}

impl View for GenesisRecord {
    type V = GenesisRecordModel;

    closed spec fn view(&self) -> GenesisRecordModel {
        GenesisRecordModel {
            public_key: self.public_key@,
            account_hash: self.account_hash@,
            balance: self.balance.spec_value(),
            bonded_amount: self.bonded_amount.spec_value(),
        }
    }
}

impl GenesisRecord {
    /// Constructs a record from all of its fields.
    pub fn new(
        public_key: PublicKey,
        account_hash: Vec<u8>,
        balance: Motes,
        bonded_amount: Motes,
    ) -> (r: Self)
        ensures
            r@ == (GenesisRecordModel {
                public_key: public_key@,
                account_hash: account_hash@,
                balance: balance.spec_value(),
                bonded_amount: bonded_amount.spec_value(),
            }),
    {
        Self { public_key, account_hash, balance, bonded_amount }
    }

    /// The record's public-key identity.
    pub fn public_key(&self) -> (r: PublicKey)
        ensures
            r@ == self@.public_key,
    {
        self.public_key.clone()
    }

    /// The hash derived from the record's identity.
    pub fn account_hash(&self) -> (r: Vec<u8>)
        ensures
            r@ == self@.account_hash,
    {
        clone_bytes(&self.account_hash)
    }

    /// The account's starting balance.
    pub fn balance(&self) -> (r: Motes)
        ensures
            r.spec_value() == self@.balance,
    {
        self.balance
    }

    /// The stake the account bonds at genesis.
    pub fn bonded_amount(&self) -> (r: Motes)
        ensures
            r.spec_value() == self@.bonded_amount,
    {
        self.bonded_amount
    }
}

/// Whether one genesis record is the adapter's image of one account: same
/// identity, balance and bonded amount, and the hash derived solely from
/// the identity.
pub open spec fn record_of_account(g: GenesisRecordModel, a: AccountModel) -> bool {
    &&& g.public_key == a.public_key
    &&& g.account_hash == account_hash_of(a.public_key)
    &&& g.balance == a.balance
    &&& g.bonded_amount == a.bonded_amount
}

/// Produces the genesis records of a configuration: one record per account,
/// in the accounts' order, each carrying that account's identity, derived
/// hash, balance and bonded amount.
pub fn genesis_records(config: &AccountsConfig) -> (r: Vec<GenesisRecord>)
    ensures
        r@.len() == config@.accounts.len(),
        forall|i: int| 0 <= i < r@.len() ==> record_of_account(
            #[trigger] r@[i]@,
            config@.accounts[i],
        ),
{
    let accounts = config.accounts();
    let mut records: Vec<GenesisRecord> = Vec::new();
    let mut i: usize = 0;
    while i < accounts.len()
        invariant
            i <= accounts@.len(),
            records@.len() == i,
            config@.accounts == crate::account::account_views(accounts@),
            forall|j: int| 0 <= j < i ==> record_of_account(
                #[trigger] records@[j]@,
                config@.accounts[j],
            ),
        decreases accounts@.len() - i,
    {
        let account = &accounts[i];
        let public_key = account.public_key();
        let account_hash = derive_account_hash(&public_key);
        let record = GenesisRecord::new(
            public_key,
            account_hash,
            account.balance(),
            account.bonded_amount(),
        );
        records.push(record);
        i += 1;
    }
    records
}

} // verus!
