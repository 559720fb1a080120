//! The aggregate genesis configuration: an ordered sequence of accounts and
//! an ordered sequence of delegations. It encodes as the composition of its
//! two sequence fields, accounts first, and owns the rule for loading from
//! the external accounts source: an absent source is the empty
//! configuration, and a source that omits its delegators section has none.

use vstd::prelude::*;
use crate::account::{
    AccountConfig, AccountModel, account_views, decode_account_vec, encode_account_vec,
    lemma_account_seq_round_trip, lemma_encode_account_elems_concat,
    lemma_encode_account_elems_snoc, spec_decode_account_seq, spec_encode_account_elems,
    spec_encode_account_seq,
};
use crate::codec::DecodeError;
use crate::delegator::{
    DelegatorConfig, DelegatorModel, decode_delegator_vec, delegator_views,
    encode_delegator_vec, lemma_delegator_seq_round_trip, lemma_encode_delegator_elems_concat,
    lemma_encode_delegator_elems_snoc, spec_decode_delegator_seq, spec_encode_delegator_elems,
    spec_encode_delegator_seq,
};

verus! {

/// The mathematical content of an `AccountsConfig`.
#[verifier::ext_equal]
pub struct AccountsModel {
    /// The accounts, in load order.
    pub accounts: Seq<AccountModel>,
    /// The delegations, in load order.
    pub delegators: Seq<DelegatorModel>,
}

impl AccountsModel {
    /// A model is well formed when every entry is and both sequences fit
    /// the fixed-width length prefix.
    pub open spec fn wf(self) -> bool {
        &&& self.accounts.len() <= u32::MAX
        &&& self.delegators.len() <= u32::MAX
        &&& forall|i: int| 0 <= i < self.accounts.len() ==> self.accounts[i].wf()
        &&& forall|i: int| 0 <= i < self.delegators.len() ==> self.delegators[i].wf()
    }

    /// Canonical encoding: the account sequence, then the delegator
    /// sequence.
    pub open spec fn spec_encode(self) -> Seq<u8> {
        spec_encode_account_seq(self.accounts) + spec_encode_delegator_seq(self.delegators)
    }
}

/// Parse of a whole configuration at the head of a byte string: the two
/// sequence fields in declared order, threading the remainder.
pub open spec fn spec_decode_accounts_config(s: Seq<u8>) -> Option<(AccountsModel, Seq<u8>)> {
    match spec_decode_account_seq(s) {
        None => None,
        Some((accounts, s1)) => match spec_decode_delegator_seq(s1) {
            None => None,
            Some((delegators, rem)) => Some((AccountsModel { accounts, delegators }, rem)),
        },
    }
}

/// Error from loading the external accounts source.
#[derive(Clone, Copy, Debug, PartialEq, Eq, Structural)]
pub enum LoadError {
    /// The source exists but its bytes could not be read.
    SourceUnreadable,
    /// The source was read but does not conform to the expected schema.
    SourceMalformed,
}

/// How the external accounts source presented itself: absent, unreadable,
/// malformed, or parsed into its rows, with the delegators section present
/// or omitted.
pub enum LoadSource {
    /// No source exists at the expected location.
    Absent,
    /// A source exists but its bytes could not be read.
    Unreadable,
    /// The source's bytes do not parse as the expected schema.
    Malformed,
    /// The parsed rows: the accounts, and the delegators where the source
    /// carried that section.
    Parsed(Vec<AccountConfig>, Option<Vec<DelegatorConfig>>),
}

/// The aggregate genesis configuration: ordered accounts and ordered
/// delegations. Immutable after construction; duplicates are structurally
/// legal at this layer.
#[derive(Clone, Debug, PartialEq, Eq)]
pub struct AccountsConfig {
    accounts: Vec<AccountConfig>,
    delegators: Vec<DelegatorConfig>,
}

impl View for AccountsConfig {
    type V = AccountsModel;

    closed spec fn view(&self) -> AccountsModel {
        AccountsModel {
            accounts: account_views(self.accounts@),
            delegators: delegator_views(self.delegators@),
        }
    }
}

impl AccountsConfig {
    /// Constructs a configuration from its two sequences, unvalidated.
    pub fn new(accounts: Vec<AccountConfig>, delegators: Vec<DelegatorConfig>) -> (r: Self)
        ensures
            r@.accounts == account_views(accounts@),
            r@.delegators == delegator_views(delegators@),
    {
        Self { accounts, delegators }
    }

    /// The accounts, in their original order.
    pub fn accounts(&self) -> (r: &Vec<AccountConfig>)
        ensures
            account_views(r@) == self@.accounts,
    {
        &self.accounts
    }

    /// The delegations, in their original order.
    pub fn delegators(&self) -> (r: &Vec<DelegatorConfig>)
        ensures
            delegator_views(r@) == self@.delegators,
    {
        &self.delegators
    }

    /// Canonical encoding of the configuration: accounts, then delegators.
    pub fn to_bytes(&self) -> (r: Vec<u8>)
        requires
            self@.accounts.len() <= u32::MAX,
            self@.delegators.len() <= u32::MAX,
        ensures
            r@ == self@.spec_encode(),
    {
        let mut buf = encode_account_vec(&self.accounts);
        let mut dels = encode_delegator_vec(&self.delegators);
        buf.append(&mut dels);
        buf
    }

    /// Declared byte size of the canonical encoding; equal to the length
    /// `to_bytes` produces.
    pub fn serialized_length(&self) -> (r: usize)
        requires
            self@.spec_encode().len() <= usize::MAX,
        ensures
            r == self@.spec_encode().len(),
    {
        let ghost avs = account_views(self.accounts@);
        let ghost dvs = delegator_views(self.delegators@);
        let mut total: usize = 4;
        let mut i: usize = 0;
        proof {
            assert(avs.take(0) =~= Seq::<AccountModel>::empty());
        }
        while i < self.accounts.len()
            invariant
                i <= self.accounts@.len(),
                avs == account_views(self.accounts@),
                self@.spec_encode().len() <= usize::MAX,
                total == 4 + spec_encode_account_elems(avs.take(i as int)).len(),
            decreases self.accounts@.len() - i,
        {
            proof {
                assert(avs =~= avs.take(i as int + 1) + avs.skip(i as int + 1));
                lemma_encode_account_elems_concat(avs.take(i as int + 1), avs.skip(i as int + 1));
                lemma_encode_account_elems_snoc(avs.take(i as int), avs[i as int]);
                assert(avs.take(i as int).push(avs[i as int]) =~= avs.take(i as int + 1));
            }
            let elem = self.accounts[i].serialized_length();
            total = total + elem;
            i += 1;
        }
        proof {
            assert(avs.take(avs.len() as int) =~= avs);
        }
        let mut j: usize = 0;
        proof {
            assert(dvs.take(0) =~= Seq::<DelegatorModel>::empty());
        }
        total = total + 4;
        while j < self.delegators.len()
            invariant
                j <= self.delegators@.len(),
                avs == account_views(self.accounts@),
                dvs == delegator_views(self.delegators@),
                self@.spec_encode().len() <= usize::MAX,
                total == spec_encode_account_seq(avs).len() + 4
                    + spec_encode_delegator_elems(dvs.take(j as int)).len(),
            decreases self.delegators@.len() - j,
        {
            proof {
                assert(dvs =~= dvs.take(j as int + 1) + dvs.skip(j as int + 1));
                lemma_encode_delegator_elems_concat(
                    dvs.take(j as int + 1),
                    dvs.skip(j as int + 1),
                );
                lemma_encode_delegator_elems_snoc(dvs.take(j as int), dvs[j as int]);
                assert(dvs.take(j as int).push(dvs[j as int]) =~= dvs.take(j as int + 1));
            }
            let elem = self.delegators[j].serialized_length();
            total = total + elem;
            j += 1;
        }
        proof {
            assert(dvs.take(dvs.len() as int) =~= dvs);
        }
        total
    }

    /// Decodes a configuration from the head of `bytes`, returning the
    /// remainder.
    pub fn from_bytes(bytes: &[u8]) -> (r: Result<(Self, &[u8]), DecodeError>)
        ensures
            match r {
                Ok(p) => spec_decode_accounts_config(bytes@) == Some((p.0@, p.1@)) && p.0@.wf(),
                Err(e) => spec_decode_accounts_config(bytes@) is None
                    && e == DecodeError::EarlyEndOfStream,
            },
    {
        let (accounts, rem) = match decode_account_vec(bytes) {
            Ok(p) => p,
            Err(e) => {
                return Err(e);
            },
        };
        let (delegators, rem) = match decode_delegator_vec(rem) {
            Ok(p) => p,
            Err(e) => {
                return Err(e);
            },
        };
        proof {
            assert(forall|i: int| 0 <= i < account_views(accounts@).len()
                ==> #[trigger] account_views(accounts@)[i].wf());
            assert(forall|i: int| 0 <= i < delegator_views(delegators@).len()
                ==> #[trigger] delegator_views(delegators@)[i].wf());
        }
        Ok((Self { accounts, delegators }, rem))
    }

    /// The load rule over an already-fetched source. An absent source is
    /// not an error: it yields the empty configuration. An unreadable or
    /// malformed source is the corresponding load error, and nothing else
    /// is. A parsed source keeps its accounts in order, and a source that
    /// omitted its delegators section yields no delegations.
    pub fn from_source(source: LoadSource) -> (r: Result<AccountsConfig, LoadError>)
        ensures
            match source {
                LoadSource::Absent => r matches Ok(c) && c@.accounts.len() == 0
                    && c@.delegators.len() == 0,
                LoadSource::Unreadable => r == Err::<AccountsConfig, LoadError>(
                    LoadError::SourceUnreadable,
                ),
                LoadSource::Malformed => r == Err::<AccountsConfig, LoadError>(
                    LoadError::SourceMalformed,
                ),
                LoadSource::Parsed(accounts, delegators) => r matches Ok(c)
                    && c@.accounts == account_views(accounts@) && c@.delegators == (
                    match delegators {
                        Some(d) => delegator_views(d@),
                        None => Seq::<DelegatorModel>::empty(),
                    }),
            },
    {
        match source {
            LoadSource::Absent => {
                let r = AccountsConfig::new(Vec::new(), Vec::new());
                proof {
                    assert(r@.accounts =~= Seq::<AccountModel>::empty());
                    assert(r@.delegators =~= Seq::<DelegatorModel>::empty());
                }
                Ok(r)
            },
            LoadSource::Unreadable => Err(LoadError::SourceUnreadable),
            LoadSource::Malformed => Err(LoadError::SourceMalformed),
            LoadSource::Parsed(accounts, delegators) => {
                let delegators = match delegators {
                    Some(d) => d,
                    None => Vec::new(),
                };
                let r = AccountsConfig::new(accounts, delegators);
                proof {
                    assert(delegator_views(Seq::<DelegatorConfig>::empty())
                        =~= Seq::<DelegatorModel>::empty());
                }
                Ok(r)
            },
        }
    }

    /// Draws a fresh configuration from the process random number source
    /// (test support): a handful of accounts, and one delegation whose
    /// validator is the first account.
    pub fn random() -> (r: Self)
        ensures
            r@.accounts.len() == 4,
            r@.delegators.len() == 1,
            r@.delegators[0].validator_public_key == r@.accounts[0].public_key,
            r@.wf(),
    {
        let alpha = AccountConfig::random();
        let alpha_key = alpha.public_key();
        let mut accounts: Vec<AccountConfig> = Vec::new();
        accounts.push(alpha);
        accounts.push(AccountConfig::random());
        accounts.push(AccountConfig::random());
        accounts.push(AccountConfig::random());
        let template = DelegatorConfig::random();
        let delegator = DelegatorConfig::new(
            alpha_key,
            template.delegator_public_key(),
            template.balance(),
            template.delegated_amount(),
        );
        let mut delegators: Vec<DelegatorConfig> = Vec::new();
        delegators.push(delegator);
        Self { accounts, delegators }
    }
}

/// A configuration parses back from its own encoding followed by anything,
/// leaving exactly that remainder. With an empty continuation this is the
/// round trip: decoding an encoding yields the value and an empty
/// remainder.
pub proof fn lemma_accounts_config_round_trip(m: AccountsModel, rest: Seq<u8>)
    requires
        m.wf(),
    ensures
        spec_decode_accounts_config(m.spec_encode() + rest) == Some((m, rest)),
{
    let tail = spec_encode_delegator_seq(m.delegators) + rest;
    assert(m.spec_encode() + rest =~= spec_encode_account_seq(m.accounts) + tail);
    lemma_account_seq_round_trip(m.accounts, tail);
    lemma_delegator_seq_round_trip(m.delegators, rest);
    assert(AccountsModel { accounts: m.accounts, delegators: m.delegators } =~= m);
}

} // verus!
