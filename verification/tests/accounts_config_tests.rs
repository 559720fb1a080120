use accounts_config::account::AccountConfig;
use accounts_config::codec::{decode_u32, decode_u64, encode_u32, encode_u64, DecodeError};
use accounts_config::config::{AccountsConfig, LoadError, LoadSource};
use accounts_config::delegator::DelegatorConfig;
use accounts_config::genesis::genesis_records;
use accounts_config::primitives::{Motes, PublicKey};

fn key(seed: u8) -> PublicKey {
    PublicKey::new(vec![seed; 32])
}

fn sample_account(seed: u8, balance: u64, bonded: u64) -> AccountConfig {
    AccountConfig::new(key(seed), Motes::new(balance), Motes::new(bonded))
}

fn sample_delegator(vseed: u8, dseed: u8, balance: u64, delegated: u64) -> DelegatorConfig {
    DelegatorConfig::new(
        key(vseed),
        key(dseed),
        Motes::new(balance),
        Motes::new(delegated),
    )
}

#[test]
fn serialization_roundtrip() {
    let accounts_config = AccountsConfig::random();
    let bytes = accounts_config.to_bytes();
    assert_eq!(bytes.len(), accounts_config.serialized_length());
    let (decoded, remainder) = AccountsConfig::from_bytes(&bytes).unwrap();
    assert_eq!(decoded, accounts_config);
    assert!(remainder.is_empty());
}

#[test]
fn u32_encoding_is_little_endian() {
    assert_eq!(encode_u32(0x0403_0201), vec![1, 2, 3, 4]);
    let bytes = vec![1u8, 2, 3, 4, 9];
    let (v, rem) = decode_u32(&bytes).unwrap();
    assert_eq!(v, 0x0403_0201);
    assert_eq!(rem, &[9]);
    assert_eq!(decode_u32(&[1, 2, 3]), Err(DecodeError::EarlyEndOfStream));
}

#[test]
fn u64_encoding_is_little_endian() {
    assert_eq!(encode_u64(258), vec![2, 1, 0, 0, 0, 0, 0, 0]);
    let bytes = encode_u64(u64::MAX);
    assert_eq!(bytes, vec![0xff; 8]);
    let (v, rem) = decode_u64(&bytes).unwrap();
    assert_eq!(v, u64::MAX);
    assert!(rem.is_empty());
    assert_eq!(decode_u64(&[1, 2, 3, 4, 5, 6, 7]), Err(DecodeError::EarlyEndOfStream));
}

#[test]
fn account_encoding_composes_fields_in_order() {
    let account = sample_account(7, 258, 3);
    let bytes = account.to_bytes();
    let mut expected = vec![7u8; 32];
    expected.extend_from_slice(&[2, 1, 0, 0, 0, 0, 0, 0]);
    expected.extend_from_slice(&[3, 0, 0, 0, 0, 0, 0, 0]);
    assert_eq!(bytes, expected);
    assert_eq!(bytes.len(), account.serialized_length());
}

#[test]
fn account_round_trip() {
    let account = sample_account(1, 1000, 50);
    let bytes = account.to_bytes();
    let (decoded, remainder) = AccountConfig::from_bytes(&bytes).unwrap();
    assert_eq!(decoded, account);
    assert!(remainder.is_empty());
}

#[test]
fn account_round_trip_keeps_trailing_bytes() {
    let account = sample_account(9, u64::MAX, 0);
    let mut bytes = account.to_bytes();
    bytes.extend_from_slice(&[0xaa, 0xbb]);
    let (decoded, remainder) = AccountConfig::from_bytes(&bytes).unwrap();
    assert_eq!(decoded, account);
    assert_eq!(remainder, &[0xaa, 0xbb]);
}

#[test]
fn delegator_round_trip() {
    let delegator = sample_delegator(1, 2, 77, 88);
    let bytes = delegator.to_bytes();
    assert_eq!(bytes.len(), delegator.serialized_length());
    let (decoded, remainder) = DelegatorConfig::from_bytes(&bytes).unwrap();
    assert_eq!(decoded, delegator);
    assert!(remainder.is_empty());
}

#[test]
fn accounts_config_round_trip_concrete() {
    let config = AccountsConfig::new(
        vec![sample_account(1, 10, 0), sample_account(2, 20, 5)],
        vec![sample_delegator(1, 3, 30, 7)],
    );
    let bytes = config.to_bytes();
    assert_eq!(bytes.len(), config.serialized_length());
    // Two accounts: the encoding opens with their fixed-width count.
    assert_eq!(&bytes[..4], &[2, 0, 0, 0]);
    let (decoded, remainder) = AccountsConfig::from_bytes(&bytes).unwrap();
    assert_eq!(decoded, config);
    assert!(remainder.is_empty());
}

#[test]
fn empty_config_round_trip() {
    let config = AccountsConfig::new(vec![], vec![]);
    let bytes = config.to_bytes();
    assert_eq!(bytes, vec![0, 0, 0, 0, 0, 0, 0, 0]);
    assert_eq!(bytes.len(), config.serialized_length());
    let (decoded, remainder) = AccountsConfig::from_bytes(&bytes).unwrap();
    assert_eq!(decoded, config);
    assert!(remainder.is_empty());
}

#[test]
fn validator_flag_follows_bonded_amount() {
    let not_bonded = sample_account(1, 100, 0);
    assert!(!not_bonded.is_genesis_validator());
    let bonded = sample_account(1, 0, 1);
    assert!(bonded.is_genesis_validator());
    let heavily_bonded = sample_account(1, 0, u64::MAX);
    assert!(heavily_bonded.is_genesis_validator());
}

#[test]
fn truncated_account_encodings_fail_to_decode() {
    let account = sample_account(4, 123_456, 789);
    let bytes = account.to_bytes();
    for n in 0..bytes.len() {
        assert_eq!(
            AccountConfig::from_bytes(&bytes[..n]),
            Err(DecodeError::EarlyEndOfStream),
        );
    }
}

#[test]
fn truncated_config_encodings_fail_to_decode() {
    let config = AccountsConfig::new(
        vec![sample_account(1, 10, 0)],
        vec![sample_delegator(2, 3, 4, 5)],
    );
    let bytes = config.to_bytes();
    for n in 0..bytes.len() {
        assert!(AccountsConfig::from_bytes(&bytes[..n]).is_err());
    }
}

#[test]
fn overlong_length_prefix_fails_to_decode() {
    // A count of five accounts with no account bytes behind it.
    let bytes = vec![5u8, 0, 0, 0];
    assert!(AccountsConfig::from_bytes(&bytes).is_err());
}

#[test]
fn absent_source_yields_empty_config() {
    let config = AccountsConfig::from_source(LoadSource::Absent).unwrap();
    assert!(config.accounts().is_empty());
    assert!(config.delegators().is_empty());
}

#[test]
fn unreadable_source_is_a_load_error() {
    assert_eq!(
        AccountsConfig::from_source(LoadSource::Unreadable),
        Err(LoadError::SourceUnreadable),
    );
}

#[test]
fn malformed_source_is_a_load_error() {
    assert_eq!(
        AccountsConfig::from_source(LoadSource::Malformed),
        Err(LoadError::SourceMalformed),
    );
}

#[test]
fn omitted_delegators_section_defaults_to_empty() {
    let accounts = vec![sample_account(1, 10, 0), sample_account(2, 20, 30)];
    let config = AccountsConfig::from_source(LoadSource::Parsed(accounts.clone(), None)).unwrap();
    assert_eq!(config.accounts(), &accounts);
    assert!(config.delegators().is_empty());
}

#[test]
fn parsed_source_keeps_delegators() {
    let accounts = vec![sample_account(1, 10, 0)];
    let delegators = vec![sample_delegator(1, 2, 3, 4)];
    let config = AccountsConfig::from_source(LoadSource::Parsed(
        accounts.clone(),
        Some(delegators.clone()),
    ))
    .unwrap();
    assert_eq!(config.accounts(), &accounts);
    assert_eq!(config.delegators(), &delegators);
}

#[test]
fn adapter_preserves_order_and_arity() {
    let a0 = sample_account(1, 10, 0);
    let a1 = sample_account(2, 20, 5);
    let a2 = sample_account(3, 30, 0);
    let config = AccountsConfig::new(
        vec![a0.clone(), a1.clone(), a2.clone()],
        vec![sample_delegator(1, 4, 9, 9)],
    );
    let records = genesis_records(&config);
    assert_eq!(records.len(), 3);
    for (record, account) in records.iter().zip([a0, a1, a2].iter()) {
        assert_eq!(record.public_key(), account.public_key());
        assert_eq!(record.balance(), account.balance());
        assert_eq!(record.bonded_amount(), account.bonded_amount());
        assert_eq!(record.account_hash().len(), 32);
        // The hash is a digest of the identity, not the identity itself.
        assert_ne!(record.account_hash(), account.public_key().to_bytes());
    }
}

#[test]
fn account_hash_depends_on_the_key_alone() {
    let config = AccountsConfig::new(
        vec![sample_account(1, 10, 0), sample_account(1, 99, 7), sample_account(2, 10, 0)],
        vec![],
    );
    let records = genesis_records(&config);
    // Same identity, same hash, whatever the amounts; a different identity
    // hashes differently.
    assert_eq!(records[0].account_hash(), records[1].account_hash());
    assert_ne!(records[0].account_hash(), records[2].account_hash());
}

#[test]
fn random_config_has_the_generated_shape() {
    let config = AccountsConfig::random();
    assert_eq!(config.accounts().len(), 4);
    assert_eq!(config.delegators().len(), 1);
    assert_eq!(
        config.delegators()[0].validator_public_key(),
        config.accounts()[0].public_key(),
    );
}
