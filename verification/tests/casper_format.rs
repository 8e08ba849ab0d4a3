//! Cross-checks the node decoder against the real key and value encoders.

use casper_types::account::AccountHash;
use casper_types::bytesrepr::ToBytes;
use casper_types::{CLValue, EraId, Key, StoredValue};
use trie_audit::decode::{decode_node, TrieNode};
use trie_audit::tags::{KeyTag, ValueTag};

/// A leaf record holding a real serialized key and stored value.
fn leaf_record(key: &Key, value: &StoredValue) -> Vec<u8> {
    let mut v = vec![0u8];
    v.extend(key.to_bytes().unwrap());
    v.extend(value.to_bytes().unwrap());
    v
}

#[test]
fn decoder_agrees_with_real_account_key_encoding() {
    let key = Key::Account(AccountHash::new([7u8; 32]));
    let value = StoredValue::CLValue(CLValue::from_t(3u8).unwrap());
    let record = leaf_record(&key, &value);
    match decode_node(&record) {
        Some(TrieNode::Leaf { key_tag, key_bytes, value_tag }) => {
            assert_eq!(key_tag, KeyTag::Account);
            assert_eq!(value_tag, ValueTag::CLValue);
            assert_eq!(key_bytes, key.to_bytes().unwrap());
        },
        _ => panic!("expected a leaf"),
    }
}

#[test]
fn decoder_agrees_with_real_era_info_key_encoding() {
    let key = Key::EraInfo(EraId::new(42));
    let value = StoredValue::CLValue(CLValue::from_t(()).unwrap());
    let record = leaf_record(&key, &value);
    match decode_node(&record) {
        Some(TrieNode::Leaf { key_tag, key_bytes, value_tag }) => {
            assert_eq!(key_tag, KeyTag::EraInfo);
            assert_eq!(value_tag, ValueTag::CLValue);
            assert_eq!(key_bytes, key.to_bytes().unwrap());
        },
        _ => panic!("expected a leaf"),
    }
}

#[test]
fn decoder_agrees_with_real_hash_key_encoding() {
    let key = Key::Hash([9u8; 32]);
    let value = StoredValue::CLValue(CLValue::from_t(1u64).unwrap());
    let record = leaf_record(&key, &value);
    match decode_node(&record) {
        Some(TrieNode::Leaf { key_tag, key_bytes, value_tag }) => {
            assert_eq!(key_tag, KeyTag::Hash);
            assert_eq!(value_tag, ValueTag::CLValue);
            assert_eq!(key_bytes, key.to_bytes().unwrap());
        },
        _ => panic!("expected a leaf"),
    }
}

#[test]
fn decoder_agrees_with_real_uref_key_encoding() {
    let key = Key::URef(casper_types::URef::new(
        [4u8; 32],
        casper_types::AccessRights::READ_ADD_WRITE,
    ));
    let value = StoredValue::CLValue(CLValue::from_t(String::from("x")).unwrap());
    let record = leaf_record(&key, &value);
    match decode_node(&record) {
        Some(TrieNode::Leaf { key_tag, key_bytes, value_tag }) => {
            assert_eq!(key_tag, KeyTag::URef);
            assert_eq!(value_tag, ValueTag::CLValue);
            assert_eq!(key_bytes, key.to_bytes().unwrap());
        },
        _ => panic!("expected a leaf"),
    }
}
