use trie_audit::decode::{decode_node, TrieNode};
use trie_audit::digest::Digest;
use trie_audit::report::report_filename;
use trie_audit::tags::{KeyTag, ValueTag};

fn digest(b: u8) -> Digest {
    Digest::new(vec![b; 32]).unwrap()
}

#[test]
fn empty_buffer_does_not_decode() {
    assert!(decode_node(&vec![]).is_none());
}

#[test]
fn unknown_node_tag_does_not_decode() {
    assert!(decode_node(&vec![3, 0, 0]).is_none());
}

#[test]
fn leaf_decodes_with_key_and_value_tags() {
    // Node tag, key tag 2 (URef) with its 33-byte payload, value tag 4.
    let mut v = vec![0u8, 2];
    v.extend(std::iter::repeat(0x11u8).take(33));
    v.push(4);
    v.extend_from_slice(&[0xff; 10]); // value body, not validated
    match decode_node(&v) {
        Some(TrieNode::Leaf { key_tag, key_bytes, value_tag }) => {
            assert_eq!(key_tag, KeyTag::URef);
            assert_eq!(value_tag, ValueTag::ContractPackage);
            assert_eq!(key_bytes.len(), 34);
            assert_eq!(key_bytes[0], 2);
        },
        _ => panic!("expected a leaf"),
    }
}

#[test]
fn leaf_with_unknown_key_tag_does_not_decode() {
    let mut v = vec![0u8, 15];
    v.extend(std::iter::repeat(0u8).take(40));
    assert!(decode_node(&v).is_none());
}

#[test]
fn leaf_with_unknown_value_tag_does_not_decode() {
    let mut v = vec![0u8, 0];
    v.extend(std::iter::repeat(0u8).take(32));
    v.push(11);
    assert!(decode_node(&v).is_none());
}

#[test]
fn truncated_leaf_key_does_not_decode() {
    // EraInfo key wants eight payload bytes plus a value tag.
    let v = vec![0u8, 5, 1, 2, 3];
    assert!(decode_node(&v).is_none());
}

#[test]
fn leaf_without_value_tag_does_not_decode() {
    let mut v = vec![0u8, 5];
    v.extend_from_slice(&[0; 8]);
    assert!(decode_node(&v).is_none());
}

#[test]
fn extension_decodes_affix_and_child() {
    let child = digest(42);
    let mut v = vec![2u8];
    v.extend_from_slice(&3u32.to_le_bytes());
    v.extend_from_slice(&[7, 8, 9]);
    v.push(1);
    v.extend_from_slice(child.as_bytes());
    match decode_node(&v) {
        Some(TrieNode::Extension { affix, child: c }) => {
            assert_eq!(affix, vec![7, 8, 9]);
            assert_eq!(c.as_bytes(), child.as_bytes());
        },
        _ => panic!("expected an extension"),
    }
}

#[test]
fn extension_with_bad_pointer_tag_does_not_decode() {
    let child = digest(42);
    let mut v = vec![2u8];
    v.extend_from_slice(&0u32.to_le_bytes());
    v.push(2); // neither leaf nor node pointer
    v.extend_from_slice(child.as_bytes());
    assert!(decode_node(&v).is_none());
}

#[test]
fn extension_trailing_bytes_are_ignored() {
    let child = digest(42);
    let mut v = vec![2u8];
    v.extend_from_slice(&0u32.to_le_bytes());
    v.push(0);
    v.extend_from_slice(child.as_bytes());
    v.extend_from_slice(&[0xee; 5]);
    assert!(decode_node(&v).is_some());
}

#[test]
fn branch_children_come_in_ascending_index_order() {
    let a = digest(1);
    let b = digest(2);
    let mut v = vec![1u8];
    for i in 0..256usize {
        if i == 5 {
            v.push(1);
            v.push(0);
            v.extend_from_slice(a.as_bytes());
        } else if i == 200 {
            v.push(1);
            v.push(1);
            v.extend_from_slice(b.as_bytes());
        } else {
            v.push(0);
        }
    }
    match decode_node(&v) {
        Some(TrieNode::Branch { children }) => {
            assert_eq!(children.len(), 2);
            assert_eq!(children[0].index, 5);
            assert_eq!(children[0].digest.as_bytes(), a.as_bytes());
            assert_eq!(children[1].index, 200);
            assert_eq!(children[1].digest.as_bytes(), b.as_bytes());
        },
        _ => panic!("expected a branch"),
    }
}

#[test]
fn branch_with_missing_slots_does_not_decode() {
    let v = vec![1u8, 0, 0, 0]; // far fewer than 256 slots
    assert!(decode_node(&v).is_none());
}

#[test]
fn digest_hex_round_trip() {
    let mut bytes = Vec::new();
    for i in 0..32u8 {
        bytes.push(i * 8 + 1);
    }
    let d = Digest::new(bytes).unwrap();
    let hex = d.to_hex();
    assert_eq!(hex.len(), 64);
    let back = Digest::from_hex(&hex.clone().into_bytes()).unwrap();
    assert_eq!(back.as_bytes(), d.as_bytes());
}

#[test]
fn digest_from_hex_accepts_upper_case() {
    let h: Vec<u8> = std::iter::repeat(b"AB".to_vec())
        .take(32)
        .flatten()
        .collect();
    let d = Digest::from_hex(&h).unwrap();
    assert_eq!(d.as_bytes(), &vec![0xabu8; 32]);
}

#[test]
fn digest_from_hex_rejects_bad_input() {
    assert!(Digest::from_hex(&vec![b'a'; 63]).is_none());
    let mut h = vec![b'a'; 64];
    h[10] = b'g';
    assert!(Digest::from_hex(&h).is_none());
}

#[test]
fn digest_rejects_wrong_length() {
    assert!(Digest::new(vec![0; 31]).is_none());
    assert!(Digest::new(vec![0; 33]).is_none());
    assert!(Digest::new(vec![0; 32]).is_some());
}

#[test]
fn report_file_is_named_from_the_root_hex() {
    let d = Digest::new(vec![0xff; 32]).unwrap();
    let name = report_filename(&d);
    assert_eq!(
        name,
        format!("trie_report-{}.csv", "ff".repeat(32))
    );
}
