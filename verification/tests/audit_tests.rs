use trie_audit::audit::{run_audit, AuditOutcome};
use trie_audit::digest::Digest;
use trie_audit::error::TrieError;
use trie_audit::report::render_report;
use trie_audit::stats::Stats;
use trie_audit::store::Store;
use trie_audit::tags::{KeyTag, ValueTag};
use trie_audit::walk::{Action, DeleteOutcome, TrieWalk};

fn digest(b: u8) -> Digest {
    Digest::new(vec![b; 32]).unwrap()
}

/// A leaf record: node tag, key tag + payload, value tag, padded body.
fn leaf_record(key_tag: u8, payload_len: usize, value_tag: u8, total_len: usize) -> Vec<u8> {
    let mut v = vec![0u8];
    v.push(key_tag);
    v.extend(std::iter::repeat(0xabu8).take(payload_len));
    v.push(value_tag);
    assert!(v.len() <= total_len);
    while v.len() < total_len {
        v.push(0xcd);
    }
    v
}

/// A branch record with the given children, everything else empty.
fn branch_record(children: &[(u8, &Digest)]) -> Vec<u8> {
    let mut v = vec![1u8];
    let mut next = 0usize;
    for i in 0..256usize {
        if next < children.len() && children[next].0 as usize == i {
            v.push(1);
            v.push(1); // node pointer
            v.extend_from_slice(children[next].1.as_bytes());
            next += 1;
        } else {
            v.push(0);
        }
    }
    v
}

/// An extension record pointing at one child through the given affix.
fn extension_record(affix: &[u8], child: &Digest) -> Vec<u8> {
    let mut v = vec![2u8];
    v.extend_from_slice(&(affix.len() as u32).to_le_bytes());
    v.extend_from_slice(affix);
    v.push(0); // leaf pointer
    v.extend_from_slice(child.as_bytes());
    v
}

fn finished(outcome: AuditOutcome) -> Stats {
    match outcome {
        AuditOutcome::Finished(stats) => stats,
        AuditOutcome::Failed(_) => panic!("run failed"),
        AuditOutcome::OutOfSteps => panic!("budget ran out"),
    }
}

#[test]
fn empty_trie_reports_nothing() {
    let root = digest(1);
    let mut store = Store::new();
    store.insert(root.dup(), branch_record(&[]));
    let stats = finished(run_audit(&store, &root, false, 1000));
    assert_eq!(stats.total_count(), 0);
    assert_eq!(
        render_report(&stats, 0),
        "key_tag, count\n\
         stored_value_tag, count\n\
         key_tag, stored_value_tag, average_len, max_len, total_len\n\
         deleted 0 entries.\n"
    );
}

#[test]
fn single_account_clvalue_leaf() {
    let root = digest(2);
    let mut store = Store::new();
    store.insert(root.dup(), leaf_record(0, 32, 0, 120));
    let stats = finished(run_audit(&store, &root, false, 1000));
    assert_eq!(stats.total_count(), 1);
    assert_eq!(stats.key_count(KeyTag::Account), 1);
    assert_eq!(stats.value_count(ValueTag::CLValue), 1);
    assert_eq!(
        render_report(&stats, 0),
        "key_tag, count\n\
         \"Account\", 1\n\
         stored_value_tag, count\n\
         \"CLValue\", 1\n\
         key_tag, stored_value_tag, average_len, max_len, total_len\n\
         \"Account\", \"CLValue\", 120, 120, 120\n\
         deleted 0 entries.\n"
    );
}

#[test]
fn undecodable_record_aborts_with_decode_error() {
    let root = digest(3);
    let mut store = Store::new();
    store.insert(root.dup(), vec![9, 9, 9]);
    match run_audit(&store, &root, false, 1000) {
        AuditOutcome::Failed(TrieError::Decode { digest: d, byte_len }) => {
            assert_eq!(d.as_bytes(), root.as_bytes());
            assert_eq!(byte_len, 3);
        },
        _ => panic!("expected a decode failure"),
    }
}

#[test]
fn missing_record_aborts_with_store_integrity_error() {
    let root = digest(4);
    let store = Store::new();
    match run_audit(&store, &root, false, 1000) {
        AuditOutcome::Failed(TrieError::StoreIntegrity { digest: d }) => {
            assert_eq!(d.as_bytes(), root.as_bytes());
        },
        _ => panic!("expected a store integrity failure"),
    }
}

#[test]
fn zero_budget_runs_out_of_steps() {
    let root = digest(5);
    let mut store = Store::new();
    store.insert(root.dup(), branch_record(&[]));
    match run_audit(&store, &root, false, 0) {
        AuditOutcome::OutOfSteps => {},
        _ => panic!("expected the budget to run out"),
    }
}

#[test]
fn branch_leaves_are_recorded_in_pop_order() {
    let root = digest(6);
    let low = digest(7);
    let high = digest(8);
    let mut store = Store::new();
    store.insert(root.dup(), branch_record(&[(3, &low), (7, &high)]));
    store.insert(low.dup(), leaf_record(0, 32, 0, 100));
    store.insert(high.dup(), leaf_record(0, 32, 0, 141));
    let stats = finished(run_audit(&store, &root, false, 1000));
    assert_eq!(stats.total_count(), 2);
    // Children are pushed in ascending index order onto a LIFO stack, so
    // the higher index is visited first.
    assert_eq!(
        stats.cell_lengths(KeyTag::Account, ValueTag::CLValue),
        &vec![141u64, 100u64]
    );
    let report = render_report(&stats, 0);
    assert!(report.contains("\"Account\", 2\n"));
    assert!(report.contains("\"Account\", \"CLValue\", 120, 141, 241\n"));
}

#[test]
fn extension_forwards_to_its_child() {
    let root = digest(9);
    let child = digest(10);
    let mut store = Store::new();
    store.insert(root.dup(), extension_record(&[0x0a, 0x0b], &child));
    store.insert(child.dup(), leaf_record(5, 8, 7, 50));
    let stats = finished(run_audit(&store, &root, false, 1000));
    assert_eq!(stats.key_count(KeyTag::EraInfo), 1);
    assert_eq!(stats.value_count(ValueTag::EraInfo), 1);
}

#[test]
fn two_runs_produce_identical_reports() {
    let root = digest(11);
    let leaf = digest(12);
    let mut store = Store::new();
    store.insert(root.dup(), branch_record(&[(0, &leaf), (255, &leaf)]));
    store.insert(leaf.dup(), leaf_record(6, 32, 1, 77));
    let first = finished(run_audit(&store, &root, false, 1000));
    let second = finished(run_audit(&store, &root, false, 2000));
    assert_eq!(render_report(&first, 0), render_report(&second, 0));
    assert_eq!(first.total_count(), 2);
}

#[test]
fn shared_subtree_is_counted_once_per_incoming_edge() {
    let root = digest(13);
    let shared = digest(14);
    let mut store = Store::new();
    store.insert(root.dup(), branch_record(&[(1, &shared), (2, &shared)]));
    store.insert(shared.dup(), leaf_record(1, 32, 3, 64));
    let stats = finished(run_audit(&store, &root, false, 1000));
    assert_eq!(stats.key_count(KeyTag::Hash), 2);
    assert_eq!(stats.value_count(ValueTag::Contract), 2);
}

#[test]
fn dedup_visits_a_shared_subtree_once() {
    let root = digest(15);
    let shared = digest(16);
    let other = digest(17);
    let mut store = Store::new();
    store.insert(
        root.dup(),
        branch_record(&[(1, &shared), (2, &shared), (3, &other)]),
    );
    store.insert(shared.dup(), leaf_record(1, 32, 3, 64));
    store.insert(other.dup(), leaf_record(0, 32, 0, 80));
    let stats = finished(run_audit(&store, &root, true, 1000));
    assert_eq!(stats.key_count(KeyTag::Hash), 1);
    assert_eq!(stats.key_count(KeyTag::Account), 1);
    assert_eq!(stats.total_count(), 2);
}

/// An era-info leaf: key tag 5 with an eight-byte payload.
fn era_info_record(total_len: usize) -> Vec<u8> {
    leaf_record(5, 8, 7, total_len)
}

#[test]
fn pruning_chains_deletions_through_produced_roots() {
    let root0 = digest(20);
    let leaf_a = digest(21);
    let leaf_b = digest(22);
    let root1 = digest(31);
    let root2 = digest(32);
    let mut store = Store::new();
    store.insert(root0.dup(), branch_record(&[(3, &leaf_a), (7, &leaf_b)]));
    store.insert(leaf_a.dup(), era_info_record(40));
    store.insert(leaf_b.dup(), era_info_record(41));

    let mut walk = TrieWalk::new(root0.dup(), true, false);
    let mut fetched: Vec<Vec<u8>> = Vec::new();
    let mut delete_roots: Vec<Vec<u8>> = Vec::new();
    let mut replacement_roots = vec![root2.dup(), root1.dup()];
    loop {
        match walk.next() {
            Action::Done => break,
            Action::Fetch(d) => {
                fetched.push(d.as_bytes().clone());
                let bytes = store.lookup(d.as_bytes());
                assert!(walk.supply_lookup(bytes).is_ok());
            },
            Action::Delete { current_root, key_bytes } => {
                delete_roots.push(current_root.as_bytes().clone());
                // The engine hands out the stored key: tag byte plus payload.
                assert_eq!(key_bytes.len(), 9);
                assert_eq!(key_bytes[0], 5);
                let new_root = replacement_roots.pop().unwrap();
                assert!(walk.supply_delete(DeleteOutcome::Deleted(new_root)).is_ok());
            },
        }
    }
    // Both deletions happened, each expressed against the latest root.
    assert_eq!(walk.deleted_count(), 2);
    assert_eq!(delete_roots.len(), 2);
    assert_eq!(delete_roots[0], root0.as_bytes().clone());
    assert_eq!(delete_roots[1], root1.as_bytes().clone());
    assert_eq!(walk.current_root().as_bytes(), root2.as_bytes());
    // The traversal itself visited root and both leaves.
    assert_eq!(fetched.len(), 3);
    let stats = walk.into_stats();
    assert_eq!(stats.key_count(KeyTag::EraInfo), 2);
}

#[test]
fn rejected_deletion_aborts_with_mutation_error() {
    let root = digest(23);
    let mut store = Store::new();
    store.insert(root.dup(), era_info_record(30));
    let mut walk = TrieWalk::new(root.dup(), true, false);
    match walk.next() {
        Action::Fetch(d) => {
            let bytes = store.lookup(d.as_bytes());
            assert!(walk.supply_lookup(bytes).is_ok());
        },
        _ => panic!("expected a fetch"),
    }
    match walk.next() {
        Action::Delete { .. } => match walk.supply_delete(DeleteOutcome::NotFound) {
            Err(TrieError::Mutation { key_bytes }) => {
                assert_eq!(key_bytes[0], 5);
                assert_eq!(key_bytes.len(), 9);
            },
            _ => panic!("expected a mutation error"),
        },
        _ => panic!("expected a delete request"),
    }
}

#[test]
fn audit_run_does_not_prune() {
    let root = digest(24);
    let mut store = Store::new();
    store.insert(root.dup(), era_info_record(30));
    let stats = finished(run_audit(&store, &root, false, 1000));
    assert_eq!(stats.key_count(KeyTag::EraInfo), 1);
}

#[test]
fn tag_count_sections_balance_with_total_visits() {
    let root = digest(40);
    let a = digest(41);
    let b = digest(42);
    let c = digest(43);
    let mut store = Store::new();
    store.insert(root.dup(), branch_record(&[(0, &a), (9, &b), (200, &c)]));
    store.insert(a.dup(), leaf_record(0, 32, 0, 50)); // Account / CLValue
    store.insert(b.dup(), leaf_record(6, 32, 0, 60)); // Balance / CLValue
    store.insert(c.dup(), leaf_record(0, 32, 1, 70)); // Account / Account
    let stats = finished(run_audit(&store, &root, false, 1000));
    // An independent count of the leaves reachable from the root.
    assert_eq!(stats.total_count(), 3);
    let key_sum = stats.key_count(KeyTag::Account) + stats.key_count(KeyTag::Balance);
    let value_sum =
        stats.value_count(ValueTag::CLValue) + stats.value_count(ValueTag::Account);
    assert_eq!(key_sum, stats.total_count());
    assert_eq!(value_sum, stats.total_count());
}

#[test]
fn group_statistics_satisfy_average_and_max_bounds() {
    let root = digest(44);
    let a = digest(45);
    let b = digest(46);
    let c = digest(47);
    let mut store = Store::new();
    store.insert(root.dup(), branch_record(&[(1, &a), (2, &b), (3, &c)]));
    store.insert(a.dup(), leaf_record(3, 32, 5, 37));
    store.insert(b.dup(), leaf_record(3, 32, 5, 52));
    store.insert(c.dup(), leaf_record(3, 32, 5, 101));
    let stats = finished(run_audit(&store, &root, false, 1000));
    let lens = stats.cell_lengths(KeyTag::Transfer, ValueTag::Transfer);
    let count = lens.len() as u128;
    let total: u128 = lens.iter().map(|l| *l as u128).sum();
    let max = *lens.iter().max().unwrap() as u128;
    let average = total / count;
    assert_eq!((count, total, max, average), (3, 190, 101, 63));
    assert!(average * count <= total);
    assert!(total <= average * count + count);
    assert!(max >= average);
    let report = render_report(&stats, 0);
    assert!(report.contains("\"Transfer\", \"Transfer\", 63, 101, 190\n"));
}

#[test]
fn later_store_insert_shadows_earlier_one() {
    let root = digest(48);
    let mut store = Store::new();
    store.insert(root.dup(), vec![9, 9, 9]);
    store.insert(root.dup(), leaf_record(0, 32, 0, 44));
    let stats = finished(run_audit(&store, &root, false, 1000));
    assert_eq!(stats.key_count(KeyTag::Account), 1);
}

#[test]
fn deleted_count_appears_in_summary_line() {
    let stats = Stats::new();
    let report = render_report(&stats, 7);
    assert!(report.ends_with("deleted 7 entries.\n"));
}
