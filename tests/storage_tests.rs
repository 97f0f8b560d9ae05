use soroban_debug::keys::compare_keys;
use soroban_debug::storage::{compute_diff, StorageChange, StorageSnapshot};
use std::cmp::Ordering;

fn snapshot(pairs: &[(&str, &str)]) -> StorageSnapshot {
    let mut s = StorageSnapshot::new();
    for (k, v) in pairs {
        s.insert(k.to_string(), v.to_string());
    }
    s
}

fn keys(d: &[StorageChange]) -> Vec<String> {
    d.iter().map(|c| c.key().clone()).collect()
}

#[test]
fn compare_keys_orders_lexicographically() {
    assert_eq!(compare_keys(&"a".to_string(), &"b".to_string()), Ordering::Less);
    assert_eq!(compare_keys(&"ab".to_string(), &"a".to_string()), Ordering::Greater);
    assert_eq!(compare_keys(&"".to_string(), &"a".to_string()), Ordering::Less);
    assert_eq!(compare_keys(&"same".to_string(), &"same".to_string()), Ordering::Equal);
    assert_eq!(compare_keys(&"Z".to_string(), &"a".to_string()), Ordering::Less);
}

#[test]
fn snapshot_keeps_entries_sorted_and_unique() {
    let s = snapshot(&[("zeta", "1"), ("alpha", "2"), ("mid", "3"), ("alpha", "4")]);
    let entries: Vec<(String, String)> = s.entries().clone();
    assert_eq!(
        entries,
        vec![
            ("alpha".to_string(), "4".to_string()),
            ("mid".to_string(), "3".to_string()),
            ("zeta".to_string(), "1".to_string()),
        ]
    );
    assert_eq!(s.get(&"mid".to_string()), Some(&"3".to_string()));
    assert_eq!(s.get(&"none".to_string()), None);
    assert!(!s.is_empty());
    assert!(StorageSnapshot::new().is_empty());
}

#[test]
fn diff_of_snapshot_with_itself_is_empty() {
    let a = snapshot(&[("balance", "50"), ("owner", "alice")]);
    let b = snapshot(&[("owner", "alice"), ("balance", "50")]);
    assert!(compute_diff(&a, &a).is_empty());
    assert!(compute_diff(&a, &b).is_empty());
    assert!(compute_diff(&StorageSnapshot::new(), &StorageSnapshot::new()).is_empty());
}

#[test]
fn diff_classifies_each_changed_key() {
    let before = snapshot(&[("a", "1"), ("b", "2"), ("c", "3")]);
    let after = snapshot(&[("b", "2"), ("c", "30"), ("d", "4")]);
    let d = compute_diff(&before, &after);
    assert_eq!(d.len(), 3);
    assert!(matches!(&d[0], StorageChange::Removed { key, old_value } if key == "a" && old_value == "1"));
    assert!(matches!(&d[1], StorageChange::Modified { key, old_value, new_value }
        if key == "c" && old_value == "3" && new_value == "30"));
    assert!(matches!(&d[2], StorageChange::Added { key, new_value } if key == "d" && new_value == "4"));
}

#[test]
fn diff_from_and_to_empty() {
    let s = snapshot(&[("k1", "v1"), ("k2", "v2")]);
    let added = compute_diff(&StorageSnapshot::new(), &s);
    assert_eq!(keys(&added), vec!["k1".to_string(), "k2".to_string()]);
    assert!(added.iter().all(|c| matches!(c, StorageChange::Added { .. })));
    let removed = compute_diff(&s, &StorageSnapshot::new());
    assert_eq!(keys(&removed), vec!["k1".to_string(), "k2".to_string()]);
    assert!(removed.iter().all(|c| matches!(c, StorageChange::Removed { .. })));
}

#[test]
fn diff_key_set_is_the_same_both_ways() {
    let a = snapshot(&[("x", "1"), ("y", "2"), ("w", "0")]);
    let b = snapshot(&[("y", "3"), ("z", "4"), ("w", "0")]);
    let ab = compute_diff(&a, &b);
    let ba = compute_diff(&b, &a);
    assert_eq!(keys(&ab), keys(&ba));
    assert_eq!(keys(&ab), vec!["x".to_string(), "y".to_string(), "z".to_string()]);
    assert!(matches!(ab[0], StorageChange::Removed { .. }));
    assert!(matches!(ba[0], StorageChange::Added { .. }));
    assert!(matches!(ab[1], StorageChange::Modified { .. }));
    assert!(matches!(ba[1], StorageChange::Modified { .. }));
    assert!(matches!(ab[2], StorageChange::Added { .. }));
    assert!(matches!(ba[2], StorageChange::Removed { .. }));
}
