//! Numbers of the nodes.

use pg_ha::identity::{all_addrs, creates_store, members, node_id};

fn strings(v: &[&str]) -> Vec<String> {
    v.iter().map(|s| s.to_string()).collect()
}

#[test]
fn test_every_node_counts_alike() {
    let one = all_addrs("10.0.0.2:2380", &strings(&["10.0.0.1:2380", "10.0.0.10:2380"]));
    let two = all_addrs("10.0.0.10:2380", &strings(&["10.0.0.2:2380", "10.0.0.1:2380"]));
    assert_eq!(one, vec!["10.0.0.10:2380", "10.0.0.1:2380", "10.0.0.2:2380"]);
    assert_eq!(one, two);
    let mut expected = strings(&["10.0.0.2:2380", "10.0.0.1:2380", "10.0.0.10:2380"]);
    expected.sort();
    assert_eq!(one, expected);
}

#[test]
fn test_node_ids() {
    let addrs = strings(&["a", "b", "c"]);
    assert_eq!(node_id(&addrs, "a", None), 1);
    assert_eq!(node_id(&addrs, "c", None), 3);
    assert_eq!(node_id(&addrs, "z", None), 1);
    assert_eq!(node_id(&addrs, "c", Some(9)), 9);
}

#[test]
fn test_store_is_created_by_the_first_node() {
    let addrs = all_addrs("b", &strings(&["c", "a"]));
    assert_eq!(
        members(&addrs),
        vec![(1, "a".to_string()), (2, "b".to_string()), (3, "c".to_string())]
    );
    for (id, addr) in members(&addrs) {
        assert_eq!(node_id(&addrs, &addr, None), id);
    }
    assert!(creates_store(1));
    assert!(!creates_store(2));
}
