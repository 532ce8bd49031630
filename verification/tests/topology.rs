use cake_core::cake::topology::{
    validate, BlockRange, ConfigError, DeviceKind, Node, Topology,
};

fn node(address: &str, first: u64, last: u64) -> Node {
    Node { address: address.to_string(), range: BlockRange { first, last }, device: DeviceKind::Cpu }
}

fn two_halves() -> Topology {
    Topology::new(vec![node("10.0.0.1:10128", 0, 3), node("10.0.0.2:10128", 4, 7)], 8).unwrap()
}

#[test]
fn valid_chain_is_accepted() {
    let nodes = vec![node("a", 0, 0), node("b", 1, 5), node("c", 6, 31)];
    assert_eq!(validate(&nodes, 32), Ok(()));
    let t = Topology::new(nodes, 32).unwrap();
    assert_eq!(t.len(), 3);
    assert_eq!(t.total_blocks(), 32);
}

#[test]
fn every_block_of_a_valid_chain_has_one_owner() {
    let t = Topology::new(vec![node("a", 0, 2), node("b", 3, 3), node("c", 4, 9)], 10).unwrap();
    for block in 0..10u64 {
        let owners: Vec<usize> = (0..t.len())
            .filter(|i| t.range_of(*i).unwrap().contains(block))
            .collect();
        assert_eq!(owners.len(), 1);
        assert_eq!(t.owner_of(block), Some(owners[0]));
    }
    assert_eq!(t.owner_of(10), None);
    assert_eq!(t.owner_of(u64::MAX), None);
}

#[test]
fn gap_is_rejected() {
    let nodes = vec![node("a", 0, 3), node("b", 5, 7)];
    assert_eq!(validate(&nodes, 8), Err(ConfigError::Gap { node: 1 }));
    assert_eq!(Topology::new(nodes, 8).err(), Some(ConfigError::Gap { node: 1 }));
}

#[test]
fn gap_at_the_start_is_rejected() {
    assert_eq!(validate(&vec![node("a", 1, 7)], 8), Err(ConfigError::Gap { node: 0 }));
}

#[test]
fn overlap_is_rejected() {
    let nodes = vec![node("a", 0, 4), node("b", 4, 7)];
    assert_eq!(validate(&nodes, 8), Err(ConfigError::Overlap { node: 1 }));
}

#[test]
fn out_of_range_is_rejected() {
    let nodes = vec![node("a", 0, 3), node("b", 4, 8)];
    assert_eq!(validate(&nodes, 8), Err(ConfigError::OutOfRange { node: 1 }));
}

#[test]
fn inverted_range_is_rejected() {
    let nodes = vec![node("a", 3, 0), node("b", 4, 7)];
    assert_eq!(validate(&nodes, 8), Err(ConfigError::InvertedRange { node: 0 }));
}

#[test]
fn incomplete_cover_is_rejected() {
    let nodes = vec![node("a", 0, 3), node("b", 4, 6)];
    assert_eq!(validate(&nodes, 8), Err(ConfigError::Incomplete { covered: 7 }));
    assert_eq!(validate(&Vec::new(), 8), Err(ConfigError::Incomplete { covered: 0 }));
}

#[test]
fn ranges_out_of_chain_order_are_rejected() {
    let nodes = vec![node("b", 4, 7), node("a", 0, 3)];
    assert_eq!(validate(&nodes, 8), Err(ConfigError::Gap { node: 0 }));
}

#[test]
fn first_fault_wins() {
    let nodes = vec![node("a", 0, 3), node("b", 5, 9), node("c", 2, 1)];
    assert_eq!(validate(&nodes, 8), Err(ConfigError::OutOfRange { node: 1 }));
}

#[test]
fn no_nodes_over_no_blocks_is_a_chain() {
    let t = Topology::new(Vec::new(), 0).unwrap();
    assert_eq!(t.len(), 0);
    assert_eq!(t.owner_of(0), None);
    assert_eq!(t.next_hop(0), None);
    assert!(!t.is_last(0));
    assert_eq!(t.digest(), 0xaf63bd4c8601b7df);
}

#[test]
fn range_reaching_the_largest_block_index() {
    let nodes = vec![node("a", 0, u64::MAX)];
    assert_eq!(validate(&nodes, u64::MAX), Err(ConfigError::OutOfRange { node: 0 }));
    let nodes = vec![node("a", 0, u64::MAX - 1)];
    assert_eq!(validate(&nodes, u64::MAX), Ok(()));
}

#[test]
fn lookups_follow_chain_order() {
    let t = two_halves();
    assert_eq!(t.chain(), vec!["10.0.0.1:10128".to_string(), "10.0.0.2:10128".to_string()]);
    assert_eq!(t.range_of(0), Some(BlockRange { first: 0, last: 3 }));
    assert_eq!(t.range_of(1), Some(BlockRange { first: 4, last: 7 }));
    assert_eq!(t.range_of(2), None);
    assert_eq!(t.address_of(1), Some("10.0.0.2:10128".to_string()));
    assert_eq!(t.address_of(2), None);
    assert_eq!(t.node(0).unwrap().address, "10.0.0.1:10128");
    assert!(t.node(2).is_none());
    assert_eq!(t.next_hop(0), Some(1));
    assert_eq!(t.next_hop(1), None);
    assert_eq!(t.next_hop(usize::MAX), None);
    assert!(!t.is_last(0));
    assert!(t.is_last(1));
    assert!(!t.is_last(usize::MAX));
    assert_eq!(t.position_of("10.0.0.2:10128"), Some(1));
    assert_eq!(t.position_of("10.0.0.3:10128"), None);
}

#[test]
fn position_of_gives_the_first_of_equal_addresses() {
    let t = Topology::new(vec![node("a", 0, 1), node("b", 2, 3), node("b", 4, 5)], 6).unwrap();
    assert_eq!(t.position_of("b"), Some(1));
}

#[test]
fn digest_has_the_stated_value() {
    assert_eq!(two_halves().digest(), 0x52ea7f2d149acccf);
    assert_eq!(Topology::new(vec![node("a", 0, 7)], 8).unwrap().digest(), 0x1e98e718934f1ff6);
}

#[test]
fn digest_depends_on_the_ranges_alone() {
    let a = two_halves();
    let b = Topology::new(vec![node("x", 0, 3), node("y", 4, 7)], 8).unwrap();
    let c = Topology::new(vec![node("x", 0, 4), node("y", 5, 7)], 8).unwrap();
    assert_eq!(a.digest(), b.digest());
    assert_ne!(a.digest(), c.digest());
    assert_eq!(c.digest(), 0x2797b22cfc0ff04f);
}

#[test]
fn block_range_counts_and_contains() {
    let r = BlockRange { first: 4, last: 7 };
    assert!(r.contains(4) && r.contains(7));
    assert!(!r.contains(3) && !r.contains(8));
    assert!(r.has_count(4));
    assert!(!r.has_count(3));
    let none = BlockRange { first: 1, last: 0 };
    assert!(none.has_count(0));
    assert!(!none.has_count(1));
    assert!(!none.contains(0) && !none.contains(1));
    let one = BlockRange { first: 9, last: 9 };
    assert!(one.has_count(1));
    assert!(!one.has_count(0));
}

#[test]
fn node_clone_is_equal() {
    let n = node("a", 0, 3);
    assert_eq!(n.clone(), n);
}
