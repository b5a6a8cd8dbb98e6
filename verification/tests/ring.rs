use load_balancer::error::ThreadError;
use load_balancer::hashing::{hash_client_id, hash_worker_id};
use load_balancer::ring::HashRing;

fn ring_of_positions(entries: &[(u64, usize)]) -> HashRing {
    let mut ring = HashRing::new();
    for (position, node) in entries {
        ring.insert(*position, *node);
    }
    ring
}

#[test]
fn position_beyond_the_last_entry_wraps_to_the_first() {
    let ring = ring_of_positions(&[(10, 0), (50, 1), (90, 2)]);
    assert_eq!(ring.locate(95), Some(0));
    assert_eq!(ring.locate(91), Some(0));
    assert_eq!(ring.locate(u64::MAX), Some(0));
}

#[test]
fn wraparound_does_not_depend_on_insertion_order() {
    let ring = ring_of_positions(&[(90, 2), (10, 0), (50, 1)]);
    assert_eq!(ring.locate(95), Some(0));
    let ring = ring_of_positions(&[(50, 1), (90, 2), (10, 0)]);
    assert_eq!(ring.locate(95), Some(0));
}

#[test]
fn position_is_owned_by_the_first_entry_at_or_after_it() {
    let ring = ring_of_positions(&[(10, 0), (50, 1), (90, 2)]);
    assert_eq!(ring.locate(0), Some(0));
    assert_eq!(ring.locate(9), Some(0));
    assert_eq!(ring.locate(10), Some(0));
    assert_eq!(ring.locate(11), Some(1));
    assert_eq!(ring.locate(49), Some(1));
    assert_eq!(ring.locate(50), Some(1));
    assert_eq!(ring.locate(51), Some(2));
    assert_eq!(ring.locate(89), Some(2));
    assert_eq!(ring.locate(90), Some(2));
}

#[test]
fn empty_ring_owns_nothing() {
    let ring = HashRing::new();
    assert!(ring.is_empty());
    assert_eq!(ring.len(), 0);
    assert_eq!(ring.locate(0), None);
    assert_eq!(ring.locate(u64::MAX), None);
}

#[test]
fn single_entry_owns_every_position() {
    let ring = ring_of_positions(&[(1000, 7)]);
    assert!(!ring.is_empty());
    assert_eq!(ring.len(), 1);
    assert_eq!(ring.locate(0), Some(7));
    assert_eq!(ring.locate(1000), Some(7));
    assert_eq!(ring.locate(1001), Some(7));
    assert_eq!(ring.locate(u64::MAX), Some(7));
}

#[test]
fn entries_at_the_ends_of_the_key_space() {
    let ring = ring_of_positions(&[(0, 1), (u64::MAX, 2)]);
    assert_eq!(ring.locate(0), Some(1));
    assert_eq!(ring.locate(1), Some(2));
    assert_eq!(ring.locate(u64::MAX), Some(2));
}

#[test]
fn inserting_at_a_taken_position_replaces_the_node() {
    let mut ring = ring_of_positions(&[(10, 0), (50, 1)]);
    ring.insert(50, 9);
    assert_eq!(ring.len(), 2);
    assert_eq!(ring.locate(30), Some(9));
    assert_eq!(ring.locate(10), Some(0));
}

#[test]
fn adding_a_node_moves_only_the_positions_it_captures() {
    let before = ring_of_positions(&[(10, 0), (50, 1), (90, 2)]);
    let after = ring_of_positions(&[(10, 0), (50, 1), (90, 2), (70, 3)]);
    for position in 0..=120u64 {
        let old = before.locate(position).unwrap();
        let new = after.locate(position).unwrap();
        if 50 < position && position <= 70 {
            assert_eq!(old, 2);
            assert_eq!(new, 3);
        } else {
            assert_eq!(old, new);
        }
    }
}

#[test]
fn removing_a_node_moves_only_the_positions_it_owned() {
    let before = ring_of_positions(&[(10, 0), (50, 1), (90, 2)]);
    let after = ring_of_positions(&[(10, 0), (90, 2)]);
    for position in 0..=120u64 {
        let old = before.locate(position).unwrap();
        let new = after.locate(position).unwrap();
        if old == 1 {
            assert_eq!(new, 2);
        } else {
            assert_eq!(old, new);
        }
    }
}

#[test]
fn build_refuses_an_empty_node_set() {
    match HashRing::build(&Vec::new()) {
        Err(ThreadError::InvalidSize(msg)) => {
            assert_eq!(msg, "Hash ring with no nodes cannot be initialized!")
        }
        _ => panic!("an empty node set must be refused"),
    }
}

#[test]
fn build_places_each_node_at_the_position_of_its_ordinal() {
    let ring = HashRing::build(&vec![0, 1, 2, 3]).ok().unwrap();
    assert_eq!(ring.len(), 4);
    assert_eq!(ring.locate(0x4e07408562bedb8b), Some(3));
    assert_eq!(ring.locate(0x4e07408562bedb8c), Some(0));
    assert_eq!(ring.locate(0x5feceb66ffc86f38), Some(0));
    assert_eq!(ring.locate(0x5feceb66ffc86f39), Some(1));
    assert_eq!(ring.locate(0x6b86b273ff34fce1), Some(1));
    assert_eq!(ring.locate(0x6b86b273ff34fce2), Some(2));
    assert_eq!(ring.locate(0xd4735e3a265e16ee), Some(2));
    assert_eq!(ring.locate(0xd4735e3a265e16ef), Some(3));
    for id in 0..4usize {
        assert_eq!(ring.locate(hash_worker_id(id)), Some(id));
    }
}

#[test]
fn build_then_route_returns_a_configured_node() {
    let ids: Vec<usize> = vec![4, 8, 15, 16, 23, 42];
    let ring = HashRing::build(&ids).ok().unwrap();
    for n in 0..300u32 {
        let key = format!("10.1.{}.{}:{}", n / 7, n % 13, 1024 + n);
        let node = ring.locate(hash_client_id(&key)).unwrap();
        assert!(ids.contains(&node));
    }
}

#[test]
fn route_is_repeatable() {
    let ring = HashRing::build(&vec![0, 1, 2]).ok().unwrap();
    for key in ["127.0.0.1:5000", "127.0.0.1:5001", "10.0.0.7:41000", ""] {
        let first = ring.locate(hash_client_id(key));
        for _ in 0..5 {
            assert_eq!(ring.locate(hash_client_id(key)), first);
        }
    }
}

#[test]
fn build_keeps_the_later_of_two_equal_nodes() {
    let ring = HashRing::build(&vec![1, 1, 1]).ok().unwrap();
    assert_eq!(ring.len(), 1);
    assert_eq!(ring.locate(0), Some(1));
}
