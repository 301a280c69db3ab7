use fork_monitor::error::ConfigError;
use fork_monitor::fork_detector::{Classification, ForkDetector, Observation, ReorgEvent};
use fork_monitor::header::{BlockHeader, Bytes32};

fn hash(tag: u8, height: u64) -> Bytes32 {
    let mut bytes = [tag; 32];
    bytes[0] = (height % 251) as u8;
    bytes[1] = (height / 251 % 251) as u8;
    Bytes32 { bytes }
}

/// The block of branch `tag` at `height`, whose parent is on branch `parent_tag`.
fn block(tag: u8, parent_tag: u8, height: u64) -> BlockHeader {
    BlockHeader {
        height,
        hash: hash(tag, height),
        parent_hash: hash(parent_tag, height.wrapping_sub(1)),
        timestamp: 1_700_000_000 + 13 * height,
        gas_used: 5_000_000,
        gas_limit: 8_000_000,
        tx_count: 3,
    }
}

fn canonical(capacity: u64, from: u64, to: u64) -> ForkDetector {
    let mut d = ForkDetector::new(capacity).unwrap();
    for h in from..=to {
        d.observe(block(1, 1, h));
    }
    d
}

fn heights(d: &ForkDetector, from: u64, to: u64) -> Vec<u64> {
    (from..=to).filter(|h| d.get(*h).is_some()).collect()
}

#[test]
fn zero_capacity_is_refused() {
    assert!(matches!(ForkDetector::new(0), Err(ConfigError::ZeroCapacity)));
    assert!(ForkDetector::new(1).is_ok());
}

#[test]
fn first_header_is_new_block() {
    let mut d = ForkDetector::new(100).unwrap();
    assert!(d.is_empty());
    assert_eq!(d.last_known_height(), None);
    assert_eq!(d.lowest_height(), None);
    assert_eq!(d.tip(), None);
    assert_eq!(d.observe(block(1, 1, 42)), Classification::NewBlock);
    assert_eq!(d.len(), 1);
    assert_eq!(d.capacity(), 100);
    assert_eq!(d.last_known_height(), Some(42));
    assert_eq!(d.lowest_height(), Some(42));
    assert_eq!(d.get(42), Some(block(1, 1, 42)));
    assert_eq!(d.tip(), Some(block(1, 1, 42)));
    assert_eq!(d.get(41), None);
}

#[test]
fn linked_chain_only_continues() {
    let mut d = ForkDetector::new(16).unwrap();
    assert_eq!(d.observe(block(1, 1, 1000)), Classification::NewBlock);
    for h in 1001..1100u64 {
        assert_eq!(d.observe(block(1, 1, h)), Classification::Continuation);
        assert_eq!(d.last_known_height(), Some(h));
    }
    assert_eq!(d.len(), 16);
}

#[test]
fn competing_header_at_height_8_is_a_reorg_of_depth_3() {
    let mut d = canonical(100, 0, 10);
    let competing = block(2, 1, 8);
    let seen = d.observe_branch(competing, &Vec::new());
    assert_eq!(
        seen,
        Observation {
            classification: Classification::Reorg { depth: 3, unresolved: false },
            reorg: Some(ReorgEvent {
                divergence_height: 8,
                old_hash: hash(1, 10),
                new_hash: hash(2, 8),
                depth: 3,
                unresolved: false,
            }),
        }
    );
    assert_eq!(d.last_known_height(), Some(8));
    assert_eq!(d.get(8), Some(competing));
    assert_eq!(d.get(9), None);
    assert_eq!(d.get(10), None);
    for h in 0..=7u64 {
        assert_eq!(d.get(h), Some(block(1, 1, h)));
    }
    // the new branch grows from there
    assert_eq!(d.observe(block(2, 2, 9)), Classification::Continuation);
    assert_eq!(d.get(9), Some(block(2, 2, 9)));
}

#[test]
fn observe_gives_the_same_reorg_classification() {
    let mut d = canonical(100, 0, 10);
    assert_eq!(
        d.observe(block(2, 1, 8)),
        Classification::Reorg { depth: 3, unresolved: false }
    );
}

#[test]
fn duplicate_leaves_the_window_unchanged() {
    let mut d = canonical(100, 0, 10);
    let before: Vec<Option<BlockHeader>> = (0..=11u64).map(|h| d.get(h)).collect();
    assert_eq!(d.observe(block(1, 1, 6)), Classification::Duplicate);
    assert_eq!(d.observe(block(1, 1, 10)), Classification::Duplicate);
    let after: Vec<Option<BlockHeader>> = (0..=11u64).map(|h| d.get(h)).collect();
    assert_eq!(before, after);
    assert_eq!(d.len(), 11);
    assert_eq!(d.last_known_height(), Some(10));
}

#[test]
fn duplicate_goes_by_height_and_hash() {
    let mut d = canonical(100, 0, 10);
    let mut same_hash = block(1, 1, 6);
    same_hash.timestamp = 1;
    same_hash.tx_count = 99;
    assert_eq!(d.observe(same_hash), Classification::Duplicate);
    assert_eq!(d.get(6), Some(block(1, 1, 6)));
}

#[test]
fn reobserving_after_a_reorg_is_a_duplicate() {
    let mut d = canonical(100, 0, 10);
    d.observe(block(2, 1, 8));
    assert_eq!(d.observe(block(2, 1, 8)), Classification::Duplicate);
    assert_eq!(d.last_known_height(), Some(8));
}

#[test]
fn missed_heights_are_a_gap() {
    let mut d = canonical(100, 0, 10);
    let seen = d.observe_branch(block(1, 1, 15), &Vec::new());
    assert_eq!(seen.classification, Classification::Gap { missing: 4 });
    assert_eq!(seen.reorg, None);
    assert_eq!(d.last_known_height(), Some(15));
    assert_eq!(heights(&d, 0, 20), vec![0, 1, 2, 3, 4, 5, 6, 7, 8, 9, 10, 15]);
}

#[test]
fn gap_evicts_what_falls_out_of_range() {
    let mut d = canonical(5, 0, 4);
    assert_eq!(d.observe(block(1, 1, 7)), Classification::Gap { missing: 2 });
    assert_eq!(heights(&d, 0, 10), vec![3, 4, 7]);
    assert_eq!(d.observe(block(1, 1, 1000)), Classification::Gap { missing: 992 });
    assert_eq!(heights(&d, 0, 10), Vec::<u64>::new());
    assert_eq!(d.len(), 1);
    assert_eq!(d.lowest_height(), Some(1000));
}

#[test]
fn window_evicts_the_lowest_height() {
    let k = 5u64;
    let mut d = canonical(k, 100, 100 + k);
    assert_eq!(d.len(), 5);
    assert_eq!(d.get(100), None);
    assert_eq!(d.lowest_height(), Some(101));
    assert_eq!(heights(&d, 90, 110), vec![101, 102, 103, 104, 105]);
}

#[test]
fn divergence_at_an_evicted_height_is_unresolved() {
    let k = 5u64;
    let mut d = canonical(k, 100, 100 + k);
    // the branch builds on the block at height 100, which was evicted
    let seen = d.observe_branch(block(2, 1, 101), &Vec::new());
    assert_eq!(
        seen,
        Observation {
            classification: Classification::Reorg { depth: 5, unresolved: true },
            reorg: Some(ReorgEvent {
                divergence_height: 101,
                old_hash: hash(1, 105),
                new_hash: hash(2, 101),
                depth: 5,
                unresolved: true,
            }),
        }
    );
    assert_eq!(d.len(), 1);
    assert_eq!(d.get(101), Some(block(2, 1, 101)));
    assert_eq!(d.last_known_height(), Some(101));
}

#[test]
fn tip_replaced_without_ancestors_is_unresolved() {
    let mut d = canonical(100, 0, 10);
    // height 11 on a branch whose block 10 is not the stored one
    assert_eq!(
        d.observe(block(2, 2, 11)),
        Classification::Reorg { depth: 11, unresolved: true }
    );
    assert_eq!(d.len(), 1);
    assert_eq!(d.last_known_height(), Some(11));
}

#[test]
fn ancestors_resolve_a_deeper_reorg() {
    let mut d = canonical(100, 0, 10);
    // new branch: 8' on stored 7, then 9', 10', 11'
    let ancestors = vec![block(2, 2, 10), block(2, 2, 9), block(2, 1, 8)];
    let seen = d.observe_branch(block(2, 2, 11), &ancestors);
    assert_eq!(
        seen,
        Observation {
            classification: Classification::Reorg { depth: 3, unresolved: false },
            reorg: Some(ReorgEvent {
                divergence_height: 8,
                old_hash: hash(1, 10),
                new_hash: hash(2, 11),
                depth: 3,
                unresolved: false,
            }),
        }
    );
    assert_eq!(d.len(), 12);
    for h in 0..=7u64 {
        assert_eq!(d.get(h), Some(block(1, 1, h)));
    }
    assert_eq!(d.get(8), Some(block(2, 1, 8)));
    assert_eq!(d.get(9), Some(block(2, 2, 9)));
    assert_eq!(d.get(10), Some(block(2, 2, 10)));
    assert_eq!(d.get(11), Some(block(2, 2, 11)));
}

#[test]
fn unlinked_ancestors_are_ignored() {
    let mut d = canonical(100, 0, 10);
    // the second ancestor is not the parent of the first
    let ancestors = vec![block(2, 2, 10), block(3, 3, 9), block(2, 1, 8)];
    let seen = d.observe_branch(block(2, 2, 11), &ancestors);
    assert_eq!(seen.classification, Classification::Reorg { depth: 11, unresolved: true });
    assert_eq!(d.len(), 1);
}

#[test]
fn walk_is_bounded_by_the_capacity() {
    let mut d = canonical(3, 0, 10);
    assert_eq!(heights(&d, 0, 10), vec![8, 9, 10]);
    // agreement at height 8 needs two blocks of the branch: within reach
    let seen = d.observe_branch(block(2, 2, 10), &vec![block(2, 1, 9)]);
    assert_eq!(seen.classification, Classification::Reorg { depth: 2, unresolved: false });
    assert_eq!(heights(&d, 0, 12), vec![8, 9, 10]);

    let mut d = canonical(2, 0, 10);
    assert_eq!(heights(&d, 0, 10), vec![9, 10]);
    // agreement at 9 would take a walk of three blocks, one more than the capacity
    let ancestors = vec![block(2, 2, 11), block(2, 1, 10)];
    let seen = d.observe_branch(block(2, 2, 12), &ancestors);
    assert_eq!(seen.classification, Classification::Gap { missing: 1 });

    let mut d = canonical(2, 0, 10);
    let ancestors = vec![block(2, 1, 10)];
    let seen = d.observe_branch(block(2, 2, 11), &ancestors);
    assert_eq!(seen.classification, Classification::Reorg { depth: 1, unresolved: false });
    assert_eq!(heights(&d, 0, 12), vec![10, 11]);
}

#[test]
fn continuation_with_ancestors_supplied() {
    let mut d = canonical(100, 0, 10);
    let seen = d.observe_branch(block(1, 1, 11), &vec![block(1, 1, 10), block(1, 1, 9)]);
    assert_eq!(seen.classification, Classification::Continuation);
    assert_eq!(seen.reorg, None);
    assert_eq!(d.len(), 12);
}

#[test]
fn header_at_height_zero_replacing_genesis() {
    let mut d = canonical(100, 0, 3);
    assert_eq!(
        d.observe(block(2, 2, 0)),
        Classification::Reorg { depth: 4, unresolved: true }
    );
    assert_eq!(d.get(0), Some(block(2, 2, 0)));
    assert_eq!(d.len(), 1);
}

#[test]
fn hashes_compare_by_bytes() {
    let a = Bytes32::new([7; 32]);
    let mut other = [7u8; 32];
    assert!(a == Bytes32 { bytes: other });
    other[31] = 8;
    assert!(a != Bytes32 { bytes: other });
    assert!(block(1, 1, 4).links_to(&block(1, 1, 5)));
    assert!(!block(1, 1, 4).links_to(&block(2, 2, 5)));
    assert!(!block(1, 1, 4).links_to(&block(1, 1, 6)));
    assert!(block(1, 1, 4).has_valid_gas());
}
