use bdk_compat::primitives::BlockHash;
use bdk_compat::testenv::env::{
    checkpoint_tip, BlockId, BlockInvalidation, CheckPoint, WaitAction, WaitEvent, WaitLoop,
};

fn hash(b: u8) -> BlockHash {
    BlockHash { bytes: [b; 32] }
}

#[test]
fn checkpoint_tip_numbers_blocks_from_genesis() {
    let cp = checkpoint_tip(vec![hash(0), hash(1), hash(2)]);
    assert_eq!(cp.height(), 2);
    assert_eq!(cp.hash().bytes, [2; 32]);
    assert_eq!(cp.blocks().len(), 3);
    assert_eq!(cp.blocks()[1].height, 1);
    let genesis_only = checkpoint_tip(vec![hash(7)]);
    assert_eq!(genesis_only.height(), 0);
}

#[test]
fn checkpoint_from_blocks_needs_increasing_heights() {
    let ok = CheckPoint::from_blocks(vec![
        BlockId { height: 0, hash: hash(0) },
        BlockId { height: 5, hash: hash(5) },
    ]);
    assert_eq!(ok.unwrap().height(), 5);
    assert!(matches!(CheckPoint::from_blocks(vec![]), Err(None)));
    let bad = CheckPoint::from_blocks(vec![
        BlockId { height: 0, hash: hash(0) },
        BlockId { height: 3, hash: hash(3) },
        BlockId { height: 3, hash: hash(4) },
    ]);
    match bad {
        Err(Some(cp)) => {
            assert_eq!(cp.height(), 3);
            assert_eq!(cp.hash().bytes, [3; 32]);
        }
        _ => panic!("must stop at the repeated height"),
    }
}

#[test]
fn invalidation_walks_back_count_blocks() {
    let mut walk = BlockInvalidation::new(2, hash(9));
    assert_eq!(walk.next.unwrap().bytes, [9; 32]);
    walk.invalidated(Some(hash(8)));
    assert_eq!(walk.next.unwrap().bytes, [8; 32]);
    walk.invalidated(Some(hash(7)));
    assert!(walk.next.is_none());
    assert_eq!(walk.done, 2);
    // It stops at a block without a parent.
    let mut walk = BlockInvalidation::new(5, hash(1));
    walk.invalidated(None);
    assert!(walk.next.is_none());
    assert!(BlockInvalidation::new(0, hash(1)).next.is_none());
}

#[test]
fn waiting_polls_until_seen_or_timed_out() {
    let w = WaitLoop { timeout_nanos: 6_000_000_000 };
    assert_eq!(w.next(WaitEvent::ClockRead { elapsed_nanos: 0 }), WaitAction::Poll);
    assert_eq!(w.next(WaitEvent::Polled { seen: false }), WaitAction::Sleep);
    assert_eq!(w.next(WaitEvent::Polled { seen: true }), WaitAction::Succeed);
    assert_eq!(w.next(WaitEvent::ClockRead { elapsed_nanos: 5_999_999_999 }), WaitAction::Poll);
    assert_eq!(w.next(WaitEvent::ClockRead { elapsed_nanos: 6_000_000_000 }), WaitAction::TimeOut);
}
