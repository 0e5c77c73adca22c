//! The decisions of the test environment's loops. The caller performs each action on the node
//! or the Electrum server and hands back what happened.
use crate::primitives::BlockHash;
use vstd::prelude::*;

verus! {

/// A block's height and hash.
#[derive(Clone, Copy, Debug)]
pub struct BlockId {
    pub height: u32,
    pub hash: BlockHash,
}

/// The mathematical value of a [`BlockId`].
pub struct BlockIdModel {
    pub height: u32,
    pub hash: Seq<u8>,
}

impl View for BlockId {
    type V = BlockIdModel;

    open spec fn view(&self) -> BlockIdModel {
        BlockIdModel { height: self.height, hash: self.hash@ }
    }
}

/// Heights that strictly increase along the list.
pub open spec fn heights_increasing(s: Seq<BlockIdModel>) -> bool {
    forall|i: int, j: int| 0 <= i < j < s.len() ==> s[i].height < s[j].height
}

/// A chain of checkpoints: blocks of strictly increasing heights, the last one the tip.
#[derive(Debug)]
pub struct CheckPoint {
    blocks: Vec<BlockId>,
}

impl CheckPoint {
    /// The blocks, from the lowest to the tip.
    pub closed spec fn blocks_view(&self) -> Seq<BlockIdModel> {
        self.blocks@.map_values(|b: BlockId| b@)
    }

    /// A checkpoint chain has at least one block, and its heights strictly increase.
    #[verifier::type_invariant]
    closed spec fn inv(&self) -> bool {
        &&& self.blocks@.len() > 0
        &&& heights_increasing(self.blocks_view())
    }

    /// Builds a chain from blocks in increasing height order. `Err(None)` if there is no block;
    /// `Err(Some(cp))` if a block's height does not exceed the previous one, with `cp` the
    /// chain of the blocks before it.
    pub fn from_blocks(blocks: Vec<BlockId>) -> (r: Result<CheckPoint, Option<CheckPoint>>)
        ensures
            r matches Ok(cp) ==> cp.blocks_view() == blocks@.map_values(|b: BlockId| b@),
            r is Ok <==> blocks@.len() > 0 && heights_increasing(
                blocks@.map_values(|b: BlockId| b@),
            ),
            r matches Err(None) ==> blocks@.len() == 0,
            r matches Err(Some(cp)) ==> {
                let n = cp.blocks_view().len();
                &&& 0 < n < blocks@.len()
                &&& cp.blocks_view() == blocks@.map_values(|b: BlockId| b@).take(n as int)
                &&& blocks@[n as int].height <= blocks@[n - 1].height
            },
    {
        let ghost all = blocks@.map_values(|b: BlockId| b@);
        if blocks.len() == 0 {
            return Err(None);
        }
        let mut kept: Vec<BlockId> = Vec::new();
        kept.push(blocks[0]);
        let mut i: usize = 1;
        while i < blocks.len()
            invariant
                1 <= i <= blocks@.len(),
                all == blocks@.map_values(|b: BlockId| b@),
                kept@.len() == i,
                kept@.map_values(|b: BlockId| b@) == all.take(i as int),
                heights_increasing(all.take(i as int)),
            decreases blocks@.len() - i,
        {
            let b = blocks[i];
            if b.height <= kept[i - 1].height {
                assert(kept@[i - 1]@ == all.take(i as int)[i - 1]);
                assert(all[i as int] == b@);
                assert(all[i - 1] == kept@[i - 1]@);
                assert(!heights_increasing(all));
                return Err(Some(CheckPoint { blocks: kept }));
            }
            kept.push(b);
            proof {
                assert(kept@.map_values(|b: BlockId| b@) =~= all.take(i + 1));
                let ghost t0 = all.take(i as int);
                let ghost t1 = all.take(i + 1);
                assert forall|x: int, y: int| #![trigger t1[x], t1[y]] 0 <= x < y < i + 1 implies t1[x].height
                    < t1[y].height by {
                    assert(t0[x] == t1[x]);
                    if y < i {
                        assert(t0[y] == t1[y]);
                    } else if x < i - 1 {
                        assert(t0[x].height < t0[i - 1].height);
                    }
                }
                assert(heights_increasing(t1));
            }
            i = i + 1;
        }
        assert(all.take(i as int) =~= all);
        Ok(CheckPoint { blocks: kept })
    }

    /// The height of the tip.
    pub fn height(&self) -> (r: u32)
        ensures
            r == self.blocks_view().last().height,
    {
        proof {
            use_type_invariant(self);
        }
        self.blocks[self.blocks.len() - 1].height
    }

    /// The hash of the tip.
    pub fn hash(&self) -> (r: BlockHash)
        ensures
            r@ == self.blocks_view().last().hash,
    {
        proof {
            use_type_invariant(self);
        }
        self.blocks[self.blocks.len() - 1].hash
    }

    /// The blocks, from the lowest to the tip.
    pub fn blocks(&self) -> (r: &Vec<BlockId>)
        ensures
            r@.map_values(|b: BlockId| b@) == self.blocks_view(),
    {
        &self.blocks
    }
}

/// Builds the checkpoint chain of a node's blocks, given the hashes of heights `0, 1, 2, ...`
/// up to the tip: block `i` is at height `i`. There must be at least the genesis block.
pub fn checkpoint_tip(hashes: Vec<BlockHash>) -> (r: CheckPoint)
    requires
        0 < hashes@.len() <= 0x1_0000_0000,
    ensures
        r.blocks_view().len() == hashes@.len(),
        forall|i: int|
            0 <= i < hashes@.len() ==> (#[trigger] r.blocks_view()[i]).height == i
                && r.blocks_view()[i].hash == hashes@[i]@,
{
    let mut blocks: Vec<BlockId> = Vec::new();
    let mut i: usize = 0;
    while i < hashes.len()
        invariant
            i <= hashes@.len() <= 0x1_0000_0000,
            blocks@.len() == i,
            forall|j: int|
                0 <= j < i ==> (#[trigger] blocks@[j]).height == j && blocks@[j].hash@
                    == hashes@[j]@,
        decreases hashes@.len() - i,
    {
        blocks.push(BlockId { height: i as u32, hash: hashes[i] });
        i = i + 1;
    }
    let ghost bv = blocks@.map_values(|b: BlockId| b@);
    assert(heights_increasing(bv)) by {
        assert forall|x: int, y: int| 0 <= x < y < bv.len() implies bv[x].height < bv[y].height by {
            assert(bv[x] == blocks@[x]@);
            assert(bv[y] == blocks@[y]@);
        }
    }
    match CheckPoint::from_blocks(blocks) {
        Ok(cp) => {
            assert forall|k: int| 0 <= k < hashes@.len() implies (#[trigger] cp.blocks_view()[k]).height
                == k && cp.blocks_view()[k].hash == hashes@[k]@ by {
                assert(cp.blocks_view()[k] == bv[k]);
                assert(bv[k] == blocks@[k]@);
            }
            cp
        },
        Err(_) => vstd::pervasive::unreached(),
    }
}

/// The walk back from the tip that invalidates a number of blocks: each block is invalidated
/// after its parent's hash has been read, and the walk stops after `count` blocks or at a block
/// without a parent.
#[derive(Debug)]
pub struct BlockInvalidation {
    /// How many blocks to invalidate.
    pub count: usize,
    /// How many blocks have been invalidated.
    pub done: usize,
    /// The next block to invalidate, if any.
    pub next: Option<BlockHash>,
}

impl BlockInvalidation {
    /// Starts the walk at the tip.
    pub fn new(count: usize, tip: BlockHash) -> (r: BlockInvalidation)
        ensures
            r.count == count,
            r.done == 0,
            count > 0 ==> r.next is Some && r.next->0@ == tip@,
            count == 0 ==> r.next is None,
    {
        if count == 0 {
            BlockInvalidation { count, done: 0, next: None }
        } else {
            BlockInvalidation { count, done: 0, next: Some(tip) }
        }
    }

    /// Records that the block `next` was invalidated and that its parent is `prev` (`None`
    /// for a block without one): the parent is next, unless `count` blocks are done.
    pub fn invalidated(&mut self, prev: Option<BlockHash>)
        requires
            old(self).next is Some,
            old(self).done < old(self).count,
        ensures
            final(self).count == old(self).count,
            final(self).done == old(self).done + 1,
            final(self).done < final(self).count ==> match (final(self).next, prev) {
                (Some(a), Some(b)) => a@ == b@,
                (None, None) => true,
                _ => false,
            },
            final(self).done == final(self).count ==> final(self).next is None,
    {
        self.done = self.done + 1;
        if self.done < self.count {
            self.next = prev;
        } else {
            self.next = None;
        }
    }
}

/// What a waiting loop does next.
#[derive(Debug, Clone, Copy, PartialEq, Eq, Structural)]
pub enum WaitAction {
    /// Ask the server whether the awaited thing is there.
    Poll,
    /// Sleep, then read the clock again.
    Sleep,
    /// Stop: the awaited thing is there.
    Succeed,
    /// Stop: the timeout has passed.
    TimeOut,
}

/// What a waiting loop has learned.
#[derive(Debug, Clone, Copy, PartialEq, Eq, Structural)]
pub enum WaitEvent {
    /// The time since the loop started, in nanoseconds.
    ClockRead { elapsed_nanos: u128 },
    /// The answer of a poll.
    Polled { seen: bool },
}

/// A loop that polls a server until it sees something or a timeout passes: before each poll the
/// clock is read, and the loop polls only while less time than the timeout has passed.
#[derive(Debug, Clone, Copy)]
pub struct WaitLoop {
    /// The timeout, in nanoseconds.
    pub timeout_nanos: u128,
}

impl WaitLoop {
    /// The action that follows an event.
    pub fn next(&self, event: WaitEvent) -> (r: WaitAction)
        ensures
            r == match event {
                WaitEvent::ClockRead { elapsed_nanos } => if elapsed_nanos < self.timeout_nanos {
                    WaitAction::Poll
                } else {
                    WaitAction::TimeOut
                },
                WaitEvent::Polled { seen } => if seen {
                    WaitAction::Succeed
                } else {
                    WaitAction::Sleep
                },
            },
    {
        match event {
            WaitEvent::ClockRead { elapsed_nanos } => {
                if elapsed_nanos < self.timeout_nanos {
                    WaitAction::Poll
                } else {
                    WaitAction::TimeOut
                }
            },
            WaitEvent::Polled { seen } => {
                if seen {
                    WaitAction::Succeed
                } else {
                    WaitAction::Sleep
                }
            },
        }
    }
}

} // verus!
