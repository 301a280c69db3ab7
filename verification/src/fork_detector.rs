//! Fork detection over a bounded, height-ordered window of canonical headers.
//!
//! The window is modelled as a sequence of headers in strictly increasing
//! height. Every observation is described by three spec functions over that
//! sequence: [`classify`], [`next_window`] and [`reorg_event`].

use std::collections::VecDeque;
use vstd::prelude::*;
use crate::error::ConfigError;
use crate::header::{BlockHeader, Bytes32};

verus! {

/// What the detector makes of a newly observed header.
#[derive(Clone, Copy, Debug, PartialEq, Eq, Structural)]
pub enum Classification {
    /// The first header the window has seen.
    NewBlock,
    /// The header extends the stored tip by one block.
    Continuation,
    /// The header is already stored at its height.
    Duplicate,
    /// The header belongs to a branch that replaces stored headers. `depth`
    /// counts the heights, up to the previous tip, that were given up.
    Reorg { depth: u64, unresolved: bool },
    /// The header lies more than one block above the stored tip.
    Gap { missing: u64 },
}

/// The details of a detected reorganization.
#[derive(Clone, Copy, Debug, PartialEq, Eq)]
pub struct ReorgEvent {
    /// The lowest height whose stored header was given up.
    pub divergence_height: u64,
    /// Hash of the tip that was canonical before the observation.
    pub old_hash: Bytes32,
    /// Hash of the observed header, the new tip.
    pub new_hash: Bytes32,
    pub depth: u64,
    pub unresolved: bool,
}

/// The classification of one observation, with its event if it was a reorg.
#[derive(Clone, Copy, Debug, PartialEq, Eq)]
pub struct Observation {
    pub classification: Classification,
    pub reorg: Option<ReorgEvent>,
}

/// Heights strictly increase along the window.
pub open spec fn ascending(w: Seq<BlockHeader>) -> bool {
    forall|i: int, j: int| 0 <= i < j < w.len() ==> w[i].height < w[j].height
}

/// Every stored height lies less than `capacity` below the highest one.
pub open spec fn within_capacity(w: Seq<BlockHeader>, capacity: nat) -> bool {
    forall|i: int| 0 <= i < w.len() ==> w[i].height + capacity > w.last().height
}

/// The window invariant: at most one header per height, in order, spread over
/// at most `capacity` consecutive heights.
pub open spec fn valid_window(w: Seq<BlockHeader>, capacity: nat) -> bool {
    &&& capacity >= 1
    &&& ascending(w)
    &&& within_capacity(w, capacity)
}

/// Some stored header has this height.
pub open spec fn has_height(w: Seq<BlockHeader>, height: int) -> bool {
    exists|i: int| 0 <= i < w.len() && w[i].height == height
}

/// Where in the window the header of this height stands, if there is one.
pub open spec fn position(w: Seq<BlockHeader>, height: int) -> int {
    choose|i: int| 0 <= i < w.len() && w[i].height == height
}

/// The header stored at this height.
pub open spec fn stored_at(w: Seq<BlockHeader>, height: int) -> Option<BlockHeader> {
    if has_height(w, height) {
        Some(w[position(w, height)])
    } else {
        None
    }
}

/// Eviction: the lowest headers leave for as long as they lie `capacity` or
/// more below the highest one.
pub open spec fn trim(w: Seq<BlockHeader>, capacity: nat) -> Seq<BlockHeader>
    decreases w.len(),
{
    if w.len() > 0 && w[0].height + capacity <= w.last().height {
        trim(w.drop_first(), capacity)
    } else {
        w
    }
}

/// In an ascending window a height names its position.
pub proof fn lemma_position(w: Seq<BlockHeader>, i: int)
    requires
        ascending(w),
        0 <= i < w.len(),
    ensures
        has_height(w, w[i].height as int),
        position(w, w[i].height as int) == i,
        stored_at(w, w[i].height as int) == Some(w[i]),
{
    let p = position(w, w[i].height as int);
    assert(0 <= p < w.len() && w[p].height == w[i].height);
    if p < i {
        assert(w[p].height < w[i].height);
    }
    if i < p {
        assert(w[i].height < w[p].height);
    }
}

/// What eviction keeps: a suffix of the window that ends in the same tip and
/// satisfies the window invariant, and it drops exactly the headers that lie
/// `capacity` or more below the tip.
pub proof fn lemma_trim(w: Seq<BlockHeader>, capacity: nat)
    requires
        ascending(w),
        capacity >= 1,
    ensures
        valid_window(trim(w, capacity), capacity),
        trim(w, capacity).len() <= w.len(),
        trim(w, capacity) == w.skip(w.len() - trim(w, capacity).len()),
        w.len() > 0 ==> trim(w, capacity).len() > 0 && trim(w, capacity).last() == w.last(),
        forall|i: int|
            0 <= i < w.len() - trim(w, capacity).len() ==> (#[trigger] w[i]).height + capacity
                <= w.last().height,
        within_capacity(w, capacity) ==> trim(w, capacity) == w,
    decreases w.len(),
{
    if w.len() > 0 && w[0].height + capacity <= w.last().height {
        let rest = w.drop_first();
        assert(rest.len() > 0) by {
            if w.len() == 1 {
                assert(w[0] == w.last());
            }
        }
        assert(rest.last() == w.last());
        assert(ascending(rest)) by {
            assert forall|i: int, j: int| 0 <= i < j < rest.len() implies rest[i].height
                < rest[j].height by {
                assert(rest[i] == w[i + 1] && rest[j] == w[j + 1]);
            }
        }
        lemma_trim(rest, capacity);
        let t = trim(rest, capacity);
        assert(t == trim(w, capacity));
        let k = rest.len() - t.len();
        assert(rest.skip(k) =~= w.skip(k + 1));
        assert forall|i: int| 0 <= i < w.len() - t.len() implies (#[trigger] w[i]).height
            + capacity <= w.last().height by {
            if i > 0 {
                assert(w[i] == rest[i - 1]);
            }
        }
    } else {
        assert(w.skip(0) =~= w);
        if w.len() > 0 {
            assert(within_capacity(w, capacity)) by {
                assert forall|i: int| 0 <= i < w.len() implies w[i].height + capacity
                    > w.last().height by {
                    if i > 0 {
                        assert(w[0].height < w[i].height);
                    }
                }
            }
        }
    }
}

/// The observed header followed by the ancestors that came with it, nearest first.
pub open spec fn branch(header: BlockHeader, ancestors: Seq<BlockHeader>) -> Seq<BlockHeader> {
    seq![header] + ancestors
}

/// The window holds, one block below `child`, the very parent that `child` names.
pub open spec fn agrees_below(w: Seq<BlockHeader>, child: BlockHeader) -> bool {
    match stored_at(w, child.height - 1) {
        Some(p) => p.hash == child.parent_hash,
        None => false,
    }
}

/// The backward walk along a branch `b` from its block `i` on. It stops at
/// the first block whose parent is stored, and answers with that block's
/// index. It gives up after `limit` blocks, or when the next block of the
/// branch is missing or is not the parent of the one before.
pub open spec fn agreement(w: Seq<BlockHeader>, b: Seq<BlockHeader>, i: int, limit: nat) -> Option<
    int,
>
    decreases b.len() - i,
{
    if i < 0 || i >= b.len() || i >= limit {
        None
    } else if agrees_below(w, b[i]) {
        Some(i)
    } else if i + 1 < b.len() && b[i + 1].is_parent_of(b[i]) {
        agreement(w, b, i + 1, limit)
    } else {
        None
    }
}

/// The blocks `b[i]`, ..., `b[0]` of a branch, lowest first.
pub open spec fn ascend(b: Seq<BlockHeader>, i: int) -> Seq<BlockHeader> {
    Seq::new((i + 1) as nat, |k: int| b[i - k])
}

/// The stored headers that lie below the block `b[i]` of a branch, followed
/// by the branch from that block up to its head.
pub open spec fn graft(w: Seq<BlockHeader>, b: Seq<BlockHeader>, i: int) -> Seq<BlockHeader> {
    w.take(position(w, b[i].height - 1) + 1) + ascend(b, i)
}

/// How an observation is classified.
pub open spec fn classify(
    w: Seq<BlockHeader>,
    capacity: nat,
    header: BlockHeader,
    ancestors: Seq<BlockHeader>,
) -> Classification {
    if w.len() == 0 {
        Classification::NewBlock
    } else if header.height > w.last().height + 1 {
        Classification::Gap { missing: (header.height - w.last().height - 1) as u64 }
    } else if stored_at(w, header.height as int) matches Some(s) && s.hash == header.hash {
        Classification::Duplicate
    } else {
        let b = branch(header, ancestors);
        match agreement(w, b, 0, capacity) {
            Some(i) => if b[i].height - 1 == w.last().height {
                Classification::Continuation
            } else {
                Classification::Reorg {
                    depth: (w.last().height - b[i].height + 1) as u64,
                    unresolved: false,
                }
            },
            None => Classification::Reorg {
                depth: (w.last().height - w[0].height + 1) as u64,
                unresolved: true,
            },
        }
    }
}

/// The window after an observation.
pub open spec fn next_window(
    w: Seq<BlockHeader>,
    capacity: nat,
    header: BlockHeader,
    ancestors: Seq<BlockHeader>,
) -> Seq<BlockHeader> {
    if w.len() == 0 {
        seq![header]
    } else if header.height > w.last().height + 1 {
        trim(w.push(header), capacity)
    } else if stored_at(w, header.height as int) matches Some(s) && s.hash == header.hash {
        w
    } else {
        let b = branch(header, ancestors);
        match agreement(w, b, 0, capacity) {
            Some(i) => trim(graft(w, b, i), capacity),
            None => seq![header],
        }
    }
}

/// The event that an observation raises: one for every reorg, none otherwise.
pub open spec fn reorg_event(
    w: Seq<BlockHeader>,
    capacity: nat,
    header: BlockHeader,
    ancestors: Seq<BlockHeader>,
) -> Option<ReorgEvent> {
    match classify(w, capacity, header, ancestors) {
        Classification::Reorg { depth, unresolved } => Some(
            ReorgEvent {
                divergence_height: (w.last().height + 1 - depth) as u64,
                old_hash: w.last().hash,
                new_hash: header.hash,
                depth,
                unresolved,
            },
        ),
        _ => None,
    }
}

/// What a successful walk has established: every block it passed is the
/// parent of the one before and found no stored parent, and the block it
/// stopped at did.
pub proof fn lemma_agreement(w: Seq<BlockHeader>, b: Seq<BlockHeader>, j: int, limit: nat, i: int)
    requires
        agreement(w, b, j, limit) == Some(i),
    ensures
        0 <= j <= i < b.len(),
        i < limit,
        agrees_below(w, b[i]),
        forall|k: int| j <= k < i ==> (#[trigger] b[k + 1]).is_parent_of(b[k]),
        forall|k: int| j <= k < i ==> !agrees_below(w, #[trigger] b[k]),
        b[i].height + (i - j) == b[j].height,
    decreases b.len() - j,
{
    if !agrees_below(w, b[j]) {
        lemma_agreement(w, b, j + 1, limit, i);
        assert forall|k: int| j <= k < i implies (#[trigger] b[k + 1]).is_parent_of(b[k]) by {
            if k > j {
                assert(j + 1 <= k < i);
            }
        }
    }
}

/// Along the part of a branch that a walk has passed, each block lies one
/// below the block before it.
pub proof fn lemma_branch_heights(b: Seq<BlockHeader>, i: int, k: int)
    requires
        0 <= k <= i < b.len(),
        forall|m: int| 0 <= m < i ==> (#[trigger] b[m + 1]).is_parent_of(b[m]),
    ensures
        b[k].height + k == b[0].height,
    decreases k,
{
    if k > 0 {
        lemma_branch_heights(b, i, k - 1);
        assert(b[(k - 1) + 1].is_parent_of(b[k - 1]));
    }
}

/// A graft onto an ascending window is ascending, and ends in the head of the branch.
pub proof fn lemma_graft(w: Seq<BlockHeader>, b: Seq<BlockHeader>, limit: nat, i: int)
    requires
        ascending(w),
        agreement(w, b, 0, limit) == Some(i),
    ensures
        ascending(graft(w, b, i)),
        graft(w, b, i).len() > 0,
        graft(w, b, i).last() == b[0],
        has_height(w, b[i].height - 1),
{
    lemma_agreement(w, b, 0, limit, i);
    let p = position(w, b[i].height - 1);
    let g = graft(w, b, i);
    assert(0 <= p < w.len() && w[p].height == b[i].height - 1);
    assert forall|x: int, y: int| 0 <= x < y < g.len() implies g[x].height < g[y].height by {
        if y <= p {
            assert(g[x] == w[x] && g[y] == w[y]);
        } else {
            let ky = y - (p + 1);
            assert(g[y] == b[i - ky]);
            lemma_branch_heights(b, i, i - ky);
            lemma_branch_heights(b, i, i);
            if x <= p {
                assert(g[x] == w[x]);
                if x < p {
                    assert(w[x].height < w[p].height);
                }
            } else {
                let kx = x - (p + 1);
                assert(g[x] == b[i - kx]);
                lemma_branch_heights(b, i, i - kx);
            }
        }
    }
    assert(g.last() == b[i - i]);
}

/// An observation keeps the window invariant, whatever is observed.
pub proof fn lemma_next_window_valid(
    w: Seq<BlockHeader>,
    capacity: nat,
    header: BlockHeader,
    ancestors: Seq<BlockHeader>,
)
    requires
        valid_window(w, capacity),
    ensures
        valid_window(next_window(w, capacity, header, ancestors), capacity),
{
    let b = branch(header, ancestors);
    if w.len() == 0 {
    } else if header.height > w.last().height + 1 {
        lemma_push_ascending(w, header);
        lemma_trim(w.push(header), capacity);
    } else if stored_at(w, header.height as int) matches Some(s) && s.hash == header.hash {
    } else {
        match agreement(w, b, 0, capacity) {
            Some(i) => {
                lemma_graft(w, b, capacity, i);
                lemma_trim(graft(w, b, i), capacity);
            },
            None => {},
        }
    }
}

/// A header above the tip may be appended to an ascending window.
pub proof fn lemma_push_ascending(w: Seq<BlockHeader>, header: BlockHeader)
    requires
        ascending(w),
        w.len() > 0 ==> w.last().height < header.height,
    ensures
        ascending(w.push(header)),
{
    let v = w.push(header);
    assert forall|x: int, y: int| 0 <= x < y < v.len() implies v[x].height < v[y].height by {
        if y < w.len() {
            assert(v[x] == w[x] && v[y] == w[y]);
        } else {
            assert(v[x] == w[x]);
            if x < w.len() - 1 {
                assert(w[x].height < w.last().height);
            }
        }
    }
}

/// The fork detector: a window of canonical headers and its capacity.
pub struct ForkDetector {
    window: VecDeque<BlockHeader>,
    capacity: u64,
}

/// What a fork detector holds.
pub struct DetectorState {
    /// The stored headers, lowest height first.
    pub window: Seq<BlockHeader>,
    /// The capacity the detector was built with.
    pub capacity: nat,
}

impl View for ForkDetector {
    type V = DetectorState;

    closed spec fn view(&self) -> DetectorState {
        DetectorState { window: self.window@, capacity: self.capacity as nat }
    }
}

impl ForkDetector {
    /// The detector's invariant.
    pub open spec fn wf(&self) -> bool {
        valid_window(self@.window, self@.capacity)
    }

    /// The capacity is a 64-bit number.
    pub proof fn lemma_limit_bound(&self)
        ensures
            self@.capacity <= u64::MAX,
    {
    }

    /// An empty detector whose window spans at most `capacity` heights.
    pub fn new(capacity: u64) -> (r: Result<ForkDetector, ConfigError>)
        ensures
            capacity == 0 <==> r.is_err(),
            r matches Err(e) ==> e == ConfigError::ZeroCapacity,
            r matches Ok(d) ==> d.wf() && d@.window == Seq::<BlockHeader>::empty() && d@.capacity
                == capacity,
    {
        if capacity == 0 {
            Err(ConfigError::ZeroCapacity)
        } else {
            Ok(ForkDetector { window: VecDeque::new(), capacity })
        }
    }

    /// The capacity the detector was built with.
    pub fn capacity(&self) -> (r: u64)
        ensures
            r == self@.capacity,
    {
        self.capacity
    }

    /// The number of stored headers.
    pub fn len(&self) -> (r: usize)
        ensures
            r == self@.window.len(),
    {
        self.window.len()
    }

    /// Whether nothing has been stored.
    pub fn is_empty(&self) -> (r: bool)
        ensures
            r == (self@.window.len() == 0),
    {
        self.window.len() == 0
    }

    /// The height of the canonical tip.
    pub fn last_known_height(&self) -> (r: Option<u64>)
        ensures
            self@.window.len() == 0 <==> r.is_none(),
            r matches Some(h) ==> h == self@.window.last().height,
    {
        let n = self.window.len();
        if n == 0 {
            None
        } else {
            Some(self.window[n - 1].height)
        }
    }

    /// The canonical tip: the stored header of the greatest height.
    pub fn tip(&self) -> (r: Option<BlockHeader>)
        ensures
            self@.window.len() == 0 <==> r.is_none(),
            r matches Some(t) ==> t == self@.window.last(),
    {
        let n = self.window.len();
        if n == 0 {
            None
        } else {
            Some(self.window[n - 1])
        }
    }

    /// The lowest height still stored.
    pub fn lowest_height(&self) -> (r: Option<u64>)
        ensures
            self@.window.len() == 0 <==> r.is_none(),
            r matches Some(h) ==> h == self@.window[0].height,
    {
        if self.window.len() == 0 {
            None
        } else {
            Some(self.window[0].height)
        }
    }

    /// Binary search for the index of the header stored at `height`.
    fn find(&self, height: u64) -> (r: Option<usize>)
        requires
            ascending(self@.window),
        ensures
            r.is_some() == has_height(self@.window, height as int),
            r matches Some(i) ==> i < self@.window.len() && i == position(
                self@.window,
                height as int,
            )
                && self@.window[i as int].height == height,
    {
        let mut lo: usize = 0;
        let mut hi: usize = self.window.len();
        while lo < hi
            invariant
                lo <= hi <= self.window@.len(),
                ascending(self.window@),
                forall|i: int| 0 <= i < lo ==> self.window@[i].height < height,
                forall|i: int| hi <= i < self.window@.len() ==> self.window@[i].height > height,
            decreases hi - lo,
        {
            let mid = lo + (hi - lo) / 2;
            let h = self.window[mid].height;
            if h == height {
                proof {
                    lemma_position(self@.window, mid as int);
                }
                return Some(mid);
            } else if h < height {
                assert forall|i: int| 0 <= i < mid + 1 implies self.window@[i].height < height by {
                    if i < mid {
                        assert(self.window@[i].height < self.window@[mid as int].height);
                    }
                }
                lo = mid + 1;
            } else {
                assert forall|i: int| mid <= i < self.window@.len() implies self.window@[i].height
                    > height by {
                    if mid < i {
                        assert(self.window@[mid as int].height < self.window@[i].height);
                    }
                }
                hi = mid;
            }
        }
        None
    }

    /// The header stored at `height`, if the window holds one.
    pub fn get(&self, height: u64) -> (r: Option<BlockHeader>)
        requires
            self.wf(),
        ensures
            r == stored_at(self@.window, height as int),
    {
        match self.find(height) {
            Some(i) => Some(self.window[i]),
            None => None,
        }
    }

    /// Evicts from the low end until the window spans fewer than `capacity` heights.
    fn evict(&mut self)
        ensures
            final(self)@.window == trim(old(self)@.window, old(self)@.capacity),
            final(self)@.capacity == old(self)@.capacity,
    {
        loop
            invariant
                self.capacity == old(self).capacity,
                trim(self.window@, self.capacity as nat) == trim(
                    old(self).window@,
                    old(self).capacity as nat,
                ),
            ensures
                self.capacity == old(self).capacity,
                self.window@ == trim(old(self).window@, old(self).capacity as nat),
            decreases self.window@.len(),
        {
            let n = self.window.len();
            if n == 0 {
                break ;
            }
            let low = self.window[0].height;
            let high = self.window[n - 1].height;
            if low <= high && high - low >= self.capacity {
                let _ = self.window.pop_front();
            } else {
                break ;
            }
        }
    }

    /// Walks backward along the branch of `header` until a block's parent is
    /// found in the window. Answers with the index of that parent in the
    /// window and the index of the block in the branch.
    fn walk(&self, header: BlockHeader, ancestors: &Vec<BlockHeader>) -> (r: Option<
        (usize, usize),
    >)
        requires
            self.wf(),
        ensures
            match agreement(self@.window, branch(header, ancestors@), 0, self@.capacity) {
                Some(i) => r matches Some((p, k)) && k == i && p == position(
                    self@.window,
                    branch(header, ancestors@)[i].height - 1,
                ),
                None => r.is_none(),
            },
    {
        let ghost b = branch(header, ancestors@);
        let mut i: usize = 0;
        let mut child = header;
        loop
            invariant
                self.wf(),
                b == branch(header, ancestors@),
                i <= ancestors.len(),
                child == b[i as int],
                agreement(self@.window, b, 0, self@.capacity) == agreement(
                    self@.window,
                    b,
                    i as int,
                    self@.capacity,
                ),
            decreases ancestors.len() - i,
        {
            if i as u64 >= self.capacity {
                return None;
            }
            if child.height > 0 {
                match self.find(child.height - 1) {
                    Some(p) => {
                        if self.window[p].hash == child.parent_hash {
                            return Some((p, i));
                        }
                    },
                    None => {},
                }
            }
            if i < ancestors.len() && ancestors[i].links_to(&child) {
                child = ancestors[i];
                i += 1;
            } else {
                return None;
            }
        }
    }

    /// Observes `header` together with ancestors of it, nearest first: the
    /// first is its parent, each further one the parent of the one before.
    /// Ancestors from the first that does not fit this on are ignored.
    ///
    /// The window, the classification and the event are those that
    /// [`next_window`], [`classify`] and [`reorg_event`] describe.
    pub fn observe_branch(&mut self, header: BlockHeader, ancestors: &Vec<BlockHeader>) -> (r:
        Observation)
        requires
            old(self).wf(),
        ensures
            final(self).wf(),
            final(self)@.capacity == old(self)@.capacity,
            final(self)@.window == next_window(
                old(self)@.window,
                old(self)@.capacity,
                header,
                ancestors@,
            ),
            r.classification == classify(
                old(self)@.window,
                old(self)@.capacity,
                header,
                ancestors@,
            ),
            r.reorg == reorg_event(old(self)@.window, old(self)@.capacity, header, ancestors@),
    {
        let ghost w = self@.window;
        let ghost b = branch(header, ancestors@);
        proof {
            lemma_next_window_valid(w, self@.capacity, header, ancestors@);
        }
        let n = self.window.len();
        if n == 0 {
            self.window.push_back(header);
            assert(self.window@ =~= seq![header]);
            return Observation { classification: Classification::NewBlock, reorg: None };
        }
        let tip = self.window[n - 1];
        let lowest = self.window[0].height;
        if header.height > tip.height && header.height - tip.height > 1 {
            self.window.push_back(header);
            self.evict();
            return Observation {
                classification: Classification::Gap { missing: header.height - tip.height - 1 },
                reorg: None,
            };
        }
        match self.find(header.height) {
            Some(p) => {
                if self.window[p].hash == header.hash {
                    return Observation { classification: Classification::Duplicate, reorg: None };
                }
            },
            None => {},
        }
        match self.walk(header, ancestors) {
            None => {
                assert(lowest + self@.capacity > tip.height);
                let depth = tip.height - lowest + 1;
                self.window.clear();
                self.window.push_back(header);
                assert(self.window@ =~= seq![header]);
                Observation {
                    classification: Classification::Reorg { depth, unresolved: true },
                    reorg: Some(
                        ReorgEvent {
                            divergence_height: lowest,
                            old_hash: tip.hash,
                            new_hash: header.hash,
                            depth,
                            unresolved: true,
                        },
                    ),
                }
            },
            Some((p, i)) => {
                proof {
                    lemma_agreement(w, b, 0, self@.capacity, i as int);
                    lemma_branch_heights(b, i as int, i as int);
                    lemma_position(w, p as int);
                }
                let shared = self.window[p].height;
                self.window.truncate(p + 1);
                let mut k: usize = i;
                while k > 0
                    invariant
                        k <= i <= ancestors.len(),
                        b == branch(header, ancestors@),
                        self.capacity == old(self).capacity,
                        self.window@ == w.take(p + 1) + ascend(b, i as int).take(i - k),
                    decreases k,
                {
                    assert(ancestors[k - 1] == b[k as int]);
                    self.window.push_back(ancestors[k - 1]);
                    assert(self.window@ =~= w.take(p + 1) + ascend(b, i as int).take(i - k + 1));
                    k -= 1;
                }
                assert(header == b[0]);
                self.window.push_back(header);
                assert(self.window@ =~= graft(w, b, i as int));
                self.evict();
                if p == n - 1 {
                    Observation { classification: Classification::Continuation, reorg: None }
                } else {
                    assert(w[p as int].height < w[n - 1].height);
                    let depth = tip.height - shared;
                    Observation {
                        classification: Classification::Reorg { depth, unresolved: false },
                        reorg: Some(
                            ReorgEvent {
                                divergence_height: shared + 1,
                                old_hash: tip.hash,
                                new_hash: header.hash,
                                depth,
                                unresolved: false,
                            },
                        ),
                    }
                }
            },
        }
    }

    /// Observes a header that comes without ancestors.
    pub fn observe(&mut self, header: BlockHeader) -> (r: Classification)
        requires
            old(self).wf(),
        ensures
            final(self).wf(),
            final(self)@.capacity == old(self)@.capacity,
            final(self)@.window == next_window(
                old(self)@.window,
                old(self)@.capacity,
                header,
                Seq::empty(),
            ),
            r == classify(old(self)@.window, old(self)@.capacity, header, Seq::empty()),
    {
        let none: Vec<BlockHeader> = Vec::new();
        self.observe_branch(header, &none).classification
    }
}

} // verus!
