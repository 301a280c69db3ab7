//! The gas price oracle: a bounded first-in, first-out window of gas price
//! samples, percentiles over a sorted snapshot of it, and the mean
//! utilization of the blocks that the samples came from.

use std::collections::VecDeque;
use vstd::prelude::*;
use vstd::relations::{sorted_by, total_ordering};
use vstd::seq_lib::{lemma_sorted_unique, to_multiset_build, to_multiset_insert};
use crate::error::{ConfigError, MonitorError};

verus! {

/// The gas price of one transaction, and the block it was seen in.
#[derive(Clone, Copy, Debug, PartialEq, Eq, Structural)]
pub struct GasSample {
    pub block_height: u64,
    pub price_wei: u64,
}

/// How much of its gas limit a block used.
#[derive(Clone, Copy, Debug, PartialEq, Eq, Structural)]
pub struct BlockUsage {
    pub height: u64,
    pub gas_used: u64,
    pub gas_limit: u64,
}

/// The four fee levels, in wei.
#[derive(Clone, Copy, Debug, PartialEq, Eq, Structural)]
pub struct FeeRecommendation {
    /// The lowest price in the window.
    pub slow: u64,
    /// The median.
    pub standard: u64,
    /// The 75th percentile.
    pub fast: u64,
    /// The highest price in the window.
    pub instant: u64,
}

/// The last `n` entries of a sequence, or all of it if it has fewer.
pub open spec fn keep_last<T>(s: Seq<T>, n: nat) -> Seq<T> {
    if s.len() <= n {
        s
    } else {
        s.skip(s.len() - n)
    }
}

/// The prices of the samples, in arrival order.
pub open spec fn prices(samples: Seq<GasSample>) -> Seq<u64> {
    samples.map_values(|s: GasSample| s.price_wei)
}

/// The order by which prices are sorted.
pub open spec fn price_order() -> spec_fn(u64, u64) -> bool {
    |a: u64, b: u64| a <= b
}

/// The prices of the samples in increasing order.
pub open spec fn sorted_prices(samples: Seq<GasSample>) -> Seq<u64> {
    prices(samples).sort_by(price_order())
}

/// The percentile `p` of prices given in increasing order: the rank is
/// `p / 100 * (len - 1)`, and a rank between two entries is interpolated
/// linearly between them, rounded down to a whole wei. Zero for no prices.
pub open spec fn interpolate(sorted: Seq<u64>, p: int) -> int {
    if sorted.len() == 0 {
        0
    } else {
        let scaled = p * (sorted.len() - 1);
        let below = scaled / 100;
        let part = scaled % 100;
        if part == 0 {
            sorted[below] as int
        } else {
            sorted[below] + (sorted[below + 1] - sorted[below]) * part / 100
        }
    }
}

/// The percentile `p` of the samples in the window.
pub open spec fn percentile_of(samples: Seq<GasSample>, p: int) -> int {
    interpolate(sorted_prices(samples), p)
}

/// Prices compare by a total order.
pub proof fn lemma_price_order_total()
    ensures
        total_ordering(price_order()),
{
}

/// Walking a sorted sequence up, a rank computed from a percentile stays
/// inside it, and a fractional rank has an entry above it.
pub proof fn lemma_rank_in_range(len: int, p: int)
    requires
        len >= 1,
        0 <= p <= 100,
    ensures
        0 <= p * (len - 1),
        0 <= p * (len - 1) / 100 <= len - 1,
        p * (len - 1) % 100 != 0 ==> p * (len - 1) / 100 + 1 <= len - 1,
        p == 0 ==> p * (len - 1) / 100 == 0 && p * (len - 1) % 100 == 0,
        p == 100 ==> p * (len - 1) / 100 == len - 1 && p * (len - 1) % 100 == 0,
{
    let m = len - 1;
    assert(0 <= p * m <= 100 * m) by (nonlinear_arith)
        requires
            0 <= p <= 100,
            0 <= m,
    ;
    if p < 100 && m > 0 {
        assert(p * m <= 99 * m) by (nonlinear_arith)
            requires
                0 <= p <= 99,
                0 <= m,
        ;
    }
    if p == 100 {
        assert(p * m == 100 * m);
    }
    if p == 0 {
        assert(p * m == 0);
    }
}

/// The window after one sample arrived: a sample without a positive price
/// changes nothing; any other is appended, and the window keeps its last
/// `capacity` samples.
pub open spec fn after_arrival(w: Seq<GasSample>, capacity: nat, x: GasSample) -> Seq<GasSample> {
    if x.price_wei == 0 {
        w
    } else {
        keep_last(w.push(x), capacity)
    }
}

/// The window after the samples of `arrivals` arrived one by one.
pub open spec fn after_arrivals(w: Seq<GasSample>, capacity: nat, arrivals: Seq<GasSample>) -> Seq<
    GasSample,
>
    decreases arrivals.len(),
{
    if arrivals.len() == 0 {
        w
    } else {
        after_arrival(after_arrivals(w, capacity, arrivals.drop_last()), capacity, arrivals.last())
    }
}

/// The samples that the transactions of one block give: one for each price,
/// in the same order.
pub open spec fn samples_of(prices: Seq<u64>, height: u64) -> Seq<GasSample> {
    prices.map_values(|p: u64| GasSample { block_height: height, price_wei: p })
}

/// How many of the prices are zero.
pub open spec fn zero_prices(prices: Seq<u64>) -> nat
    decreases prices.len(),
{
    if prices.len() == 0 {
        0
    } else {
        zero_prices(prices.drop_last()) + if prices.last() == 0 {
            1nat
        } else {
            0nat
        }
    }
}

/// The count of rejected samples after these prices arrived; it stops at `u64::MAX`.
pub open spec fn rejected_after(rejected: nat, prices: Seq<u64>) -> nat {
    if rejected + zero_prices(prices) <= u64::MAX {
        rejected + zero_prices(prices)
    } else {
        u64::MAX as nat
    }
}

/// What the sample window keeps: at most `capacity` samples, each with a
/// positive price.
pub open spec fn valid_samples(samples: Seq<GasSample>, capacity: nat) -> bool {
    &&& capacity >= 1
    &&& samples.len() <= capacity
    &&& forall|i: int| 0 <= i < samples.len() ==> samples[i].price_wei > 0
}

/// The usage figures describe a block: a positive limit, and no more gas used
/// than the limit allows.
pub open spec fn valid_usage(b: BlockUsage) -> bool {
    0 < b.gas_limit && b.gas_used <= b.gas_limit
}

/// What the block set keeps: at most `capacity` blocks, each valid, no two
/// of the same height.
pub open spec fn valid_blocks(blocks: Seq<BlockUsage>, capacity: nat) -> bool {
    &&& blocks.len() <= capacity
    &&& forall|i: int| 0 <= i < blocks.len() ==> valid_usage(#[trigger] blocks[i])
    &&& forall|i: int, j: int|
        0 <= i < j < blocks.len() ==> blocks[i].height != blocks[j].height
}

/// Some tracked block has this height.
pub open spec fn has_block(blocks: Seq<BlockUsage>, height: u64) -> bool {
    exists|i: int| 0 <= i < blocks.len() && blocks[i].height == height
}

/// Where the tracked block of this height stands, if there is one.
pub open spec fn block_position(blocks: Seq<BlockUsage>, height: u64) -> int {
    choose|i: int| 0 <= i < blocks.len() && blocks[i].height == height
}

/// The tracked blocks without the one of this height.
pub open spec fn without(blocks: Seq<BlockUsage>, height: u64) -> Seq<BlockUsage> {
    if has_block(blocks, height) {
        blocks.remove(block_position(blocks, height))
    } else {
        blocks
    }
}

/// Some sample in the window came from the block of this height.
pub open spec fn represented(samples: Seq<GasSample>, height: u64) -> bool {
    exists|i: int| 0 <= i < samples.len() && samples[i].block_height == height
}

/// The share of its gas limit that a block used, in hundredths of a percent,
/// rounded down.
pub open spec fn utilization(b: BlockUsage) -> int {
    b.gas_used * 10000 / (b.gas_limit as int)
}

/// How many of the tracked blocks have a sample in the window.
pub open spec fn backing_count(blocks: Seq<BlockUsage>, samples: Seq<GasSample>) -> nat
    decreases blocks.len(),
{
    if blocks.len() == 0 {
        0
    } else {
        backing_count(blocks.drop_last(), samples) + if represented(
            samples,
            blocks.last().height,
        ) {
            1nat
        } else {
            0nat
        }
    }
}

/// The utilizations of the tracked blocks that have a sample in the window, added up.
pub open spec fn backing_sum(blocks: Seq<BlockUsage>, samples: Seq<GasSample>) -> int
    decreases blocks.len(),
{
    if blocks.len() == 0 {
        0
    } else {
        backing_sum(blocks.drop_last(), samples) + if represented(samples, blocks.last().height) {
            utilization(blocks.last())
        } else {
            0
        }
    }
}

/// The mean utilization, in hundredths of a percent and rounded down, of the
/// tracked blocks that have a sample in the window. Zero if there is none.
pub open spec fn mean_utilization(blocks: Seq<BlockUsage>, samples: Seq<GasSample>) -> int {
    if backing_count(blocks, samples) == 0 {
        0
    } else {
        backing_sum(blocks, samples) / (backing_count(blocks, samples) as int)
    }
}

/// The utilization of a valid block lies between 0 and 10000.
pub proof fn lemma_utilization_range(b: BlockUsage)
    requires
        valid_usage(b),
    ensures
        0 <= utilization(b) <= 10000,
{
    let used = b.gas_used as int;
    let limit = b.gas_limit as int;
    assert(0 <= used * 10000 <= limit * 10000) by (nonlinear_arith)
        requires
            0 <= used <= limit,
    ;
    assert(0 <= used * 10000 / limit <= 10000) by (nonlinear_arith)
        requires
            0 < limit,
            0 <= used * 10000 <= limit * 10000,
    ;
}

/// In a block set without repeated heights, a height names its position.
pub proof fn lemma_block_position(blocks: Seq<BlockUsage>, i: int)
    requires
        forall|i: int, j: int| 0 <= i < j < blocks.len() ==> blocks[i].height != blocks[j].height,
        0 <= i < blocks.len(),
    ensures
        has_block(blocks, blocks[i].height),
        block_position(blocks, blocks[i].height) == i,
{
    let p = block_position(blocks, blocks[i].height);
    assert(0 <= p < blocks.len() && blocks[p].height == blocks[i].height);
    if p < i {
        assert(blocks[p].height != blocks[i].height);
    }
    if i < p {
        assert(blocks[i].height != blocks[p].height);
    }
}

/// Arrivals leave a valid window.
pub proof fn lemma_arrivals_valid(w: Seq<GasSample>, capacity: nat, arrivals: Seq<GasSample>)
    requires
        valid_samples(w, capacity),
    ensures
        valid_samples(after_arrivals(w, capacity, arrivals), capacity),
    decreases arrivals.len(),
{
    if arrivals.len() > 0 {
        lemma_arrivals_valid(w, capacity, arrivals.drop_last());
    }
}

/// Putting a valid block in the place of the one of its height leaves a valid block set.
pub proof fn lemma_replace_block_valid(blocks: Seq<BlockUsage>, capacity: nat, usage: BlockUsage)
    requires
        valid_blocks(blocks, capacity),
        valid_usage(usage),
        capacity >= 1,
    ensures
        valid_blocks(keep_last(without(blocks, usage.height).push(usage), capacity), capacity),
{
    let rest = without(blocks, usage.height);
    if has_block(blocks, usage.height) {
        let p = block_position(blocks, usage.height);
        assert forall|k: int| 0 <= k < rest.len() implies (#[trigger] rest[k]).height
            != usage.height && valid_usage(rest[k]) by {
            if k < p {
                assert(rest[k] == blocks[k]);
            } else {
                assert(rest[k] == blocks[k + 1]);
            }
        }
        assert forall|i: int, j: int| 0 <= i < j < rest.len() implies rest[i].height
            != rest[j].height by {
            let a = if i < p { i } else { i + 1 };
            let b = if j < p { j } else { j + 1 };
            assert(rest[i] == blocks[a] && rest[j] == blocks[b]);
        }
    }
    let all = rest.push(usage);
    let kept = keep_last(all, capacity);
    let off = all.len() - kept.len();
    assert forall|i: int| 0 <= i < kept.len() implies valid_usage(#[trigger] kept[i]) by {
        assert(kept[i] == all[i + off]);
        if i + off < rest.len() {
            assert(all[i + off] == rest[i + off]);
        }
    }
    assert forall|i: int, j: int| 0 <= i < j < kept.len() implies kept[i].height
        != kept[j].height by {
        assert(kept[i] == all[i + off] && kept[j] == all[j + off]);
        assert(all[i + off] == rest[i + off]);
        if j + off < rest.len() {
            assert(all[j + off] == rest[j + off]);
        }
    }
}

/// The gas price oracle.
pub struct GasPriceOracle {
    samples: VecDeque<GasSample>,
    blocks: VecDeque<BlockUsage>,
    capacity: usize,
    rejected: u64,
}

/// What a gas price oracle holds.
pub struct OracleState {
    /// The samples in the window, oldest first.
    pub samples: Seq<GasSample>,
    /// The blocks whose gas usage is known, oldest first.
    pub blocks: Seq<BlockUsage>,
    /// The capacity the oracle was built with.
    pub capacity: nat,
    /// How many samples were rejected so far; the count stops at `u64::MAX`.
    pub rejected: nat,
}

impl View for GasPriceOracle {
    type V = OracleState;

    closed spec fn view(&self) -> OracleState {
        OracleState {
            samples: self.samples@,
            blocks: self.blocks@,
            capacity: self.capacity as nat,
            rejected: self.rejected as nat,
        }
    }
}

impl GasPriceOracle {
    /// The oracle's invariant.
    pub open spec fn wf(&self) -> bool {
        &&& valid_samples(self@.samples, self@.capacity)
        &&& valid_blocks(self@.blocks, self@.capacity)
    }

    /// The capacity and the count of rejected samples are machine numbers.
    pub proof fn lemma_bounds(&self)
        ensures
            self@.capacity <= usize::MAX,
            self@.rejected <= u64::MAX,
    {
    }

    /// An empty oracle that keeps the last `capacity` samples.
    pub fn new(capacity: usize) -> (r: Result<GasPriceOracle, ConfigError>)
        ensures
            capacity == 0 <==> r.is_err(),
            r matches Err(e) ==> e == ConfigError::ZeroCapacity,
            r matches Ok(o) ==> o.wf() && o@.samples == Seq::<GasSample>::empty() && o@.blocks
                == Seq::<BlockUsage>::empty() && o@.capacity == capacity && o@.rejected == 0,
    {
        if capacity == 0 {
            Err(ConfigError::ZeroCapacity)
        } else {
            Ok(
                GasPriceOracle {
                    samples: VecDeque::new(),
                    blocks: VecDeque::new(),
                    capacity,
                    rejected: 0,
                },
            )
        }
    }

    /// The capacity the oracle was built with.
    pub fn capacity(&self) -> (r: usize)
        ensures
            r == self@.capacity,
    {
        self.capacity
    }

    /// The number of samples in the window.
    pub fn len(&self) -> (r: usize)
        ensures
            r == self@.samples.len(),
    {
        self.samples.len()
    }

    /// Whether the window holds no sample.
    pub fn is_empty(&self) -> (r: bool)
        ensures
            r == (self@.samples.len() == 0),
    {
        self.samples.len() == 0
    }

    /// How many samples were rejected so far.
    pub fn rejected(&self) -> (r: u64)
        ensures
            r == self@.rejected,
    {
        self.rejected
    }

    /// The sample at place `i` of the window, the oldest being at place 0.
    pub fn sample(&self, i: usize) -> (r: Option<GasSample>)
        ensures
            r == if i < self@.samples.len() {
                Some(self@.samples[i as int])
            } else {
                None
            },
    {
        if i < self.samples.len() {
            Some(self.samples[i])
        } else {
            None
        }
    }

    /// Records the gas price of one transaction of the block at `height`.
    ///
    /// A price of zero is rejected and counted, and the window stays as it
    /// is. Any other price is appended; if the window was full, its oldest
    /// sample leaves.
    pub fn record(&mut self, price_wei: u64, height: u64) -> (r: Result<(), MonitorError>)
        requires
            old(self).wf(),
        ensures
            final(self).wf(),
            final(self)@.capacity == old(self)@.capacity,
            final(self)@.blocks == old(self)@.blocks,
            price_wei == 0 <==> r.is_err(),
            r matches Err(e) ==> e == MonitorError::GasSampleOutOfRange,
            price_wei == 0 ==> final(self)@.samples == old(self)@.samples && final(self)@.rejected
                == if old(self)@.rejected < u64::MAX {
                old(self)@.rejected + 1
            } else {
                old(self)@.rejected
            },
            price_wei > 0 ==> final(self)@.samples == keep_last(
                old(self)@.samples.push(GasSample { block_height: height, price_wei }),
                old(self)@.capacity,
            ) && final(self)@.rejected == old(self)@.rejected,
    {
        if price_wei == 0 {
            if self.rejected < u64::MAX {
                self.rejected = self.rejected + 1;
            }
            return Err(MonitorError::GasSampleOutOfRange);
        }
        let sample = GasSample { block_height: height, price_wei };
        if self.samples.len() >= self.capacity {
            let _ = self.samples.pop_front();
        }
        self.samples.push_back(sample);
        assert(self.samples@ =~= keep_last(old(self)@.samples.push(sample), old(self)@.capacity));
        Ok(())
    }

    /// Tracks the gas usage of the block at `height`, in place of what was
    /// tracked for that height before. If that makes more blocks than the
    /// capacity allows, the one tracked longest ago leaves.
    ///
    /// A block with a gas limit of zero, or with more gas used than its
    /// limit, is rejected and nothing changes.
    pub fn track_block(&mut self, height: u64, gas_used: u64, gas_limit: u64) -> (r: Result<
        (),
        MonitorError,
    >)
        requires
            old(self).wf(),
        ensures
            final(self).wf(),
            final(self)@.capacity == old(self)@.capacity,
            final(self)@.samples == old(self)@.samples,
            final(self)@.rejected == old(self)@.rejected,
            r.is_ok() <==> valid_usage(BlockUsage { height, gas_used, gas_limit }),
            r matches Err(e) ==> e == MonitorError::MalformedBlockError && final(self)@.blocks
                == old(self)@.blocks,
            r.is_ok() ==> final(self)@.blocks == keep_last(
                without(old(self)@.blocks, height).push(
                    BlockUsage { height, gas_used, gas_limit },
                ),
                old(self)@.capacity,
            ),
    {
        if gas_limit == 0 || gas_used > gas_limit {
            return Err(MonitorError::MalformedBlockError);
        }
        let usage = BlockUsage { height, gas_used, gas_limit };
        let ghost before = self.blocks@;
        let mut i: usize = 0;
        while i < self.blocks.len() && self.blocks[i].height != height
            invariant
                self.blocks@ == before,
                i <= before.len(),
                forall|k: int| 0 <= k < i ==> before[k].height != height,
            decreases before.len() - i,
        {
            i += 1;
        }
        if i < self.blocks.len() {
            proof {
                lemma_block_position(before, i as int);
            }
            let _ = self.blocks.remove(i);
        } else {
            assert(!has_block(before, height));
        }
        let ghost rest = self.blocks@;
        assert(rest == without(before, height));
        assert(forall|k: int| 0 <= k < rest.len() ==> (#[trigger] rest[k]).height != height);
        if self.blocks.len() >= self.capacity {
            let _ = self.blocks.pop_front();
        }
        self.blocks.push_back(usage);
        assert(self.blocks@ =~= keep_last(rest.push(usage), old(self)@.capacity));
        Ok(())
    }

    /// Whether some sample in the window came from the block at `height`.
    fn is_represented(&self, height: u64) -> (r: bool)
        ensures
            r == represented(self@.samples, height),
    {
        let mut i: usize = 0;
        while i < self.samples.len()
            invariant
                i <= self.samples@.len(),
                forall|k: int| 0 <= k < i ==> self.samples@[k].block_height != height,
            decreases self.samples@.len() - i,
        {
            if self.samples[i].block_height == height {
                return true;
            }
            i += 1;
        }
        false
    }

    /// The mean utilization, in hundredths of a percent and rounded down, of
    /// the tracked blocks that have a sample in the window: 10000 stands for
    /// blocks that used their whole gas limit. Zero if there is no such block.
    pub fn average_utilization(&self) -> (r: u64)
        requires
            self.wf(),
        ensures
            r == mean_utilization(self@.blocks, self@.samples),
            r <= 10000,
    {
        let mut sum: u128 = 0;
        let mut count: u128 = 0;
        let mut i: usize = 0;
        while i < self.blocks.len()
            invariant
                self.wf(),
                i <= self.blocks@.len(),
                count == backing_count(self.blocks@.take(i as int), self@.samples),
                sum == backing_sum(self.blocks@.take(i as int), self@.samples),
                count <= i,
                sum <= 10000 * count,
            decreases self.blocks@.len() - i,
        {
            let b = self.blocks[i];
            proof {
                lemma_utilization_range(b);
                assert(self.blocks@.take(i + 1).drop_last() =~= self.blocks@.take(i as int));
            }
            if self.is_represented(b.height) {
                let share = b.gas_used as u128 * 10000 / b.gas_limit as u128;
                sum = sum + share;
                count = count + 1;
            }
            i += 1;
        }
        assert(self.blocks@.take(i as int) =~= self.blocks@);
        if count == 0 {
            0
        } else {
            let mean = sum / count;
            assert(mean <= 10000) by (nonlinear_arith)
                requires
                    sum <= 10000 * count,
                    count > 0,
                    mean == sum / count,
            ;
            mean as u64
        }
    }

    /// Records the gas prices of the transactions of the block at `height`,
    /// one after the other.
    pub fn record_all(&mut self, prices: &Vec<u64>, height: u64)
        requires
            old(self).wf(),
        ensures
            final(self).wf(),
            final(self)@.capacity == old(self)@.capacity,
            final(self)@.blocks == old(self)@.blocks,
            final(self)@.samples == after_arrivals(
                old(self)@.samples,
                old(self)@.capacity,
                samples_of(prices@, height),
            ),
            final(self)@.rejected == rejected_after(old(self)@.rejected, prices@),
    {
        let mut i: usize = 0;
        assert(prices@.take(0) =~= Seq::<u64>::empty());
        assert(samples_of(prices@.take(0), height) =~= Seq::<GasSample>::empty());
        while i < prices.len()
            invariant
                i <= prices@.len(),
                self.wf(),
                self@.capacity == old(self)@.capacity,
                self@.blocks == old(self)@.blocks,
                self@.samples == after_arrivals(
                    old(self)@.samples,
                    old(self)@.capacity,
                    samples_of(prices@.take(i as int), height),
                ),
                self@.rejected == rejected_after(
                    old(self)@.rejected,
                    prices@.take(i as int),
                ),
            decreases prices@.len() - i,
        {
            proof {
                let next = prices@.take(i + 1);
                assert(next.drop_last() =~= prices@.take(i as int));
                assert(next.last() == prices@[i as int]);
                assert(samples_of(next, height).drop_last() =~= samples_of(
                    prices@.take(i as int),
                    height,
                ));
                assert(samples_of(next, height).last() == GasSample {
                    block_height: height,
                    price_wei: prices@[i as int],
                });
            }
            let _ = self.record(prices[i], height);
            i += 1;
        }
        assert(prices@.take(i as int) =~= prices@);
    }

    /// The prices in the window in increasing order. The window itself keeps
    /// its arrival order.
    pub fn sorted_snapshot(&self) -> (r: Vec<u64>)
        ensures
            r@ == sorted_prices(self@.samples),
            r@.len() == self@.samples.len(),
            forall|i: int, j: int| 0 <= i < j < r@.len() ==> r@[i] <= r@[j],
    {
        let ghost all = prices(self@.samples);
        let mut out: Vec<u64> = Vec::new();
        let mut k: usize = 0;
        assert(all.take(0) =~= Seq::<u64>::empty());
        while k < self.samples.len()
            invariant
                k <= self.samples@.len(),
                all == prices(self@.samples),
                out@.len() == k,
                forall|i: int, j: int| 0 <= i < j < out@.len() ==> out@[i] <= out@[j],
                out@.to_multiset() == all.take(k as int).to_multiset(),
            decreases self.samples@.len() - k,
        {
            let x = self.samples[k].price_wei;
            let mut j: usize = 0;
            while j < out.len() && out[j] <= x
                invariant
                    j <= out@.len(),
                    forall|i: int| 0 <= i < j ==> out@[i] <= x,
                decreases out@.len() - j,
            {
                j += 1;
            }
            let ghost before = out@;
            out.insert(j, x);
            proof {
                to_multiset_insert(before, j as int, x);
                to_multiset_build(all.take(k as int), x);
                assert(all.take(k + 1) =~= all.take(k as int).push(x));
                assert forall|a: int, b: int| 0 <= a < b < out@.len() implies out@[a]
                    <= out@[b] by {
                    if b < j {
                        assert(out@[a] == before[a] && out@[b] == before[b]);
                    } else if b == j {
                        assert(out@[a] == before[a]);
                    } else {
                        assert(out@[b] == before[b - 1]);
                        assert(x < before[j as int]);
                        if j < b - 1 {
                            assert(before[j as int] <= before[b - 1]);
                        }
                        if a < j {
                            assert(out@[a] == before[a]);
                        } else if a > j {
                            assert(out@[a] == before[a - 1]);
                        }
                    }
                }
            }
            k += 1;
        }
        proof {
            assert(all.take(k as int) =~= all);
            lemma_price_order_total();
            all.lemma_sort_by_ensures(price_order());
            assert(sorted_by(out@, price_order()));
            lemma_sorted_unique(out@, all.sort_by(price_order()), price_order());
        }
        out
    }

    /// The percentile `p` of the prices in the window, in wei: the price at
    /// rank `p / 100 * (len - 1)` of the sorted prices, interpolated linearly
    /// between the two neighbours of a fractional rank and rounded down.
    /// Zero while the window is empty.
    pub fn percentile(&self, p: u8) -> (r: u64)
        requires
            p <= 100,
        ensures
            r == percentile_of(self@.samples, p as int),
            self@.samples.len() == 0 ==> r == 0,
    {
        let sorted = self.sorted_snapshot();
        percentile_in(&sorted, p)
    }

    /// The lowest price in the window.
    pub fn slow(&self) -> (r: u64)
        ensures
            r == percentile_of(self@.samples, 0),
    {
        self.percentile(0)
    }

    /// The median price in the window.
    pub fn standard(&self) -> (r: u64)
        ensures
            r == percentile_of(self@.samples, 50),
    {
        self.percentile(50)
    }

    /// The 75th percentile of the prices in the window.
    pub fn fast(&self) -> (r: u64)
        ensures
            r == percentile_of(self@.samples, 75),
    {
        self.percentile(75)
    }

    /// The highest price in the window.
    pub fn instant(&self) -> (r: u64)
        ensures
            r == percentile_of(self@.samples, 100),
    {
        self.percentile(100)
    }

    /// The four fee levels at once.
    pub fn recommendation(&self) -> (r: FeeRecommendation)
        ensures
            r.slow == percentile_of(self@.samples, 0),
            r.standard == percentile_of(self@.samples, 50),
            r.fast == percentile_of(self@.samples, 75),
            r.instant == percentile_of(self@.samples, 100),
    {
        let sorted = self.sorted_snapshot();
        FeeRecommendation {
            slow: percentile_in(&sorted, 0),
            standard: percentile_in(&sorted, 50),
            fast: percentile_in(&sorted, 75),
            instant: percentile_in(&sorted, 100),
        }
    }
}

/// The percentile `p` of prices that are given in increasing order.
fn percentile_in(sorted: &Vec<u64>, p: u8) -> (r: u64)
    requires
        p <= 100,
        forall|i: int, j: int| 0 <= i < j < sorted@.len() ==> sorted@[i] <= sorted@[j],
    ensures
        r == interpolate(sorted@, p as int),
{
    let n = sorted.len();
    if n == 0 {
        return 0;
    }
    proof {
        lemma_rank_in_range(n as int, p as int);
    }
    let scaled: u128 = p as u128 * (n - 1) as u128;
    let below = (scaled / 100) as usize;
    let part = scaled % 100;
    if part == 0 {
        sorted[below]
    } else {
        let low = sorted[below];
        let high = sorted[below + 1];
        let span = (high - low) as u128;
        assert(span * part <= span * 100) by (nonlinear_arith)
            requires
                0 <= part < 100,
                0 <= span,
        ;
        let rise = span * part / 100;
        low + rise as u64
    }
}

} // verus!
