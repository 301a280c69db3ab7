//! The blockchain monitor: the decisions of one poll.
//!
//! A poll alternates between asking the chain data source and deciding what
//! to make of its answers. The asking is left to the caller. The monitor is
//! the deciding half: a state machine that is handed each answer as an event
//! and says what to do next. A tick that arrives while a poll is in flight
//! is skipped, so that polls never overlap.

use vstd::prelude::*;
use crate::error::{ConfigError, MonitorError};
use crate::fork_detector::{
    agrees_below, classify, lemma_next_window_valid, next_window, reorg_event, stored_at,
    valid_window, Classification, ForkDetector, Observation, ReorgEvent,
};
use crate::fork_laws::law_observed_is_stored;
use crate::gas_oracle::{
    after_arrivals, keep_last, mean_utilization, percentile_of, rejected_after, samples_of,
    valid_blocks, valid_samples, without, BlockUsage, FeeRecommendation, GasPriceOracle,
    GasSample,
};
use crate::header::BlockHeader;
use crate::metrics::Metrics;

verus! {

/// The number of heights that the header window spans unless told otherwise.
pub const DEFAULT_WINDOW_CAPACITY: u64 = 100;

/// The number of gas price samples that are kept unless told otherwise.
pub const DEFAULT_SAMPLE_CAPACITY: usize = 2000;

/// How often the caller should ask for each block of a backfill or of an
/// ancestry before it gives that block up.
pub const FETCH_ATTEMPTS: u32 = 3;

/// Where the monitor stands within a poll.
#[derive(Clone, Copy, Debug, PartialEq, Eq, Structural)]
pub enum Phase {
    /// No poll is in flight.
    Idle,
    /// The head height was asked for.
    AwaitingHead,
    /// The block at `height` was asked for.
    AwaitingBlock { height: u64 },
}

/// What to do on a tick of the timer.
#[derive(Clone, Copy, Debug, PartialEq, Eq, Structural)]
pub enum TickAction {
    /// A poll is still in flight: let this tick pass.
    Skip,
    /// Ask the chain data source for its head height.
    QueryHead,
}

/// What to do once the head height is known, or known to be unavailable.
#[derive(Clone, Copy, Debug, PartialEq, Eq, Structural)]
pub enum HeadAction {
    /// The monitor had not asked for the head height; nothing changed.
    OutOfTurn,
    /// The head height could not be had; the poll is over.
    Failed,
    /// The head has not moved since the last successful poll; the poll is over.
    Stalled,
    /// Fetch the block at `height`, with its transactions.
    Fetch { height: u64 },
}

/// Which further blocks would help to place a header.
#[derive(Clone, Copy, Debug, PartialEq, Eq, Structural)]
pub enum FetchPlan {
    /// The header can be placed as it is.
    Nothing,
    /// The header lies above a gap that is narrower than the window: the
    /// blocks from `first` to `last`, lowest first, would close it.
    Backfill { first: u64, last: u64 },
    /// The header does not build on the stored chain: its ancestors from
    /// `highest` down to `lowest` would show where its branch leaves it.
    Ancestors { highest: u64, lowest: u64 },
}

/// A block as the chain data source delivered it: its header, and the gas
/// price of each of its transactions.
#[derive(Debug, PartialEq, Eq)]
pub struct FetchedBlock {
    pub header: BlockHeader,
    pub gas_prices: Vec<u64>,
}

/// The further blocks that come with a fetched block.
#[derive(Debug, PartialEq, Eq)]
pub enum Supplement {
    /// None.
    Nothing,
    /// The blocks between the stored tip and the fetched block, lowest first.
    Backfill(Vec<FetchedBlock>),
    /// Ancestors of the fetched block, nearest first.
    Ancestors(Vec<BlockHeader>),
}

/// How the handling of a fetched block ended.
#[derive(Clone, Copy, Debug, PartialEq, Eq)]
pub enum PollOutcome {
    /// The monitor had not asked for a block; nothing changed.
    OutOfTurn,
    /// The block was malformed and the poll was abandoned.
    Rejected(MonitorError),
    /// The block was observed.
    Applied { classification: Classification, reorg: Option<ReorgEvent> },
}

/// The condition, if any, that an outcome stands for.
pub open spec fn condition_of(outcome: PollOutcome) -> Option<MonitorError> {
    match outcome {
        PollOutcome::Rejected(e) => Some(e),
        PollOutcome::Applied {
            classification: Classification::Reorg { depth, unresolved: true },
            reorg,
        } => Some(MonitorError::UnresolvableReorg),
        _ => None,
    }
}

impl PollOutcome {
    /// The condition that this outcome stands for: the reason for which a
    /// block was rejected, an unresolvable reorg where the block was taken in
    /// as one, and none otherwise.
    pub fn condition(&self) -> (r: Option<MonitorError>)
        ensures
            r == condition_of(*self),
    {
        match self {
            PollOutcome::Rejected(e) => Some(*e),
            PollOutcome::Applied { classification, reorg: _ } => match classification {
                Classification::Reorg { depth: _, unresolved } => {
                    if *unresolved {
                        Some(MonitorError::UnresolvableReorg)
                    } else {
                        None
                    }
                },
                _ => None,
            },
            PollOutcome::OutOfTurn => None,
        }
    }
}

/// The state of a monitor.
pub struct MonitorState {
    /// The window of canonical headers, lowest first.
    pub chain: Seq<BlockHeader>,
    pub window_limit: nat,
    /// The window of gas price samples, oldest first.
    pub samples: Seq<GasSample>,
    /// The blocks whose gas usage is known.
    pub blocks: Seq<BlockUsage>,
    pub sample_limit: nat,
    /// How many samples were rejected.
    pub rejected: nat,
    pub metrics: Metrics,
    pub phase: Phase,
    /// The head height of the last successful poll.
    pub last_head: Option<u64>,
    /// The timestamp of the block observed last.
    pub last_timestamp: Option<u64>,
}

/// The gas usage that a header reports.
pub open spec fn usage_of(header: BlockHeader) -> BlockUsage {
    BlockUsage { height: header.height, gas_used: header.gas_used, gas_limit: header.gas_limit }
}

/// The four fee levels of a sample window.
pub open spec fn fees_of(samples: Seq<GasSample>) -> FeeRecommendation {
    FeeRecommendation {
        slow: percentile_of(samples, 0) as u64,
        standard: percentile_of(samples, 50) as u64,
        fast: percentile_of(samples, 75) as u64,
        instant: percentile_of(samples, 100) as u64,
    }
}

/// Which further blocks would help to place `header` on this chain, in a
/// window of this capacity. A gap of `capacity` heights or more is left open:
/// once it were closed, nothing of the stored chain would be left in the window.
pub open spec fn plan_for(chain: Seq<BlockHeader>, capacity: nat, header: BlockHeader)
    -> FetchPlan {
    if chain.len() == 0 {
        FetchPlan::Nothing
    } else if header.height > chain.last().height + 1 {
        if header.height - chain.last().height - 1 < capacity {
            FetchPlan::Backfill {
                first: (chain.last().height + 1) as u64,
                last: (header.height - 1) as u64,
            }
        } else {
            FetchPlan::Nothing
        }
    } else if stored_at(chain, header.height as int) matches Some(s) && s.hash == header.hash {
        FetchPlan::Nothing
    } else if agrees_below(chain, header) {
        FetchPlan::Nothing
    } else if header.height >= chain[0].height + 2 {
        FetchPlan::Ancestors {
            highest: (header.height - 1) as u64,
            lowest: (chain[0].height + 1) as u64,
        }
    } else {
        FetchPlan::Nothing
    }
}

impl MonitorState {
    /// The invariants of the two windows.
    pub open spec fn wf(self) -> bool {
        &&& valid_window(self.chain, self.window_limit)
        &&& valid_samples(self.samples, self.sample_limit)
        &&& valid_blocks(self.blocks, self.sample_limit)
        &&& self.window_limit <= u64::MAX
        &&& self.rejected <= u64::MAX
    }

    /// A tick: skipped while a poll is in flight, else the start of a poll.
    pub open spec fn tick(self) -> (MonitorState, TickAction) {
        if self.phase == Phase::Idle {
            (MonitorState { phase: Phase::AwaitingHead, ..self }, TickAction::QueryHead)
        } else {
            (
                MonitorState { metrics: self.metrics.with_skipped_tick(), ..self },
                TickAction::Skip,
            )
        }
    }

    /// The head height arrived, or `None` in its place if it could not be had.
    pub open spec fn head_received(self, head: Option<u64>) -> (MonitorState, HeadAction) {
        if self.phase != Phase::AwaitingHead {
            (self, HeadAction::OutOfTurn)
        } else {
            match head {
                None => (
                    MonitorState {
                        metrics: self.metrics.with_poll_error(MonitorError::TransientRpcError),
                        phase: Phase::Idle,
                        ..self
                    },
                    HeadAction::Failed,
                ),
                Some(h) => if self.last_head == Some(h) {
                    (
                        MonitorState {
                            metrics: self.metrics.with_stall(),
                            phase: Phase::Idle,
                            ..self
                        },
                        HeadAction::Stalled,
                    )
                } else {
                    (
                        MonitorState { phase: Phase::AwaitingBlock { height: h }, ..self },
                        HeadAction::Fetch { height: h },
                    )
                },
            }
        }
    }

    /// The block that was asked for could not be had.
    pub open spec fn fetch_failed(self, error: MonitorError) -> MonitorState {
        if self.phase is AwaitingBlock {
            MonitorState {
                metrics: self.metrics.with_poll_error(error),
                phase: Phase::Idle,
                ..self
            }
        } else {
            self
        }
    }

    /// One block is taken in: the detector observes its header, and unless
    /// that is a duplicate, its gas prices and its gas usage are recorded and
    /// the block gauges are set.
    pub open spec fn ingest(
        self,
        header: BlockHeader,
        prices: Seq<u64>,
        ancestors: Seq<BlockHeader>,
    ) -> MonitorState {
        let c = classify(self.chain, self.window_limit, header, ancestors);
        let chain = next_window(self.chain, self.window_limit, header, ancestors);
        if c == Classification::Duplicate {
            self
        } else {
            MonitorState {
                chain,
                samples: after_arrivals(
                    self.samples,
                    self.sample_limit,
                    samples_of(prices, header.height),
                ),
                blocks: if header.gas_is_valid() {
                    keep_last(
                        without(self.blocks, header.height).push(usage_of(header)),
                        self.sample_limit,
                    )
                } else {
                    self.blocks
                },
                rejected: rejected_after(self.rejected, prices),
                metrics: self.metrics.with_classification(c).with_block(
                    header,
                    chain.last().height,
                    self.last_timestamp,
                ),
                last_timestamp: Some(header.timestamp),
                ..self
            }
        }
    }

    /// This block may be taken in as backfill: it is well formed and its
    /// parent is the stored tip.
    pub open spec fn extends_tip(self, header: BlockHeader) -> bool {
        &&& self.chain.len() > 0
        &&& self.chain.last().is_parent_of(header)
        &&& header.gas_is_valid()
    }

    /// The blocks of a backfill are taken in one by one, up to the first
    /// that does not extend the tip.
    pub open spec fn ingest_backfill(self, blocks: Seq<FetchedBlock>) -> MonitorState
        decreases blocks.len(),
    {
        if blocks.len() == 0 || !self.extends_tip(blocks[0].header) {
            self
        } else {
            self.ingest(blocks[0].header, blocks[0].gas_prices@, Seq::empty()).ingest_backfill(
                blocks.drop_first(),
            )
        }
    }

    /// The gas gauges are set from the two windows.
    pub open spec fn refreshed(self) -> MonitorState {
        MonitorState {
            metrics: self.metrics.with_gas(
                fees_of(self.samples),
                mean_utilization(self.blocks, self.samples) as u64,
                self.rejected as u64,
            ),
            ..self
        }
    }

    /// The state in which the backfill of a supplement has been taken in.
    pub open spec fn filled(self, supplement: Supplement) -> MonitorState {
        match supplement {
            Supplement::Backfill(blocks) => self.ingest_backfill(blocks@),
            _ => self,
        }
    }

    /// The block that was asked for arrived.
    ///
    /// A block of another height than the one asked for, or with gas figures
    /// that describe no block, is malformed: the poll is abandoned. Else the
    /// backfill is taken in, then the block itself, and the poll has succeeded.
    pub open spec fn block_received(self, block: FetchedBlock, supplement: Supplement) -> (
        MonitorState,
        PollOutcome,
    ) {
        match self.phase {
            Phase::AwaitingBlock { height } => {
                if block.header.height != height || !block.header.gas_is_valid() {
                    (
                        MonitorState {
                            metrics: self.metrics.with_poll_error(
                                MonitorError::MalformedBlockError,
                            ),
                            phase: Phase::Idle,
                            ..self
                        },
                        PollOutcome::Rejected(MonitorError::MalformedBlockError),
                    )
                } else {
                    let filled = self.filled(supplement);
                    let ancestors = ancestors_of(supplement);
                    let after = filled.ingest(
                        block.header,
                        block.gas_prices@,
                        ancestors,
                    ).refreshed();
                    (
                        MonitorState { phase: Phase::Idle, last_head: Some(height), ..after },
                        PollOutcome::Applied {
                            classification: classify(
                                filled.chain,
                                filled.window_limit,
                                block.header,
                                ancestors,
                            ),
                            reorg: reorg_event(
                                filled.chain,
                                filled.window_limit,
                                block.header,
                                ancestors,
                            ),
                        },
                    )
                }
            },
            _ => (self, PollOutcome::OutOfTurn),
        }
    }
}

/// The ancestors that a supplement holds.
pub open spec fn ancestors_of(supplement: Supplement) -> Seq<BlockHeader> {
    match supplement {
        Supplement::Ancestors(a) => a@,
        _ => Seq::empty(),
    }
}

/// Taking a block in keeps the invariants of both windows.
pub proof fn lemma_ingest_wf(
    s: MonitorState,
    header: BlockHeader,
    prices: Seq<u64>,
    ancestors: Seq<BlockHeader>,
)
    requires
        s.wf(),
    ensures
        s.ingest(header, prices, ancestors).wf(),
        s.ingest(header, prices, ancestors).window_limit == s.window_limit,
        s.ingest(header, prices, ancestors).sample_limit == s.sample_limit,
        s.ingest(header, prices, ancestors).phase == s.phase,
        s.ingest(header, prices, ancestors).last_head == s.last_head,
{
    lemma_next_window_valid(s.chain, s.window_limit, header, ancestors);
    crate::gas_oracle::lemma_arrivals_valid(
        s.samples,
        s.sample_limit,
        samples_of(prices, header.height),
    );
    if header.gas_is_valid() {
        crate::gas_oracle::lemma_replace_block_valid(s.blocks, s.sample_limit, usage_of(header));
    }
}

/// The blockchain monitor.
pub struct BlockchainMonitor {
    detector: ForkDetector,
    oracle: GasPriceOracle,
    metrics: Metrics,
    phase: Phase,
    last_head: Option<u64>,
    last_timestamp: Option<u64>,
}

impl View for BlockchainMonitor {
    type V = MonitorState;

    closed spec fn view(&self) -> MonitorState {
        MonitorState {
            chain: self.detector@.window,
            window_limit: self.detector@.capacity,
            samples: self.oracle@.samples,
            blocks: self.oracle@.blocks,
            sample_limit: self.oracle@.capacity,
            rejected: self.oracle@.rejected,
            metrics: self.metrics,
            phase: self.phase,
            last_head: self.last_head,
            last_timestamp: self.last_timestamp,
        }
    }
}

impl BlockchainMonitor {
    /// The monitor's invariant: that of its two windows.
    pub closed spec fn wf(&self) -> bool {
        &&& self.detector.wf()
        &&& self.oracle.wf()
    }

    /// A well-formed monitor has a well-formed state.
    pub proof fn lemma_wf(&self)
        requires
            self.wf(),
        ensures
            self@.wf(),
    {
        self.detector.lemma_limit_bound();
        self.oracle.lemma_bounds();
    }

    /// An idle monitor with empty windows: one of headers that spans at most
    /// `window_capacity` heights, one of at most `sample_capacity` gas prices.
    pub fn new(window_capacity: u64, sample_capacity: usize) -> (r: Result<
        BlockchainMonitor,
        ConfigError,
    >)
        ensures
            r.is_err() <==> window_capacity == 0 || sample_capacity == 0,
            r matches Err(e) ==> e == ConfigError::ZeroCapacity,
            r matches Ok(m) ==> m.wf() && m@ == (MonitorState {
                chain: Seq::empty(),
                window_limit: window_capacity as nat,
                samples: Seq::empty(),
                blocks: Seq::empty(),
                sample_limit: sample_capacity as nat,
                rejected: 0,
                metrics: Metrics::zero(),
                phase: Phase::Idle,
                last_head: None,
                last_timestamp: None,
            }),
    {
        let detector = match ForkDetector::new(window_capacity) {
            Ok(d) => d,
            Err(e) => {
                return Err(e);
            },
        };
        let oracle = match GasPriceOracle::new(sample_capacity) {
            Ok(o) => o,
            Err(e) => {
                return Err(e);
            },
        };
        Ok(
            BlockchainMonitor {
                detector,
                oracle,
                metrics: Metrics::new(),
                phase: Phase::Idle,
                last_head: None,
                last_timestamp: None,
            },
        )
    }

    /// The exported values as they stand.
    pub fn metrics(&self) -> (r: Metrics)
        ensures
            r == self@.metrics,
    {
        self.metrics
    }

    /// Where the monitor stands within a poll.
    pub fn phase(&self) -> (r: Phase)
        ensures
            r == self@.phase,
    {
        self.phase
    }

    /// The fork detector.
    pub fn detector(&self) -> (r: &ForkDetector)
        ensures
            r@.window == self@.chain,
            r@.capacity == self@.window_limit,
            self.wf() ==> r.wf(),
    {
        &self.detector
    }

    /// The gas price oracle.
    pub fn oracle(&self) -> (r: &GasPriceOracle)
        ensures
            r@.samples == self@.samples,
            r@.blocks == self@.blocks,
            r@.capacity == self@.sample_limit,
            r@.rejected == self@.rejected,
            self.wf() ==> r.wf(),
    {
        &self.oracle
    }

    /// A tick of the timer.
    pub fn tick(&mut self) -> (r: TickAction)
        requires
            old(self).wf(),
        ensures
            final(self).wf(),
            (final(self)@, r) == old(self)@.tick(),
    {
        match self.phase {
            Phase::Idle => {
                self.phase = Phase::AwaitingHead;
                TickAction::QueryHead
            },
            _ => {
                self.metrics.note_skipped_tick();
                TickAction::Skip
            },
        }
    }

    /// The chain data source answered the question for its head height:
    /// `Some` height, or `None` if it failed to answer.
    pub fn head_received(&mut self, head: Option<u64>) -> (r: HeadAction)
        requires
            old(self).wf(),
        ensures
            final(self).wf(),
            (final(self)@, r) == old(self)@.head_received(head),
    {
        match self.phase {
            Phase::AwaitingHead => {},
            _ => {
                return HeadAction::OutOfTurn;
            },
        }
        match head {
            None => {
                self.metrics.note_poll_error(MonitorError::TransientRpcError);
                self.phase = Phase::Idle;
                HeadAction::Failed
            },
            Some(h) => {
                let unchanged = match self.last_head {
                    Some(l) => l == h,
                    None => false,
                };
                if unchanged {
                    self.metrics.note_stall();
                    self.phase = Phase::Idle;
                    HeadAction::Stalled
                } else {
                    self.phase = Phase::AwaitingBlock { height: h };
                    HeadAction::Fetch { height: h }
                }
            },
        }
    }

    /// The block that was asked for could not be had, for the reason given.
    /// The poll is abandoned and counted. Answers whether the monitor had
    /// asked for a block at all; if not, nothing changes.
    pub fn fetch_failed(&mut self, error: MonitorError) -> (r: bool)
        requires
            old(self).wf(),
        ensures
            final(self).wf(),
            final(self)@ == old(self)@.fetch_failed(error),
            r == (old(self)@.phase is AwaitingBlock),
    {
        match self.phase {
            Phase::AwaitingBlock { height: _ } => {
                self.metrics.note_poll_error(error);
                self.phase = Phase::Idle;
                true
            },
            _ => false,
        }
    }

    /// Which further blocks the caller should try to fetch before it hands
    /// in the block with this header.
    pub fn plan(&self, header: &BlockHeader) -> (r: FetchPlan)
        requires
            self.wf(),
        ensures
            r == plan_for(self@.chain, self@.window_limit, *header),
    {
        let tip = match self.detector.last_known_height() {
            Some(t) => t,
            None => {
                return FetchPlan::Nothing;
            },
        };
        if header.height > tip && header.height - tip > 1 {
            if header.height - tip - 1 < self.detector.capacity() {
                return FetchPlan::Backfill { first: tip + 1, last: header.height - 1 };
            }
            return FetchPlan::Nothing;
        }
        match self.detector.get(header.height) {
            Some(s) => {
                if s.hash == header.hash {
                    return FetchPlan::Nothing;
                }
            },
            None => {},
        }
        if header.height == 0 {
            return FetchPlan::Nothing;
        }
        match self.detector.get(header.height - 1) {
            Some(p) => {
                if p.hash == header.parent_hash {
                    return FetchPlan::Nothing;
                }
            },
            None => {},
        }
        match self.detector.lowest_height() {
            Some(low) => {
                if header.height - 1 > low {
                    FetchPlan::Ancestors { highest: header.height - 1, lowest: low + 1 }
                } else {
                    FetchPlan::Nothing
                }
            },
            None => FetchPlan::Nothing,
        }
    }

    /// Takes one block in.
    fn ingest(&mut self, block: &FetchedBlock, ancestors: &Vec<BlockHeader>) -> (r: Observation)
        requires
            old(self).wf(),
        ensures
            final(self).wf(),
            final(self)@ == old(self)@.ingest(block.header, block.gas_prices@, ancestors@),
            r.classification == classify(
                old(self)@.chain,
                old(self)@.window_limit,
                block.header,
                ancestors@,
            ),
            r.reorg == reorg_event(
                old(self)@.chain,
                old(self)@.window_limit,
                block.header,
                ancestors@,
            ),
    {
        proof {
            law_observed_is_stored(
                self.detector@.window,
                self.detector@.capacity,
                block.header,
                ancestors@,
            );
        }
        let seen = self.detector.observe_branch(block.header, ancestors);
        match seen.classification {
            Classification::Duplicate => {
                return seen;
            },
            _ => {},
        }
        self.oracle.record_all(&block.gas_prices, block.header.height);
        let _ = self.oracle.track_block(
            block.header.height,
            block.header.gas_used,
            block.header.gas_limit,
        );
        let tip = match self.detector.last_known_height() {
            Some(t) => t,
            None => block.header.height,
        };
        self.metrics.note_classification(seen.classification);
        self.metrics.note_block(&block.header, tip, self.last_timestamp);
        self.last_timestamp = Some(block.header.timestamp);
        seen
    }

    /// Takes the blocks of a backfill in, up to the first that does not extend the tip.
    fn ingest_backfill(&mut self, blocks: &Vec<FetchedBlock>)
        requires
            old(self).wf(),
        ensures
            final(self).wf(),
            final(self)@ == old(self)@.ingest_backfill(blocks@),
    {
        let none: Vec<BlockHeader> = Vec::new();
        let mut i: usize = 0;
        assert(blocks@.skip(0) =~= blocks@);
        while i < blocks.len()
            invariant
                i <= blocks@.len(),
                self.wf(),
                none@ == Seq::<BlockHeader>::empty(),
                self@.ingest_backfill(blocks@.skip(i as int)) == old(self)@.ingest_backfill(
                    blocks@,
                ),
            ensures
                self.wf(),
                self@ == old(self)@.ingest_backfill(blocks@),
            decreases blocks@.len() - i,
        {
            let block = &blocks[i];
            assert(blocks@.skip(i as int)[0] == blocks@[i as int]);
            let extends = match self.detector.tip() {
                Some(t) => t.links_to(&block.header) && block.header.has_valid_gas(),
                None => false,
            };
            if !extends {
                break ;
            }
            assert(blocks@.skip(i as int).drop_first() =~= blocks@.skip(i + 1));
            let _ = self.ingest(block, &none);
            i += 1;
        }
    }

    /// Sets the gas gauges from the two windows.
    fn refresh(&mut self)
        requires
            old(self).wf(),
        ensures
            final(self).wf(),
            final(self)@ == old(self)@.refreshed(),
    {
        let fees = self.oracle.recommendation();
        let utilization = self.oracle.average_utilization();
        let rejected = self.oracle.rejected();
        self.metrics.note_gas(fees, utilization, rejected);
    }

    /// The chain data source delivered the block that was asked for,
    /// together with the further blocks that [`BlockchainMonitor::plan`]
    /// named, as far as they could be had.
    ///
    /// The state after the call and the outcome are those that
    /// [`MonitorState::block_received`] describes.
    pub fn block_received(&mut self, block: &FetchedBlock, supplement: &Supplement) -> (r:
        PollOutcome)
        requires
            old(self).wf(),
        ensures
            final(self).wf(),
            (final(self)@, r) == old(self)@.block_received(*block, *supplement),
    {
        let height = match self.phase {
            Phase::AwaitingBlock { height } => height,
            _ => {
                return PollOutcome::OutOfTurn;
            },
        };
        if block.header.height != height || !block.header.has_valid_gas() {
            self.metrics.note_poll_error(MonitorError::MalformedBlockError);
            self.phase = Phase::Idle;
            return PollOutcome::Rejected(MonitorError::MalformedBlockError);
        }
        let seen = match supplement {
            Supplement::Backfill(blocks) => {
                self.ingest_backfill(blocks);
                let none: Vec<BlockHeader> = Vec::new();
                self.ingest(block, &none)
            },
            Supplement::Ancestors(ancestors) => self.ingest(block, ancestors),
            Supplement::Nothing => {
                let none: Vec<BlockHeader> = Vec::new();
                self.ingest(block, &none)
            },
        };
        self.refresh();
        self.phase = Phase::Idle;
        self.last_head = Some(height);
        PollOutcome::Applied { classification: seen.classification, reorg: seen.reorg }
    }
}

} // verus!
