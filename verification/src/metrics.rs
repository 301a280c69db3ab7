//! The values the monitor exports, as plain numbers. Counters only grow and
//! stop at `u64::MAX`; gauges hold the latest value.

use vstd::prelude::*;
use crate::error::MonitorError;
use crate::fork_detector::Classification;
use crate::gas_oracle::FeeRecommendation;
use crate::header::BlockHeader;

verus! {

/// Name of the gauge for the height of the canonical tip.
pub const CURRENT_HEIGHT: &'static str = "etc_mordor_current_height";

/// Name of the counter of reorgs. It is split by the label [`RESOLUTION_LABEL`].
pub const REORGS_TOTAL: &'static str = "etc_mordor_reorgs_total";

/// Name of the label that splits the reorg counter.
pub const RESOLUTION_LABEL: &'static str = "resolution";

/// Value of the label for reorgs whose divergence was found.
pub const RESOLVED: &'static str = "resolved";

/// Value of the label for reorgs whose divergence lies beyond the window.
pub const UNRESOLVED: &'static str = "unresolved";

/// Name of the histogram of reorg depths.
pub const REORG_DEPTH: &'static str = "etc_mordor_reorg_depth";

/// Name of the counter of observations that lay above a gap.
pub const GAPS_TOTAL: &'static str = "etc_mordor_gaps_total";

/// Name of the counter of the heights that such observations skipped.
pub const MISSING_BLOCKS_TOTAL: &'static str = "etc_mordor_missing_blocks_total";

/// Name of the counter of abandoned polls.
pub const POLL_ERRORS_TOTAL: &'static str = "etc_mordor_poll_errors_total";

/// Name of the counter of polls abandoned for a malformed block.
pub const MALFORMED_BLOCKS_TOTAL: &'static str = "etc_mordor_malformed_blocks_total";

/// Name of the counter of polls that found the head unchanged.
pub const STALLS_TOTAL: &'static str = "etc_mordor_stalls_total";

/// Name of the counter of ticks skipped while a poll was in flight.
pub const SKIPPED_TICKS_TOTAL: &'static str = "etc_mordor_skipped_ticks_total";

/// Name of the counter of gas price samples rejected as out of range.
pub const GAS_SAMPLES_REJECTED_TOTAL: &'static str = "etc_mordor_gas_samples_rejected_total";

/// Name of the gauge for the share of its gas limit that the latest block used.
pub const GAS_USED_RATIO: &'static str = "etc_mordor_gas_used_ratio";

/// Name of the gauge for the seconds between the latest two blocks.
pub const BLOCK_TIME_SECONDS: &'static str = "etc_mordor_block_time_seconds";

/// Name of the gauge for the lowest gas price in the window, in wei.
pub const GAS_PRICE_MIN_WEI: &'static str = "etc_mordor_gas_price_min_wei";

/// Name of the gauge for the median gas price in the window, in wei.
pub const GAS_PRICE_MEDIAN_WEI: &'static str = "etc_mordor_gas_price_median_wei";

/// Name of the gauge for the 75th percentile of the gas prices in the window, in wei.
pub const GAS_PRICE_P75_WEI: &'static str = "etc_mordor_gas_price_p75_wei";

/// Name of the gauge for the highest gas price in the window, in wei.
pub const GAS_PRICE_MAX_WEI: &'static str = "etc_mordor_gas_price_max_wei";

/// Name of the gauge for the mean gas utilization, in percent.
pub const GAS_UTILIZATION_PERCENT: &'static str = "etc_mordor_gas_utilization_percent";

/// One more, unless the counter has reached `u64::MAX`.
pub open spec fn bumped(x: u64) -> u64 {
    if x < u64::MAX {
        (x + 1) as u64
    } else {
        x
    }
}

/// The sum, or `u64::MAX` if the sum is larger.
pub open spec fn raised(x: u64, by: u64) -> u64 {
    if x + by <= u64::MAX {
        (x + by) as u64
    } else {
        u64::MAX
    }
}

/// The share `used / limit` in hundredths of a percent, rounded down; zero
/// for a limit of zero.
pub open spec fn ratio_bp(used: u64, limit: u64) -> int {
    if limit == 0 {
        0
    } else {
        used * 10000 / (limit as int)
    }
}

/// The seconds from the block observed before to this one; zero for the
/// first block, and for a block that is not younger than the one before.
pub open spec fn time_delta(previous: Option<u64>, timestamp: u64) -> u64 {
    match previous {
        Some(t) => if t <= timestamp {
            (timestamp - t) as u64
        } else {
            0
        },
        None => 0,
    }
}

/// The exported values.
#[derive(Clone, Copy, Debug, PartialEq, Eq, Structural)]
pub struct Metrics {
    /// Gauge: height of the canonical tip.
    pub current_height: u64,
    /// Counter: reorgs whose divergence was found.
    pub reorgs_resolved: u64,
    /// Counter: reorgs whose divergence lies beyond the window.
    pub reorgs_unresolved: u64,
    /// Summary: the depths of all reorgs added up. Their number is the sum
    /// of the two reorg counters.
    pub reorg_depth_sum: u64,
    /// Gauge: depth of the latest reorg.
    pub last_reorg_depth: u64,
    /// Counter: observations that lay more than one block above the tip.
    pub gaps: u64,
    /// Counter: the heights that such observations skipped.
    pub missing_blocks: u64,
    /// Counter: polls that were abandoned.
    pub poll_errors: u64,
    /// Counter: polls abandoned for a malformed block.
    pub malformed_blocks: u64,
    /// Counter: polls that found the head unchanged.
    pub stalls: u64,
    /// Counter: ticks skipped because a poll was still in flight.
    pub skipped_ticks: u64,
    /// Counter: gas price samples rejected as out of range.
    pub rejected_samples: u64,
    /// Gauge: lowest gas price in the window, in wei.
    pub gas_price_min_wei: u64,
    /// Gauge: median gas price, in wei.
    pub gas_price_median_wei: u64,
    /// Gauge: 75th percentile of the gas prices, in wei.
    pub gas_price_p75_wei: u64,
    /// Gauge: highest gas price in the window, in wei.
    pub gas_price_max_wei: u64,
    /// Gauge: mean gas utilization in hundredths of a percent.
    pub gas_utilization_bp: u64,
    /// Gauge: `gas_used / gas_limit` of the latest block, in hundredths of a percent.
    pub gas_used_ratio_bp: u64,
    /// Gauge: seconds between the latest block and the one observed before it.
    pub block_time_delta: u64,
}

impl Metrics {
    /// All values at zero.
    pub open spec fn zero() -> Metrics {
        Metrics {
            current_height: 0,
            reorgs_resolved: 0,
            reorgs_unresolved: 0,
            reorg_depth_sum: 0,
            last_reorg_depth: 0,
            gaps: 0,
            missing_blocks: 0,
            poll_errors: 0,
            malformed_blocks: 0,
            stalls: 0,
            skipped_ticks: 0,
            rejected_samples: 0,
            gas_price_min_wei: 0,
            gas_price_median_wei: 0,
            gas_price_p75_wei: 0,
            gas_price_max_wei: 0,
            gas_utilization_bp: 0,
            gas_used_ratio_bp: 0,
            block_time_delta: 0,
        }
    }

    /// The metrics after an abandoned poll.
    pub open spec fn with_poll_error(self, error: MonitorError) -> Metrics {
        Metrics {
            poll_errors: bumped(self.poll_errors),
            malformed_blocks: if error == MonitorError::MalformedBlockError {
                bumped(self.malformed_blocks)
            } else {
                self.malformed_blocks
            },
            ..self
        }
    }

    /// The metrics after a poll that found the head unchanged.
    pub open spec fn with_stall(self) -> Metrics {
        Metrics { stalls: bumped(self.stalls), ..self }
    }

    /// The metrics after a skipped tick.
    pub open spec fn with_skipped_tick(self) -> Metrics {
        Metrics { skipped_ticks: bumped(self.skipped_ticks), ..self }
    }

    /// The metrics after an observation of this classification.
    pub open spec fn with_classification(self, c: Classification) -> Metrics {
        match c {
            Classification::Reorg { depth, unresolved } => Metrics {
                reorgs_resolved: if unresolved {
                    self.reorgs_resolved
                } else {
                    bumped(self.reorgs_resolved)
                },
                reorgs_unresolved: if unresolved {
                    bumped(self.reorgs_unresolved)
                } else {
                    self.reorgs_unresolved
                },
                reorg_depth_sum: raised(self.reorg_depth_sum, depth),
                last_reorg_depth: depth,
                ..self
            },
            Classification::Gap { missing } => Metrics {
                gaps: bumped(self.gaps),
                missing_blocks: raised(self.missing_blocks, missing),
                ..self
            },
            _ => self,
        }
    }

    /// The metrics after `header` was taken in, the tip then being at
    /// `tip_height`, and the block observed before having had the timestamp
    /// `previous`.
    pub open spec fn with_block(self, header: BlockHeader, tip_height: u64, previous: Option<u64>)
        -> Metrics {
        Metrics {
            current_height: tip_height,
            gas_used_ratio_bp: if ratio_bp(header.gas_used, header.gas_limit) <= u64::MAX {
                ratio_bp(header.gas_used, header.gas_limit) as u64
            } else {
                u64::MAX
            },
            block_time_delta: time_delta(previous, header.timestamp),
            ..self
        }
    }

    /// The metrics after the gas figures were refreshed.
    pub open spec fn with_gas(self, fees: FeeRecommendation, utilization: u64, rejected: u64)
        -> Metrics {
        Metrics {
            gas_price_min_wei: fees.slow,
            gas_price_median_wei: fees.standard,
            gas_price_p75_wei: fees.fast,
            gas_price_max_wei: fees.instant,
            gas_utilization_bp: utilization,
            rejected_samples: rejected,
            ..self
        }
    }

    /// Metrics with all values at zero.
    pub fn new() -> (r: Metrics)
        ensures
            r == Metrics::zero(),
    {
        Metrics {
            current_height: 0,
            reorgs_resolved: 0,
            reorgs_unresolved: 0,
            reorg_depth_sum: 0,
            last_reorg_depth: 0,
            gaps: 0,
            missing_blocks: 0,
            poll_errors: 0,
            malformed_blocks: 0,
            stalls: 0,
            skipped_ticks: 0,
            rejected_samples: 0,
            gas_price_min_wei: 0,
            gas_price_median_wei: 0,
            gas_price_p75_wei: 0,
            gas_price_max_wei: 0,
            gas_utilization_bp: 0,
            gas_used_ratio_bp: 0,
            block_time_delta: 0,
        }
    }

    /// Counts an abandoned poll.
    pub fn note_poll_error(&mut self, error: MonitorError)
        ensures
            *final(self) == old(self).with_poll_error(error),
    {
        self.poll_errors = bump(self.poll_errors);
        match error {
            MonitorError::MalformedBlockError => {
                self.malformed_blocks = bump(self.malformed_blocks);
            },
            _ => {},
        }
    }

    /// Counts a poll that found the head unchanged.
    pub fn note_stall(&mut self)
        ensures
            *final(self) == old(self).with_stall(),
    {
        self.stalls = bump(self.stalls);
    }

    /// Counts a skipped tick.
    pub fn note_skipped_tick(&mut self)
        ensures
            *final(self) == old(self).with_skipped_tick(),
    {
        self.skipped_ticks = bump(self.skipped_ticks);
    }

    /// Counts what an observation was classified as.
    pub fn note_classification(&mut self, c: Classification)
        ensures
            *final(self) == old(self).with_classification(c),
    {
        match c {
            Classification::Reorg { depth, unresolved } => {
                if unresolved {
                    self.reorgs_unresolved = bump(self.reorgs_unresolved);
                } else {
                    self.reorgs_resolved = bump(self.reorgs_resolved);
                }
                self.reorg_depth_sum = raise(self.reorg_depth_sum, depth);
                self.last_reorg_depth = depth;
            },
            Classification::Gap { missing } => {
                self.gaps = bump(self.gaps);
                self.missing_blocks = raise(self.missing_blocks, missing);
            },
            _ => {},
        }
    }

    /// Sets the gauges that describe the latest block.
    pub fn note_block(&mut self, header: &BlockHeader, tip_height: u64, previous: Option<u64>)
        ensures
            *final(self) == old(self).with_block(*header, tip_height, previous),
    {
        self.current_height = tip_height;
        self.gas_used_ratio_bp = used_ratio(header.gas_used, header.gas_limit);
        self.block_time_delta = match previous {
            Some(t) => if t <= header.timestamp {
                header.timestamp - t
            } else {
                0
            },
            None => 0,
        };
    }

    /// Sets the gauges that describe the gas price window.
    pub fn note_gas(&mut self, fees: FeeRecommendation, utilization: u64, rejected: u64)
        ensures
            *final(self) == old(self).with_gas(fees, utilization, rejected),
    {
        self.gas_price_min_wei = fees.slow;
        self.gas_price_median_wei = fees.standard;
        self.gas_price_p75_wei = fees.fast;
        self.gas_price_max_wei = fees.instant;
        self.gas_utilization_bp = utilization;
        self.rejected_samples = rejected;
    }
}

/// One more, unless the counter has reached `u64::MAX`.
pub fn bump(x: u64) -> (r: u64)
    ensures
        r == bumped(x),
{
    if x < u64::MAX {
        x + 1
    } else {
        x
    }
}

/// The sum, or `u64::MAX` if the sum is larger.
pub fn raise(x: u64, by: u64) -> (r: u64)
    ensures
        r == raised(x, by),
{
    if by <= u64::MAX - x {
        x + by
    } else {
        u64::MAX
    }
}

/// What a signed 64-bit gauge shows for a value: the value itself, or
/// `i64::MAX` where the value is larger than that.
pub open spec fn shown_by_gauge(value: u64) -> i64 {
    if value <= i64::MAX {
        value as i64
    } else {
        i64::MAX
    }
}

/// By how much a counter that shows `shown` has to grow to show `value`:
/// nothing where it shows that much already, for a counter never shrinks.
pub open spec fn step_to(shown: u64, value: u64) -> u64 {
    if value > shown {
        (value - shown) as u64
    } else {
        0
    }
}

/// The upper bounds of the buckets by which reorg depths are counted.
pub open spec fn depth_bounds() -> Seq<u64> {
    seq![1, 2, 3, 5, 8, 13, 21, 34, 55, 100]
}

/// What a signed 64-bit gauge shows for `value`.
pub fn gauge_value(value: u64) -> (r: i64)
    ensures
        r == shown_by_gauge(value),
{
    if value <= i64::MAX as u64 {
        value as i64
    } else {
        i64::MAX
    }
}

/// By how much a counter that shows `shown` has to grow to show `value`.
pub fn counter_step(shown: u64, value: u64) -> (r: u64)
    ensures
        r == step_to(shown, value),
        shown + r == if value > shown {
            value
        } else {
            shown
        },
{
    if value > shown {
        value - shown
    } else {
        0
    }
}

/// The upper bounds of the buckets by which reorg depths are counted, in
/// increasing order.
pub fn reorg_depth_buckets() -> (r: Vec<u64>)
    ensures
        r@ == depth_bounds(),
{
    let mut r: Vec<u64> = Vec::new();
    r.push(1);
    r.push(2);
    r.push(3);
    r.push(5);
    r.push(8);
    r.push(13);
    r.push(21);
    r.push(34);
    r.push(55);
    r.push(100);
    assert(r@ =~= depth_bounds());
    r
}

/// The share `used / limit` in hundredths of a percent, rounded down: zero
/// for a limit of zero, and `u64::MAX` where the share is larger than that.
pub fn used_ratio(used: u64, limit: u64) -> (r: u64)
    ensures
        r == if ratio_bp(used, limit) <= u64::MAX {
            ratio_bp(used, limit) as u64
        } else {
            u64::MAX
        },
{
    if limit == 0 {
        0
    } else {
        let scaled: u128 = used as u128 * 10000 / limit as u128;
        if scaled <= u64::MAX as u128 {
            scaled as u64
        } else {
            u64::MAX
        }
    }
}

} // verus!
