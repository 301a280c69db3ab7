use fork_monitor::blockchain::{
    BlockchainMonitor, FetchPlan, FetchedBlock, HeadAction, Phase, PollOutcome, Supplement,
    TickAction, DEFAULT_SAMPLE_CAPACITY, DEFAULT_WINDOW_CAPACITY, FETCH_ATTEMPTS,
};
use fork_monitor::error::{ConfigError, MonitorError};
use fork_monitor::fork_detector::{Classification, ReorgEvent};
use fork_monitor::header::{BlockHeader, Bytes32};
use fork_monitor::metrics::Metrics;

fn hash(tag: u8, height: u64) -> Bytes32 {
    let mut bytes = [tag; 32];
    bytes[0] = (height % 251) as u8;
    bytes[1] = (height / 251 % 251) as u8;
    Bytes32 { bytes }
}

fn header(tag: u8, parent_tag: u8, height: u64) -> BlockHeader {
    BlockHeader {
        height,
        hash: hash(tag, height),
        parent_hash: hash(parent_tag, height.wrapping_sub(1)),
        timestamp: 1_700_000_000 + 13 * height,
        gas_used: 2_000_000,
        gas_limit: 8_000_000,
        tx_count: 2,
    }
}

fn fetched(tag: u8, parent_tag: u8, height: u64, prices: &[u64]) -> FetchedBlock {
    let mut h = header(tag, parent_tag, height);
    h.tx_count = prices.len() as u32;
    FetchedBlock { header: h, gas_prices: prices.to_vec() }
}

/// One whole poll that finds `block` at the head.
fn poll(m: &mut BlockchainMonitor, block: &FetchedBlock, supplement: &Supplement) -> PollOutcome {
    assert_eq!(m.tick(), TickAction::QueryHead);
    assert_eq!(
        m.head_received(Some(block.header.height)),
        HeadAction::Fetch { height: block.header.height }
    );
    m.block_received(block, supplement)
}

fn applied(c: Classification) -> PollOutcome {
    PollOutcome::Applied { classification: c, reorg: None }
}

fn monitor_at(window: u64, samples: usize, from: u64, to: u64) -> BlockchainMonitor {
    let mut m = BlockchainMonitor::new(window, samples).unwrap();
    for h in from..=to {
        let out = poll(&mut m, &fetched(1, 1, h, &[10, 20, 30, 40]), &Supplement::Nothing);
        assert!(matches!(out, PollOutcome::Applied { .. }));
    }
    m
}

#[test]
fn monitor_needs_both_capacities() {
    assert!(matches!(BlockchainMonitor::new(0, 10), Err(ConfigError::ZeroCapacity)));
    assert!(matches!(BlockchainMonitor::new(10, 0), Err(ConfigError::ZeroCapacity)));
    let m = BlockchainMonitor::new(100, 2000).unwrap();
    assert_eq!(m.phase(), Phase::Idle);
    assert_eq!(m.metrics(), Metrics::new());
    assert!(m.detector().is_empty());
    assert!(m.oracle().is_empty());
}

#[test]
fn first_poll_takes_the_head_in() {
    let mut m = BlockchainMonitor::new(100, 2000).unwrap();
    let out = poll(&mut m, &fetched(1, 1, 500, &[10, 20, 30, 40]), &Supplement::Nothing);
    assert_eq!(out, applied(Classification::NewBlock));
    assert_eq!(m.phase(), Phase::Idle);
    let got = m.metrics();
    assert_eq!(got.current_height, 500);
    assert_eq!(got.gas_price_min_wei, 10);
    assert_eq!(got.gas_price_median_wei, 25);
    assert_eq!(got.gas_price_p75_wei, 32);
    assert_eq!(got.gas_price_max_wei, 40);
    assert_eq!(got.gas_used_ratio_bp, 2500);
    assert_eq!(got.gas_utilization_bp, 2500);
    assert_eq!(got.block_time_delta, 0);
    assert_eq!(got.poll_errors, 0);
    assert_eq!(m.detector().last_known_height(), Some(500));
    assert_eq!(m.oracle().len(), 4);
}

#[test]
fn consecutive_heads_continue_and_time_the_blocks() {
    let mut m = monitor_at(100, 2000, 500, 500);
    let out = poll(&mut m, &fetched(1, 1, 501, &[50]), &Supplement::Nothing);
    assert_eq!(out, applied(Classification::Continuation));
    let got = m.metrics();
    assert_eq!(got.current_height, 501);
    assert_eq!(got.block_time_delta, 13);
    assert_eq!(got.gas_price_max_wei, 50);
    assert_eq!(got.reorgs_resolved + got.reorgs_unresolved, 0);
}

#[test]
fn unchanged_head_is_a_stall_and_changes_no_window() {
    let mut m = monitor_at(100, 2000, 500, 501);
    let before = m.metrics();
    assert_eq!(m.tick(), TickAction::QueryHead);
    assert_eq!(m.head_received(Some(501)), HeadAction::Stalled);
    assert_eq!(m.phase(), Phase::Idle);
    assert_eq!(m.metrics(), Metrics { stalls: 1, ..before });
    assert_eq!(m.detector().len(), 2);
    assert_eq!(m.oracle().len(), 8);
}

#[test]
fn failed_head_query_is_counted_and_the_next_tick_polls_again() {
    let mut m = monitor_at(100, 2000, 500, 501);
    let before = m.metrics();
    assert_eq!(m.tick(), TickAction::QueryHead);
    assert_eq!(m.head_received(None), HeadAction::Failed);
    assert_eq!(m.metrics(), Metrics { poll_errors: 1, ..before });
    assert_eq!(m.tick(), TickAction::QueryHead);
    assert_eq!(m.head_received(Some(502)), HeadAction::Fetch { height: 502 });
}

#[test]
fn failed_fetch_is_counted_and_keeps_the_last_head() {
    let mut m = monitor_at(100, 2000, 500, 501);
    let before = m.metrics();
    assert_eq!(m.tick(), TickAction::QueryHead);
    assert_eq!(m.head_received(Some(502)), HeadAction::Fetch { height: 502 });
    assert_eq!(m.phase(), Phase::AwaitingBlock { height: 502 });
    assert!(m.fetch_failed(MonitorError::TransientRpcError));
    assert_eq!(m.phase(), Phase::Idle);
    assert_eq!(m.metrics(), Metrics { poll_errors: 1, ..before });
    // 502 was not polled with success: it is fetched again, 501 would be a stall
    assert_eq!(m.tick(), TickAction::QueryHead);
    assert_eq!(m.head_received(Some(502)), HeadAction::Fetch { height: 502 });
    assert!(m.fetch_failed(MonitorError::MalformedBlockError));
    assert_eq!(m.metrics(), Metrics { poll_errors: 2, malformed_blocks: 1, ..before });
    assert_eq!(m.tick(), TickAction::QueryHead);
    assert_eq!(m.head_received(Some(501)), HeadAction::Stalled);
}

#[test]
fn tick_during_a_poll_is_skipped() {
    let mut m = BlockchainMonitor::new(100, 2000).unwrap();
    assert_eq!(m.tick(), TickAction::QueryHead);
    assert_eq!(m.tick(), TickAction::Skip);
    assert_eq!(m.phase(), Phase::AwaitingHead);
    assert_eq!(m.head_received(Some(7)), HeadAction::Fetch { height: 7 });
    assert_eq!(m.tick(), TickAction::Skip);
    assert_eq!(m.phase(), Phase::AwaitingBlock { height: 7 });
    assert_eq!(m.metrics().skipped_ticks, 2);
    let out = m.block_received(&fetched(1, 1, 7, &[5]), &Supplement::Nothing);
    assert_eq!(out, applied(Classification::NewBlock));
    assert_eq!(m.tick(), TickAction::QueryHead);
}

#[test]
fn events_out_of_turn_change_nothing() {
    let mut m = monitor_at(100, 2000, 500, 501);
    let before = m.metrics();
    assert_eq!(m.head_received(Some(777)), HeadAction::OutOfTurn);
    assert_eq!(
        m.block_received(&fetched(1, 1, 502, &[5]), &Supplement::Nothing),
        PollOutcome::OutOfTurn
    );
    assert!(!m.fetch_failed(MonitorError::TransientRpcError));
    assert_eq!(m.metrics(), before);
    assert_eq!(m.phase(), Phase::Idle);
    assert_eq!(m.detector().last_known_height(), Some(501));
    assert_eq!(m.tick(), TickAction::QueryHead);
    assert_eq!(
        m.block_received(&fetched(1, 1, 502, &[5]), &Supplement::Nothing),
        PollOutcome::OutOfTurn
    );
    assert!(!m.fetch_failed(MonitorError::TransientRpcError));
    assert_eq!(m.phase(), Phase::AwaitingHead);
}

#[test]
fn malformed_block_abandons_the_poll() {
    let mut m = monitor_at(100, 2000, 500, 501);
    let before = m.metrics();
    // more gas used than the limit allows
    let mut bad = fetched(1, 1, 502, &[5]);
    bad.header.gas_used = bad.header.gas_limit + 1;
    assert_eq!(
        poll(&mut m, &bad, &Supplement::Nothing),
        PollOutcome::Rejected(MonitorError::MalformedBlockError)
    );
    // no gas limit
    let mut bad = fetched(1, 1, 502, &[5]);
    bad.header.gas_limit = 0;
    bad.header.gas_used = 0;
    assert_eq!(
        poll(&mut m, &bad, &Supplement::Nothing),
        PollOutcome::Rejected(MonitorError::MalformedBlockError)
    );
    // not the block that was asked for
    assert_eq!(m.tick(), TickAction::QueryHead);
    assert_eq!(m.head_received(Some(502)), HeadAction::Fetch { height: 502 });
    assert_eq!(
        m.block_received(&fetched(1, 1, 503, &[5]), &Supplement::Nothing),
        PollOutcome::Rejected(MonitorError::MalformedBlockError)
    );
    assert_eq!(m.metrics(), Metrics { poll_errors: 3, malformed_blocks: 3, ..before });
    assert_eq!(m.detector().last_known_height(), Some(501));
    assert_eq!(m.oracle().len(), 8);
    assert_eq!(m.phase(), Phase::Idle);
}

#[test]
fn reorg_is_reported_and_counted() {
    let mut m = monitor_at(100, 2000, 0, 10);
    let out = poll(&mut m, &fetched(2, 1, 8, &[70]), &Supplement::Nothing);
    assert_eq!(
        out,
        PollOutcome::Applied {
            classification: Classification::Reorg { depth: 3, unresolved: false },
            reorg: Some(ReorgEvent {
                divergence_height: 8,
                old_hash: hash(1, 10),
                new_hash: hash(2, 8),
                depth: 3,
                unresolved: false,
            }),
        }
    );
    let got = m.metrics();
    assert_eq!(got.reorgs_resolved, 1);
    assert_eq!(got.reorgs_unresolved, 0);
    assert_eq!(got.reorg_depth_sum, 3);
    assert_eq!(got.last_reorg_depth, 3);
    assert_eq!(got.current_height, 8);
    // the block at 8 is older than the one at 10 that was observed before
    assert_eq!(got.block_time_delta, 0);
    assert_eq!(got.gas_price_max_wei, 70);
}

#[test]
fn unresolved_reorg_resets_the_window_and_is_counted() {
    let mut m = monitor_at(5, 2000, 100, 105);
    let out = poll(&mut m, &fetched(2, 2, 106, &[]), &Supplement::Nothing);
    assert_eq!(
        out,
        PollOutcome::Applied {
            classification: Classification::Reorg { depth: 5, unresolved: true },
            reorg: Some(ReorgEvent {
                divergence_height: 101,
                old_hash: hash(1, 105),
                new_hash: hash(2, 106),
                depth: 5,
                unresolved: true,
            }),
        }
    );
    let got = m.metrics();
    assert_eq!(got.reorgs_unresolved, 1);
    assert_eq!(got.reorgs_resolved, 0);
    assert_eq!(got.reorg_depth_sum, 5);
    assert_eq!(m.detector().len(), 1);
    assert_eq!(got.current_height, 106);
}

#[test]
fn plan_names_what_to_fetch() {
    let empty = BlockchainMonitor::new(100, 2000).unwrap();
    assert_eq!(empty.plan(&header(1, 1, 9)), FetchPlan::Nothing);
    let m = monitor_at(100, 2000, 0, 10);
    // continuation, duplicate, reorg onto a stored parent
    assert_eq!(m.plan(&header(1, 1, 11)), FetchPlan::Nothing);
    assert_eq!(m.plan(&header(1, 1, 10)), FetchPlan::Nothing);
    assert_eq!(m.plan(&header(2, 1, 8)), FetchPlan::Nothing);
    // a gap
    assert_eq!(m.plan(&header(1, 1, 15)), FetchPlan::Backfill { first: 11, last: 14 });
    assert_eq!(m.plan(&header(1, 1, 12)), FetchPlan::Backfill { first: 11, last: 11 });
    // a gap as wide as the window is left open
    assert_eq!(m.plan(&header(1, 1, 110)), FetchPlan::Backfill { first: 11, last: 109 });
    assert_eq!(m.plan(&header(1, 1, 111)), FetchPlan::Nothing);
    // a branch that leaves the stored chain further down
    assert_eq!(m.plan(&header(2, 2, 11)), FetchPlan::Ancestors { highest: 10, lowest: 1 });
    assert_eq!(m.plan(&header(2, 2, 2)), FetchPlan::Ancestors { highest: 1, lowest: 1 });
    // nothing above the lowest stored header could link the branch
    assert_eq!(m.plan(&header(2, 2, 1)), FetchPlan::Nothing);
    assert_eq!(m.plan(&header(2, 2, 0)), FetchPlan::Nothing);
}

#[test]
fn backfill_closes_the_gap_with_continuations() {
    let mut m = monitor_at(100, 2000, 0, 10);
    let head = fetched(1, 1, 14, &[90]);
    assert_eq!(m.plan(&head.header), FetchPlan::Backfill { first: 11, last: 13 });
    let fill = vec![
        fetched(1, 1, 11, &[61]),
        fetched(1, 1, 12, &[62]),
        fetched(1, 1, 13, &[63]),
    ];
    let out = poll(&mut m, &head, &Supplement::Backfill(fill));
    assert_eq!(out, applied(Classification::Continuation));
    let got = m.metrics();
    assert_eq!(got.gaps, 0);
    assert_eq!(got.current_height, 14);
    assert_eq!(got.block_time_delta, 13);
    assert_eq!(m.detector().len(), 15);
    for h in 11..=14u64 {
        assert_eq!(m.detector().get(h).map(|b| b.hash), Some(hash(1, h)));
    }
    assert_eq!(m.oracle().len(), 44 + 4);
}

#[test]
fn gap_without_backfill_is_reported() {
    let mut m = monitor_at(100, 2000, 0, 10);
    let out = poll(&mut m, &fetched(1, 1, 14, &[90]), &Supplement::Nothing);
    assert_eq!(out, applied(Classification::Gap { missing: 3 }));
    let got = m.metrics();
    assert_eq!(got.gaps, 1);
    assert_eq!(got.missing_blocks, 3);
    assert_eq!(got.current_height, 14);
    assert_eq!(got.block_time_delta, 4 * 13);
}

#[test]
fn backfill_stops_at_the_first_block_that_does_not_extend_the_tip() {
    let mut m = monitor_at(100, 2000, 0, 10);
    let fill = vec![
        fetched(1, 1, 11, &[61]),
        fetched(3, 3, 12, &[62]),
        fetched(1, 1, 13, &[63]),
    ];
    let out = poll(&mut m, &fetched(1, 1, 14, &[90]), &Supplement::Backfill(fill));
    assert_eq!(out, applied(Classification::Gap { missing: 2 }));
    assert_eq!(m.detector().get(11).map(|b| b.hash), Some(hash(1, 11)));
    assert_eq!(m.detector().get(12), None);
    assert_eq!(m.detector().get(13), None);
    assert_eq!(m.metrics().missing_blocks, 2);
}

#[test]
fn ancestors_resolve_a_reorg_below_the_parent() {
    let mut m = monitor_at(100, 2000, 0, 10);
    let head = fetched(2, 2, 11, &[90]);
    assert_eq!(m.plan(&head.header), FetchPlan::Ancestors { highest: 10, lowest: 1 });
    let ancestors = vec![header(2, 2, 10), header(2, 1, 9)];
    let out = poll(&mut m, &head, &Supplement::Ancestors(ancestors));
    assert_eq!(
        out,
        PollOutcome::Applied {
            classification: Classification::Reorg { depth: 2, unresolved: false },
            reorg: Some(ReorgEvent {
                divergence_height: 9,
                old_hash: hash(1, 10),
                new_hash: hash(2, 11),
                depth: 2,
                unresolved: false,
            }),
        }
    );
    assert_eq!(m.detector().get(8).map(|b| b.hash), Some(hash(1, 8)));
    assert_eq!(m.detector().get(9).map(|b| b.hash), Some(hash(2, 9)));
    assert_eq!(m.detector().get(10).map(|b| b.hash), Some(hash(2, 10)));
    assert_eq!(m.detector().get(11).map(|b| b.hash), Some(hash(2, 11)));
    assert_eq!(m.metrics().reorgs_resolved, 1);
    assert_eq!(m.metrics().reorg_depth_sum, 2);
}

#[test]
fn duplicate_block_records_no_samples_again() {
    let mut m = monitor_at(100, 2000, 0, 10);
    let before = m.metrics();
    // the head moved back to a block that is stored
    let out = poll(&mut m, &fetched(1, 1, 9, &[10, 20, 30, 40]), &Supplement::Nothing);
    assert_eq!(out, applied(Classification::Duplicate));
    assert_eq!(m.oracle().len(), 44);
    assert_eq!(m.metrics(), before);
    assert_eq!(m.detector().last_known_height(), Some(10));
}

#[test]
fn rejected_gas_prices_are_counted() {
    let mut m = BlockchainMonitor::new(100, 2000).unwrap();
    let out = poll(&mut m, &fetched(1, 1, 1, &[0, 15, 0, 25]), &Supplement::Nothing);
    assert_eq!(out, applied(Classification::NewBlock));
    let got = m.metrics();
    assert_eq!(got.rejected_samples, 2);
    assert_eq!(m.oracle().len(), 2);
    assert_eq!(got.gas_price_min_wei, 15);
    assert_eq!(got.gas_price_median_wei, 20);
    assert_eq!(got.gas_price_max_wei, 25);
}

#[test]
fn gas_window_keeps_the_latest_samples_across_polls() {
    let mut m = BlockchainMonitor::new(100, 3).unwrap();
    poll(&mut m, &fetched(1, 1, 1, &[1000, 2000]), &Supplement::Nothing);
    poll(&mut m, &fetched(1, 1, 2, &[10, 20]), &Supplement::Nothing);
    let got = m.metrics();
    assert_eq!(got.gas_price_min_wei, 10);
    assert_eq!(got.gas_price_median_wei, 20);
    assert_eq!(got.gas_price_max_wei, 2000);
    poll(&mut m, &fetched(1, 1, 3, &[30]), &Supplement::Nothing);
    let got = m.metrics();
    assert_eq!(got.gas_price_min_wei, 10);
    assert_eq!(got.gas_price_max_wei, 30);
}

#[test]
fn counters_stop_at_the_largest_value() {
    let mut m = Metrics::new();
    m.stalls = u64::MAX;
    m.note_stall();
    assert_eq!(m.stalls, u64::MAX);
    m.reorg_depth_sum = u64::MAX - 1;
    m.note_classification(Classification::Reorg { depth: 5, unresolved: true });
    assert_eq!(m.reorg_depth_sum, u64::MAX);
    assert_eq!(m.reorgs_unresolved, 1);
    assert_eq!(m.last_reorg_depth, 5);
    m.note_classification(Classification::Gap { missing: 7 });
    assert_eq!((m.gaps, m.missing_blocks), (1, 7));
    m.note_skipped_tick();
    assert_eq!(m.skipped_ticks, 1);
}

#[test]
fn outcomes_name_their_condition() {
    assert_eq!(PollOutcome::OutOfTurn.condition(), None);
    assert_eq!(
        PollOutcome::Rejected(MonitorError::MalformedBlockError).condition(),
        Some(MonitorError::MalformedBlockError)
    );
    assert_eq!(applied(Classification::Continuation).condition(), None);
    assert_eq!(applied(Classification::Gap { missing: 2 }).condition(), None);
    assert_eq!(
        applied(Classification::Reorg { depth: 2, unresolved: false }).condition(),
        None
    );
    let mut m = monitor_at(5, 2000, 100, 105);
    let out = poll(&mut m, &fetched(2, 2, 106, &[]), &Supplement::Nothing);
    assert_eq!(out.condition(), Some(MonitorError::UnresolvableReorg));
}

#[test]
fn default_capacities() {
    let m = BlockchainMonitor::new(DEFAULT_WINDOW_CAPACITY, DEFAULT_SAMPLE_CAPACITY).unwrap();
    assert_eq!(m.detector().capacity(), 100);
    assert_eq!(m.oracle().capacity(), 2000);
    assert_eq!(FETCH_ATTEMPTS, 3);
}
