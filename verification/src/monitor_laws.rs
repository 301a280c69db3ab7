//! What holds of every step the monitor takes, stated over the state
//! machine that describes a poll.

use vstd::prelude::*;
use crate::blockchain::{
    lemma_ingest_wf, FetchedBlock, HeadAction, MonitorState, Phase, PollOutcome, Supplement,
    TickAction,
};
use crate::error::MonitorError;

verus! {

/// Both windows and the record of the last successful poll are the same in
/// the two states.
pub open spec fn same_windows(a: MonitorState, b: MonitorState) -> bool {
    &&& a.chain == b.chain
    &&& a.window_limit == b.window_limit
    &&& a.samples == b.samples
    &&& a.blocks == b.blocks
    &&& a.sample_limit == b.sample_limit
    &&& a.rejected == b.rejected
    &&& a.last_head == b.last_head
    &&& a.last_timestamp == b.last_timestamp
}

/// Polls do not overlap: a tick that finds a poll in flight starts nothing.
/// It leaves the poll where it stands and both windows as they are, and is
/// counted. A tick that finds the monitor idle starts a poll.
pub proof fn law_ticks_do_not_overlap(s: MonitorState)
    ensures
        s.phase != Phase::Idle ==> s.tick().1 == TickAction::Skip && s.tick().0.phase == s.phase
            && same_windows(s.tick().0, s) && s.tick().0.metrics == s.metrics.with_skipped_tick(),
        s.phase == Phase::Idle ==> s.tick().1 == TickAction::QueryHead && s.tick().0.phase
            == Phase::AwaitingHead && same_windows(s.tick().0, s) && s.tick().0.metrics
            == s.metrics,
{
}

/// No answer ends the monitoring. Whatever comes back for the head height,
/// the monitor is then idle or waits for the block it named; whatever comes
/// back for that block, the monitor is then idle; and an idle monitor
/// starts a new poll on the next tick.
pub proof fn law_every_poll_ends(
    s: MonitorState,
    head: Option<u64>,
    error: MonitorError,
    block: FetchedBlock,
    supplement: Supplement,
)
    ensures
        s.phase == Phase::AwaitingHead ==> match s.head_received(head).1 {
            HeadAction::Fetch { height } => s.head_received(head).0.phase == (Phase::AwaitingBlock {
                height,
            }),
            _ => s.head_received(head).0.phase == Phase::Idle,
        },
        s.phase is AwaitingBlock ==> s.fetch_failed(error).phase == Phase::Idle,
        s.phase is AwaitingBlock ==> s.block_received(block, supplement).0.phase == Phase::Idle,
        s.phase == Phase::Idle ==> s.tick().1 == TickAction::QueryHead,
{
}

/// A stall is no error: a head that has not moved changes neither window
/// and no error counter.
pub proof fn law_stall_changes_no_window(s: MonitorState, h: u64)
    requires
        s.phase == Phase::AwaitingHead,
        s.last_head == Some(h),
    ensures
        s.head_received(Some(h)).1 == HeadAction::Stalled,
        same_windows(s.head_received(Some(h)).0, s),
        s.head_received(Some(h)).0.metrics == s.metrics.with_stall(),
        s.head_received(Some(h)).0.metrics.poll_errors == s.metrics.poll_errors,
{
}

/// An abandoned poll changes neither window, whether the head height, the
/// block, or the block's well-formedness was what failed; it is counted as a
/// poll error, and the head is fetched again by the next poll that finds it.
pub proof fn law_failed_poll_changes_no_window(
    s: MonitorState,
    error: MonitorError,
    block: FetchedBlock,
    supplement: Supplement,
)
    ensures
        s.phase == Phase::AwaitingHead ==> same_windows(s.head_received(None).0, s)
            && s.head_received(None).0.metrics == s.metrics.with_poll_error(
            MonitorError::TransientRpcError,
        ),
        same_windows(s.fetch_failed(error), s),
        s.phase is AwaitingBlock ==> s.fetch_failed(error).metrics == s.metrics.with_poll_error(
            error,
        ),
        s.block_received(block, supplement).1 is Rejected ==> same_windows(
            s.block_received(block, supplement).0,
            s,
        ) && s.block_received(block, supplement).0.metrics == s.metrics.with_poll_error(
            MonitorError::MalformedBlockError,
        ),
{
}

/// An answer that the monitor did not ask for changes nothing.
pub proof fn law_out_of_turn_changes_nothing(
    s: MonitorState,
    head: Option<u64>,
    error: MonitorError,
    block: FetchedBlock,
    supplement: Supplement,
)
    ensures
        s.phase != Phase::AwaitingHead ==> s.head_received(head) == (s, HeadAction::OutOfTurn),
        !(s.phase is AwaitingBlock) ==> s.fetch_failed(error) == s,
        !(s.phase is AwaitingBlock) ==> s.block_received(block, supplement) == (
            s,
            PollOutcome::OutOfTurn,
        ),
{
}

/// A backfill keeps the invariants of both windows.
pub proof fn lemma_backfill_wf(s: MonitorState, blocks: Seq<FetchedBlock>)
    requires
        s.wf(),
    ensures
        s.ingest_backfill(blocks).wf(),
        s.ingest_backfill(blocks).window_limit == s.window_limit,
        s.ingest_backfill(blocks).sample_limit == s.sample_limit,
        s.ingest_backfill(blocks).phase == s.phase,
        s.ingest_backfill(blocks).last_head == s.last_head,
    decreases blocks.len(),
{
    if blocks.len() > 0 && s.extends_tip(blocks[0].header) {
        lemma_ingest_wf(s, blocks[0].header, blocks[0].gas_prices@, Seq::empty());
        lemma_backfill_wf(
            s.ingest(blocks[0].header, blocks[0].gas_prices@, Seq::empty()),
            blocks.drop_first(),
        );
    }
}

/// Every step keeps the invariants of both windows and their capacities.
pub proof fn law_steps_keep_invariants(
    s: MonitorState,
    head: Option<u64>,
    error: MonitorError,
    block: FetchedBlock,
    supplement: Supplement,
)
    requires
        s.wf(),
    ensures
        s.tick().0.wf(),
        s.head_received(head).0.wf(),
        s.fetch_failed(error).wf(),
        s.block_received(block, supplement).0.wf(),
        s.block_received(block, supplement).0.window_limit == s.window_limit,
        s.block_received(block, supplement).0.sample_limit == s.sample_limit,
{
    let filled = s.filled(supplement);
    match supplement {
        Supplement::Backfill(blocks) => {
            lemma_backfill_wf(s, blocks@);
        },
        _ => {},
    }
    lemma_ingest_wf(
        filled,
        block.header,
        block.gas_prices@,
        crate::blockchain::ancestors_of(supplement),
    );
}

/// A poll that succeeds records the head it found, so that the same head is
/// a stall for the next poll.
pub proof fn law_applied_block_becomes_last_head(
    s: MonitorState,
    block: FetchedBlock,
    supplement: Supplement,
)
    requires
        s.block_received(block, supplement).1 is Applied,
    ensures
        s.block_received(block, supplement).0.last_head == Some(block.header.height),
        s.block_received(block, supplement).0.tick().0.head_received(
            Some(block.header.height),
        ).1 == HeadAction::Stalled,
{
}

} // verus!
