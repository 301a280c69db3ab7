//! What holds of every observation the fork detector makes, stated over the
//! spec functions that describe an observation.

use vstd::prelude::*;
use crate::header::BlockHeader;
use crate::fork_detector::{
    agreement, ascending, branch, classify, graft, has_height, lemma_agreement, lemma_graft,
    lemma_next_window_valid, lemma_position, lemma_push_ascending, lemma_trim, next_window,
    stored_at, trim, valid_window, Classification,
};

verus! {

/// Each header of the chain is the parent of the next.
pub open spec fn parent_linked(chain: Seq<BlockHeader>) -> bool {
    forall|i: int| 0 <= i < chain.len() - 1 ==> chain[i].is_parent_of(#[trigger] chain[i + 1])
}

/// The window after the headers of `chain` were observed one by one, each
/// without ancestors.
pub open spec fn window_after(w: Seq<BlockHeader>, capacity: nat, chain: Seq<BlockHeader>) -> Seq<
    BlockHeader,
>
    decreases chain.len(),
{
    if chain.len() == 0 {
        w
    } else {
        next_window(
            window_after(w, capacity, chain.drop_last()),
            capacity,
            chain.last(),
            Seq::empty(),
        )
    }
}

/// A window stores no header above its tip: a height that is stored is at
/// most the height of the tip.
pub proof fn lemma_stored_not_above_tip(w: Seq<BlockHeader>, height: int)
    requires
        ascending(w),
    ensures
        has_height(w, height) ==> w.len() > 0 && height <= w.last().height,
{
    if has_height(w, height) {
        let p = choose|i: int| 0 <= i < w.len() && w[i].height == height;
        if p < w.len() - 1 {
            assert(w[p].height < w[w.len() - 1].height);
        }
    }
}

/// A header whose parent is the stored tip is a continuation, whatever
/// ancestors come with it: it is appended, and it becomes the tip.
pub proof fn law_extension_is_continuation(
    w: Seq<BlockHeader>,
    capacity: nat,
    header: BlockHeader,
    ancestors: Seq<BlockHeader>,
)
    requires
        valid_window(w, capacity),
        w.len() > 0,
        w.last().is_parent_of(header),
    ensures
        classify(w, capacity, header, ancestors) == Classification::Continuation,
        next_window(w, capacity, header, ancestors) == trim(w.push(header), capacity),
        next_window(w, capacity, header, ancestors).len() > 0,
        next_window(w, capacity, header, ancestors).last() == header,
{
    let b = branch(header, ancestors);
    lemma_stored_not_above_tip(w, header.height as int);
    lemma_position(w, w.len() - 1);
    assert(agreement(w, b, 0, capacity) == Some(0int));
    assert(graft(w, b, 0) =~= w.push(header));
    lemma_push_ascending(w, header);
    lemma_trim(w.push(header), capacity);
}

/// After any observation the window is not empty, and the observed header is
/// stored at its height under its hash.
pub proof fn law_observed_is_stored(
    w: Seq<BlockHeader>,
    capacity: nat,
    header: BlockHeader,
    ancestors: Seq<BlockHeader>,
)
    requires
        valid_window(w, capacity),
    ensures
        next_window(w, capacity, header, ancestors).len() > 0,
        stored_at(next_window(w, capacity, header, ancestors), header.height as int) matches Some(
            s,
        ) && s.hash == header.hash,
        classify(w, capacity, header, ancestors) != Classification::Duplicate ==> next_window(
            w,
            capacity,
            header,
            ancestors,
        ).last() == header,
{
    let b = branch(header, ancestors);
    let n = next_window(w, capacity, header, ancestors);
    lemma_next_window_valid(w, capacity, header, ancestors);
    if w.len() == 0 {
        lemma_position(n, 0);
    } else if header.height > w.last().height + 1 {
        lemma_push_ascending(w, header);
        lemma_trim(w.push(header), capacity);
        lemma_position(n, n.len() - 1);
    } else if stored_at(w, header.height as int) matches Some(s) && s.hash == header.hash {
    } else {
        match agreement(w, b, 0, capacity) {
            Some(i) => {
                lemma_graft(w, b, capacity, i);
                lemma_trim(graft(w, b, i), capacity);
                lemma_position(n, n.len() - 1);
            },
            None => {
                lemma_position(n, 0);
            },
        }
    }
}

/// A header that is stored at its height under its hash is a duplicate, and
/// observing it changes nothing.
pub proof fn law_duplicate_changes_nothing(
    w: Seq<BlockHeader>,
    capacity: nat,
    header: BlockHeader,
    ancestors: Seq<BlockHeader>,
)
    requires
        valid_window(w, capacity),
        stored_at(w, header.height as int) matches Some(s) && s.hash == header.hash,
    ensures
        classify(w, capacity, header, ancestors) == Classification::Duplicate,
        next_window(w, capacity, header, ancestors) == w,
{
    if header.height > w.last().height {
        lemma_stored_not_above_tip(w, header.height as int);
    }
}

/// Observing a header a second time, right after the first, is a duplicate
/// and leaves the window as the first observation left it.
pub proof fn law_reobserving_is_idempotent(
    w: Seq<BlockHeader>,
    capacity: nat,
    header: BlockHeader,
    ancestors: Seq<BlockHeader>,
    again: Seq<BlockHeader>,
)
    requires
        valid_window(w, capacity),
    ensures
        classify(next_window(w, capacity, header, ancestors), capacity, header, again)
            == Classification::Duplicate,
        next_window(next_window(w, capacity, header, ancestors), capacity, header, again)
            == next_window(w, capacity, header, ancestors),
{
    lemma_next_window_valid(w, capacity, header, ancestors);
    law_observed_is_stored(w, capacity, header, ancestors);
    law_duplicate_changes_nothing(
        next_window(w, capacity, header, ancestors),
        capacity,
        header,
        again,
    );
}

/// What a parent-linked chain leaves behind in a detector, provided its
/// first header was not a duplicate: a valid window whose tip is the last
/// header of the chain.
pub proof fn lemma_chain_tip(w: Seq<BlockHeader>, capacity: nat, chain: Seq<BlockHeader>)
    requires
        valid_window(w, capacity),
        parent_linked(chain),
        chain.len() > 0,
        classify(w, capacity, chain[0], Seq::empty()) != Classification::Duplicate,
    ensures
        valid_window(window_after(w, capacity, chain), capacity),
        window_after(w, capacity, chain).len() > 0,
        window_after(w, capacity, chain).last() == chain.last(),
    decreases chain.len(),
{
    let front = chain.drop_last();
    if chain.len() == 1 {
        assert(window_after(w, capacity, front) == w);
        lemma_next_window_valid(w, capacity, chain.last(), Seq::empty());
        law_observed_is_stored(w, capacity, chain.last(), Seq::empty());
    } else {
        assert(parent_linked(front)) by {
            assert forall|i: int| 0 <= i < front.len() - 1 implies front[i].is_parent_of(
                #[trigger] front[i + 1],
            ) by {
                assert(front[i] == chain[i] && front[i + 1] == chain[i + 1]);
            }
        }
        assert(front[0] == chain[0]);
        lemma_chain_tip(w, capacity, front);
        assert(front.last() == chain[chain.len() - 2]);
        assert(chain[chain.len() - 2].is_parent_of(chain[chain.len() - 2 + 1]));
        law_extension_is_continuation(
            window_after(w, capacity, front),
            capacity,
            chain.last(),
            Seq::empty(),
        );
        lemma_next_window_valid(
            window_after(w, capacity, front),
            capacity,
            chain.last(),
            Seq::empty(),
        );
    }
}

/// The first header that an empty detector observes is a new block.
pub proof fn law_first_is_new_block(
    capacity: nat,
    header: BlockHeader,
    ancestors: Seq<BlockHeader>,
)
    ensures
        classify(Seq::empty(), capacity, header, ancestors) == Classification::NewBlock,
        next_window(Seq::empty(), capacity, header, ancestors) == seq![header],
{
}

/// Feeding a parent-linked chain to a detector, header by header: unless the
/// first header is a duplicate, every header after the first is a
/// continuation, so no reorg is ever reported. A detector that starts empty
/// never sees a duplicate first.
pub proof fn law_linked_chain_continues(
    w: Seq<BlockHeader>,
    capacity: nat,
    chain: Seq<BlockHeader>,
    i: int,
)
    requires
        valid_window(w, capacity),
        parent_linked(chain),
        1 <= i < chain.len(),
        classify(w, capacity, chain[0], Seq::empty()) != Classification::Duplicate,
    ensures
        classify(window_after(w, capacity, chain.take(i)), capacity, chain[i], Seq::empty())
            == Classification::Continuation,
        classify(Seq::empty(), capacity, chain[0], Seq::empty()) == Classification::NewBlock,
{
    let seen = chain.take(i);
    assert(parent_linked(seen)) by {
        assert forall|k: int| 0 <= k < seen.len() - 1 implies seen[k].is_parent_of(
            #[trigger] seen[k + 1],
        ) by {
            assert(seen[k] == chain[k] && seen[k + 1] == chain[k + 1]);
        }
    }
    assert(seen[0] == chain[0]);
    lemma_chain_tip(w, capacity, seen);
    assert(seen.last() == chain[i - 1]);
    assert(chain[i - 1].is_parent_of(chain[i - 1 + 1]));
    law_extension_is_continuation(
        window_after(w, capacity, seen),
        capacity,
        chain[i],
        Seq::empty(),
    );
}

/// A valid window holds at most `capacity` headers.
pub proof fn law_window_is_bounded(w: Seq<BlockHeader>, capacity: nat)
    requires
        valid_window(w, capacity),
    ensures
        w.len() <= capacity,
{
    if w.len() > 0 {
        lemma_heights_spread(w, w.len() - 1);
    }
}

/// In an ascending window the header at index `i` lies at least `i` above the first.
proof fn lemma_heights_spread(w: Seq<BlockHeader>, i: int)
    requires
        ascending(w),
        0 <= i < w.len(),
    ensures
        w[i].height >= w[0].height + i,
    decreases i,
{
    if i > 0 {
        lemma_heights_spread(w, i - 1);
        assert(w[i - 1].height < w[i].height);
    }
}

/// After any observation, no header is stored `capacity` or more below the tip.
pub proof fn law_evicted_is_gone(
    w: Seq<BlockHeader>,
    capacity: nat,
    header: BlockHeader,
    ancestors: Seq<BlockHeader>,
    height: int,
)
    requires
        valid_window(w, capacity),
        height + capacity <= next_window(w, capacity, header, ancestors).last().height,
    ensures
        stored_at(next_window(w, capacity, header, ancestors), height).is_none(),
{
    lemma_next_window_valid(w, capacity, header, ancestors);
}

/// A reorg is resolved only where the walk reached a stored header: the
/// window holds, one block below the divergence height, the header that the
/// new branch builds on. Where no header is stored at that height, because it
/// was evicted or never seen, the reorg is reported unresolved.
pub proof fn law_resolved_needs_stored_parent(
    w: Seq<BlockHeader>,
    capacity: nat,
    header: BlockHeader,
    ancestors: Seq<BlockHeader>,
)
    requires
        valid_window(w, capacity),
        capacity <= u64::MAX,
    ensures
        classify(w, capacity, header, ancestors) matches Classification::Reorg {
            depth,
            unresolved,
        } ==> 1 <= depth && (!unresolved ==> has_height(w, w.last().height - depth)),
{
    let b = branch(header, ancestors);
    if classify(w, capacity, header, ancestors) is Reorg {
        match agreement(w, b, 0, capacity) {
            Some(i) => {
                lemma_graft(w, b, capacity, i);
                lemma_agreement(w, b, 0, capacity, i);
                lemma_stored_not_above_tip(w, b[i].height - 1);
            },
            None => {
                if w.len() > 1 {
                    assert(w[0].height < w[w.len() - 1].height);
                }
            },
        }
    }
}

/// Without ancestors, a header that is no duplicate, does not lie above the
/// gap limit, and whose parent height is not stored gives an unresolved reorg
/// and a window that starts afresh with that header.
pub proof fn law_missing_parent_is_unresolved(
    w: Seq<BlockHeader>,
    capacity: nat,
    header: BlockHeader,
)
    requires
        valid_window(w, capacity),
        w.len() > 0,
        header.height <= w.last().height + 1,
        !has_height(w, header.height as int),
        !has_height(w, header.height - 1),
    ensures
        classify(w, capacity, header, Seq::empty()) matches Classification::Reorg {
            unresolved,
            ..
        } && unresolved,
        next_window(w, capacity, header, Seq::empty()) == seq![header],
{
    let b = branch(header, Seq::empty());
    assert(b.len() == 1);
}

/// What eviction leaves to be found: a header that lies less than
/// `capacity` below the tip is stored after eviction exactly if it was
/// before, and no other is.
pub proof fn lemma_stored_after_trim(g: Seq<BlockHeader>, capacity: nat, x: int)
    requires
        ascending(g),
        capacity >= 1,
        g.len() > 0,
    ensures
        stored_at(trim(g, capacity), x) == if x + capacity > g.last().height {
            stored_at(g, x)
        } else {
            None
        },
{
    lemma_trim(g, capacity);
    let t = trim(g, capacity);
    let k = g.len() - t.len();
    if has_height(t, x) {
        let q = choose|q: int| 0 <= q < t.len() && t[q].height == x;
        assert(t[q] == g[q + k]);
        lemma_position(t, q);
        lemma_position(g, q + k);
    } else if has_height(g, x) && x + capacity > g.last().height {
        let p = choose|p: int| 0 <= p < g.len() && g[p].height == x;
        if p < k {
            assert(g[p].height + capacity <= g.last().height);
        } else {
            assert(t[p - k] == g[p]);
        }
    }
}

/// What a graft leaves to be found: the blocks of the branch at their
/// heights, below them what the window held, and nothing above.
pub proof fn lemma_stored_in_graft(
    w: Seq<BlockHeader>,
    b: Seq<BlockHeader>,
    limit: nat,
    i: int,
    x: int,
)
    requires
        ascending(w),
        agreement(w, b, 0, limit) == Some(i),
    ensures
        b[i].height + i == b[0].height,
        b[i].height <= x <= b[0].height ==> stored_at(graft(w, b, i), x) == Some(
            b[b[0].height - x],
        ),
        x < b[i].height ==> stored_at(graft(w, b, i), x) == stored_at(w, x),
        x > b[0].height ==> stored_at(graft(w, b, i), x).is_none(),
{
    lemma_graft(w, b, limit, i);
    lemma_agreement(w, b, 0, limit, i);
    let g = graft(w, b, i);
    let p = crate::fork_detector::position(w, b[i].height - 1);
    assert(0 <= p < w.len() && w[p].height == b[i].height - 1);
    assert forall|k: int| 0 <= k <= i implies (#[trigger] g[p + 1 + k]) == b[i - k] && b[i
        - k].height == b[i].height + k by {
        crate::fork_detector::lemma_branch_heights(b, i, i - k);
        crate::fork_detector::lemma_branch_heights(b, i, i);
    }
    assert forall|j: int| 0 <= j <= p implies (#[trigger] g[j]) == w[j] && w[j].height
        < b[i].height by {
        if j < p {
            assert(w[j].height < w[p].height);
        }
    }
    if b[i].height <= x <= b[0].height {
        let k = x - b[i].height;
        assert(g[p + 1 + k] == b[i - k]);
        lemma_position(g, p + 1 + k);
    } else if x < b[i].height {
        if has_height(w, x) {
            let q = choose|q: int| 0 <= q < w.len() && w[q].height == x;
            if q > p {
                assert(w[p].height < w[q].height);
            }
            assert(g[q] == w[q]);
            lemma_position(w, q);
            lemma_position(g, q);
        } else if has_height(g, x) {
            let q = choose|q: int| 0 <= q < g.len() && g[q].height == x;
            if q <= p {
                assert(g[q] == w[q]);
            } else {
                assert(g[p + 1 + (q - p - 1)] == b[i - (q - p - 1)]);
            }
        }
    } else {
        lemma_stored_not_above_tip(g, x);
    }
}

/// A resolved reorg replaces the stored chain from the divergence height on
/// and keeps it below. After it, the window holds the blocks of the branch
/// at every height from the divergence height up to the observed header,
/// nothing above that header, and below the divergence height what it held
/// before, as far as that lies within `capacity` of the new tip.
pub proof fn law_resolved_reorg_replaces_from_divergence(
    w: Seq<BlockHeader>,
    capacity: nat,
    header: BlockHeader,
    ancestors: Seq<BlockHeader>,
    depth: u64,
    x: int,
)
    requires
        valid_window(w, capacity),
        classify(w, capacity, header, ancestors) == (Classification::Reorg {
            depth,
            unresolved: false,
        }),
    ensures
        ({
            let n = next_window(w, capacity, header, ancestors);
            let d = w.last().height + 1 - depth;
            let b = branch(header, ancestors);
            &&& 0 <= header.height - d < b.len()
            &&& d <= x <= header.height ==> stored_at(n, x) == Some(b[header.height - x])
            &&& x < d && x + capacity > header.height ==> stored_at(n, x) == stored_at(w, x)
            &&& x > header.height || x + capacity <= header.height ==> stored_at(n, x).is_none()
        }),
{
    let b = branch(header, ancestors);
    match agreement(w, b, 0, capacity) {
        Some(i) => {
            lemma_graft(w, b, capacity, i);
            lemma_agreement(w, b, 0, capacity, i);
            lemma_stored_in_graft(w, b, capacity, i, x);
            lemma_stored_after_trim(graft(w, b, i), capacity, x);
            lemma_stored_not_above_tip(w, b[i].height - 1);
        },
        None => {},
    }
}

/// A gap and a continuation only append: after either, the window holds the
/// observed header at its height, nothing above it, and below it what it
/// held before, as far as that lies within `capacity` of the new tip.
pub proof fn law_append_keeps_what_is_in_range(
    w: Seq<BlockHeader>,
    capacity: nat,
    header: BlockHeader,
    ancestors: Seq<BlockHeader>,
    x: int,
)
    requires
        valid_window(w, capacity),
        classify(w, capacity, header, ancestors) is Gap || classify(w, capacity, header, ancestors)
            == Classification::Continuation,
    ensures
        ({
            let n = next_window(w, capacity, header, ancestors);
            &&& n == trim(w.push(header), capacity)
            &&& stored_at(n, header.height as int) == Some(header)
            &&& x < header.height && x + capacity > header.height ==> stored_at(n, x) == stored_at(
                w,
                x,
            )
            &&& x > header.height || x + capacity <= header.height ==> stored_at(n, x).is_none()
        }),
{
    let b = branch(header, ancestors);
    let g = w.push(header);
    if classify(w, capacity, header, ancestors) == Classification::Continuation {
        match agreement(w, b, 0, capacity) {
            Some(i) => {
                lemma_graft(w, b, capacity, i);
                lemma_agreement(w, b, 0, capacity, i);
                lemma_stored_not_above_tip(w, b[i].height - 1);
                lemma_position(w, w.len() - 1);
                assert(i == 0);
                assert(graft(w, b, i) =~= g);
            },
            None => {},
        }
    }
    lemma_push_ascending(w, header);
    lemma_stored_after_trim(g, capacity, x);
    lemma_stored_after_trim(g, capacity, header.height as int);
    lemma_position(g, g.len() - 1);
    if x < header.height {
        if has_height(w, x) {
            let q = choose|q: int| 0 <= q < w.len() && w[q].height == x;
            assert(g[q] == w[q]);
            lemma_position(w, q);
            lemma_position(g, q);
        } else if has_height(g, x) {
            let q = choose|q: int| 0 <= q < g.len() && g[q].height == x;
            assert(g[q] == w[q]);
        }
    } else if x > header.height {
        lemma_stored_not_above_tip(g, x);
    }
}

} // verus!
