//! What holds of the gas price window and of the percentiles over it.

use vstd::prelude::*;
use vstd::relations::sorted_by;
use crate::gas_oracle::{
    after_arrival, after_arrivals, keep_last, lemma_price_order_total, lemma_rank_in_range,
    percentile_of, price_order, prices, sorted_prices, valid_samples, GasSample,
};

verus! {

/// The sorted snapshot holds the prices of the window, each as often as the
/// window does, in increasing order.
pub proof fn lemma_sorted_prices(samples: Seq<GasSample>)
    ensures
        sorted_prices(samples).len() == samples.len(),
        sorted_prices(samples).to_multiset() == prices(samples).to_multiset(),
        forall|i: int, j: int|
            0 <= i < j < sorted_prices(samples).len() ==> sorted_prices(samples)[i]
                <= sorted_prices(samples)[j],
{
    broadcast use vstd::seq_lib::group_to_multiset_ensures;

    lemma_price_order_total();
    prices(samples).lemma_sort_by_ensures(price_order());
    let s = sorted_prices(samples);
    assert(sorted_by(s, price_order()));
    assert forall|i: int, j: int| 0 <= i < j < s.len() implies s[i] <= s[j] by {
        assert(price_order()(s[i], s[j]));
    }
    assert(s.len() == s.to_multiset().len());
    assert(prices(samples).len() == prices(samples).to_multiset().len());
}

/// An empty window gives zero for every percentile.
pub proof fn law_empty_window_gives_zero(p: int)
    ensures
        percentile_of(Seq::empty(), p) == 0,
{
    lemma_sorted_prices(Seq::empty());
}

/// A sample that arrives at a full window pushes out the oldest one, and
/// only that one: the window then holds what it held from its second sample
/// on, followed by the new sample.
pub proof fn law_full_window_evicts_oldest(w: Seq<GasSample>, capacity: nat, x: GasSample)
    requires
        valid_samples(w, capacity),
        w.len() == capacity,
        x.price_wei > 0,
    ensures
        after_arrival(w, capacity, x) == w.drop_first().push(x),
        after_arrival(w, capacity, x).len() == capacity,
        valid_samples(after_arrival(w, capacity, x), capacity),
{
    assert(keep_last(w.push(x), capacity) =~= w.drop_first().push(x));
}

/// Every arrival leaves a valid window.
pub proof fn law_arrival_keeps_window_valid(w: Seq<GasSample>, capacity: nat, x: GasSample)
    requires
        valid_samples(w, capacity),
    ensures
        valid_samples(after_arrival(w, capacity, x), capacity),
{
}

/// A window that started empty holds the last `capacity` of the samples that
/// arrived with a positive price. After `capacity + 1` of them it holds all
/// but the first.
pub proof fn law_window_is_last_arrivals(capacity: nat, arrivals: Seq<GasSample>)
    requires
        capacity >= 1,
        forall|i: int| 0 <= i < arrivals.len() ==> arrivals[i].price_wei > 0,
    ensures
        after_arrivals(Seq::empty(), capacity, arrivals) == keep_last(arrivals, capacity),
        arrivals.len() == capacity + 1 ==> after_arrivals(Seq::empty(), capacity, arrivals)
            == arrivals.drop_first(),
    decreases arrivals.len(),
{
    if arrivals.len() > 0 {
        let front = arrivals.drop_last();
        law_window_is_last_arrivals(capacity, front);
        assert(keep_last(keep_last(front, capacity).push(arrivals.last()), capacity) =~= keep_last(
            arrivals,
            capacity,
        ));
        if arrivals.len() == capacity + 1 {
            assert(keep_last(arrivals, capacity) =~= arrivals.drop_first());
        }
    } else {
        assert(keep_last(arrivals, capacity) =~= Seq::<GasSample>::empty());
    }
}

/// The percentiles 0 and 100 are the lowest and the highest price in the
/// window, and every percentile lies between them.
pub proof fn law_percentile_bounds(samples: Seq<GasSample>, p: int, i: int)
    requires
        0 <= p <= 100,
        0 <= i < samples.len(),
    ensures
        percentile_of(samples, 0) == sorted_prices(samples)[0],
        percentile_of(samples, 100) == sorted_prices(samples).last(),
        percentile_of(samples, 0) <= samples[i].price_wei <= percentile_of(samples, 100),
        percentile_of(samples, 0) <= percentile_of(samples, p) <= percentile_of(samples, 100),
        prices(samples).contains(percentile_of(samples, 0) as u64),
        prices(samples).contains(percentile_of(samples, 100) as u64),
{
    broadcast use vstd::seq_lib::group_to_multiset_ensures;

    lemma_sorted_prices(samples);
    let s = sorted_prices(samples);
    let n = s.len() as int;
    lemma_rank_in_range(n, 0);
    lemma_rank_in_range(n, 100);
    lemma_rank_in_range(n, p);
    // every price of the window stands somewhere in the sorted snapshot
    let x = samples[i].price_wei;
    assert(prices(samples)[i] == x);
    assert(prices(samples).contains(x));
    assert(s.to_multiset().count(x) > 0);
    assert(s.contains(x));
    let k = choose|k: int| 0 <= k < s.len() && s[k] == x;
    if 0 < k {
        assert(s[0] <= s[k]);
    }
    if k < n - 1 {
        assert(s[k] <= s[n - 1]);
    }
    // and the ends of the snapshot are prices of the window
    assert(s.contains(s[0]));
    assert(s.contains(s[n - 1]));
    assert(s.to_multiset().count(s[0]) > 0);
    assert(s.to_multiset().count(s[n - 1]) > 0);
    // a percentile lies between the two entries it is taken from
    let scaled = p * (n - 1);
    let below = scaled / 100;
    let part = scaled % 100;
    if 0 < below {
        assert(s[0] <= s[below]);
    }
    if part == 0 {
        if below < n - 1 {
            assert(s[below] <= s[n - 1]);
        }
    } else {
        let span = s[below + 1] - s[below];
        assert(s[below] <= s[below + 1]);
        assert(0 <= span * part / 100 <= span) by (nonlinear_arith)
            requires
                0 <= part < 100,
                0 <= span,
        ;
        if below + 1 < n - 1 {
            assert(s[below + 1] <= s[n - 1]);
        }
    }
}

/// A higher percentile never gives a lower price.
pub proof fn law_percentile_is_monotone(samples: Seq<GasSample>, p: int, q: int)
    requires
        0 <= p <= q <= 100,
    ensures
        percentile_of(samples, p) <= percentile_of(samples, q),
{
    lemma_sorted_prices(samples);
    let s = sorted_prices(samples);
    let n = s.len() as int;
    if n > 0 {
        lemma_rank_in_range(n, p);
        lemma_rank_in_range(n, q);
        let m = n - 1;
        assert(p * m <= q * m) by (nonlinear_arith)
            requires
                0 <= p <= q,
                0 <= m,
        ;
        let lo = p * m / 100;
        let hi = q * m / 100;
        let part_lo = p * m % 100;
        let part_hi = q * m % 100;
        // what the lower percentile gives is at most the entry above its rank
        if part_lo != 0 {
            let span = s[lo + 1] - s[lo];
            assert(s[lo] <= s[lo + 1]);
            assert(0 <= span * part_lo / 100 <= span) by (nonlinear_arith)
                requires
                    0 <= part_lo < 100,
                    0 <= span,
            ;
        }
        // what the higher percentile gives is at least the entry at its rank
        if part_hi != 0 {
            let span = s[hi + 1] - s[hi];
            assert(s[hi] <= s[hi + 1]);
            assert(0 <= span * part_hi / 100) by (nonlinear_arith)
                requires
                    0 <= part_hi < 100,
                    0 <= span,
            ;
        }
        if lo == hi {
            assert(part_lo <= part_hi);
            if part_lo != 0 {
                let span = s[lo + 1] - s[lo];
                assert(span * part_lo / 100 <= span * part_hi / 100) by (nonlinear_arith)
                    requires
                        0 <= part_lo <= part_hi,
                        0 <= span,
                ;
            }
        } else {
            assert(lo < hi);
            if part_lo != 0 {
                if lo + 1 < hi {
                    assert(s[lo + 1] <= s[hi]);
                }
            } else {
                assert(s[lo] <= s[hi]);
            }
        }
    }
}

/// Percentiles go by the prices in the window alone: two windows that hold
/// the same prices equally often, in whatever order and from whatever
/// blocks, give the same percentile.
pub proof fn law_percentile_ignores_order(a: Seq<GasSample>, b: Seq<GasSample>, p: int)
    requires
        prices(a).to_multiset() == prices(b).to_multiset(),
    ensures
        percentile_of(a, p) == percentile_of(b, p),
{
    lemma_price_order_total();
    prices(a).lemma_sort_by_ensures(price_order());
    prices(b).lemma_sort_by_ensures(price_order());
    vstd::seq_lib::lemma_sorted_unique(sorted_prices(a), sorted_prices(b), price_order());
}

} // verus!
