//! Price aggregation: outlier removal, the reputation/stake/confidence
//! weighted median, aggregate confidence and deviation, fallback lookup,
//! and the reputation feedback applied after a successful round.

use vstd::prelude::*;
use vstd::relations::{sorted_by, total_ordering};
use vstd::seq_lib::lemma_sorted_unique;
use crate::error::OracleError;
use crate::oracle_node::{
    find_node, find_node_index, lemma_find_node_index_properties, spec_find_node,
    spec_find_node_index, OracleNode,
};
use crate::price_data::{AggregatedPrice, PriceData, MAX_PRICE_DEVIATION};
use crate::seqs::{lemma_filter_sound, lemma_filter_take_step, lemma_take_all};

verus! {

/// One weight step per this much stake; the tier is clamped to 1-5.
pub const STAKE_TIER_UNIT: u64 = 1000_0000000;

/// The order the engine sorts prices by.
pub open spec fn u64_leq() -> spec_fn(u64, u64) -> bool {
    |a: u64, b: u64| a <= b
}

pub proof fn lemma_u64_leq_total()
    ensures
        total_ordering(u64_leq()),
{
    let leq = u64_leq();
    assert forall|x: u64| #[trigger] leq(x, x) by {}
    assert forall|x: u64, y: u64| #[trigger] leq(x, y) && #[trigger] leq(y, x) implies x == y by {}
    assert forall|x: u64, y: u64| #[trigger] leq(x, y) || #[trigger] leq(y, x) by {}
    assert forall|x: u64, y: u64, z: u64|
        #[trigger] leq(x, y) && #[trigger] leq(y, z) implies leq(x, z) by {}
}

/// The weight a submission carries: a base of one, scaled by reputation
/// (one to ten steps of ten points), by the submission's own confidence
/// (one to five steps of twenty points), and by the stake tier (one to
/// five units of stake). Every factor is at least one.
pub open spec fn spec_node_weight(node: OracleNode, submission: PriceData) -> int {
    let rep_m = if node.reputation_score as int / 10 >= 1 {
        node.reputation_score as int / 10
    } else {
        1
    };
    let conf_m = if submission.confidence as int / 20 >= 1 {
        submission.confidence as int / 20
    } else {
        1
    };
    let stake_t = node.stake_amount as int / STAKE_TIER_UNIT as int;
    let stake_m = if stake_t < 1 {
        1
    } else if stake_t > 5 {
        5
    } else {
        stake_t
    };
    rep_m * conf_m * stake_m
}

pub proof fn lemma_node_weight_bounds(node: OracleNode, submission: PriceData)
    ensures
        1 <= spec_node_weight(node, submission) < 0x8000000000000000,
{
    let rep_m = if node.reputation_score as int / 10 >= 1 {
        node.reputation_score as int / 10
    } else {
        1
    };
    let conf_m = if submission.confidence as int / 20 >= 1 {
        submission.confidence as int / 20
    } else {
        1
    };
    let stake_t = node.stake_amount as int / STAKE_TIER_UNIT as int;
    let stake_m = if stake_t < 1 {
        1
    } else if stake_t > 5 {
        5
    } else {
        stake_t
    };
    assert(1 <= rep_m <= 429496729);
    assert(1 <= conf_m <= 214748364);
    assert(1 <= stake_m <= 5);
    assert(1 <= rep_m * conf_m * stake_m <= 429496729 * 214748364 * 5) by (nonlinear_arith)
        requires
            1 <= rep_m <= 429496729,
            1 <= conf_m <= 214748364,
            1 <= stake_m <= 5,
    ;
}

/// One submission's contribution to the weighted multiset: its price,
/// replicated as many times as its weight; nothing when its node is not
/// registered.
pub open spec fn spec_replica(sub: PriceData, oracle_nodes: Seq<OracleNode>) -> Seq<u64> {
    match spec_find_node(oracle_nodes, sub.oracle_node) {
        Some(node) => Seq::new(spec_node_weight(node, sub) as nat, |x: int| sub.price),
        None => Seq::empty(),
    }
}

/// Every submission's price, replicated as many times as its weight; a
/// submission whose node is not registered contributes nothing.
pub open spec fn spec_weighted_prices(
    submissions: Seq<PriceData>,
    oracle_nodes: Seq<OracleNode>,
) -> Seq<u64>
    decreases submissions.len(),
{
    if submissions.len() == 0 {
        Seq::empty()
    } else {
        spec_weighted_prices(submissions.drop_last(), oracle_nodes) + spec_replica(
            submissions.last(),
            oracle_nodes,
        )
    }
}

/// The middle element of a sequence, by the usual median formula: the
/// mean of the two middle elements when the length is even (with floor
/// division), the single middle element when it is odd.
pub open spec fn spec_median(s: Seq<u64>) -> u64
    recommends
        s.len() > 0,
{
    if s.len() % 2 == 0 {
        ((s[s.len() as int / 2 - 1] + s[s.len() as int / 2]) / 2) as u64
    } else {
        s[s.len() as int / 2]
    }
}

/// The weighted median of a submission set: the median of the sorted,
/// weight-replicated price sequence.
pub open spec fn spec_weighted_median(
    submissions: Seq<PriceData>,
    oracle_nodes: Seq<OracleNode>,
) -> u64 {
    spec_median(spec_weighted_prices(submissions, oracle_nodes).sort_by(u64_leq()))
}

/// Sort a price vector ascending (insertion sort); the result is exactly
/// the mathematical sort of the input.
pub fn sort_prices(prices: &mut Vec<u64>)
    ensures
        final(prices)@ == old(prices)@.sort_by(u64_leq()),
{
    broadcast use vstd::seq_lib::group_to_multiset_ensures;

    let ghost orig = prices@;
    let ghost leq = u64_leq();
    if prices.len() <= 1 {
        proof {
            lemma_u64_leq_total();
            orig.lemma_sort_by_ensures(leq);
            lemma_sorted_unique(prices@, orig.sort_by(leq), leq);
        }
        return ;
    }
    let mut i: usize = 1;
    while i < prices.len()
        invariant
            1 <= i <= prices@.len(),
            prices@.len() == orig.len(),
            prices@.to_multiset() == orig.to_multiset(),
            forall|a: int, b: int| 0 <= a < b < i ==> prices@[a] <= prices@[b],
        decreases prices@.len() - i,
    {
        let mut j: usize = i;
        while j > 0 && prices[j - 1] > prices[j]
            invariant
                0 <= j <= i < prices@.len(),
                prices@.len() == orig.len(),
                prices@.to_multiset() == orig.to_multiset(),
                forall|a: int, b: int| 0 <= a < b <= i && b != j ==> prices@[a] <= prices@[b],
                forall|a: int| j < a <= i ==> prices@[j as int] <= prices@[a],
            decreases j,
        {
            broadcast use vstd::seq_lib::group_to_multiset_ensures;

            let ghost pre = prices@;
            let lower = prices[j - 1];
            let upper = prices[j];
            prices.set(j - 1, upper);
            prices.set(j, lower);
            proof {
                assert(prices@ =~= pre.update(j - 1, pre[j as int]).update(j as int, pre[j - 1]));
                assert(prices@.to_multiset() =~= pre.to_multiset());
            }
            j = j - 1;
        }
        proof {
            assert forall|a: int, b: int| 0 <= a < b <= i implies prices@[a] <= prices@[b] by {
                if b == j && j > 0 && a < j - 1 {
                    assert(prices@[a] <= prices@[j - 1]);
                }
            }
        }
        i = i + 1;
    }
    proof {
        lemma_u64_leq_total();
        assert(sorted_by(prices@, leq));
        orig.lemma_sort_by_ensures(leq);
        lemma_sorted_unique(prices@, orig.sort_by(leq), leq);
    }
}

/// The median of a sorted, non-empty price vector.
fn median_of_sorted(prices: &Vec<u64>) -> (m: u64)
    requires
        prices@.len() > 0,
    ensures
        m == spec_median(prices@),
{
    let n = prices.len();
    if n % 2 == 0 {
        let a = prices[n / 2 - 1];
        let b = prices[n / 2];
        ((a as u128 + b as u128) / 2) as u64
    } else {
        prices[n / 2]
    }
}

/// The prices of a submission sequence, in order.
pub open spec fn spec_prices_of(submissions: Seq<PriceData>) -> Seq<u64> {
    submissions.map_values(|s: PriceData| s.price)
}

/// Smallest element of a non-empty price sequence.
pub open spec fn seq_min(s: Seq<u64>) -> u64
    recommends
        s.len() > 0,
    decreases s.len(),
{
    if s.len() <= 1 {
        s[0]
    } else {
        let rest = seq_min(s.drop_last());
        if s.last() < rest {
            s.last()
        } else {
            rest
        }
    }
}

/// Largest element of a non-empty price sequence.
pub open spec fn seq_max(s: Seq<u64>) -> u64
    recommends
        s.len() > 0,
    decreases s.len(),
{
    if s.len() <= 1 {
        s[0]
    } else {
        let rest = seq_max(s.drop_last());
        if s.last() > rest {
            s.last()
        } else {
            rest
        }
    }
}

pub proof fn lemma_seq_min_max(s: Seq<u64>)
    requires
        s.len() > 0,
    ensures
        forall|i: int| 0 <= i < s.len() ==> seq_min(s) <= #[trigger] s[i] <= seq_max(s),
    decreases s.len(),
{
    if s.len() > 1 {
        lemma_seq_min_max(s.drop_last());
        assert forall|i: int| 0 <= i < s.len() implies seq_min(s) <= #[trigger] s[i] <= seq_max(
            s,
        ) by {
            if i < s.len() - 1 {
                assert(s[i] == s.drop_last()[i]);
            }
        }
    }
}

/// Everything in the weight-replicated sequence is one of the
/// submissions' prices.
pub proof fn lemma_weighted_prices_membership(
    submissions: Seq<PriceData>,
    oracle_nodes: Seq<OracleNode>,
)
    ensures
        forall|x: u64| #[trigger] spec_weighted_prices(submissions, oracle_nodes).contains(x)
            ==> spec_prices_of(submissions).contains(x),
    decreases submissions.len(),
{
    if submissions.len() > 0 {
        lemma_weighted_prices_membership(submissions.drop_last(), oracle_nodes);
        let w = spec_weighted_prices(submissions, oracle_nodes);
        let wd = spec_weighted_prices(submissions.drop_last(), oracle_nodes);
        assert forall|x: u64| #[trigger] w.contains(x) implies spec_prices_of(
            submissions,
        ).contains(x) by {
            let idx = choose|idx: int| 0 <= idx < w.len() && w[idx] == x;
            if idx < wd.len() {
                assert(wd[idx] == x);
                assert(wd.contains(x));
                let j = choose|j: int|
                    0 <= j < spec_prices_of(submissions.drop_last()).len() && spec_prices_of(
                        submissions.drop_last(),
                    )[j] == x;
                assert(spec_prices_of(submissions)[j] == x);
            } else {
                assert(x == submissions.last().price);
                assert(spec_prices_of(submissions)[submissions.len() - 1] == x);
            }
        }
    }
}

/// When every submission comes from a registered node, at least one price
/// carries weight.
pub proof fn lemma_weighted_prices_nonempty(
    submissions: Seq<PriceData>,
    oracle_nodes: Seq<OracleNode>,
)
    requires
        submissions.len() > 0,
        forall|i: int| 0 <= i < submissions.len() ==> spec_find_node(
            oracle_nodes,
            (#[trigger] submissions[i]).oracle_node,
        ) is Some,
    ensures
        spec_weighted_prices(submissions, oracle_nodes).len() > 0,
{
    let sub = submissions.last();
    assert(spec_find_node(oracle_nodes, submissions[submissions.len() - 1].oracle_node) is Some);
    let node = spec_find_node(oracle_nodes, sub.oracle_node)->Some_0;
    lemma_node_weight_bounds(node, sub);
}

/// The median of a sorted, non-empty sequence lies between its ends.
pub proof fn lemma_median_in_range(s: Seq<u64>)
    requires
        s.len() > 0,
        sorted_by(s, u64_leq()),
    ensures
        s[0] <= spec_median(s) <= s[s.len() - 1],
{
    let leq = u64_leq();
    if s.len() % 2 == 0 {
        let mid = s.len() as int / 2;
        let a = s[mid - 1];
        let b = s[mid];
        assert(leq(a, b));
        if mid - 1 > 0 {
            assert(leq(s[0], a));
        }
        if mid < s.len() - 1 {
            assert(leq(b, s[s.len() - 1]));
        }
        assert(a <= (a + b) / 2 <= b) by {
            vstd::arithmetic::div_mod::lemma_div_is_ordered(2 * (a as int), a + b, 2);
            vstd::arithmetic::div_mod::lemma_div_is_ordered(a + b, 2 * (b as int), 2);
            vstd::arithmetic::div_mod::lemma_div_multiples_vanish(a as int, 2);
            vstd::arithmetic::div_mod::lemma_div_multiples_vanish(b as int, 2);
        }
    } else {
        let mid = s.len() as int / 2;
        if mid > 0 {
            assert(leq(s[0], s[mid]));
        }
        if mid < s.len() - 1 {
            assert(leq(s[mid], s[s.len() - 1]));
        }
    }
}

/// The weighted median of submissions from registered nodes lies within
/// the range their prices span.
pub proof fn lemma_weighted_median_in_price_range(
    submissions: Seq<PriceData>,
    oracle_nodes: Seq<OracleNode>,
)
    requires
        submissions.len() > 0,
        forall|i: int| 0 <= i < submissions.len() ==> spec_find_node(
            oracle_nodes,
            (#[trigger] submissions[i]).oracle_node,
        ) is Some,
    ensures
        seq_min(spec_prices_of(submissions)) <= spec_weighted_median(submissions, oracle_nodes)
            <= seq_max(spec_prices_of(submissions)),
{
    broadcast use vstd::seq_lib::group_to_multiset_ensures;

    let leq = u64_leq();
    let w = spec_weighted_prices(submissions, oracle_nodes);
    let sorted = w.sort_by(leq);
    lemma_weighted_prices_nonempty(submissions, oracle_nodes);
    lemma_u64_leq_total();
    w.lemma_sort_by_ensures(leq);
    assert(sorted.to_multiset().len() == sorted.len());
    assert(w.to_multiset().len() == w.len());
    lemma_median_in_range(sorted);
    lemma_weighted_prices_membership(submissions, oracle_nodes);
    lemma_seq_min_max(spec_prices_of(submissions));
    let lo = sorted[0];
    let hi = sorted[sorted.len() - 1];
    assert(sorted.contains(lo) && sorted.contains(hi));
    assert(w.contains(lo) && w.contains(hi));
    assert(spec_prices_of(submissions).contains(lo));
    assert(spec_prices_of(submissions).contains(hi));
    let li = choose|i: int|
        0 <= i < spec_prices_of(submissions).len() && spec_prices_of(submissions)[i] == lo;
    let hj = choose|j: int|
        0 <= j < spec_prices_of(submissions).len() && spec_prices_of(submissions)[j] == hi;
    assert(seq_min(spec_prices_of(submissions)) <= spec_prices_of(submissions)[li]);
    assert(spec_prices_of(submissions)[hj] <= seq_max(spec_prices_of(submissions)));
}

/// Removing one submission removes exactly its replica from the
/// weighted multiset.
proof fn lemma_weighted_prices_remove(
    submissions: Seq<PriceData>,
    oracle_nodes: Seq<OracleNode>,
    j: int,
)
    requires
        0 <= j < submissions.len(),
    ensures
        spec_weighted_prices(submissions, oracle_nodes).to_multiset() == spec_weighted_prices(
            submissions.remove(j),
            oracle_nodes,
        ).to_multiset().add(spec_replica(submissions[j], oracle_nodes).to_multiset()),
    decreases submissions.len(),
{
    broadcast use vstd::seq_lib::lemma_multiset_commutative;
    broadcast use vstd::multiset::group_multiset_axioms;

    let w = spec_weighted_prices(submissions, oracle_nodes);
    let wd = spec_weighted_prices(submissions.drop_last(), oracle_nodes);
    let rep_last = spec_replica(submissions.last(), oracle_nodes);
    if j == submissions.len() - 1 {
        assert(submissions.remove(j) =~= submissions.drop_last());
    } else {
        lemma_weighted_prices_remove(submissions.drop_last(), oracle_nodes, j);
        assert(submissions.remove(j).drop_last() =~= submissions.drop_last().remove(j));
        assert(submissions.remove(j).last() == submissions.last());
        let wdr = spec_weighted_prices(submissions.drop_last().remove(j), oracle_nodes);
        let rep_j = spec_replica(submissions[j], oracle_nodes);
        assert(submissions.drop_last()[j] == submissions[j]);
        assert(w.to_multiset() =~= wdr.to_multiset().add(rep_j.to_multiset()).add(
            rep_last.to_multiset(),
        ));
        assert(spec_weighted_prices(submissions.remove(j), oracle_nodes).to_multiset()
            =~= wdr.to_multiset().add(rep_last.to_multiset()));
        assert(wdr.to_multiset().add(rep_j.to_multiset()).add(rep_last.to_multiset())
            =~= wdr.to_multiset().add(rep_last.to_multiset()).add(rep_j.to_multiset()));
    }
}

/// Submission sets that hold the same submissions, in any order, build
/// the same weighted multiset.
proof fn lemma_weighted_prices_permutation(
    submissions1: Seq<PriceData>,
    submissions2: Seq<PriceData>,
    oracle_nodes: Seq<OracleNode>,
)
    requires
        submissions1.to_multiset() == submissions2.to_multiset(),
    ensures
        spec_weighted_prices(submissions1, oracle_nodes).to_multiset() == spec_weighted_prices(
            submissions2,
            oracle_nodes,
        ).to_multiset(),
    decreases submissions1.len(),
{
    broadcast use vstd::seq_lib::group_to_multiset_ensures;
    broadcast use vstd::seq_lib::lemma_multiset_commutative;
    broadcast use vstd::multiset::group_multiset_axioms;

    if submissions1.len() == 0 {
        assert(submissions2.to_multiset().len() == 0);
        assert(submissions2.len() == 0);
    } else {
        let x = submissions1.last();
        assert(submissions1.to_multiset().count(x) > 0) by {
            assert(submissions1.contains(x));
        }
        assert(submissions2.contains(x));
        let j = choose|j: int| 0 <= j < submissions2.len() && submissions2[j] == x;
        assert(submissions1.drop_last() =~= submissions1.remove(submissions1.len() - 1));
        assert(submissions1.drop_last().to_multiset() == submissions1.to_multiset().remove(x));
        assert(submissions2.remove(j).to_multiset() == submissions2.to_multiset().remove(x));
        lemma_weighted_prices_permutation(
            submissions1.drop_last(),
            submissions2.remove(j),
            oracle_nodes,
        );
        lemma_weighted_prices_remove(submissions2, oracle_nodes, j);
        assert(spec_weighted_prices(submissions1, oracle_nodes).to_multiset()
            =~= spec_weighted_prices(submissions1.drop_last(), oracle_nodes).to_multiset().add(
            spec_replica(x, oracle_nodes).to_multiset(),
        ));
    }
}

/// The weighted median does not depend on the order submissions arrive
/// in: submission sets that are permutations of one another - in
/// particular, reorderings of equal-weight submissions - yield the same
/// weighted median against the same registry.
pub proof fn lemma_weighted_median_permutation(
    submissions1: Seq<PriceData>,
    submissions2: Seq<PriceData>,
    oracle_nodes: Seq<OracleNode>,
)
    requires
        submissions1.to_multiset() == submissions2.to_multiset(),
    ensures
        spec_weighted_median(submissions1, oracle_nodes) == spec_weighted_median(
            submissions2,
            oracle_nodes,
        ),
{
    let leq = u64_leq();
    let w1 = spec_weighted_prices(submissions1, oracle_nodes);
    let w2 = spec_weighted_prices(submissions2, oracle_nodes);
    lemma_weighted_prices_permutation(submissions1, submissions2, oracle_nodes);
    lemma_u64_leq_total();
    w1.lemma_sort_by_ensures(leq);
    w2.lemma_sort_by_ensures(leq);
    lemma_sorted_unique(w1.sort_by(leq), w2.sort_by(leq), leq);
    assert(w1.sort_by(leq) == w2.sort_by(leq));
}

/// The unweighted median of a submission set's prices.
pub open spec fn spec_unweighted_median(submissions: Seq<PriceData>) -> u64 {
    spec_median(spec_prices_of(submissions).sort_by(u64_leq()))
}

/// Within the tolerated band around the median: off by no more than
/// `MAX_PRICE_DEVIATION` percent of the median (with floor division).
pub open spec fn spec_within_deviation(price: u64, median: u64) -> bool {
    let dev = if price > median {
        price - median
    } else {
        median - price
    };
    dev <= median * MAX_PRICE_DEVIATION / 100
}

/// Outlier removal: with at least three submissions, only those within
/// the tolerated band around the unweighted median survive; smaller sets
/// pass through unchanged.
pub open spec fn spec_remove_outliers(submissions: Seq<PriceData>) -> Seq<PriceData> {
    if submissions.len() < 3 {
        submissions
    } else {
        submissions.filter(
            |s: PriceData| spec_within_deviation(s.price, spec_unweighted_median(submissions)),
        )
    }
}

/// A submission enters aggregation only when it is valid, fresh, and from
/// a registered, currently eligible node.
pub open spec fn spec_submission_admissible(
    s: PriceData,
    oracle_nodes: Seq<OracleNode>,
    now: u64,
) -> bool {
    &&& s.spec_is_valid()
    &&& !s.spec_is_stale(now)
    &&& match spec_find_node(oracle_nodes, s.oracle_node) {
        Some(node) => node.spec_is_eligible(now),
        None => false,
    }
}

pub open spec fn spec_basic_filter(
    submissions: Seq<PriceData>,
    oracle_nodes: Seq<OracleNode>,
    now: u64,
) -> Seq<PriceData> {
    submissions.filter(|s: PriceData| spec_submission_admissible(s, oracle_nodes, now))
}

/// The submissions that survive both admission filtering and outlier
/// removal: exactly these feed the weighted median.
pub open spec fn spec_surviving(
    submissions: Seq<PriceData>,
    oracle_nodes: Seq<OracleNode>,
    now: u64,
) -> Seq<PriceData> {
    spec_remove_outliers(spec_basic_filter(submissions, oracle_nodes, now))
}

/// Sum of `confidence * weight` over submissions from registered nodes.
pub open spec fn spec_conf_weight_sum(
    submissions: Seq<PriceData>,
    oracle_nodes: Seq<OracleNode>,
) -> int
    decreases submissions.len(),
{
    if submissions.len() == 0 {
        0
    } else {
        spec_conf_weight_sum(submissions.drop_last(), oracle_nodes) + match spec_find_node(
            oracle_nodes,
            submissions.last().oracle_node,
        ) {
            Some(node) => submissions.last().confidence * spec_node_weight(
                node,
                submissions.last(),
            ),
            None => 0,
        }
    }
}

/// Sum of weights over submissions from registered nodes.
pub open spec fn spec_weight_sum(submissions: Seq<PriceData>, oracle_nodes: Seq<OracleNode>) -> int
    decreases submissions.len(),
{
    if submissions.len() == 0 {
        0
    } else {
        spec_weight_sum(submissions.drop_last(), oracle_nodes) + match spec_find_node(
            oracle_nodes,
            submissions.last().oracle_node,
        ) {
            Some(node) => spec_node_weight(node, submissions.last()),
            None => 0,
        }
    }
}

/// The bonus an aggregate's confidence earns from its number of sources.
pub open spec fn spec_source_bonus(n: nat) -> int {
    if n == 1 {
        0
    } else if n == 2 {
        5
    } else if 3 <= n <= 5 {
        10
    } else {
        15
    }
}

/// Aggregate confidence: the weight-proportional average of the
/// submissions' confidence values plus the source-count bonus, capped at
/// 100; zero when nothing carries weight.
pub open spec fn spec_confidence(submissions: Seq<PriceData>, oracle_nodes: Seq<OracleNode>) -> int {
    if submissions.len() == 0 {
        0
    } else if spec_weight_sum(submissions, oracle_nodes) == 0 {
        0
    } else {
        let wc = spec_conf_weight_sum(submissions, oracle_nodes) / spec_weight_sum(
            submissions,
            oracle_nodes,
        ) + spec_source_bonus(submissions.len());
        if wc > 100 {
            100
        } else {
            wc
        }
    }
}

/// Sum of the submissions' prices.
pub open spec fn spec_price_sum(submissions: Seq<PriceData>) -> int
    decreases submissions.len(),
{
    if submissions.len() == 0 {
        0
    } else {
        spec_price_sum(submissions.drop_last()) + submissions.last().price
    }
}

/// Percentage deviation of one price from a positive mean, with floor
/// division.
pub open spec fn spec_dev_pct(price: u64, mean: int) -> int
    recommends
        mean > 0,
{
    let dev = if price >= mean {
        price - mean
    } else {
        mean - price
    };
    dev * 100 / mean
}

/// Largest percentage deviation of any submission's price from the mean.
pub open spec fn spec_max_dev_pct(submissions: Seq<PriceData>, mean: int) -> int
    decreases submissions.len(),
{
    if submissions.len() == 0 {
        0
    } else {
        let rest = spec_max_dev_pct(submissions.drop_last(), mean);
        let d = spec_dev_pct(submissions.last().price, mean);
        if d > rest {
            d
        } else {
            rest
        }
    }
}

/// Aggregate deviation: the largest percentage deviation of a
/// contributing price from the simple mean of all contributing prices,
/// capped at 100; zero for fewer than two submissions, 100 when the mean
/// is zero.
pub open spec fn spec_deviation(submissions: Seq<PriceData>) -> int {
    if submissions.len() < 2 {
        0
    } else {
        let mean = spec_price_sum(submissions) / submissions.len() as int;
        if mean == 0 {
            100
        } else {
            let d = spec_max_dev_pct(submissions, mean);
            if d > 100 {
                100
            } else {
                d
            }
        }
    }
}

/// The aggregate a submission set produces at `now`: the weighted median
/// of the surviving submissions, their count, confidence and deviation.
pub open spec fn spec_aggregate(
    now: u64,
    asset_symbol: u64,
    submissions: Seq<PriceData>,
    oracle_nodes: Seq<OracleNode>,
) -> AggregatedPrice {
    let surv = spec_surviving(submissions, oracle_nodes, now);
    AggregatedPrice {
        asset_symbol,
        price: spec_weighted_median(surv, oracle_nodes),
        timestamp: now,
        num_sources: surv.len() as u32,
        confidence: spec_confidence(surv, oracle_nodes) as u32,
        deviation: spec_deviation(surv) as u32,
    }
}

/// The outcome of one aggregation round, as a single expression: no
/// data, nothing surviving, an unreliable result, or the aggregate.
pub open spec fn spec_aggregate_result(
    now: u64,
    asset_symbol: u64,
    submissions: Seq<PriceData>,
    oracle_nodes: Seq<OracleNode>,
) -> Result<AggregatedPrice, OracleError> {
    if submissions.len() == 0 {
        Err(OracleError::NoPriceData)
    } else if spec_surviving(submissions, oracle_nodes, now).len() == 0 {
        Err(OracleError::NoValidSubmissions)
    } else {
        let ap = spec_aggregate(now, asset_symbol, submissions, oracle_nodes);
        if ap.spec_is_reliable() {
            Ok(ap)
        } else {
            Err(OracleError::UnreliablePrice)
        }
    }
}

/// A submission was accurate when it landed within five percent of the
/// aggregated price; against a zero aggregate nothing counts as accurate.
pub open spec fn spec_was_accurate(submitted: u64, aggregated: u64) -> bool {
    if aggregated > 0 {
        spec_dev_pct(submitted, aggregated as int) <= 5
    } else {
        false
    }
}

/// The most recent retained aggregate for the asset that is still
/// reliable and young enough to serve as a fallback.
pub open spec fn spec_fallback_price(
    history: Seq<AggregatedPrice>,
    asset_symbol: u64,
    now: u64,
) -> Option<u64>
    decreases history.len(),
{
    if history.len() == 0 {
        None
    } else {
        let entry = history.last();
        if entry.asset_symbol == asset_symbol && entry.spec_is_reliable()
            && !entry.spec_is_stale_for_fallback(now) {
            Some(entry.price)
        } else {
            spec_fallback_price(history.drop_last(), asset_symbol, now)
        }
    }
}

/// Aggregation arithmetic, kept together as in the interface the engine
/// builds on.
pub struct PriceAggregator;

impl PriceAggregator {
    /// The weight one submission carries, see [`spec_node_weight`].
    pub fn calculate_node_weight(node: &OracleNode, submission: &PriceData) -> (w: u64)
        ensures
            w == spec_node_weight(*node, *submission),
            1 <= w,
    {
        proof {
            lemma_node_weight_bounds(*node, *submission);
        }
        let mut rep_m: u64 = (node.reputation_score as u64) / 10;
        if rep_m < 1 {
            rep_m = 1;
        }
        let mut conf_m: u64 = (submission.confidence as u64) / 20;
        if conf_m < 1 {
            conf_m = 1;
        }
        let mut stake_m: u64 = node.stake_amount / STAKE_TIER_UNIT;
        if stake_m < 1 {
            stake_m = 1;
        }
        if stake_m > 5 {
            stake_m = 5;
        }
        assert(rep_m * conf_m <= 429496729 * 214748364 && rep_m * conf_m * stake_m <= 429496729
            * 214748364 * 5) by (nonlinear_arith)
            requires
                1 <= rep_m <= 429496729,
                1 <= conf_m <= 214748364,
                1 <= stake_m <= 5,
        ;
        rep_m * conf_m * stake_m
    }

    /// Build the weight-replicated price multiset, sort it, and take its
    /// median. With no submissions there is no price data; when no
    /// submission's node is registered, nothing carries weight.
    pub fn calculate_weighted_median(
        submissions: &Vec<PriceData>,
        oracle_nodes: &Vec<OracleNode>,
    ) -> (r: Result<u64, OracleError>)
        ensures
            submissions@.len() == 0 ==> r == Err::<u64, OracleError>(OracleError::NoPriceData),
            submissions@.len() > 0 && spec_weighted_prices(submissions@, oracle_nodes@).len() == 0
                ==> r == Err::<u64, OracleError>(OracleError::NoWeightedData),
            spec_weighted_prices(submissions@, oracle_nodes@).len() > 0 ==> r == Ok::<
                u64,
                OracleError,
            >(spec_weighted_median(submissions@, oracle_nodes@)),
    {
        if submissions.len() == 0 {
            return Err(OracleError::NoPriceData);
        }
        let mut weighted: Vec<u64> = Vec::new();
        let mut i: usize = 0;
        proof {
            assert(weighted@ =~= spec_weighted_prices(submissions@.take(0), oracle_nodes@));
        }
        while i < submissions.len()
            invariant
                0 <= i <= submissions@.len(),
                weighted@ == spec_weighted_prices(submissions@.take(i as int), oracle_nodes@),
            decreases submissions@.len() - i,
        {
            let sub = submissions[i];
            proof {
                assert(submissions@.take(i + 1).drop_last() =~= submissions@.take(i as int));
                assert(submissions@.take(i + 1).last() == submissions@[i as int]);
            }
            let found = find_node(oracle_nodes, sub.oracle_node);
            match found {
                Some(node) => {
                    let w = Self::calculate_node_weight(&node, &sub);
                    let ghost before = weighted@;
                    let mut k: u64 = 0;
                    while k < w
                        invariant
                            0 <= k <= w,
                            weighted@ == before + Seq::new(k as nat, |x: int| sub.price),
                        decreases w - k,
                    {
                        weighted.push(sub.price);
                        proof {
                            assert(weighted@ =~= before + Seq::new(
                                (k + 1) as nat,
                                |x: int| sub.price,
                            ));
                        }
                        k = k + 1;
                    }
                    proof {
                        assert(Seq::new(w as nat, |x: int| sub.price) =~= Seq::new(
                            spec_node_weight(node, sub) as nat,
                            |x: int| sub.price,
                        ));
                        assert(weighted@ == spec_weighted_prices(
                            submissions@.take(i + 1),
                            oracle_nodes@,
                        ));
                    }
                },
                None => {
                    proof {
                        assert(weighted@ =~= weighted@ + Seq::<u64>::empty());
                        assert(weighted@ == spec_weighted_prices(
                            submissions@.take(i + 1),
                            oracle_nodes@,
                        ));
                    }
                },
            }
            i = i + 1;
        }
        proof {
            lemma_take_all(submissions@);
        }
        if weighted.len() == 0 {
            return Err(OracleError::NoWeightedData);
        }
        let ghost unsorted = weighted@;
        sort_prices(&mut weighted);
        proof {
            broadcast use vstd::seq_lib::group_to_multiset_ensures;

            lemma_u64_leq_total();
            unsorted.lemma_sort_by_ensures(u64_leq());
            assert(weighted@.to_multiset() =~= unsorted.to_multiset());
            assert(unsorted.to_multiset().len() == unsorted.len());
            assert(weighted@.to_multiset().len() == weighted@.len());
        }
        let m = median_of_sorted(&weighted);
        Ok(m)
    }

    /// Drop submissions that stray more than the tolerated deviation from
    /// the unweighted median; sets of fewer than three pass unchanged.
    pub fn remove_outliers(submissions: Vec<PriceData>) -> (r: Vec<PriceData>)
        ensures
            r@ == spec_remove_outliers(submissions@),
    {
        if submissions.len() < 3 {
            return submissions;
        }
        let mut prices: Vec<u64> = Vec::new();
        let mut i: usize = 0;
        while i < submissions.len()
            invariant
                0 <= i <= submissions@.len(),
                prices@.len() == i,
                forall|j: int| 0 <= j < i ==> prices@[j] == (#[trigger] submissions@[j]).price,
            decreases submissions@.len() - i,
        {
            prices.push(submissions[i].price);
            i = i + 1;
        }
        proof {
            assert(prices@ =~= spec_prices_of(submissions@));
        }
        let ghost unsorted = prices@;
        sort_prices(&mut prices);
        proof {
            broadcast use vstd::seq_lib::group_to_multiset_ensures;

            lemma_u64_leq_total();
            unsorted.lemma_sort_by_ensures(u64_leq());
            assert(prices@.to_multiset() =~= unsorted.to_multiset());
            assert(unsorted.to_multiset().len() == unsorted.len());
            assert(prices@.to_multiset().len() == prices@.len());
        }
        let median = median_of_sorted(&prices);
        proof {
            assert(median == spec_unweighted_median(submissions@));
        }
        let mut filtered: Vec<PriceData> = Vec::new();
        let ghost pred = |s: PriceData|
            spec_within_deviation(s.price, spec_unweighted_median(submissions@));
        let mut k: usize = 0;
        proof {
            assert(submissions@.take(0).filter(pred) =~= Seq::<PriceData>::empty());
        }
        while k < submissions.len()
            invariant
                0 <= k <= submissions@.len(),
                filtered@ == submissions@.take(k as int).filter(pred),
                median == spec_unweighted_median(submissions@),
                pred == (|s: PriceData|
                    spec_within_deviation(s.price, spec_unweighted_median(submissions@))),
            decreases submissions@.len() - k,
        {
            proof {
                lemma_filter_take_step(submissions@, pred, k as int);
            }
            let sub = submissions[k];
            let deviation = if sub.price > median {
                sub.price - median
            } else {
                median - sub.price
            };
            let max_deviation = (median as u128) * (MAX_PRICE_DEVIATION as u128) / 100;
            if (deviation as u128) <= max_deviation {
                filtered.push(sub);
            }
            k = k + 1;
        }
        proof {
            lemma_take_all(submissions@);
        }
        filtered
    }

    /// Keep the valid, fresh submissions of eligible registered nodes,
    /// then remove outliers among them.
    pub fn filter_valid_submissions(
        now: u64,
        submissions: &Vec<PriceData>,
        oracle_nodes: &Vec<OracleNode>,
    ) -> (r: Vec<PriceData>)
        ensures
            r@ == spec_surviving(submissions@, oracle_nodes@, now),
    {
        let mut valid: Vec<PriceData> = Vec::new();
        let ghost pred = |s: PriceData| spec_submission_admissible(s, oracle_nodes@, now);
        let mut i: usize = 0;
        proof {
            assert(submissions@.take(0).filter(pred) =~= Seq::<PriceData>::empty());
        }
        while i < submissions.len()
            invariant
                0 <= i <= submissions@.len(),
                valid@ == submissions@.take(i as int).filter(pred),
                pred == (|s: PriceData| spec_submission_admissible(s, oracle_nodes@, now)),
            decreases submissions@.len() - i,
        {
            proof {
                lemma_filter_take_step(submissions@, pred, i as int);
            }
            let sub = submissions[i];
            if sub.is_valid() && !sub.is_stale(now) {
                match find_node(oracle_nodes, sub.oracle_node) {
                    Some(node) => {
                        if node.is_eligible(now) {
                            valid.push(sub);
                        }
                    },
                    None => {},
                }
            }
            i = i + 1;
        }
        proof {
            lemma_take_all(submissions@);
        }
        Self::remove_outliers(valid)
    }

    /// Weight-proportional average of the submissions' confidence values
    /// plus the source-count bonus, capped at 100.
    pub fn calculate_confidence(
        submissions: &Vec<PriceData>,
        oracle_nodes: &Vec<OracleNode>,
    ) -> (r: u32)
        requires
            submissions@.len() <= u32::MAX,
        ensures
            r == spec_confidence(submissions@, oracle_nodes@),
    {
        if submissions.len() == 0 {
            return 0;
        }
        let mut total_confidence: u128 = 0;
        let mut total_weight: u128 = 0;
        let mut i: usize = 0;
        proof {
            assert(spec_conf_weight_sum(submissions@.take(0), oracle_nodes@) == 0);
            assert(spec_weight_sum(submissions@.take(0), oracle_nodes@) == 0);
        }
        while i < submissions.len()
            invariant
                0 <= i <= submissions@.len(),
                submissions@.len() <= u32::MAX,
                total_confidence == spec_conf_weight_sum(
                    submissions@.take(i as int),
                    oracle_nodes@,
                ),
                total_weight == spec_weight_sum(submissions@.take(i as int), oracle_nodes@),
                total_confidence <= (i as int) * 0x800000000000000000000000,
                total_weight <= (i as int) * 0x8000000000000000,
            decreases submissions@.len() - i,
        {
            let sub = submissions[i];
            proof {
                assert(submissions@.take(i + 1).drop_last() =~= submissions@.take(i as int));
                assert(submissions@.take(i + 1).last() == submissions@[i as int]);
            }
            match find_node(oracle_nodes, sub.oracle_node) {
                Some(node) => {
                    let w = Self::calculate_node_weight(&node, &sub);
                    proof {
                        lemma_node_weight_bounds(node, sub);
                        assert((sub.confidence as int) * (w as int) < 0x800000000000000000000000)
                            by (nonlinear_arith)
                            requires
                                0 <= sub.confidence < 0x100000000,
                                0 <= w < 0x8000000000000000,
                        ;
                    }
                    total_confidence = total_confidence + (sub.confidence as u128) * (w as u128);
                    total_weight = total_weight + (w as u128);
                },
                None => {},
            }
            i = i + 1;
        }
        proof {
            lemma_take_all(submissions@);
        }
        if total_weight == 0 {
            return 0;
        }
        let weighted_confidence: u128 = total_confidence / total_weight;
        proof {
            vstd::arithmetic::div_mod::lemma_div_is_ordered_by_denominator(
                total_confidence as int,
                1,
                total_weight as int,
            );
        }
        let n = submissions.len();
        let source_bonus: u128 = if n == 1 {
            0
        } else if n == 2 {
            5
        } else if n <= 5 {
            10
        } else {
            15
        };
        let capped: u128 = if weighted_confidence + source_bonus > 100 {
            100
        } else {
            weighted_confidence + source_bonus
        };
        capped as u32
    }

    /// Largest percentage deviation of a submission's price from the
    /// simple mean of all prices, capped at 100.
    pub fn calculate_price_deviation(submissions: &Vec<PriceData>) -> (r: u32)
        ensures
            r == spec_deviation(submissions@),
    {
        if submissions.len() < 2 {
            return 0;
        }
        let mut sum: u128 = 0;
        let mut i: usize = 0;
        while i < submissions.len()
            invariant
                0 <= i <= submissions@.len(),
                sum == spec_price_sum(submissions@.take(i as int)),
                sum <= (i as int) * 0xFFFFFFFFFFFFFFFF,
            decreases submissions@.len() - i,
        {
            proof {
                assert(submissions@.take(i + 1).drop_last() =~= submissions@.take(i as int));
                assert(submissions@.take(i + 1).last() == submissions@[i as int]);
            }
            sum = sum + (submissions[i].price as u128);
            i = i + 1;
        }
        proof {
            lemma_take_all(submissions@);
        }
        let n: u128 = submissions.len() as u128;
        let mean_wide: u128 = sum / n;
        proof {
            vstd::arithmetic::div_mod::lemma_multiply_divide_le(
                sum as int,
                n as int,
                0xFFFFFFFFFFFFFFFF,
            );
        }
        let mean: u64 = mean_wide as u64;
        if mean == 0 {
            return 100;
        }
        let mut max_deviation: u128 = 0;
        let mut k: usize = 0;
        proof {
            assert(spec_max_dev_pct(submissions@.take(0), mean as int) == 0);
        }
        while k < submissions.len()
            invariant
                0 <= k <= submissions@.len(),
                mean > 0,
                max_deviation == spec_max_dev_pct(submissions@.take(k as int), mean as int),
                max_deviation <= 0x800000000000000000,
            decreases submissions@.len() - k,
        {
            proof {
                assert(submissions@.take(k + 1).drop_last() =~= submissions@.take(k as int));
                assert(submissions@.take(k + 1).last() == submissions@[k as int]);
            }
            let price = submissions[k].price;
            let deviation: u64 = if price > mean {
                price - mean
            } else {
                mean - price
            };
            let pct: u128 = (deviation as u128) * 100 / (mean as u128);
            proof {
                vstd::arithmetic::div_mod::lemma_div_is_ordered(
                    pct as int,
                    (deviation as int) * 100,
                    1,
                );
            }
            if pct > max_deviation {
                max_deviation = pct;
            }
            k = k + 1;
        }
        proof {
            lemma_take_all(submissions@);
        }
        if max_deviation > 100 {
            100
        } else {
            max_deviation as u32
        }
    }

    /// One aggregation round over a submission set: filter, remove
    /// outliers, take the weighted median, grade confidence and
    /// deviation, and hand the aggregate out only when it is reliable.
    /// A successful round's price always lies within the range the
    /// surviving submissions' prices span.
    pub fn aggregate_prices(
        now: u64,
        asset_symbol: u64,
        price_submissions: &Vec<PriceData>,
        oracle_nodes: &Vec<OracleNode>,
    ) -> (r: Result<AggregatedPrice, OracleError>)
        requires
            price_submissions@.len() <= u32::MAX,
        ensures
            r == spec_aggregate_result(now, asset_symbol, price_submissions@, oracle_nodes@),
            price_submissions@.len() == 0 ==> r == Err::<AggregatedPrice, OracleError>(
                OracleError::NoPriceData,
            ),
            price_submissions@.len() > 0 && spec_surviving(
                price_submissions@,
                oracle_nodes@,
                now,
            ).len() == 0 ==> r == Err::<AggregatedPrice, OracleError>(
                OracleError::NoValidSubmissions,
            ),
            price_submissions@.len() > 0 && spec_surviving(
                price_submissions@,
                oracle_nodes@,
                now,
            ).len() > 0 ==> {
                let ap = spec_aggregate(now, asset_symbol, price_submissions@, oracle_nodes@);
                &&& ap.spec_is_reliable() ==> r == Ok::<AggregatedPrice, OracleError>(ap)
                &&& !ap.spec_is_reliable() ==> r == Err::<AggregatedPrice, OracleError>(
                    OracleError::UnreliablePrice,
                )
                &&& seq_min(
                    spec_prices_of(spec_surviving(price_submissions@, oracle_nodes@, now)),
                ) <= ap.price <= seq_max(
                    spec_prices_of(spec_surviving(price_submissions@, oracle_nodes@, now)),
                )
            },
    {
        if price_submissions.len() == 0 {
            return Err(OracleError::NoPriceData);
        }
        let valid = Self::filter_valid_submissions(now, price_submissions, oracle_nodes);
        if valid.len() == 0 {
            return Err(OracleError::NoValidSubmissions);
        }
        proof {
            let ghost basic = spec_basic_filter(price_submissions@, oracle_nodes@, now);
            let ghost adm = |s: PriceData| spec_submission_admissible(s, oracle_nodes@, now);
            lemma_filter_sound(price_submissions@, adm);
            if basic.len() >= 3 {
                lemma_filter_sound(
                    basic,
                    |s: PriceData|
                        spec_within_deviation(s.price, spec_unweighted_median(basic)),
                );
            }
            assert forall|i: int| 0 <= i < valid@.len() implies spec_find_node(
                oracle_nodes@,
                (#[trigger] valid@[i]).oracle_node,
            ) is Some by {
                assert(spec_submission_admissible(valid@[i], oracle_nodes@, now));
            }
            lemma_weighted_prices_nonempty(valid@, oracle_nodes@);
            lemma_weighted_median_in_price_range(valid@, oracle_nodes@);
        }
        let median = match Self::calculate_weighted_median(&valid, oracle_nodes) {
            Ok(m) => m,
            Err(e) => {
                return Err(e);
            },
        };
        let confidence = Self::calculate_confidence(&valid, oracle_nodes);
        let deviation = Self::calculate_price_deviation(&valid);
        let result = AggregatedPrice::new(
            asset_symbol,
            median,
            valid.len() as u32,
            confidence,
            deviation,
            now,
        );
        if result.is_reliable() {
            Ok(result)
        } else {
            Err(OracleError::UnreliablePrice)
        }
    }

    /// Serve the most recent retained aggregate for the asset that is
    /// still reliable and within the looser fallback staleness bound.
    pub fn get_fallback_price(
        now: u64,
        asset_symbol: u64,
        price_history: &Vec<AggregatedPrice>,
    ) -> (r: Result<u64, OracleError>)
        ensures
            r == match spec_fallback_price(price_history@, asset_symbol, now) {
                Some(p) => Ok::<u64, OracleError>(p),
                None => Err::<u64, OracleError>(OracleError::NoFallbackAvailable),
            },
    {
        let mut i: usize = price_history.len();
        proof {
            lemma_take_all(price_history@);
        }
        while i > 0
            invariant
                0 <= i <= price_history@.len(),
                spec_fallback_price(price_history@, asset_symbol, now) == spec_fallback_price(
                    price_history@.take(i as int),
                    asset_symbol,
                    now,
                ),
            decreases i,
        {
            i = i - 1;
            let entry = price_history[i];
            proof {
                assert(price_history@.take(i + 1).drop_last() =~= price_history@.take(i as int));
                assert(price_history@.take(i + 1).last() == price_history@[i as int]);
            }
            if entry.asset_symbol == asset_symbol && entry.is_reliable() && now.saturating_sub(
                entry.timestamp,
            ) <= 1800 {
                return Ok(entry.price);
            }
        }
        Err(OracleError::NoFallbackAvailable)
    }

    /// After a successful round, grade one contributing submission
    /// against the aggregate and fold the verdict into its node's
    /// reputation; submissions from unregistered nodes change nothing.
    pub fn update_oracle_accuracy(
        oracle_nodes: &mut Vec<OracleNode>,
        submission: &PriceData,
        aggregated_price: u64,
    )
        requires
            forall|j: int| 0 <= j < old(oracle_nodes)@.len()
                ==> (#[trigger] old(oracle_nodes)@[j]).total_submissions < u32::MAX
                && old(oracle_nodes)@[j].accurate_submissions < u32::MAX,
        ensures
            spec_find_node_index(old(oracle_nodes)@, submission.oracle_node) < 0
                ==> final(oracle_nodes)@ == old(oracle_nodes)@,
            spec_find_node_index(old(oracle_nodes)@, submission.oracle_node) >= 0 ==> {
                let i = spec_find_node_index(old(oracle_nodes)@, submission.oracle_node);
                final(oracle_nodes)@ == old(oracle_nodes)@.update(
                    i,
                    old(oracle_nodes)@[i].spec_update_reputation(
                        spec_was_accurate(submission.price, aggregated_price),
                    ),
                )
            },
    {
        let found = find_node_index(oracle_nodes, submission.oracle_node);
        match found {
            Some(i) => {
                proof {
                    lemma_find_node_index_properties(oracle_nodes@, submission.oracle_node);
                }
                let price_diff = if submission.price > aggregated_price {
                    submission.price - aggregated_price
                } else {
                    aggregated_price - submission.price
                };
                let was_accurate = if aggregated_price > 0 {
                    (price_diff as u128) * 100 / (aggregated_price as u128) <= 5
                } else {
                    false
                };
                let mut node = oracle_nodes[i];
                node.update_reputation(was_accurate);
                oracle_nodes.set(i, node);
            },
            None => {},
        }
    }
}

} // verus!
