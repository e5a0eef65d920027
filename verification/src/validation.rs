//! Submission validation: the admission rules applied to every price
//! update before it is stored, the historical-consistency confidence
//! score, and the advisory anomaly detectors.

use vstd::prelude::*;
use vstd::relations::{sorted_by, total_ordering};
use vstd::seq_lib::lemma_sorted_unique;
use crate::aggregation::spec_dev_pct;
use crate::error::OracleError;
use crate::oracle_node::{
    find_node, find_rate_limit_index, spec_find_node, spec_find_rate_limit_index, OracleNode,
    RateLimitInfo,
};
use crate::price_data::{sat_sub, PriceData, PriceUpdateRequest, PRICE_STALENESS_THRESHOLD};
use crate::seqs::{lemma_filter_take_step, lemma_take_all};

verus! {

/// Upper price bound a submission may carry.
pub const MAX_PRICE: u64 = 1_000_000_0000000;

/// Lower price bound a submission may carry.
pub const MIN_PRICE: u64 = 1;

/// How far into the future a submission's timestamp may run ahead of the
/// clock.
pub const FUTURE_TOLERANCE: u64 = 60;

/// How far back the historical-consistency score looks.
pub const RECENT_THRESHOLD: u64 = 86400;

/// Shortest signature the placeholder format check accepts.
pub const MIN_SIGNATURE_LENGTH: usize = 64;

/// Advisory findings of the anomaly detectors; they flag a submitter but
/// do not by themselves block a submission.
#[derive(Clone, Copy, Debug, PartialEq, Eq, Structural)]
pub enum AnomalyFlag {
    RapidSubmissions,
    ConsistentOutliers,
    SuspiciousPatterns,
}

/// Price and asset checks: positive, within bounds, with a non-empty
/// asset symbol (the identifier `0` stands for the empty symbol).
pub open spec fn spec_validate_price_data(request: PriceUpdateRequest) -> Result<
    (),
    OracleError,
> {
    if request.price == 0 {
        Err(OracleError::InvalidPriceZero)
    } else if request.price > MAX_PRICE {
        Err(OracleError::PriceTooHigh)
    } else if request.price < MIN_PRICE {
        Err(OracleError::PriceTooLow)
    } else if request.asset_symbol == 0 {
        Err(OracleError::InvalidAssetSymbol)
    } else {
        Ok(())
    }
}

/// Timestamp checks: not older than the staleness threshold, not further
/// ahead of the clock than the tolerated drift.
pub open spec fn spec_validate_timestamp(now: u64, timestamp: u64) -> Result<(), OracleError> {
    if sat_sub(now, timestamp) > PRICE_STALENESS_THRESHOLD {
        Err(OracleError::TimestampTooOld)
    } else if sat_sub(timestamp, now) > FUTURE_TOLERANCE {
        Err(OracleError::TimestampInFuture)
    } else {
        Ok(())
    }
}

/// Placeholder signature check: present and of plausible length. Real
/// cryptographic verification is outside the engine's scope.
pub open spec fn spec_validate_signature(request: PriceUpdateRequest) -> Result<(), OracleError> {
    if request.signature@.len() == 0 {
        Err(OracleError::MissingSignature)
    } else if request.signature@.len() < MIN_SIGNATURE_LENGTH {
        Err(OracleError::InvalidSignatureFormat)
    } else {
        Ok(())
    }
}

/// The whole validation gate, in order: the submitter must be registered,
/// eligible and within its rate limit; then the price data, timestamp and
/// signature must each pass.
pub open spec fn spec_validate_price_update(
    request: PriceUpdateRequest,
    oracle_nodes: Seq<OracleNode>,
    rate_limits: Seq<RateLimitInfo>,
    submitter: u64,
    now: u64,
) -> Result<(), OracleError> {
    match spec_find_node(oracle_nodes, submitter) {
        None => Err(OracleError::UnregisteredNode),
        Some(node) => {
            if !node.spec_is_eligible(now) {
                Err(OracleError::NodeNotEligible)
            } else {
                let rate_ok = {
                    let i = spec_find_rate_limit_index(rate_limits, submitter);
                    if i < 0 {
                        true
                    } else {
                        OracleNode::spec_can_submit(rate_limits[i], now)
                    }
                };
                if !rate_ok {
                    Err(OracleError::RateLimitExceeded)
                } else if spec_validate_price_data(request) is Err {
                    spec_validate_price_data(request)
                } else if spec_validate_timestamp(now, request.timestamp) is Err {
                    spec_validate_timestamp(now, request.timestamp)
                } else {
                    spec_validate_signature(request)
                }
            }
        },
    }
}

/// The valid prices for the asset among the retained submissions that
/// are younger than the recency threshold, scanned newest first and
/// stopping at the asset's first too-old entry.
pub open spec fn spec_recent_valid_prices(
    history: Seq<PriceData>,
    asset_symbol: u64,
    now: u64,
) -> Seq<u64>
    decreases history.len(),
{
    if history.len() == 0 {
        Seq::empty()
    } else {
        let entry = history.last();
        if entry.asset_symbol != asset_symbol {
            spec_recent_valid_prices(history.drop_last(), asset_symbol, now)
        } else if sat_sub(now, entry.timestamp) > RECENT_THRESHOLD {
            Seq::empty()
        } else if entry.spec_is_valid() {
            seq![entry.price] + spec_recent_valid_prices(history.drop_last(), asset_symbol, now)
        } else {
            spec_recent_valid_prices(history.drop_last(), asset_symbol, now)
        }
    }
}

/// Sum of a price sequence.
pub open spec fn spec_sum(prices: Seq<u64>) -> int
    decreases prices.len(),
{
    if prices.len() == 0 {
        0
    } else {
        spec_sum(prices.drop_last()) + prices.last()
    }
}

/// The fixed step table mapping a percentage deviation from the recent
/// mean to a confidence score.
pub open spec fn spec_confidence_tier(deviation_pct: int) -> int {
    if deviation_pct <= 1 {
        95
    } else if deviation_pct <= 3 {
        90
    } else if deviation_pct <= 5 {
        85
    } else if deviation_pct <= 8 {
        80
    } else if deviation_pct <= 12 {
        75
    } else if deviation_pct <= 18 {
        70
    } else if deviation_pct <= 25 {
        65
    } else if deviation_pct <= 35 {
        60
    } else if deviation_pct <= 50 {
        55
    } else {
        50
    }
}

/// The historical-consistency confidence of a new price: the tier its
/// deviation from the mean of recent valid prices falls in; 50 with no
/// usable history, 0 against a zero mean.
pub open spec fn spec_historical_confidence(
    history: Seq<PriceData>,
    asset_symbol: u64,
    now: u64,
    new_price: u64,
) -> int {
    let recent = spec_recent_valid_prices(history, asset_symbol, now);
    if recent.len() == 0 {
        50
    } else {
        let mean = spec_sum(recent) / recent.len() as int;
        if mean == 0 {
            0
        } else {
            spec_confidence_tier(spec_dev_pct(new_price, mean))
        }
    }
}

/// A submitter's own submissions among a set.
pub open spec fn spec_node_submissions(
    submissions: Seq<PriceData>,
    submitter: u64,
) -> Seq<PriceData> {
    submissions.filter(|s: PriceData| s.oracle_node == submitter)
}

/// Rapid submissions: at least five of the submitter's submissions, five
/// or more of them inside the last five minutes.
pub open spec fn spec_rapid_submissions(node_submissions: Seq<PriceData>, now: u64) -> bool {
    node_submissions.len() >= 5 && node_submissions.filter(
        |s: PriceData| sat_sub(now, s.timestamp) <= 300,
    ).len() >= 5
}

/// The prices other nodes submitted for the same asset within five
/// minutes of the given submission.
pub open spec fn spec_concurrent_other_prices(
    all_submissions: Seq<PriceData>,
    submission: PriceData,
) -> Seq<u64> {
    all_submissions.filter(
        |s: PriceData|
            s.oracle_node != submission.oracle_node && s.asset_symbol == submission.asset_symbol
                && sat_sub(submission.timestamp, s.timestamp) <= 300 && sat_sub(
                s.timestamp,
                submission.timestamp,
            ) <= 300,
    ).map_values(|s: PriceData| s.price)
}

/// Whether one submission strays more than 15 percent from the mean of
/// the concurrent prices of other nodes; fewer than two such prices, or
/// a zero mean, judge nothing.
pub open spec fn spec_is_outlier_against_others(
    all_submissions: Seq<PriceData>,
    submission: PriceData,
) -> bool {
    let others = spec_concurrent_other_prices(all_submissions, submission);
    if others.len() < 2 {
        false
    } else {
        let mean = spec_sum(others) / others.len() as int;
        mean > 0 && spec_dev_pct(submission.price, mean) > 15
    }
}

/// How many of a submitter's submissions are outliers against the
/// concurrent submissions of other nodes.
pub open spec fn spec_outlier_count(
    node_submissions: Seq<PriceData>,
    all_submissions: Seq<PriceData>,
) -> int
    decreases node_submissions.len(),
{
    if node_submissions.len() == 0 {
        0
    } else {
        spec_outlier_count(node_submissions.drop_last(), all_submissions) + if
            spec_is_outlier_against_others(all_submissions, node_submissions.last()) {
            1int
        } else {
            0int
        }
    }
}

/// Consistent outliers: with enough data, more than 60 percent of the
/// submitter's submissions stray from the concurrent mean of the others.
pub open spec fn spec_consistent_outliers(
    node_submissions: Seq<PriceData>,
    all_submissions: Seq<PriceData>,
) -> bool {
    &&& node_submissions.len() >= 3
    &&& all_submissions.len() >= 5
    &&& spec_outlier_count(node_submissions, all_submissions) * 100 / node_submissions.len() as int
        > 60
}

/// Lexicographic order on (timestamp, position, price) triples; the
/// unique position makes ties impossible among a submitter's keyed
/// submissions.
pub open spec fn triple_leq() -> spec_fn((u64, u64, u64), (u64, u64, u64)) -> bool {
    |a: (u64, u64, u64), b: (u64, u64, u64)|
        a.0 < b.0 || (a.0 == b.0 && (a.1 < b.1 || (a.1 == b.1 && a.2 <= b.2)))
}

pub proof fn lemma_triple_leq_total()
    ensures
        total_ordering(triple_leq()),
{
    let leq = triple_leq();
    assert forall|x: (u64, u64, u64)| #[trigger] leq(x, x) by {}
    assert forall|x: (u64, u64, u64), y: (u64, u64, u64)|
        #[trigger] leq(x, y) && #[trigger] leq(y, x) implies x == y by {}
    assert forall|x: (u64, u64, u64), y: (u64, u64, u64)|
        #[trigger] leq(x, y) || #[trigger] leq(y, x) by {}
    assert forall|x: (u64, u64, u64), y: (u64, u64, u64), z: (u64, u64, u64)|
        #[trigger] leq(x, y) && #[trigger] leq(y, z) implies leq(x, z) by {}
}

/// A submitter's submissions keyed for time ordering: (timestamp,
/// original position, price).
pub open spec fn spec_time_keyed(submissions: Seq<PriceData>) -> Seq<(u64, u64, u64)> {
    Seq::new(
        submissions.len(),
        |i: int| (submissions[i].timestamp, i as u64, submissions[i].price),
    )
}

/// The submissions' (timestamp, position, price) keys in time order.
pub open spec fn spec_by_time(submissions: Seq<PriceData>) -> Seq<(u64, u64, u64)> {
    spec_time_keyed(submissions).sort_by(triple_leq())
}

pub open spec fn spec_strictly_increasing(keyed: Seq<(u64, u64, u64)>) -> bool {
    forall|i: int| 0 < i < keyed.len() ==> keyed[i - 1].2 < (#[trigger] keyed[i]).2
}

pub open spec fn spec_strictly_decreasing(keyed: Seq<(u64, u64, u64)>) -> bool {
    forall|i: int| 0 < i < keyed.len() ==> keyed[i - 1].2 > (#[trigger] keyed[i]).2
}

/// Suspicious patterns: at least four submissions whose prices, ordered
/// by time, rise strictly throughout or fall strictly throughout.
pub open spec fn spec_suspicious_patterns(node_submissions: Seq<PriceData>) -> bool {
    node_submissions.len() >= 4 && (spec_strictly_increasing(spec_by_time(node_submissions))
        || spec_strictly_decreasing(spec_by_time(node_submissions)))
}

/// The flags the detectors raise for one submitter over a submission
/// set, in a fixed order.
pub open spec fn spec_anomaly_flags(
    submissions: Seq<PriceData>,
    submitter: u64,
    now: u64,
) -> Seq<AnomalyFlag> {
    let mine = spec_node_submissions(submissions, submitter);
    (if spec_rapid_submissions(mine, now) {
        seq![AnomalyFlag::RapidSubmissions]
    } else {
        Seq::empty()
    }) + (if spec_consistent_outliers(mine, submissions) {
        seq![AnomalyFlag::ConsistentOutliers]
    } else {
        Seq::empty()
    }) + (if spec_suspicious_patterns(mine) {
        seq![AnomalyFlag::SuspiciousPatterns]
    } else {
        Seq::empty()
    })
}

/// The validation gate and the anomaly detectors.
pub struct ValidationEngine;

impl ValidationEngine {
    pub fn validate_price_data(request: &PriceUpdateRequest) -> (r: Result<(), OracleError>)
        ensures
            r == spec_validate_price_data(*request),
    {
        if request.price == 0 {
            return Err(OracleError::InvalidPriceZero);
        }
        if request.price > MAX_PRICE {
            return Err(OracleError::PriceTooHigh);
        }
        if request.price < MIN_PRICE {
            return Err(OracleError::PriceTooLow);
        }
        if request.asset_symbol == 0 {
            return Err(OracleError::InvalidAssetSymbol);
        }
        Ok(())
    }

    pub fn validate_timestamp(now: u64, timestamp: u64) -> (r: Result<(), OracleError>)
        ensures
            r == spec_validate_timestamp(now, timestamp),
    {
        if now.saturating_sub(timestamp) > PRICE_STALENESS_THRESHOLD {
            return Err(OracleError::TimestampTooOld);
        }
        if timestamp.saturating_sub(now) > FUTURE_TOLERANCE {
            return Err(OracleError::TimestampInFuture);
        }
        Ok(())
    }

    pub fn validate_signature(request: &PriceUpdateRequest) -> (r: Result<(), OracleError>)
        ensures
            r == spec_validate_signature(*request),
    {
        if request.signature.len() == 0 {
            return Err(OracleError::MissingSignature);
        }
        if request.signature.len() < MIN_SIGNATURE_LENGTH {
            return Err(OracleError::InvalidSignatureFormat);
        }
        Ok(())
    }

    /// Run the whole gate for one submission.
    pub fn validate_price_update(
        now: u64,
        request: &PriceUpdateRequest,
        oracle_nodes: &Vec<OracleNode>,
        rate_limits: &Vec<RateLimitInfo>,
        submitter: u64,
    ) -> (r: Result<(), OracleError>)
        ensures
            r == spec_validate_price_update(*request, oracle_nodes@, rate_limits@, submitter, now),
    {
        let node = match find_node(oracle_nodes, submitter) {
            Some(node) => node,
            None => {
                return Err(OracleError::UnregisteredNode);
            },
        };
        if !node.is_eligible(now) {
            return Err(OracleError::NodeNotEligible);
        }
        match find_rate_limit_index(rate_limits, submitter) {
            Some(i) => {
                proof {
                    crate::oracle_node::lemma_find_rate_limit_index_properties(
                        rate_limits@,
                        submitter,
                    );
                }
                if !node.can_submit(now, &rate_limits[i]) {
                    return Err(OracleError::RateLimitExceeded);
                }
            },
            None => {},
        }
        Self::validate_price_data(request)?;
        Self::validate_timestamp(now, request.timestamp)?;
        Self::validate_signature(request)?;
        Ok(())
    }

    /// Collect the asset's recent valid prices, newest first.
    pub fn get_recent_valid_prices(now: u64, asset_symbol: u64, history: &Vec<PriceData>) -> (r:
        Vec<u64>)
        ensures
            r@ == spec_recent_valid_prices(history@, asset_symbol, now),
    {
        let mut recent: Vec<u64> = Vec::new();
        let mut i: usize = history.len();
        proof {
            lemma_take_all(history@);
        }
        while i > 0
            invariant
                0 <= i <= history@.len(),
                spec_recent_valid_prices(history@, asset_symbol, now) == recent@
                    + spec_recent_valid_prices(history@.take(i as int), asset_symbol, now),
            decreases i,
        {
            i = i - 1;
            let entry = history[i];
            proof {
                assert(history@.take(i + 1).drop_last() =~= history@.take(i as int));
                assert(history@.take(i + 1).last() == history@[i as int]);
            }
            if entry.asset_symbol == asset_symbol {
                if now.saturating_sub(entry.timestamp) > RECENT_THRESHOLD {
                    proof {
                        assert(recent@ + spec_recent_valid_prices(
                            history@.take(i + 1),
                            asset_symbol,
                            now,
                        ) =~= recent@);
                    }
                    return recent;
                }
                if entry.is_valid() {
                    recent.push(entry.price);
                    proof {
                        assert(recent@ + spec_recent_valid_prices(
                            history@.take(i as int),
                            asset_symbol,
                            now,
                        ) =~= (recent@.drop_last()) + (seq![entry.price]
                            + spec_recent_valid_prices(
                            history@.take(i as int),
                            asset_symbol,
                            now,
                        )));
                    }
                }
            }
        }
        proof {
            assert(spec_recent_valid_prices(history@.take(0), asset_symbol, now) =~= Seq::<
                u64,
            >::empty());
            assert(recent@ + spec_recent_valid_prices(history@.take(0), asset_symbol, now)
                =~= recent@);
        }
        recent
    }

    /// Map a new price's deviation from the recent mean to a confidence
    /// score; an empty history defaults to 50.
    pub fn calculate_historical_confidence(recent_prices: &Vec<u64>, new_price: u64) -> (r: u32)
        ensures
            recent_prices@.len() == 0 ==> r == 50,
            recent_prices@.len() > 0 && spec_sum(recent_prices@) / recent_prices@.len() as int == 0
                ==> r == 0,
            recent_prices@.len() > 0 && spec_sum(recent_prices@) / recent_prices@.len() as int != 0
                ==> r == spec_confidence_tier(
                spec_dev_pct(
                    new_price,
                    spec_sum(recent_prices@) / recent_prices@.len() as int,
                ),
            ),
    {
        if recent_prices.len() == 0 {
            return 50;
        }
        let mut sum: u128 = 0;
        let mut i: usize = 0;
        while i < recent_prices.len()
            invariant
                0 <= i <= recent_prices@.len(),
                sum == spec_sum(recent_prices@.take(i as int)),
                sum <= (i as int) * 0xFFFFFFFFFFFFFFFF,
            decreases recent_prices@.len() - i,
        {
            proof {
                assert(recent_prices@.take(i + 1).drop_last() =~= recent_prices@.take(i as int));
                assert(recent_prices@.take(i + 1).last() == recent_prices@[i as int]);
            }
            sum = sum + (recent_prices[i] as u128);
            i = i + 1;
        }
        proof {
            lemma_take_all(recent_prices@);
        }
        let n: u128 = recent_prices.len() as u128;
        let mean_wide: u128 = sum / n;
        proof {
            vstd::arithmetic::div_mod::lemma_multiply_divide_le(
                sum as int,
                n as int,
                0xFFFFFFFFFFFFFFFF,
            );
        }
        let mean: u64 = mean_wide as u64;
        if mean == 0 {
            return 0;
        }
        let deviation: u64 = if new_price > mean {
            new_price - mean
        } else {
            mean - new_price
        };
        let pct: u128 = (deviation as u128) * 100 / (mean as u128);
        if pct <= 1 {
            95
        } else if pct <= 3 {
            90
        } else if pct <= 5 {
            85
        } else if pct <= 8 {
            80
        } else if pct <= 12 {
            75
        } else if pct <= 18 {
            70
        } else if pct <= 25 {
            65
        } else if pct <= 35 {
            60
        } else if pct <= 50 {
            55
        } else {
            50
        }
    }

    /// Score a new price against the asset's recent history. The score
    /// is advisory and the call always succeeds; the `Result` shape
    /// matches the other admission rules, which can fail.
    pub fn validate_against_historical_data(
        now: u64,
        new_price: u64,
        asset_symbol: u64,
        history: &Vec<PriceData>,
    ) -> (r: Result<u32, OracleError>)
        ensures
            r == Ok::<u32, OracleError>(
                spec_historical_confidence(history@, asset_symbol, now, new_price) as u32,
            ),
    {
        let recent = Self::get_recent_valid_prices(now, asset_symbol, history);
        let confidence = Self::calculate_historical_confidence(&recent, new_price);
        Ok(confidence)
    }

    /// At least five of the submitter's submissions, five or more of
    /// them within the last five minutes.
    pub fn detect_rapid_submissions(now: u64, node_submissions: &Vec<PriceData>) -> (r: bool)
        ensures
            r == spec_rapid_submissions(node_submissions@, now),
    {
        if node_submissions.len() < 5 {
            return false;
        }
        let ghost pred = |s: PriceData| sat_sub(now, s.timestamp) <= 300;
        let mut count: usize = 0;
        let mut i: usize = 0;
        proof {
            assert(node_submissions@.take(0).filter(pred) =~= Seq::<PriceData>::empty());
        }
        while i < node_submissions.len()
            invariant
                0 <= i <= node_submissions@.len(),
                count == node_submissions@.take(i as int).filter(pred).len(),
                count <= i,
                pred == (|s: PriceData| sat_sub(now, s.timestamp) <= 300),
            decreases node_submissions@.len() - i,
        {
            proof {
                lemma_filter_take_step(node_submissions@, pred, i as int);
            }
            if now.saturating_sub(node_submissions[i].timestamp) <= 300 {
                count = count + 1;
            }
            i = i + 1;
        }
        proof {
            lemma_take_all(node_submissions@);
        }
        count >= 5
    }

    /// Whether one submission strays more than 15 percent from the mean
    /// of the other nodes' concurrent prices for the same asset.
    fn is_outlier_against_others(all_submissions: &Vec<PriceData>, submission: &PriceData) -> (r:
        bool)
        ensures
            r == spec_is_outlier_against_others(all_submissions@, *submission),
    {
        let ghost pred = |s: PriceData|
            s.oracle_node != submission.oracle_node && s.asset_symbol == submission.asset_symbol
                && sat_sub(submission.timestamp, s.timestamp) <= 300 && sat_sub(
                s.timestamp,
                submission.timestamp,
            ) <= 300;
        let ghost to_price = |s: PriceData| s.price;
        let mut others: Vec<u64> = Vec::new();
        let mut i: usize = 0;
        proof {
            assert(others@ =~= all_submissions@.take(0).filter(pred).map_values(to_price));
        }
        while i < all_submissions.len()
            invariant
                0 <= i <= all_submissions@.len(),
                others@ == all_submissions@.take(i as int).filter(pred).map_values(to_price),
                pred == (|s: PriceData|
                    s.oracle_node != submission.oracle_node && s.asset_symbol
                        == submission.asset_symbol && sat_sub(submission.timestamp, s.timestamp)
                        <= 300 && sat_sub(s.timestamp, submission.timestamp) <= 300),
                to_price == (|s: PriceData| s.price),
            decreases all_submissions@.len() - i,
        {
            proof {
                lemma_filter_take_step(all_submissions@, pred, i as int);
            }
            let s = all_submissions[i];
            if s.oracle_node != submission.oracle_node && s.asset_symbol == submission.asset_symbol
                && submission.timestamp.saturating_sub(s.timestamp) <= 300
                && s.timestamp.saturating_sub(submission.timestamp) <= 300 {
                others.push(s.price);
                proof {
                    assert(all_submissions@.take(i + 1).filter(pred).map_values(to_price)
                        =~= all_submissions@.take(i as int).filter(pred).map_values(
                        to_price,
                    ).push(to_price(all_submissions@[i as int])));
                }
            } else {
                proof {
                    assert(all_submissions@.take(i + 1).filter(pred).map_values(to_price)
                        =~= all_submissions@.take(i as int).filter(pred).map_values(to_price));
                }
            }
            i = i + 1;
        }
        proof {
            lemma_take_all(all_submissions@);
            assert(others@ == spec_concurrent_other_prices(all_submissions@, *submission));
        }
        if others.len() < 2 {
            return false;
        }
        let mut sum: u128 = 0;
        let mut k: usize = 0;
        while k < others.len()
            invariant
                0 <= k <= others@.len(),
                sum == spec_sum(others@.take(k as int)),
                sum <= (k as int) * 0xFFFFFFFFFFFFFFFF,
            decreases others@.len() - k,
        {
            proof {
                assert(others@.take(k + 1).drop_last() =~= others@.take(k as int));
                assert(others@.take(k + 1).last() == others@[k as int]);
            }
            sum = sum + (others[k] as u128);
            k = k + 1;
        }
        proof {
            lemma_take_all(others@);
        }
        let n: u128 = others.len() as u128;
        let mean_wide: u128 = sum / n;
        proof {
            vstd::arithmetic::div_mod::lemma_multiply_divide_le(
                sum as int,
                n as int,
                0xFFFFFFFFFFFFFFFF,
            );
        }
        let mean: u64 = mean_wide as u64;
        if mean == 0 {
            return false;
        }
        let deviation: u64 = if submission.price > mean {
            submission.price - mean
        } else {
            mean - submission.price
        };
        let pct: u128 = (deviation as u128) * 100 / (mean as u128);
        pct > 15
    }

    /// With enough data, more than 60 percent of the submitter's
    /// submissions stray from the concurrent mean of the other nodes.
    pub fn detect_consistent_outliers(
        node_submissions: &Vec<PriceData>,
        all_submissions: &Vec<PriceData>,
    ) -> (r: bool)
        ensures
            r == spec_consistent_outliers(node_submissions@, all_submissions@),
    {
        if node_submissions.len() < 3 || all_submissions.len() < 5 {
            return false;
        }
        let mut outlier_count: usize = 0;
        let mut i: usize = 0;
        while i < node_submissions.len()
            invariant
                0 <= i <= node_submissions@.len(),
                outlier_count == spec_outlier_count(
                    node_submissions@.take(i as int),
                    all_submissions@,
                ),
                outlier_count <= i,
            decreases node_submissions@.len() - i,
        {
            proof {
                assert(node_submissions@.take(i + 1).drop_last() =~= node_submissions@.take(
                    i as int,
                ));
                assert(node_submissions@.take(i + 1).last() == node_submissions@[i as int]);
            }
            let sub = node_submissions[i];
            if Self::is_outlier_against_others(all_submissions, &sub) {
                outlier_count = outlier_count + 1;
            }
            i = i + 1;
        }
        proof {
            lemma_take_all(node_submissions@);
        }
        (outlier_count as u128) * 100 / (node_submissions.len() as u128) > 60
    }

    /// At least four submissions whose prices, ordered by time, rise
    /// strictly throughout or fall strictly throughout.
    pub fn detect_suspicious_patterns(node_submissions: &Vec<PriceData>) -> (r: bool)
        ensures
            r == spec_suspicious_patterns(node_submissions@),
    {
        if node_submissions.len() < 4 {
            return false;
        }
        let mut keyed: Vec<(u64, u64, u64)> = Vec::new();
        let mut i: usize = 0;
        while i < node_submissions.len()
            invariant
                0 <= i <= node_submissions@.len(),
                keyed@.len() == i,
                forall|j: int| 0 <= j < i ==> #[trigger] keyed@[j] == ((
                    (#[trigger] node_submissions@[j]).timestamp,
                    j as u64,
                    node_submissions@[j].price,
                )),
            decreases node_submissions@.len() - i,
        {
            let sub = node_submissions[i];
            keyed.push((sub.timestamp, i as u64, sub.price));
            i = i + 1;
        }
        proof {
            assert(keyed@ =~= spec_time_keyed(node_submissions@));
        }
        sort_time_keyed(&mut keyed);
        proof {
            broadcast use vstd::seq_lib::group_to_multiset_ensures;

            lemma_triple_leq_total();
            spec_time_keyed(node_submissions@).lemma_sort_by_ensures(triple_leq());
            assert(keyed@.to_multiset().len() == keyed@.len());
            assert(spec_time_keyed(node_submissions@).to_multiset().len() == spec_time_keyed(
                node_submissions@,
            ).len());
            assert(keyed@.len() == node_submissions@.len());
        }
        let mut increasing = true;
        let mut decreasing = true;
        let mut k: usize = 1;
        while k < keyed.len()
            invariant
                1 <= k <= keyed@.len(),
                increasing <==> (forall|j: int|
                    0 < j < k ==> keyed@[j - 1].2 < (#[trigger] keyed@[j]).2),
                decreasing <==> (forall|j: int|
                    0 < j < k ==> keyed@[j - 1].2 > (#[trigger] keyed@[j]).2),
            decreases keyed@.len() - k,
        {
            let prev = keyed[k - 1];
            let cur = keyed[k];
            if !(prev.2 < cur.2) {
                increasing = false;
            }
            if !(prev.2 > cur.2) {
                decreasing = false;
            }
            k = k + 1;
        }
        increasing || decreasing
    }

    /// Run all three detectors for one submitter over the retained
    /// submissions; the result lists the flags raised, in a fixed order.
    pub fn detect_anomalous_patterns(
        now: u64,
        submissions: &Vec<PriceData>,
        submitter: u64,
    ) -> (r: Vec<AnomalyFlag>)
        ensures
            r@ == spec_anomaly_flags(submissions@, submitter, now),
    {
        let ghost pred = |s: PriceData| s.oracle_node == submitter;
        let mut mine: Vec<PriceData> = Vec::new();
        let mut i: usize = 0;
        proof {
            assert(submissions@.take(0).filter(pred) =~= Seq::<PriceData>::empty());
        }
        while i < submissions.len()
            invariant
                0 <= i <= submissions@.len(),
                mine@ == submissions@.take(i as int).filter(pred),
                pred == (|s: PriceData| s.oracle_node == submitter),
            decreases submissions@.len() - i,
        {
            proof {
                lemma_filter_take_step(submissions@, pred, i as int);
            }
            if submissions[i].oracle_node == submitter {
                let sub = submissions[i];
                mine.push(sub);
            }
            i = i + 1;
        }
        proof {
            lemma_take_all(submissions@);
        }
        let mut anomalies: Vec<AnomalyFlag> = Vec::new();
        if Self::detect_rapid_submissions(now, &mine) {
            anomalies.push(AnomalyFlag::RapidSubmissions);
        }
        if Self::detect_consistent_outliers(&mine, submissions) {
            anomalies.push(AnomalyFlag::ConsistentOutliers);
        }
        if Self::detect_suspicious_patterns(&mine) {
            anomalies.push(AnomalyFlag::SuspiciousPatterns);
        }
        proof {
            assert(anomalies@ =~= spec_anomaly_flags(submissions@, submitter, now));
        }
        anomalies
    }
}

/// Sort time-keyed submissions (insertion sort); the result is exactly
/// the mathematical sort of the input under the lexicographic order.
fn sort_time_keyed(keyed: &mut Vec<(u64, u64, u64)>)
    ensures
        final(keyed)@ == old(keyed)@.sort_by(triple_leq()),
{
    broadcast use vstd::seq_lib::group_to_multiset_ensures;

    let ghost orig = keyed@;
    let ghost leq = triple_leq();
    if keyed.len() <= 1 {
        proof {
            lemma_triple_leq_total();
            orig.lemma_sort_by_ensures(leq);
            lemma_sorted_unique(keyed@, orig.sort_by(leq), leq);
        }
        return ;
    }
    let mut i: usize = 1;
    while i < keyed.len()
        invariant
            1 <= i <= keyed@.len(),
            keyed@.len() == orig.len(),
            keyed@.to_multiset() == orig.to_multiset(),
            forall|a: int, b: int| 0 <= a < b < i ==> triple_leq()(
                #[trigger] keyed@[a],
                #[trigger] keyed@[b],
            ),
        decreases keyed@.len() - i,
    {
        let mut j: usize = i;
        while j > 0 && (keyed[j - 1].0 > keyed[j].0 || (keyed[j - 1].0 == keyed[j].0 && (keyed[j
            - 1].1 > keyed[j].1 || (keyed[j - 1].1 == keyed[j].1 && keyed[j - 1].2 > keyed[j].2))))
            invariant
                0 <= j <= i < keyed@.len(),
                keyed@.len() == orig.len(),
                keyed@.to_multiset() == orig.to_multiset(),
                forall|a: int, b: int| 0 <= a < b <= i && b != j ==> triple_leq()(
                    #[trigger] keyed@[a],
                    #[trigger] keyed@[b],
                ),
                forall|a: int| j < a <= i ==> triple_leq()(keyed@[j as int], #[trigger] keyed@[a]),
            decreases j,
        {
            broadcast use vstd::seq_lib::group_to_multiset_ensures;

            let ghost pre = keyed@;
            let lower = keyed[j - 1];
            let upper = keyed[j];
            keyed.set(j - 1, upper);
            keyed.set(j, lower);
            proof {
                assert(keyed@ =~= pre.update(j - 1, pre[j as int]).update(j as int, pre[j - 1]));
                assert(keyed@.to_multiset() =~= pre.to_multiset());
            }
            j = j - 1;
        }
        proof {
            assert forall|a: int, b: int| 0 <= a < b <= i implies triple_leq()(
                #[trigger] keyed@[a],
                #[trigger] keyed@[b],
            ) by {
                if b == j && j > 0 && a < j - 1 {
                    assert(triple_leq()(keyed@[a], keyed@[j - 1]));
                }
            }
        }
        i = i + 1;
    }
    proof {
        lemma_triple_leq_total();
        assert(sorted_by(keyed@, leq));
        orig.lemma_sort_by_ensures(leq);
        lemma_sorted_unique(keyed@, orig.sort_by(leq), leq);
    }
}

} // verus!
