//! Aggregator and validator rules on concrete values: weighted median,
//! outlier removal, confidence, deviation, reliability, eligibility,
//! reputation, validation errors and the anomaly detectors.

use price_oracle::aggregation::PriceAggregator;
use price_oracle::error::OracleError;
use price_oracle::oracle_node::{OracleNode, RateLimitInfo};
use price_oracle::price_data::{AggregatedPrice, PriceData, PriceUpdateRequest};
use price_oracle::validation::{AnomalyFlag, ValidationEngine};

fn eligible_node(address: u64, stake_amount: u64) -> OracleNode {
    OracleNode {
        address,
        reputation_score: 100,
        total_submissions: 0,
        accurate_submissions: 0,
        last_submission_time: 0,
        is_active: true,
        stake_amount,
        registered_time: 0,
    }
}

fn submission(asset_symbol: u64, price: u64, oracle_node: u64, confidence: u32) -> PriceData {
    PriceData { asset_symbol, price, timestamp: 0, oracle_node, confidence }
}

#[test]
fn test_three_node_aggregation_scenario() {
    // three nodes with perfect reputation and sufficient stake submit
    // close prices at the same timestamp: three sources, the weighted
    // median in the middle, and a reliable result
    let nodes = vec![
        eligible_node(1, 2000_0000000),
        eligible_node(2, 2000_0000000),
        eligible_node(3, 2000_0000000),
    ];
    let submissions = vec![
        submission(10, 1_000_000, 1, 80),
        submission(10, 1_010_000, 2, 80),
        submission(10, 1_005_000, 3, 80),
    ];
    let result = PriceAggregator::aggregate_prices(0, 10, &submissions, &nodes).unwrap();
    assert_eq!(result.num_sources, 3);
    assert_eq!(result.price, 1_005_000);
    assert!(result.is_reliable());
    // the aggregate lies within the range the submitted prices span
    assert!(1_000_000 <= result.price && result.price <= 1_010_000);
}

#[test]
fn test_aggregate_empty_and_invalid() {
    let nodes = vec![eligible_node(1, 2000_0000000)];
    let empty: Vec<PriceData> = Vec::new();
    assert_eq!(
        PriceAggregator::aggregate_prices(0, 10, &empty, &nodes),
        Err(OracleError::NoPriceData)
    );
    // confidence below the floor leaves nothing to aggregate
    let low_confidence = vec![submission(10, 1_000_000, 1, 50)];
    assert_eq!(
        PriceAggregator::aggregate_prices(0, 10, &low_confidence, &nodes),
        Err(OracleError::NoValidSubmissions)
    );
}

#[test]
fn test_aggregate_unreliable_below_three_sources() {
    let nodes = vec![eligible_node(1, 2000_0000000), eligible_node(2, 2000_0000000)];
    let submissions = vec![
        submission(10, 1_000_000, 1, 80),
        submission(10, 1_000_000, 2, 80),
    ];
    assert_eq!(
        PriceAggregator::aggregate_prices(0, 10, &submissions, &nodes),
        Err(OracleError::UnreliablePrice)
    );
}

#[test]
fn test_weighted_median_stake_tiers() {
    // one node holds five stake tiers against the other's one, so its
    // price dominates the weighted multiset
    let nodes = vec![
        eligible_node(1, 1000_0000000),
        eligible_node(2, 5000_0000000),
    ];
    let submissions = vec![
        submission(10, 100, 1, 80),
        submission(10, 200, 2, 80),
    ];
    assert_eq!(
        PriceAggregator::calculate_weighted_median(&submissions, &nodes),
        Ok(200)
    );
}

#[test]
fn test_weighted_median_unregistered_nodes_weightless() {
    let nodes = vec![eligible_node(1, 1000_0000000)];
    let stranger = vec![submission(10, 100, 99, 80)];
    assert_eq!(
        PriceAggregator::calculate_weighted_median(&stranger, &nodes),
        Err(OracleError::NoWeightedData)
    );
}

#[test]
fn test_weighted_median_order_independent() {
    // the weighted median only sees the multiset of submissions, so
    // reordering them changes nothing
    let nodes = vec![
        eligible_node(1, 1000_0000000),
        eligible_node(2, 3000_0000000),
        eligible_node(3, 5000_0000000),
    ];
    let in_order = vec![
        submission(10, 100, 1, 80),
        submission(10, 150, 2, 80),
        submission(10, 200, 3, 80),
    ];
    let shuffled = vec![
        submission(10, 200, 3, 80),
        submission(10, 100, 1, 80),
        submission(10, 150, 2, 80),
    ];
    assert_eq!(
        PriceAggregator::calculate_weighted_median(&in_order, &nodes),
        PriceAggregator::calculate_weighted_median(&shuffled, &nodes)
    );
}

#[test]
fn test_node_weight_formula() {
    // weight = max(reputation/10, 1) * max(confidence/20, 1) *
    //          clamp(stake tier, 1..5)
    let node = eligible_node(1, 2000_0000000);
    let sub = submission(10, 100, 1, 80);
    assert_eq!(PriceAggregator::calculate_node_weight(&node, &sub), 10 * 4 * 2);
    let weak = OracleNode { reputation_score: 5, stake_amount: 1, ..node };
    let shaky = PriceData { confidence: 10, ..sub };
    assert_eq!(PriceAggregator::calculate_node_weight(&weak, &shaky), 1);
}

#[test]
fn test_outlier_removal_excludes_far_prices() {
    // the price more than ten percent off the unweighted median is
    // excluded; the close ones survive
    let submissions = vec![
        submission(10, 100, 1, 80),
        submission(10, 102, 2, 80),
        submission(10, 98, 3, 80),
        submission(10, 200, 4, 80),
    ];
    let survivors = PriceAggregator::remove_outliers(submissions);
    assert_eq!(survivors.len(), 3);
    assert!(survivors.iter().all(|s| s.price <= 102));
}

#[test]
fn test_outlier_removal_skips_small_sets() {
    let submissions = vec![
        submission(10, 100, 1, 80),
        submission(10, 100000, 2, 80),
    ];
    assert_eq!(PriceAggregator::remove_outliers(submissions.clone()), submissions);
}

#[test]
fn test_confidence_weighted_average_and_bonus() {
    // equal weights: plain average of 80, plus 10 for three to five
    // sources
    let nodes = vec![
        eligible_node(1, 1000_0000000),
        eligible_node(2, 1000_0000000),
        eligible_node(3, 1000_0000000),
    ];
    let submissions = vec![
        submission(10, 100, 1, 80),
        submission(10, 100, 2, 80),
        submission(10, 100, 3, 80),
    ];
    assert_eq!(PriceAggregator::calculate_confidence(&submissions, &nodes), 90);
    // a single source earns no bonus
    let one = vec![submission(10, 100, 1, 80)];
    assert_eq!(PriceAggregator::calculate_confidence(&one, &nodes), 80);
    // the cap holds at 100
    let sure = vec![
        submission(10, 100, 1, 100),
        submission(10, 100, 2, 100),
        submission(10, 100, 3, 100),
    ];
    assert_eq!(PriceAggregator::calculate_confidence(&sure, &nodes), 100);
}

#[test]
fn test_price_deviation_formula() {
    // mean of 100 and 110 is 105; both sit 5/105 = 4 percent away
    let submissions = vec![
        submission(10, 100, 1, 80),
        submission(10, 110, 2, 80),
    ];
    assert_eq!(PriceAggregator::calculate_price_deviation(&submissions), 4);
    let one = vec![submission(10, 100, 1, 80)];
    assert_eq!(PriceAggregator::calculate_price_deviation(&one), 0);
    // wildly spread prices cap at 100
    let spread = vec![
        submission(10, 1, 1, 80),
        submission(10, 1_000_000, 2, 80),
    ];
    assert_eq!(PriceAggregator::calculate_price_deviation(&spread), 100);
}

#[test]
fn test_price_data_validation() {
    let price_data = PriceData::new(10, 1000000, 1, 80, 0);
    assert!(price_data.is_valid());
    assert!(!price_data.is_stale(0));
    let invalid_price_data = PriceData {
        asset_symbol: 10,
        price: 0,
        timestamp: 0,
        oracle_node: 1,
        confidence: 50,
    };
    assert!(!invalid_price_data.is_valid());
    // past the five-minute threshold a submission is stale
    assert!(price_data.is_stale(301));
}

#[test]
fn test_aggregated_price_reliability() {
    let reliable_price = AggregatedPrice::new(10, 1000000, 5, 85, 3, 0);
    assert!(reliable_price.is_reliable());
    let unreliable_price = AggregatedPrice::new(10, 1000000, 2, 60, 15, 0);
    assert!(!unreliable_price.is_reliable());
}

#[test]
fn test_oracle_node_eligibility() {
    let now: u64 = 0;
    let eligible = OracleNode::new(1, 2000_0000000, now);
    assert!(eligible.is_eligible(now));
    // insufficient stake is disqualifying whatever the reputation
    let poor = OracleNode::new(1, 500_0000000, now);
    assert!(!poor.is_eligible(now));
    let mut inactive = OracleNode::new(1, 2000_0000000, now);
    inactive.is_active = false;
    assert!(!inactive.is_eligible(now));
    // a week of silence makes the reputation stale
    let idle = OracleNode::new(1, 2000_0000000, now);
    assert!(!idle.is_eligible(86400 * 7 + 1));
}

#[test]
fn test_reputation_tracking() {
    let mut node = OracleNode::new(1, 2000_0000000, 0);
    // below ten submissions the score stays perfect
    for _ in 0..9 {
        node.update_reputation(false);
        assert_eq!(node.reputation_score, 100);
    }
    // the tenth judgement starts the real accounting: 1 of 10 accurate
    node.update_reputation(true);
    assert_eq!(node.total_submissions, 10);
    assert_eq!(node.accurate_submissions, 1);
    assert_eq!(node.reputation_score, 10);
}

#[test]
fn test_update_oracle_accuracy_feedback() {
    let mut nodes = vec![
        OracleNode { total_submissions: 9, accurate_submissions: 9, ..eligible_node(1, 2000_0000000) },
        OracleNode { total_submissions: 9, accurate_submissions: 9, ..eligible_node(2, 2000_0000000) },
    ];
    // node 1 landed within five percent of the aggregate, node 2 did not
    let close = submission(10, 104, 1, 80);
    let far = submission(10, 120, 2, 80);
    PriceAggregator::update_oracle_accuracy(&mut nodes, &close, 100);
    PriceAggregator::update_oracle_accuracy(&mut nodes, &far, 100);
    assert_eq!(nodes[0].accurate_submissions, 10);
    assert_eq!(nodes[0].reputation_score, 100);
    assert_eq!(nodes[1].accurate_submissions, 9);
    assert_eq!(nodes[1].reputation_score, 90);
}

#[test]
fn test_slash_stake() {
    let mut node = OracleNode::new(1, 2000_0000000, 0);
    node.slash_stake(500_0000000);
    assert_eq!(node.stake_amount, 1500_0000000);
    assert!(node.is_active);
    node.slash_stake(1000_0000000);
    assert_eq!(node.stake_amount, 500_0000000);
    assert!(!node.is_active);
}

fn valid_request() -> PriceUpdateRequest {
    PriceUpdateRequest { asset_symbol: 10, price: 1000000, timestamp: 1000, signature: vec![7u8; 64] }
}

#[test]
fn test_validation_error_cases() {
    let nodes = vec![eligible_node(1, 2000_0000000)];
    let limits = vec![RateLimitInfo::new(1, 0)];
    let now: u64 = 1000;
    let ok = ValidationEngine::validate_price_update(now, &valid_request(), &nodes, &limits, 1);
    assert!(ok.is_ok());
    let too_high = PriceUpdateRequest { price: 1_000_000_0000001, ..valid_request() };
    assert_eq!(
        ValidationEngine::validate_price_update(now, &too_high, &nodes, &limits, 1),
        Err(OracleError::PriceTooHigh)
    );
    let empty_asset = PriceUpdateRequest { asset_symbol: 0, ..valid_request() };
    assert_eq!(
        ValidationEngine::validate_price_update(now, &empty_asset, &nodes, &limits, 1),
        Err(OracleError::InvalidAssetSymbol)
    );
    let too_old = PriceUpdateRequest { timestamp: 1000 - 301, ..valid_request() };
    assert_eq!(
        ValidationEngine::validate_price_update(now, &too_old, &nodes, &limits, 1),
        Err(OracleError::TimestampTooOld)
    );
    let from_future = PriceUpdateRequest { timestamp: 1000 + 61, ..valid_request() };
    assert_eq!(
        ValidationEngine::validate_price_update(now, &from_future, &nodes, &limits, 1),
        Err(OracleError::TimestampInFuture)
    );
    let unsigned = PriceUpdateRequest { signature: Vec::new(), ..valid_request() };
    assert_eq!(
        ValidationEngine::validate_price_update(now, &unsigned, &nodes, &limits, 1),
        Err(OracleError::MissingSignature)
    );
    let short_signature = PriceUpdateRequest { signature: vec![7u8; 10], ..valid_request() };
    assert_eq!(
        ValidationEngine::validate_price_update(now, &short_signature, &nodes, &limits, 1),
        Err(OracleError::InvalidSignatureFormat)
    );
    let ineligible = vec![OracleNode { is_active: false, ..eligible_node(1, 2000_0000000) }];
    assert_eq!(
        ValidationEngine::validate_price_update(now, &valid_request(), &ineligible, &limits, 1),
        Err(OracleError::NodeNotEligible)
    );
    let throttled = vec![RateLimitInfo { submission_count: 60, ..RateLimitInfo::new(1, now) }];
    assert_eq!(
        ValidationEngine::validate_price_update(now, &valid_request(), &nodes, &throttled, 1),
        Err(OracleError::RateLimitExceeded)
    );
    assert_eq!(
        ValidationEngine::validate_price_update(now, &valid_request(), &nodes, &limits, 9),
        Err(OracleError::UnregisteredNode)
    );
}

#[test]
fn test_historical_confidence_tiers() {
    // deviation from the recent mean maps through the fixed step table
    let steady = vec![1000u64, 1000, 1000];
    assert_eq!(ValidationEngine::calculate_historical_confidence(&steady, 1000), 95);
    assert_eq!(ValidationEngine::calculate_historical_confidence(&steady, 1030), 90);
    assert_eq!(ValidationEngine::calculate_historical_confidence(&steady, 1100), 75);
    assert_eq!(ValidationEngine::calculate_historical_confidence(&steady, 1200), 65);
    assert_eq!(ValidationEngine::calculate_historical_confidence(&steady, 2000), 50);
    let empty: Vec<u64> = Vec::new();
    assert_eq!(ValidationEngine::calculate_historical_confidence(&empty, 1000), 50);
}

#[test]
fn test_recent_valid_prices_window() {
    let now: u64 = 100000;
    let history = vec![
        // too old for the 24-hour window: scanning stops here
        submission(10, 500, 1, 90),
        PriceData { timestamp: now - 100, ..submission(10, 1000, 1, 90) },
        // valid but the wrong asset: skipped
        PriceData { timestamp: now - 50, ..submission(11, 2000, 1, 90) },
        // right asset but invalid confidence: skipped
        PriceData { timestamp: now - 20, ..submission(10, 3000, 1, 50) },
        PriceData { timestamp: now - 10, ..submission(10, 4000, 1, 90) },
    ];
    let recent = ValidationEngine::get_recent_valid_prices(now, 10, &history);
    assert_eq!(recent, vec![4000, 1000]);
}

#[test]
fn test_anomaly_rapid_submissions() {
    let now: u64 = 1000;
    let mut submissions: Vec<PriceData> = Vec::new();
    for i in 0..5u64 {
        submissions.push(PriceData { timestamp: now - i, ..submission(10, 100 + i, 1, 80) });
    }
    let flags = ValidationEngine::detect_anomalous_patterns(now, &submissions, 1);
    assert!(flags.contains(&AnomalyFlag::RapidSubmissions));
}

#[test]
fn test_anomaly_suspicious_patterns() {
    let now: u64 = 1000;
    let mut rising: Vec<PriceData> = Vec::new();
    for i in 0..4u64 {
        rising.push(PriceData { timestamp: 100 * i, ..submission(10, 100 + i, 1, 80) });
    }
    assert!(ValidationEngine::detect_suspicious_patterns(&rising));
    let mut wobbling = rising.clone();
    wobbling[2].price = 99;
    assert!(!ValidationEngine::detect_suspicious_patterns(&wobbling));
}

#[test]
fn test_anomaly_consistent_outliers() {
    let now: u64 = 1000;
    let mut submissions: Vec<PriceData> = Vec::new();
    // node 1 reports ten times the concurrent prices of nodes 2 and 3
    for i in 0..3u64 {
        submissions.push(PriceData { timestamp: now - i, ..submission(10, 1000, 1, 80) });
    }
    for i in 0..2u64 {
        submissions.push(PriceData { timestamp: now - i, ..submission(10, 100, 2, 80) });
        submissions.push(PriceData { timestamp: now - i, ..submission(10, 100, 3, 80) });
    }
    let flags = ValidationEngine::detect_anomalous_patterns(now, &submissions, 1);
    assert!(flags.contains(&AnomalyFlag::ConsistentOutliers));
    // honest reporters raise nothing
    let quiet = ValidationEngine::detect_anomalous_patterns(now, &submissions, 2);
    assert!(quiet.is_empty());
}
