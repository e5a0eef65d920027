//! Engine-level behaviour: initialization, registration, submission,
//! emergency stop, rate limiting, staleness and fallback.

use price_oracle::error::OracleError;
use price_oracle::oracle::{ContractConfig, PriceOracle};
use price_oracle::oracle_node::{NodeRegistration, RateLimitInfo, MAX_SUBMISSIONS_PER_HOUR};
use price_oracle::price_data::{AggregatedPrice, PriceUpdateRequest};

const ADMIN: u64 = 900;
const ORACLE1: u64 = 1;
const ORACLE2: u64 = 2;
const ORACLE3: u64 = 3;
const XLM: u64 = 10;

fn init_oracle() -> PriceOracle {
    let mut oracle = PriceOracle::new();
    oracle.initialize(ADMIN).unwrap();
    oracle
}

fn test_registration(node_address: u64) -> NodeRegistration {
    NodeRegistration { node_address, stake_amount: 2000_0000000, metadata: 7 }
}

fn test_price_update(asset_symbol: u64, price: u64, now: u64) -> PriceUpdateRequest {
    PriceUpdateRequest { asset_symbol, price, timestamp: now, signature: vec![7u8; 64] }
}

#[test]
fn test_contract_initialization() {
    let mut oracle = PriceOracle::new();
    assert!(oracle.initialize(ADMIN).is_ok());
    assert_eq!(oracle.initialize(ADMIN), Err(OracleError::AlreadyInitialized));
}

#[test]
fn test_oracle_node_registration() {
    let mut oracle = init_oracle();
    let result = oracle.register_oracle_node(0, test_registration(ORACLE1));
    assert!(result.is_ok());
    let node_info = oracle.get_oracle_node_info(ORACLE1);
    assert!(node_info.is_some());
    assert_eq!(node_info.unwrap().address, ORACLE1);
}

#[test]
fn test_oracle_node_registration_insufficient_stake() {
    let mut oracle = init_oracle();
    let mut registration = test_registration(ORACLE1);
    registration.stake_amount = 500_0000000;
    let result = oracle.register_oracle_node(0, registration);
    assert_eq!(result, Err(OracleError::InsufficientStake));
}

#[test]
fn test_oracle_node_double_registration() {
    let mut oracle = init_oracle();
    oracle.register_oracle_node(0, test_registration(ORACLE1)).unwrap();
    let result = oracle.register_oracle_node(0, test_registration(ORACLE1));
    assert_eq!(result, Err(OracleError::NodeAlreadyRegistered));
}

#[test]
fn test_price_submission_valid() {
    let mut oracle = init_oracle();
    oracle.register_oracle_node(0, test_registration(ORACLE1)).unwrap();
    let result = oracle.submit_price(0, ORACLE1, test_price_update(XLM, 1000000, 0));
    assert!(result.is_ok());
    assert_eq!(oracle.submissions.len(), 1);
    assert_eq!(oracle.submissions[0].price, 1000000);
    // with no usable history the submission scores the default confidence
    assert_eq!(oracle.submissions[0].confidence, 50);
}

#[test]
fn test_price_submission_unregistered_node() {
    let mut oracle = init_oracle();
    let result = oracle.submit_price(0, ORACLE1, test_price_update(XLM, 1000000, 0));
    assert_eq!(result, Err(OracleError::UnregisteredNode));
}

#[test]
fn test_price_submission_invalid_price() {
    // a zero price is rejected before it can reach the aggregator
    let mut oracle = init_oracle();
    oracle.register_oracle_node(0, test_registration(ORACLE1)).unwrap();
    let result = oracle.submit_price(0, ORACLE1, test_price_update(XLM, 0, 0));
    assert_eq!(result, Err(OracleError::InvalidPriceZero));
    assert_eq!(oracle.submissions.len(), 0);
    assert!(oracle.aggregated.is_empty());
}

#[test]
fn test_supported_assets() {
    let mut oracle = init_oracle();
    let btc: u64 = 11;
    oracle.add_supported_asset(ADMIN, XLM).unwrap();
    oracle.add_supported_asset(ADMIN, btc).unwrap();
    let supported = oracle.get_supported_assets();
    assert_eq!(supported.len(), 2);
    assert!(supported.contains(&XLM));
    assert!(supported.contains(&btc));
    // adding an asset twice keeps a single entry
    oracle.add_supported_asset(ADMIN, XLM).unwrap();
    assert_eq!(oracle.get_supported_assets().len(), 2);
}

#[test]
fn test_oracle_node_deactivation() {
    let mut oracle = init_oracle();
    oracle.register_oracle_node(0, test_registration(ORACLE1)).unwrap();
    assert!(oracle.get_oracle_node_info(ORACLE1).unwrap().is_active);
    oracle.deactivate_oracle_node(ADMIN, ORACLE1).unwrap();
    assert!(!oracle.get_oracle_node_info(ORACLE1).unwrap().is_active);
    assert_eq!(
        oracle.deactivate_oracle_node(ADMIN, 55),
        Err(OracleError::NodeNotFound)
    );
}

#[test]
fn test_emergency_stop() {
    let mut oracle = init_oracle();
    oracle.register_oracle_node(0, test_registration(ORACLE1)).unwrap();
    oracle.set_emergency_stop(ADMIN, true).unwrap();
    let result = oracle.submit_price(0, ORACLE1, test_price_update(XLM, 1000000, 0));
    assert_eq!(result, Err(OracleError::EmergencyStopActive));
    assert_eq!(oracle.get_price(0, XLM), Err(OracleError::EmergencyStopActive));
    oracle.set_emergency_stop(ADMIN, false).unwrap();
    let result = oracle.submit_price(0, ORACLE1, test_price_update(XLM, 1000000, 0));
    assert!(result.is_ok());
}

#[test]
fn test_unauthorized_admin_actions() {
    let mut oracle = init_oracle();
    oracle.register_oracle_node(0, test_registration(ORACLE1)).unwrap();
    let unauthorized: u64 = 77;
    assert_eq!(
        oracle.add_supported_asset(unauthorized, XLM),
        Err(OracleError::Unauthorized)
    );
    assert_eq!(
        oracle.deactivate_oracle_node(unauthorized, ORACLE1),
        Err(OracleError::Unauthorized)
    );
    assert_eq!(
        oracle.set_emergency_stop(unauthorized, true),
        Err(OracleError::Unauthorized)
    );
}

#[test]
fn test_rate_limit_window() {
    // the limiter takes the per-window maximum and nothing more; the
    // first submission of the next window passes again
    let mut info = RateLimitInfo::new(ORACLE1, 0);
    for i in 0..MAX_SUBMISSIONS_PER_HOUR {
        assert!(info.record_submission(10), "submission {} should be accepted", i);
    }
    assert_eq!(info.submission_count, MAX_SUBMISSIONS_PER_HOUR);
    assert!(!info.record_submission(10));
    assert_eq!(info.submission_count, MAX_SUBMISSIONS_PER_HOUR);
    // a full hour later the window has elapsed
    assert!(info.record_submission(3600));
    assert_eq!(info.submission_count, 1);
    assert_eq!(info.window_start, 3600);
}

#[test]
fn test_rate_limiting_through_engine() {
    // a node's 61st submission inside one window is rejected with the
    // rate-limit error; the first submission of the next window passes
    let mut oracle = init_oracle();
    oracle.register_oracle_node(0, test_registration(ORACLE1)).unwrap();
    for i in 0..MAX_SUBMISSIONS_PER_HOUR {
        let result = oracle.submit_price(1, ORACLE1, test_price_update(XLM, 1000000 + i as u64, 1));
        if i < 2 {
            // not enough recent submissions yet for a round to run
            assert!(result.is_ok(), "submission {} should succeed", i);
        } else {
            // the submission is recorded, but the round it triggers finds
            // no valid submissions (their confidence stays at the default)
            assert_eq!(result, Err(OracleError::NoValidSubmissions));
        }
    }
    let result = oracle.submit_price(1, ORACLE1, test_price_update(XLM, 1000000, 1));
    assert_eq!(result, Err(OracleError::RateLimitExceeded));
    // the window began at registration (time 0); an hour later it
    // resets, and the older submissions are too stale to start a round
    let result = oracle.submit_price(3600, ORACLE1, test_price_update(XLM, 1000000, 3600));
    assert!(result.is_ok());
    assert_eq!(oracle.rate_limits[0].submission_count, 1);
}

#[test]
fn test_stale_price_and_fallback() {
    // once the published price exceeds the five-minute threshold the
    // live query reports staleness, while the fallback still serves the
    // last reliable value within thirty minutes
    let published = AggregatedPrice {
        asset_symbol: XLM,
        price: 1005000,
        timestamp: 1000,
        num_sources: 3,
        confidence: 90,
        deviation: 0,
    };
    let oracle = PriceOracle {
        config: Some(ContractConfig {
            admin: ADMIN,
            emergency_stop: false,
            min_oracle_nodes: 3,
            price_update_interval: 60,
        }),
        nodes: Vec::new(),
        rate_limits: Vec::new(),
        submissions: Vec::new(),
        aggregated: vec![published],
        history: vec![published],
        supported_assets: Vec::new(),
    };
    assert_eq!(oracle.get_price(1000, XLM), Ok(published));
    assert_eq!(oracle.get_price(1000 + 301, XLM), Err(OracleError::StalePrice));
    assert_eq!(oracle.get_fallback_price(1000 + 301, XLM), Ok(1005000));
    assert_eq!(
        oracle.get_fallback_price(1000 + 1801, XLM),
        Err(OracleError::NoFallbackAvailable)
    );
}

#[test]
fn test_get_price_unavailable_and_unreliable() {
    let mut oracle = init_oracle();
    assert_eq!(oracle.get_price(0, XLM), Err(OracleError::PriceNotAvailable));
    oracle.aggregated.push(AggregatedPrice {
        asset_symbol: XLM,
        price: 1000,
        timestamp: 0,
        num_sources: 2,
        confidence: 60,
        deviation: 15,
    });
    assert_eq!(oracle.get_price(0, XLM), Err(OracleError::UnreliablePrice));
}

#[test]
fn test_full_aggregation_round_through_engine() {
    // three eligible nodes with trustworthy submissions drive a round
    // end to end: the aggregate is published, queryable, kept in the
    // history, and reputations are graded
    let mut oracle = init_oracle();
    oracle.register_oracle_node(0, test_registration(ORACLE1)).unwrap();
    oracle.register_oracle_node(0, test_registration(ORACLE2)).unwrap();
    oracle.register_oracle_node(0, test_registration(ORACLE3)).unwrap();
    // hand the buffer enough trustworthy history that fresh submissions
    // score a confidence above the validity floor
    for node in [ORACLE1, ORACLE2, ORACLE3] {
        oracle.submissions.push(price_oracle::price_data::PriceData {
            asset_symbol: XLM,
            price: 1005000,
            timestamp: 50,
            oracle_node: node,
            confidence: 90,
        });
    }
    assert!(oracle
        .submit_price(100, ORACLE1, test_price_update(XLM, 1000000, 100))
        .is_ok());
    assert!(oracle
        .submit_price(100, ORACLE2, test_price_update(XLM, 1010000, 100))
        .is_ok());
    let third = oracle.submit_price(100, ORACLE3, test_price_update(XLM, 1005000, 100));
    assert!(third.is_ok(), "the third submission completes the round: {:?}", third);
    let price = oracle.get_price(100, XLM).unwrap();
    assert_eq!(price.asset_symbol, XLM);
    assert_eq!(price.num_sources, 6);
    assert_eq!(price.price, 1005000);
    assert!(price.num_sources >= 3 && price.confidence >= 70 && price.deviation <= 10);
    // each of the three submissions completed a published round
    assert_eq!(oracle.get_price_history(XLM, 10).len(), 3);
    for node in [ORACLE1, ORACLE2, ORACLE3] {
        assert!(oracle.get_oracle_node_info(node).unwrap().total_submissions >= 1);
    }
}

#[test]
fn test_get_price_history_limit() {
    let mut oracle = init_oracle();
    for i in 0..5u64 {
        oracle.history.push(AggregatedPrice {
            asset_symbol: XLM,
            price: 1000 + i,
            timestamp: i,
            num_sources: 3,
            confidence: 90,
            deviation: 0,
        });
    }
    let last_three = oracle.get_price_history(XLM, 3);
    assert_eq!(last_three.len(), 3);
    assert_eq!(last_three[0].price, 1002);
    assert_eq!(last_three[2].price, 1004);
    // the ring bound caps the answer even for larger limits
    assert_eq!(oracle.get_price_history(XLM, 200).len(), 5);
    assert_eq!(oracle.get_price_history(99, 10).len(), 0);
}

#[test]
fn test_history_ring_bound() {
    // the per-asset history is a ring of at most 100 entries: once a
    // round publishes into a full ring, the asset's oldest entries fall
    // out first
    let mut oracle = init_oracle();
    oracle.register_oracle_node(0, test_registration(ORACLE1)).unwrap();
    oracle.register_oracle_node(0, test_registration(ORACLE2)).unwrap();
    oracle.register_oracle_node(0, test_registration(ORACLE3)).unwrap();
    for i in 0..100u64 {
        oracle.history.push(AggregatedPrice {
            asset_symbol: XLM,
            price: 1 + i,
            timestamp: i,
            num_sources: 3,
            confidence: 90,
            deviation: 0,
        });
    }
    for node in [ORACLE1, ORACLE2, ORACLE3] {
        oracle.submissions.push(price_oracle::price_data::PriceData {
            asset_symbol: XLM,
            price: 1005000,
            timestamp: 50,
            oracle_node: node,
            confidence: 90,
        });
    }
    oracle.submit_price(100, ORACLE1, test_price_update(XLM, 1000000, 100)).unwrap();
    oracle.submit_price(100, ORACLE2, test_price_update(XLM, 1010000, 100)).unwrap();
    oracle.submit_price(100, ORACLE3, test_price_update(XLM, 1005000, 100)).unwrap();
    let history = oracle.get_price_history(XLM, 200);
    assert_eq!(history.len(), 100);
    // three published rounds displaced the three oldest entries
    assert_eq!(history[0].price, 4);
    assert_eq!(history[99].price, 1005000);
}

#[test]
fn test_fallback_prefers_most_recent_reliable() {
    let mut oracle = init_oracle();
    for (price, timestamp, confidence) in [(1000u64, 100u64, 90u32), (2000, 200, 90), (3000, 300, 60)] {
        oracle.history.push(AggregatedPrice {
            asset_symbol: XLM,
            price,
            timestamp,
            num_sources: 3,
            confidence,
            deviation: 0,
        });
    }
    // the newest entry is unreliable (low confidence), so the scan
    // falls back to the one before it
    assert_eq!(oracle.get_fallback_price(400, XLM), Ok(2000));
}
