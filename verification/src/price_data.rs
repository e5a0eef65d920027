//! Price submissions and aggregated prices, with their validity, staleness
//! and reliability rules.
//!
//! Asset symbols and node identities are plain `u64` identifiers; the host
//! around the library maps its own address and symbol types onto them. The
//! identifier `0` stands for the empty asset symbol, which submissions may
//! not carry.

use vstd::prelude::*;

verus! {

/// A price becomes too old for live aggregation after 5 minutes.
pub const PRICE_STALENESS_THRESHOLD: u64 = 300;

/// Largest tolerated deviation, in percent, both for outlier removal and
/// for an aggregate to count as reliable.
pub const MAX_PRICE_DEVIATION: u32 = 10;

/// Submissions and aggregates below this confidence are not trusted.
pub const MIN_CONFIDENCE_LEVEL: u32 = 70;

/// Bound on the per-asset ring of retained aggregated prices.
pub const MAX_HISTORY_ENTRIES: u32 = 100;

/// `a - b`, stopping at zero; the engine measures ages with it so that a
/// clock reading older than a stored timestamp reads as age zero.
pub open spec fn sat_sub(a: u64, b: u64) -> u64 {
    if a >= b {
        (a - b) as u64
    } else {
        0
    }
}

/// One price submission from one oracle node.
#[derive(Clone, Copy, Debug, PartialEq, Eq, Structural)]
pub struct PriceData {
    pub asset_symbol: u64,
    pub price: u64,
    pub timestamp: u64,
    pub oracle_node: u64,
    /// Confidence level in percent (0-100).
    pub confidence: u32,
}

/// The published result of one aggregation round.
#[derive(Clone, Copy, Debug, PartialEq, Eq, Structural)]
pub struct AggregatedPrice {
    pub asset_symbol: u64,
    pub price: u64,
    pub timestamp: u64,
    pub num_sources: u32,
    pub confidence: u32,
    /// Largest deviation of a contributing price from their mean, in percent.
    pub deviation: u32,
}

/// What a node hands in when submitting a price. The signature is an opaque
/// byte string; the engine only checks presence and length, actual
/// cryptographic verification is outside its scope.
#[derive(Clone, Debug, PartialEq, Eq)]
pub struct PriceUpdateRequest {
    pub asset_symbol: u64,
    pub price: u64,
    pub timestamp: u64,
    pub signature: Vec<u8>,
}

impl PriceData {
    /// A submission is valid iff its price is positive and its confidence
    /// reaches the minimum level.
    pub open spec fn spec_is_valid(self) -> bool {
        self.price > 0 && self.confidence >= MIN_CONFIDENCE_LEVEL
    }

    /// A submission is stale iff it is older than the staleness threshold.
    pub open spec fn spec_is_stale(self, now: u64) -> bool {
        sat_sub(now, self.timestamp) > PRICE_STALENESS_THRESHOLD
    }

    pub fn new(asset_symbol: u64, price: u64, oracle_node: u64, confidence: u32, now: u64) -> (r:
        PriceData)
        ensures
            r == (PriceData {
                asset_symbol,
                price,
                timestamp: now,
                oracle_node,
                confidence,
            }),
    {
        PriceData { asset_symbol, price, timestamp: now, oracle_node, confidence }
    }

    pub fn is_stale(&self, now: u64) -> (r: bool)
        ensures
            r == self.spec_is_stale(now),
    {
        now.saturating_sub(self.timestamp) > PRICE_STALENESS_THRESHOLD
    }

    pub fn is_valid(&self) -> (r: bool)
        ensures
            r == self.spec_is_valid(),
    {
        self.price > 0 && self.confidence >= MIN_CONFIDENCE_LEVEL
    }
}

impl AggregatedPrice {
    /// An aggregate is reliable iff it rests on at least three sources, its
    /// confidence reaches the minimum level, and the contributing prices
    /// agreed to within the deviation bound.
    pub open spec fn spec_is_reliable(self) -> bool {
        self.num_sources >= 3 && self.confidence >= MIN_CONFIDENCE_LEVEL && self.deviation
            <= MAX_PRICE_DEVIATION
    }

    /// A fallback answer may be older than a live one, but not older than
    /// 30 minutes.
    pub open spec fn spec_is_stale_for_fallback(self, now: u64) -> bool {
        sat_sub(now, self.timestamp) > 1800
    }

    pub fn new(asset_symbol: u64, price: u64, num_sources: u32, confidence: u32, deviation: u32, now: u64) -> (r: AggregatedPrice)
        ensures
            r == (AggregatedPrice {
                asset_symbol,
                price,
                timestamp: now,
                num_sources,
                confidence,
                deviation,
            }),
    {
        AggregatedPrice { asset_symbol, price, timestamp: now, num_sources, confidence, deviation }
    }

    pub fn is_reliable(&self) -> (r: bool)
        ensures
            r == self.spec_is_reliable(),
    {
        self.num_sources >= 3 && self.confidence >= MIN_CONFIDENCE_LEVEL && self.deviation
            <= MAX_PRICE_DEVIATION
    }
}

} // verus!
