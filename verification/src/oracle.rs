//! The oracle engine: explicit state for the node registry, rate limits,
//! submission buffer, current aggregates, history and configuration, with
//! every operation a pure function of that state and the ledger time.
//!
//! The host around the library owns persistence, identity and the clock:
//! it loads the state, passes the current time in, and stores the state
//! back after a successful call.

use vstd::prelude::*;
use crate::aggregation::{
    spec_aggregate_result, spec_fallback_price, spec_was_accurate, PriceAggregator,
};
use crate::validation::spec_historical_confidence;
use crate::validation::spec_validate_price_update;
use crate::error::OracleError;
use crate::oracle_node::{
    find_node, spec_find_node, spec_find_node_index, spec_find_rate_limit_index, NodeManager,
    NodeRegistration, OracleNode, RateLimitInfo,
};
use crate::price_data::{
    sat_sub, AggregatedPrice, PriceData, PriceUpdateRequest, MAX_HISTORY_ENTRIES,
    PRICE_STALENESS_THRESHOLD,
};
use crate::seqs::{lemma_filter_take_step, lemma_take_all};
use crate::validation::ValidationEngine;

verus! {

/// Engine configuration, set once at initialization.
#[derive(Clone, Copy, Debug, PartialEq, Eq, Structural)]
pub struct ContractConfig {
    pub admin: u64,
    pub emergency_stop: bool,
    pub min_oracle_nodes: u32,
    pub price_update_interval: u64,
}

/// The whole engine state.
pub struct PriceOracle {
    /// `None` until `initialize` has run.
    pub config: Option<ContractConfig>,
    /// Registered nodes, in registration order, one entry per identity.
    pub nodes: Vec<OracleNode>,
    /// Rate-limit state, one entry per registered node.
    pub rate_limits: Vec<RateLimitInfo>,
    /// Retained submissions of all assets, oldest first.
    pub submissions: Vec<PriceData>,
    /// The current aggregate per asset, one entry per asset.
    pub aggregated: Vec<AggregatedPrice>,
    /// Published aggregates of all assets, oldest first, bounded per
    /// asset.
    pub history: Vec<AggregatedPrice>,
    /// Assets an administrator has marked as supported.
    pub supported_assets: Vec<u64>,
}

/// First index holding the current aggregate for an asset, or `-1`.
pub open spec fn spec_find_aggregated_index(aggs: Seq<AggregatedPrice>, asset_symbol: u64) -> int
    decreases aggs.len(),
{
    if aggs.len() == 0 {
        -1
    } else if aggs[0].asset_symbol == asset_symbol {
        0
    } else {
        let rest = spec_find_aggregated_index(aggs.drop_first(), asset_symbol);
        if rest < 0 {
            -1
        } else {
            rest + 1
        }
    }
}

pub proof fn lemma_find_aggregated_index_properties(aggs: Seq<AggregatedPrice>, asset_symbol: u64)
    ensures
        spec_find_aggregated_index(aggs, asset_symbol) < 0 ==> forall|j: int|
            0 <= j < aggs.len() ==> (#[trigger] aggs[j]).asset_symbol != asset_symbol,
        spec_find_aggregated_index(aggs, asset_symbol) >= 0 ==> {
            let i = spec_find_aggregated_index(aggs, asset_symbol);
            &&& 0 <= i < aggs.len()
            &&& aggs[i].asset_symbol == asset_symbol
            &&& forall|j: int| 0 <= j < i ==> (#[trigger] aggs[j]).asset_symbol != asset_symbol
        },
    decreases aggs.len(),
{
    if aggs.len() > 0 && aggs[0].asset_symbol != asset_symbol {
        let rest = aggs.drop_first();
        lemma_find_aggregated_index_properties(rest, asset_symbol);
        let ri = spec_find_aggregated_index(rest, asset_symbol);
        if ri < 0 {
            assert forall|j: int| 0 <= j < aggs.len() implies (#[trigger] aggs[j]).asset_symbol
                != asset_symbol by {
                if j > 0 {
                    assert(aggs[j] == rest[j - 1]);
                    assert(rest[j - 1].asset_symbol != asset_symbol);
                }
            }
        } else {
            assert(aggs[ri + 1] == rest[ri]);
            assert forall|j: int| 0 <= j < ri + 1 implies (#[trigger] aggs[j]).asset_symbol
                != asset_symbol by {
                if j > 0 {
                    assert(aggs[j] == rest[j - 1]);
                    assert(rest[j - 1].asset_symbol != asset_symbol);
                }
            }
        }
    }
}

/// The current aggregate stored for an asset, if any.
pub open spec fn spec_find_aggregated(aggs: Seq<AggregatedPrice>, asset_symbol: u64) -> Option<
    AggregatedPrice,
> {
    let i = spec_find_aggregated_index(aggs, asset_symbol);
    if i < 0 {
        None
    } else {
        Some(aggs[i])
    }
}

fn find_aggregated_index(aggs: &Vec<AggregatedPrice>, asset_symbol: u64) -> (r: Option<usize>)
    ensures
        match r {
            Some(i) => i == spec_find_aggregated_index(aggs@, asset_symbol),
            None => spec_find_aggregated_index(aggs@, asset_symbol) < 0,
        },
{
    let mut i: usize = 0;
    while i < aggs.len()
        invariant
            0 <= i <= aggs@.len(),
            forall|j: int| 0 <= j < i ==> (#[trigger] aggs@[j]).asset_symbol != asset_symbol,
        decreases aggs@.len() - i,
    {
        if aggs[i].asset_symbol == asset_symbol {
            proof {
                lemma_find_aggregated_index_properties(aggs@, asset_symbol);
            }
            return Some(i);
        }
        i = i + 1;
    }
    proof {
        lemma_find_aggregated_index_properties(aggs@, asset_symbol);
    }
    None
}

impl PriceOracle {
    /// What `check_emergency_stop` decides from the configuration.
    pub open spec fn spec_gate(self) -> Result<(), OracleError> {
        match self.config {
            None => Err(OracleError::NotInitialized),
            Some(c) => if c.emergency_stop {
                Err(OracleError::EmergencyStopActive)
            } else {
                Ok(())
            },
        }
    }

    /// What `check_admin` decides from the configuration and the caller.
    pub open spec fn spec_admin_gate(self, caller: u64) -> Result<(), OracleError> {
        match self.config {
            None => Err(OracleError::NotInitialized),
            Some(c) => if caller != c.admin {
                Err(OracleError::Unauthorized)
            } else {
                Ok(())
            },
        }
    }

    /// An engine with nothing registered and no configuration yet.
    pub fn new() -> (r: PriceOracle)
        ensures
            r.config is None,
            r.nodes@ == Seq::<OracleNode>::empty(),
            r.rate_limits@ == Seq::<RateLimitInfo>::empty(),
            r.submissions@ == Seq::<PriceData>::empty(),
            r.aggregated@ == Seq::<AggregatedPrice>::empty(),
            r.history@ == Seq::<AggregatedPrice>::empty(),
            r.supported_assets@ == Seq::<u64>::empty(),
    {
        PriceOracle {
            config: None,
            nodes: Vec::new(),
            rate_limits: Vec::new(),
            submissions: Vec::new(),
            aggregated: Vec::new(),
            history: Vec::new(),
            supported_assets: Vec::new(),
        }
    }

    /// Set the administrator and the defaults; a second call fails and
    /// changes nothing.
    pub fn initialize(&mut self, admin: u64) -> (r: Result<(), OracleError>)
        ensures
            old(self).config is Some ==> r == Err::<(), OracleError>(
                OracleError::AlreadyInitialized,
            ) && *final(self) == *old(self),
            old(self).config is None ==> {
                &&& r == Ok::<(), OracleError>(())
                &&& final(self).config == Some(
                    ContractConfig {
                        admin,
                        emergency_stop: false,
                        min_oracle_nodes: 3,
                        price_update_interval: 60,
                    },
                )
                &&& final(self).nodes == old(self).nodes
                &&& final(self).rate_limits == old(self).rate_limits
                &&& final(self).submissions == old(self).submissions
                &&& final(self).aggregated == old(self).aggregated
                &&& final(self).history == old(self).history
                &&& final(self).supported_assets == old(self).supported_assets
            },
    {
        if self.config.is_some() {
            return Err(OracleError::AlreadyInitialized);
        }
        self.config = Some(
            ContractConfig {
                admin,
                emergency_stop: false,
                min_oracle_nodes: 3,
                price_update_interval: 60,
            },
        );
        Ok(())
    }

    /// Reject every operation while uninitialized or stopped.
    pub fn check_emergency_stop(&self) -> (r: Result<(), OracleError>)
        ensures
            r == self.spec_gate(),
    {
        match self.config {
            None => Err(OracleError::NotInitialized),
            Some(c) => {
                if c.emergency_stop {
                    Err(OracleError::EmergencyStopActive)
                } else {
                    Ok(())
                }
            },
        }
    }

    /// Only the administrator may pass.
    pub fn check_admin(&self, caller: u64) -> (r: Result<(), OracleError>)
        ensures
            r == self.spec_admin_gate(caller),
    {
        match self.config {
            None => Err(OracleError::NotInitialized),
            Some(c) => {
                if caller != c.admin {
                    Err(OracleError::Unauthorized)
                } else {
                    Ok(())
                }
            },
        }
    }

    /// Admit a new node, unless the engine is stopped, the identity is
    /// taken, or the stake is short.
    pub fn register_oracle_node(&mut self, now: u64, registration: NodeRegistration) -> (r: Result<
        (),
        OracleError,
    >)
        ensures
            old(self).spec_gate() is Err ==> r == Err::<(), OracleError>(
                old(self).spec_gate()->Err_0,
            ) && *final(self) == *old(self),
            old(self).spec_gate() is Ok ==> {
                &&& final(self).config == old(self).config
                &&& final(self).submissions == old(self).submissions
                &&& final(self).aggregated == old(self).aggregated
                &&& final(self).history == old(self).history
                &&& final(self).supported_assets == old(self).supported_assets
                &&& spec_find_node_index(old(self).nodes@, registration.node_address) >= 0 ==> {
                    &&& r == Err::<(), OracleError>(OracleError::NodeAlreadyRegistered)
                    &&& final(self).nodes@ == old(self).nodes@
                    &&& final(self).rate_limits@ == old(self).rate_limits@
                }
                &&& spec_find_node_index(old(self).nodes@, registration.node_address) < 0
                    && registration.stake_amount < crate::oracle_node::MIN_STAKE_AMOUNT ==> {
                    &&& r == Err::<(), OracleError>(OracleError::InsufficientStake)
                    &&& final(self).nodes@ == old(self).nodes@
                    &&& final(self).rate_limits@ == old(self).rate_limits@
                }
                &&& spec_find_node_index(old(self).nodes@, registration.node_address) < 0
                    && registration.stake_amount >= crate::oracle_node::MIN_STAKE_AMOUNT ==> {
                    &&& r == Ok::<(), OracleError>(())
                    &&& final(self).nodes@ == old(self).nodes@.push(
                        OracleNode {
                            address: registration.node_address,
                            reputation_score: 100,
                            total_submissions: 0,
                            accurate_submissions: 0,
                            last_submission_time: 0,
                            is_active: true,
                            stake_amount: registration.stake_amount,
                            registered_time: now,
                        },
                    )
                    &&& final(self).rate_limits@ == old(self).rate_limits@.push(
                        RateLimitInfo {
                            node_address: registration.node_address,
                            submission_count: 0,
                            window_start: now,
                            last_submission: 0,
                        },
                    )
                }
            },
    {
        self.check_emergency_stop()?;
        NodeManager::register_node(&mut self.nodes, &mut self.rate_limits, registration, now)
    }

    /// Administrative deactivation of a node.
    pub fn deactivate_oracle_node(&mut self, caller: u64, node_address: u64) -> (r: Result<
        (),
        OracleError,
    >)
        ensures
            old(self).spec_admin_gate(caller) is Err ==> r == Err::<(), OracleError>(
                old(self).spec_admin_gate(caller)->Err_0,
            ) && *final(self) == *old(self),
            old(self).spec_admin_gate(caller) is Ok ==> {
                &&& final(self).config == old(self).config
                &&& final(self).rate_limits == old(self).rate_limits
                &&& final(self).submissions == old(self).submissions
                &&& final(self).aggregated == old(self).aggregated
                &&& final(self).history == old(self).history
                &&& final(self).supported_assets == old(self).supported_assets
                &&& spec_find_node_index(old(self).nodes@, node_address) < 0 ==> r == Err::<
                    (),
                    OracleError,
                >(OracleError::NodeNotFound) && final(self).nodes@ == old(self).nodes@
                &&& spec_find_node_index(old(self).nodes@, node_address) >= 0 ==> {
                    let i = spec_find_node_index(old(self).nodes@, node_address);
                    r == Ok::<(), OracleError>(()) && final(self).nodes@ == old(self).nodes@.update(
                        i,
                        OracleNode { is_active: false, ..old(self).nodes@[i] },
                    )
                }
            },
    {
        self.check_admin(caller)?;
        NodeManager::deactivate_node(&mut self.nodes, node_address)
    }

    /// Flip the global gate that short-circuits every operation.
    pub fn set_emergency_stop(&mut self, caller: u64, emergency_stop: bool) -> (r: Result<
        (),
        OracleError,
    >)
        ensures
            old(self).spec_admin_gate(caller) is Err ==> r == Err::<(), OracleError>(
                old(self).spec_admin_gate(caller)->Err_0,
            ) && *final(self) == *old(self),
            old(self).spec_admin_gate(caller) is Ok ==> {
                &&& r == Ok::<(), OracleError>(())
                &&& final(self).config == Some(
                    ContractConfig { emergency_stop, ..old(self).config->Some_0 },
                )
                &&& final(self).nodes == old(self).nodes
                &&& final(self).rate_limits == old(self).rate_limits
                &&& final(self).submissions == old(self).submissions
                &&& final(self).aggregated == old(self).aggregated
                &&& final(self).history == old(self).history
                &&& final(self).supported_assets == old(self).supported_assets
            },
    {
        self.check_admin(caller)?;
        let config = match self.config {
            Some(c) => c,
            None => {
                return Err(OracleError::NotInitialized);
            },
        };
        self.config = Some(ContractConfig { emergency_stop, ..config });
        Ok(())
    }

    /// Mark an asset as supported; adding one twice keeps a single
    /// entry.
    pub fn add_supported_asset(&mut self, caller: u64, asset_symbol: u64) -> (r: Result<
        (),
        OracleError,
    >)
        ensures
            old(self).spec_admin_gate(caller) is Err ==> r == Err::<(), OracleError>(
                old(self).spec_admin_gate(caller)->Err_0,
            ) && *final(self) == *old(self),
            old(self).spec_admin_gate(caller) is Ok ==> {
                &&& r == Ok::<(), OracleError>(())
                &&& final(self).config == old(self).config
                &&& final(self).nodes == old(self).nodes
                &&& final(self).rate_limits == old(self).rate_limits
                &&& final(self).submissions == old(self).submissions
                &&& final(self).aggregated == old(self).aggregated
                &&& final(self).history == old(self).history
                &&& old(self).supported_assets@.contains(asset_symbol)
                    ==> final(self).supported_assets@ == old(self).supported_assets@
                &&& !old(self).supported_assets@.contains(asset_symbol)
                    ==> final(self).supported_assets@ == old(self).supported_assets@.push(
                    asset_symbol,
                )
            },
    {
        self.check_admin(caller)?;
        let mut i: usize = 0;
        while i < self.supported_assets.len()
            invariant
                0 <= i <= self.supported_assets@.len(),
                forall|j: int| 0 <= j < i ==> self.supported_assets@[j] != asset_symbol,
                old(self).spec_admin_gate(caller) is Ok,
                *self == *old(self),
            decreases self.supported_assets@.len() - i,
        {
            if self.supported_assets[i] == asset_symbol {
                return Ok(());
            }
            i = i + 1;
        }
        self.supported_assets.push(asset_symbol);
        Ok(())
    }

    /// What `get_price` answers from the stored aggregate for an asset.
    pub open spec fn spec_get_price(self, now: u64, asset_symbol: u64) -> Result<
        AggregatedPrice,
        OracleError,
    > {
        if self.spec_gate() is Err {
            Err(self.spec_gate()->Err_0)
        } else {
            match spec_find_aggregated(self.aggregated@, asset_symbol) {
                None => Err(OracleError::PriceNotAvailable),
                Some(ap) => if !ap.spec_is_reliable() {
                    Err(OracleError::UnreliablePrice)
                } else if sat_sub(now, ap.timestamp) > PRICE_STALENESS_THRESHOLD {
                    Err(OracleError::StalePrice)
                } else {
                    Ok(ap)
                },
            }
        }
    }

    /// The current aggregate for an asset, provided it is reliable and
    /// fresh.
    pub fn get_price(&self, now: u64, asset_symbol: u64) -> (r: Result<
        AggregatedPrice,
        OracleError,
    >)
        ensures
            r == self.spec_get_price(now, asset_symbol),
    {
        self.check_emergency_stop()?;
        match find_aggregated_index(&self.aggregated, asset_symbol) {
            None => Err(OracleError::PriceNotAvailable),
            Some(i) => {
                proof {
                    lemma_find_aggregated_index_properties(self.aggregated@, asset_symbol);
                }
                let ap = self.aggregated[i];
                if !ap.is_reliable() {
                    return Err(OracleError::UnreliablePrice);
                }
                if now.saturating_sub(ap.timestamp) > PRICE_STALENESS_THRESHOLD {
                    return Err(OracleError::StalePrice);
                }
                Ok(ap)
            },
        }
    }

    /// The most recent retained aggregate for the asset that is still
    /// reliable and within the looser fallback bound.
    pub fn get_fallback_price(&self, now: u64, asset_symbol: u64) -> (r: Result<u64, OracleError>)
        ensures
            self.spec_gate() is Err ==> r == Err::<u64, OracleError>(self.spec_gate()->Err_0),
            self.spec_gate() is Ok ==> r == match spec_fallback_price(
                self.history@,
                asset_symbol,
                now,
            ) {
                Some(p) => Ok::<u64, OracleError>(p),
                None => Err::<u64, OracleError>(OracleError::NoFallbackAvailable),
            },
    {
        self.check_emergency_stop()?;
        PriceAggregator::get_fallback_price(now, asset_symbol, &self.history)
    }

    /// A node's registry entry, if any. Available even while stopped.
    pub fn get_oracle_node_info(&self, node_address: u64) -> (r: Option<OracleNode>)
        ensures
            r == spec_find_node(self.nodes@, node_address),
    {
        find_node(&self.nodes, node_address)
    }

    /// The supported assets, in the order they were added.
    pub fn get_supported_assets(&self) -> (r: Vec<u64>)
        ensures
            r@ == self.supported_assets@,
    {
        let mut r: Vec<u64> = Vec::new();
        let mut i: usize = 0;
        while i < self.supported_assets.len()
            invariant
                0 <= i <= self.supported_assets@.len(),
                r@ == self.supported_assets@.take(i as int),
            decreases self.supported_assets@.len() - i,
        {
            r.push(self.supported_assets[i]);
            proof {
                assert(r@ =~= self.supported_assets@.take(i + 1));
            }
            i = i + 1;
        }
        proof {
            lemma_take_all(self.supported_assets@);
        }
        r
    }

    /// The asset's retained aggregates: up to `limit` (and at most the
    /// ring bound) of the newest entries, oldest first.
    pub fn get_price_history(&self, asset_symbol: u64, limit: u32) -> (r: Vec<AggregatedPrice>)
        ensures
            ({
                let entries = self.history@.filter(
                    |e: AggregatedPrice| e.asset_symbol == asset_symbol,
                );
                let l = if limit > MAX_HISTORY_ENTRIES {
                    MAX_HISTORY_ENTRIES as int
                } else {
                    limit as int
                };
                let start = if entries.len() > l {
                    entries.len() - l
                } else {
                    0
                };
                r@ == entries.subrange(start, entries.len() as int)
            }),
    {
        let ghost pred = |e: AggregatedPrice| e.asset_symbol == asset_symbol;
        let mut entries: Vec<AggregatedPrice> = Vec::new();
        let mut i: usize = 0;
        proof {
            assert(self.history@.take(0).filter(pred) =~= Seq::<AggregatedPrice>::empty());
        }
        while i < self.history.len()
            invariant
                0 <= i <= self.history@.len(),
                entries@ == self.history@.take(i as int).filter(pred),
                pred == (|e: AggregatedPrice| e.asset_symbol == asset_symbol),
            decreases self.history@.len() - i,
        {
            proof {
                lemma_filter_take_step(self.history@, pred, i as int);
            }
            if self.history[i].asset_symbol == asset_symbol {
                let entry = self.history[i];
                entries.push(entry);
            }
            i = i + 1;
        }
        proof {
            lemma_take_all(self.history@);
        }
        let l: usize = if limit > MAX_HISTORY_ENTRIES {
            MAX_HISTORY_ENTRIES as usize
        } else {
            limit as usize
        };
        let start: usize = if entries.len() > l {
            entries.len() - l
        } else {
            0
        };
        let mut r: Vec<AggregatedPrice> = Vec::new();
        let mut k: usize = start;
        while k < entries.len()
            invariant
                start <= k <= entries@.len(),
                r@ == entries@.subrange(start as int, k as int),
            decreases entries@.len() - k,
        {
            let entry = entries[k];
            r.push(entry);
            proof {
                assert(r@ =~= entries@.subrange(start as int, k + 1));
            }
            k = k + 1;
        }
        r
    }
}

/// Retained submissions older than this are dropped from an asset's
/// buffer when a new submission for it arrives.
pub const CLEANUP_THRESHOLD: u64 = 86400;

/// The submissions that feed an aggregation round: the asset's retained
/// submissions that are not yet stale.
pub open spec fn spec_recent_for_asset(
    submissions: Seq<PriceData>,
    asset_symbol: u64,
    now: u64,
) -> Seq<PriceData> {
    submissions.filter(
        |s: PriceData| s.asset_symbol == asset_symbol && sat_sub(now, s.timestamp)
            <= PRICE_STALENESS_THRESHOLD,
    )
}

/// The buffer after dropping the asset's entries older than the cleanup
/// threshold; other assets' entries stay.
pub open spec fn spec_cleanup_submissions(
    submissions: Seq<PriceData>,
    asset_symbol: u64,
    now: u64,
) -> Seq<PriceData> {
    submissions.filter(
        |s: PriceData| s.asset_symbol != asset_symbol || sat_sub(now, s.timestamp)
            <= CLEANUP_THRESHOLD,
    )
}

/// The current-aggregate table after publishing one aggregate: the
/// asset's entry is overwritten, or appended when the asset is new.
pub open spec fn spec_store_aggregated(
    aggs: Seq<AggregatedPrice>,
    ap: AggregatedPrice,
) -> Seq<AggregatedPrice> {
    let i = spec_find_aggregated_index(aggs, ap.asset_symbol);
    if i < 0 {
        aggs.push(ap)
    } else {
        aggs.update(i, ap)
    }
}

/// The history with the asset's first (oldest) `n` entries removed.
pub open spec fn spec_drop_oldest(
    history: Seq<AggregatedPrice>,
    asset_symbol: u64,
    n: int,
) -> Seq<AggregatedPrice>
    decreases history.len(),
{
    if history.len() == 0 {
        Seq::empty()
    } else if n > 0 && history.first().asset_symbol == asset_symbol {
        spec_drop_oldest(history.drop_first(), asset_symbol, n - 1)
    } else {
        seq![history.first()] + spec_drop_oldest(history.drop_first(), asset_symbol, n)
    }
}

/// The history trimmed back to the per-asset ring bound, dropping the
/// asset's oldest entries first.
pub open spec fn spec_trim_history(
    history: Seq<AggregatedPrice>,
    asset_symbol: u64,
) -> Seq<AggregatedPrice> {
    let count = history.filter(|e: AggregatedPrice| e.asset_symbol == asset_symbol).len();
    if count > MAX_HISTORY_ENTRIES {
        spec_drop_oldest(history, asset_symbol, count - MAX_HISTORY_ENTRIES)
    } else {
        history
    }
}

/// The registry after grading each contributing submission in turn
/// against the aggregated price.
pub open spec fn spec_apply_accuracy(
    nodes: Seq<OracleNode>,
    submissions: Seq<PriceData>,
    aggregated_price: u64,
) -> Seq<OracleNode>
    decreases submissions.len(),
{
    if submissions.len() == 0 {
        nodes
    } else {
        let prev = spec_apply_accuracy(nodes, submissions.drop_last(), aggregated_price);
        let sub = submissions.last();
        let i = spec_find_node_index(prev, sub.oracle_node);
        if i < 0 {
            prev
        } else {
            prev.update(
                i,
                prev[i].spec_update_reputation(spec_was_accurate(sub.price, aggregated_price)),
            )
        }
    }
}

/// Room left in the registry's counters for `k` more graded
/// submissions; machine bound, so that reputation updates cannot
/// overflow.
pub open spec fn spec_counter_headroom(nodes: Seq<OracleNode>, k: int) -> bool {
    forall|j: int| 0 <= j < nodes.len() ==> (#[trigger] nodes[j]).total_submissions + k
        <= u32::MAX && nodes[j].accurate_submissions + k <= u32::MAX
}

/// What one aggregation round does to the registry, the current
/// aggregates and the history, given the recent submissions that feed
/// it: nothing below the quorum; on success the published aggregate,
/// the trimmed history and the reputation feedback; on failure the
/// round's error and no change.
pub open spec fn spec_round_effect(
    prev_nodes: Seq<OracleNode>,
    prev_aggregated: Seq<AggregatedPrice>,
    prev_history: Seq<AggregatedPrice>,
    next_nodes: Seq<OracleNode>,
    next_aggregated: Seq<AggregatedPrice>,
    next_history: Seq<AggregatedPrice>,
    r: Result<(), OracleError>,
    now: u64,
    asset_symbol: u64,
    recent: Seq<PriceData>,
    min_oracle_nodes: u32,
) -> bool {
    &&& recent.len() < min_oracle_nodes ==> {
        &&& r == Ok::<(), OracleError>(())
        &&& next_nodes == prev_nodes
        &&& next_aggregated == prev_aggregated
        &&& next_history == prev_history
    }
    &&& recent.len() >= min_oracle_nodes ==> match spec_aggregate_result(
        now,
        asset_symbol,
        recent,
        prev_nodes,
    ) {
        Ok(ap) => {
            &&& r == Ok::<(), OracleError>(())
            &&& next_aggregated == spec_store_aggregated(prev_aggregated, ap)
            &&& next_history == spec_trim_history(prev_history.push(ap), asset_symbol)
            &&& next_nodes == spec_apply_accuracy(prev_nodes, recent, ap.price)
        },
        Err(e) => {
            &&& r == Err::<(), OracleError>(e)
            &&& next_nodes == prev_nodes
            &&& next_aggregated == prev_aggregated
            &&& next_history == prev_history
        },
    }
}

/// Drop the asset's entries beyond the ring bound, oldest first.
fn trim_asset_history(history: &mut Vec<AggregatedPrice>, asset_symbol: u64)
    ensures
        final(history)@ == spec_trim_history(old(history)@, asset_symbol),
{
    let ghost pred = |e: AggregatedPrice| e.asset_symbol == asset_symbol;
    let mut count: usize = 0;
    let mut i: usize = 0;
    proof {
        assert(history@.take(0).filter(pred) =~= Seq::<AggregatedPrice>::empty());
    }
    while i < history.len()
        invariant
            0 <= i <= history@.len(),
            count == history@.take(i as int).filter(pred).len(),
            count <= i,
            pred == (|e: AggregatedPrice| e.asset_symbol == asset_symbol),
        decreases history@.len() - i,
    {
        proof {
            lemma_filter_take_step(history@, pred, i as int);
        }
        if history[i].asset_symbol == asset_symbol {
            count = count + 1;
        }
        i = i + 1;
    }
    proof {
        lemma_take_all(history@);
    }
    if count <= MAX_HISTORY_ENTRIES as usize {
        return ;
    }
    let ghost orig = history@;
    let ghost total = count as int - MAX_HISTORY_ENTRIES as int;
    let mut to_drop: usize = count - MAX_HISTORY_ENTRIES as usize;
    let mut kept: Vec<AggregatedPrice> = Vec::new();
    let mut k: usize = 0;
    proof {
        assert(orig.skip(0) =~= orig);
    }
    while k < history.len()
        invariant
            0 <= k <= orig.len(),
            history@ == orig,
            spec_drop_oldest(orig, asset_symbol, total) == kept@ + spec_drop_oldest(
                orig.skip(k as int),
                asset_symbol,
                to_drop as int,
            ),
        decreases orig.len() - k,
    {
        proof {
            assert(orig.skip(k as int).first() == orig[k as int]);
            assert(orig.skip(k as int).drop_first() =~= orig.skip(k + 1));
        }
        let entry = history[k];
        if to_drop > 0 && entry.asset_symbol == asset_symbol {
            to_drop = to_drop - 1;
        } else {
            kept.push(entry);
            proof {
                assert(kept@ + spec_drop_oldest(orig.skip(k + 1), asset_symbol, to_drop as int)
                    =~= (kept@.drop_last()) + (seq![orig[k as int]] + spec_drop_oldest(
                    orig.skip(k + 1),
                    asset_symbol,
                    to_drop as int,
                )));
            }
        }
        k = k + 1;
    }
    proof {
        assert(orig.skip(orig.len() as int) =~= Seq::<AggregatedPrice>::empty());
        assert(kept@ + spec_drop_oldest(
            orig.skip(orig.len() as int),
            asset_symbol,
            to_drop as int,
        ) =~= kept@);
    }
    *history = kept;
}

/// Drop the asset's retained submissions older than the cleanup
/// threshold.
fn cleanup_old_price_data(submissions: &mut Vec<PriceData>, asset_symbol: u64, now: u64)
    ensures
        final(submissions)@ == spec_cleanup_submissions(old(submissions)@, asset_symbol, now),
{
    let ghost pred = |s: PriceData| s.asset_symbol != asset_symbol || sat_sub(now, s.timestamp)
        <= CLEANUP_THRESHOLD;
    let mut cleaned: Vec<PriceData> = Vec::new();
    let mut i: usize = 0;
    proof {
        assert(submissions@.take(0).filter(pred) =~= Seq::<PriceData>::empty());
    }
    while i < submissions.len()
        invariant
            0 <= i <= submissions@.len(),
            cleaned@ == submissions@.take(i as int).filter(pred),
            pred == (|s: PriceData| s.asset_symbol != asset_symbol || sat_sub(now, s.timestamp)
                <= CLEANUP_THRESHOLD),
        decreases submissions@.len() - i,
    {
        proof {
            lemma_filter_take_step(submissions@, pred, i as int);
        }
        let entry = submissions[i];
        if entry.asset_symbol != asset_symbol || now.saturating_sub(entry.timestamp)
            <= CLEANUP_THRESHOLD {
            cleaned.push(entry);
        }
        i = i + 1;
    }
    proof {
        lemma_take_all(submissions@);
    }
    *submissions = cleaned;
}

/// The asset's not-yet-stale submissions, in buffer order.
fn filter_recent_submissions(submissions: &Vec<PriceData>, asset_symbol: u64, now: u64) -> (r: Vec<
    PriceData,
>)
    ensures
        r@ == spec_recent_for_asset(submissions@, asset_symbol, now),
{
    let ghost pred = |s: PriceData| s.asset_symbol == asset_symbol && sat_sub(now, s.timestamp)
        <= PRICE_STALENESS_THRESHOLD;
    let mut recent: Vec<PriceData> = Vec::new();
    let mut i: usize = 0;
    proof {
        assert(submissions@.take(0).filter(pred) =~= Seq::<PriceData>::empty());
    }
    while i < submissions.len()
        invariant
            0 <= i <= submissions@.len(),
            recent@ == submissions@.take(i as int).filter(pred),
            pred == (|s: PriceData| s.asset_symbol == asset_symbol && sat_sub(now, s.timestamp)
                <= PRICE_STALENESS_THRESHOLD),
        decreases submissions@.len() - i,
    {
        proof {
            lemma_filter_take_step(submissions@, pred, i as int);
        }
        let entry = submissions[i];
        if entry.asset_symbol == asset_symbol && now.saturating_sub(entry.timestamp)
            <= PRICE_STALENESS_THRESHOLD {
            recent.push(entry);
        }
        i = i + 1;
    }
    proof {
        lemma_take_all(submissions@);
    }
    recent
}

impl PriceOracle {
    /// Run an aggregation round for the asset when enough recent
    /// submissions exist: on success the aggregate is published, the
    /// history extended (and trimmed), and every contributing node's
    /// reputation updated; on failure everything stays as it was.
    pub fn try_aggregate_prices(&mut self, now: u64, asset_symbol: u64) -> (r: Result<
        (),
        OracleError,
    >)
        requires
            old(self).submissions@.len() <= u32::MAX,
            spec_counter_headroom(old(self).nodes@, old(self).submissions@.len() as int),
        ensures
            old(self).config is None ==> r == Err::<(), OracleError>(OracleError::NotInitialized)
                && *final(self) == *old(self),
            old(self).config is Some ==> ({
                let recent = spec_recent_for_asset(old(self).submissions@, asset_symbol, now);
                &&& final(self).config == old(self).config
                &&& final(self).rate_limits == old(self).rate_limits
                &&& final(self).submissions == old(self).submissions
                &&& final(self).supported_assets == old(self).supported_assets
                &&& spec_round_effect(
                    old(self).nodes@,
                    old(self).aggregated@,
                    old(self).history@,
                    final(self).nodes@,
                    final(self).aggregated@,
                    final(self).history@,
                    r,
                    now,
                    asset_symbol,
                    recent,
                    old(self).config->Some_0.min_oracle_nodes,
                )
            }),
    {
        let config = match self.config {
            Some(c) => c,
            None => {
                return Err(OracleError::NotInitialized);
            },
        };
        let recent = filter_recent_submissions(&self.submissions, asset_symbol, now);
        if recent.len() < config.min_oracle_nodes as usize {
            return Ok(());
        }
        proof {
            crate::seqs::lemma_filter_sound(
                self.submissions@,
                |s: PriceData| s.asset_symbol == asset_symbol && sat_sub(now, s.timestamp)
                    <= PRICE_STALENESS_THRESHOLD,
            );
        }
        match PriceAggregator::aggregate_prices(now, asset_symbol, &recent, &self.nodes) {
            Ok(aggregated_price) => {
                proof {
                    assert(aggregated_price.asset_symbol == asset_symbol);
                }
                match find_aggregated_index(&self.aggregated, asset_symbol) {
                    Some(i) => {
                        proof {
                            lemma_find_aggregated_index_properties(self.aggregated@, asset_symbol);
                        }
                        self.aggregated.set(i, aggregated_price);
                    },
                    None => {
                        self.aggregated.push(aggregated_price);
                    },
                }
                self.history.push(aggregated_price);
                trim_asset_history(&mut self.history, asset_symbol);
                let ghost nodes0 = old(self).nodes@;
                let ghost recent0 = recent@;
                let ghost aggregated1 = self.aggregated@;
                let ghost history1 = self.history@;
                let mut p: usize = 0;
                proof {
                    assert(recent0.take(0) =~= Seq::<PriceData>::empty());
                }
                while p < recent.len()
                    invariant
                        0 <= p <= recent@.len(),
                        recent@ == recent0,
                        self.config == old(self).config,
                        self.rate_limits == old(self).rate_limits,
                        self.submissions == old(self).submissions,
                        self.supported_assets == old(self).supported_assets,
                        self.aggregated@ == aggregated1,
                        self.history@ == history1,
                        self.nodes@ == spec_apply_accuracy(
                            nodes0,
                            recent0.take(p as int),
                            aggregated_price.price,
                        ),
                        self.nodes@.len() == nodes0.len(),
                        spec_counter_headroom(nodes0, recent0.len() as int),
                        forall|j: int| 0 <= j < nodes0.len() ==> (#[trigger] self.nodes@[j]).total_submissions
                            <= nodes0[j].total_submissions + p
                            && self.nodes@[j].accurate_submissions
                            <= nodes0[j].accurate_submissions + p,
                    decreases recent@.len() - p,
                {
                    proof {
                        assert(recent0.take(p + 1).drop_last() =~= recent0.take(p as int));
                        assert(recent0.take(p + 1).last() == recent0[p as int]);
                    }
                    let submission = recent[p];
                    let ghost before = self.nodes@;
                    proof {
                        assert forall|j: int| 0 <= j < before.len() implies (#[trigger] before[j]).total_submissions
                            < u32::MAX && before[j].accurate_submissions < u32::MAX by {
                            assert(nodes0[j].total_submissions + recent0.len() <= u32::MAX);
                        }
                    }
                    PriceAggregator::update_oracle_accuracy(
                        &mut self.nodes,
                        &submission,
                        aggregated_price.price,
                    );
                    proof {
                        let after = self.nodes@;
                        let fi = spec_find_node_index(before, submission.oracle_node);
                        crate::oracle_node::lemma_find_node_index_properties(
                            before,
                            submission.oracle_node,
                        );
                        assert(after == spec_apply_accuracy(
                            nodes0,
                            recent0.take(p + 1),
                            aggregated_price.price,
                        ));
                        assert(after.len() == before.len());
                        assert forall|j: int| 0 <= j < nodes0.len() implies (#[trigger] after[j]).total_submissions
                            <= nodes0[j].total_submissions + (p + 1) && after[j].accurate_submissions
                            <= nodes0[j].accurate_submissions + (p + 1) by {
                            if fi >= 0 && j == fi {
                                assert(after[j] == before[j].spec_update_reputation(
                                    crate::aggregation::spec_was_accurate(
                                        submission.price,
                                        aggregated_price.price,
                                    ),
                                ));
                            } else {
                                assert(after[j] == before[j]);
                            }
                        }
                    }
                    p = p + 1;
                }
                proof {
                    assert(recent0.take(recent0.len() as int) =~= recent0);
                }
                Ok(())
            },
            Err(e) => Err(e),
        }
    }

    /// Accept one price submission: the emergency stop and the
    /// admission rules decide on it,
    /// the rate limiter counts it, the historical-consistency score
    /// grades it, and it joins the asset's buffer (evicting entries past
    /// the cleanup threshold); then an aggregation round runs if enough
    /// recent submissions exist. A failed round reports its error but
    /// keeps the recorded submission and rate-limit count, matching the
    /// no-rollback rule for prior valid state.
    pub fn submit_price(&mut self, now: u64, caller: u64, price_update: PriceUpdateRequest) -> (r:
        Result<(), OracleError>)
        requires
            old(self).submissions@.len() < u32::MAX,
            spec_counter_headroom(old(self).nodes@, old(self).submissions@.len() as int + 1),
        ensures
            old(self).spec_gate() is Err ==> r == Err::<(), OracleError>(
                old(self).spec_gate()->Err_0,
            ) && *final(self) == *old(self),
            old(self).spec_gate() is Ok && spec_validate_price_update(
                price_update,
                old(self).nodes@,
                old(self).rate_limits@,
                caller,
                now,
            ) is Err ==> r == Err::<(), OracleError>(
                spec_validate_price_update(
                    price_update,
                    old(self).nodes@,
                    old(self).rate_limits@,
                    caller,
                    now,
                )->Err_0,
            ) && *final(self) == *old(self),
            old(self).spec_gate() is Ok && spec_validate_price_update(
                price_update,
                old(self).nodes@,
                old(self).rate_limits@,
                caller,
                now,
            ) is Ok ==> ({
                let entry = PriceData {
                    asset_symbol: price_update.asset_symbol,
                    price: price_update.price,
                    timestamp: now,
                    oracle_node: caller,
                    confidence: spec_historical_confidence(
                        old(self).submissions@,
                        price_update.asset_symbol,
                        now,
                        price_update.price,
                    ) as u32,
                };
                let rli = spec_find_rate_limit_index(old(self).rate_limits@, caller);
                let new_subs = spec_cleanup_submissions(
                    old(self).submissions@.push(entry),
                    price_update.asset_symbol,
                    now,
                );
                let recent = spec_recent_for_asset(new_subs, price_update.asset_symbol, now);
                &&& final(self).config == old(self).config
                &&& final(self).supported_assets == old(self).supported_assets
                &&& rli < 0 ==> final(self).rate_limits@ == old(self).rate_limits@
                &&& rli >= 0 ==> final(self).rate_limits@ == old(self).rate_limits@.update(
                    rli,
                    old(self).rate_limits@[rli].spec_record_submission(now).0,
                )
                &&& final(self).submissions@ == new_subs
                &&& spec_round_effect(
                    old(self).nodes@,
                    old(self).aggregated@,
                    old(self).history@,
                    final(self).nodes@,
                    final(self).aggregated@,
                    final(self).history@,
                    r,
                    now,
                    price_update.asset_symbol,
                    recent,
                    old(self).config->Some_0.min_oracle_nodes,
                )
            }),
    {
        self.check_emergency_stop()?;
        match ValidationEngine::validate_price_update(
            now,
            &price_update,
            &self.nodes,
            &self.rate_limits,
            caller,
        ) {
            Ok(()) => {},
            Err(e) => {
                return Err(e);
            },
        }
        match crate::oracle_node::find_rate_limit_index(&self.rate_limits, caller) {
            Some(i) => {
                proof {
                    crate::oracle_node::lemma_find_rate_limit_index_properties(
                        self.rate_limits@,
                        caller,
                    );
                }
                let mut rate_limit = self.rate_limits[i];
                let accepted = rate_limit.record_submission(now);
                if !accepted {
                    return Err(OracleError::RateLimitExceeded);
                }
                self.rate_limits.set(i, rate_limit);
            },
            None => {},
        }
        let confidence = match ValidationEngine::validate_against_historical_data(
            now,
            price_update.price,
            price_update.asset_symbol,
            &self.submissions,
        ) {
            Ok(c) => c,
            Err(_) => 50,
        };
        let price_data = PriceData::new(
            price_update.asset_symbol,
            price_update.price,
            caller,
            confidence,
            now,
        );
        self.submissions.push(price_data);
        cleanup_old_price_data(&mut self.submissions, price_update.asset_symbol, now);
        proof {
            crate::seqs::lemma_filter_sound(
                old(self).submissions@.push(
                    PriceData {
                        asset_symbol: price_update.asset_symbol,
                        price: price_update.price,
                        timestamp: now,
                        oracle_node: caller,
                        confidence: spec_historical_confidence(
                            old(self).submissions@,
                            price_update.asset_symbol,
                            now,
                            price_update.price,
                        ) as u32,
                    },
                ),
                |s: PriceData| s.asset_symbol != price_update.asset_symbol || sat_sub(
                    now,
                    s.timestamp,
                ) <= CLEANUP_THRESHOLD,
            );
        }
        self.try_aggregate_prices(now, price_update.asset_symbol)
    }
}

} // verus!
