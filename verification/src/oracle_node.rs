//! Oracle nodes: stake, reputation, eligibility, and the per-node
//! fixed-window rate limiter, together with the registry operations.
//!
//! Node identities are plain `u64` values. The registry is an ordered list
//! with first-match lookup; `register_node` never adds a second entry for
//! an identity that is already present, so entries stay unique when all
//! changes go through the registry operations.

use vstd::prelude::*;
use crate::error::OracleError;
use crate::price_data::sat_sub;
use crate::seqs::{lemma_filter_take_step, lemma_take_all};

verus! {

/// Collateral a node must hold to be registered and stay eligible.
pub const MIN_STAKE_AMOUNT: u64 = 1000_0000000;

/// Nodes below this reputation score are not eligible.
pub const MIN_REPUTATION_SCORE: u32 = 70;

/// Accepted submissions allowed per node inside one rate-limit window.
pub const MAX_SUBMISSIONS_PER_HOUR: u32 = 60;

/// Length of the fixed rate-limit window, in seconds.
pub const RATE_LIMIT_WINDOW: u64 = 3600;

/// A node that has not submitted for this long is treated as stale and
/// excluded from aggregation even if its score is good.
pub const REPUTATION_DECAY_TIME: u64 = 86400 * 7;

/// Below this many submissions a node keeps the perfect starting score.
pub const MIN_SUBMISSIONS_FOR_REPUTATION: u32 = 10;

/// One registered data source.
#[derive(Clone, Copy, Debug, PartialEq, Eq, Structural)]
pub struct OracleNode {
    pub address: u64,
    /// Rolling accuracy measure, 0-100.
    pub reputation_score: u32,
    pub total_submissions: u32,
    pub accurate_submissions: u32,
    pub last_submission_time: u64,
    pub is_active: bool,
    pub stake_amount: u64,
    pub registered_time: u64,
}

/// What a prospective node hands in to register.
#[derive(Clone, Copy, Debug, PartialEq, Eq, Structural)]
pub struct NodeRegistration {
    pub node_address: u64,
    pub stake_amount: u64,
    /// Opaque metadata tag; the engine never reads it.
    pub metadata: u64,
}

/// Per-node rate-limit state: a fixed (non-sliding) window. The window
/// resets as a whole once it has fully elapsed, so bursts straddling a
/// window boundary may reach twice the per-window maximum; that is the
/// intended trade-off for simplicity.
#[derive(Clone, Copy, Debug, PartialEq, Eq, Structural)]
pub struct RateLimitInfo {
    pub node_address: u64,
    pub submission_count: u32,
    pub window_start: u64,
    pub last_submission: u64,
}

impl OracleNode {
    /// The score a node's record earns: perfect until enough submissions
    /// exist to judge it, then the accuracy percentage, capped at 100.
    pub open spec fn spec_reputation(self) -> int {
        if self.total_submissions < MIN_SUBMISSIONS_FOR_REPUTATION {
            100
        } else {
            let pct = self.accurate_submissions * 100 / self.total_submissions as int;
            if pct > 100 {
                100
            } else {
                pct
            }
        }
    }

    pub open spec fn spec_is_reputation_stale(self, now: u64) -> bool {
        sat_sub(now, self.last_submission_time) > REPUTATION_DECAY_TIME
    }

    /// Eligible iff active, sufficiently staked, sufficiently reputable,
    /// and recently seen.
    pub open spec fn spec_is_eligible(self, now: u64) -> bool {
        &&& self.is_active
        &&& self.stake_amount >= MIN_STAKE_AMOUNT
        &&& self.reputation_score >= MIN_REPUTATION_SCORE
        &&& !self.spec_is_reputation_stale(now)
    }

    /// The node after one more submission has been judged.
    pub open spec fn spec_update_reputation(self, was_accurate: bool) -> OracleNode
        recommends
            self.total_submissions < u32::MAX,
            self.accurate_submissions < u32::MAX,
    {
        let counted = OracleNode {
            total_submissions: (self.total_submissions + 1) as u32,
            accurate_submissions: if was_accurate {
                (self.accurate_submissions + 1) as u32
            } else {
                self.accurate_submissions
            },
            ..self
        };
        OracleNode { reputation_score: counted.spec_reputation() as u32, ..counted }
    }

    pub fn new(address: u64, stake_amount: u64, now: u64) -> (r: OracleNode)
        ensures
            r == (OracleNode {
                address,
                reputation_score: 100,
                total_submissions: 0,
                accurate_submissions: 0,
                last_submission_time: 0,
                is_active: true,
                stake_amount,
                registered_time: now,
            }),
    {
        OracleNode {
            address,
            reputation_score: 100,
            total_submissions: 0,
            accurate_submissions: 0,
            last_submission_time: 0,
            is_active: true,
            stake_amount,
            registered_time: now,
        }
    }

    pub fn calculate_reputation(&self) -> (r: u32)
        ensures
            r == self.spec_reputation(),
            r <= 100,
    {
        if self.total_submissions < MIN_SUBMISSIONS_FOR_REPUTATION {
            return 100;
        }
        let pct: u64 = (self.accurate_submissions as u64) * 100 / (self.total_submissions as u64);
        if pct > 100 {
            100
        } else {
            pct as u32
        }
    }

    pub fn update_reputation(&mut self, was_accurate: bool)
        requires
            old(self).total_submissions < u32::MAX,
            old(self).accurate_submissions < u32::MAX,
        ensures
            *final(self) == old(self).spec_update_reputation(was_accurate),
    {
        self.total_submissions = self.total_submissions + 1;
        if was_accurate {
            self.accurate_submissions = self.accurate_submissions + 1;
        }
        self.reputation_score = self.calculate_reputation();
    }

    pub fn is_reputation_stale(&self, now: u64) -> (r: bool)
        ensures
            r == self.spec_is_reputation_stale(now),
    {
        now.saturating_sub(self.last_submission_time) > REPUTATION_DECAY_TIME
    }

    pub fn is_eligible(&self, now: u64) -> (r: bool)
        ensures
            r == self.spec_is_eligible(now),
    {
        self.is_active && self.stake_amount >= MIN_STAKE_AMOUNT && self.reputation_score
            >= MIN_REPUTATION_SCORE && !self.is_reputation_stale(now)
    }

    /// Whether the rate limiter would accept one more submission now:
    /// either the window has fully elapsed, or there is room left in it.
    pub open spec fn spec_can_submit(rate_limit: RateLimitInfo, now: u64) -> bool {
        sat_sub(now, rate_limit.window_start) >= RATE_LIMIT_WINDOW
            || rate_limit.submission_count < MAX_SUBMISSIONS_PER_HOUR
    }

    pub fn can_submit(&self, now: u64, rate_limit: &RateLimitInfo) -> (r: bool)
        ensures
            r == Self::spec_can_submit(*rate_limit, now),
    {
        if now.saturating_sub(rate_limit.window_start) >= RATE_LIMIT_WINDOW {
            return true;
        }
        rate_limit.submission_count < MAX_SUBMISSIONS_PER_HOUR
    }

    /// Reduce the stake; a node that falls below the minimum is forced
    /// inactive on the spot.
    pub fn slash_stake(&mut self, slash_amount: u64)
        ensures
            final(self).stake_amount == sat_sub(old(self).stake_amount, slash_amount),
            final(self).is_active == (old(self).is_active && final(self).stake_amount
                >= MIN_STAKE_AMOUNT),
            *final(self) == (OracleNode {
                stake_amount: final(self).stake_amount,
                is_active: final(self).is_active,
                ..*old(self)
            }),
    {
        self.stake_amount = self.stake_amount.saturating_sub(slash_amount);
        if self.stake_amount < MIN_STAKE_AMOUNT {
            self.is_active = false;
        }
    }
}

/// A node with insufficient stake is never eligible, whatever its
/// reputation, activity or recency.
pub proof fn lemma_insufficient_stake_never_eligible(node: OracleNode, now: u64)
    requires
        node.stake_amount < MIN_STAKE_AMOUNT,
    ensures
        !node.spec_is_eligible(now),
{
}

impl RateLimitInfo {
    pub fn new(node_address: u64, now: u64) -> (r: RateLimitInfo)
        ensures
            r == (RateLimitInfo {
                node_address,
                submission_count: 0,
                window_start: now,
                last_submission: 0,
            }),
    {
        RateLimitInfo { node_address, submission_count: 0, window_start: now, last_submission: 0 }
    }

    /// The state after offering one submission at `now`, and whether it was
    /// accepted: an elapsed window is reset first; a full window rejects;
    /// otherwise the submission is counted.
    pub open spec fn spec_record_submission(self, now: u64) -> (RateLimitInfo, bool) {
        let base = if sat_sub(now, self.window_start) >= RATE_LIMIT_WINDOW {
            RateLimitInfo { submission_count: 0, window_start: now, ..self }
        } else {
            self
        };
        if base.submission_count >= MAX_SUBMISSIONS_PER_HOUR {
            (base, false)
        } else {
            (
                RateLimitInfo {
                    submission_count: (base.submission_count + 1) as u32,
                    last_submission: now,
                    ..base
                },
                true,
            )
        }
    }

    pub fn record_submission(&mut self, now: u64) -> (accepted: bool)
        ensures
            *final(self) == old(self).spec_record_submission(now).0,
            accepted == old(self).spec_record_submission(now).1,
    {
        if now.saturating_sub(self.window_start) >= RATE_LIMIT_WINDOW {
            self.window_start = now;
            self.submission_count = 0;
        }
        if self.submission_count >= MAX_SUBMISSIONS_PER_HOUR {
            return false;
        }
        self.submission_count = self.submission_count + 1;
        self.last_submission = now;
        true
    }

    /// The rate-limit state after a whole run of submission attempts.
    pub open spec fn spec_after_submissions(self, times: Seq<u64>) -> RateLimitInfo
        decreases times.len(),
    {
        if times.len() == 0 {
            self
        } else {
            self.spec_record_submission(times[0]).0.spec_after_submissions(times.drop_first())
        }
    }

    /// How many of a run of submission attempts are accepted.
    pub open spec fn spec_count_accepted(self, times: Seq<u64>) -> nat
        decreases times.len(),
    {
        if times.len() == 0 {
            0
        } else {
            (if self.spec_record_submission(times[0]).1 {
                1nat
            } else {
                0nat
            }) + self.spec_record_submission(times[0]).0.spec_count_accepted(times.drop_first())
        }
    }
}

/// Inside one window the limiter never accepts more submissions than the
/// per-window maximum: for any run of attempts that all fall before the
/// window elapses, the accepted ones and the count already used together
/// stay within the maximum, and the stored count tracks them exactly.
pub proof fn lemma_rate_limit_window_bound(rl: RateLimitInfo, times: Seq<u64>)
    requires
        rl.submission_count <= MAX_SUBMISSIONS_PER_HOUR,
        forall|i: int| 0 <= i < times.len() ==> #[trigger] times[i] < rl.window_start
            + RATE_LIMIT_WINDOW,
    ensures
        rl.submission_count + rl.spec_count_accepted(times) <= MAX_SUBMISSIONS_PER_HOUR,
        rl.spec_after_submissions(times).submission_count == rl.submission_count
            + rl.spec_count_accepted(times),
        rl.spec_after_submissions(times).window_start == rl.window_start,
    decreases times.len(),
{
    if times.len() > 0 {
        let (next, _accepted) = rl.spec_record_submission(times[0]);
        assert(sat_sub(times[0], rl.window_start) < RATE_LIMIT_WINDOW);
        assert(forall|i: int| 0 <= i < times.drop_first().len() ==> #[trigger] times.drop_first()[i]
            < next.window_start + RATE_LIMIT_WINDOW);
        lemma_rate_limit_window_bound(next, times.drop_first());
    }
}

/// First index in the registry holding a node with the given identity, or
/// `-1` when there is none.
pub open spec fn spec_find_node_index(nodes: Seq<OracleNode>, address: u64) -> int
    decreases nodes.len(),
{
    if nodes.len() == 0 {
        -1
    } else if nodes[0].address == address {
        0
    } else {
        let rest = spec_find_node_index(nodes.drop_first(), address);
        if rest < 0 {
            -1
        } else {
            rest + 1
        }
    }
}

/// The registry entry for an identity: the first matching node, if any.
pub open spec fn spec_find_node(nodes: Seq<OracleNode>, address: u64) -> Option<OracleNode> {
    let i = spec_find_node_index(nodes, address);
    if i < 0 {
        None
    } else {
        Some(nodes[i])
    }
}

pub proof fn lemma_find_node_index_properties(nodes: Seq<OracleNode>, address: u64)
    ensures
        spec_find_node_index(nodes, address) < 0 ==> forall|j: int|
            0 <= j < nodes.len() ==> (#[trigger] nodes[j]).address != address,
        spec_find_node_index(nodes, address) >= 0 ==> {
            let i = spec_find_node_index(nodes, address);
            &&& 0 <= i < nodes.len()
            &&& nodes[i].address == address
            &&& forall|j: int| 0 <= j < i ==> (#[trigger] nodes[j]).address != address
        },
    decreases nodes.len(),
{
    if nodes.len() > 0 && nodes[0].address != address {
        let rest = nodes.drop_first();
        lemma_find_node_index_properties(rest, address);
        let ri = spec_find_node_index(rest, address);
        if ri < 0 {
            assert forall|j: int| 0 <= j < nodes.len() implies (#[trigger] nodes[j]).address
                != address by {
                if j > 0 {
                    assert(nodes[j] == rest[j - 1]);
                    assert(rest[j - 1].address != address);
                }
            }
        } else {
            assert(nodes[ri + 1] == rest[ri]);
            assert forall|j: int| 0 <= j < ri + 1 implies (#[trigger] nodes[j]).address
                != address by {
                if j > 0 {
                    assert(nodes[j] == rest[j - 1]);
                    assert(rest[j - 1].address != address);
                }
            }
        }
    }
}

/// First index in the rate-limit table for the given identity, or `-1`.
pub open spec fn spec_find_rate_limit_index(limits: Seq<RateLimitInfo>, address: u64) -> int
    decreases limits.len(),
{
    if limits.len() == 0 {
        -1
    } else if limits[0].node_address == address {
        0
    } else {
        let rest = spec_find_rate_limit_index(limits.drop_first(), address);
        if rest < 0 {
            -1
        } else {
            rest + 1
        }
    }
}

pub proof fn lemma_find_rate_limit_index_properties(limits: Seq<RateLimitInfo>, address: u64)
    ensures
        spec_find_rate_limit_index(limits, address) < 0 ==> forall|j: int|
            0 <= j < limits.len() ==> (#[trigger] limits[j]).node_address != address,
        spec_find_rate_limit_index(limits, address) >= 0 ==> {
            let i = spec_find_rate_limit_index(limits, address);
            &&& 0 <= i < limits.len()
            &&& limits[i].node_address == address
            &&& forall|j: int| 0 <= j < i ==> (#[trigger] limits[j]).node_address != address
        },
    decreases limits.len(),
{
    if limits.len() > 0 && limits[0].node_address != address {
        let rest = limits.drop_first();
        lemma_find_rate_limit_index_properties(rest, address);
        let ri = spec_find_rate_limit_index(rest, address);
        if ri < 0 {
            assert forall|j: int| 0 <= j < limits.len() implies (#[trigger] limits[j]).node_address
                != address by {
                if j > 0 {
                    assert(limits[j] == rest[j - 1]);
                    assert(rest[j - 1].node_address != address);
                }
            }
        } else {
            assert(limits[ri + 1] == rest[ri]);
            assert forall|j: int| 0 <= j < ri + 1 implies (#[trigger] limits[j]).node_address
                != address by {
                if j > 0 {
                    assert(limits[j] == rest[j - 1]);
                    assert(rest[j - 1].node_address != address);
                }
            }
        }
    }
}

/// Look a node up by identity; returns a copy of the first match.
pub fn find_node(nodes: &Vec<OracleNode>, address: u64) -> (r: Option<OracleNode>)
    ensures
        r == spec_find_node(nodes@, address),
{
    let mut i: usize = 0;
    while i < nodes.len()
        invariant
            0 <= i <= nodes@.len(),
            forall|j: int| 0 <= j < i ==> (#[trigger] nodes@[j]).address != address,
        decreases nodes@.len() - i,
    {
        if nodes[i].address == address {
            proof {
                lemma_find_node_index_properties(nodes@, address);
            }
            return Some(nodes[i]);
        }
        i = i + 1;
    }
    proof {
        lemma_find_node_index_properties(nodes@, address);
    }
    None
}

/// Index of a node's registry entry, usable for in-place updates.
pub fn find_node_index(nodes: &Vec<OracleNode>, address: u64) -> (r: Option<usize>)
    ensures
        match r {
            Some(i) => i == spec_find_node_index(nodes@, address),
            None => spec_find_node_index(nodes@, address) < 0,
        },
{
    let mut i: usize = 0;
    while i < nodes.len()
        invariant
            0 <= i <= nodes@.len(),
            forall|j: int| 0 <= j < i ==> (#[trigger] nodes@[j]).address != address,
        decreases nodes@.len() - i,
    {
        if nodes[i].address == address {
            proof {
                lemma_find_node_index_properties(nodes@, address);
            }
            return Some(i);
        }
        i = i + 1;
    }
    proof {
        lemma_find_node_index_properties(nodes@, address);
    }
    None
}

/// Index of a node's rate-limit entry.
pub fn find_rate_limit_index(limits: &Vec<RateLimitInfo>, address: u64) -> (r: Option<usize>)
    ensures
        match r {
            Some(i) => i == spec_find_rate_limit_index(limits@, address),
            None => spec_find_rate_limit_index(limits@, address) < 0,
        },
{
    let mut i: usize = 0;
    while i < limits.len()
        invariant
            0 <= i <= limits@.len(),
            forall|j: int| 0 <= j < i ==> (#[trigger] limits@[j]).node_address != address,
        decreases limits@.len() - i,
    {
        if limits[i].node_address == address {
            proof {
                lemma_find_rate_limit_index_properties(limits@, address);
            }
            return Some(i);
        }
        i = i + 1;
    }
    proof {
        lemma_find_rate_limit_index_properties(limits@, address);
    }
    None
}

/// Registry operations shared by the engine entry points.
pub struct NodeManager;

impl NodeManager {
    /// Admit a new node: rejected when the identity is taken or the stake
    /// is short; otherwise the registry and the rate-limit table each gain
    /// one fresh entry and nothing else changes.
    pub fn register_node(
        nodes: &mut Vec<OracleNode>,
        rate_limits: &mut Vec<RateLimitInfo>,
        registration: NodeRegistration,
        now: u64,
    ) -> (r: Result<(), OracleError>)
        ensures
            spec_find_node_index(old(nodes)@, registration.node_address) >= 0 ==> {
                &&& r == Err::<(), OracleError>(OracleError::NodeAlreadyRegistered)
                &&& final(nodes)@ == old(nodes)@
                &&& final(rate_limits)@ == old(rate_limits)@
            },
            spec_find_node_index(old(nodes)@, registration.node_address) < 0
                && registration.stake_amount < MIN_STAKE_AMOUNT ==> {
                &&& r == Err::<(), OracleError>(OracleError::InsufficientStake)
                &&& final(nodes)@ == old(nodes)@
                &&& final(rate_limits)@ == old(rate_limits)@
            },
            spec_find_node_index(old(nodes)@, registration.node_address) < 0
                && registration.stake_amount >= MIN_STAKE_AMOUNT ==> {
                &&& r == Ok::<(), OracleError>(())
                &&& final(nodes)@ == old(nodes)@.push(
                    OracleNode {
                        address: registration.node_address,
                        reputation_score: 100,
                        total_submissions: 0,
                        accurate_submissions: 0,
                        last_submission_time: 0,
                        is_active: true,
                        stake_amount: registration.stake_amount,
                        registered_time: now,
                    },
                )
                &&& final(rate_limits)@ == old(rate_limits)@.push(
                    RateLimitInfo {
                        node_address: registration.node_address,
                        submission_count: 0,
                        window_start: now,
                        last_submission: 0,
                    },
                )
            },
    {
        if find_node(nodes, registration.node_address).is_some() {
            return Err(OracleError::NodeAlreadyRegistered);
        }
        if registration.stake_amount < MIN_STAKE_AMOUNT {
            return Err(OracleError::InsufficientStake);
        }
        let node = OracleNode::new(registration.node_address, registration.stake_amount, now);
        let rate_limit = RateLimitInfo::new(registration.node_address, now);
        nodes.push(node);
        rate_limits.push(rate_limit);
        Ok(())
    }

    /// Mark a node inactive; its record and history stay.
    pub fn deactivate_node(nodes: &mut Vec<OracleNode>, node_address: u64) -> (r: Result<
        (),
        OracleError,
    >)
        ensures
            spec_find_node_index(old(nodes)@, node_address) < 0 ==> r == Err::<(), OracleError>(
                OracleError::NodeNotFound,
            ) && final(nodes)@ == old(nodes)@,
            spec_find_node_index(old(nodes)@, node_address) >= 0 ==> {
                let i = spec_find_node_index(old(nodes)@, node_address);
                r == Ok::<(), OracleError>(()) && final(nodes)@ == old(nodes)@.update(
                    i,
                    OracleNode { is_active: false, ..old(nodes)@[i] },
                )
            },
    {
        let found = find_node_index(nodes, node_address);
        match found {
            Some(i) => {
                proof {
                    lemma_find_node_index_properties(nodes@, node_address);
                }
                let mut node = nodes[i];
                node.is_active = false;
                nodes.set(i, node);
                Ok(())
            },
            None => Err(OracleError::NodeNotFound),
        }
    }

    /// The identities of all currently eligible nodes, in registry order.
    pub fn get_eligible_nodes(nodes: &Vec<OracleNode>, now: u64) -> (r: Vec<u64>)
        ensures
            r@ == nodes@.filter(|n: OracleNode| n.spec_is_eligible(now)).map_values(
                |n: OracleNode| n.address,
            ),
    {
        let ghost pred = |n: OracleNode| n.spec_is_eligible(now);
        let ghost f = |n: OracleNode| n.address;
        let mut r: Vec<u64> = Vec::new();
        let mut i: usize = 0;
        proof {
            assert(nodes@.take(0).filter(pred) =~= Seq::<OracleNode>::empty());
            assert(r@ =~= nodes@.take(0).filter(pred).map_values(f));
        }
        while i < nodes.len()
            invariant
                0 <= i <= nodes@.len(),
                r@ == nodes@.take(i as int).filter(pred).map_values(f),
                pred == (|n: OracleNode| n.spec_is_eligible(now)),
                f == (|n: OracleNode| n.address),
            decreases nodes@.len() - i,
        {
            proof {
                lemma_filter_take_step(nodes@, pred, i as int);
            }
            if nodes[i].is_eligible(now) {
                r.push(nodes[i].address);
                proof {
                    assert(nodes@.take(i + 1).filter(pred).map_values(f) =~= nodes@.take(
                        i as int,
                    ).filter(pred).map_values(f).push(f(nodes@[i as int])));
                }
            } else {
                proof {
                    assert(nodes@.take(i + 1).filter(pred).map_values(f) =~= nodes@.take(
                        i as int,
                    ).filter(pred).map_values(f));
                }
            }
            i = i + 1;
        }
        proof {
            lemma_take_all(nodes@);
        }
        r
    }
}

} // verus!
