//! The configuration of a leader.
use vstd::prelude::*;

use crate::runtime::errors::{runtime_fault, CoordinatorRuntimeError, RuntimeErrorModel};
use crate::time::TimeSpan;

verus! {

/// The largest encoded control command, unless configured otherwise.
pub const DEFAULT_MAX_CONTROL_PAYLOAD: usize = 262_144;

/// How much may move at a time.
#[derive(Debug, Clone, Copy, PartialEq, Eq, Structural)]
pub struct RebalanceLimits {
    pub moves_per_round: usize,
    pub concurrent_cluster: usize,
    pub concurrent_entity: usize,
    pub concurrent_source: usize,
    pub concurrent_target: usize,
}

impl RebalanceLimits {
    pub open spec fn has_zero_limit(self) -> bool {
        self.moves_per_round == 0 || self.concurrent_cluster == 0 || self.concurrent_entity == 0
            || self.concurrent_source == 0 || self.concurrent_target == 0
    }

    pub fn is_valid(&self) -> (valid: bool)
        ensures
            valid == !self.has_zero_limit(),
    {
        !(self.moves_per_round == 0 || self.concurrent_cluster == 0 || self.concurrent_entity == 0
            || self.concurrent_source == 0 || self.concurrent_target == 0)
    }
}

/// The times and limits of a leader.
#[derive(Debug, Clone, Copy, PartialEq, Eq, Structural)]
pub struct CoordinatorLeaderConfig {
    pub leader_lease_ttl: TimeSpan,
    pub member_lease_ttl: TimeSpan,
    pub claim_ttl: TimeSpan,
    pub renewal_interval: TimeSpan,
    pub member_heartbeat_timeout: TimeSpan,
    pub maximum_chunk_bytes: usize,
    pub maximum_sessions: usize,
    pub maximum_node_loads: usize,
    pub maximum_shard_loads: usize,
    pub maximum_control_payload: usize,
    pub maximum_operations: usize,
    pub maximum_plan_moves: usize,
    pub maximum_completed_plan_history: usize,
    pub rebalance_limits: RebalanceLimits,
    pub rebalance_interval: TimeSpan,
}

impl Default for CoordinatorLeaderConfig {
    fn default() -> (config: Self)
        ensures
            config.leader_lease_ttl.length() == 10_000_000_000,
            config.member_lease_ttl.length() == 15_000_000_000,
            config.claim_ttl.length() == 15_000_000_000,
            config.renewal_interval.length() == 5_000_000_000,
            config.member_heartbeat_timeout.length() == 15_000_000_000,
            config.maximum_chunk_bytes == 196_608,
            config.maximum_sessions == 256,
            config.maximum_node_loads == 256,
            config.maximum_shard_loads == 65_536,
            config.maximum_control_payload == DEFAULT_MAX_CONTROL_PAYLOAD,
            config.maximum_operations == 128,
            config.maximum_plan_moves == 64,
            config.maximum_completed_plan_history == 64,
            config.rebalance_interval.length() == 30_000_000_000,
            config.rebalance_limits == (RebalanceLimits {
                moves_per_round: 16,
                concurrent_cluster: 8,
                concurrent_entity: 2,
                concurrent_source: 1,
                concurrent_target: 1,
            }),
            config.fault() is None,
    {
        CoordinatorLeaderConfig {
            leader_lease_ttl: TimeSpan::from_secs(10),
            member_lease_ttl: TimeSpan::from_secs(15),
            claim_ttl: TimeSpan::from_secs(15),
            renewal_interval: TimeSpan::from_secs(5),
            member_heartbeat_timeout: TimeSpan::from_secs(15),
            maximum_chunk_bytes: 192 * 1024,
            maximum_sessions: 256,
            maximum_node_loads: 256,
            maximum_shard_loads: 65_536,
            maximum_control_payload: DEFAULT_MAX_CONTROL_PAYLOAD,
            maximum_operations: 128,
            maximum_plan_moves: 64,
            maximum_completed_plan_history: 64,
            rebalance_limits: RebalanceLimits {
                moves_per_round: 16,
                concurrent_cluster: 8,
                concurrent_entity: 2,
                concurrent_source: 1,
                concurrent_target: 1,
            },
            rebalance_interval: TimeSpan::from_secs(30),
        }
    }
}

impl CoordinatorLeaderConfig {
    /// Whether a time is zero, or leases are renewed too late.
    pub open spec fn has_bad_time(self) -> bool {
        ||| self.leader_lease_ttl.length() == 0
        ||| self.member_lease_ttl.length() == 0
        ||| self.claim_ttl.length() == 0
        ||| self.renewal_interval.length() == 0
        ||| self.member_heartbeat_timeout.length() == 0
        ||| self.renewal_interval.length() >= self.leader_lease_ttl.length()
        ||| self.renewal_interval.length() >= self.member_lease_ttl.length()
        ||| self.renewal_interval.length() >= self.claim_ttl.length()
        ||| self.rebalance_interval.length() == 0
    }

    pub open spec fn has_zero_limit(self) -> bool {
        ||| self.maximum_sessions == 0
        ||| self.maximum_node_loads == 0
        ||| self.maximum_shard_loads == 0
        ||| self.maximum_control_payload == 0
        ||| self.maximum_operations == 0
        ||| self.maximum_plan_moves == 0
        ||| self.maximum_completed_plan_history == 0
        ||| self.rebalance_limits.has_zero_limit()
    }

    pub open spec fn fault(self) -> Option<RuntimeErrorModel> {
        if self.has_bad_time() || self.has_zero_limit() {
            Some(RuntimeErrorModel::InvalidConfig)
        } else {
            None
        }
    }

    pub fn validate(&self) -> (result: Result<(), CoordinatorRuntimeError>)
        ensures
            runtime_fault(result) == self.fault(),
    {
        if self.leader_lease_ttl.is_zero() || self.member_lease_ttl.is_zero()
            || self.claim_ttl.is_zero() || self.renewal_interval.is_zero()
            || self.member_heartbeat_timeout.is_zero() || !self.renewal_interval.is_shorter_than(
            &self.leader_lease_ttl,
        ) || !self.renewal_interval.is_shorter_than(&self.member_lease_ttl)
            || !self.renewal_interval.is_shorter_than(&self.claim_ttl)
            || self.rebalance_interval.is_zero() {
            return Err(CoordinatorRuntimeError::InvalidConfig);
        }
        if self.maximum_sessions == 0 || self.maximum_node_loads == 0 || self.maximum_shard_loads
            == 0 || self.maximum_control_payload == 0 || self.maximum_operations == 0
            || self.maximum_plan_moves == 0 || self.maximum_completed_plan_history == 0
            || !self.rebalance_limits.is_valid() {
            return Err(CoordinatorRuntimeError::InvalidConfig);
        }
        Ok(())
    }
}

} // verus!
