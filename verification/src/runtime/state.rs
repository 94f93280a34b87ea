//! What a leader knows.
use vstd::prelude::*;

use crate::keymap::Key;
use crate::plan::{PlanModel, RebalancePlan};
use crate::ranking::{
    AllocationStrategy, PolicyKey, PolicyModel, SessionShard, SessionShardModel,
};
use crate::region::{EntityConfig, EntityConfigModel};
use crate::runtime::admin_record::{AdminOperationRecord, AdminRecordModel};
use crate::runtime::config::CoordinatorLeaderConfig;
use crate::runtime::errors::{
    CoordinatorRuntimeError, RuntimeErrorModel, StorageCounters,
};
use crate::runtime::handoff::{ClaimLease, ClaimLeaseModel, Handoff, HandoffModel};
use crate::runtime::members::{
    MemberSession, MembershipVersion, SessionModel, SingletonConfig, SingletonModel,
};
use crate::sorted::{lemma_push_to_set, ranked, SortedMap, SortedSet};
use crate::time::{MonotonicTime, TimeSpan};
use crate::types::{
    CoordinatorTerm, EntityType, NodeIncarnation, PlacementSlotKey, PlacementVersion,
    SingletonKind, SlotKeyModel, VersionModel,
};

verus! {

impl View for MonotonicTime {
    type V = MonotonicTime;

    open spec fn view(&self) -> MonotonicTime {
        *self
    }
}

/// The limits of what a leader keeps durably.
#[derive(Debug, Clone, Copy, PartialEq, Eq, Structural)]
pub struct DurableLimits {
    pub maximum_entity_configs: usize,
    pub maximum_singleton_configs: usize,
    pub maximum_admin_operation_records: usize,
    pub admin_operation_retention: TimeSpan,
    pub maximum_reconciliation_work_per_pass: usize,
}

/// How far the reconciliation of a leader has come: what is left to do, since when the oldest of it
/// waits and when a pass last succeeded, both as time since the leader began, and the records that
/// were set aside, each with the reason.
pub struct ReconciliationProgress {
    pub backlog: usize,
    pub oldest_pending: Option<TimeSpan>,
    pub last_success: Option<TimeSpan>,
    pub quarantined: SortedMap<String, String>,
}

#[verifier::ext_equal]
pub struct ProgressModel {
    pub backlog: usize,
    pub oldest_pending: Option<TimeSpan>,
    pub last_success: Option<TimeSpan>,
    pub quarantined: Map<Seq<char>, Seq<char>>,
}

impl View for ReconciliationProgress {
    type V = ProgressModel;

    open spec fn view(&self) -> ProgressModel {
        ProgressModel {
            backlog: self.backlog,
            oldest_pending: self.oldest_pending,
            last_success: self.last_success,
            quarantined: self.quarantined@,
        }
    }
}

impl ProgressModel {
    /// Reconciliation that has not begun.
    pub open spec fn none() -> ProgressModel {
        ProgressModel {
            backlog: 0,
            oldest_pending: None,
            last_success: None,
            quarantined: Map::empty(),
        }
    }

    /// Whether some record is set aside.
    pub open spec fn is_degraded(self) -> bool {
        self.quarantined.dom().len() > 0
    }
}

impl ReconciliationProgress {
    pub fn new() -> (progress: Self)
        ensures
            progress@ == ProgressModel::none(),
    {
        ReconciliationProgress {
            backlog: 0,
            oldest_pending: None,
            last_success: None,
            quarantined: SortedMap::new(),
        }
    }

    pub fn is_degraded(&self) -> (degraded: bool)
        ensures
            degraded == self@.is_degraded(),
    {
        self.quarantined.len() > 0
    }
}

/// What a leader knows and decides by.
pub struct CoordinatorLeader {
    pub config: CoordinatorLeaderConfig,
    pub limits: DurableLimits,
    pub term: CoordinatorTerm,
    pub version: PlacementVersion,
    pub membership_version: MembershipVersion,
    pub sessions: SortedMap<NodeIncarnation, MemberSession>,
    pub claims: SortedMap<PlacementSlotKey, ClaimLease>,
    pub plans: SortedMap<u128, RebalancePlan>,
    pub handoffs: SortedMap<PlacementSlotKey, Handoff>,
    pub entity_configs: SortedMap<EntityType, EntityConfig>,
    pub singleton_configs: SortedMap<SingletonKind, SingletonConfig>,
    /// The strategies by their policies.
    pub strategies: SortedMap<PolicyKey, u64>,
    pub slot_assigned_at: SortedMap<PlacementSlotKey, MonotonicTime>,
    pub last_automatic_move_at: Option<MonotonicTime>,
    pub node_load_received: SortedMap<NodeIncarnation, MonotonicTime>,
    pub shard_load_received: SortedMap<SessionShard, MonotonicTime>,
    pub automatic_globally_paused: bool,
    pub paused_entity_types: SortedSet<EntityType>,
    pub applied_admin_operations: SortedMap<String, AdminOperationRecord>,
    pub reconciliation_focus: SortedSet<PlacementSlotKey>,
    pub reconciliation_focused: bool,
    pub reconciled: bool,
    pub reconciliation: ReconciliationProgress,
    pub counters: StorageCounters,
}

#[verifier::ext_equal]
pub struct LeaderModel {
    pub config: CoordinatorLeaderConfig,
    pub limits: DurableLimits,
    pub term: CoordinatorTerm,
    pub version: VersionModel,
    pub membership_version: MembershipVersion,
    pub sessions: Map<NodeIncarnation, SessionModel>,
    pub claims: Map<SlotKeyModel, ClaimLeaseModel>,
    pub plans: Map<u128, PlanModel>,
    pub handoffs: Map<SlotKeyModel, HandoffModel>,
    pub entity_configs: Map<Seq<char>, EntityConfigModel>,
    pub singleton_configs: Map<Seq<char>, SingletonModel>,
    pub strategies: Map<PolicyModel, u64>,
    pub slot_assigned_at: Map<SlotKeyModel, MonotonicTime>,
    pub last_automatic_move_at: Option<MonotonicTime>,
    pub node_load_received: Map<NodeIncarnation, MonotonicTime>,
    pub shard_load_received: Map<SessionShardModel, MonotonicTime>,
    pub automatic_globally_paused: bool,
    pub paused_entity_types: Set<Seq<char>>,
    pub applied_admin_operations: Map<Seq<char>, AdminRecordModel>,
    pub reconciliation_focus: Set<SlotKeyModel>,
    pub reconciliation_focused: bool,
    pub reconciled: bool,
    pub reconciliation: ProgressModel,
    pub counters: StorageCounters,
}

impl View for CoordinatorLeader {
    type V = LeaderModel;

    open spec fn view(&self) -> LeaderModel {
        LeaderModel {
            config: self.config,
            limits: self.limits,
            term: self.term,
            version: self.version@,
            membership_version: self.membership_version,
            sessions: self.sessions@,
            claims: self.claims@,
            plans: self.plans@,
            handoffs: self.handoffs@,
            entity_configs: self.entity_configs@,
            singleton_configs: self.singleton_configs@,
            strategies: self.strategies@,
            slot_assigned_at: self.slot_assigned_at@,
            last_automatic_move_at: self.last_automatic_move_at,
            node_load_received: self.node_load_received@,
            shard_load_received: self.shard_load_received@,
            automatic_globally_paused: self.automatic_globally_paused,
            paused_entity_types: self.paused_entity_types@,
            applied_admin_operations: self.applied_admin_operations@,
            reconciliation_focus: self.reconciliation_focus@,
            reconciliation_focused: self.reconciliation_focused,
            reconciled: self.reconciled,
            reconciliation: self.reconciliation@,
            counters: self.counters,
        }
    }
}

impl LeaderModel {
    /// The policy that places the entities of a configuration.
    pub open spec fn policy_of(self, config: EntityConfigModel) -> PolicyModel {
        PolicyKey {
            policy_id: config.allocation_policy_id,
            policy_version: config.allocation_policy_version,
        }
    }

    /// Whether automatic moves of an entity type are switched off.
    pub open spec fn is_paused(self, entity_type: Seq<char>) -> bool {
        self.automatic_globally_paused || self.paused_entity_types.contains(entity_type)
    }
}

impl CoordinatorLeader {
    /// A leader that has just been elected and knows nothing yet.
    pub fn new(
        config: CoordinatorLeaderConfig,
        limits: DurableLimits,
        version: PlacementVersion,
        membership_version: MembershipVersion,
    ) -> (state: Self)
        ensures
            state@ == (LeaderModel {
                config,
                limits,
                term: version.term,
                version: version@,
                membership_version,
                sessions: Map::empty(),
                claims: Map::empty(),
                plans: Map::empty(),
                handoffs: Map::empty(),
                entity_configs: Map::empty(),
                singleton_configs: Map::empty(),
                strategies: Map::empty(),
                slot_assigned_at: Map::empty(),
                last_automatic_move_at: None,
                node_load_received: Map::empty(),
                shard_load_received: Map::empty(),
                automatic_globally_paused: false,
                paused_entity_types: Set::empty(),
                applied_admin_operations: Map::empty(),
                reconciliation_focus: Set::empty(),
                reconciliation_focused: false,
                reconciled: false,
                reconciliation: ProgressModel::none(),
                counters: StorageCounters {
                    leadership_loss_count: 0,
                    commit_conflict_count: 0,
                    unknown_outcome_count: 0,
                    capacity_rejection_count: 0,
                },
            }),
    {
        CoordinatorLeader {
            config,
            limits,
            term: version.term,
            version,
            membership_version,
            sessions: SortedMap::new(),
            claims: SortedMap::new(),
            plans: SortedMap::new(),
            handoffs: SortedMap::new(),
            entity_configs: SortedMap::new(),
            singleton_configs: SortedMap::new(),
            strategies: SortedMap::new(),
            slot_assigned_at: SortedMap::new(),
            last_automatic_move_at: None,
            node_load_received: SortedMap::new(),
            shard_load_received: SortedMap::new(),
            automatic_globally_paused: false,
            paused_entity_types: SortedSet::new(),
            applied_admin_operations: SortedMap::new(),
            reconciliation_focus: SortedSet::new(),
            reconciliation_focused: false,
            reconciled: false,
            reconciliation: ReconciliationProgress::new(),
            counters: StorageCounters::new(),
        }
    }

    /// The version that the next commit is to have.
    pub fn next_version(&self) -> (result: Result<PlacementVersion, CoordinatorRuntimeError>)
        ensures
            match result {
                Ok(version) => self@.version.spec_next() == Some(version@),
                Err(error) => self@.version.spec_next() is None && error@
                    == RuntimeErrorModel::RevisionExhausted,
            },
    {
        match self.version.next_revision() {
            Some(version) => Ok(version),
            None => Err(CoordinatorRuntimeError::RevisionExhausted),
        }
    }

    /// The strategy that places the entities of a configuration.
    pub fn strategy_of(&self, config: &EntityConfig) -> (strategy: Option<u64>)
        ensures
            match strategy {
                Some(handle) => {
                    &&& self@.strategies.contains_key(self@.policy_of(config@))
                    &&& handle == self@.strategies[self@.policy_of(config@)]
                },
                None => !self@.strategies.contains_key(self@.policy_of(config@)),
            },
    {
        let (policy_id, policy_version) = config.allocation_policy();
        match self.strategies.get(&PolicyKey { policy_id: policy_id.copy(), policy_version }) {
            Some(handle) => Some(*handle),
            None => None,
        }
    }

    pub fn knows_policy_of(&self, config: &EntityConfig) -> (known: bool)
        ensures
            known == self@.strategies.contains_key(self@.policy_of(config@)),
    {
        self.strategy_of(config).is_some()
    }

    pub fn is_paused(&self, entity_type: &EntityType) -> (paused: bool)
        ensures
            paused == self@.is_paused(entity_type@),
    {
        self.automatic_globally_paused || self.paused_entity_types.contains(entity_type)
    }

    /// Registers an allocation strategy for its policy. It stands there from now on, and where
    /// another stood there before, that is reported.
    pub fn register_strategy(&mut self, strategy: AllocationStrategy) -> (result: Result<
        (),
        CoordinatorRuntimeError,
    >)
        ensures
            final(self)@ == (LeaderModel {
                strategies: old(self)@.strategies.insert(strategy@.policy, strategy.handle),
                ..old(self)@
            }),
            match result {
                Ok(_) => !old(self)@.strategies.contains_key(strategy@.policy),
                Err(error) => old(self)@.strategies.contains_key(strategy@.policy) && error@
                    == RuntimeErrorModel::DuplicateStrategy,
            },
    {
        let known = self.strategies.contains_key(&strategy.policy);
        self.strategies.insert(strategy.policy, strategy.handle);
        assert(self@ =~= LeaderModel {
            strategies: old(self)@.strategies.insert(strategy@.policy, strategy.handle),
            ..old(self)@
        });
        if known {
            Err(CoordinatorRuntimeError::DuplicateStrategy)
        } else {
            Ok(())
        }
    }

    /// Registers each strategy of a registry for its policy, in the place of what stood there.
    pub fn install_strategies(&mut self, registry: &SortedMap<PolicyKey, u64>)
        ensures
            final(self)@ == (LeaderModel {
                strategies: old(self)@.strategies.union_prefer_right(registry@),
                ..old(self)@
            }),
    {
        let len = registry.len();
        let ghost list = ranked::<PolicyKey>(registry@.dom());
        let ghost before = self@;
        let mut i: usize = 0;
        while i < len
            invariant
                i <= len,
                len == list.len(),
                list == ranked::<PolicyKey>(registry@.dom()),
                self@ == (LeaderModel { strategies: self@.strategies, ..before }),
                forall|policy: PolicyModel| #[trigger]
                    self@.strategies.contains_key(policy) <==> before.strategies.contains_key(
                        policy,
                    ) || list.subrange(0, i as int).contains(policy),
                forall|policy: PolicyModel| #[trigger]
                    self@.strategies.contains_key(policy) ==> self@.strategies[policy]
                        == if list.subrange(0, i as int).contains(policy) {
                        registry@[policy]
                    } else {
                        before.strategies[policy]
                    },
            decreases len - i,
        {
            let (policy, handle) = registry.entry_at(i);
            proof {
                let shorter = list.subrange(0, i as int);
                let longer = list.subrange(0, i + 1);
                assert(longer =~= shorter.push(list[i as int]));
                lemma_push_to_set(shorter, list[i as int]);
                assert forall|p: PolicyModel| #[trigger]
                    longer.contains(p) <==> shorter.contains(p) || p == list[i as int] by {
                    assert(longer.contains(p) == longer.to_set().contains(p));
                    assert(shorter.contains(p) == shorter.to_set().contains(p));
                }
            }
            let _ = self.register_strategy(
                AllocationStrategy { policy: policy.copy(), handle: *handle },
            );
            i = i + 1;
        }
        proof {
            assert(list.subrange(0, i as int) =~= list);
            assert forall|p: PolicyModel| #[trigger]
                list.contains(p) <==> registry@.contains_key(p) by {
                assert(list.to_set().contains(p) == list.contains(p));
            }
            assert(self@.strategies =~= before.strategies.union_prefer_right(registry@));
        }
    }

    /// Marks a slot for the next reconciliation; where too many are marked, all are.
    pub fn focus_reconciliation(&mut self, key: &PlacementSlotKey)
        ensures
            final(self)@ == if old(self)@.reconciliation_focus.len()
                >= old(self)@.limits.maximum_reconciliation_work_per_pass {
                LeaderModel { reconciliation_focused: true, ..old(self)@ }
            } else {
                LeaderModel {
                    reconciliation_focus: old(self)@.reconciliation_focus.insert(key@),
                    ..old(self)@
                }
            },
    {
        if self.reconciliation_focus.len() >= self.limits.maximum_reconciliation_work_per_pass {
            self.reconciliation_focused = true;
            return;
        }
        let _ = self.reconciliation_focus.insert(key.copy());
    }
}

} // verus!
