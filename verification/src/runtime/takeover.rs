//! What a leader takes over when it is elected.
use vstd::prelude::*;

use crate::keymap::{seq_view, Key};
use crate::plan::{PlanModel, RebalancePlan};
use crate::ranking::{AllocationStrategy, PolicyModel};
use crate::runtime::config::CoordinatorLeaderConfig;
use crate::runtime::errors::{CoordinatorRuntimeError, RuntimeErrorModel, StorageCounters};
use crate::runtime::members::MembershipVersion;
use crate::runtime::state::{CoordinatorLeader, DurableLimits, LeaderModel, ProgressModel};
use crate::time::MonotonicTime;
use crate::types::{
    CoordinatorTerm, PlacementDomainId, PlacementSlot, PlacementSlotState, PlacementVersion,
    Revision, SlotKeyModel, SlotModel,
};

verus! {

/// The highest revision of the first so many slots.
pub open spec fn highest_revision(slots: Seq<SlotModel>, count: nat) -> Option<Revision>
    decreases count,
{
    if count == 0 {
        None
    } else {
        let revision = slots[count - 1].version.revision;
        match highest_revision(slots, (count - 1) as nat) {
            Some(rest) => if rest.0 > revision.0 {
                Some(rest)
            } else {
                Some(revision)
            },
            None => Some(revision),
        }
    }
}

/// The revision at which a leader takes over: that of its latest slot, or the first.
pub open spec fn initial_revision(slots: Seq<SlotModel>) -> Revision {
    match highest_revision(slots, slots.len()) {
        Some(revision) => revision,
        None => Revision(1),
    }
}

pub fn takeover_revision(slots: &Vec<PlacementSlot>) -> (revision: Revision)
    ensures
        revision == initial_revision(seq_view(slots@)),
{
    let ghost list = seq_view(slots@);
    let mut highest: Option<Revision> = None;
    let mut i: usize = 0;
    while i < slots.len()
        invariant
            i <= slots.len(),
            list == seq_view(slots@),
            highest == highest_revision(list, i as nat),
        decreases slots.len() - i,
    {
        assert(list[i as int] == slots@[i as int]@);
        let revision = slots[i].version.revision;
        highest = match highest {
            Some(rest) => if rest.0 > revision.0 {
                Some(rest)
            } else {
                Some(revision)
            },
            None => Some(revision),
        };
        i = i + 1;
    }
    match highest {
        Some(revision) => revision,
        None => Revision(1),
    }
}

/// Whether one of the first so many slots is the running one of a key.
pub open spec fn runs_slot(slots: Seq<SlotModel>, count: int, key: SlotKeyModel) -> bool {
    exists|i: int|
        0 <= i < count && (#[trigger] slots[i]).key == key && slots[i].state
            == PlacementSlotState::Running
}

/// When running slots count as assigned: at the beginning.
pub open spec fn initial_assignments(slots: Seq<SlotModel>) -> Map<
    SlotKeyModel,
    MonotonicTime,
> {
    Map::new(
        |key: SlotKeyModel| runs_slot(slots, slots.len() as int, key),
        |key: SlotKeyModel| MonotonicTime(0),
    )
}

/// The first so many plans by their identities.
pub open spec fn plans_by_id(plans: Seq<PlanModel>, count: nat) -> Map<u128, PlanModel>
    decreases count,
{
    if count == 0 {
        Map::empty()
    } else {
        plans_by_id(plans, (count - 1) as nat).insert(plans[count - 1].plan_id, plans[count - 1])
    }
}

impl LeaderModel {
    /// What a leader knows once it is elected.
    pub open spec fn taking_over(
        config: CoordinatorLeaderConfig,
        limits: DurableLimits,
        domain: Seq<char>,
        term: CoordinatorTerm,
        membership_version: MembershipVersion,
        strategies: Map<PolicyModel, u64>,
        slots: Seq<SlotModel>,
        plans: Seq<PlanModel>,
    ) -> LeaderModel {
        LeaderModel {
            config,
            limits,
            term,
            version: PlacementVersion { domain, term, revision: initial_revision(slots) },
            membership_version,
            sessions: Map::empty(),
            claims: Map::empty(),
            plans: plans_by_id(plans, plans.len()),
            handoffs: Map::empty(),
            entity_configs: Map::empty(),
            singleton_configs: Map::empty(),
            strategies,
            slot_assigned_at: initial_assignments(slots),
            last_automatic_move_at: None,
            node_load_received: Map::empty(),
            shard_load_received: Map::empty(),
            automatic_globally_paused: false,
            paused_entity_types: Set::empty(),
            applied_admin_operations: Map::empty(),
            reconciliation_focus: Set::empty(),
            reconciliation_focused: false,
            reconciled: false,
            reconciliation: ProgressModel::none(),
            counters: StorageCounters {
                leadership_loss_count: 0,
                commit_conflict_count: 0,
                unknown_outcome_count: 0,
                capacity_rejection_count: 0,
            },
        }
    }
}

impl CoordinatorLeader {
    /// What a leader knows once it is elected: the stored plans and slots, and one strategy.
    pub fn elect(
        config: CoordinatorLeaderConfig,
        limits: DurableLimits,
        domain: PlacementDomainId,
        term: CoordinatorTerm,
        protocol_generation: u64,
        membership_version: MembershipVersion,
        strategy: AllocationStrategy,
        slots: &Vec<PlacementSlot>,
        plans: &Vec<RebalancePlan>,
    ) -> (result: Result<Self, CoordinatorRuntimeError>)
        ensures
            match result {
                Ok(state) => {
                    &&& config.fault() is None
                    &&& protocol_generation != 0
                    &&& state@ == LeaderModel::taking_over(
                        config,
                        limits,
                        domain@,
                        term,
                        membership_version,
                        map![strategy@.policy => strategy.handle],
                        seq_view(slots@),
                        seq_view(plans@),
                    )
                },
                Err(error) => (config.fault() is Some || protocol_generation == 0) && error@
                    == RuntimeErrorModel::InvalidConfig,
            },
    {
        match config.validate() {
            Err(error) => {
                return Err(error);
            },
            Ok(()) => {},
        }
        if protocol_generation == 0 {
            return Err(CoordinatorRuntimeError::InvalidConfig);
        }
        let version = PlacementVersion { domain, term, revision: takeover_revision(slots) };
        let mut state = CoordinatorLeader::new(config, limits, version, membership_version);
        state.strategies.insert(strategy.policy, strategy.handle);
        assert(state.strategies@ =~= map![strategy@.policy => strategy.handle]);
        let ghost clean = state@;
        let start = MonotonicTime::from_millis(0);
        let ghost list = seq_view(slots@);
        let mut i: usize = 0;
        while i < slots.len()
            invariant
                i <= slots.len(),
                list == seq_view(slots@),
                forall|key: SlotKeyModel| #[trigger]
                    state.slot_assigned_at@.contains_key(key) <==> runs_slot(list, i as int, key),
                forall|key: SlotKeyModel| #[trigger]
                    state.slot_assigned_at@.contains_key(key) ==> state.slot_assigned_at@[key]
                        == MonotonicTime(0),
                start == MonotonicTime(0),
                state@ == (LeaderModel { slot_assigned_at: state.slot_assigned_at@, ..clean }),
            decreases slots.len() - i,
        {
            let ghost before = state.slot_assigned_at@;
            assert(list[i as int] == slots@[i as int]@);
            if slots[i].state == PlacementSlotState::Running {
                state.slot_assigned_at.insert(slots[i].key.copy(), start);
            }
            proof {
                assert forall|key: SlotKeyModel| #[trigger]
                    state.slot_assigned_at@.contains_key(key) <==> runs_slot(
                        list,
                        i + 1,
                        key,
                    ) by {
                    if runs_slot(list, i + 1, key) {
                        let k = choose|k: int|
                            0 <= k < i + 1 && (#[trigger] list[k]).key == key && list[k].state
                                == PlacementSlotState::Running;
                        if k < i {
                            assert(runs_slot(list, i as int, key));
                        }
                        assert(before.contains_key(key) || key == list[i as int].key);
                    }
                    if before.contains_key(key) {
                        assert(runs_slot(list, i as int, key));
                    }
                    if list[i as int].state == PlacementSlotState::Running {
                        assert(runs_slot(list, i + 1, list[i as int].key));
                    }
                }
            }
            i = i + 1;
        }
        proof {
            assert(state.slot_assigned_at@ =~= initial_assignments(list));
        }
        let ghost assigned = state@;
        let ghost stored = seq_view(plans@);
        let mut j: usize = 0;
        while j < plans.len()
            invariant
                j <= plans.len(),
                stored == seq_view(plans@),
                state.plans@ == plans_by_id(stored, j as nat),
                state@ == (LeaderModel { plans: state.plans@, ..assigned }),
            decreases plans.len() - j,
        {
            assert(stored[j as int] == plans@[j as int]@);
            state.plans.insert(plans[j].plan_id, plans[j].copy_plan());
            j = j + 1;
        }
        Ok(state)
    }
}

} // verus!
