//! Administrative operations: each is carried out once, under an identity of its caller's.
use vstd::prelude::*;
use vstd::string::StringExecFns;
use vstd::utf8::encode_utf8;

use crate::keymap::{option_view, seq_view, Key};
use crate::order::Order;
use crate::plan::{ProposalModel, ProposedMove, RebalancePlan, RebalanceProposal, RebalanceTrigger};
use crate::region::EntityConfig;
use crate::render::{decimal_text, hex_text, push_decimal, push_hex};
use crate::runtime::admin_record::{
    AdminOperationRecord, AdminOperationResult, AdminOperationStatus, AdminRecordModel,
    AdminResultModel,
};
use crate::runtime::errors::{
    operation_lost_leadership, outcome, runtime_fault, AllocationError, CoordinatorRuntimeError,
    RuntimeErrorModel, StorageCounters, StorageError,
};
use crate::runtime::members::MemberRecord;
use crate::runtime::planning::saturated;
use crate::runtime::state::{CoordinatorLeader, DurableLimits, LeaderModel, ProgressModel};
use crate::sorted::{lemma_push_to_set, ranked, Ranked, SortedSet};
use crate::time::{MonotonicTime, TimeSpan};
use crate::types::{
    AssignmentGeneration, EntityType, NodeIncarnation, NodeKey, NodeModel, PlacementSlot,
    PlacementSlotKey, PlacementSlotState, PlacementVersion, ShardId, SlotKeyModel, SlotModel,
    VersionModel,
};

verus! {

/// A request to move a shard to a node.
#[derive(Debug, PartialEq, Eq)]
pub struct ManualRelocationRequest<S = String> {
    pub operation_id: S,
    pub entity_type: S,
    pub shard_id: ShardId,
    pub expected_generation: AssignmentGeneration,
    pub target_node_id: S,
}

pub type RelocationModel = ManualRelocationRequest<Seq<char>>;

impl View for ManualRelocationRequest {
    type V = RelocationModel;

    open spec fn view(&self) -> RelocationModel {
        ManualRelocationRequest {
            operation_id: self.operation_id@,
            entity_type: self.entity_type@,
            shard_id: self.shard_id,
            expected_generation: self.expected_generation,
            target_node_id: self.target_node_id@,
        }
    }
}

/// A request to remove a member by force.
#[derive(Debug, PartialEq, Eq)]
pub struct ForceRemoveRequest<S = String> {
    pub operation_id: S,
    pub node_id: S,
    pub expected_incarnation: NodeIncarnation,
}

pub type ForceRemoveModel = ForceRemoveRequest<Seq<char>>;

impl View for ForceRemoveRequest {
    type V = ForceRemoveModel;

    open spec fn view(&self) -> ForceRemoveModel {
        ForceRemoveRequest {
            operation_id: self.operation_id@,
            node_id: self.node_id@,
            expected_incarnation: self.expected_incarnation,
        }
    }
}

/// What an operation to switch automatic moves is recognised by.
pub open spec fn automatic_text(entity_type: Option<Seq<char>>, paused: bool) -> Seq<char> {
    "automatic:"@ + (match entity_type {
        Some(name) => name,
        None => "*"@,
    }) + ":"@ + if paused {
        "true"@
    } else {
        "false"@
    }
}

pub fn automatic_fingerprint(entity_type: &Option<EntityType>, paused: bool) -> (text: String)
    ensures
        text@ == automatic_text(option_view(*entity_type), paused),
{
    let mut text = String::from_str("automatic:");
    match entity_type {
        Some(name) => text.append(name.as_str()),
        None => text.append("*"),
    }
    text.append(":");
    if paused {
        text.append("true");
    } else {
        text.append("false");
    }
    text
}

/// What a relocation is recognised by.
pub open spec fn relocation_text(request: RelocationModel) -> Seq<char> {
    "relocate:"@ + request.entity_type + ":"@ + decimal_text(request.shard_id.0 as nat) + ":"@
        + decimal_text(request.expected_generation.0 as nat) + ":"@ + request.target_node_id
}

pub fn relocation_fingerprint(request: &ManualRelocationRequest) -> (text: String)
    ensures
        text@ == relocation_text(request@),
{
    let mut text = String::from_str("relocate:");
    text.append(request.entity_type.as_str());
    text.append(":");
    push_decimal(&mut text, request.shard_id.get() as u64);
    text.append(":");
    push_decimal(&mut text, request.expected_generation.get());
    text.append(":");
    text.append(request.target_node_id.as_str());
    text
}

/// What a forced removal is recognised by.
pub open spec fn force_remove_text(request: ForceRemoveModel) -> Seq<char> {
    "force-remove:"@ + request.node_id + ":"@ + hex_text(
        request.expected_incarnation.0 as nat,
        32,
    )
}

pub fn force_remove_fingerprint(request: &ForceRemoveRequest) -> (text: String)
    ensures
        text@ == force_remove_text(request@),
{
    let mut text = String::from_str("force-remove:");
    text.append(request.node_id.as_str());
    text.append(":");
    push_hex(&mut text, request.expected_incarnation.get(), 32);
    text
}

/// What a cancellation is recognised by.
pub open spec fn cancel_text(plan_id: u128, shard_id: ShardId) -> Seq<char> {
    "cancel:"@ + hex_text(plan_id as nat, 32) + ":"@ + decimal_text(shard_id.0 as nat)
}

pub fn cancel_fingerprint(plan_id: u128, shard_id: ShardId) -> (text: String)
    ensures
        text@ == cancel_text(plan_id, shard_id),
{
    let mut text = String::from_str("cancel:");
    push_hex(&mut text, plan_id, 32);
    text.append(":");
    push_decimal(&mut text, shard_id.get() as u64);
    text
}

impl LeaderModel {
    /// What an operation of that identity came to before; it must have been the same operation.
    pub open spec fn prior(self, operation_id: Seq<char>, fingerprint: Seq<char>) -> Result<
        Option<AdminResultModel>,
        RuntimeErrorModel,
    > {
        if operation_id.len() == 0 || encode_utf8(operation_id).len() > 256 {
            Err(RuntimeErrorModel::InvalidAdminOperation)
        } else if !self.applied_admin_operations.contains_key(operation_id) {
            Ok(None)
        } else if self.applied_admin_operations[operation_id].fingerprint == fingerprint {
            Ok(Some(self.applied_admin_operations[operation_id].result))
        } else {
            Err(RuntimeErrorModel::IdempotencyConflict)
        }
    }

    /// The record of an operation that is carried out now.
    pub open spec fn new_operation(
        self,
        operation_id: Seq<char>,
        fingerprint: Seq<char>,
        result: AdminResultModel,
        version: VersionModel,
        now: u64,
    ) -> Result<AdminRecordModel, RuntimeErrorModel> {
        let retention = self.limits.admin_operation_retention.length() / 1_000_000;
        if self.applied_admin_operations.dom().len() >= self.limits.maximum_admin_operation_records {
            Err(RuntimeErrorModel::OperationCapacity)
        } else {
            Ok(
                AdminOperationRecord {
                    operation_id,
                    fingerprint,
                    status: AdminOperationStatus::Completed,
                    result,
                    version,
                    created_unix_millis: now,
                    expires_unix_millis: saturated(now as nat + saturated(retention) as nat),
                },
            )
        }
    }

    /// The leader once the record of an operation is kept.
    pub open spec fn with_operation(self, record: AdminRecordModel) -> LeaderModel {
        LeaderModel {
            applied_admin_operations: self.applied_admin_operations.insert(
                record.operation_id,
                record,
            ),
            ..self
        }
    }
}

/// A prior result by what it states.
pub open spec fn prior_outcome(
    result: Result<Option<AdminOperationResult>, CoordinatorRuntimeError>,
) -> Result<Option<AdminResultModel>, RuntimeErrorModel> {
    match result {
        Ok(prior) => Ok(option_view(prior)),
        Err(error) => Err(error@),
    }
}

/// An operation in the order in which operations are forgotten: the oldest first.
#[derive(Debug, PartialEq, Eq)]
pub struct OperationAge<S = String> {
    pub created_unix_millis: u64,
    pub operation_id: S,
}

pub type AgeModel = OperationAge<Seq<char>>;

impl View for OperationAge {
    type V = AgeModel;

    open spec fn view(&self) -> AgeModel {
        OperationAge {
            created_unix_millis: self.created_unix_millis,
            operation_id: self.operation_id@,
        }
    }
}

impl Key for OperationAge {
    fn same(&self, other: &Self) -> (same: bool) {
        self.created_unix_millis == other.created_unix_millis && self.operation_id.same(
            &other.operation_id,
        )
    }

    fn copy(&self) -> (copy: Self) {
        OperationAge {
            created_unix_millis: self.created_unix_millis,
            operation_id: self.operation_id.copy(),
        }
    }
}

impl Ranked for OperationAge {
    open spec fn less(left: AgeModel, right: AgeModel) -> bool {
        if left.created_unix_millis != right.created_unix_millis {
            left.created_unix_millis < right.created_unix_millis
        } else {
            crate::order::text_less(left.operation_id, right.operation_id)
        }
    }

    proof fn lemma_irreflexive(key: AgeModel) {
        crate::order::lemma_text_irreflexive(key.operation_id);
    }

    proof fn lemma_transitive(a: AgeModel, b: AgeModel, c: AgeModel) {
        if crate::order::text_less(a.operation_id, b.operation_id) && crate::order::text_less(
            b.operation_id,
            c.operation_id,
        ) {
            crate::order::lemma_text_transitive(a.operation_id, b.operation_id, c.operation_id);
        }
    }

    proof fn lemma_total(a: AgeModel, b: AgeModel) {
        crate::order::lemma_text_total(a.operation_id, b.operation_id);
    }

    fn compare(&self, other: &Self) -> (order: Order) {
        let order = if self.created_unix_millis < other.created_unix_millis {
            Order::Less
        } else if self.created_unix_millis > other.created_unix_millis {
            Order::Greater
        } else {
            self.operation_id.compare(&other.operation_id)
        };
        assert(order is Less ==> Self::less(self@, other@));
        assert(order is Greater ==> Self::less(other@, self@));
        order
    }
}

/// The ages of some operations.
pub open spec fn ages(operations: Map<Seq<char>, AdminRecordModel>) -> Set<AgeModel> {
    Set::new(
        |age: AgeModel|
            operations.contains_key(age.operation_id)
                && operations[age.operation_id].created_unix_millis == age.created_unix_millis,
    )
}

impl LeaderModel {
    /// How many operations have to go so that there is room for some more.
    pub open spec fn excess_operations(self, count: nat, additional: usize) -> int {
        let wanted = if count + additional <= usize::MAX {
            count + additional
        } else {
            usize::MAX as int
        };
        if wanted > self.limits.maximum_admin_operation_records {
            wanted - self.limits.maximum_admin_operation_records
        } else {
            0
        }
    }

    /// The operations among the first `n`, oldest first, that are forgotten: those that have
    /// expired, and the oldest as far as there is no room.
    pub open spec fn forgotten_first(
        self,
        order: Seq<AgeModel>,
        additional: usize,
        now: u64,
        n: int,
    ) -> Seq<AdminRecordModel>
        decreases n,
    {
        if n <= 0 {
            Seq::empty()
        } else {
            let before = self.forgotten_first(order, additional, now, n - 1);
            let record = self.applied_admin_operations[order[n - 1].operation_id];
            if record.expires_unix_millis <= now || n - 1 < self.excess_operations(
                order.len(),
                additional,
            ) {
                before.push(record)
            } else {
                before
            }
        }
    }

    /// The operations that are forgotten so that there is room for some more, oldest first.
    pub open spec fn forgotten_operations(self, additional: usize, now: u64) -> Seq<
        AdminRecordModel,
    > {
        let order = ranked::<OperationAge>(ages(self.applied_admin_operations));
        self.forgotten_first(order, additional, now, order.len() as int)
    }
}

impl CoordinatorLeader {
    /// What an operation of that identity came to before.
    pub fn prior_admin_operation(&self, operation_id: &String, fingerprint: &String) -> (result:
        Result<Option<AdminOperationResult>, CoordinatorRuntimeError>)
        ensures
            prior_outcome(result) == self@.prior(operation_id@, fingerprint@),
    {
        if operation_id.as_str().is_empty() || operation_id.as_str().as_bytes().len() > 256 {
            return Err(CoordinatorRuntimeError::InvalidAdminOperation);
        }
        match self.applied_admin_operations.get(operation_id) {
            None => Ok(None),
            Some(record) => if record.fingerprint.same(fingerprint) {
                Ok(Some(record.result.copy()))
            } else {
                Err(CoordinatorRuntimeError::IdempotencyConflict)
            },
        }
    }

    /// The record of an operation that is carried out now.
    pub fn new_admin_operation(
        &self,
        operation_id: String,
        fingerprint: String,
        result: AdminOperationResult,
        version: PlacementVersion,
        now: u64,
    ) -> (record: Result<AdminOperationRecord, CoordinatorRuntimeError>)
        ensures
            outcome(record) == self@.new_operation(
                operation_id@,
                fingerprint@,
                result@,
                version@,
                now,
            ),
    {
        if self.applied_admin_operations.len() >= self.limits.maximum_admin_operation_records {
            return Err(CoordinatorRuntimeError::OperationCapacity);
        }
        let retention = self.limits.admin_operation_retention.as_millis_u64();
        Ok(
            AdminOperationRecord {
                operation_id,
                fingerprint,
                status: AdminOperationStatus::Completed,
                result,
                version,
                created_unix_millis: now,
                expires_unix_millis: now.saturating_add(retention),
            },
        )
    }

    /// Keeps the record of an operation that is stored.
    pub fn record_admin_operation(&mut self, record: AdminOperationRecord)
        ensures
            final(self)@ == old(self)@.with_operation(record@),
    {
        self.applied_admin_operations.insert(record.operation_id.copy(), record);
    }

    /// Drops the record of an operation that is no longer stored.
    pub fn forget_admin_operation(&mut self, operation_id: &String)
        ensures
            final(self)@ == (LeaderModel {
                applied_admin_operations: old(self)@.applied_admin_operations.remove(
                    operation_id@,
                ),
                ..old(self)@
            }),
    {
        let _ = self.applied_admin_operations.remove(operation_id);
    }

    /// Whether there is room for one more operation, once old ones are forgotten.
    pub fn reserve_admin_operation_capacity(&self) -> (result: Result<(), CoordinatorRuntimeError>)
        ensures
            runtime_fault(result) == if self@.applied_admin_operations.dom().len()
                >= self@.limits.maximum_admin_operation_records {
                Some(RuntimeErrorModel::OperationCapacity)
            } else {
                None
            },
    {
        if self.applied_admin_operations.len() >= self.limits.maximum_admin_operation_records {
            return Err(CoordinatorRuntimeError::OperationCapacity);
        }
        Ok(())
    }

    fn list_ages(&self) -> (order: SortedSet<OperationAge>)
        ensures
            order@ == ages(self@.applied_admin_operations),
    {
        let len = self.applied_admin_operations.len();
        let ghost ids = ranked::<String>(self.applied_admin_operations@.dom());
        let mut order: SortedSet<OperationAge> = SortedSet::new();
        let mut i: usize = 0;
        while i < len
            invariant
                i <= len,
                len == ids.len(),
                ids == ranked::<String>(self.applied_admin_operations@.dom()),
                forall|age: AgeModel| #[trigger]
                    order@.contains(age) <==> ages(self@.applied_admin_operations).contains(age)
                        && ids.subrange(0, i as int).contains(age.operation_id),
            decreases len - i,
        {
            let (id, record) = self.applied_admin_operations.entry_at(i);
            proof {
                let shorter = ids.subrange(0, i as int);
                let longer = ids.subrange(0, i + 1);
                assert(longer =~= shorter.push(ids[i as int]));
                lemma_push_to_set(shorter, ids[i as int]);
                assert forall|x: Seq<char>| longer.contains(x) <==> shorter.contains(x) || x
                    == ids[i as int] by {
                    assert(longer.to_set().contains(x) == longer.contains(x));
                    assert(shorter.to_set().contains(x) == shorter.contains(x));
                }
            }
            let _ = order.insert(
                OperationAge {
                    created_unix_millis: record.created_unix_millis,
                    operation_id: id.copy(),
                },
            );
            i = i + 1;
        }
        proof {
            assert(ids.subrange(0, i as int) =~= ids);
            assert forall|age: AgeModel| order@.contains(age) <==> ages(
                self@.applied_admin_operations,
            ).contains(age) by {
                if ages(self@.applied_admin_operations).contains(age) {
                    assert(ids.to_set().contains(age.operation_id));
                }
            }
            assert(order@ =~= ages(self@.applied_admin_operations));
        }
        order
    }

    /// The operations that are forgotten so that there is room for some more, oldest first.
    pub fn compact_admin_operation_history_for(&self, additional: usize, now: u64) -> (forgotten:
        Vec<AdminOperationRecord>)
        ensures
            seq_view(forgotten@) == self@.forgotten_operations(additional, now),
    {
        let order = self.list_ages();
        let len = order.len();
        let ghost list = ranked::<OperationAge>(order@);
        let wanted = len.saturating_add(additional);
        let excess = if wanted > self.limits.maximum_admin_operation_records {
            wanted - self.limits.maximum_admin_operation_records
        } else {
            0
        };
        let mut forgotten: Vec<AdminOperationRecord> = Vec::new();
        let mut i: usize = 0;
        assert(seq_view(forgotten@) =~= Seq::<AdminRecordModel>::empty());
        while i < len
            invariant
                i <= len,
                len == list.len(),
                list == ranked::<OperationAge>(order@),
                order@ == ages(self@.applied_admin_operations),
                excess == self@.excess_operations(list.len(), additional),
                seq_view(forgotten@) == self@.forgotten_first(list, additional, now, i as int),
            decreases len - i,
        {
            let age = order.member_at(i);
            match self.applied_admin_operations.get(&age.operation_id) {
                Some(record) => {
                    if record.expires_unix_millis <= now || i < excess {
                        let ghost before = seq_view(forgotten@);
                        let copy = record.copy();
                        forgotten.push(copy);
                        assert(seq_view(forgotten@) =~= before.push(copy@));
                    }
                },
                None => {},
            }
            i = i + 1;
        }
        forgotten
    }
}

/// Which automatic moves are switched off.
pub struct AutomaticBalanceSettings {
    pub globally_paused: bool,
    pub paused_entity_types: SortedSet<EntityType>,
}

#[verifier::ext_equal]
pub struct SettingsModel {
    pub globally_paused: bool,
    pub paused_entity_types: Set<Seq<char>>,
}

impl View for AutomaticBalanceSettings {
    type V = SettingsModel;

    open spec fn view(&self) -> SettingsModel {
        SettingsModel {
            globally_paused: self.globally_paused,
            paused_entity_types: self.paused_entity_types@,
        }
    }
}

impl LeaderModel {
    pub open spec fn settings(self) -> SettingsModel {
        SettingsModel {
            globally_paused: self.automatic_globally_paused,
            paused_entity_types: self.paused_entity_types,
        }
    }

    pub open spec fn with_settings(self, settings: SettingsModel) -> LeaderModel {
        LeaderModel {
            automatic_globally_paused: settings.globally_paused,
            paused_entity_types: settings.paused_entity_types,
            ..self
        }
    }

    /// Whether an operation has been carried out before, with the result that it now would have.
    pub open spec fn already(
        self,
        operation_id: Seq<char>,
        fingerprint: Seq<char>,
        result: AdminResultModel,
    ) -> Result<bool, RuntimeErrorModel> {
        match self.prior(operation_id, fingerprint) {
            Err(error) => Err(error),
            Ok(None) => Ok(false),
            Ok(Some(prior)) => if prior == result {
                Ok(true)
            } else {
                Err(RuntimeErrorModel::IdempotencyConflict)
            },
        }
    }

    /// The leader of a cluster once an operation is recorded, and why it is not, if there is no
    /// room. Such a record is not stored and does not expire.
    pub open spec fn with_cluster_operation(
        self,
        operation_id: Seq<char>,
        fingerprint: Seq<char>,
        result: AdminResultModel,
    ) -> (LeaderModel, Option<RuntimeErrorModel>) {
        if self.applied_admin_operations.dom().len() == self.config.maximum_operations {
            (self, Some(RuntimeErrorModel::OperationCapacity))
        } else {
            (
                self.with_operation(
                    AdminOperationRecord {
                        operation_id,
                        fingerprint,
                        status: AdminOperationStatus::Completed,
                        result,
                        version: self.version,
                        created_unix_millis: 0,
                        expires_unix_millis: u64::MAX,
                    },
                ),
                None,
            )
        }
    }

    /// The leader of a cluster once automatic moves are switched. An operation that was carried
    /// out before changes nothing; one for whose record there is no room has still its effect.
    pub open spec fn switched(
        self,
        operation_id: Seq<char>,
        entity_type: Option<Seq<char>>,
        paused: bool,
    ) -> (LeaderModel, Option<RuntimeErrorModel>) {
        let fingerprint = automatic_text(entity_type, paused);
        let next = self.with_settings(switched_settings(self.settings(), entity_type, paused));
        match self.prior(operation_id, fingerprint) {
            Err(error) => (self, Some(error)),
            Ok(Some(_)) => (self, None),
            Ok(None) => next.with_cluster_operation(
                operation_id,
                fingerprint,
                AdminResultModel::AutomaticBalanceUpdated,
            ),
        }
    }
}

/// The settings once automatic moves of an entity type, or of all, are switched.
pub open spec fn switched_settings(
    settings: SettingsModel,
    entity_type: Option<Seq<char>>,
    paused: bool,
) -> SettingsModel {
    match entity_type {
        Some(name) => SettingsModel {
            paused_entity_types: if paused {
                settings.paused_entity_types.insert(name)
            } else {
                settings.paused_entity_types.remove(name)
            },
            ..settings
        },
        None => SettingsModel { globally_paused: paused, ..settings },
    }
}

impl CoordinatorLeader {
    /// Whether an operation has been carried out before, with the result that it now would have.
    pub fn already_applied(
        &self,
        operation_id: &String,
        fingerprint: &String,
        result: &AdminOperationResult,
    ) -> (already: Result<bool, CoordinatorRuntimeError>)
        ensures
            outcome(already) == self@.already(operation_id@, fingerprint@, result@),
    {
        match self.prior_admin_operation(operation_id, fingerprint) {
            Err(error) => Err(error),
            Ok(None) => Ok(false),
            Ok(Some(prior)) => if prior.same(result) {
                Ok(true)
            } else {
                Err(CoordinatorRuntimeError::IdempotencyConflict)
            },
        }
    }

    /// The settings that are stored once automatic moves are switched.
    pub fn switched_settings(&self, entity_type: &Option<EntityType>, paused: bool) -> (settings:
        AutomaticBalanceSettings)
        ensures
            settings@ == switched_settings(self@.settings(), option_view(*entity_type), paused),
    {
        let mut settings = AutomaticBalanceSettings {
            globally_paused: self.automatic_globally_paused,
            paused_entity_types: self.paused_entity_types.copy(),
        };
        match entity_type {
            Some(name) => {
                if paused {
                    let _ = settings.paused_entity_types.insert(name.copy());
                } else {
                    let _ = settings.paused_entity_types.remove(name);
                }
            },
            None => {
                settings.globally_paused = paused;
            },
        }
        settings
    }

    /// Goes by settings that are stored.
    pub fn apply_automatic_settings(&mut self, settings: AutomaticBalanceSettings)
        ensures
            final(self)@ == old(self)@.with_settings(settings@),
    {
        self.automatic_globally_paused = settings.globally_paused;
        self.paused_entity_types = settings.paused_entity_types;
    }

    /// Keeps the record of an operation of the leader of a cluster.
    pub fn record_cluster_operation(
        &mut self,
        operation_id: String,
        fingerprint: String,
        result: AdminOperationResult,
    ) -> (recorded: Result<(), CoordinatorRuntimeError>)
        ensures
            (final(self)@, runtime_fault(recorded)) == old(self)@.with_cluster_operation(
                operation_id@,
                fingerprint@,
                result@,
            ),
    {
        if self.applied_admin_operations.len() == self.config.maximum_operations {
            return Err(CoordinatorRuntimeError::OperationCapacity);
        }
        let version = self.version.copy();
        self.record_admin_operation(
            AdminOperationRecord {
                operation_id,
                fingerprint,
                status: AdminOperationStatus::Completed,
                result,
                version,
                created_unix_millis: 0,
                expires_unix_millis: u64::MAX,
            },
        );
        Ok(())
    }

    /// Switches automatic moves as the leader of a cluster.
    pub fn set_automatic_paused(
        &mut self,
        operation_id: String,
        entity_type: &Option<EntityType>,
        paused: bool,
    ) -> (result: Result<(), CoordinatorRuntimeError>)
        ensures
            (final(self)@, runtime_fault(result)) == old(self)@.switched(
                operation_id@,
                option_view(*entity_type),
                paused,
            ),
    {
        let fingerprint = automatic_fingerprint(entity_type, paused);
        match self.prior_admin_operation(&operation_id, &fingerprint) {
            Err(error) => {
                return Err(error);
            },
            Ok(Some(_)) => {
                return Ok(());
            },
            Ok(None) => {},
        }
        let settings = self.switched_settings(entity_type, paused);
        self.apply_automatic_settings(settings);
        self.record_cluster_operation(
            operation_id,
            fingerprint,
            AdminOperationResult::AutomaticBalanceUpdated,
        )
    }
}

impl LeaderModel {
    /// The first session of a node of that name that is up, in the order of sessions.
    pub open spec fn named_first(self, ids: Seq<NodeIncarnation>, node_id: Seq<char>, n: int) -> Option<
        NodeModel,
    >
        decreases n,
    {
        if n <= 0 {
            None
        } else {
            let before = self.named_first(ids, node_id, n - 1);
            let session = self.sessions[ids[n - 1]];
            if before is Some {
                before
            } else if session.up() && session.hello.node.node_id == node_id {
                Some(session.hello.node)
            } else {
                None
            }
        }
    }

    pub open spec fn node_named(self, node_id: Seq<char>) -> Option<NodeModel> {
        let ids = ranked::<NodeIncarnation>(self.sessions.dom());
        self.named_first(ids, node_id, ids.len() as int)
    }

    /// The slot that a relocation is of, or why there is none.
    pub open spec fn relocated_slot(self, request: RelocationModel) -> Result<
        SlotKeyModel,
        RuntimeErrorModel,
    > {
        let config = self.entity_configs[request.entity_type];
        if !self.entity_configs.contains_key(request.entity_type) {
            Err(RuntimeErrorModel::UnknownEntityConfig)
        } else if request.shard_id.0 >= config.shard_count {
            Err(RuntimeErrorModel::ShardOutOfRange)
        } else {
            Ok(
                SlotKeyModel::Shard {
                    domain: config.domain,
                    entity_type: request.entity_type,
                    shard_id: request.shard_id,
                },
            )
        }
    }

    /// Why the slot of a relocation does not allow it, if it does not.
    pub open spec fn relocation_fault(
        self,
        request: RelocationModel,
        slot: Option<SlotModel>,
    ) -> Option<RuntimeErrorModel> {
        if slot is None {
            Some(RuntimeErrorModel::UnknownSlot)
        } else if slot->0.owner is None || slot->0.state != PlacementSlotState::Running
            || slot->0.assignment_generation != request.expected_generation
            || slot->0.active_move is Some {
            Some(RuntimeErrorModel::StaleProposal)
        } else if self.node_named(request.target_node_id) is None {
            Some(RuntimeErrorModel::IneligibleTarget)
        } else {
            None
        }
    }

    /// The proposal that a relocation comes to, or why it is refused.
    pub open spec fn relocation(self, request: RelocationModel, slot: Option<SlotModel>) -> Result<
        ProposalModel,
        RuntimeErrorModel,
    > {
        let config = self.entity_configs[request.entity_type];
        let source = slot->0.owner->0;
        let target = self.node_named(request.target_node_id)->0;
        if self.relocation_fault(request, slot) is Some {
            Err(self.relocation_fault(request, slot)->0)
        } else if !self.entity_configs.contains_key(request.entity_type) {
            Err(RuntimeErrorModel::UnknownEntityConfig)
        } else if !self.strategies.contains_key(self.policy_of(config)) {
            Err(RuntimeErrorModel::UnknownStrategy)
        } else {
            Ok(
                ProposalModel {
                    domain: config.domain,
                    policy_id: config.allocation_policy_id,
                    policy_version: config.allocation_policy_version,
                    base_version: self.version,
                    trigger: RebalanceTrigger::Manual {
                        source: Some(source),
                        target: Some(target),
                        bypass_improvement: true,
                    },
                    moves: seq![
                        ProposedMove {
                            domain: config.domain,
                            entity_type: request.entity_type,
                            shard_id: request.shard_id,
                            expected_generation: request.expected_generation,
                            source,
                            target,
                            estimated_weight: 1,
                        },
                    ],
                },
            )
        }
    }

    /// The plan that a relocation came to before, if it was carried out before.
    pub open spec fn relocated_before(self, request: RelocationModel) -> Result<
        Option<u128>,
        RuntimeErrorModel,
    > {
        match self.prior(request.operation_id, relocation_text(request)) {
            Err(error) => Err(error),
            Ok(None) => Ok(None),
            Ok(Some(AdminResultModel::PlanCreated { plan_id })) => Ok(Some(plan_id)),
            Ok(Some(_)) => Err(RuntimeErrorModel::IdempotencyConflict),
        }
    }

    /// What an evaluation came to before, if it was carried out before: a plan, or none.
    pub open spec fn evaluated_before(self, operation_id: Seq<char>, fingerprint: Seq<char>) -> Result<
        Option<Option<u128>>,
        RuntimeErrorModel,
    > {
        match self.prior(operation_id, fingerprint) {
            Err(error) => Err(error),
            Ok(None) => Ok(None),
            Ok(Some(AdminResultModel::EvaluationCompleted { plan })) => Ok(Some(plan)),
            Ok(Some(_)) => Err(RuntimeErrorModel::IdempotencyConflict),
        }
    }

    /// Whether a pending move was cancelled before.
    pub open spec fn cancelled_before(
        self,
        operation_id: Seq<char>,
        plan_id: u128,
        shard_id: ShardId,
    ) -> Result<bool, RuntimeErrorModel> {
        self.already(
            operation_id,
            cancel_text(plan_id, shard_id),
            AdminResultModel::PendingMoveCancelled { plan_id, shard_id },
        )
    }

    /// Whether a forced removal was carried out before.
    pub open spec fn removed_before(self, request: ForceRemoveModel) -> Result<
        bool,
        RuntimeErrorModel,
    > {
        self.already(
            request.operation_id,
            force_remove_text(request),
            AdminResultModel::MemberRemoved {
                node_id: request.node_id,
                incarnation: request.expected_incarnation,
            },
        )
    }
}

impl CoordinatorLeader {
    fn node_named(&self, node_id: &String) -> (node: Option<NodeKey>)
        ensures
            option_view(node) == self@.node_named(node_id@),
    {
        let len = self.sessions.len();
        let ghost ids = ranked::<NodeIncarnation>(self.sessions@.dom());
        let mut i: usize = 0;
        while i < len
            invariant
                i <= len,
                len == ids.len(),
                ids == ranked::<NodeIncarnation>(self.sessions@.dom()),
                self@.named_first(ids, node_id@, i as int) is None,
            decreases len - i,
        {
            let (_, session) = self.sessions.entry_at(i);
            i = i + 1;
            if session.placement_up() && session.hello.node.node_id.same(node_id) {
                proof {
                    lemma_named(self@, ids, node_id@, i as int, len as int);
                }
                return Some(session.hello.node.copy());
            }
        }
        None
    }

    /// The plan that a relocation came to before, if it was carried out before.
    pub fn relocated_before(&self, request: &ManualRelocationRequest) -> (result: Result<
        Option<u128>,
        CoordinatorRuntimeError,
    >)
        ensures
            match result {
                Ok(plan) => self@.relocated_before(request@) == Ok::<_, RuntimeErrorModel>(plan),
                Err(error) => self@.relocated_before(request@) == Err::<Option<u128>, _>(error@),
            },
    {
        let fingerprint = relocation_fingerprint(request);
        match self.prior_admin_operation(&request.operation_id, &fingerprint) {
            Err(error) => Err(error),
            Ok(None) => Ok(None),
            Ok(Some(AdminOperationResult::PlanCreated { plan_id })) => Ok(Some(plan_id)),
            Ok(Some(_)) => Err(CoordinatorRuntimeError::IdempotencyConflict),
        }
    }

    /// The slot that a relocation is of.
    pub fn relocated_slot(&self, request: &ManualRelocationRequest) -> (result: Result<
        PlacementSlotKey,
        CoordinatorRuntimeError,
    >)
        ensures
            outcome(result) == self@.relocated_slot(request@),
    {
        match self.entity_configs.get(&request.entity_type) {
            None => Err(CoordinatorRuntimeError::UnknownEntityConfig),
            Some(config) => if request.shard_id.get() >= config.shard_count() {
                Err(CoordinatorRuntimeError::ShardOutOfRange)
            } else {
                Ok(
                    PlacementSlotKey::Shard {
                        domain: config.placement_domain().copy(),
                        entity_type: request.entity_type.copy(),
                        shard_id: request.shard_id,
                    },
                )
            },
        }
    }

    /// The proposal that a relocation comes to.
    pub fn manual_relocate(
        &self,
        request: &ManualRelocationRequest,
        slot: &Option<PlacementSlot>,
    ) -> (result: Result<RebalanceProposal, CoordinatorRuntimeError>)
        ensures
            outcome(result) == self@.relocation(request@, option_view(*slot)),
    {
        let slot = match slot {
            None => {
                return Err(CoordinatorRuntimeError::UnknownSlot);
            },
            Some(slot) => slot,
        };
        let source = match &slot.owner {
            None => {
                return Err(CoordinatorRuntimeError::StaleProposal);
            },
            Some(owner) => owner,
        };
        if slot.state != PlacementSlotState::Running || slot.assignment_generation
            != request.expected_generation || slot.active_move.is_some() {
            return Err(CoordinatorRuntimeError::StaleProposal);
        }
        let target = match self.node_named(&request.target_node_id) {
            None => {
                return Err(CoordinatorRuntimeError::IneligibleTarget);
            },
            Some(target) => target,
        };
        let config = match self.entity_configs.get(&request.entity_type) {
            None => {
                return Err(CoordinatorRuntimeError::UnknownEntityConfig);
            },
            Some(config) => config,
        };
        if !self.knows_policy_of(config) {
            return Err(CoordinatorRuntimeError::UnknownStrategy);
        }
        let (policy_id, policy_version) = config.allocation_policy();
        let movement = ProposedMove {
            domain: config.placement_domain().copy(),
            entity_type: request.entity_type.copy(),
            shard_id: request.shard_id,
            expected_generation: request.expected_generation,
            source: source.copy(),
            target: target.copy(),
            estimated_weight: 1,
        };
        let mut moves: Vec<ProposedMove> = Vec::new();
        moves.push(movement);
        assert(seq_view(moves@) =~= seq![movement@]);
        Ok(
            RebalanceProposal {
                domain: config.placement_domain().copy(),
                policy_id: policy_id.copy(),
                policy_version,
                base_version: self.version.copy(),
                trigger: RebalanceTrigger::Manual {
                    source: Some(source.copy()),
                    target: Some(target),
                    bypass_improvement: true,
                },
                moves,
            },
        )
    }

    /// What an evaluation came to before, if it was carried out before.
    pub fn evaluated_before(&self, operation_id: &String, fingerprint: &String) -> (result: Result<
        Option<Option<u128>>,
        CoordinatorRuntimeError,
    >)
        ensures
            match result {
                Ok(before) => self@.evaluated_before(operation_id@, fingerprint@) == Ok::<
                    _,
                    RuntimeErrorModel,
                >(before),
                Err(error) => self@.evaluated_before(operation_id@, fingerprint@) == Err::<
                    Option<Option<u128>>,
                    _,
                >(error@),
            },
    {
        match self.prior_admin_operation(operation_id, fingerprint) {
            Err(error) => Err(error),
            Ok(None) => Ok(None),
            Ok(Some(AdminOperationResult::EvaluationCompleted { plan })) => Ok(Some(plan)),
            Ok(Some(_)) => Err(CoordinatorRuntimeError::IdempotencyConflict),
        }
    }

    /// Whether a pending move was cancelled before.
    pub fn cancelled_before(&self, operation_id: &String, plan_id: u128, shard_id: ShardId) -> (result:
        Result<bool, CoordinatorRuntimeError>)
        ensures
            outcome(result) == self@.cancelled_before(operation_id@, plan_id, shard_id),
    {
        let fingerprint = cancel_fingerprint(plan_id, shard_id);
        self.already_applied(
            operation_id,
            &fingerprint,
            &AdminOperationResult::PendingMoveCancelled { plan_id, shard_id },
        )
    }

    /// Whether a forced removal was carried out before.
    pub fn removed_before(&self, request: &ForceRemoveRequest) -> (result: Result<
        bool,
        CoordinatorRuntimeError,
    >)
        ensures
            outcome(result) == self@.removed_before(request@),
    {
        let fingerprint = force_remove_fingerprint(request);
        self.already_applied(
            &request.operation_id,
            &fingerprint,
            &AdminOperationResult::MemberRemoved {
                node_id: request.node_id.copy(),
                incarnation: request.expected_incarnation,
            },
        )
    }

    /// Whether the member that is stored is the one that is to be removed by force.
    pub fn force_remove(
        &self,
        request: &ForceRemoveRequest,
        member: &Option<MemberRecord>,
    ) -> (result: Result<(), CoordinatorRuntimeError>)
        ensures
            runtime_fault(result) == if member is Some && option_view(
                *member,
            )->0.node.incarnation == request@.expected_incarnation {
                None
            } else {
                Some(RuntimeErrorModel::StaleMember)
            },
    {
        match member {
            Some(member) => if member.node.incarnation == request.expected_incarnation {
                Ok(())
            } else {
                Err(CoordinatorRuntimeError::StaleMember)
            },
            None => Err(CoordinatorRuntimeError::StaleMember),
        }
    }
}

proof fn lemma_named(
    leader: LeaderModel,
    ids: Seq<NodeIncarnation>,
    node_id: Seq<char>,
    at: int,
    n: int,
)
    requires
        at <= n,
        leader.named_first(ids, node_id, at) is Some,
    ensures
        leader.named_first(ids, node_id, n) == leader.named_first(ids, node_id, at),
    decreases n - at,
{
    if at < n {
        lemma_named(leader, ids, node_id, at, n - 1);
    }
}

impl LeaderModel {
    /// Why no strategy is asked for a rebalance, if none is.
    pub open spec fn evaluation_fault(
        self,
        entity_type: Seq<char>,
        trigger: RebalanceTrigger<Seq<char>>,
    ) -> Option<RuntimeErrorModel> {
        if trigger is Automatic && self.is_paused(entity_type) {
            Some(RuntimeErrorModel::Allocation(AllocationError::AutomaticPaused))
        } else if !self.entity_configs.contains_key(entity_type) {
            Some(RuntimeErrorModel::UnknownEntityConfig)
        } else if !self.strategies.contains_key(self.policy_of(self.entity_configs[entity_type])) {
            Some(RuntimeErrorModel::UnknownStrategy)
        } else {
            None
        }
    }
}

impl CoordinatorLeader {
    /// The configuration whose strategy is asked for a rebalance.
    pub fn evaluate_rebalance(&self, entity_type: &EntityType, trigger: &RebalanceTrigger) -> (result:
        Result<EntityConfig, CoordinatorRuntimeError>)
        ensures
            match result {
                Ok(config) => self@.evaluation_fault(entity_type@, trigger@) is None && config@
                    == self@.entity_configs[entity_type@],
                Err(error) => self@.evaluation_fault(entity_type@, trigger@) == Some(error@),
            },
    {
        let automatic = match trigger {
            RebalanceTrigger::Automatic => true,
            _ => false,
        };
        if automatic && self.is_paused(entity_type) {
            return Err(CoordinatorRuntimeError::Allocation(AllocationError::AutomaticPaused));
        }
        let config = match self.entity_configs.get(entity_type) {
            None => {
                return Err(CoordinatorRuntimeError::UnknownEntityConfig);
            },
            Some(config) => config,
        };
        if !self.knows_policy_of(config) {
            return Err(CoordinatorRuntimeError::UnknownStrategy);
        }
        Ok(config.copy())
    }

    /// Takes note that a rebalance is under way.
    pub fn note_rebalance(&mut self, trigger: &RebalanceTrigger, now: MonotonicTime)
        ensures
            final(self)@ == if trigger@ is Automatic {
                LeaderModel { last_automatic_move_at: Some(now), ..old(self)@ }
            } else {
                old(self)@
            },
    {
        match trigger {
            RebalanceTrigger::Automatic => {
                self.last_automatic_move_at = Some(now);
            },
            _ => {},
        }
    }
}

/// What a leader shows of itself.
pub struct CoordinatorInspection {
    pub version: PlacementVersion,
    pub automatic_globally_paused: bool,
    pub paused_entity_types: Vec<EntityType>,
    pub slots: Vec<PlacementSlot>,
    pub plans: Vec<RebalancePlan>,
    pub retained_admin_operations: usize,
    pub counters: StorageCounters,
}

impl CoordinatorLeader {
    /// Shows the leader together with the slots and plans that are stored.
    pub fn inspect(&self, slots: Vec<PlacementSlot>, plans: Vec<RebalancePlan>) -> (inspection:
        CoordinatorInspection)
        ensures
            inspection.version@ == self@.version,
            inspection.automatic_globally_paused == self@.automatic_globally_paused,
            seq_view(inspection.paused_entity_types@) == ranked::<String>(
                self@.paused_entity_types,
            ),
            inspection.slots == slots,
            inspection.plans == plans,
            inspection.retained_admin_operations == self@.applied_admin_operations.dom().len(),
            inspection.counters == self@.counters,
    {
        CoordinatorInspection {
            version: self.version.copy(),
            automatic_globally_paused: self.automatic_globally_paused,
            paused_entity_types: self.paused_entity_types.to_vec(),
            slots,
            plans,
            retained_admin_operations: self.applied_admin_operations.len(),
            counters: self.counters,
        }
    }
}

/// What the leader of a domain shows of itself: what every leader shows, and how reconciliation
/// stands.
pub struct DomainInspection {
    pub leader: CoordinatorInspection,
    pub reconciliation_backlog: usize,
    pub reconciliation_oldest_pending_millis: Option<u64>,
    pub reconciliation_last_success_age_millis: Option<u64>,
    pub quarantined_records: Vec<(String, String)>,
    pub durable_limits: DurableLimits,
}

/// How long ago something was, in whole milliseconds, or as many as fit; nothing for what is yet to
/// come.
pub open spec fn age_millis(since: TimeSpan, now: TimeSpan) -> nat {
    let nanos = if now.length() >= since.length() {
        now.length() - since.length()
    } else {
        0
    };
    if nanos / 1_000_000 <= u64::MAX {
        (nanos / 1_000_000) as nat
    } else {
        u64::MAX as nat
    }
}

/// The age of what has happened, if it has.
pub open spec fn option_age_millis(since: Option<TimeSpan>, now: TimeSpan) -> Option<u64> {
    match since {
        Some(since) => Some(age_millis(since, now) as u64),
        None => None,
    }
}

fn age_in_millis(since: &Option<TimeSpan>, now: &TimeSpan) -> (age: Option<u64>)
    ensures
        age == option_age_millis(*since, *now),
{
    match since {
        Some(since) => Some(now.saturating_sub(since).as_millis_u64()),
        None => None,
    }
}

impl ProgressModel {
    /// The records that were set aside, each with the reason, in the order of their names.
    pub open spec fn quarantined_records(self) -> Seq<(Seq<char>, Seq<char>)> {
        ranked::<String>(self.quarantined.dom()).map_values(
            |name: Seq<char>| (name, self.quarantined[name]),
        )
    }
}

/// What named records are, without how they are held.
pub open spec fn records_view(records: Seq<(String, String)>) -> Seq<(Seq<char>, Seq<char>)> {
    records.map_values(|record: (String, String)| (record.0@, record.1@))
}

impl CoordinatorLeader {
    fn list_quarantined(&self) -> (records: Vec<(String, String)>)
        ensures
            records_view(records@) == self@.reconciliation.quarantined_records(),
    {
        let map = &self.reconciliation.quarantined;
        let ghost names = ranked::<String>(map@.dom());
        let ghost wanted = self@.reconciliation.quarantined_records();
        let count: usize = map.len();
        let mut records: Vec<(String, String)> = Vec::new();
        let mut i: usize = 0;
        while i < count
            invariant
                i <= count,
                count == names.len(),
                map@ == self@.reconciliation.quarantined,
                names == ranked::<String>(map@.dom()),
                wanted == self@.reconciliation.quarantined_records(),
                records_view(records@) == wanted.subrange(0, i as int),
            decreases count - i,
        {
            let (name, reason) = map.entry_at(i);
            let ghost before = records_view(records@);
            let record = (name.copy(), reason.copy());
            records.push(record);
            assert(records_view(records@) =~= before.push((record.0@, record.1@)));
            assert(wanted.subrange(0, i + 1) =~= wanted.subrange(0, i as int).push(wanted[i as int]));
            i = i + 1;
        }
        assert(wanted.subrange(0, i as int) =~= wanted);
        records
    }

    /// Shows the leader of a domain together with the slots and plans that are stored, at a time
    /// since it began and with the limits that its store keeps.
    pub fn inspect_domain(
        &self,
        slots: Vec<PlacementSlot>,
        plans: Vec<RebalancePlan>,
        durable_limits: DurableLimits,
        now: TimeSpan,
    ) -> (inspection: DomainInspection)
        ensures
            inspection.leader.version@ == self@.version,
            inspection.leader.automatic_globally_paused == self@.automatic_globally_paused,
            seq_view(inspection.leader.paused_entity_types@) == ranked::<String>(
                self@.paused_entity_types,
            ),
            inspection.leader.slots == slots,
            inspection.leader.plans == plans,
            inspection.leader.retained_admin_operations
                == self@.applied_admin_operations.dom().len(),
            inspection.leader.counters == self@.counters,
            inspection.reconciliation_backlog == self@.reconciliation.backlog,
            inspection.reconciliation_oldest_pending_millis == option_age_millis(
                self@.reconciliation.oldest_pending,
                now,
            ),
            inspection.reconciliation_last_success_age_millis == option_age_millis(
                self@.reconciliation.last_success,
                now,
            ),
            records_view(inspection.quarantined_records@)
                == self@.reconciliation.quarantined_records(),
            inspection.durable_limits == durable_limits,
    {
        DomainInspection {
            leader: self.inspect(slots, plans),
            reconciliation_backlog: self.reconciliation.backlog,
            reconciliation_oldest_pending_millis: age_in_millis(
                &self.reconciliation.oldest_pending,
                &now,
            ),
            reconciliation_last_success_age_millis: age_in_millis(
                &self.reconciliation.last_success,
                &now,
            ),
            quarantined_records: self.list_quarantined(),
            durable_limits,
        }
    }
}

/// An operation that is repeated with the same content under the same identity is recognised, and
/// one with other content is refused.
pub proof fn law_operations_are_idempotent(
    leader: LeaderModel,
    record: AdminRecordModel,
    fingerprint: Seq<char>,
)
    requires
        record.operation_id.len() > 0,
        encode_utf8(record.operation_id).len() <= 256,
    ensures
        leader.with_operation(record).prior(record.operation_id, record.fingerprint) == Ok::<
            _,
            RuntimeErrorModel,
        >(Some(record.result)),
        fingerprint != record.fingerprint ==> leader.with_operation(record).prior(
            record.operation_id,
            fingerprint,
        ) == Err::<Option<AdminResultModel>, _>(RuntimeErrorModel::IdempotencyConflict),
{
}

/// Switching automatic moves twice under the same identity switches them once.
pub proof fn law_switching_is_idempotent(
    leader: LeaderModel,
    operation_id: Seq<char>,
    entity_type: Option<Seq<char>>,
    paused: bool,
)
    requires
        leader.switched(operation_id, entity_type, paused).1 is None,
    ensures
        leader.switched(operation_id, entity_type, paused).0.switched(
            operation_id,
            entity_type,
            paused,
        ) == (
            leader.switched(operation_id, entity_type, paused).0,
            None::<RuntimeErrorModel>,
        ),
{
}

impl CoordinatorLeader {
    /// Counts the outcome of an operation, and says whether the leader can go on: it cannot once
    /// its leadership is lost.
    pub fn conclude_operation<T>(&mut self, result: &Result<T, CoordinatorRuntimeError>) -> (goes_on:
        Result<(), CoordinatorRuntimeError>)
        ensures
            final(self)@ == (LeaderModel {
                counters: old(self)@.counters.counted(runtime_fault(*result)),
                ..old(self)@
            }),
            runtime_fault(goes_on) == if runtime_fault(*result) == Some(
                RuntimeErrorModel::Storage(StorageError::LeadershipLost),
            ) {
                Some(RuntimeErrorModel::Storage(StorageError::LeadershipLost))
            } else {
                None
            },
    {
        let mut counters = self.counters;
        counters.observe_operation_result(result);
        self.counters = counters;
        if operation_lost_leadership(result) {
            Err(CoordinatorRuntimeError::Storage(StorageError::LeadershipLost))
        } else {
            Ok(())
        }
    }
}

} // verus!
