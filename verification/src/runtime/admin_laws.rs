//! What operators may do, how often, and what is remembered of it.
use vstd::prelude::*;
use vstd::utf8::encode_utf8;

use crate::plan::{PlanModel, ProposalModel, RebalanceTrigger};
use crate::runtime::admin::{
    age_millis, ages, automatic_text, cancel_text, force_remove_text, option_age_millis,
    relocation_text, switched_settings, AgeModel, ForceRemoveModel, OperationAge, RelocationModel,
};
use crate::runtime::admin_record::{
    AdminOperationStatus, AdminRecordModel, AdminResultModel,
};
use crate::runtime::errors::{AllocationError, RuntimeErrorModel};
use crate::runtime::placing_laws::has_strategy;
use crate::runtime::registration_laws::is_part;
use crate::runtime::state::{LeaderModel, ProgressModel};
use crate::sorted::{ascending, lemma_ranked_lists, ranked, Ranked};
use crate::time::TimeSpan;
use crate::types::{
    NodeIncarnation, NodeModel, PlacementSlotState, ShardId, SlotKeyModel, SlotModel, VersionModel,
};

verus! {

/// Whether an operation has a name that can be kept.
pub open spec fn is_named(operation_id: Seq<char>) -> bool {
    operation_id.len() > 0 && encode_utf8(operation_id).len() <= 256
}

/// An operation is looked up by its name: one without a proper name is invalid; one that is not kept
/// is new; one that is kept with the same content came to what is kept; and one with other content is
/// at odds with it.
pub proof fn law_operations_are_known_by_name(
    leader: LeaderModel,
    operation_id: Seq<char>,
    fingerprint: Seq<char>,
    result: AdminResultModel,
)
    ensures
        ({
            let kept = leader.applied_admin_operations.contains_key(operation_id);
            let record = leader.applied_admin_operations[operation_id];
            let prior = leader.prior(operation_id, fingerprint);
            let already = leader.already(operation_id, fingerprint, result);
            &&& prior == Err::<Option<AdminResultModel>, _>(
                RuntimeErrorModel::InvalidAdminOperation,
            ) <==> !is_named(operation_id)
            &&& prior == Ok::<Option<AdminResultModel>, RuntimeErrorModel>(None) <==> is_named(
                operation_id,
            ) && !kept
            &&& is_named(operation_id) && kept && record.fingerprint == fingerprint ==> prior
                == Ok::<_, RuntimeErrorModel>(Some(record.result))
            &&& prior == Err::<Option<AdminResultModel>, _>(
                RuntimeErrorModel::IdempotencyConflict,
            ) <==> is_named(operation_id) && kept && record.fingerprint != fingerprint
            &&& already == Ok::<_, RuntimeErrorModel>(false) <==> is_named(operation_id) && !kept
            &&& already == Ok::<_, RuntimeErrorModel>(true) <==> is_named(operation_id) && kept
                && record.fingerprint == fingerprint && record.result == result
            &&& is_named(operation_id) && already is Err ==> already == Err::<bool, _>(
                RuntimeErrorModel::IdempotencyConflict,
            )
            &&& !is_named(operation_id) ==> already == Err::<bool, _>(
                RuntimeErrorModel::InvalidAdminOperation,
            )
        }),
{
}

/// An operation that is carried out is recorded under its name, with its content and its result, at
/// the version, and expires once it has been kept long enough; as long as there is room for it.
pub proof fn law_operations_are_recorded(
    leader: LeaderModel,
    operation_id: Seq<char>,
    fingerprint: Seq<char>,
    result: AdminResultModel,
    version: VersionModel,
    now: u64,
)
    ensures
        ({
            let retention = leader.limits.admin_operation_retention.length() / 1_000_000;
            let recorded = leader.new_operation(operation_id, fingerprint, result, version, now);
            &&& recorded is Ok <==> leader.applied_admin_operations.dom().len()
                < leader.limits.maximum_admin_operation_records
            &&& recorded is Err ==> recorded->Err_0 == RuntimeErrorModel::OperationCapacity
            &&& recorded matches Ok(record) ==> {
                &&& record.operation_id == operation_id
                &&& record.fingerprint == fingerprint
                &&& record.status == AdminOperationStatus::Completed
                &&& record.result == result
                &&& record.version == version
                &&& record.created_unix_millis == now
                &&& now + retention <= u64::MAX ==> record.expires_unix_millis == now + retention
                &&& now + retention > u64::MAX ==> record.expires_unix_millis == u64::MAX
                &&& leader.with_operation(record).applied_admin_operations
                    == leader.applied_admin_operations.insert(operation_id, record)
            }
        }),
{
}

/// The leader of a cluster keeps an operation for good, at its own version, as long as there is room.
pub proof fn law_cluster_operations_are_kept(
    leader: LeaderModel,
    operation_id: Seq<char>,
    fingerprint: Seq<char>,
    result: AdminResultModel,
)
    ensures
        ({
            let (after, fault) = leader.with_cluster_operation(operation_id, fingerprint, result);
            let full = leader.applied_admin_operations.dom().len()
                == leader.config.maximum_operations;
            let record = after.applied_admin_operations[operation_id];
            &&& fault is Some <==> full
            &&& full ==> fault == Some(RuntimeErrorModel::OperationCapacity) && after == leader
            &&& !full ==> {
                &&& after == (LeaderModel {
                    applied_admin_operations: leader.applied_admin_operations.insert(
                        operation_id,
                        record,
                    ),
                    ..leader
                })
                &&& record.operation_id == operation_id
                &&& record.fingerprint == fingerprint
                &&& record.status == AdminOperationStatus::Completed
                &&& record.result == result
                &&& record.version == leader.version
                &&& record.created_unix_millis == 0
                &&& record.expires_unix_millis == u64::MAX
            }
        }),
{
}

/// Switching automatic moves of a type changes that type alone, and switching all of them leaves the
/// types as they are. An operation that is new has that effect, also where there is no room for its
/// record; one that is not changes nothing.
pub proof fn law_switching_reaches_what_it_names(
    leader: LeaderModel,
    operation_id: Seq<char>,
    entity_type: Option<Seq<char>>,
    paused: bool,
    other: Seq<char>,
)
    ensures
        ({
            let (after, fault) = leader.switched(operation_id, entity_type, paused);
            let fresh = is_named(operation_id) && !leader.applied_admin_operations.contains_key(
                operation_id,
            );
            &&& !fresh ==> after == leader
            &&& fresh && entity_type is None ==> after.automatic_globally_paused == paused
                && after.paused_entity_types == leader.paused_entity_types
            &&& fresh && entity_type is Some ==> {
                &&& after.automatic_globally_paused == leader.automatic_globally_paused
                &&& after.paused_entity_types.contains(other) <==> if Some(other) == entity_type {
                    paused
                } else {
                    leader.paused_entity_types.contains(other)
                }
            }
            &&& fresh ==> (fault is Some <==> leader.applied_admin_operations.dom().len()
                == leader.config.maximum_operations)
            &&& fresh && fault is None ==> {
                let record = after.applied_admin_operations[operation_id];
                &&& after.applied_admin_operations.contains_key(operation_id)
                &&& record.result is AutomaticBalanceUpdated
                &&& record.fingerprint == automatic_text(entity_type, paused)
            }
        }),
        ({
            let settings = leader.settings();
            let after = switched_settings(settings, entity_type, paused);
            &&& settings.globally_paused == leader.automatic_globally_paused
            &&& settings.paused_entity_types == leader.paused_entity_types
            &&& entity_type is None ==> after.globally_paused == paused
                && after.paused_entity_types == settings.paused_entity_types
            &&& entity_type is Some ==> after.globally_paused == settings.globally_paused && (
            after.paused_entity_types.contains(other) <==> if Some(other) == entity_type {
                paused
            } else {
                settings.paused_entity_types.contains(other)
            })
            &&& leader.with_settings(after) == (LeaderModel {
                automatic_globally_paused: after.globally_paused,
                paused_entity_types: after.paused_entity_types,
                ..leader
            })
        }),
{
}

/// Whether the session of an incarnation takes part under a name.
pub open spec fn bears_name(leader: LeaderModel, id: NodeIncarnation, node_id: Seq<char>) -> bool {
    &&& is_part(leader.sessions[id])
    &&& leader.sessions[id].hello.node.node_id == node_id
}

proof fn lemma_named(
    leader: LeaderModel,
    ids: Seq<NodeIncarnation>,
    node_id: Seq<char>,
    n: int,
) -> (at: int)
    requires
        0 <= n <= ids.len(),
    ensures
        ({
            let named = leader.named_first(ids, node_id, n);
            &&& 0 <= at <= n
            &&& forall|j: int| 0 <= j < at ==> !bears_name(leader, #[trigger] ids[j], node_id)
            &&& named is None <==> at == n
            &&& named is Some ==> bears_name(leader, ids[at], node_id)
                && leader.sessions[ids[at]].hello.node == named->0
        }),
    decreases n,
{
    if n > 0 {
        let at = lemma_named(leader, ids, node_id, n - 1);
        if at == n - 1 && !bears_name(leader, ids[n - 1], node_id) {
            n
        } else {
            at
        }
    } else {
        0
    }
}

/// A node is found by name exactly when a connected member of that name takes part; of several the
/// one with the least incarnation is found.
pub proof fn law_nodes_are_found_by_name(
    leader: LeaderModel,
    node_id: Seq<char>,
    other: NodeIncarnation,
) -> (id: NodeIncarnation)
    requires
        leader.sessions.dom().finite(),
    ensures
        leader.node_named(node_id) matches Some(node) ==> {
            &&& leader.sessions.contains_key(id)
            &&& bears_name(leader, id, node_id)
            &&& leader.sessions[id].hello.node == node
        },
        leader.sessions.contains_key(other) && bears_name(leader, other, node_id)
            ==> leader.node_named(node_id) is Some && id.0 <= other.0,
{
    lemma_ranked_lists::<NodeIncarnation>(leader.sessions.dom());
    let ids = ranked::<NodeIncarnation>(leader.sessions.dom());
    let at = lemma_named(leader, ids, node_id, ids.len() as int);
    if leader.node_named(node_id) is Some {
        assert(ids.to_set().contains(ids[at]));
    }
    if leader.sessions.contains_key(other) && bears_name(leader, other, node_id) {
        assert(ids.to_set().contains(other));
        let j = choose|j: int| 0 <= j < ids.len() && ids[j] == other;
        assert(at <= j);
        if at < j {
            assert(NodeIncarnation::less(ids[at], ids[j]));
        }
    }
    ids[at]
}

/// A relocation is carried out exactly on a shard of a known type that runs on an owner, under the
/// generation that is expected and held by no move, toward a node that is found by name. It comes to
/// one move of weight one, on behalf of an operator, from that owner to that node at the current
/// version.
pub proof fn law_relocations_move_one_shard(
    leader: LeaderModel,
    request: RelocationModel,
    slot: Option<SlotModel>,
)
    ensures
        ({
            let config = leader.entity_configs[request.entity_type];
            let known = leader.entity_configs.contains_key(request.entity_type);
            let place = leader.relocated_slot(request);
            &&& !known ==> place == Err::<SlotKeyModel, _>(RuntimeErrorModel::UnknownEntityConfig)
            &&& known && request.shard_id.0 >= config.shard_count ==> place == Err::<
                SlotKeyModel,
                _,
            >(RuntimeErrorModel::ShardOutOfRange)
            &&& known && request.shard_id.0 < config.shard_count ==> place == Ok::<
                _,
                RuntimeErrorModel,
            >(
                SlotKeyModel::Shard {
                    domain: config.domain,
                    entity_type: request.entity_type,
                    shard_id: request.shard_id,
                },
            )
        }),
        ({
            let config = leader.entity_configs[request.entity_type];
            let known = leader.entity_configs.contains_key(request.entity_type);
            let target = leader.node_named(request.target_node_id);
            let stands = slot is Some && slot->0.owner is Some && slot->0.state
                == PlacementSlotState::Running && slot->0.assignment_generation
                == request.expected_generation && slot->0.active_move is None;
            let result = leader.relocation(request, slot);
            &&& leader.relocation_fault(request, slot) is None <==> stands && target is Some
            &&& result is Ok <==> stands && target is Some && known && has_strategy(leader, config)
            &&& slot is None ==> result == Err::<ProposalModel, _>(RuntimeErrorModel::UnknownSlot)
            &&& slot is Some && !stands ==> result == Err::<ProposalModel, _>(
                RuntimeErrorModel::StaleProposal,
            )
            &&& stands && target is None ==> result == Err::<ProposalModel, _>(
                RuntimeErrorModel::IneligibleTarget,
            )
            &&& stands && target is Some && !known ==> result == Err::<ProposalModel, _>(
                RuntimeErrorModel::UnknownEntityConfig,
            )
            &&& stands && target is Some && known && !has_strategy(leader, config) ==> result
                == Err::<ProposalModel, _>(RuntimeErrorModel::UnknownStrategy)
            &&& result matches Ok(proposal) ==> {
                let movement = proposal.moves[0];
                &&& proposal.domain == config.domain
                &&& proposal.policy_id == config.allocation_policy_id
                &&& proposal.policy_version == config.allocation_policy_version
                &&& proposal.base_version == leader.version
                &&& proposal.trigger == (RebalanceTrigger::Manual {
                    source: slot->0.owner,
                    target,
                    bypass_improvement: true,
                })
                &&& proposal.moves.len() == 1
                &&& movement.domain == config.domain
                &&& movement.entity_type == request.entity_type
                &&& movement.shard_id == request.shard_id
                &&& movement.expected_generation == request.expected_generation
                &&& Some(movement.source) == slot->0.owner
                &&& Some(movement.target) == target
                &&& movement.estimated_weight == 1
            }
        }),
{
}

/// What came of an operation is told when it is repeated, unless it came to something else than an
/// operation of that kind comes to.
pub proof fn law_repeated_operations_are_told_their_outcome(
    leader: LeaderModel,
    relocation: RelocationModel,
    removal: ForceRemoveModel,
    operation_id: Seq<char>,
    fingerprint: Seq<char>,
    plan_id: u128,
    shard_id: ShardId,
)
    ensures
        ({
            let prior = leader.prior(relocation.operation_id, relocation_text(relocation));
            let result = leader.relocated_before(relocation);
            &&& prior is Err ==> result == Err::<Option<u128>, _>(prior->Err_0)
            &&& prior == Ok::<Option<AdminResultModel>, RuntimeErrorModel>(None) ==> result
                == Ok::<Option<u128>, RuntimeErrorModel>(None)
            &&& prior is Ok && prior->Ok_0 is Some ==> {
                let came = prior->Ok_0->0;
                &&& came matches AdminResultModel::PlanCreated { plan_id: created } ==> result
                    == Ok::<_, RuntimeErrorModel>(Some(created))
                &&& !(came is PlanCreated) ==> result == Err::<Option<u128>, _>(
                    RuntimeErrorModel::IdempotencyConflict,
                )
            }
        }),
        ({
            let prior = leader.prior(operation_id, fingerprint);
            let result = leader.evaluated_before(operation_id, fingerprint);
            &&& prior is Err ==> result == Err::<Option<Option<u128>>, _>(prior->Err_0)
            &&& prior == Ok::<Option<AdminResultModel>, RuntimeErrorModel>(None) ==> result
                == Ok::<Option<Option<u128>>, RuntimeErrorModel>(None)
            &&& prior is Ok && prior->Ok_0 is Some ==> {
                let came = prior->Ok_0->0;
                &&& came matches AdminResultModel::EvaluationCompleted { plan } ==> result == Ok::<
                    _,
                    RuntimeErrorModel,
                >(Some(plan))
                &&& !(came is EvaluationCompleted) ==> result == Err::<Option<Option<u128>>, _>(
                    RuntimeErrorModel::IdempotencyConflict,
                )
            }
        }),
        leader.cancelled_before(operation_id, plan_id, shard_id) == leader.already(
            operation_id,
            cancel_text(plan_id, shard_id),
            AdminResultModel::PendingMoveCancelled { plan_id, shard_id },
        ),
        leader.removed_before(removal) == leader.already(
            removal.operation_id,
            force_remove_text(removal),
            AdminResultModel::MemberRemoved {
                node_id: removal.node_id,
                incarnation: removal.expected_incarnation,
            },
        ),
{
}

/// A strategy is asked for a rebalance exactly when it is not an automatic one of a paused type, and
/// the type is known and has a strategy.
pub proof fn law_paused_types_are_not_rebalanced(
    leader: LeaderModel,
    entity_type: Seq<char>,
    trigger: RebalanceTrigger<Seq<char>>,
)
    ensures
        ({
            let paused = trigger is Automatic && (leader.automatic_globally_paused
                || leader.paused_entity_types.contains(entity_type));
            let known = leader.entity_configs.contains_key(entity_type);
            let fault = leader.evaluation_fault(entity_type, trigger);
            &&& fault is None <==> !paused && known && has_strategy(
                leader,
                leader.entity_configs[entity_type],
            )
            &&& paused ==> fault == Some(
                RuntimeErrorModel::Allocation(AllocationError::AutomaticPaused),
            )
            &&& !paused && !known ==> fault == Some(RuntimeErrorModel::UnknownEntityConfig)
            &&& !paused && known && fault is Some ==> fault == Some(
                RuntimeErrorModel::UnknownStrategy,
            )
        }),
{
}

/// Ages are told in whole milliseconds since, none for what is yet to come, and no more than can be
/// told.
pub proof fn law_ages_are_whole_milliseconds(since: TimeSpan, now: TimeSpan)
    ensures
        now.length() <= since.length() ==> age_millis(since, now) == 0,
        since.length() <= now.length() && age_millis(since, now) < u64::MAX ==> age_millis(since, now)
            * 1_000_000 <= now.length() - since.length() < (age_millis(since, now) + 1) * 1_000_000,
        age_millis(since, now) <= u64::MAX,
        age_millis(since, now) == u64::MAX ==> now.length() - since.length() >= u64::MAX * 1_000_000,
        option_age_millis(None, now) is None,
        option_age_millis(Some(since), now) == Some(age_millis(since, now) as u64),
{
}

/// Every record that was set aside is listed once, with its reason, in the order of the names.
pub proof fn law_quarantined_records_are_listed(progress: ProgressModel, name: Seq<char>, i: int)
    requires
        progress.quarantined.dom().finite(),
    ensures
        ({
            let records = progress.quarantined_records();
            &&& records.len() == progress.quarantined.dom().len()
            &&& progress.quarantined.contains_key(name) ==> records.contains(
                (name, progress.quarantined[name]),
            )
            &&& 0 <= i < records.len() ==> progress.quarantined.contains_key(records[i].0)
                && records[i].1 == progress.quarantined[records[i].0]
            &&& 0 <= i < records.len() - 1 ==> crate::order::text_less(
                records[i].0,
                records[i + 1].0,
            )
            &&& progress.is_degraded() <==> progress.quarantined.dom().len() > 0
        }),
{
    lemma_ranked_lists::<String>(progress.quarantined.dom());
    let names = ranked::<String>(progress.quarantined.dom());
    let records = progress.quarantined_records();
    if progress.quarantined.contains_key(name) {
        assert(names.to_set().contains(name));
        let j = choose|j: int| 0 <= j < names.len() && names[j] == name;
        assert(records[j] == (name, progress.quarantined[name]));
    }
    if 0 <= i < records.len() {
        assert(names.to_set().contains(names[i]));
        assert(records[i].0 == names[i]);
        if i < records.len() - 1 {
            assert(records[i + 1].0 == names[i + 1]);
            assert(String::less(names[i], names[i + 1]));
        }
    }
}

/// Whether an operation is kept, as old as that.
pub open spec fn is_kept(leader: LeaderModel, age: AgeModel) -> bool {
    &&& leader.applied_admin_operations.contains_key(age.operation_id)
    &&& leader.applied_admin_operations[age.operation_id].created_unix_millis
        == age.created_unix_millis
}

/// Whether the record of an operation has expired.
pub open spec fn has_expired(leader: LeaderModel, age: AgeModel, now: u64) -> bool {
    leader.applied_admin_operations[age.operation_id].expires_unix_millis <= now
}

proof fn lemma_forgotten(
    leader: LeaderModel,
    order: Seq<AgeModel>,
    additional: usize,
    now: u64,
    n: int,
)
    requires
        0 <= n <= order.len(),
        order.len() <= usize::MAX,
    ensures
        ({
            let gone = leader.forgotten_first(order, additional, now, n);
            let excess = leader.excess_operations(order.len(), additional);
            &&& forall|i: int|
                0 <= i < n && (has_expired(leader, #[trigger] order[i], now) || i < excess)
                    ==> gone.contains(leader.applied_admin_operations[order[i].operation_id])
            &&& forall|j: int|
                0 <= j < gone.len() ==> exists|i: int|
                    0 <= i < n && (has_expired(leader, #[trigger] order[i], now) || i < excess)
                        && #[trigger] gone[j]
                        == leader.applied_admin_operations[order[i].operation_id]
            &&& gone.len() >= if n < excess {
                n
            } else {
                excess
            }
            &&& gone.len() <= n
        }),
    decreases n,
{
    if n > 0 {
        lemma_forgotten(leader, order, additional, now, n - 1);
        let before = leader.forgotten_first(order, additional, now, n - 1);
        let gone = leader.forgotten_first(order, additional, now, n);
        let excess = leader.excess_operations(order.len(), additional);
        let record = leader.applied_admin_operations[order[n - 1].operation_id];
        let goes = has_expired(leader, order[n - 1], now) || n - 1 < excess;
        if goes {
            assert(gone == before.push(record));
            assert(gone[before.len() as int] == record);
        }
        assert forall|i: int|
            0 <= i < n && (has_expired(leader, #[trigger] order[i], now) || i
                < excess) implies gone.contains(
            leader.applied_admin_operations[order[i].operation_id],
        ) by {
            if i < n - 1 {
                let wanted = leader.applied_admin_operations[order[i].operation_id];
                assert(before.contains(wanted));
                let j = choose|j: int| 0 <= j < before.len() && before[j] == wanted;
                assert(gone[j] == wanted);
            }
        }
        assert forall|j: int| 0 <= j < gone.len() implies exists|i: int|
            0 <= i < n && (has_expired(leader, #[trigger] order[i], now) || i < excess)
                && #[trigger] gone[j]
                == leader.applied_admin_operations[order[i].operation_id] by {
            if j < before.len() {
                assert(gone[j] == before[j]);
                let i = choose|i: int|
                    0 <= i < n - 1 && (has_expired(leader, #[trigger] order[i], now) || i < excess)
                        && before[j] == leader.applied_admin_operations[order[i].operation_id];
                assert(has_expired(leader, order[i], now) || i < excess);
            } else {
                assert(has_expired(leader, order[n - 1], now) || n - 1 < excess);
            }
        }
    }
}

/// Operations that have expired are forgotten, and the oldest of the others as far as there would be
/// no room for the operations to come: an operation stays only if each that is forgotten and has not
/// expired is older, and none that has not expired is forgotten while there is room.
pub proof fn law_the_oldest_operations_are_forgotten(
    leader: LeaderModel,
    additional: usize,
    now: u64,
    age: AgeModel,
    i: int,
)
    requires
        ages(leader.applied_admin_operations).finite(),
        ages(leader.applied_admin_operations).len() <= usize::MAX,
        is_kept(leader, age),
    ensures
        ({
            let gone = leader.forgotten_operations(additional, now);
            let count = ages(leader.applied_admin_operations).len();
            let room = leader.limits.maximum_admin_operation_records;
            &&& has_expired(leader, age, now) ==> gone.contains(
                leader.applied_admin_operations[age.operation_id],
            )
            &&& count + additional <= usize::MAX ==> count - gone.len() + additional <= room
                || additional > room
            &&& count + additional <= room && 0 <= i < gone.len() ==> gone[i].expires_unix_millis
                <= now
        }),
{
    let order = ranked::<OperationAge>(ages(leader.applied_admin_operations));
    lemma_ranked_lists::<OperationAge>(ages(leader.applied_admin_operations));
    lemma_forgotten(leader, order, additional, now, order.len() as int);
    assert(ages(leader.applied_admin_operations).contains(age));
    assert(order.to_set().contains(age));
    let k = choose|k: int| 0 <= k < order.len() && order[k] == age;
    assert(has_expired(leader, order[k], now) ==> leader.forgotten_operations(
        additional,
        now,
    ).contains(leader.applied_admin_operations[order[k].operation_id]));
}

/// An operation that has not expired is forgotten only together with every operation that was carried
/// out before it.
pub proof fn law_operations_are_forgotten_oldest_first(
    leader: LeaderModel,
    additional: usize,
    now: u64,
    age: AgeModel,
    older: AgeModel,
)
    requires
        ages(leader.applied_admin_operations).finite(),
        ages(leader.applied_admin_operations).len() <= usize::MAX,
        forall|id: Seq<char>| #[trigger]
            leader.applied_admin_operations.contains_key(id)
                ==> leader.applied_admin_operations[id].operation_id == id,
        is_kept(leader, age),
        is_kept(leader, older),
        older.created_unix_millis < age.created_unix_millis,
        !has_expired(leader, age, now),
        leader.forgotten_operations(additional, now).contains(
            leader.applied_admin_operations[age.operation_id],
        ),
    ensures
        leader.forgotten_operations(additional, now).contains(
            leader.applied_admin_operations[older.operation_id],
        ),
{
    let order = ranked::<OperationAge>(ages(leader.applied_admin_operations));
    let excess = leader.excess_operations(order.len(), additional);
    let gone = leader.forgotten_operations(additional, now);
    lemma_ranked_lists::<OperationAge>(ages(leader.applied_admin_operations));
    lemma_forgotten(leader, order, additional, now, order.len() as int);
    assert(order.to_set().contains(age));
    assert(order.to_set().contains(older));
    let k = choose|k: int| 0 <= k < order.len() && order[k] == older;
    let m = choose|m: int| 0 <= m < order.len() && order[m] == age;
    let record = leader.applied_admin_operations[age.operation_id];
    let j = choose|j: int| 0 <= j < gone.len() && gone[j] == record;
    let i = choose|i: int|
        0 <= i < order.len() && (has_expired(leader, #[trigger] order[i], now) || i < excess)
            && gone[j] == leader.applied_admin_operations[order[i].operation_id];
    assert(order.to_set().contains(order[i]));
    assert(is_kept(leader, order[i]));
    assert(order[i].operation_id == age.operation_id);
    assert(order[i] == age);
    if m < k {
        assert(OperationAge::less(order[m], order[k]));
    }
    if i < k {
        assert(OperationAge::less(order[i], order[k]));
    }
    assert(k < excess);
    assert(has_expired(leader, order[k], now) || k < excess);
}

} // verus!
