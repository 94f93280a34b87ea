//! What the runtime of a coordinator refuses, and how that is reported.
use vstd::prelude::*;
use vstd::string::StringExecFns;

use crate::keymap::Key;
use crate::plan::{plan_error_message, PlanError};

verus! {

/// Why the durable store failed.
#[derive(Debug, Clone, Copy, PartialEq, Eq, Structural)]
pub enum StorageError {
    Unavailable,
    Deadline,
    OutcomeUnknown,
    LeadershipLost,
    CompareFailed,
    Capacity,
}

pub open spec fn storage_error_message(error: StorageError) -> Seq<char> {
    match error {
        StorageError::Unavailable => "placement store is unavailable"@,
        StorageError::Deadline => "placement store deadline elapsed"@,
        StorageError::OutcomeUnknown => "placement store outcome is unknown"@,
        StorageError::LeadershipLost => "placement leadership was lost"@,
        StorageError::CompareFailed => "placement store comparison failed"@,
        StorageError::Capacity => "placement store capacity is exhausted"@,
    }
}

impl StorageError {
    pub fn message(&self) -> (message: &'static str)
        ensures
            message@ == storage_error_message(*self),
    {
        match self {
            StorageError::Unavailable => "placement store is unavailable",
            StorageError::Deadline => "placement store deadline elapsed",
            StorageError::OutcomeUnknown => "placement store outcome is unknown",
            StorageError::LeadershipLost => "placement leadership was lost",
            StorageError::CompareFailed => "placement store comparison failed",
            StorageError::Capacity => "placement store capacity is exhausted",
        }
    }
}

/// Why an allocation strategy declines.
#[derive(Debug, Clone, Copy, PartialEq, Eq, Structural)]
pub enum AllocationError {
    AutomaticPaused,
    Cooldown,
    ConcurrencyLimit,
    NoEligibleNode,
    Unreconciled,
    StaleLoad,
    InvalidView,
}

pub open spec fn allocation_error_message(error: AllocationError) -> Seq<char> {
    match error {
        AllocationError::AutomaticPaused => "automatic rebalancing is paused"@,
        AllocationError::Cooldown => "automatic rebalancing is cooling down"@,
        AllocationError::ConcurrencyLimit => "rebalance concurrency limit is reached"@,
        AllocationError::NoEligibleNode => "no eligible node is available"@,
        AllocationError::Unreconciled => "placement view is not reconciled"@,
        AllocationError::StaleLoad => "placement load is stale"@,
        AllocationError::InvalidView => "placement view is invalid"@,
    }
}

impl AllocationError {
    pub fn message(&self) -> (message: &'static str)
        ensures
            message@ == allocation_error_message(*self),
    {
        match self {
            AllocationError::AutomaticPaused => "automatic rebalancing is paused",
            AllocationError::Cooldown => "automatic rebalancing is cooling down",
            AllocationError::ConcurrencyLimit => "rebalance concurrency limit is reached",
            AllocationError::NoEligibleNode => "no eligible node is available",
            AllocationError::Unreconciled => "placement view is not reconciled",
            AllocationError::StaleLoad => "placement load is stale",
            AllocationError::InvalidView => "placement view is invalid",
        }
    }
}

/// Why the runtime refuses. A cause from elsewhere is kept in its own words.
#[derive(Debug, PartialEq, Eq)]
pub enum CoordinatorRuntimeError<S = String> {
    InvalidConfig,
    NotLeader,
    Codec,
    ControlClosed,
    ControlBackpressure,
    OperationClosed,
    InvalidAdminOperation,
    IdempotencyConflict,
    OperationCapacity,
    UnauthorizedCommand,
    UnknownSession,
    AssociationUnavailable,
    ClaimSequence,
    StaleProposal,
    PlanConflict,
    ConcurrencyLimit,
    IneligibleTarget,
    UnknownEntityConfig,
    UnknownSingletonConfig,
    ConfigurationConflict,
    ConfigurationCapacity,
    ShardOutOfRange,
    UnknownStrategy,
    DuplicateStrategy,
    UnknownSlot,
    UnknownPlan,
    UnknownHandoff,
    StaleHandoff,
    StaleMember,
    DrainNotReady,
    MemberNotReady,
    ClaimNotProven,
    RevisionExhausted,
    Storage(StorageError),
    Coordinator(S),
    Control(S),
    Allocation(AllocationError),
    Plan(PlanError),
    Handoff(S),
    Association(S),
}

pub type RuntimeErrorModel = CoordinatorRuntimeError<Seq<char>>;

impl View for CoordinatorRuntimeError {
    type V = RuntimeErrorModel;

    open spec fn view(&self) -> RuntimeErrorModel {
        match self {
            CoordinatorRuntimeError::InvalidConfig => CoordinatorRuntimeError::InvalidConfig,
            CoordinatorRuntimeError::NotLeader => CoordinatorRuntimeError::NotLeader,
            CoordinatorRuntimeError::Codec => CoordinatorRuntimeError::Codec,
            CoordinatorRuntimeError::ControlClosed => CoordinatorRuntimeError::ControlClosed,
            CoordinatorRuntimeError::ControlBackpressure => CoordinatorRuntimeError::ControlBackpressure,
            CoordinatorRuntimeError::OperationClosed => CoordinatorRuntimeError::OperationClosed,
            CoordinatorRuntimeError::InvalidAdminOperation => CoordinatorRuntimeError::InvalidAdminOperation,
            CoordinatorRuntimeError::IdempotencyConflict => CoordinatorRuntimeError::IdempotencyConflict,
            CoordinatorRuntimeError::OperationCapacity => CoordinatorRuntimeError::OperationCapacity,
            CoordinatorRuntimeError::UnauthorizedCommand => CoordinatorRuntimeError::UnauthorizedCommand,
            CoordinatorRuntimeError::UnknownSession => CoordinatorRuntimeError::UnknownSession,
            CoordinatorRuntimeError::AssociationUnavailable => CoordinatorRuntimeError::AssociationUnavailable,
            CoordinatorRuntimeError::ClaimSequence => CoordinatorRuntimeError::ClaimSequence,
            CoordinatorRuntimeError::StaleProposal => CoordinatorRuntimeError::StaleProposal,
            CoordinatorRuntimeError::PlanConflict => CoordinatorRuntimeError::PlanConflict,
            CoordinatorRuntimeError::ConcurrencyLimit => CoordinatorRuntimeError::ConcurrencyLimit,
            CoordinatorRuntimeError::IneligibleTarget => CoordinatorRuntimeError::IneligibleTarget,
            CoordinatorRuntimeError::UnknownEntityConfig => CoordinatorRuntimeError::UnknownEntityConfig,
            CoordinatorRuntimeError::UnknownSingletonConfig => CoordinatorRuntimeError::UnknownSingletonConfig,
            CoordinatorRuntimeError::ConfigurationConflict => CoordinatorRuntimeError::ConfigurationConflict,
            CoordinatorRuntimeError::ConfigurationCapacity => CoordinatorRuntimeError::ConfigurationCapacity,
            CoordinatorRuntimeError::ShardOutOfRange => CoordinatorRuntimeError::ShardOutOfRange,
            CoordinatorRuntimeError::UnknownStrategy => CoordinatorRuntimeError::UnknownStrategy,
            CoordinatorRuntimeError::DuplicateStrategy => CoordinatorRuntimeError::DuplicateStrategy,
            CoordinatorRuntimeError::UnknownSlot => CoordinatorRuntimeError::UnknownSlot,
            CoordinatorRuntimeError::UnknownPlan => CoordinatorRuntimeError::UnknownPlan,
            CoordinatorRuntimeError::UnknownHandoff => CoordinatorRuntimeError::UnknownHandoff,
            CoordinatorRuntimeError::StaleHandoff => CoordinatorRuntimeError::StaleHandoff,
            CoordinatorRuntimeError::StaleMember => CoordinatorRuntimeError::StaleMember,
            CoordinatorRuntimeError::DrainNotReady => CoordinatorRuntimeError::DrainNotReady,
            CoordinatorRuntimeError::MemberNotReady => CoordinatorRuntimeError::MemberNotReady,
            CoordinatorRuntimeError::ClaimNotProven => CoordinatorRuntimeError::ClaimNotProven,
            CoordinatorRuntimeError::RevisionExhausted => CoordinatorRuntimeError::RevisionExhausted,
            CoordinatorRuntimeError::Storage(cause) => CoordinatorRuntimeError::Storage(*cause),
            CoordinatorRuntimeError::Coordinator(cause) => CoordinatorRuntimeError::Coordinator(cause@),
            CoordinatorRuntimeError::Control(cause) => CoordinatorRuntimeError::Control(cause@),
            CoordinatorRuntimeError::Allocation(cause) => CoordinatorRuntimeError::Allocation(*cause),
            CoordinatorRuntimeError::Plan(cause) => CoordinatorRuntimeError::Plan(*cause),
            CoordinatorRuntimeError::Handoff(cause) => CoordinatorRuntimeError::Handoff(cause@),
            CoordinatorRuntimeError::Association(cause) => CoordinatorRuntimeError::Association(cause@),
        }
    }
}

/// A result, by what it states.
pub open spec fn outcome<T: View>(result: Result<T, CoordinatorRuntimeError>) -> Result<
    T::V,
    RuntimeErrorModel,
> {
    match result {
        Ok(value) => Ok(value@),
        Err(error) => Err(error@),
    }
}

/// The error of a result, by what it states.
pub open spec fn runtime_fault<T>(result: Result<T, CoordinatorRuntimeError>) -> Option<
    RuntimeErrorModel,
> {
    match result {
        Ok(_) => None,
        Err(error) => Some(error@),
    }
}

impl RuntimeErrorModel {
    /// What the error says of its own.
    pub open spec fn headline(self) -> Seq<char> {
        match self {
            CoordinatorRuntimeError::InvalidConfig => "Coordinator runtime configuration is invalid"@,
            CoordinatorRuntimeError::NotLeader => "Coordinator leadership campaign lost"@,
            CoordinatorRuntimeError::Codec => "Coordinator snapshot record codec failed"@,
            CoordinatorRuntimeError::ControlClosed => "Coordinator control stream closed"@,
            CoordinatorRuntimeError::ControlBackpressure => "Coordinator control queue is full"@,
            CoordinatorRuntimeError::OperationClosed => "Coordinator operation stream closed"@,
            CoordinatorRuntimeError::InvalidAdminOperation => "Coordinator admin operation is invalid"@,
            CoordinatorRuntimeError::IdempotencyConflict => "Coordinator admin operation ID conflicts with another command"@,
            CoordinatorRuntimeError::OperationCapacity => "Coordinator admin operation history is full"@,
            CoordinatorRuntimeError::UnauthorizedCommand => "Coordinator received a command from an unauthorized session"@,
            CoordinatorRuntimeError::UnknownSession => "Coordinator session is not registered"@,
            CoordinatorRuntimeError::AssociationUnavailable => "Coordinator association is unavailable"@,
            CoordinatorRuntimeError::ClaimSequence => "Coordinator claim sequence exhausted"@,
            CoordinatorRuntimeError::StaleProposal => "rebalance proposal is stale or no longer matches placement truth"@,
            CoordinatorRuntimeError::PlanConflict => "rebalance plan conflicts with active work"@,
            CoordinatorRuntimeError::ConcurrencyLimit => "rebalance concurrency or target reservation limit reached"@,
            CoordinatorRuntimeError::IneligibleTarget => "rebalance target is not a live eligible host"@,
            CoordinatorRuntimeError::UnknownEntityConfig => "placement entity configuration is unknown"@,
            CoordinatorRuntimeError::UnknownSingletonConfig => "placement singleton configuration is unknown"@,
            CoordinatorRuntimeError::ConfigurationConflict => "placement configuration conflicts with an existing declaration"@,
            CoordinatorRuntimeError::ConfigurationCapacity => "placement configuration capacity is exhausted"@,
            CoordinatorRuntimeError::ShardOutOfRange => "shard is outside the configured shard count"@,
            CoordinatorRuntimeError::UnknownStrategy => "allocation strategy is not registered"@,
            CoordinatorRuntimeError::DuplicateStrategy => "allocation strategy ID/version is already registered"@,
            CoordinatorRuntimeError::UnknownSlot => "placement slot does not exist"@,
            CoordinatorRuntimeError::UnknownPlan => "rebalance plan does not exist"@,
            CoordinatorRuntimeError::UnknownHandoff => "handoff state does not exist"@,
            CoordinatorRuntimeError::StaleHandoff => "handoff state no longer matches persisted placement truth"@,
            CoordinatorRuntimeError::StaleMember => "cluster member is stale"@,
            CoordinatorRuntimeError::DrainNotReady => "member drain is not ready to complete"@,
            CoordinatorRuntimeError::MemberNotReady => "cluster member is not ready"@,
            CoordinatorRuntimeError::ClaimNotProven => "old claim invalidation could not be proven"@,
            CoordinatorRuntimeError::RevisionExhausted => "Coordinator revision exhausted"@,
            CoordinatorRuntimeError::Storage(_) => "Coordinator durable store failed"@,
            CoordinatorRuntimeError::Coordinator(_) => "Coordinator reducer rejected state"@,
            CoordinatorRuntimeError::Control(_) => "Coordinator control codec failed"@,
            CoordinatorRuntimeError::Allocation(_) => "allocation strategy rejected the placement view"@,
            CoordinatorRuntimeError::Plan(_) => "rebalance plan reducer rejected a transition"@,
            CoordinatorRuntimeError::Handoff(_) => "handoff reducer rejected a transition"@,
            CoordinatorRuntimeError::Association(_) => "Coordinator Association rejected reliable control admission"@,
        }
    }

    /// What the error wraps, in its own words.
    pub open spec fn source(self) -> Option<Seq<char>> {
        match self {
            CoordinatorRuntimeError::Storage(cause) => Some(storage_error_message(cause)),
            CoordinatorRuntimeError::Allocation(cause) => Some(allocation_error_message(cause)),
            CoordinatorRuntimeError::Plan(cause) => Some(plan_error_message(cause)),
            CoordinatorRuntimeError::Coordinator(cause) => Some(cause),
            CoordinatorRuntimeError::Control(cause) => Some(cause),
            CoordinatorRuntimeError::Handoff(cause) => Some(cause),
            CoordinatorRuntimeError::Association(cause) => Some(cause),
            _ => None,
        }
    }

    /// The text of the error: a declined allocation also says which gate refused.
    pub open spec fn text(self) -> Seq<char> {
        match self {
            CoordinatorRuntimeError::Allocation(cause) => self.headline() + ": "@
                + allocation_error_message(cause),
            _ => self.headline(),
        }
    }

    pub open spec fn cause(self) -> Seq<char> {
        match self.source() {
            Some(cause) => cause,
            None => "none"@,
        }
    }
}

impl CoordinatorRuntimeError {
    fn headline(&self) -> (headline: &'static str)
        ensures
            headline@ == self@.headline(),
    {
        match self {
            CoordinatorRuntimeError::InvalidConfig => "Coordinator runtime configuration is invalid",
            CoordinatorRuntimeError::NotLeader => "Coordinator leadership campaign lost",
            CoordinatorRuntimeError::Codec => "Coordinator snapshot record codec failed",
            CoordinatorRuntimeError::ControlClosed => "Coordinator control stream closed",
            CoordinatorRuntimeError::ControlBackpressure => "Coordinator control queue is full",
            CoordinatorRuntimeError::OperationClosed => "Coordinator operation stream closed",
            CoordinatorRuntimeError::InvalidAdminOperation => "Coordinator admin operation is invalid",
            CoordinatorRuntimeError::IdempotencyConflict => "Coordinator admin operation ID conflicts with another command",
            CoordinatorRuntimeError::OperationCapacity => "Coordinator admin operation history is full",
            CoordinatorRuntimeError::UnauthorizedCommand => "Coordinator received a command from an unauthorized session",
            CoordinatorRuntimeError::UnknownSession => "Coordinator session is not registered",
            CoordinatorRuntimeError::AssociationUnavailable => "Coordinator association is unavailable",
            CoordinatorRuntimeError::ClaimSequence => "Coordinator claim sequence exhausted",
            CoordinatorRuntimeError::StaleProposal => "rebalance proposal is stale or no longer matches placement truth",
            CoordinatorRuntimeError::PlanConflict => "rebalance plan conflicts with active work",
            CoordinatorRuntimeError::ConcurrencyLimit => "rebalance concurrency or target reservation limit reached",
            CoordinatorRuntimeError::IneligibleTarget => "rebalance target is not a live eligible host",
            CoordinatorRuntimeError::UnknownEntityConfig => "placement entity configuration is unknown",
            CoordinatorRuntimeError::UnknownSingletonConfig => "placement singleton configuration is unknown",
            CoordinatorRuntimeError::ConfigurationConflict => "placement configuration conflicts with an existing declaration",
            CoordinatorRuntimeError::ConfigurationCapacity => "placement configuration capacity is exhausted",
            CoordinatorRuntimeError::ShardOutOfRange => "shard is outside the configured shard count",
            CoordinatorRuntimeError::UnknownStrategy => "allocation strategy is not registered",
            CoordinatorRuntimeError::DuplicateStrategy => "allocation strategy ID/version is already registered",
            CoordinatorRuntimeError::UnknownSlot => "placement slot does not exist",
            CoordinatorRuntimeError::UnknownPlan => "rebalance plan does not exist",
            CoordinatorRuntimeError::UnknownHandoff => "handoff state does not exist",
            CoordinatorRuntimeError::StaleHandoff => "handoff state no longer matches persisted placement truth",
            CoordinatorRuntimeError::StaleMember => "cluster member is stale",
            CoordinatorRuntimeError::DrainNotReady => "member drain is not ready to complete",
            CoordinatorRuntimeError::MemberNotReady => "cluster member is not ready",
            CoordinatorRuntimeError::ClaimNotProven => "old claim invalidation could not be proven",
            CoordinatorRuntimeError::RevisionExhausted => "Coordinator revision exhausted",
            CoordinatorRuntimeError::Storage(_) => "Coordinator durable store failed",
            CoordinatorRuntimeError::Coordinator(_) => "Coordinator reducer rejected state",
            CoordinatorRuntimeError::Control(_) => "Coordinator control codec failed",
            CoordinatorRuntimeError::Allocation(_) => "allocation strategy rejected the placement view",
            CoordinatorRuntimeError::Plan(_) => "rebalance plan reducer rejected a transition",
            CoordinatorRuntimeError::Handoff(_) => "handoff reducer rejected a transition",
            CoordinatorRuntimeError::Association(_) => "Coordinator Association rejected reliable control admission",
        }
    }

    pub fn message(&self) -> (message: String)
        ensures
            message@ == self@.text(),
    {
        let mut message = String::from_str(self.headline());
        match self {
            CoordinatorRuntimeError::Allocation(cause) => {
                message.append(": ");
                message.append(cause.message());
            },
            _ => {},
        }
        message
    }
}

/// What an error wraps, for a log; `none` if it wraps nothing.
pub fn error_cause(error: &CoordinatorRuntimeError) -> (cause: String)
    ensures
        cause@ == error@.cause(),
{
    match error {
        CoordinatorRuntimeError::Storage(cause) => String::from_str(cause.message()),
        CoordinatorRuntimeError::Allocation(cause) => String::from_str(cause.message()),
        CoordinatorRuntimeError::Plan(cause) => String::from_str(cause.message()),
        CoordinatorRuntimeError::Coordinator(cause) => cause.copy(),
        CoordinatorRuntimeError::Control(cause) => cause.copy(),
        CoordinatorRuntimeError::Handoff(cause) => cause.copy(),
        CoordinatorRuntimeError::Association(cause) => cause.copy(),
        _ => String::from_str("none"),
    }
}

/// Why a command is to be sent once more.
#[derive(Debug, Clone, Copy, PartialEq, Eq, Structural)]
pub enum ControlRetryReason {
    AssociationStarting,
    ConsumerBusy,
}

/// How a refused command is answered to the member that sent it.
#[derive(Debug, Clone, Copy, PartialEq, Eq, Structural)]
pub enum ControlDispatchError {
    InvalidCommand,
    Unavailable,
    RetryLater(ControlRetryReason),
}

/// Whether an error is the fault of the command.
pub open spec fn blames_the_command(error: RuntimeErrorModel) -> bool {
    error is UnauthorizedCommand || error is UnknownSession || error is Codec
        || error is Coordinator || error is Control || error is ClaimSequence
}

pub fn control_dispatch_error(error: &CoordinatorRuntimeError) -> (answer: ControlDispatchError)
    ensures
        answer == if blames_the_command(error@) {
            ControlDispatchError::InvalidCommand
        } else {
            ControlDispatchError::Unavailable
        },
{
    match error {
        CoordinatorRuntimeError::UnauthorizedCommand => ControlDispatchError::InvalidCommand,
        CoordinatorRuntimeError::UnknownSession => ControlDispatchError::InvalidCommand,
        CoordinatorRuntimeError::Codec => ControlDispatchError::InvalidCommand,
        CoordinatorRuntimeError::Coordinator(_) => ControlDispatchError::InvalidCommand,
        CoordinatorRuntimeError::Control(_) => ControlDispatchError::InvalidCommand,
        CoordinatorRuntimeError::ClaimSequence => ControlDispatchError::InvalidCommand,
        _ => ControlDispatchError::Unavailable,
    }
}

/// Whether an automatic round was merely declined: nothing that an operator could act on.
pub open spec fn is_declined_round(error: RuntimeErrorModel) -> bool {
    error matches CoordinatorRuntimeError::Allocation(cause) && (cause
        == AllocationError::AutomaticPaused || cause == AllocationError::Cooldown || cause
        == AllocationError::ConcurrencyLimit || cause == AllocationError::NoEligibleNode || cause
        == AllocationError::Unreconciled)
}

pub fn declined_automatic_round(error: &CoordinatorRuntimeError) -> (declined: bool)
    ensures
        declined == is_declined_round(error@),
{
    match error {
        CoordinatorRuntimeError::Allocation(cause) => match cause {
            AllocationError::AutomaticPaused => true,
            AllocationError::Cooldown => true,
            AllocationError::ConcurrencyLimit => true,
            AllocationError::NoEligibleNode => true,
            AllocationError::Unreconciled => true,
            _ => false,
        },
        _ => false,
    }
}

/// What a node that asked where a shard is gets: a snapshot, unless the answer was published to
/// it already. That no node can take the shard now is no fault of the node.
pub open spec fn shard_answer(result: Result<bool, RuntimeErrorModel>) -> Result<
    bool,
    RuntimeErrorModel,
> {
    match result {
        Ok(published) => Ok(!published),
        Err(error) => if error == RuntimeErrorModel::IneligibleTarget || error
            == RuntimeErrorModel::Allocation(AllocationError::NoEligibleNode) {
            Ok(false)
        } else {
            Err(error)
        },
    }
}

/// What a node that asked where a singleton is gets.
pub open spec fn singleton_answer(result: Result<bool, RuntimeErrorModel>) -> Result<
    bool,
    RuntimeErrorModel,
> {
    match result {
        Ok(published) => Ok(!published),
        Err(error) => if error == RuntimeErrorModel::IneligibleTarget {
            Ok(false)
        } else {
            Err(error)
        },
    }
}

/// Whether a snapshot is sent to a node that asked where a shard is, given whether the
/// resolution was published or how it failed.
pub fn answer_shard_resolution(result: Result<bool, CoordinatorRuntimeError>) -> (snapshot: Result<
    bool,
    CoordinatorRuntimeError,
>)
    ensures
        outcome(snapshot) == shard_answer(outcome(result)),
{
    match result {
        Ok(published) => Ok(!published),
        Err(CoordinatorRuntimeError::IneligibleTarget) => Ok(false),
        Err(CoordinatorRuntimeError::Allocation(AllocationError::NoEligibleNode)) => Ok(false),
        Err(error) => Err(error),
    }
}

/// Whether a snapshot is sent to a node that asked where a singleton is.
pub fn answer_singleton_resolution(result: Result<bool, CoordinatorRuntimeError>) -> (snapshot:
    Result<bool, CoordinatorRuntimeError>)
    ensures
        outcome(snapshot) == singleton_answer(outcome(result)),
{
    match result {
        Ok(published) => Ok(!published),
        Err(CoordinatorRuntimeError::IneligibleTarget) => Ok(false),
        Err(error) => Err(error),
    }
}

/// How a leader that has stopped reports: what stopped it, or else that its lease was not given
/// up.
pub fn conclude_run(
    result: Result<(), CoordinatorRuntimeError>,
    revocation: Result<(), StorageError>,
) -> (report: Result<(), CoordinatorRuntimeError>)
    ensures
        runtime_fault(report) == match (runtime_fault(result), revocation) {
            (Some(fault), _) => Some(fault),
            (None, Ok(_)) => None,
            (None, Err(error)) => Some(RuntimeErrorModel::Storage(error)),
        },
{
    match result {
        Err(error) => Err(error),
        Ok(()) => match revocation {
            Ok(()) => Ok(()),
            Err(error) => Err(CoordinatorRuntimeError::Storage(error)),
        },
    }
}

/// Whether an operation failed because the leadership is gone.
pub fn operation_lost_leadership<T>(result: &Result<T, CoordinatorRuntimeError>) -> (lost: bool)
    ensures
        lost == (runtime_fault(*result) == Some(
            RuntimeErrorModel::Storage(StorageError::LeadershipLost),
        )),
{
    match result {
        Err(CoordinatorRuntimeError::Storage(error)) => *error == StorageError::LeadershipLost,
        _ => false,
    }
}

/// How often the store refused, by what it said.
#[derive(Debug, Clone, Copy, PartialEq, Eq, Structural)]
pub struct StorageCounters {
    pub leadership_loss_count: u64,
    pub commit_conflict_count: u64,
    pub unknown_outcome_count: u64,
    pub capacity_rejection_count: u64,
}

pub open spec fn one_more(count: u64) -> u64 {
    if count < u64::MAX {
        (count + 1) as u64
    } else {
        count
    }
}

impl StorageCounters {
    /// The counters once the outcome of an operation is counted.
    pub open spec fn counted(self, fault: Option<RuntimeErrorModel>) -> StorageCounters {
        match fault {
            Some(CoordinatorRuntimeError::Storage(StorageError::LeadershipLost)) => StorageCounters {
                leadership_loss_count: one_more(self.leadership_loss_count),
                ..self
            },
            Some(CoordinatorRuntimeError::Storage(StorageError::CompareFailed)) => StorageCounters {
                commit_conflict_count: one_more(self.commit_conflict_count),
                ..self
            },
            Some(CoordinatorRuntimeError::Storage(StorageError::OutcomeUnknown)) => StorageCounters {
                unknown_outcome_count: one_more(self.unknown_outcome_count),
                ..self
            },
            Some(CoordinatorRuntimeError::Storage(StorageError::Capacity)) => StorageCounters {
                capacity_rejection_count: one_more(self.capacity_rejection_count),
                ..self
            },
            _ => self,
        }
    }

    pub fn new() -> (counters: Self)
        ensures
            counters == (StorageCounters {
                leadership_loss_count: 0,
                commit_conflict_count: 0,
                unknown_outcome_count: 0,
                capacity_rejection_count: 0,
            }),
    {
        StorageCounters {
            leadership_loss_count: 0,
            commit_conflict_count: 0,
            unknown_outcome_count: 0,
            capacity_rejection_count: 0,
        }
    }

    /// Counts the outcome of an operation.
    pub fn observe_operation_result<T>(&mut self, result: &Result<T, CoordinatorRuntimeError>)
        ensures
            *final(self) == old(self).counted(runtime_fault(*result)),
    {
        match result {
            Err(CoordinatorRuntimeError::Storage(error)) => match error {
                StorageError::LeadershipLost => {
                    self.leadership_loss_count = self.leadership_loss_count.saturating_add(1);
                },
                StorageError::CompareFailed => {
                    self.commit_conflict_count = self.commit_conflict_count.saturating_add(1);
                },
                StorageError::OutcomeUnknown => {
                    self.unknown_outcome_count = self.unknown_outcome_count.saturating_add(1);
                },
                StorageError::Capacity => {
                    self.capacity_rejection_count = self.capacity_rejection_count.saturating_add(1);
                },
                _ => {},
            },
            _ => {},
        }
    }
}

} // verus!
