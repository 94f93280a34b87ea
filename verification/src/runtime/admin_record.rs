//! The records of administrative operations.
use vstd::prelude::*;

use crate::keymap::Key;
use crate::types::{NodeIncarnation, PlacementVersion, ShardId};

verus! {

/// What an administrative operation came to.
#[allow(inconsistent_fields)]
#[derive(Debug, PartialEq, Eq)]
pub enum AdminOperationResult<S = String> {
    AutomaticBalanceUpdated,
    PlanCreated { plan_id: u128 },
    EvaluationCompleted { plan: Option<u128> },
    PendingMoveCancelled { plan_id: u128, shard_id: ShardId },
    MemberRemoved { node_id: S, incarnation: NodeIncarnation },
}

pub type AdminResultModel = AdminOperationResult<Seq<char>>;

impl View for AdminOperationResult {
    type V = AdminResultModel;

    open spec fn view(&self) -> AdminResultModel {
        match self {
            AdminOperationResult::AutomaticBalanceUpdated =>
                AdminOperationResult::AutomaticBalanceUpdated,
            AdminOperationResult::PlanCreated { plan_id } => AdminOperationResult::PlanCreated {
                plan_id: *plan_id,
            },
            AdminOperationResult::EvaluationCompleted { plan } =>
                AdminOperationResult::EvaluationCompleted { plan: *plan },
            AdminOperationResult::PendingMoveCancelled { plan_id, shard_id } =>
                AdminOperationResult::PendingMoveCancelled {
                plan_id: *plan_id,
                shard_id: *shard_id,
            },
            AdminOperationResult::MemberRemoved { node_id, incarnation } =>
                AdminOperationResult::MemberRemoved {
                node_id: node_id@,
                incarnation: *incarnation,
            },
        }
    }
}

impl Key for AdminOperationResult {
    fn same(&self, other: &Self) -> (same: bool) {
        match (self, other) {
            (
                AdminOperationResult::AutomaticBalanceUpdated,
                AdminOperationResult::AutomaticBalanceUpdated,
            ) => true,
            (
                AdminOperationResult::PlanCreated { plan_id: a },
                AdminOperationResult::PlanCreated { plan_id: b },
            ) => *a == *b,
            (
                AdminOperationResult::EvaluationCompleted { plan: a },
                AdminOperationResult::EvaluationCompleted { plan: b },
            ) => match (a, b) {
                (Some(x), Some(y)) => *x == *y,
                (None, None) => true,
                _ => false,
            },
            (
                AdminOperationResult::PendingMoveCancelled { plan_id: a, shard_id: s },
                AdminOperationResult::PendingMoveCancelled { plan_id: b, shard_id: t },
            ) => *a == *b && *s == *t,
            (
                AdminOperationResult::MemberRemoved { node_id: a, incarnation: i },
                AdminOperationResult::MemberRemoved { node_id: b, incarnation: j },
            ) => a.same(b) && *i == *j,
            _ => false,
        }
    }

    fn copy(&self) -> (copy: Self) {
        match self {
            AdminOperationResult::AutomaticBalanceUpdated =>
                AdminOperationResult::AutomaticBalanceUpdated,
            AdminOperationResult::PlanCreated { plan_id } => AdminOperationResult::PlanCreated {
                plan_id: *plan_id,
            },
            AdminOperationResult::EvaluationCompleted { plan } =>
                AdminOperationResult::EvaluationCompleted { plan: *plan },
            AdminOperationResult::PendingMoveCancelled { plan_id, shard_id } =>
                AdminOperationResult::PendingMoveCancelled {
                plan_id: *plan_id,
                shard_id: *shard_id,
            },
            AdminOperationResult::MemberRemoved { node_id, incarnation } =>
                AdminOperationResult::MemberRemoved {
                node_id: node_id.copy(),
                incarnation: *incarnation,
            },
        }
    }
}

/// How far an operation that is on record has come.
#[derive(Debug, Clone, Copy, PartialEq, Eq, Structural)]
pub enum AdminOperationStatus {
    Completed,
}

/// The durable record of an operation that was carried out.
#[derive(Debug, PartialEq, Eq)]
pub struct AdminOperationRecord<S = String> {
    pub operation_id: S,
    pub fingerprint: S,
    pub status: AdminOperationStatus,
    pub result: AdminOperationResult<S>,
    pub version: PlacementVersion<S>,
    pub created_unix_millis: u64,
    pub expires_unix_millis: u64,
}

pub type AdminRecordModel = AdminOperationRecord<Seq<char>>;

impl View for AdminOperationRecord {
    type V = AdminRecordModel;

    open spec fn view(&self) -> AdminRecordModel {
        AdminOperationRecord {
            operation_id: self.operation_id@,
            fingerprint: self.fingerprint@,
            status: self.status,
            result: self.result@,
            version: self.version@,
            created_unix_millis: self.created_unix_millis,
            expires_unix_millis: self.expires_unix_millis,
        }
    }
}

impl Key for AdminOperationRecord {
    fn same(&self, other: &Self) -> (same: bool) {
        self.operation_id.same(&other.operation_id) && self.fingerprint.same(&other.fingerprint)
            && self.status == other.status && self.result.same(&other.result) && self.version.same(&other.version)
            && self.created_unix_millis == other.created_unix_millis && self.expires_unix_millis
            == other.expires_unix_millis
    }

    fn copy(&self) -> (copy: Self) {
        AdminOperationRecord {
            operation_id: self.operation_id.copy(),
            fingerprint: self.fingerprint.copy(),
            status: self.status,
            result: self.result.copy(),
            version: self.version.copy(),
            created_unix_millis: self.created_unix_millis,
            expires_unix_millis: self.expires_unix_millis,
        }
    }
}

} // verus!
