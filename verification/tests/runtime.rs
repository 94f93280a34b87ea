//! The runtime of a coordinator: leases, elections, errors.
use lattice_placement::runtime::control::CoordinatorScope;
use lattice_placement::runtime::election::{candidate_delay_duration, next_term};
use lattice_placement::runtime::errors::{
    answer_shard_resolution, answer_singleton_resolution, conclude_run, control_dispatch_error,
    declined_automatic_round, error_cause, AllocationError, ControlDispatchError,
    CoordinatorRuntimeError, StorageCounters, StorageError,
};
use lattice_placement::runtime::renewal::{
    classify_lease_renewal, reconciliation_jitter, LeaseRenewal,
};
use lattice_placement::time::TimeSpan;
use lattice_placement::types::{CoordinatorTerm, NodeAddress, NodeIncarnation, NodeKey};

#[test]
fn only_transient_lease_failures_are_retried_and_only_inside_the_lease_budget() {
    let renewal = TimeSpan::from_secs(4);
    let budget = TimeSpan::from_secs(4);
    assert_eq!(
        classify_lease_renewal(&StorageError::Deadline, budget, renewal, 0),
        LeaseRenewal::Retry(TimeSpan::from_millis(250))
    );
    assert_eq!(
        classify_lease_renewal(&StorageError::Unavailable, budget, renewal, 3),
        LeaseRenewal::Retry(TimeSpan::from_secs(2))
    );
    assert_eq!(
        classify_lease_renewal(
            &StorageError::Deadline,
            TimeSpan::from_millis(20),
            renewal,
            4
        ),
        LeaseRenewal::Retry(TimeSpan::from_millis(20))
    );
    assert_eq!(
        classify_lease_renewal(&StorageError::Deadline, TimeSpan::zero(), renewal, 0),
        LeaseRenewal::Surrender
    );
    assert_eq!(
        classify_lease_renewal(&StorageError::LeadershipLost, budget, renewal, 0),
        LeaseRenewal::Surrender
    );
    assert_eq!(
        classify_lease_renewal(&StorageError::CompareFailed, budget, renewal, 0),
        LeaseRenewal::Surrender
    );
}

#[test]
fn automatic_rebalance_separates_declined_rounds_from_actionable_failures() {
    let paused: CoordinatorRuntimeError =
        CoordinatorRuntimeError::Allocation(AllocationError::AutomaticPaused);
    let stale: CoordinatorRuntimeError =
        CoordinatorRuntimeError::Allocation(AllocationError::StaleLoad);
    assert!(declined_automatic_round(&paused));
    assert!(!declined_automatic_round(&stale));
    assert!(!declined_automatic_round(
        &CoordinatorRuntimeError::Storage(StorageError::Unavailable)
    ));
}

#[test]
fn a_rejected_command_reports_which_gate_refused_it_and_not_only_its_category() {
    let rejected: CoordinatorRuntimeError =
        CoordinatorRuntimeError::Allocation(AllocationError::InvalidView);
    assert_eq!(
        rejected.message(),
        "allocation strategy rejected the placement view: placement view is invalid"
    );
    assert_eq!(error_cause(&rejected), "placement view is invalid");
    assert_eq!(error_cause(&CoordinatorRuntimeError::DrainNotReady), "none");
}

#[test]
fn candidate_preference_is_deterministic_scoped_and_bounded() {
    let local = NodeKey {
        node_id: "candidate".to_string(),
        address: NodeAddress { host: "127.0.0.1".to_string(), port: 33009 },
        incarnation: NodeIncarnation::new(9).unwrap(),
    };
    let maximum = TimeSpan::from_millis(10_000);
    let membership = candidate_delay_duration(&CoordinatorScope::Membership, &local, maximum);
    let membership_again =
        candidate_delay_duration(&CoordinatorScope::Membership, &local, maximum);
    let placement = candidate_delay_duration(
        &CoordinatorScope::Placement("candidate-domain".to_string()),
        &local,
        maximum,
    );

    assert_eq!(membership, membership_again);
    assert!(membership <= maximum);
    assert!(placement <= maximum);
    assert_ne!(membership, placement);
    assert_eq!(
        candidate_delay_duration(&CoordinatorScope::Membership, &local, TimeSpan::zero()),
        TimeSpan::zero()
    );
}

#[test]
fn terms_follow_one_another_until_they_are_exhausted() {
    assert_eq!(next_term(0), Ok(CoordinatorTerm::new(1).unwrap()));
    assert_eq!(next_term(41), Ok(CoordinatorTerm::new(42).unwrap()));
    assert_eq!(next_term(u64::MAX), Err(CoordinatorRuntimeError::RevisionExhausted));
}

#[test]
fn reconciliations_are_offset_by_the_term() {
    let term = CoordinatorTerm::new(1_003).unwrap();
    assert_eq!(reconciliation_jitter(term, TimeSpan::from_millis(400)), 3);
    assert_eq!(reconciliation_jitter(term, TimeSpan::zero()), 0);
}

#[test]
fn errors_are_blamed_and_counted() {
    assert_eq!(
        control_dispatch_error(&CoordinatorRuntimeError::UnknownSession),
        ControlDispatchError::InvalidCommand
    );
    assert_eq!(
        control_dispatch_error(&CoordinatorRuntimeError::NotLeader),
        ControlDispatchError::Unavailable
    );
    let mut counters = StorageCounters::new();
    counters.observe_operation_result::<()>(&Err(CoordinatorRuntimeError::Storage(
        StorageError::LeadershipLost,
    )));
    counters.observe_operation_result::<()>(&Err(CoordinatorRuntimeError::Storage(
        StorageError::Capacity,
    )));
    counters.observe_operation_result(&Ok(()));
    assert_eq!(counters.leadership_loss_count, 1);
    assert_eq!(counters.capacity_rejection_count, 1);
    assert_eq!(counters.commit_conflict_count, 0);
    assert_eq!(counters.unknown_outcome_count, 0);
}

#[test]
fn nodes_are_answered_with_what_they_have_not_been_told() {
    let none = || CoordinatorRuntimeError::Allocation(AllocationError::NoEligibleNode);
    assert_eq!(answer_shard_resolution(Ok(true)), Ok(false));
    assert_eq!(answer_shard_resolution(Ok(false)), Ok(true));
    assert_eq!(answer_shard_resolution(Err(none())), Ok(false));
    assert_eq!(
        answer_shard_resolution(Err(CoordinatorRuntimeError::IneligibleTarget)),
        Ok(false)
    );
    assert_eq!(
        answer_shard_resolution(Err(CoordinatorRuntimeError::UnknownStrategy)),
        Err(CoordinatorRuntimeError::UnknownStrategy)
    );
    assert_eq!(answer_singleton_resolution(Ok(false)), Ok(true));
    assert_eq!(answer_singleton_resolution(Err(none())), Err(none()));
    assert_eq!(
        answer_singleton_resolution(Err(CoordinatorRuntimeError::IneligibleTarget)),
        Ok(false)
    );
}

#[test]
fn a_stopped_leader_reports_what_stopped_it_first() {
    let lost = || CoordinatorRuntimeError::Storage(StorageError::LeadershipLost);
    assert_eq!(conclude_run(Ok(()), Ok(())), Ok(()));
    assert_eq!(conclude_run(Err(lost()), Err(StorageError::Deadline)), Err(lost()));
    assert_eq!(
        conclude_run(Ok(()), Err(StorageError::Deadline)),
        Err(CoordinatorRuntimeError::Storage(StorageError::Deadline))
    );
}
