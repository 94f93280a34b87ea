//! Where a host sends what reaches it over the control lanes.
use vstd::prelude::*;
use vstd::utf8::encode_utf8;

use crate::keymap::{option_view, seq_view, Key};
use crate::plan::lemma_filter_step;
use crate::runtime::control::{CoordinatorScope, ScopeModel};
use crate::runtime::errors::{
    outcome, runtime_fault, ControlDispatchError, ControlRetryReason, CoordinatorRuntimeError,
    RuntimeErrorModel,
};
use crate::runtime::host::{CoordinatorHost, HostModel, LeaderRecord};
use crate::runtime::members::{
    AssociationKey, AssociationModel, MemberHello, MemberHelloModel, MemberRecord, MemberStatus,
    MembershipVersion, RecordModel,
};
use crate::sorted::ranked;
use crate::types::{NodeIncarnation, NodeKey, NodeModel, PlacementDomainId};

verus! {

/// What a host reads of a command. Commands for a domain it hands on as they are.
#[allow(inconsistent_fields)]
pub enum HostCommand<S = String, H = MemberHello> {
    MemberHello(H),
    NodeHeartbeat { incarnation: NodeIncarnation, sequence: u64 },
    JoinReady { snapshot_version: MembershipVersion },
    MembershipDrainComplete {
        operation_id: S,
        node_id: S,
        expected_incarnation: NodeIncarnation,
    },
    PlacementDomainHello,
    Other,
}

pub type HostCommandModel = HostCommand<Seq<char>, MemberHelloModel>;

impl View for HostCommand {
    type V = HostCommandModel;

    open spec fn view(&self) -> HostCommandModel {
        match self {
            HostCommand::MemberHello(hello) => HostCommandModel::MemberHello(hello@),
            HostCommand::NodeHeartbeat { incarnation, sequence } =>
                HostCommandModel::NodeHeartbeat { incarnation: *incarnation, sequence: *sequence },
            HostCommand::JoinReady { snapshot_version } => HostCommandModel::JoinReady {
                snapshot_version: *snapshot_version,
            },
            HostCommand::MembershipDrainComplete { operation_id, node_id, expected_incarnation } =>
                HostCommandModel::MembershipDrainComplete {
                operation_id: operation_id@,
                node_id: node_id@,
                expected_incarnation: *expected_incarnation,
            },
            HostCommand::PlacementDomainHello => HostCommandModel::PlacementDomainHello,
            HostCommand::Other => HostCommandModel::Other,
        }
    }
}

/// What reaches a host.
#[allow(inconsistent_fields)]
pub enum HostEvent<S = String, H = MemberHello> {
    Command {
        association: AssociationKey<S>,
        scope: CoordinatorScope<S>,
        coordinator_term: Option<u64>,
        command: HostCommand<S, H>,
    },
    /// An association is to be reconciled: in every domain, or, where a stream has a gap, in the
    /// domain of the stream.
    Reconcile { association: AssociationKey<S>, gap: Option<u64> },
    GlobalMemberRemoved,
}

pub type HostEventModel = HostEvent<Seq<char>, MemberHelloModel>;

impl View for HostEvent {
    type V = HostEventModel;

    open spec fn view(&self) -> HostEventModel {
        match self {
            HostEvent::Command { association, scope, coordinator_term, command } =>
                HostEventModel::Command {
                association: association@,
                scope: scope@,
                coordinator_term: *coordinator_term,
                command: command@,
            },
            HostEvent::Reconcile { association, gap } => HostEventModel::Reconcile {
                association: association@,
                gap: *gap,
            },
            HostEvent::GlobalMemberRemoved => HostEventModel::GlobalMemberRemoved,
        }
    }
}

/// What is to be done about an event.
#[allow(inconsistent_fields)]
pub enum HostAction<S = String, H = MemberHello, D = Vec<PlacementDomainId>> {
    Refuse(ControlDispatchError),
    AdmitMember { hello: H, association: AssociationKey<S> },
    RenewMember { hello: H },
    CompleteJoin { snapshot_version: MembershipVersion, association: AssociationKey<S> },
    CompleteDrain {
        operation_id: S,
        node_id: S,
        expected_incarnation: NodeIncarnation,
        association: AssociationKey<S>,
    },
    Forward { domain: S },
    ReconcileDomains { domains: D, association: AssociationKey<S>, gap: Option<u64> },
}

pub type HostActionModel = HostAction<Seq<char>, MemberHelloModel, Seq<Seq<char>>>;

impl View for HostAction {
    type V = HostActionModel;

    open spec fn view(&self) -> HostActionModel {
        match self {
            HostAction::Refuse(error) => HostActionModel::Refuse(*error),
            HostAction::AdmitMember { hello, association } => HostActionModel::AdmitMember {
                hello: hello@,
                association: association@,
            },
            HostAction::RenewMember { hello } => HostActionModel::RenewMember { hello: hello@ },
            HostAction::CompleteJoin { snapshot_version, association } =>
                HostActionModel::CompleteJoin {
                snapshot_version: *snapshot_version,
                association: association@,
            },
            HostAction::CompleteDrain {
                operation_id,
                node_id,
                expected_incarnation,
                association,
            } => HostActionModel::CompleteDrain {
                operation_id: operation_id@,
                node_id: node_id@,
                expected_incarnation: *expected_incarnation,
                association: association@,
            },
            HostAction::Forward { domain } => HostActionModel::Forward { domain: domain@ },
            HostAction::ReconcileDomains { domains, association, gap } =>
                HostActionModel::ReconcileDomains {
                domains: seq_view(domains@),
                association: association@,
                gap: *gap,
            },
        }
    }
}

/// Whether a command opens a session, and so comes before its sender can know the term.
pub open spec fn opens_a_session(scope: ScopeModel, command: HostCommandModel) -> bool {
    match scope {
        CoordinatorScope::Membership => command is MemberHello,
        CoordinatorScope::Placement(_) => command is PlacementDomainHello,
    }
}

impl HostModel {
    /// Whether a command was sent under the term under which the host leads its scope.
    pub open spec fn is_current(self, scope: ScopeModel, coordinator_term: Option<u64>) -> bool {
        coordinator_term is Some && self.active_term(scope) == coordinator_term
    }

    /// What becomes of a command for the membership.
    pub open spec fn route_membership(
        self,
        association: AssociationModel,
        command: HostCommandModel,
    ) -> HostActionModel {
        match command {
            HostCommandModel::MemberHello(hello) => HostActionModel::AdmitMember {
                hello,
                association,
            },
            HostCommandModel::NodeHeartbeat { incarnation, sequence } => if incarnation
                == association.remote_incarnation && sequence != 0
                && self.pending_member_hellos.contains_key(incarnation) {
                HostActionModel::RenewMember { hello: self.pending_member_hellos[incarnation] }
            } else {
                HostActionModel::Refuse(ControlDispatchError::InvalidCommand)
            },
            HostCommandModel::JoinReady { snapshot_version } => HostActionModel::CompleteJoin {
                snapshot_version,
                association,
            },
            HostCommandModel::MembershipDrainComplete {
                operation_id,
                node_id,
                expected_incarnation,
            } => HostActionModel::CompleteDrain {
                operation_id,
                node_id,
                expected_incarnation,
                association,
            },
            _ => HostActionModel::Refuse(ControlDispatchError::InvalidCommand),
        }
    }

    /// The domains in which an association is to be reconciled: those with a leader here, and
    /// where a stream has a gap, those of the stream.
    pub open spec fn reconciled(self, gap: Option<u64>) -> Seq<Seq<char>> {
        ranked::<PlacementDomainId>(self.domains.dom()).filter(
            |domain|
                self.runs(domain) && match gap {
                    Some(stream_id) => self.domains[domain].stream_id == stream_id,
                    None => true,
                },
        )
    }

    /// What becomes of an event.
    pub open spec fn route(self, event: HostEventModel) -> HostActionModel {
        match event {
            HostEventModel::Command { association, scope, coordinator_term, command } => if
            !opens_a_session(scope, command) && !self.is_current(scope, coordinator_term) {
                HostActionModel::Refuse(ControlDispatchError::InvalidCommand)
            } else {
                match scope {
                    CoordinatorScope::Membership => self.route_membership(association, command),
                    CoordinatorScope::Placement(domain) => if self.runs(domain) {
                        HostActionModel::Forward { domain }
                    } else {
                        HostActionModel::Refuse(
                            ControlDispatchError::RetryLater(
                                ControlRetryReason::AssociationStarting,
                            ),
                        )
                    },
                }
            },
            HostEventModel::Reconcile { association, gap } => HostActionModel::ReconcileDomains {
                domains: self.reconciled(gap),
                association,
                gap,
            },
            HostEventModel::GlobalMemberRemoved => HostActionModel::Refuse(
                ControlDispatchError::InvalidCommand,
            ),
        }
    }
}

impl CoordinatorHost {
    /// Decides what becomes of an event. A greeting opens a session anew after an election, so it
    /// is heard under any term. Every other command has to come under the term of its scope: one
    /// of an older term is fenced, rather than retried, so that it does not hold up the commands
    /// behind it.
    pub fn route_control(&self, event: HostEvent) -> (action: HostAction)
        ensures
            action@ == self@.route(event@),
    {
        match event {
            HostEvent::Command { association, scope, coordinator_term, command } => {
                let opens = match (&scope, &command) {
                    (CoordinatorScope::Membership, HostCommand::MemberHello(_)) => true,
                    (CoordinatorScope::Placement(_), HostCommand::PlacementDomainHello) => true,
                    _ => false,
                };
                if !opens {
                    let current = match (coordinator_term, self.active_term(&scope)) {
                        (Some(received), Some(expected)) => received == expected,
                        _ => false,
                    };
                    if !current {
                        return HostAction::Refuse(ControlDispatchError::InvalidCommand);
                    }
                }
                match scope {
                    CoordinatorScope::Membership => self.route_to_membership(association, command),
                    CoordinatorScope::Placement(domain) => {
                        if self.runs(&domain) {
                            HostAction::Forward { domain }
                        } else {
                            HostAction::Refuse(
                                ControlDispatchError::RetryLater(
                                    ControlRetryReason::AssociationStarting,
                                ),
                            )
                        }
                    },
                }
            },
            HostEvent::Reconcile { association, gap } => HostAction::ReconcileDomains {
                domains: self.domains_to_reconcile(gap),
                association,
                gap,
            },
            HostEvent::GlobalMemberRemoved => HostAction::Refuse(
                ControlDispatchError::InvalidCommand,
            ),
        }
    }

    fn route_to_membership(&self, association: AssociationKey, command: HostCommand) -> (action:
        HostAction)
        ensures
            action@ == self@.route_membership(association@, command@),
    {
        match command {
            HostCommand::MemberHello(hello) => HostAction::AdmitMember { hello, association },
            HostCommand::NodeHeartbeat { incarnation, sequence } => {
                if incarnation != association.remote_incarnation || sequence == 0 {
                    return HostAction::Refuse(ControlDispatchError::InvalidCommand);
                }
                match self.pending_member_hellos.get(&incarnation) {
                    Some(hello) => HostAction::RenewMember { hello: hello.copy() },
                    None => HostAction::Refuse(ControlDispatchError::InvalidCommand),
                }
            },
            HostCommand::JoinReady { snapshot_version } => HostAction::CompleteJoin {
                snapshot_version,
                association,
            },
            HostCommand::MembershipDrainComplete { operation_id, node_id, expected_incarnation } =>
            HostAction::CompleteDrain { operation_id, node_id, expected_incarnation, association },
            HostCommand::PlacementDomainHello => HostAction::Refuse(
                ControlDispatchError::InvalidCommand,
            ),
            HostCommand::Other => HostAction::Refuse(ControlDispatchError::InvalidCommand),
        }
    }

    fn domains_to_reconcile(&self, gap: Option<u64>) -> (domains: Vec<PlacementDomainId>)
        ensures
            seq_view(domains@) == self@.reconciled(gap),
    {
        let len = self.domains.len();
        let mut domains: Vec<PlacementDomainId> = Vec::new();
        let mut i: usize = 0;
        let ghost list = ranked::<PlacementDomainId>(self.domains@.dom());
        let ghost p = |domain: Seq<char>|
            self@.runs(domain) && match gap {
                Some(stream_id) => self@.domains[domain].stream_id == stream_id,
                None => true,
            };
        assert(list.subrange(0, 0).filter(p) =~= Seq::<Seq<char>>::empty()) by {
            reveal(Seq::filter);
        }
        while i < len
            invariant
                i <= len,
                len == list.len(),
                list == ranked::<PlacementDomainId>(self.domains@.dom()),
                p == |domain: Seq<char>|
                    self@.runs(domain) && match gap {
                        Some(stream_id) => self@.domains[domain].stream_id == stream_id,
                        None => true,
                    },
                seq_view(domains@) == list.subrange(0, i as int).filter(p),
            decreases len - i,
        {
            let (domain, hosted) = self.domains.entry_at(i);
            let ghost before = seq_view(domains@);
            proof {
                lemma_filter_step(list, p, i as int);
            }
            let concerned = match gap {
                Some(stream_id) => hosted.stream_id == stream_id,
                None => true,
            };
            if hosted.running && concerned {
                domains.push(domain.copy());
                assert(seq_view(domains@) =~= before.push(domain@));
            }
            i = i + 1;
        }
        assert(list.subrange(0, i as int) =~= list);
        domains
    }
}

/// What came of handing an event to the queue of a domain.
#[derive(Debug, Clone, Copy, PartialEq, Eq, Structural)]
pub enum Delivery {
    Accepted,
    Full,
    Closed,
}

/// How a command that could not be handed on is answered. The host waits on no domain: where a
/// queue is full, the sender is to come again.
pub fn route_error(delivery: Delivery) -> (answer: Option<ControlDispatchError>)
    ensures
        answer == match delivery {
            Delivery::Accepted => None,
            Delivery::Full => Some(
                ControlDispatchError::RetryLater(ControlRetryReason::ConsumerBusy),
            ),
            Delivery::Closed => Some(ControlDispatchError::Unavailable),
        },
{
    match delivery {
        Delivery::Accepted => None,
        Delivery::Full => Some(ControlDispatchError::RetryLater(ControlRetryReason::ConsumerBusy)),
        Delivery::Closed => Some(ControlDispatchError::Unavailable),
    }
}

/// How a reconciliation is answered, once it was handed to the domains in order.
pub fn reconcile_error(deliveries: &Vec<Delivery>) -> (answer: Option<ControlDispatchError>)
    ensures
        answer == if forall|i: int|
            0 <= i < deliveries.len() ==> #[trigger] deliveries@[i] == Delivery::Accepted {
            None
        } else {
            Some(ControlDispatchError::RetryLater(ControlRetryReason::ConsumerBusy))
        },
{
    let mut i: usize = 0;
    while i < deliveries.len()
        invariant
            i <= deliveries.len(),
            forall|j: int| 0 <= j < i ==> #[trigger] deliveries@[j] == Delivery::Accepted,
        decreases deliveries.len() - i,
    {
        if deliveries[i] != Delivery::Accepted {
            return Some(ControlDispatchError::RetryLater(ControlRetryReason::ConsumerBusy));
        }
        i = i + 1;
    }
    None
}

/// How the removal of a member from a domain ends that could not be handed on.
pub open spec fn removal_fault(delivery: Delivery) -> Option<RuntimeErrorModel> {
    match delivery {
        Delivery::Accepted => None,
        Delivery::Full => Some(RuntimeErrorModel::ControlBackpressure),
        Delivery::Closed => Some(RuntimeErrorModel::ControlClosed),
    }
}

pub fn removal_result(delivery: Delivery) -> (result: Result<(), CoordinatorRuntimeError>)
    ensures
        runtime_fault(result) == removal_fault(delivery),
{
    match delivery {
        Delivery::Accepted => Ok(()),
        Delivery::Full => Err(CoordinatorRuntimeError::ControlBackpressure),
        Delivery::Closed => Err(CoordinatorRuntimeError::ControlClosed),
    }
}

/// What a member that the leader of the membership joined is to be told.
pub fn check_joined(status: MemberStatus) -> (result: Result<(), CoordinatorRuntimeError>)
    ensures
        runtime_fault(result) == if status == MemberStatus::Leaving {
            Some(RuntimeErrorModel::StaleMember)
        } else {
            None
        },
{
    match status {
        MemberStatus::Joining => Ok(()),
        MemberStatus::Up => Ok(()),
        MemberStatus::Leaving => Err(CoordinatorRuntimeError::StaleMember),
    }
}

/// The lease of a member that a host which does not lead the membership may keep alive: only a
/// member that is up, and stored as it declares itself.
pub open spec fn renewable_lease(
    hello: MemberHelloModel,
    stored: Option<RecordModel>,
) -> Result<i64, RuntimeErrorModel> {
    match stored {
        Some(record) => if record.answers(hello) && record.status == MemberStatus::Up {
            Ok(record.lease_id)
        } else {
            Err(RuntimeErrorModel::NotLeader)
        },
        None => Err(RuntimeErrorModel::NotLeader),
    }
}

pub fn lease_to_keep(hello: &MemberHello, stored: &Option<MemberRecord>) -> (result: Result<
    i64,
    CoordinatorRuntimeError,
>)
    ensures
        match result {
            Ok(lease_id) => renewable_lease(hello@, option_view(*stored)) == Ok::<
                _,
                RuntimeErrorModel,
            >(lease_id),
            Err(error) => renewable_lease(hello@, option_view(*stored)) == Err::<i64, _>(error@),
        },
{
    match stored {
        Some(record) => if record.answers(hello) && record.status == MemberStatus::Up {
            Ok(record.lease_id)
        } else {
            Err(CoordinatorRuntimeError::NotLeader)
        },
        None => Err(CoordinatorRuntimeError::NotLeader),
    }
}

/// What is left to do before a join is complete.
#[derive(Debug, Clone, Copy, PartialEq, Eq, Structural)]
pub enum JoinStep {
    MarkUp,
    AlreadyUp,
}

/// What is left to do before a drain is complete.
#[derive(Debug, Clone, Copy, PartialEq, Eq, Structural)]
pub enum DrainStep {
    /// The member leaves and is then removed.
    LeaveAndRemove,
    /// The member was leaving, and is removed.
    Remove,
    /// No such member is stored: it was removed before, so that nothing is left to do.
    AlreadyRemoved,
}

impl HostModel {
    /// The declaration of the member that a ready message speaks of, if the host knows it under
    /// the association and leads the membership at what the member has seen.
    pub open spec fn joining_member(
        self,
        snapshot_version: MembershipVersion,
        association: AssociationModel,
    ) -> Result<MemberHelloModel, RuntimeErrorModel> {
        let incarnation = association.remote_incarnation;
        if !self.membership_associations.contains_key(incarnation)
            || self.membership_associations[incarnation] != association {
            Err(RuntimeErrorModel::StaleMember)
        } else if !self.pending_member_hellos.contains_key(incarnation)
            || self.pending_member_hellos[incarnation].node.incarnation != incarnation
            || self.pending_member_hellos[incarnation].node.address != association.remote_address {
            Err(RuntimeErrorModel::StaleMember)
        } else {
            match self.membership_version {
                None => Err(RuntimeErrorModel::NotLeader),
                Some(version) => if version.before(snapshot_version) {
                    Err(RuntimeErrorModel::StaleMember)
                } else {
                    Ok(self.pending_member_hellos[incarnation])
                },
            }
        }
    }

    /// Why the request to remove a drained member is refused before the store is asked.
    pub open spec fn drain_fault(
        self,
        operation_id: Seq<char>,
        expected_incarnation: NodeIncarnation,
        valid_node: bool,
        association: AssociationModel,
    ) -> Option<RuntimeErrorModel> {
        let length = encode_utf8(operation_id).len();
        if length == 0 || length > 256 || association.remote_incarnation != expected_incarnation
            || !valid_node {
            Some(RuntimeErrorModel::StaleMember)
        } else if self.membership_version is None {
            Some(RuntimeErrorModel::NotLeader)
        } else {
            None
        }
    }

    /// What is left of a drain, by what is stored of the member.
    pub open spec fn drain_step(
        self,
        node: NodeModel,
        association: AssociationModel,
        stored: Option<RecordModel>,
    ) -> Result<DrainStep, RuntimeErrorModel> {
        match stored {
            None => Ok(DrainStep::AlreadyRemoved),
            Some(record) => if record.node.incarnation != node.incarnation {
                Ok(DrainStep::AlreadyRemoved)
            } else if record.node != node || !self.membership_associations.contains_key(
                node.incarnation,
            ) || self.membership_associations[node.incarnation] != association {
                Err(RuntimeErrorModel::StaleMember)
            } else {
                match record.status {
                    MemberStatus::Joining => Err(RuntimeErrorModel::MemberNotReady),
                    MemberStatus::Up => Ok(DrainStep::LeaveAndRemove),
                    MemberStatus::Leaving => Ok(DrainStep::Remove),
                }
            },
        }
    }

    /// The host once it knows a member under an association.
    pub open spec fn knowing(
        self,
        hello: MemberHelloModel,
        association: AssociationModel,
    ) -> HostModel {
        HostModel {
            pending_member_hellos: self.pending_member_hellos.insert(
                association.remote_incarnation,
                hello,
            ),
            membership_associations: self.membership_associations.insert(
                association.remote_incarnation,
                association,
            ),
            ..self
        }
    }

    /// The host once it has forgotten a member.
    pub open spec fn forgetting(self, incarnation: NodeIncarnation) -> HostModel {
        HostModel {
            pending_member_hellos: self.pending_member_hellos.remove(incarnation),
            membership_associations: self.membership_associations.remove(incarnation),
            ..self
        }
    }
}

/// What becomes of a join, by what is stored of the member.
pub open spec fn join_step(
    hello: MemberHelloModel,
    stored: Option<RecordModel>,
) -> Result<JoinStep, RuntimeErrorModel> {
    match stored {
        None => Err(RuntimeErrorModel::StaleMember),
        Some(record) => if !record.answers(hello) {
            Err(RuntimeErrorModel::StaleMember)
        } else {
            match record.status {
                MemberStatus::Joining => Ok(JoinStep::MarkUp),
                MemberStatus::Up => Ok(JoinStep::AlreadyUp),
                MemberStatus::Leaving => Err(RuntimeErrorModel::StaleMember),
            }
        },
    }
}

impl CoordinatorHost {
    /// Notes that a member was admitted under an association.
    pub fn note_member(&mut self, hello: MemberHello, association: &AssociationKey)
        ensures
            final(self)@ == old(self)@.knowing(hello@, association@),
    {
        self.pending_member_hellos.insert(association.remote_incarnation, hello);
        self.membership_associations.insert(association.remote_incarnation, association.copy());
        assert(self@ =~= old(self)@.knowing(hello@, association@));
    }

    /// Forgets a member, so that a heartbeat which is still under way cannot bring it back.
    pub fn forget_member(&mut self, incarnation: NodeIncarnation)
        ensures
            final(self)@ == old(self)@.forgetting(incarnation),
    {
        let _ = self.pending_member_hellos.remove(&incarnation);
        let _ = self.membership_associations.remove(&incarnation);
        assert(self@ =~= old(self)@.forgetting(incarnation));
    }

    fn is_under(&self, incarnation: NodeIncarnation, association: &AssociationKey) -> (known: bool)
        ensures
            known == (self@.membership_associations.contains_key(incarnation)
                && self@.membership_associations[incarnation] == association@),
    {
        match self.membership_associations.get(&incarnation) {
            Some(known) => known.same(association),
            None => false,
        }
    }

    /// Finds the member that a ready message speaks of.
    pub fn find_joining_member(
        &self,
        snapshot_version: MembershipVersion,
        association: &AssociationKey,
    ) -> (result: Result<MemberHello, CoordinatorRuntimeError>)
        ensures
            outcome(result) == self@.joining_member(snapshot_version, association@),
    {
        let incarnation = association.remote_incarnation;
        if !self.is_under(incarnation, association) {
            return Err(CoordinatorRuntimeError::StaleMember);
        }
        let hello = match self.pending_member_hellos.get(&incarnation) {
            Some(hello) => hello,
            None => {
                return Err(CoordinatorRuntimeError::StaleMember);
            },
        };
        if hello.node.incarnation != incarnation || !hello.node.address.same(
            &association.remote_address,
        ) {
            return Err(CoordinatorRuntimeError::StaleMember);
        }
        match self.membership_version {
            None => Err(CoordinatorRuntimeError::NotLeader),
            Some(version) => if version.satisfies(snapshot_version) {
                Ok(hello.copy())
            } else {
                Err(CoordinatorRuntimeError::StaleMember)
            },
        }
    }

    /// Checks the request to remove a drained member before the store is asked.
    pub fn check_drain(
        &self,
        operation_id: &String,
        expected_incarnation: NodeIncarnation,
        valid_node: bool,
        association: &AssociationKey,
    ) -> (result: Result<(), CoordinatorRuntimeError>)
        ensures
            runtime_fault(result) == self@.drain_fault(
                operation_id@,
                expected_incarnation,
                valid_node,
                association@,
            ),
    {
        let length = operation_id.as_str().as_bytes().len();
        if length == 0 || length > 256 || association.remote_incarnation != expected_incarnation
            || !valid_node {
            return Err(CoordinatorRuntimeError::StaleMember);
        }
        match self.membership_version {
            None => Err(CoordinatorRuntimeError::NotLeader),
            Some(_) => Ok(()),
        }
    }

    /// Decides what is left of a drain. What is stored no longer was removed before: whoever asks
    /// again, because the answer was lost, is answered the same, and a newer incarnation of the
    /// node is left alone.
    pub fn decide_drain(
        &self,
        node: &NodeKey,
        association: &AssociationKey,
        stored: &Option<MemberRecord>,
    ) -> (result: Result<DrainStep, CoordinatorRuntimeError>)
        ensures
            match result {
                Ok(step) => self@.drain_step(node@, association@, option_view(*stored)) == Ok::<
                    _,
                    RuntimeErrorModel,
                >(step),
                Err(error) => self@.drain_step(node@, association@, option_view(*stored)) == Err::<
                    DrainStep,
                    _,
                >(error@),
            },
    {
        let record = match stored {
            None => {
                return Ok(DrainStep::AlreadyRemoved);
            },
            Some(record) => record,
        };
        if record.node.incarnation != node.incarnation {
            return Ok(DrainStep::AlreadyRemoved);
        }
        if !record.node.same(node) || !self.is_under(node.incarnation, association) {
            return Err(CoordinatorRuntimeError::StaleMember);
        }
        match record.status {
            MemberStatus::Joining => Err(CoordinatorRuntimeError::MemberNotReady),
            MemberStatus::Up => Ok(DrainStep::LeaveAndRemove),
            MemberStatus::Leaving => Ok(DrainStep::Remove),
        }
    }
}

/// Decides what becomes of a join.
pub fn decide_join(hello: &MemberHello, stored: &Option<MemberRecord>) -> (result: Result<
    JoinStep,
    CoordinatorRuntimeError,
>)
    ensures
        match result {
            Ok(step) => join_step(hello@, option_view(*stored)) == Ok::<_, RuntimeErrorModel>(step),
            Err(error) => join_step(hello@, option_view(*stored)) == Err::<JoinStep, _>(error@),
        },
{
    match stored {
        None => Err(CoordinatorRuntimeError::StaleMember),
        Some(record) => if !record.answers(hello) {
            Err(CoordinatorRuntimeError::StaleMember)
        } else {
            match record.status {
                MemberStatus::Joining => Ok(JoinStep::MarkUp),
                MemberStatus::Up => Ok(JoinStep::AlreadyUp),
                MemberStatus::Leaving => Err(CoordinatorRuntimeError::StaleMember),
            }
        },
    }
}

/// Checks that the leadership of the membership is still the one under which a drain was done.
pub fn confirm_leader(leader: &LeaderRecord, stored: &Option<LeaderRecord>) -> (result: Result<
    (),
    CoordinatorRuntimeError,
>)
    ensures
        runtime_fault(result) == if option_view(*stored) == Some(leader@) {
            None
        } else {
            Some(RuntimeErrorModel::NotLeader)
        },
{
    match stored {
        Some(found) => if found.same(leader) {
            Ok(())
        } else {
            Err(CoordinatorRuntimeError::NotLeader)
        },
        None => Err(CoordinatorRuntimeError::NotLeader),
    }
}

/// No command but a greeting passes a host under another term than that of its scope, nor where
/// the host does not lead the scope.
pub proof fn law_stale_terms_are_fenced(
    host: HostModel,
    association: AssociationModel,
    scope: ScopeModel,
    coordinator_term: Option<u64>,
    command: HostCommandModel,
)
    requires
        !opens_a_session(scope, command),
        host.active_term(scope) is None || host.active_term(scope) != coordinator_term,
    ensures
        host.route(HostEventModel::Command { association, scope, coordinator_term, command })
            == HostActionModel::Refuse(ControlDispatchError::InvalidCommand),
{
}

/// A greeting is heard under any term.
pub proof fn law_greetings_pass_every_term(
    host: HostModel,
    association: AssociationModel,
    scope: ScopeModel,
    one: Option<u64>,
    other: Option<u64>,
    command: HostCommandModel,
)
    requires
        opens_a_session(scope, command),
    ensures
        host.route(
            HostEventModel::Command { association, scope, coordinator_term: one, command },
        ) == host.route(
            HostEventModel::Command { association, scope, coordinator_term: other, command },
        ),
{
}

/// A member that was forgotten is not renewed by a heartbeat that was under way.
pub proof fn law_a_forgotten_member_stays_away(
    host: HostModel,
    association: AssociationModel,
    coordinator_term: Option<u64>,
    incarnation: NodeIncarnation,
    sequence: u64,
)
    ensures
        host.forgetting(incarnation).route(
            HostEventModel::Command {
                association,
                scope: CoordinatorScope::Membership,
                coordinator_term,
                command: HostCommandModel::NodeHeartbeat { incarnation, sequence },
            },
        ) == HostActionModel::Refuse(ControlDispatchError::InvalidCommand),
{
}

} // verus!
