//! What a leader makes of the commands of its members.
use vstd::prelude::*;

use crate::keymap::{option_view, seq_view, Key};
use crate::plan::lemma_filter_step;
use crate::ranking::SessionShard;
use crate::runtime::errors::{outcome, CoordinatorRuntimeError, RuntimeErrorModel};
use crate::runtime::handoff::{HandoffEvent, HandoffEventModel};
use crate::runtime::members::{
    AssociationKey, AssociationModel, HelloModel, MembershipVersion, NodeHello, SessionModel,
};
use crate::runtime::state::{LeaderModel, CoordinatorLeader};
use crate::sorted::ranked;
use crate::time::{MonotonicTime, TimeSpan};
use crate::types::{
    version_later, AssignmentGeneration, EntityType, NodeIncarnation, NodeKey, NodeModel,
    PlacementSlotKey, PlacementVersion, ShardId, SingletonKind, SlotKeyModel, VersionModel,
};

verus! {

/// What a coordinator leads.
#[derive(Debug, PartialEq, Eq)]
pub enum CoordinatorScope<S = String> {
    Membership,
    Placement(S),
}

pub type ScopeModel = CoordinatorScope<Seq<char>>;

impl View for CoordinatorScope {
    type V = ScopeModel;

    open spec fn view(&self) -> ScopeModel {
        match self {
            CoordinatorScope::Membership => CoordinatorScope::Membership,
            CoordinatorScope::Placement(domain) => CoordinatorScope::Placement(domain@),
        }
    }
}

impl Key for CoordinatorScope {
    fn same(&self, other: &Self) -> (same: bool) {
        match (self, other) {
            (CoordinatorScope::Membership, CoordinatorScope::Membership) => true,
            (CoordinatorScope::Placement(a), CoordinatorScope::Placement(b)) => a.same(b),
            _ => false,
        }
    }

    fn copy(&self) -> (copy: Self) {
        match self {
            CoordinatorScope::Membership => CoordinatorScope::Membership,
            CoordinatorScope::Placement(domain) => CoordinatorScope::Placement(domain.copy()),
        }
    }
}

/// Why a member leaves the cluster.
#[derive(Debug, Clone, Copy, PartialEq, Eq, Structural)]
pub enum MemberRemovalReason {
    FailureDetected,
    ForceRemoved,
    GracefulLeave,
}

/// A command of the control protocol.
#[allow(inconsistent_fields)]
pub enum PlacementControlCommand<S = String, H = NodeHello> {
    NodeHello(H),
    MemberHello,
    PlacementDomainHello(H),
    NodeHeartbeat { incarnation: NodeIncarnation, sequence: u64 },
    JoinReady { snapshot_version: MembershipVersion },
    AppliedRevision(PlacementVersion<S>),
    NodeLoad { node: NodeKey<S> },
    ShardLoad { node: NodeKey<S>, entity_type: S, shard_id: ShardId },
    SubscribeEntity(S),
    SubscribeSingleton(S),
    SlotDrained { slot: PlacementSlotKey<S>, generation: AssignmentGeneration },
    SlotStopFailed { slot: PlacementSlotKey<S>, generation: AssignmentGeneration },
    SlotReady { slot: PlacementSlotKey<S>, generation: AssignmentGeneration },
    BeginDrain { operation_id: S, expected_incarnation: NodeIncarnation },
    DrainComplete { operation_id: S, expected_incarnation: NodeIncarnation },
    ResolveShard { domain: S, entity_type: S, shard_id: ShardId },
    ResolveSingleton { domain: S, kind: S },
    /// What no leader of placement takes: snapshots, deltas, grants and orders, which only a
    /// coordinator sends, and what is for the membership of the cluster.
    Other,
}

pub type CommandModel = PlacementControlCommand<Seq<char>, HelloModel>;

impl View for PlacementControlCommand {
    type V = CommandModel;

    open spec fn view(&self) -> CommandModel {
        match self {
            PlacementControlCommand::NodeHello(hello) => CommandModel::NodeHello(hello@),
            PlacementControlCommand::MemberHello => CommandModel::MemberHello,
            PlacementControlCommand::PlacementDomainHello(hello) =>
                CommandModel::PlacementDomainHello(hello@),
            PlacementControlCommand::NodeHeartbeat { incarnation, sequence } =>
                CommandModel::NodeHeartbeat { incarnation: *incarnation, sequence: *sequence },
            PlacementControlCommand::JoinReady { snapshot_version } => CommandModel::JoinReady {
                snapshot_version: *snapshot_version,
            },
            PlacementControlCommand::AppliedRevision(version) => CommandModel::AppliedRevision(
                version@,
            ),
            PlacementControlCommand::NodeLoad { node } => CommandModel::NodeLoad { node: node@ },
            PlacementControlCommand::ShardLoad { node, entity_type, shard_id } =>
                CommandModel::ShardLoad {
                node: node@,
                entity_type: entity_type@,
                shard_id: *shard_id,
            },
            PlacementControlCommand::SubscribeEntity(entity_type) => CommandModel::SubscribeEntity(
                entity_type@,
            ),
            PlacementControlCommand::SubscribeSingleton(kind) => CommandModel::SubscribeSingleton(
                kind@,
            ),
            PlacementControlCommand::SlotDrained { slot, generation } =>
                CommandModel::SlotDrained { slot: slot@, generation: *generation },
            PlacementControlCommand::SlotStopFailed { slot, generation } =>
                CommandModel::SlotStopFailed { slot: slot@, generation: *generation },
            PlacementControlCommand::SlotReady { slot, generation } => CommandModel::SlotReady {
                slot: slot@,
                generation: *generation,
            },
            PlacementControlCommand::BeginDrain { operation_id, expected_incarnation } =>
                CommandModel::BeginDrain {
                operation_id: operation_id@,
                expected_incarnation: *expected_incarnation,
            },
            PlacementControlCommand::DrainComplete { operation_id, expected_incarnation } =>
                CommandModel::DrainComplete {
                operation_id: operation_id@,
                expected_incarnation: *expected_incarnation,
            },
            PlacementControlCommand::ResolveShard { domain, entity_type, shard_id } =>
                CommandModel::ResolveShard {
                domain: domain@,
                entity_type: entity_type@,
                shard_id: *shard_id,
            },
            PlacementControlCommand::ResolveSingleton { domain, kind } =>
                CommandModel::ResolveSingleton { domain: domain@, kind: kind@ },
            PlacementControlCommand::Other => CommandModel::Other,
        }
    }
}

/// What reaches a leader.
#[allow(inconsistent_fields)]
pub enum ControlEvent<S = String, H = NodeHello> {
    GlobalMemberRemoved { node: NodeKey<S>, reason: MemberRemovalReason },
    Reconcile { association: AssociationKey<S> },
    Command {
        association: AssociationKey<S>,
        scope: CoordinatorScope<S>,
        command: PlacementControlCommand<S, H>,
    },
}

pub type EventModel = ControlEvent<Seq<char>, HelloModel>;

impl View for ControlEvent {
    type V = EventModel;

    open spec fn view(&self) -> EventModel {
        match self {
            ControlEvent::GlobalMemberRemoved { node, reason } =>
                EventModel::GlobalMemberRemoved { node: node@, reason: *reason },
            ControlEvent::Reconcile { association } => EventModel::Reconcile {
                association: association@,
            },
            ControlEvent::Command { association, scope, command } => EventModel::Command {
                association: association@,
                scope: scope@,
                command: command@,
            },
        }
    }
}

/// What is to be done about an event.
#[allow(inconsistent_fields)]
pub enum ControlAction<S = String, H = NodeHello, K = Vec<PlacementSlotKey>, T = Vec<EntityType>> {
    Nothing,
    RemoveMember { node: NodeKey<S>, reason: MemberRemovalReason },
    SendSnapshot { hello: H, association: AssociationKey<S> },
    Register { hello: H, association: AssociationKey<S> },
    KeepLease { lease_id: i64 },
    MarkMemberUp {
        incarnation: NodeIncarnation,
        snapshot_version: MembershipVersion,
        association: AssociationKey<S>,
    },
    /// Tell each of some handoffs.
    Transition { keys: K, event: HandoffEvent<S> },
    ReportNodeLoad { session: NodeIncarnation },
    ReportShardLoad { shard: SessionShard<S> },
    /// Store a changed hello, then send a snapshot.
    PersistHello { hello: H },
    CompleteInitialReady {
        slot: PlacementSlotKey<S>,
        owner: NodeKey<S>,
        generation: AssignmentGeneration,
    },
    /// Move what a node hosts elsewhere, one entity type after the other.
    EvaluateDrain { node: NodeKey<S>, entity_types: T },
    /// A node asks to be drained, or says that it is; the session is that of the sender.
    BeginMemberDrain {
        session: NodeIncarnation,
        operation_id: S,
        expected_incarnation: NodeIncarnation,
    },
    CompleteMemberDrain {
        session: NodeIncarnation,
        operation_id: S,
        expected_incarnation: NodeIncarnation,
    },
    EnsureShard { entity_type: S, shard_id: ShardId, hello: H, association: AssociationKey<S> },
    EnsureSingleton { kind: S, hello: H, association: AssociationKey<S> },
}

pub type ControlModel = ControlAction<
    Seq<char>,
    HelloModel,
    Seq<SlotKeyModel>,
    Seq<Seq<char>>,
>;

impl View for ControlAction {
    type V = ControlModel;

    open spec fn view(&self) -> ControlModel {
        match self {
            ControlAction::Nothing => ControlModel::Nothing,
            ControlAction::RemoveMember { node, reason } => ControlModel::RemoveMember {
                node: node@,
                reason: *reason,
            },
            ControlAction::SendSnapshot { hello, association } => ControlModel::SendSnapshot {
                hello: hello@,
                association: association@,
            },
            ControlAction::Register { hello, association } => ControlModel::Register {
                hello: hello@,
                association: association@,
            },
            ControlAction::KeepLease { lease_id } => ControlModel::KeepLease {
                lease_id: *lease_id,
            },
            ControlAction::MarkMemberUp { incarnation, snapshot_version, association } =>
                ControlModel::MarkMemberUp {
                incarnation: *incarnation,
                snapshot_version: *snapshot_version,
                association: association@,
            },
            ControlAction::Transition { keys, event } => ControlModel::Transition {
                keys: seq_view(keys@),
                event: event@,
            },
            ControlAction::ReportNodeLoad { session } => ControlModel::ReportNodeLoad {
                session: *session,
            },
            ControlAction::ReportShardLoad { shard } => ControlModel::ReportShardLoad {
                shard: shard@,
            },
            ControlAction::PersistHello { hello } => ControlModel::PersistHello { hello: hello@ },
            ControlAction::CompleteInitialReady { slot, owner, generation } =>
                ControlModel::CompleteInitialReady {
                slot: slot@,
                owner: owner@,
                generation: *generation,
            },
            ControlAction::EvaluateDrain { node, entity_types } => ControlModel::EvaluateDrain {
                node: node@,
                entity_types: seq_view(entity_types@),
            },
            ControlAction::BeginMemberDrain { session, operation_id, expected_incarnation } =>
                ControlModel::BeginMemberDrain {
                session: *session,
                operation_id: operation_id@,
                expected_incarnation: *expected_incarnation,
            },
            ControlAction::CompleteMemberDrain { session, operation_id, expected_incarnation } =>
                ControlModel::CompleteMemberDrain {
                session: *session,
                operation_id: operation_id@,
                expected_incarnation: *expected_incarnation,
            },
            ControlAction::EnsureShard { entity_type, shard_id, hello, association } =>
                ControlModel::EnsureShard {
                entity_type: entity_type@,
                shard_id: *shard_id,
                hello: hello@,
                association: association@,
            },
            ControlAction::EnsureSingleton { kind, hello, association } =>
                ControlModel::EnsureSingleton {
                kind: kind@,
                hello: hello@,
                association: association@,
            },
        }
    }
}

/// A leader and what it is to do, or why it refuses.
pub type Controlled = (LeaderModel, Result<ControlModel, RuntimeErrorModel>);

impl LeaderModel {
    pub open spec fn refusing(self, error: RuntimeErrorModel) -> Controlled {
        (self, Err(error))
    }

    pub open spec fn doing(self, action: ControlModel) -> Controlled {
        (self, Ok(action))
    }

    pub open spec fn with_session(self, id: NodeIncarnation, session: SessionModel) -> LeaderModel {
        LeaderModel { sessions: self.sessions.insert(id, session), ..self }
    }

    /// A heartbeat counts if it is the sender's own and newer than the last.
    pub open spec fn on_heartbeat(
        self,
        remote: NodeIncarnation,
        incarnation: NodeIncarnation,
        sequence: u64,
        now: TimeSpan,
    ) -> Controlled {
        let session = self.sessions[remote];
        if incarnation != remote || sequence == 0 {
            self.refusing(RuntimeErrorModel::UnauthorizedCommand)
        } else if !self.sessions.contains_key(remote) {
            self.refusing(RuntimeErrorModel::UnknownSession)
        } else if sequence > session.heartbeat_sequence {
            self.with_session(
                remote,
                SessionModel { heartbeat_sequence: sequence, last_heartbeat: now, ..session },
            ).doing(ControlModel::KeepLease { lease_id: session.lease_id })
        } else {
            self.doing(ControlModel::Nothing)
        }
    }

    /// The handoffs whose barrier waits for a session that has applied a version.
    pub open spec fn awaiting(self, remote: NodeIncarnation, version: VersionModel) -> Seq<
        SlotKeyModel,
    > {
        ranked::<PlacementSlotKey>(self.handoffs.dom()).filter(
            |key: SlotKeyModel| self.handoffs[key].awaits(remote, version),
        )
    }

    /// An applied version is kept if it is the latest, and told to the barriers that wait for it.
    pub open spec fn on_applied(self, remote: NodeIncarnation, version: VersionModel) -> Controlled {
        let session = self.sessions[remote];
        if !self.sessions.contains_key(remote) {
            self.refusing(RuntimeErrorModel::UnknownSession)
        } else {
            let newer = session.applied_version is None || version_later(
                version,
                session.applied_version->0,
            );
            let next = if newer {
                self.with_session(
                    remote,
                    SessionModel { applied_version: Some(version), ..session },
                )
            } else {
                self
            };
            next.doing(
                ControlModel::Transition {
                    keys: self.awaiting(remote, version),
                    event: HandoffEventModel::AppliedRevision { session: remote, version },
                },
            )
        }
    }

    /// Whether a load comes from the node that it is of.
    pub open spec fn reports_for(self, remote: NodeIncarnation, node: NodeModel) -> bool {
        self.sessions.contains_key(remote) && self.sessions[remote].hello.node == node
    }

    pub open spec fn on_node_load(self, remote: NodeIncarnation, node: NodeModel) -> Controlled {
        if self.reports_for(remote, node) {
            self.doing(ControlModel::ReportNodeLoad { session: remote })
        } else {
            self.refusing(RuntimeErrorModel::UnauthorizedCommand)
        }
    }

    pub open spec fn on_shard_load(
        self,
        remote: NodeIncarnation,
        node: NodeModel,
        entity_type: Seq<char>,
        shard_id: ShardId,
    ) -> Controlled {
        if self.reports_for(remote, node) {
            self.doing(
                ControlModel::ReportShardLoad {
                    shard: SessionShard { session: remote, entity_type, shard_id },
                },
            )
        } else {
            self.refusing(RuntimeErrorModel::UnauthorizedCommand)
        }
    }

    /// A handoff is told what its source or target says.
    pub open spec fn on_handoff(
        self,
        remote: NodeIncarnation,
        slot: SlotKeyModel,
        event: HandoffEventModel,
    ) -> Controlled {
        if self.sessions.contains_key(remote) {
            self.doing(ControlModel::Transition { keys: seq![slot], event })
        } else {
            self.refusing(RuntimeErrorModel::UnknownSession)
        }
    }

    pub open spec fn on_ready(
        self,
        remote: NodeIncarnation,
        slot: SlotKeyModel,
        generation: AssignmentGeneration,
    ) -> Controlled {
        let node = self.sessions[remote].hello.node;
        if !self.sessions.contains_key(remote) {
            self.refusing(RuntimeErrorModel::UnknownSession)
        } else if self.handoffs.contains_key(slot) {
            self.doing(
                ControlModel::Transition {
                    keys: seq![slot],
                    event: HandoffEventModel::TargetReady { target: node, generation },
                },
            )
        } else {
            self.doing(ControlModel::CompleteInitialReady { slot, owner: node, generation })
        }
    }

    pub open spec fn on_resolve_shard(
        self,
        remote: NodeIncarnation,
        entity_type: Seq<char>,
        shard_id: ShardId,
    ) -> Controlled {
        let session = self.sessions[remote];
        if !self.sessions.contains_key(remote) {
            self.refusing(RuntimeErrorModel::UnknownSession)
        } else if !session.hello.subscribes(entity_type) {
            self.refusing(RuntimeErrorModel::UnauthorizedCommand)
        } else {
            self.doing(
                ControlModel::EnsureShard {
                    entity_type,
                    shard_id,
                    hello: session.hello,
                    association: session.association,
                },
            )
        }
    }

    pub open spec fn on_resolve_singleton(self, remote: NodeIncarnation, kind: Seq<char>) -> Controlled {
        let session = self.sessions[remote];
        if !self.sessions.contains_key(remote) {
            self.refusing(RuntimeErrorModel::UnknownSession)
        } else if !session.hello.concerns(kind) {
            self.refusing(RuntimeErrorModel::UnauthorizedCommand)
        } else {
            self.doing(
                ControlModel::EnsureSingleton {
                    kind,
                    hello: session.hello,
                    association: session.association,
                },
            )
        }
    }

    /// What a session that subscribes to something more declares.
    pub open spec fn widened(self, remote: NodeIncarnation, command: CommandModel) -> HelloModel {
        let hello = self.sessions[remote].hello;
        match command {
            CommandModel::SubscribeEntity(entity_type) => HelloModel {
                proxied_entity_types: hello.proxied_entity_types.insert(entity_type),
                ..hello
            },
            CommandModel::SubscribeSingleton(kind) => HelloModel {
                used_singletons: hello.used_singletons.insert(kind),
                ..hello
            },
            _ => hello,
        }
    }

    /// What a leader that keeps sessions in memory makes of a subscription.
    pub open spec fn on_subscribe(self, remote: NodeIncarnation, command: CommandModel) -> Controlled {
        let session = self.sessions[remote];
        let hello = self.widened(remote, command);
        if !self.sessions.contains_key(remote) {
            self.refusing(RuntimeErrorModel::UnknownSession)
        } else {
            self.with_session(remote, SessionModel { hello, ..session }).doing(
                ControlModel::SendSnapshot { hello, association: session.association },
            )
        }
    }

    /// What a leader that stores hellos makes of a subscription.
    pub open spec fn on_domain_subscribe(
        self,
        remote: NodeIncarnation,
        command: CommandModel,
    ) -> Controlled {
        if !self.sessions.contains_key(remote) {
            self.refusing(RuntimeErrorModel::UnknownSession)
        } else {
            self.doing(ControlModel::PersistHello { hello: self.widened(remote, command) })
        }
    }

    pub open spec fn on_reconcile(self, association: AssociationModel) -> Controlled {
        if self.sessions.contains_key(association.remote_incarnation) {
            self.doing(
                ControlModel::SendSnapshot {
                    hello: self.sessions[association.remote_incarnation].hello,
                    association,
                },
            )
        } else {
            self.doing(ControlModel::Nothing)
        }
    }

    /// What the leader of a cluster makes of an event.
    pub open spec fn controlled(self, event: EventModel, now: TimeSpan) -> Controlled {
        match event {
            EventModel::Reconcile { association } => self.on_reconcile(association),
            EventModel::GlobalMemberRemoved { .. } => self.refusing(
                RuntimeErrorModel::UnauthorizedCommand,
            ),
            EventModel::Command { association, scope, command } => {
                let remote = association.remote_incarnation;
                let session = self.sessions[remote];
                match command {
                    CommandModel::NodeHello(hello) => self.doing(
                        ControlModel::Register { hello, association },
                    ),
                    CommandModel::NodeHeartbeat { incarnation, sequence } => self.on_heartbeat(
                        remote,
                        incarnation,
                        sequence,
                        now,
                    ),
                    CommandModel::AppliedRevision(version) => self.on_applied(remote, version),
                    CommandModel::NodeLoad { node } => self.on_node_load(remote, node),
                    CommandModel::ShardLoad { node, entity_type, shard_id } => self.on_shard_load(
                        remote,
                        node,
                        entity_type,
                        shard_id,
                    ),
                    CommandModel::SubscribeEntity(_) => self.on_subscribe(remote, command),
                    CommandModel::SubscribeSingleton(_) => self.on_subscribe(remote, command),
                    CommandModel::SlotDrained { slot, generation } => self.on_handoff(
                        remote,
                        slot,
                        HandoffEventModel::SourceDrained {
                            source: session.hello.node,
                            generation,
                        },
                    ),
                    CommandModel::SlotStopFailed { slot, generation } => self.on_handoff(
                        remote,
                        slot,
                        HandoffEventModel::SourceStopFailed {
                            source: session.hello.node,
                            generation,
                        },
                    ),
                    CommandModel::SlotReady { slot, generation } => self.on_ready(
                        remote,
                        slot,
                        generation,
                    ),
                    CommandModel::BeginDrain { .. } => if self.sessions.contains_key(remote) {
                        self.with_session(remote, SessionModel { draining: true, ..session }).doing(
                            ControlModel::EvaluateDrain {
                                node: session.hello.node,
                                entity_types: ranked::<String>(session.hello.hosted_entity_types),
                            },
                        )
                    } else {
                        self.refusing(RuntimeErrorModel::UnknownSession)
                    },
                    CommandModel::DrainComplete { .. } => if self.sessions.contains_key(remote) {
                        self.doing(ControlModel::Nothing)
                    } else {
                        self.refusing(RuntimeErrorModel::UnknownSession)
                    },
                    CommandModel::ResolveShard { entity_type, shard_id, .. } =>
                        self.on_resolve_shard(remote, entity_type, shard_id),
                    CommandModel::ResolveSingleton { kind, .. } => self.on_resolve_singleton(
                        remote,
                        kind,
                    ),
                    _ => self.refusing(RuntimeErrorModel::UnauthorizedCommand),
                }
            },
        }
    }

    /// What the leader of a placement domain makes of an event.
    pub open spec fn domain_controlled(self, event: EventModel, now: TimeSpan) -> Controlled {
        match event {
            EventModel::GlobalMemberRemoved { node, reason } => self.doing(
                ControlModel::RemoveMember { node, reason },
            ),
            EventModel::Reconcile { association } => LeaderModel {
                reconciliation_focused: true,
                ..self
            }.on_reconcile(association),
            EventModel::Command { association, scope, command } => {
                let remote = association.remote_incarnation;
                let session = self.sessions[remote];
                if scope != ScopeModel::Placement(self.version.domain) {
                    self.refusing(RuntimeErrorModel::UnauthorizedCommand)
                } else {
                    match command {
                        CommandModel::PlacementDomainHello(hello) => self.doing(
                            ControlModel::Register { hello, association },
                        ),
                        CommandModel::NodeHeartbeat { incarnation, sequence } => self.on_heartbeat(
                            remote,
                            incarnation,
                            sequence,
                            now,
                        ),
                        CommandModel::JoinReady { snapshot_version } => self.doing(
                            ControlModel::MarkMemberUp {
                                incarnation: remote,
                                snapshot_version,
                                association,
                            },
                        ),
                        CommandModel::AppliedRevision(version) => self.on_applied(remote, version),
                        CommandModel::NodeLoad { node } => self.on_node_load(remote, node),
                        CommandModel::ShardLoad { node, entity_type, shard_id } =>
                            self.on_shard_load(remote, node, entity_type, shard_id),
                        CommandModel::SubscribeEntity(_) => self.on_domain_subscribe(
                            remote,
                            command,
                        ),
                        CommandModel::SubscribeSingleton(_) => self.on_domain_subscribe(
                            remote,
                            command,
                        ),
                        CommandModel::SlotDrained { slot, generation } => self.on_handoff(
                            remote,
                            slot,
                            HandoffEventModel::SourceDrained {
                                source: session.hello.node,
                                generation,
                            },
                        ),
                        CommandModel::SlotStopFailed { slot, generation } => self.on_handoff(
                            remote,
                            slot,
                            HandoffEventModel::SourceStopFailed {
                                source: session.hello.node,
                                generation,
                            },
                        ),
                        CommandModel::SlotReady { slot, generation } => self.on_ready(
                            remote,
                            slot,
                            generation,
                        ),
                        CommandModel::BeginDrain { operation_id, expected_incarnation } =>
                            self.doing(
                            ControlModel::BeginMemberDrain {
                                session: remote,
                                operation_id,
                                expected_incarnation,
                            },
                        ),
                        CommandModel::DrainComplete { operation_id, expected_incarnation } =>
                            self.doing(
                            ControlModel::CompleteMemberDrain {
                                session: remote,
                                operation_id,
                                expected_incarnation,
                            },
                        ),
                        CommandModel::ResolveShard { domain, entity_type, shard_id } => if domain
                            != self.version.domain {
                            self.refusing(RuntimeErrorModel::UnauthorizedCommand)
                        } else {
                            self.on_resolve_shard(remote, entity_type, shard_id)
                        },
                        CommandModel::ResolveSingleton { domain, kind } => if domain
                            != self.version.domain {
                            self.refusing(RuntimeErrorModel::UnauthorizedCommand)
                        } else {
                            self.on_resolve_singleton(remote, kind)
                        },
                        _ => self.refusing(RuntimeErrorModel::UnauthorizedCommand),
                    }
                }
            },
        }
    }
}

/// What a leader is to do, or why it refuses.
pub type ControlResult = Result<ControlAction, CoordinatorRuntimeError>;

/// The command that subscribes to an entity type, or else to a singleton.
pub open spec fn subscription(
    entity_type: Option<Seq<char>>,
    kind: Option<Seq<char>>,
) -> CommandModel {
    match entity_type {
        Some(name) => CommandModel::SubscribeEntity(name),
        None => CommandModel::SubscribeSingleton(kind->0),
    }
}

fn one_key(key: PlacementSlotKey) -> (keys: Vec<PlacementSlotKey>)
    ensures
        seq_view(keys@) == seq![key@],
{
    let mut keys: Vec<PlacementSlotKey> = Vec::new();
    keys.push(key);
    assert(seq_view(keys@) =~= seq![key@]);
    keys
}

impl CoordinatorLeader {
    fn heartbeat(
        &mut self,
        remote: NodeIncarnation,
        incarnation: NodeIncarnation,
        sequence: u64,
        now: TimeSpan,
    ) -> (result: ControlResult)
        ensures
            (final(self)@, outcome(result)) == old(self)@.on_heartbeat(
                remote,
                incarnation,
                sequence,
                now,
            ),
    {
        if incarnation != remote || sequence == 0 {
            return Err(CoordinatorRuntimeError::UnauthorizedCommand);
        }
        match self.sessions.take(&remote) {
            None => {
                assert(self@ =~= old(self)@);
                Err(CoordinatorRuntimeError::UnknownSession)
            },
            Some(session) => {
                let mut session = session;
                let lease_id = session.lease_id;
                let newer = sequence > session.heartbeat_sequence;
                if newer {
                    session.heartbeat_sequence = sequence;
                    session.last_heartbeat = now;
                }
                self.sessions.insert(remote, session);
                assert(self@ =~= old(self)@.on_heartbeat(remote, incarnation, sequence, now).0);
                if newer {
                    Ok(ControlAction::KeepLease { lease_id })
                } else {
                    Ok(ControlAction::Nothing)
                }
            },
        }
    }

    /// The handoffs whose barrier waits for a session that has applied a version.
    fn awaiting(&self, remote: NodeIncarnation, version: &PlacementVersion) -> (keys: Vec<
        PlacementSlotKey,
    >)
        ensures
            seq_view(keys@) == self@.awaiting(remote, version@),
    {
        let len = self.handoffs.len();
        let ghost list = ranked::<PlacementSlotKey>(self.handoffs@.dom());
        let ghost waits = |key: SlotKeyModel| self@.handoffs[key].awaits(remote, version@);
        let mut keys: Vec<PlacementSlotKey> = Vec::new();
        let mut i: usize = 0;
        assert(list.subrange(0, 0).filter(waits) =~= Seq::<SlotKeyModel>::empty()) by {
            reveal(Seq::filter);
        }
        assert(seq_view(keys@) =~= Seq::<SlotKeyModel>::empty());
        while i < len
            invariant
                i <= len,
                len == list.len(),
                list == ranked::<PlacementSlotKey>(self.handoffs@.dom()),
                waits == (|key: SlotKeyModel| self@.handoffs[key].awaits(remote, version@)),
                seq_view(keys@) == list.subrange(0, i as int).filter(waits),
            decreases len - i,
        {
            let (key, handoff) = self.handoffs.entry_at(i);
            proof {
                lemma_filter_step(list, waits, i as int);
            }
            if handoff.awaits(remote, version) {
                let ghost before = seq_view(keys@);
                let copy = key.copy();
                keys.push(copy);
                assert(seq_view(keys@) =~= before.push(copy@));
            }
            i = i + 1;
        }
        assert(list.subrange(0, i as int) =~= list);
        keys
    }

    fn applied(&mut self, remote: NodeIncarnation, version: PlacementVersion) -> (result:
        ControlResult)
        ensures
            (final(self)@, outcome(result)) == old(self)@.on_applied(remote, version@),
    {
        let keys = self.awaiting(remote, &version);
        match self.sessions.take(&remote) {
            None => {
                assert(self@ =~= old(self)@);
                Err(CoordinatorRuntimeError::UnknownSession)
            },
            Some(session) => {
                let mut session = session;
                let newer = match &session.applied_version {
                    None => true,
                    Some(current) => version.is_later_than(current),
                };
                if newer {
                    session.applied_version = Some(version.copy());
                }
                self.sessions.insert(remote, session);
                assert(self@ =~= old(self)@.on_applied(remote, version@).0);
                Ok(
                    ControlAction::Transition {
                        keys,
                        event: HandoffEvent::AppliedRevision { session: remote, version },
                    },
                )
            },
        }
    }

    fn reports_for(&self, remote: NodeIncarnation, node: &NodeKey) -> (own: bool)
        ensures
            own == self@.reports_for(remote, node@),
    {
        match self.sessions.get(&remote) {
            Some(session) => session.hello.node.same(node),
            None => false,
        }
    }

    fn node_load(&self, remote: NodeIncarnation, node: &NodeKey) -> (result: ControlResult)
        ensures
            (self@, outcome(result)) == self@.on_node_load(remote, node@),
    {
        if self.reports_for(remote, node) {
            Ok(ControlAction::ReportNodeLoad { session: remote })
        } else {
            Err(CoordinatorRuntimeError::UnauthorizedCommand)
        }
    }

    fn shard_load(
        &self,
        remote: NodeIncarnation,
        node: &NodeKey,
        entity_type: EntityType,
        shard_id: ShardId,
    ) -> (result: ControlResult)
        ensures
            (self@, outcome(result)) == self@.on_shard_load(
                remote,
                node@,
                entity_type@,
                shard_id,
            ),
    {
        if self.reports_for(remote, node) {
            Ok(
                ControlAction::ReportShardLoad {
                    shard: SessionShard { session: remote, entity_type, shard_id },
                },
            )
        } else {
            Err(CoordinatorRuntimeError::UnauthorizedCommand)
        }
    }

    /// The node of a session.
    fn node_of(&self, remote: NodeIncarnation) -> (result: Result<NodeKey, CoordinatorRuntimeError>)
        ensures
            outcome(result) == if self@.sessions.contains_key(remote) {
                Ok(self@.sessions[remote].hello.node)
            } else {
                Err(RuntimeErrorModel::UnknownSession)
            },
    {
        match self.sessions.get(&remote) {
            Some(session) => Ok(session.hello.node.copy()),
            None => Err(CoordinatorRuntimeError::UnknownSession),
        }
    }

    fn drained(
        &self,
        remote: NodeIncarnation,
        slot: PlacementSlotKey,
        generation: AssignmentGeneration,
        stopped: bool,
    ) -> (result: ControlResult)
        ensures
            (self@, outcome(result)) == self@.on_handoff(
                remote,
                slot@,
                if stopped {
                    HandoffEventModel::SourceDrained {
                        source: self@.sessions[remote].hello.node,
                        generation,
                    }
                } else {
                    HandoffEventModel::SourceStopFailed {
                        source: self@.sessions[remote].hello.node,
                        generation,
                    }
                },
            ),
    {
        match self.node_of(remote) {
            Err(error) => Err(error),
            Ok(source) => {
                let event = if stopped {
                    HandoffEvent::SourceDrained { source, generation }
                } else {
                    HandoffEvent::SourceStopFailed { source, generation }
                };
                Ok(ControlAction::Transition { keys: one_key(slot), event })
            },
        }
    }

    fn ready(
        &self,
        remote: NodeIncarnation,
        slot: PlacementSlotKey,
        generation: AssignmentGeneration,
    ) -> (result: ControlResult)
        ensures
            (self@, outcome(result)) == self@.on_ready(remote, slot@, generation),
    {
        match self.node_of(remote) {
            Err(error) => Err(error),
            Ok(node) => if self.handoffs.contains_key(&slot) {
                Ok(
                    ControlAction::Transition {
                        keys: one_key(slot),
                        event: HandoffEvent::TargetReady { target: node, generation },
                    },
                )
            } else {
                Ok(ControlAction::CompleteInitialReady { slot, owner: node, generation })
            },
        }
    }

    fn resolve_shard(
        &self,
        remote: NodeIncarnation,
        entity_type: EntityType,
        shard_id: ShardId,
    ) -> (result: ControlResult)
        ensures
            (self@, outcome(result)) == self@.on_resolve_shard(remote, entity_type@, shard_id),
    {
        match self.sessions.get(&remote) {
            None => Err(CoordinatorRuntimeError::UnknownSession),
            Some(session) => if !session.hello.subscribes_to(&entity_type) {
                Err(CoordinatorRuntimeError::UnauthorizedCommand)
            } else {
                Ok(
                    ControlAction::EnsureShard {
                        entity_type,
                        shard_id,
                        hello: session.hello.copy(),
                        association: session.association.copy(),
                    },
                )
            },
        }
    }

    fn resolve_singleton(&self, remote: NodeIncarnation, kind: SingletonKind) -> (result:
        ControlResult)
        ensures
            (self@, outcome(result)) == self@.on_resolve_singleton(remote, kind@),
    {
        match self.sessions.get(&remote) {
            None => Err(CoordinatorRuntimeError::UnknownSession),
            Some(session) => if !session.hello.concerns(&kind) {
                Err(CoordinatorRuntimeError::UnauthorizedCommand)
            } else {
                Ok(
                    ControlAction::EnsureSingleton {
                        kind,
                        hello: session.hello.copy(),
                        association: session.association.copy(),
                    },
                )
            },
        }
    }

    /// What a session declares once it subscribes to an entity type or a singleton.
    fn widen(
        &self,
        remote: NodeIncarnation,
        entity_type: Option<EntityType>,
        kind: Option<SingletonKind>,
    ) -> (hello: Option<NodeHello>)
        ensures
            match hello {
                Some(hello) => {
                    let before = self@.sessions[remote].hello;
                    &&& self@.sessions.contains_key(remote)
                    &&& hello@ == (HelloModel {
                        proxied_entity_types: match entity_type {
                            Some(name) => before.proxied_entity_types.insert(name@),
                            None => before.proxied_entity_types,
                        },
                        used_singletons: match kind {
                            Some(name) => before.used_singletons.insert(name@),
                            None => before.used_singletons,
                        },
                        ..before
                    })
                },
                None => !self@.sessions.contains_key(remote),
            },
    {
        match self.sessions.get(&remote) {
            None => None,
            Some(session) => {
                let mut hello = session.hello.copy();
                match entity_type {
                    Some(name) => {
                        let _ = hello.proxied_entity_types.insert(name);
                    },
                    None => {},
                }
                match kind {
                    Some(name) => {
                        let _ = hello.used_singletons.insert(name);
                    },
                    None => {},
                }
                Some(hello)
            },
        }
    }

    fn subscribe(
        &mut self,
        remote: NodeIncarnation,
        entity_type: Option<EntityType>,
        kind: Option<SingletonKind>,
    ) -> (result: ControlResult)
        requires
            entity_type is Some <==> kind is None,
        ensures
            (final(self)@, outcome(result)) == old(self)@.on_subscribe(
                remote,
                subscription(option_view(entity_type), option_view(kind)),
            ),
    {
        let ghost command = subscription(option_view(entity_type), option_view(kind));
        let hello = match self.widen(remote, entity_type, kind) {
            None => {
                return Err(CoordinatorRuntimeError::UnknownSession);
            },
            Some(hello) => hello,
        };
        assert(hello@ =~= old(self)@.widened(remote, command));
        match self.sessions.take(&remote) {
            None => Err(CoordinatorRuntimeError::UnknownSession),
            Some(session) => {
                let mut session = session;
                let association = session.association.copy();
                session.hello = hello.copy();
                self.sessions.insert(remote, session);
                assert(self@ =~= old(self)@.on_subscribe(remote, command).0);
                Ok(ControlAction::SendSnapshot { hello, association })
            },
        }
    }

    fn domain_subscribe(
        &self,
        remote: NodeIncarnation,
        entity_type: Option<EntityType>,
        kind: Option<SingletonKind>,
    ) -> (result: ControlResult)
        requires
            entity_type is Some <==> kind is None,
        ensures
            (self@, outcome(result)) == self@.on_domain_subscribe(
                remote,
                subscription(option_view(entity_type), option_view(kind)),
            ),
    {
        let ghost command = subscription(option_view(entity_type), option_view(kind));
        match self.widen(remote, entity_type, kind) {
            None => Err(CoordinatorRuntimeError::UnknownSession),
            Some(hello) => {
                assert(hello@ =~= self@.widened(remote, command));
                Ok(ControlAction::PersistHello { hello })
            },
        }
    }

    fn reconcile(&self, association: AssociationKey) -> (result: ControlResult)
        ensures
            (self@, outcome(result)) == self@.on_reconcile(association@),
    {
        match self.sessions.get(&association.remote_incarnation) {
            Some(session) => Ok(
                ControlAction::SendSnapshot { hello: session.hello.copy(), association },
            ),
            None => Ok(ControlAction::Nothing),
        }
    }

    fn begin_drain(&mut self, remote: NodeIncarnation) -> (result: ControlResult)
        ensures
            (final(self)@, outcome(result)) == if old(self)@.sessions.contains_key(remote) {
                let session = old(self)@.sessions[remote];
                old(self)@.with_session(remote, SessionModel { draining: true, ..session }).doing(
                    ControlModel::EvaluateDrain {
                        node: session.hello.node,
                        entity_types: ranked::<String>(session.hello.hosted_entity_types),
                    },
                )
            } else {
                old(self)@.refusing(RuntimeErrorModel::UnknownSession)
            },
    {
        match self.sessions.take(&remote) {
            None => {
                assert(self@ =~= old(self)@);
                Err(CoordinatorRuntimeError::UnknownSession)
            },
            Some(session) => {
                let mut session = session;
                session.draining = true;
                let node = session.hello.node.copy();
                let entity_types = session.hello.hosted_entity_types.to_vec();
                self.sessions.insert(remote, session);
                assert(self@ =~= old(self)@.with_session(
                    remote,
                    SessionModel { draining: true, ..old(self)@.sessions[remote] },
                ));
                Ok(ControlAction::EvaluateDrain { node, entity_types })
            },
        }
    }

    /// Decides on an event as the leader of a cluster.
    pub fn handle_control(&mut self, event: ControlEvent, now: TimeSpan) -> (result: ControlResult)
        ensures
            (final(self)@, outcome(result)) == old(self)@.controlled(event@, now),
    {
        let (association, command) = match event {
            ControlEvent::Reconcile { association } => {
                return self.reconcile(association);
            },
            ControlEvent::GlobalMemberRemoved { .. } => {
                return Err(CoordinatorRuntimeError::UnauthorizedCommand);
            },
            ControlEvent::Command { association, scope: _, command } => (association, command),
        };
        let remote = association.remote_incarnation;
        match command {
            PlacementControlCommand::NodeHello(hello) => Ok(
                ControlAction::Register { hello, association },
            ),
            PlacementControlCommand::NodeHeartbeat { incarnation, sequence } => self.heartbeat(
                remote,
                incarnation,
                sequence,
                now,
            ),
            PlacementControlCommand::AppliedRevision(version) => self.applied(remote, version),
            PlacementControlCommand::NodeLoad { node } => self.node_load(remote, &node),
            PlacementControlCommand::ShardLoad { node, entity_type, shard_id } => self.shard_load(
                remote,
                &node,
                entity_type,
                shard_id,
            ),
            PlacementControlCommand::SubscribeEntity(entity_type) => self.subscribe(
                remote,
                Some(entity_type),
                None,
            ),
            PlacementControlCommand::SubscribeSingleton(kind) => self.subscribe(
                remote,
                None,
                Some(kind),
            ),
            PlacementControlCommand::SlotDrained { slot, generation } => self.drained(
                remote,
                slot,
                generation,
                true,
            ),
            PlacementControlCommand::SlotStopFailed { slot, generation } => self.drained(
                remote,
                slot,
                generation,
                false,
            ),
            PlacementControlCommand::SlotReady { slot, generation } => self.ready(
                remote,
                slot,
                generation,
            ),
            PlacementControlCommand::BeginDrain { .. } => self.begin_drain(remote),
            PlacementControlCommand::DrainComplete { .. } => if self.sessions.contains_key(
                &remote,
            ) {
                Ok(ControlAction::Nothing)
            } else {
                Err(CoordinatorRuntimeError::UnknownSession)
            },
            PlacementControlCommand::ResolveShard { domain: _, entity_type, shard_id } =>
                self.resolve_shard(remote, entity_type, shard_id),
            PlacementControlCommand::ResolveSingleton { domain: _, kind } =>
                self.resolve_singleton(remote, kind),
            _ => Err(CoordinatorRuntimeError::UnauthorizedCommand),
        }
    }

    /// Decides on an event as the leader of a placement domain.
    pub fn handle_domain_control(&mut self, event: ControlEvent, now: TimeSpan) -> (result:
        ControlResult)
        ensures
            (final(self)@, outcome(result)) == old(self)@.domain_controlled(event@, now),
    {
        let (association, scope, command) = match event {
            ControlEvent::GlobalMemberRemoved { node, reason } => {
                return Ok(ControlAction::RemoveMember { node, reason });
            },
            ControlEvent::Reconcile { association } => {
                self.reconciliation_focused = true;
                assert(self@ =~= (LeaderModel { reconciliation_focused: true, ..old(self)@ }));
                return self.reconcile(association);
            },
            ControlEvent::Command { association, scope, command } => (association, scope, command),
        };
        let remote = association.remote_incarnation;
        let ours = match &scope {
            CoordinatorScope::Placement(domain) => domain.same(&self.version.domain),
            CoordinatorScope::Membership => false,
        };
        if !ours {
            return Err(CoordinatorRuntimeError::UnauthorizedCommand);
        }
        match command {
            PlacementControlCommand::PlacementDomainHello(hello) => Ok(
                ControlAction::Register { hello, association },
            ),
            PlacementControlCommand::NodeHeartbeat { incarnation, sequence } => self.heartbeat(
                remote,
                incarnation,
                sequence,
                now,
            ),
            PlacementControlCommand::JoinReady { snapshot_version } => Ok(
                ControlAction::MarkMemberUp { incarnation: remote, snapshot_version, association },
            ),
            PlacementControlCommand::AppliedRevision(version) => self.applied(remote, version),
            PlacementControlCommand::NodeLoad { node } => self.node_load(remote, &node),
            PlacementControlCommand::ShardLoad { node, entity_type, shard_id } => self.shard_load(
                remote,
                &node,
                entity_type,
                shard_id,
            ),
            PlacementControlCommand::SubscribeEntity(entity_type) => self.domain_subscribe(
                remote,
                Some(entity_type),
                None,
            ),
            PlacementControlCommand::SubscribeSingleton(kind) => self.domain_subscribe(
                remote,
                None,
                Some(kind),
            ),
            PlacementControlCommand::SlotDrained { slot, generation } => self.drained(
                remote,
                slot,
                generation,
                true,
            ),
            PlacementControlCommand::SlotStopFailed { slot, generation } => self.drained(
                remote,
                slot,
                generation,
                false,
            ),
            PlacementControlCommand::SlotReady { slot, generation } => self.ready(
                remote,
                slot,
                generation,
            ),
            PlacementControlCommand::BeginDrain { operation_id, expected_incarnation } => Ok(
                ControlAction::BeginMemberDrain {
                    session: remote,
                    operation_id,
                    expected_incarnation,
                },
            ),
            PlacementControlCommand::DrainComplete { operation_id, expected_incarnation } => Ok(
                ControlAction::CompleteMemberDrain {
                    session: remote,
                    operation_id,
                    expected_incarnation,
                },
            ),
            PlacementControlCommand::ResolveShard { domain, entity_type, shard_id } =>
                if !domain.same(&self.version.domain) {
                    Err(CoordinatorRuntimeError::UnauthorizedCommand)
                } else {
                    self.resolve_shard(remote, entity_type, shard_id)
                },
            PlacementControlCommand::ResolveSingleton { domain, kind } => if !domain.same(
                &self.version.domain,
            ) {
                Err(CoordinatorRuntimeError::UnauthorizedCommand)
            } else {
                self.resolve_singleton(remote, kind)
            },
            _ => Err(CoordinatorRuntimeError::UnauthorizedCommand),
        }
    }

    /// The hello of a member that is up and has applied the current version, if it has: its
    /// claims may be granted.
    pub fn ready_for_claims(&self, remote: NodeIncarnation) -> (hello: Option<NodeHello>)
        ensures
            option_view(hello) == if self@.sessions.contains_key(remote)
                && self@.sessions[remote].up() && self@.sessions[remote].has_applied(
                self@.version,
            ) {
                Some(self@.sessions[remote].hello)
            } else {
                None
            },
    {
        match self.sessions.get(&remote) {
            Some(session) => if session.placement_up() && session.has_applied(&self.version) {
                Some(session.hello.copy())
            } else {
                None
            },
            None => None,
        }
    }

    /// Takes note of when the load of a node came.
    pub fn note_node_load(&mut self, session: NodeIncarnation, received: MonotonicTime)
        ensures
            final(self)@ == (LeaderModel {
                node_load_received: old(self)@.node_load_received.insert(session, received),
                ..old(self)@
            }),
    {
        self.node_load_received.insert(session, received);
    }

    /// Takes note of when the load of a shard came.
    pub fn note_shard_load(&mut self, shard: SessionShard, received: MonotonicTime)
        ensures
            final(self)@ == (LeaderModel {
                shard_load_received: old(self)@.shard_load_received.insert(shard@, received),
                ..old(self)@
            }),
    {
        self.shard_load_received.insert(shard, received);
    }
}

/// A command that is refused changes nothing.
pub proof fn law_refused_commands_change_nothing(
    leader: LeaderModel,
    event: EventModel,
    now: TimeSpan,
)
    ensures
        leader.controlled(event, now).1 is Err ==> leader.controlled(event, now).0 == leader,
        leader.domain_controlled(event, now).1 is Err ==> leader.domain_controlled(event, now).0
            == leader,
{
}

/// A command changes no session but that of its sender.
pub proof fn law_commands_touch_their_sender_only(
    leader: LeaderModel,
    association: AssociationModel,
    scope: ScopeModel,
    command: CommandModel,
    now: TimeSpan,
    other: NodeIncarnation,
)
    requires
        other != association.remote_incarnation,
    ensures
        ({
            let event = EventModel::Command { association, scope, command };
            let next = leader.controlled(event, now).0;
            let domain_next = leader.domain_controlled(event, now).0;
            &&& next.sessions.contains_key(other) == leader.sessions.contains_key(other)
            &&& next.sessions[other] == leader.sessions[other]
            &&& domain_next.sessions.contains_key(other) == leader.sessions.contains_key(other)
            &&& domain_next.sessions[other] == leader.sessions[other]
        }),
{
}

/// The leader of a cluster refuses a command from a node that has no session, unless it is a hello.
pub proof fn law_strangers_are_refused(
    leader: LeaderModel,
    association: AssociationModel,
    scope: ScopeModel,
    command: CommandModel,
    now: TimeSpan,
)
    requires
        !leader.sessions.contains_key(association.remote_incarnation),
        !(command is NodeHello),
    ensures
        leader.controlled(EventModel::Command { association, scope, command }, now).1 is Err,
{
}

} // verus!
