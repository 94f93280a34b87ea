//! How members join, and what they may declare.
use vstd::prelude::*;

use crate::keymap::{option_view, seq_view, Key};
use crate::region::{EntityConfig, EntityConfigModel};
use crate::runtime::errors::{outcome, runtime_fault, CoordinatorRuntimeError, RuntimeErrorModel};
use crate::runtime::members::{
    AssociationKey, AssociationModel, DomainMemberRecord, DomainMemberStatus, DomainRecordModel,
    HelloModel, MemberRecord, MemberSession, MemberStatus, MembershipVersion, NodeHello,
    RecordModel, SessionModel, SingletonConfig, SingletonModel,
};
use crate::runtime::state::{LeaderModel, CoordinatorLeader};
use crate::sorted::ranked;
use crate::time::{MonotonicTime, TimeSpan};
use crate::types::{version_later, NodeIncarnation, VersionModel};

verus! {

impl LeaderModel {
    /// Whether a hello is not that of the node at the other end, or there is no room for it.
    pub open spec fn is_unwelcome(self, hello: HelloModel, association: AssociationModel) -> bool {
        ||| hello.node.incarnation != association.remote_incarnation
        ||| hello.node.address != association.remote_address
        ||| self.sessions.dom().len() == self.config.maximum_sessions
            && !self.sessions.contains_key(hello.node.incarnation)
    }

    /// Why the configuration of an entity type is refused, if it is.
    pub open spec fn entity_config_fault(self, config: EntityConfigModel) -> Option<
        RuntimeErrorModel,
    > {
        if self.entity_configs.contains_key(config.entity_type)
            && self.entity_configs[config.entity_type] != config {
            Some(RuntimeErrorModel::ConfigurationConflict)
        } else if !self.strategies.contains_key(self.policy_of(config)) {
            Some(RuntimeErrorModel::UnknownStrategy)
        } else {
            None
        }
    }

    pub open spec fn singleton_config_fault(self, config: SingletonModel) -> Option<
        RuntimeErrorModel,
    > {
        if self.singleton_configs.contains_key(config.kind)
            && self.singleton_configs[config.kind] != config {
            Some(RuntimeErrorModel::ConfigurationConflict)
        } else {
            None
        }
    }

    pub open spec fn with_entity_config(self, config: EntityConfigModel) -> LeaderModel {
        LeaderModel {
            entity_configs: self.entity_configs.insert(config.entity_type, config),
            ..self
        }
    }

    pub open spec fn with_singleton_config(self, config: SingletonModel) -> LeaderModel {
        LeaderModel {
            singleton_configs: self.singleton_configs.insert(config.kind, config),
            ..self
        }
    }

    /// The leader once it has taken up the first `n` of some configurations, and the first fault.
    pub open spec fn adopting_entities(self, configs: Seq<EntityConfigModel>, n: int) -> (
        LeaderModel,
        Option<RuntimeErrorModel>,
    )
        decreases n,
    {
        if n <= 0 {
            (self, None)
        } else {
            let (before, fault) = self.adopting_entities(configs, n - 1);
            if fault is Some {
                (before, fault)
            } else if before.entity_config_fault(configs[n - 1]) is Some {
                (before, before.entity_config_fault(configs[n - 1]))
            } else {
                (before.with_entity_config(configs[n - 1]), None)
            }
        }
    }

    pub open spec fn adopting_singletons(self, configs: Seq<SingletonModel>, n: int) -> (
        LeaderModel,
        Option<RuntimeErrorModel>,
    )
        decreases n,
    {
        if n <= 0 {
            (self, None)
        } else {
            let (before, fault) = self.adopting_singletons(configs, n - 1);
            if fault is Some {
                (before, fault)
            } else if before.singleton_config_fault(configs[n - 1]) is Some {
                (before, before.singleton_config_fault(configs[n - 1]))
            } else {
                (before.with_singleton_config(configs[n - 1]), None)
            }
        }
    }

    /// The leader of a cluster once it has looked at a hello: the lease that the node has, if it
    /// has one, or why the hello is refused. Configurations before a faulty one are taken up.
    pub open spec fn admitting(
        self,
        hello: HelloModel,
        association: AssociationModel,
        hello_fault: Option<Seq<char>>,
    ) -> (LeaderModel, Result<Option<i64>, RuntimeErrorModel>) {
        if hello_fault is Some {
            (self, Err(RuntimeErrorModel::Coordinator(hello_fault->0)))
        } else if self.is_unwelcome(hello, association) {
            (self, Err(RuntimeErrorModel::UnauthorizedCommand))
        } else {
            let (entities, first) = self.adopting_entities(
                hello.entity_configs,
                hello.entity_configs.len() as int,
            );
            let (all, second) = entities.adopting_singletons(
                hello.singleton_configs,
                hello.singleton_configs.len() as int,
            );
            if first is Some {
                (entities, Err(first->0))
            } else if second is Some {
                (all, Err(second->0))
            } else if all.sessions.contains_key(hello.node.incarnation) {
                (all, Ok(Some(all.sessions[hello.node.incarnation].lease_id)))
            } else {
                (all, Ok(None))
            }
        }
    }
}

proof fn lemma_entities_stop(
    leader: LeaderModel,
    configs: Seq<EntityConfigModel>,
    at: int,
    n: int,
)
    requires
        at <= n,
        leader.adopting_entities(configs, at).1 is Some,
    ensures
        leader.adopting_entities(configs, n) == leader.adopting_entities(configs, at),
    decreases n - at,
{
    if at < n {
        lemma_entities_stop(leader, configs, at, n - 1);
    }
}

proof fn lemma_singletons_stop(
    leader: LeaderModel,
    configs: Seq<SingletonModel>,
    at: int,
    n: int,
)
    requires
        at <= n,
        leader.adopting_singletons(configs, at).1 is Some,
    ensures
        leader.adopting_singletons(configs, n) == leader.adopting_singletons(configs, at),
    decreases n - at,
{
    if at < n {
        lemma_singletons_stop(leader, configs, at, n - 1);
    }
}

impl CoordinatorLeader {
    fn is_unwelcome(&self, hello: &NodeHello, association: &AssociationKey) -> (unwelcome: bool)
        ensures
            unwelcome == self@.is_unwelcome(hello@, association@),
    {
        hello.node.incarnation != association.remote_incarnation || !hello.node.address.same(
            &association.remote_address,
        ) || (self.sessions.len() == self.config.maximum_sessions && !self.sessions.contains_key(
            &hello.node.incarnation,
        ))
    }

    /// Checks the configuration of an entity type against what is known.
    pub fn check_entity_config(&self, config: &EntityConfig) -> (result: Result<
        (),
        CoordinatorRuntimeError,
    >)
        ensures
            runtime_fault(result) == self@.entity_config_fault(config@),
    {
        match self.entity_configs.get(config.entity_type()) {
            Some(current) => {
                if !current.same(config) {
                    return Err(CoordinatorRuntimeError::ConfigurationConflict);
                }
            },
            None => {},
        }
        if !self.knows_policy_of(config) {
            return Err(CoordinatorRuntimeError::UnknownStrategy);
        }
        Ok(())
    }

    /// Checks the configuration of a singleton against what is known.
    pub fn check_singleton_config(&self, config: &SingletonConfig) -> (result: Result<
        (),
        CoordinatorRuntimeError,
    >)
        ensures
            runtime_fault(result) == self@.singleton_config_fault(config@),
    {
        match self.singleton_configs.get(&config.kind) {
            Some(current) => {
                if !current.same(config) {
                    return Err(CoordinatorRuntimeError::ConfigurationConflict);
                }
            },
            None => {},
        }
        Ok(())
    }

    pub fn adopt_entity_config(&mut self, config: &EntityConfig)
        ensures
            final(self)@ == old(self)@.with_entity_config(config@),
    {
        self.entity_configs.insert(config.entity_type().copy(), config.copy());
    }

    pub fn adopt_singleton_config(&mut self, config: &SingletonConfig)
        ensures
            final(self)@ == old(self)@.with_singleton_config(config@),
    {
        self.singleton_configs.insert(config.kind.copy(), config.copy());
    }

    fn adopt_entities(&mut self, configs: &Vec<EntityConfig>) -> (result: Result<
        (),
        CoordinatorRuntimeError,
    >)
        ensures
            (final(self)@, runtime_fault(result)) == old(self)@.adopting_entities(
                seq_view(configs@),
                configs@.len() as int,
            ),
    {
        let ghost list = seq_view(configs@);
        let mut i: usize = 0;
        while i < configs.len()
            invariant
                i <= configs.len(),
                list == seq_view(configs@),
                old(self)@.adopting_entities(list, i as int) == (
                    self@,
                    None::<RuntimeErrorModel>,
                ),
            decreases configs.len() - i,
        {
            assert(list[i as int] == configs@[i as int]@);
            match self.check_entity_config(&configs[i]) {
                Ok(()) => {},
                Err(error) => {
                    proof {
                        lemma_entities_stop(old(self)@, list, i + 1, list.len() as int);
                    }
                    return Err(error);
                },
            }
            self.adopt_entity_config(&configs[i]);
            i = i + 1;
        }
        Ok(())
    }

    fn adopt_singletons(&mut self, configs: &Vec<SingletonConfig>) -> (result: Result<
        (),
        CoordinatorRuntimeError,
    >)
        ensures
            (final(self)@, runtime_fault(result)) == old(self)@.adopting_singletons(
                seq_view(configs@),
                configs@.len() as int,
            ),
    {
        let ghost list = seq_view(configs@);
        let mut i: usize = 0;
        while i < configs.len()
            invariant
                i <= configs.len(),
                list == seq_view(configs@),
                old(self)@.adopting_singletons(list, i as int) == (
                    self@,
                    None::<RuntimeErrorModel>,
                ),
            decreases configs.len() - i,
        {
            assert(list[i as int] == configs@[i as int]@);
            match self.check_singleton_config(&configs[i]) {
                Ok(()) => {},
                Err(error) => {
                    proof {
                        lemma_singletons_stop(old(self)@, list, i + 1, list.len() as int);
                    }
                    return Err(error);
                },
            }
            self.adopt_singleton_config(&configs[i]);
            i = i + 1;
        }
        Ok(())
    }

    /// Looks at a hello as the leader of a cluster: the lease that the node has, if it has one.
    pub fn admit_hello(
        &mut self,
        hello: &NodeHello,
        association: &AssociationKey,
        hello_fault: Option<String>,
    ) -> (result: Result<Option<i64>, CoordinatorRuntimeError>)
        ensures
            ({
                let (after, admitted) = old(self)@.admitting(
                    hello@,
                    association@,
                    option_view(hello_fault),
                );
                &&& final(self)@ == after
                &&& match result {
                    Ok(lease) => admitted == Ok::<_, RuntimeErrorModel>(lease),
                    Err(error) => admitted == Err::<Option<i64>, _>(error@),
                }
            }),
    {
        match hello_fault {
            Some(fault) => {
                return Err(CoordinatorRuntimeError::Coordinator(fault));
            },
            None => {},
        }
        if self.is_unwelcome(hello, association) {
            return Err(CoordinatorRuntimeError::UnauthorizedCommand);
        }
        match self.adopt_entities(&hello.entity_configs) {
            Ok(()) => {},
            Err(error) => {
                return Err(error);
            },
        }
        match self.adopt_singletons(&hello.singleton_configs) {
            Ok(()) => {},
            Err(error) => {
                return Err(error);
            },
        }
        match self.sessions.get(&hello.node.incarnation) {
            Some(session) => Ok(Some(session.lease_id)),
            None => Ok(None),
        }
    }
}

/// The session of a member of a cluster that has just said hello.
pub open spec fn joined_session(
    hello: HelloModel,
    record: RecordModel,
    association: AssociationModel,
    version: VersionModel,
    at: TimeSpan,
    joined_at: MonotonicTime,
) -> SessionModel {
    SessionModel {
        hello,
        record: RecordModel { status: MemberStatus::Up, ..record },
        domain_record: Some(
            DomainRecordModel {
                node: hello.node,
                hello,
                status: DomainMemberStatus::Up,
                version,
            },
        ),
        association,
        lease_id: record.lease_id,
        heartbeat_sequence: 0,
        last_heartbeat: at,
        applied_version: None,
        snapshot_version: None,
        draining: false,
        joined_at,
    }
}

impl CoordinatorLeader {
    /// Takes up the session of a member of a cluster, which is up at once. A node that was
    /// connected before keeps the time at which it joined.
    pub fn join(
        &mut self,
        hello: NodeHello,
        record: MemberRecord,
        association: AssociationKey,
        at: TimeSpan,
        now: MonotonicTime,
    )
        ensures
            final(self)@ == old(self)@.with_session(
                hello@.node.incarnation,
                joined_session(
                    hello@,
                    record@,
                    association@,
                    old(self)@.version,
                    at,
                    if old(self)@.sessions.contains_key(hello@.node.incarnation) {
                        old(self)@.sessions[hello@.node.incarnation].joined_at
                    } else {
                        now
                    },
                ),
            ),
    {
        let incarnation = hello.node.incarnation;
        let joined_at = match self.sessions.get(&incarnation) {
            Some(session) => session.joined_at,
            None => now,
        };
        let domain_record = DomainMemberRecord {
            node: hello.node.copy(),
            hello: hello.copy(),
            status: DomainMemberStatus::Up,
            version: self.version.copy(),
        };
        let lease_id = record.lease_id;
        let mut record = record;
        record.status = MemberStatus::Up;
        let session = MemberSession {
            hello,
            record,
            domain_record: Some(domain_record),
            association,
            lease_id,
            heartbeat_sequence: 0,
            last_heartbeat: at,
            applied_version: None,
            snapshot_version: None,
            draining: false,
            joined_at,
        };
        self.sessions.insert(incarnation, session);
    }
}

/// What the leader of a domain does about a hello.
pub enum RegisterStep {
    /// The session stands; its snapshot and record are sent again.
    Refreshed { record: MemberRecord },
    /// The node joins; its configurations are stored first.
    Join { record: MemberRecord },
}

pub enum RegisterModel {
    Refreshed { record: RecordModel },
    Join { record: RecordModel },
}

impl View for RegisterStep {
    type V = RegisterModel;

    open spec fn view(&self) -> RegisterModel {
        match self {
            RegisterStep::Refreshed { record } => RegisterModel::Refreshed { record: record@ },
            RegisterStep::Join { record } => RegisterModel::Join { record: record@ },
        }
    }
}

impl LeaderModel {
    /// The leader of a domain once it has looked at a hello and at the record of the node.
    pub open spec fn registering(
        self,
        hello: HelloModel,
        association: AssociationModel,
        hello_fault: Option<Seq<char>>,
        record: Option<RecordModel>,
        now: TimeSpan,
    ) -> (LeaderModel, Result<RegisterModel, RuntimeErrorModel>) {
        let id = hello.node.incarnation;
        let session = self.sessions[id];
        if hello_fault is Some {
            (self, Err(RuntimeErrorModel::Coordinator(hello_fault->0)))
        } else if hello.domain != self.version.domain || self.is_unwelcome(hello, association) {
            (self, Err(RuntimeErrorModel::UnauthorizedCommand))
        } else if record is None || record->0.node != hello.node || record->0.status
            != MemberStatus::Up {
            (self, Err(RuntimeErrorModel::StaleMember))
        } else if !self.sessions.contains_key(id) {
            (self, Ok(RegisterModel::Join { record: record->0 }))
        } else if session.record != record->0 || session.hello != hello || session.association
            != association {
            (self, Err(RuntimeErrorModel::UnauthorizedCommand))
        } else {
            (
                self.with_session(
                    id,
                    SessionModel {
                        last_heartbeat: now,
                        snapshot_version: Some(self.membership_version),
                        ..session
                    },
                ),
                Ok(RegisterModel::Refreshed { record: record->0 }),
            )
        }
    }

    /// Why a configuration is refused where there is room for only so many, if it is.
    pub open spec fn bounded_entity_config_fault(self, config: EntityConfigModel) -> Option<
        RuntimeErrorModel,
    > {
        if self.entity_configs.dom().len() == self.limits.maximum_entity_configs
            && !self.entity_configs.contains_key(config.entity_type) {
            Some(RuntimeErrorModel::ConfigurationCapacity)
        } else {
            self.entity_config_fault(config)
        }
    }

    pub open spec fn bounded_singleton_config_fault(self, config: SingletonModel) -> Option<
        RuntimeErrorModel,
    > {
        if self.singleton_configs.dom().len() == self.limits.maximum_singleton_configs
            && !self.singleton_configs.contains_key(config.kind) {
            Some(RuntimeErrorModel::ConfigurationCapacity)
        } else {
            self.singleton_config_fault(config)
        }
    }
}

impl CoordinatorLeader {
    /// Looks at a hello as the leader of a placement domain.
    pub fn register(
        &mut self,
        hello: &NodeHello,
        association: &AssociationKey,
        hello_fault: Option<String>,
        record: Option<MemberRecord>,
        now: TimeSpan,
    ) -> (result: Result<RegisterStep, CoordinatorRuntimeError>)
        ensures
            (final(self)@, outcome(result)) == old(self)@.registering(
                hello@,
                association@,
                option_view(hello_fault),
                option_view(record),
                now,
            ),
    {
        match hello_fault {
            Some(fault) => {
                return Err(CoordinatorRuntimeError::Coordinator(fault));
            },
            None => {},
        }
        if !hello.domain.same(&self.version.domain) || self.is_unwelcome(hello, association) {
            return Err(CoordinatorRuntimeError::UnauthorizedCommand);
        }
        let record = match record {
            None => {
                return Err(CoordinatorRuntimeError::StaleMember);
            },
            Some(record) => record,
        };
        if !record.node.same(&hello.node) || record.status != MemberStatus::Up {
            return Err(CoordinatorRuntimeError::StaleMember);
        }
        let id = hello.node.incarnation;
        match self.sessions.get(&id) {
            None => {
                return Ok(RegisterStep::Join { record });
            },
            Some(session) => {
                if !session.record.same(&record) || !session.hello.same(hello)
                    || !session.association.same(association) {
                    return Err(CoordinatorRuntimeError::UnauthorizedCommand);
                }
            },
        }
        match self.sessions.take(&id) {
            None => Err(CoordinatorRuntimeError::UnknownSession),
            Some(session) => {
                let mut session = session;
                session.last_heartbeat = now;
                session.snapshot_version = Some(self.membership_version);
                self.sessions.insert(id, session);
                assert(self@ =~= old(self)@.with_session(
                    id,
                    SessionModel {
                        last_heartbeat: now,
                        snapshot_version: Some(old(self)@.membership_version),
                        ..old(self)@.sessions[id]
                    },
                ));
                Ok(RegisterStep::Refreshed { record })
            },
        }
    }

    /// Whether a configuration that a hello declares is to be stored; none that is refused is.
    pub fn persist_entity_config(&self, config: &EntityConfig) -> (result: Result<
        bool,
        CoordinatorRuntimeError,
    >)
        ensures
            outcome(result) == match self@.bounded_entity_config_fault(config@) {
                Some(error) => Err(error),
                None => Ok(!self@.entity_configs.contains_key(config@.entity_type)),
            },
    {
        let known = self.entity_configs.contains_key(config.entity_type());
        if self.entity_configs.len() == self.limits.maximum_entity_configs && !known {
            return Err(CoordinatorRuntimeError::ConfigurationCapacity);
        }
        match self.check_entity_config(config) {
            Ok(()) => Ok(!known),
            Err(error) => Err(error),
        }
    }

    /// Whether a configuration that a hello declares is to be stored; none that is refused is.
    pub fn persist_singleton_config(&self, config: &SingletonConfig) -> (result: Result<
        bool,
        CoordinatorRuntimeError,
    >)
        ensures
            outcome(result) == match self@.bounded_singleton_config_fault(config@) {
                Some(error) => Err(error),
                None => Ok(!self@.singleton_configs.contains_key(config@.kind)),
            },
    {
        let known = self.singleton_configs.contains_key(&config.kind);
        if self.singleton_configs.len() == self.limits.maximum_singleton_configs && !known {
            return Err(CoordinatorRuntimeError::ConfigurationCapacity);
        }
        match self.check_singleton_config(config) {
            Ok(()) => Ok(!known),
            Err(error) => Err(error),
        }
    }
}

impl LeaderModel {
    /// The leader of a domain once a node has joined it, provided that its record still stands.
    pub open spec fn domain_joined(
        self,
        hello: HelloModel,
        record: RecordModel,
        current: Option<RecordModel>,
        association: AssociationModel,
        at: TimeSpan,
        now: MonotonicTime,
    ) -> (LeaderModel, Option<RuntimeErrorModel>) {
        if current != Some(record) {
            (self, Some(RuntimeErrorModel::StaleMember))
        } else {
            let membership_version = if self.membership_version.before(record.version) {
                record.version
            } else {
                self.membership_version
            };
            (
                LeaderModel { membership_version, ..self }.with_session(
                    hello.node.incarnation,
                    SessionModel {
                        hello,
                        record,
                        domain_record: None,
                        association,
                        lease_id: record.lease_id,
                        heartbeat_sequence: 0,
                        last_heartbeat: at,
                        applied_version: None,
                        snapshot_version: Some(membership_version),
                        draining: record.status == MemberStatus::Leaving,
                        joined_at: now,
                    },
                ),
                None,
            )
        }
    }

    /// Why a member that says it is ready is not taken up, if it is not; nothing is done about one
    /// that answers an older snapshot.
    pub open spec fn marking_up(
        self,
        incarnation: NodeIncarnation,
        snapshot_version: MembershipVersion,
        association: AssociationModel,
    ) -> Result<bool, RuntimeErrorModel> {
        let session = self.sessions[incarnation];
        if !self.sessions.contains_key(incarnation) {
            Err(RuntimeErrorModel::UnknownSession)
        } else if session.association != association || session.record.node.incarnation
            != incarnation {
            Err(RuntimeErrorModel::StaleMember)
        } else if session.snapshot_version != Some(snapshot_version) {
            if session.snapshot_version is Some && snapshot_version.before(
                session.snapshot_version->0,
            ) {
                Ok(false)
            } else {
                Err(RuntimeErrorModel::StaleMember)
            }
        } else if session.record.status != MemberStatus::Up {
            Err(RuntimeErrorModel::StaleMember)
        } else {
            Ok(true)
        }
    }
}

impl CoordinatorLeader {
    /// Takes up the session of a node that joins a placement domain.
    pub fn join_domain(
        &mut self,
        hello: NodeHello,
        record: &MemberRecord,
        current: Option<MemberRecord>,
        association: AssociationKey,
        at: TimeSpan,
        now: MonotonicTime,
    ) -> (result: Result<(), CoordinatorRuntimeError>)
        ensures
            (final(self)@, runtime_fault(result)) == old(self)@.domain_joined(
                hello@,
                record@,
                option_view(current),
                association@,
                at,
                now,
            ),
    {
        let record = match current {
            None => {
                return Err(CoordinatorRuntimeError::StaleMember);
            },
            Some(current) => {
                if !current.same(record) {
                    return Err(CoordinatorRuntimeError::StaleMember);
                }
                current
            },
        };
        if self.membership_version.is_before(&record.version) {
            self.membership_version = record.version;
        }
        let incarnation = hello.node.incarnation;
        let lease_id = record.lease_id;
        let draining = record.status == MemberStatus::Leaving;
        let session = MemberSession {
            hello,
            record,
            domain_record: None,
            association,
            lease_id,
            heartbeat_sequence: 0,
            last_heartbeat: at,
            applied_version: None,
            snapshot_version: Some(self.membership_version),
            draining,
            joined_at: now,
        };
        self.sessions.insert(incarnation, session);
        Ok(())
    }

    /// Whether a member that says it is ready is taken up.
    pub fn mark_member_up(
        &self,
        incarnation: NodeIncarnation,
        snapshot_version: MembershipVersion,
        association: &AssociationKey,
    ) -> (result: Result<bool, CoordinatorRuntimeError>)
        ensures
            outcome(result) == self@.marking_up(incarnation, snapshot_version, association@),
    {
        let session = match self.sessions.get(&incarnation) {
            None => {
                return Err(CoordinatorRuntimeError::UnknownSession);
            },
            Some(session) => session,
        };
        if !session.association.same(association) || session.record.node.incarnation
            != incarnation {
            return Err(CoordinatorRuntimeError::StaleMember);
        }
        match session.snapshot_version {
            None => {
                return Err(CoordinatorRuntimeError::StaleMember);
            },
            Some(current) => {
                if current != snapshot_version {
                    return if snapshot_version.is_before(&current) {
                        Ok(false)
                    } else {
                        Err(CoordinatorRuntimeError::StaleMember)
                    };
                }
            },
        }
        if session.record.status != MemberStatus::Up {
            return Err(CoordinatorRuntimeError::StaleMember);
        }
        Ok(true)
    }
}

/// What is stored so that a member takes part in a domain.
pub enum DomainMemberStep {
    /// The record stands.
    Keep { member: DomainMemberRecord },
    /// The record of another boot is removed first, and what it held is given up.
    RemovePredecessor { expected: DomainMemberRecord },
    Update { expected: DomainMemberRecord, member: DomainMemberRecord },
    Create { member: DomainMemberRecord },
}

pub enum DomainStepModel {
    Keep { member: DomainRecordModel },
    RemovePredecessor { expected: DomainRecordModel },
    Update { expected: DomainRecordModel, member: DomainRecordModel },
    Create { member: DomainRecordModel },
}

impl View for DomainMemberStep {
    type V = DomainStepModel;

    open spec fn view(&self) -> DomainStepModel {
        match self {
            DomainMemberStep::Keep { member } => DomainStepModel::Keep { member: member@ },
            DomainMemberStep::RemovePredecessor { expected } =>
                DomainStepModel::RemovePredecessor { expected: expected@ },
            DomainMemberStep::Update { expected, member } => DomainStepModel::Update {
                expected: expected@,
                member: member@,
            },
            DomainMemberStep::Create { member } => DomainStepModel::Create { member: member@ },
        }
    }
}

/// A change of the record of a member of a domain.
pub struct DomainMemberUpdate {
    pub expected_global_member: MemberRecord,
    pub expected: DomainMemberRecord,
    pub member: DomainMemberRecord,
}

#[verifier::ext_equal]
pub struct DomainUpdateModel {
    pub expected_global_member: RecordModel,
    pub expected: DomainRecordModel,
    pub member: DomainRecordModel,
}

impl View for DomainMemberUpdate {
    type V = DomainUpdateModel;

    open spec fn view(&self) -> DomainUpdateModel {
        DomainUpdateModel {
            expected_global_member: self.expected_global_member@,
            expected: self.expected@,
            member: self.member@,
        }
    }
}

impl LeaderModel {
    /// The record of a member that takes part in the domain from the next version on.
    pub open spec fn new_domain_member(self, incarnation: NodeIncarnation) -> Result<
        DomainRecordModel,
        RuntimeErrorModel,
    > {
        let hello = self.sessions[incarnation].hello;
        match self.version.spec_next() {
            None => Err(RuntimeErrorModel::RevisionExhausted),
            Some(version) => Ok(
                DomainRecordModel {
                    node: hello.node,
                    hello,
                    status: DomainMemberStatus::Up,
                    version,
                },
            ),
        }
    }

    /// What is stored so that a member takes part in the domain, given what is stored.
    pub open spec fn raising(
        self,
        incarnation: NodeIncarnation,
        existing: Option<DomainRecordModel>,
    ) -> Result<DomainStepModel, RuntimeErrorModel> {
        let session = self.sessions[incarnation];
        if !self.sessions.contains_key(incarnation) {
            Err(RuntimeErrorModel::UnknownSession)
        } else if session.record.status != MemberStatus::Up {
            Err(RuntimeErrorModel::StaleMember)
        } else {
            match existing {
                None => match self.new_domain_member(incarnation) {
                    Err(error) => Err(error),
                    Ok(member) => Ok(DomainStepModel::Create { member }),
                },
                Some(current) => if current.node == session.hello.node && current.hello
                    == session.hello && current.status == DomainMemberStatus::Up
                    && current.version.term == self.version.term {
                    Ok(DomainStepModel::Keep { member: current })
                } else if current.node != session.hello.node {
                    Ok(DomainStepModel::RemovePredecessor { expected: current })
                } else {
                    match self.new_domain_member(incarnation) {
                        Err(error) => Err(error),
                        Ok(member) => Ok(DomainStepModel::Update { expected: current, member }),
                    }
                },
            }
        }
    }

    /// The leader once the record of a member of the domain is stored.
    pub open spec fn raised(self, incarnation: NodeIncarnation, member: DomainRecordModel) -> (
        LeaderModel,
        Option<RuntimeErrorModel>,
    ) {
        let version = if version_later(member.version, self.version) {
            member.version
        } else {
            self.version
        };
        let next = LeaderModel { version, ..self };
        if self.sessions.contains_key(incarnation) {
            (
                next.with_session(
                    incarnation,
                    SessionModel {
                        domain_record: Some(member),
                        ..self.sessions[incarnation]
                    },
                ),
                None,
            )
        } else {
            (next, Some(RuntimeErrorModel::UnknownSession))
        }
    }

    /// Whether a changed hello has to be stored, or why it is refused.
    pub open spec fn hello_change(
        self,
        incarnation: NodeIncarnation,
        hello: HelloModel,
        hello_fault: Option<Seq<char>>,
    ) -> Result<bool, RuntimeErrorModel> {
        let session = self.sessions[incarnation];
        if hello_fault is Some {
            Err(RuntimeErrorModel::Coordinator(hello_fault->0))
        } else if !self.sessions.contains_key(incarnation) {
            Err(RuntimeErrorModel::UnknownSession)
        } else if session.record.status != MemberStatus::Up || hello.node != session.record.node {
            Err(RuntimeErrorModel::StaleMember)
        } else {
            Ok(hello != session.hello)
        }
    }

    /// What storing a changed hello writes.
    pub open spec fn hello_update(self, incarnation: NodeIncarnation, hello: HelloModel) -> Result<
        DomainUpdateModel,
        RuntimeErrorModel,
    > {
        let session = self.sessions[incarnation];
        if !self.sessions.contains_key(incarnation) {
            Err(RuntimeErrorModel::UnknownSession)
        } else if session.domain_record is None {
            Err(RuntimeErrorModel::StaleMember)
        } else {
            match self.version.spec_next() {
                None => Err(RuntimeErrorModel::RevisionExhausted),
                Some(version) => Ok(
                    DomainUpdateModel {
                        expected_global_member: session.record,
                        expected: session.domain_record->0,
                        member: DomainRecordModel { hello, version, ..session.domain_record->0 },
                    },
                ),
            }
        }
    }

    /// The leader once a changed hello is stored.
    pub open spec fn hello_stored(
        self,
        incarnation: NodeIncarnation,
        hello: HelloModel,
        member: DomainRecordModel,
    ) -> (LeaderModel, Result<AssociationModel, RuntimeErrorModel>) {
        let next = LeaderModel { version: member.version, ..self };
        let session = self.sessions[incarnation];
        if self.sessions.contains_key(incarnation) {
            (
                next.with_session(
                    incarnation,
                    SessionModel { hello, domain_record: Some(member), ..session },
                ),
                Ok(session.association),
            )
        } else {
            (next, Err(RuntimeErrorModel::UnknownSession))
        }
    }
}

impl CoordinatorLeader {
    /// The record of a member that takes part in the domain from the next version on.
    pub fn new_domain_member(&self, incarnation: NodeIncarnation) -> (result: Result<
        DomainMemberRecord,
        CoordinatorRuntimeError,
    >)
        requires
            self@.sessions.contains_key(incarnation),
        ensures
            outcome(result) == self@.new_domain_member(incarnation),
    {
        let version = match self.next_version() {
            Ok(version) => version,
            Err(error) => {
                return Err(error);
            },
        };
        match self.sessions.get(&incarnation) {
            Some(session) => Ok(
                DomainMemberRecord {
                    node: session.hello.node.copy(),
                    hello: session.hello.copy(),
                    status: DomainMemberStatus::Up,
                    version,
                },
            ),
            None => Err(CoordinatorRuntimeError::UnknownSession),
        }
    }

    /// What is stored so that a member takes part in the domain, given what is stored.
    pub fn ensure_domain_member_up(
        &self,
        incarnation: NodeIncarnation,
        existing: Option<DomainMemberRecord>,
    ) -> (result: Result<DomainMemberStep, CoordinatorRuntimeError>)
        ensures
            outcome(result) == self@.raising(incarnation, option_view(existing)),
    {
        let session = match self.sessions.get(&incarnation) {
            None => {
                return Err(CoordinatorRuntimeError::UnknownSession);
            },
            Some(session) => session,
        };
        if session.record.status != MemberStatus::Up {
            return Err(CoordinatorRuntimeError::StaleMember);
        }
        match existing {
            None => match self.new_domain_member(incarnation) {
                Ok(member) => Ok(DomainMemberStep::Create { member }),
                Err(error) => Err(error),
            },
            Some(current) => {
                let same_node = current.node.same(&session.hello.node);
                if same_node && current.hello.same(&session.hello) && current.status
                    == DomainMemberStatus::Up && current.version.term == self.version.term {
                    return Ok(DomainMemberStep::Keep { member: current });
                }
                if !same_node {
                    return Ok(DomainMemberStep::RemovePredecessor { expected: current });
                }
                match self.new_domain_member(incarnation) {
                    Ok(member) => Ok(DomainMemberStep::Update { expected: current, member }),
                    Err(error) => Err(error),
                }
            },
        }
    }

    /// Takes note of the stored record of a member of the domain.
    pub fn install_domain_member(
        &mut self,
        incarnation: NodeIncarnation,
        member: DomainMemberRecord,
    ) -> (result: Result<(), CoordinatorRuntimeError>)
        ensures
            (final(self)@, runtime_fault(result)) == old(self)@.raised(incarnation, member@),
    {
        if member.version.is_later_than(&self.version) {
            self.version = member.version.copy();
        }
        match self.sessions.take(&incarnation) {
            None => {
                assert(self@ =~= old(self)@.raised(incarnation, member@).0);
                Err(CoordinatorRuntimeError::UnknownSession)
            },
            Some(session) => {
                let mut session = session;
                session.domain_record = Some(member);
                self.sessions.insert(incarnation, session);
                assert(self@ =~= old(self)@.raised(incarnation, member@).0);
                Ok(())
            },
        }
    }

    /// Whether a changed hello has to be stored.
    pub fn check_domain_hello(
        &self,
        incarnation: NodeIncarnation,
        hello: &NodeHello,
        hello_fault: Option<String>,
    ) -> (result: Result<bool, CoordinatorRuntimeError>)
        ensures
            outcome(result) == self@.hello_change(incarnation, hello@, option_view(hello_fault)),
    {
        match hello_fault {
            Some(fault) => {
                return Err(CoordinatorRuntimeError::Coordinator(fault));
            },
            None => {},
        }
        match self.sessions.get(&incarnation) {
            None => Err(CoordinatorRuntimeError::UnknownSession),
            Some(session) => if session.record.status != MemberStatus::Up || !hello.node.same(
                &session.record.node,
            ) {
                Err(CoordinatorRuntimeError::StaleMember)
            } else {
                Ok(!hello.same(&session.hello))
            },
        }
    }

    /// What storing a changed hello writes.
    pub fn persist_domain_hello(&self, incarnation: NodeIncarnation, hello: &NodeHello) -> (result:
        Result<DomainMemberUpdate, CoordinatorRuntimeError>)
        ensures
            outcome(result) == self@.hello_update(incarnation, hello@),
    {
        let session = match self.sessions.get(&incarnation) {
            None => {
                return Err(CoordinatorRuntimeError::UnknownSession);
            },
            Some(session) => session,
        };
        let expected = match &session.domain_record {
            None => {
                return Err(CoordinatorRuntimeError::StaleMember);
            },
            Some(record) => record,
        };
        match self.next_version() {
            Err(error) => Err(error),
            Ok(version) => Ok(
                DomainMemberUpdate {
                    expected_global_member: session.record.copy(),
                    expected: expected.copy(),
                    member: DomainMemberRecord {
                        node: expected.node.copy(),
                        hello: hello.copy(),
                        status: expected.status,
                        version,
                    },
                },
            ),
        }
    }

    /// Takes note of a changed hello that is stored, and says where its snapshot goes.
    pub fn apply_domain_hello(
        &mut self,
        incarnation: NodeIncarnation,
        hello: NodeHello,
        member: DomainMemberRecord,
    ) -> (result: Result<AssociationKey, CoordinatorRuntimeError>)
        ensures
            (final(self)@, outcome(result)) == old(self)@.hello_stored(
                incarnation,
                hello@,
                member@,
            ),
    {
        self.version = member.version.copy();
        match self.sessions.take(&incarnation) {
            None => {
                assert(self@ =~= old(self)@.hello_stored(incarnation, hello@, member@).0);
                Err(CoordinatorRuntimeError::UnknownSession)
            },
            Some(session) => {
                let mut session = session;
                let association = session.association.copy();
                session.hello = hello;
                session.domain_record = Some(member);
                self.sessions.insert(incarnation, session);
                assert(self@ =~= old(self)@.hello_stored(incarnation, hello@, member@).0);
                Ok(association)
            },
        }
    }
}

/// How a session is brought up to date: by a delta, or by a whole snapshot.
pub struct Synchronization {
    pub hello: NodeHello,
    pub association: AssociationKey,
    pub by_delta: bool,
}

#[verifier::ext_equal]
pub struct SynchronizationModel {
    pub hello: HelloModel,
    pub association: AssociationModel,
    pub by_delta: bool,
}

impl View for Synchronization {
    type V = SynchronizationModel;

    open spec fn view(&self) -> SynchronizationModel {
        SynchronizationModel {
            hello: self.hello@,
            association: self.association@,
            by_delta: self.by_delta,
        }
    }
}

/// Whether a delta to a version can be applied right after another: there is no gap.
pub open spec fn follows(version: VersionModel, applied: VersionModel) -> bool {
    applied.spec_next() == Some(version)
}

impl LeaderModel {
    /// How the first `n` sessions are brought up to date.
    pub open spec fn synchronized_first(self, ids: Seq<NodeIncarnation>, n: int) -> Seq<
        SynchronizationModel,
    >
        decreases n,
    {
        if n <= 0 {
            Seq::empty()
        } else {
            let before = self.synchronized_first(ids, n - 1);
            let session = self.sessions[ids[n - 1]];
            if session.up() {
                before.push(
                    SynchronizationModel {
                        hello: session.hello,
                        association: session.association,
                        by_delta: session.applied_version is Some && follows(
                            self.version,
                            session.applied_version->0,
                        ),
                    },
                )
            } else {
                before
            }
        }
    }

    pub open spec fn synchronized(self) -> Seq<SynchronizationModel> {
        let ids = ranked::<NodeIncarnation>(self.sessions.dom());
        self.synchronized_first(ids, ids.len() as int)
    }
}

impl CoordinatorLeader {
    /// How the members that are up are brought to the current version, in order.
    pub fn synchronize_sessions(&self) -> (steps: Vec<Synchronization>)
        ensures
            seq_view(steps@) == self@.synchronized(),
    {
        let len = self.sessions.len();
        let ghost ids = ranked::<NodeIncarnation>(self.sessions@.dom());
        let mut steps: Vec<Synchronization> = Vec::new();
        let mut i: usize = 0;
        assert(seq_view(steps@) =~= Seq::<SynchronizationModel>::empty());
        while i < len
            invariant
                i <= len,
                len == ids.len(),
                ids == ranked::<NodeIncarnation>(self.sessions@.dom()),
                seq_view(steps@) == self@.synchronized_first(ids, i as int),
            decreases len - i,
        {
            let (_, session) = self.sessions.entry_at(i);
            if session.placement_up() {
                let by_delta = match &session.applied_version {
                    None => false,
                    Some(applied) => match applied.next_revision() {
                        Some(next) => next.same(&self.version),
                        None => false,
                    },
                };
                let ghost before = seq_view(steps@);
                let step = Synchronization {
                    hello: session.hello.copy(),
                    association: session.association.copy(),
                    by_delta,
                };
                steps.push(step);
                assert(seq_view(steps@) =~= before.push(step@));
            }
            i = i + 1;
        }
        steps
    }
}

} // verus!
