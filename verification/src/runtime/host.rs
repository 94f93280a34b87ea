//! A host: one process that stands for the membership of the cluster and for placement domains.
use vstd::prelude::*;
use vstd::string::StringExecFns;

use crate::keymap::{seq_view, Key, KeyMap};
use crate::order::{
    compare_text, lemma_text_irreflexive, lemma_text_total, lemma_text_transitive, text_less, Order,
};
use crate::plan::{lemma_filter_step, RebalancePlan};
use crate::ranking::{AllocationStrategy, PolicyKey, PolicyModel};
use crate::runtime::config::CoordinatorLeaderConfig;
use crate::runtime::control::{CoordinatorScope, ScopeModel};
use crate::runtime::errors::{outcome, runtime_fault, CoordinatorRuntimeError, RuntimeErrorModel};
use crate::runtime::members::{
    AssociationKey, AssociationModel, MemberHello, MemberHelloModel, MembershipVersion,
};
use crate::sorted::{ranked, Ranked, SortedMap, SortedSet};
use crate::runtime::state::{CoordinatorLeader, DurableLimits, LeaderModel};
use crate::time::TimeSpan;
use crate::types::{
    CoordinatorTerm, NodeIncarnation, NodeKey, NodeModel, PlacementDomainId, PlacementSlot,
};

pub mod drain;
pub mod host_laws;
pub mod member_fanout;
pub mod routing;

verus! {

impl Ranked for CoordinatorScope {
    open spec fn less(left: ScopeModel, right: ScopeModel) -> bool {
        match (left, right) {
            (CoordinatorScope::Membership, CoordinatorScope::Placement(_)) => true,
            (CoordinatorScope::Placement(a), CoordinatorScope::Placement(b)) => text_less(a, b),
            _ => false,
        }
    }

    proof fn lemma_irreflexive(key: ScopeModel) {
        if let CoordinatorScope::Placement(domain) = key {
            lemma_text_irreflexive(domain);
        }
    }

    proof fn lemma_transitive(a: ScopeModel, b: ScopeModel, c: ScopeModel) {
        if let CoordinatorScope::Placement(x) = a {
            lemma_text_transitive(x, b->Placement_0, c->Placement_0);
        }
    }

    proof fn lemma_total(a: ScopeModel, b: ScopeModel) {
        lemma_text_total(a->Placement_0, b->Placement_0);
    }

    fn compare(&self, other: &Self) -> (order: Order) {
        let order = match (self, other) {
            (CoordinatorScope::Membership, CoordinatorScope::Membership) => Order::Equal,
            (CoordinatorScope::Membership, CoordinatorScope::Placement(_)) => Order::Less,
            (CoordinatorScope::Placement(_), CoordinatorScope::Membership) => Order::Greater,
            (CoordinatorScope::Placement(a), CoordinatorScope::Placement(b)) => compare_text(a, b),
        };
        assert(order is Less ==> Self::less(self@, other@));
        assert(order is Greater ==> Self::less(other@, self@));
        order
    }
}

/// Who leads a scope, under which term.
#[derive(Debug, PartialEq, Eq)]
pub struct LeaderRecord<S = String> {
    pub scope: CoordinatorScope<S>,
    pub node: NodeKey<S>,
    pub protocol_generation: u64,
    pub term: CoordinatorTerm,
}

pub type LeaderRecordModel = LeaderRecord<Seq<char>>;

impl View for LeaderRecord {
    type V = LeaderRecordModel;

    open spec fn view(&self) -> LeaderRecordModel {
        LeaderRecord {
            scope: self.scope@,
            node: self.node@,
            protocol_generation: self.protocol_generation,
            term: self.term,
        }
    }
}

impl Key for LeaderRecord {
    fn same(&self, other: &Self) -> (same: bool) {
        self.scope.same(&other.scope) && self.node.same(&other.node) && self.protocol_generation
            == other.protocol_generation && self.term == other.term
    }

    fn copy(&self) -> (copy: Self) {
        LeaderRecord {
            scope: self.scope.copy(),
            node: self.node.copy(),
            protocol_generation: self.protocol_generation,
            term: self.term,
        }
    }
}

/// Where a host stands in a scope.
#[derive(Debug, PartialEq, Eq)]
pub enum CoordinatorHostScopeState<R = LeaderRecord> {
    Active(R),
    Standby,
    Failed,
}

pub type ScopeStateModel = CoordinatorHostScopeState<LeaderRecordModel>;

impl View for CoordinatorHostScopeState {
    type V = ScopeStateModel;

    open spec fn view(&self) -> ScopeStateModel {
        match self {
            CoordinatorHostScopeState::Active(record) => CoordinatorHostScopeState::Active(record@),
            CoordinatorHostScopeState::Standby => CoordinatorHostScopeState::Standby,
            CoordinatorHostScopeState::Failed => CoordinatorHostScopeState::Failed,
        }
    }
}

impl Key for CoordinatorHostScopeState {
    fn same(&self, other: &Self) -> (same: bool) {
        match (self, other) {
            (
                CoordinatorHostScopeState::Active(a),
                CoordinatorHostScopeState::Active(b),
            ) => a.same(b),
            (CoordinatorHostScopeState::Standby, CoordinatorHostScopeState::Standby) => true,
            (CoordinatorHostScopeState::Failed, CoordinatorHostScopeState::Failed) => true,
            _ => false,
        }
    }

    fn copy(&self) -> (copy: Self) {
        match self {
            CoordinatorHostScopeState::Active(record) => CoordinatorHostScopeState::Active(
                record.copy(),
            ),
            CoordinatorHostScopeState::Standby => CoordinatorHostScopeState::Standby,
            CoordinatorHostScopeState::Failed => CoordinatorHostScopeState::Failed,
        }
    }
}

/// The times of the leader of the membership.
#[derive(Debug, Clone, Copy, PartialEq, Eq, Structural)]
pub struct MembershipLeaderConfig {
    pub leader_lease_ttl: TimeSpan,
}

impl Default for MembershipLeaderConfig {
    fn default() -> (config: Self)
        ensures
            config.leader_lease_ttl.length() == 10_000_000_000,
    {
        MembershipLeaderConfig { leader_lease_ttl: TimeSpan::from_secs(10) }
    }
}

/// The times and limits of a host, and the allocation strategies of its leaders by their
/// policies.
pub struct CoordinatorHostConfig {
    pub membership: MembershipLeaderConfig,
    pub placement: CoordinatorLeaderConfig,
    pub maximum_domains: usize,
    pub control_capacity_per_domain: usize,
    pub renewal_interval: TimeSpan,
    pub election_interval: TimeSpan,
    pub member_reconciliation_interval: TimeSpan,
    pub maximum_candidate_jitter: TimeSpan,
    pub allocation_strategies: SortedMap<PolicyKey, u64>,
}

/// Why an allocation strategy cannot be added.
#[derive(Debug, Clone, Copy, PartialEq, Eq, Structural)]
pub enum StrategyRegistrationError {
    Duplicate,
    Unknown,
}

/// The policy that every leader knows.
pub open spec fn built_in_policy() -> PolicyModel {
    PolicyKey { policy_id: "weighted-least-load"@, policy_version: 1 }
}

/// The number of the strategy that every process has.
pub const BUILT_IN_STRATEGY: u64 = 0;

/// The strategy that every leader has unless another stands for its policy.
pub fn built_in_strategy() -> (strategy: AllocationStrategy)
    ensures
        strategy@.policy == built_in_policy(),
        strategy.handle == BUILT_IN_STRATEGY,
{
    AllocationStrategy {
        policy: PolicyKey {
            policy_id: String::from_str("weighted-least-load"),
            policy_version: 1,
        },
        handle: BUILT_IN_STRATEGY,
    }
}

impl Default for CoordinatorHostConfig {
    fn default() -> (config: Self)
        ensures
            config.maximum_domains == 64,
            config.control_capacity_per_domain == 256,
            config.renewal_interval.length() == 5_000_000_000,
            config.election_interval.length() == 5_000_000_000,
            config.member_reconciliation_interval.length() == 60_000_000_000,
            config.maximum_candidate_jitter.length() == 25_000_000,
            config.membership.leader_lease_ttl.length() == 10_000_000_000,
            config.placement.leader_lease_ttl.length() == 10_000_000_000,
            config.allocation_strategies@ == map![built_in_policy() => BUILT_IN_STRATEGY],
    {
        let strategy = built_in_strategy();
        let mut allocation_strategies = SortedMap::new();
        allocation_strategies.insert(strategy.policy, strategy.handle);
        assert(allocation_strategies@ =~= map![built_in_policy() => BUILT_IN_STRATEGY]);
        CoordinatorHostConfig {
            membership: MembershipLeaderConfig::default(),
            placement: CoordinatorLeaderConfig::default(),
            maximum_domains: 64,
            control_capacity_per_domain: 256,
            renewal_interval: TimeSpan::from_secs(5),
            election_interval: TimeSpan::from_secs(5),
            member_reconciliation_interval: TimeSpan::from_secs(60),
            maximum_candidate_jitter: TimeSpan::from_millis(25),
            allocation_strategies,
        }
    }
}

impl CoordinatorHostConfig {
    /// Whether a host can run so many domains under the configuration.
    pub open spec fn serves(self, domains: nat) -> bool {
        &&& self.maximum_domains != 0
        &&& self.control_capacity_per_domain != 0
        &&& self.renewal_interval.length() != 0
        &&& self.election_interval.length() != 0
        &&& self.member_reconciliation_interval.length() != 0
        &&& self.maximum_candidate_jitter.length() < self.membership.leader_lease_ttl.length()
        &&& self.maximum_candidate_jitter.length() < self.placement.leader_lease_ttl.length()
        &&& domains <= self.maximum_domains
    }

    pub fn validate(&self, domains: &SortedSet<PlacementDomainId>) -> (result: Result<
        (),
        CoordinatorRuntimeError,
    >)
        ensures
            runtime_fault(result) == if self.serves(domains@.len()) {
                None
            } else {
                Some(RuntimeErrorModel::InvalidConfig)
            },
    {
        if self.maximum_domains == 0 || self.control_capacity_per_domain == 0
            || self.renewal_interval.is_zero() || self.election_interval.is_zero()
            || self.member_reconciliation_interval.is_zero()
            || !self.maximum_candidate_jitter.is_shorter_than(&self.membership.leader_lease_ttl)
            || !self.maximum_candidate_jitter.is_shorter_than(&self.placement.leader_lease_ttl)
            || domains.len() > self.maximum_domains {
            return Err(CoordinatorRuntimeError::InvalidConfig);
        }
        Ok(())
    }

    /// Adds an allocation strategy, unless there is one for its policy.
    pub fn with_allocation_strategy(self, strategy: AllocationStrategy) -> (result: Result<
        Self,
        StrategyRegistrationError,
    >)
        ensures
            match result {
                Ok(config) => {
                    &&& !self.allocation_strategies@.contains_key(strategy@.policy)
                    &&& config.allocation_strategies@ == self.allocation_strategies@.insert(
                        strategy@.policy,
                        strategy.handle,
                    )
                    &&& config == (CoordinatorHostConfig {
                        allocation_strategies: config.allocation_strategies,
                        ..self
                    })
                },
                Err(error) => self.allocation_strategies@.contains_key(strategy@.policy) && error
                    == StrategyRegistrationError::Duplicate,
            },
    {
        let mut config = self;
        if config.allocation_strategies.contains_key(&strategy.policy) {
            return Err(StrategyRegistrationError::Duplicate);
        }
        config.allocation_strategies.insert(strategy.policy, strategy.handle);
        Ok(config)
    }

    /// Puts an allocation strategy in the place of the one for its policy, if there is one.
    pub fn with_replaced_allocation_strategy(self, strategy: AllocationStrategy) -> (result: Result<
        Self,
        StrategyRegistrationError,
    >)
        ensures
            match result {
                Ok(config) => {
                    &&& self.allocation_strategies@.contains_key(strategy@.policy)
                    &&& config.allocation_strategies@ == self.allocation_strategies@.insert(
                        strategy@.policy,
                        strategy.handle,
                    )
                    &&& config == (CoordinatorHostConfig {
                        allocation_strategies: config.allocation_strategies,
                        ..self
                    })
                },
                Err(error) => !self.allocation_strategies@.contains_key(strategy@.policy) && error
                    == StrategyRegistrationError::Unknown,
            },
    {
        let mut config = self;
        if !config.allocation_strategies.contains_key(&strategy.policy) {
            return Err(StrategyRegistrationError::Unknown);
        }
        config.allocation_strategies.insert(strategy.policy, strategy.handle);
        Ok(config)
    }

    /// The strategies of a leader that is elected under the configuration: those of the host, and
    /// the built-in one where the host has none for its policy.
    pub open spec fn leader_strategies(self) -> Map<PolicyModel, u64> {
        map![built_in_policy() => BUILT_IN_STRATEGY].union_prefer_right(self.allocation_strategies@)
    }

    /// The leader of a domain that is elected under the configuration, with the strategies of
    /// the host.
    pub fn elect_domain_leader(
        &self,
        limits: DurableLimits,
        domain: PlacementDomainId,
        term: CoordinatorTerm,
        protocol_generation: u64,
        membership_version: MembershipVersion,
        slots: &Vec<PlacementSlot>,
        plans: &Vec<RebalancePlan>,
    ) -> (result: Result<CoordinatorLeader, CoordinatorRuntimeError>)
        ensures
            match result {
                Ok(leader) => {
                    &&& self.placement.fault() is None
                    &&& protocol_generation != 0
                    &&& leader@ == LeaderModel::taking_over(
                        self.placement,
                        limits,
                        domain@,
                        term,
                        membership_version,
                        self.leader_strategies(),
                        seq_view(slots@),
                        seq_view(plans@),
                    )
                },
                Err(error) => (self.placement.fault() is Some || protocol_generation == 0)
                    && error@ == RuntimeErrorModel::InvalidConfig,
            },
    {
        let mut leader = match CoordinatorLeader::elect(
            self.placement,
            limits,
            domain,
            term,
            protocol_generation,
            membership_version,
            built_in_strategy(),
            slots,
            plans,
        ) {
            Ok(leader) => leader,
            Err(error) => {
                return Err(error);
            },
        };
        leader.install_strategies(&self.allocation_strategies);
        Ok(leader)
    }
}

/// A placement domain of a host: where the host stands in it, whether a leader of it runs here,
/// and the stream that carries its commands.
#[derive(Debug)]
pub struct HostedDomain<R = LeaderRecord> {
    pub state: CoordinatorHostScopeState<R>,
    pub running: bool,
    pub stream_id: u64,
}

pub type HostedModel = HostedDomain<LeaderRecordModel>;

impl View for HostedDomain {
    type V = HostedModel;

    open spec fn view(&self) -> HostedModel {
        HostedDomain { state: self.state@, running: self.running, stream_id: self.stream_id }
    }
}

/// Supervises independent candidates for the membership and for placement domains.
pub struct CoordinatorHost {
    pub node: NodeKey,
    pub membership_version: Option<MembershipVersion>,
    pub membership_state: CoordinatorHostScopeState,
    pub domains: SortedMap<PlacementDomainId, HostedDomain>,
    pub campaigning: SortedSet<PlacementDomainId>,
    pub reconciling_domains: SortedSet<PlacementDomainId>,
    pub pending_member_hellos: SortedMap<NodeIncarnation, MemberHello>,
    pub membership_associations: SortedMap<NodeIncarnation, AssociationKey>,
    pub snapshotting_associations: KeyMap<AssociationKey, ()>,
    pub pending_snapshot_replays: KeyMap<AssociationKey, ()>,
}

#[verifier::ext_equal]
pub struct HostModel {
    pub node: NodeModel,
    pub membership_version: Option<MembershipVersion>,
    pub membership_state: ScopeStateModel,
    pub domains: Map<Seq<char>, HostedModel>,
    pub campaigning: Set<Seq<char>>,
    pub reconciling_domains: Set<Seq<char>>,
    pub pending_member_hellos: Map<NodeIncarnation, MemberHelloModel>,
    pub membership_associations: Map<NodeIncarnation, AssociationModel>,
    pub snapshotting_associations: Set<AssociationModel>,
    pub pending_snapshot_replays: Set<AssociationModel>,
}

impl View for CoordinatorHost {
    type V = HostModel;

    open spec fn view(&self) -> HostModel {
        HostModel {
            node: self.node@,
            membership_version: self.membership_version,
            membership_state: self.membership_state@,
            domains: self.domains@,
            campaigning: self.campaigning@,
            reconciling_domains: self.reconciling_domains@,
            pending_member_hellos: self.pending_member_hellos@,
            membership_associations: self.membership_associations@,
            snapshotting_associations: self.snapshotting_associations@.dom(),
            pending_snapshot_replays: self.pending_snapshot_replays@.dom(),
        }
    }
}

/// Where a candidate stands after an election: whoever was not elected stands by, and any other
/// failure is reported.
pub open spec fn elected(result: Result<LeaderRecordModel, RuntimeErrorModel>) -> Result<
    ScopeStateModel,
    RuntimeErrorModel,
> {
    match result {
        Ok(record) => Ok(CoordinatorHostScopeState::Active(record)),
        Err(CoordinatorRuntimeError::NotLeader) => Ok(CoordinatorHostScopeState::Standby),
        Err(error) => Err(error),
    }
}

pub fn election_state(result: Result<LeaderRecord, CoordinatorRuntimeError>) -> (state: Result<
    CoordinatorHostScopeState,
    CoordinatorRuntimeError,
>)
    ensures
        outcome(state) == elected(outcome(result)),
{
    match result {
        Ok(record) => Ok(CoordinatorHostScopeState::Active(record)),
        Err(CoordinatorRuntimeError::NotLeader) => Ok(CoordinatorHostScopeState::Standby),
        Err(error) => Err(error),
    }
}

impl HostModel {
    /// A host that has not yet stood for anything.
    pub open spec fn fresh(node: NodeModel) -> HostModel {
        HostModel {
            node,
            membership_version: None,
            membership_state: CoordinatorHostScopeState::Standby,
            domains: Map::empty(),
            campaigning: Set::empty(),
            reconciling_domains: Set::empty(),
            pending_member_hellos: Map::empty(),
            membership_associations: Map::empty(),
            snapshotting_associations: Set::empty(),
            pending_snapshot_replays: Set::empty(),
        }
    }

    /// Where the host stands in a scope, if it stands in it.
    pub open spec fn scope_state(self, scope: ScopeModel) -> Option<ScopeStateModel> {
        match scope {
            CoordinatorScope::Membership => Some(self.membership_state),
            CoordinatorScope::Placement(domain) => if self.domains.contains_key(domain) {
                Some(self.domains[domain].state)
            } else {
                None
            },
        }
    }

    /// The term under which the host leads a scope.
    pub open spec fn active_term(self, scope: ScopeModel) -> Option<u64> {
        match self.scope_state(scope) {
            Some(CoordinatorHostScopeState::Active(record)) => Some(record.term.0),
            _ => None,
        }
    }

    /// Whether a leader of a domain runs here.
    pub open spec fn runs(self, domain: Seq<char>) -> bool {
        self.domains.contains_key(domain) && self.domains[domain].running
    }

    /// The host after it came to stand somewhere in a domain.
    pub open spec fn with_domain(self, domain: Seq<char>, hosted: HostedModel) -> HostModel {
        HostModel { domains: self.domains.insert(domain, hosted), ..self }
    }

    /// The host after a campaign for a domain.
    pub open spec fn after_campaign(
        self,
        domain: Seq<char>,
        result: Result<LeaderRecordModel, RuntimeErrorModel>,
    ) -> HostModel {
        let host = HostModel { campaigning: self.campaigning.remove(domain), ..self };
        let state = match elected(result) {
            Ok(state) => state,
            Err(_) => CoordinatorHostScopeState::Failed,
        };
        if self.domains.contains_key(domain) {
            host.with_domain(
                domain,
                HostedDomain { state, running: state is Active, ..self.domains[domain] },
            )
        } else {
            host
        }
    }

    /// The leaders that run here, by the scopes of their records, after the first so many domains.
    pub open spec fn directory_of(self, count: nat) -> Map<ScopeModel, LeaderRecordModel>
        decreases count,
    {
        if count == 0 {
            match self.membership_state {
                CoordinatorHostScopeState::Active(record) => Map::empty().insert(
                    CoordinatorScope::Membership,
                    record,
                ),
                _ => Map::empty(),
            }
        } else {
            let rest = self.directory_of((count - 1) as nat);
            let domain = ranked::<PlacementDomainId>(self.domains.dom())[count - 1];
            match self.domains[domain].state {
                CoordinatorHostScopeState::Active(record) => rest.insert(record.scope, record),
                _ => rest,
            }
        }
    }

    pub open spec fn directory(self) -> Map<ScopeModel, LeaderRecordModel> {
        self.directory_of(ranked::<PlacementDomainId>(self.domains.dom()).len())
    }

    /// Where the host stands in each of its scopes.
    pub open spec fn scope_states(self) -> Map<ScopeModel, ScopeStateModel> {
        Map::new(
            |scope: ScopeModel| self.scope_state(scope) is Some,
            |scope: ScopeModel| self.scope_state(scope)->0,
        )
    }

    /// The domains that the host leads, with their leaders, out of the first so many.
    pub open spec fn active_of(self, count: nat) -> Seq<(Seq<char>, LeaderRecordModel)>
        decreases count,
    {
        if count == 0 {
            Seq::empty()
        } else {
            let rest = self.active_of((count - 1) as nat);
            let domain = ranked::<PlacementDomainId>(self.domains.dom())[count - 1];
            match self.domains[domain].state {
                CoordinatorHostScopeState::Active(record) => rest.push((domain, record)),
                _ => rest,
            }
        }
    }

    /// The domains of which no leader runs here.
    pub open spec fn inactive(self) -> Seq<Seq<char>> {
        ranked::<PlacementDomainId>(self.domains.dom()).filter(|domain| !self.runs(domain))
    }
}

impl CoordinatorHost {
    /// Opens a host of which no candidate has stood yet.
    pub fn open(
        node: NodeKey,
        domains: &SortedSet<PlacementDomainId>,
        config: &CoordinatorHostConfig,
    ) -> (result: Result<Self, CoordinatorRuntimeError>)
        ensures
            outcome(result) == if config.serves(domains@.len()) {
                Ok(HostModel::fresh(node@))
            } else {
                Err(RuntimeErrorModel::InvalidConfig)
            },
    {
        match config.validate(domains) {
            Err(error) => Err(error),
            Ok(()) => {
                let host = CoordinatorHost {
                    node,
                    membership_version: None,
                    membership_state: CoordinatorHostScopeState::Standby,
                    domains: SortedMap::new(),
                    campaigning: SortedSet::new(),
                    reconciling_domains: SortedSet::new(),
                    pending_member_hellos: SortedMap::new(),
                    membership_associations: SortedMap::new(),
                    snapshotting_associations: KeyMap::new(),
                    pending_snapshot_replays: KeyMap::new(),
                };
                assert(host@ =~= HostModel::fresh(node@));
                Ok(host)
            },
        }
    }

    /// Notes how the election of the membership ended.
    pub fn settle_membership(
        &mut self,
        result: Result<LeaderRecord, CoordinatorRuntimeError>,
        version: MembershipVersion,
    ) -> (settled: Result<(), CoordinatorRuntimeError>)
        ensures
            match elected(outcome(result)) {
                Ok(state) => settled is Ok && final(self)@ == (HostModel {
                    membership_version: if state is Active {
                        Some(version)
                    } else {
                        None
                    },
                    membership_state: state,
                    ..old(self)@
                }),
                Err(error) => runtime_fault(settled) == Some(error) && final(self)@ == old(self)@,
            },
    {
        let state = match election_state(result) {
            Ok(state) => state,
            Err(error) => {
                return Err(error);
            },
        };
        self.membership_version = match &state {
            CoordinatorHostScopeState::Active(_) => Some(version),
            _ => None,
        };
        self.membership_state = state;
        assert(self@ =~= HostModel {
            membership_version: self.membership_version,
            membership_state: self.membership_state@,
            ..old(self)@
        });
        Ok(())
    }

    /// Notes how the first election of a domain ended.
    pub fn settle_domain(
        &mut self,
        domain: PlacementDomainId,
        stream_id: u64,
        result: Result<LeaderRecord, CoordinatorRuntimeError>,
    ) -> (settled: Result<(), CoordinatorRuntimeError>)
        ensures
            match elected(outcome(result)) {
                Ok(state) => settled is Ok && final(self)@ == old(self)@.with_domain(
                    domain@,
                    (HostedDomain { state, running: state is Active, stream_id }),
                ),
                Err(error) => runtime_fault(settled) == Some(error) && final(self)@ == old(self)@,
            },
    {
        let state = match election_state(result) {
            Ok(state) => state,
            Err(error) => {
                return Err(error);
            },
        };
        let running = match &state {
            CoordinatorHostScopeState::Active(_) => true,
            _ => false,
        };
        let ghost hosted = HostedDomain { state: state@, running, stream_id };
        self.domains.insert(domain, HostedDomain { state, running, stream_id });
        assert(self@ =~= old(self)@.with_domain(domain@, hosted));
        Ok(())
    }

    pub fn node(&self) -> (node: &NodeKey)
        ensures
            node@ == self@.node,
    {
        &self.node
    }

    pub fn scope_state(&self, scope: &CoordinatorScope) -> (state: Option<
        &CoordinatorHostScopeState,
    >)
        ensures
            match state {
                Some(found) => self@.scope_state(scope@) == Some(found@),
                None => self@.scope_state(scope@) is None,
            },
    {
        match scope {
            CoordinatorScope::Membership => Some(&self.membership_state),
            CoordinatorScope::Placement(domain) => match self.domains.get(domain) {
                Some(hosted) => Some(&hosted.state),
                None => None,
            },
        }
    }

    pub fn active_term(&self, scope: &CoordinatorScope) -> (term: Option<u64>)
        ensures
            term == self@.active_term(scope@),
    {
        match self.scope_state(scope) {
            Some(CoordinatorHostScopeState::Active(record)) => Some(record.term.get()),
            _ => None,
        }
    }

    pub fn runs(&self, domain: &PlacementDomainId) -> (runs: bool)
        ensures
            runs == self@.runs(domain@),
    {
        match self.domains.get(domain) {
            Some(hosted) => hosted.running,
            None => false,
        }
    }

    /// The domains that the host leads, with their leaders.
    pub fn active_domain_leaders(&self) -> (leaders: Vec<(PlacementDomainId, LeaderRecord)>)
        ensures
            leaders.len() == self@.active_of(self@.domains.dom().len()).len(),
            forall|i: int|
                0 <= i < leaders.len() ==> ((#[trigger] leaders@[i]).0@, leaders@[i].1@)
                    == self@.active_of(self@.domains.dom().len())[i],
    {
        let len = self.domains.len();
        let mut leaders: Vec<(PlacementDomainId, LeaderRecord)> = Vec::new();
        let mut i: usize = 0;
        while i < len
            invariant
                i <= len,
                len == ranked::<PlacementDomainId>(self.domains@.dom()).len(),
                leaders.len() == self@.active_of(i as nat).len(),
                forall|j: int|
                    0 <= j < leaders.len() ==> ((#[trigger] leaders@[j]).0@, leaders@[j].1@)
                        == self@.active_of(i as nat)[j],
            decreases len - i,
        {
            let (domain, hosted) = self.domains.entry_at(i);
            if let CoordinatorHostScopeState::Active(record) = &hosted.state {
                leaders.push((domain.copy(), record.copy()));
            }
            i = i + 1;
        }
        leaders
    }

    /// The leaders that run here, as they are published.
    pub fn directory(&self) -> (directory: SortedMap<CoordinatorScope, LeaderRecord>)
        ensures
            directory@ == self@.directory(),
    {
        let len = self.domains.len();
        let mut directory: SortedMap<CoordinatorScope, LeaderRecord> = SortedMap::new();
        if let CoordinatorHostScopeState::Active(record) = &self.membership_state {
            directory.insert(CoordinatorScope::Membership, record.copy());
        }
        let mut i: usize = 0;
        while i < len
            invariant
                i <= len,
                len == ranked::<PlacementDomainId>(self.domains@.dom()).len(),
                directory@ == self@.directory_of(i as nat),
            decreases len - i,
        {
            let (_, hosted) = self.domains.entry_at(i);
            if let CoordinatorHostScopeState::Active(record) = &hosted.state {
                directory.insert(record.scope.copy(), record.copy());
            }
            i = i + 1;
        }
        directory
    }

    /// Where the host stands in each of its scopes, as it is published.
    pub fn scope_states(&self) -> (states: SortedMap<CoordinatorScope, CoordinatorHostScopeState>)
        ensures
            states@ == self@.scope_states(),
    {
        let len = self.domains.len();
        let mut states: SortedMap<CoordinatorScope, CoordinatorHostScopeState> = SortedMap::new();
        states.insert(CoordinatorScope::Membership, self.membership_state.copy());
        let mut i: usize = 0;
        let ghost list = ranked::<PlacementDomainId>(self.domains@.dom());
        while i < len
            invariant
                i <= len,
                len == list.len(),
                list == ranked::<PlacementDomainId>(self.domains@.dom()),
                forall|scope: ScopeModel| #[trigger]
                    states@.contains_key(scope) <==> match scope {
                        CoordinatorScope::Membership => true,
                        CoordinatorScope::Placement(domain) => list.subrange(
                            0,
                            i as int,
                        ).contains(domain),
                    },
                forall|scope: ScopeModel| #[trigger]
                    states@.contains_key(scope) ==> self@.scope_state(scope) == Some(states@[scope]),
            decreases len - i,
        {
            let (domain, hosted) = self.domains.entry_at(i);
            let ghost before = states@;
            proof {
                let longer = list.subrange(0, i + 1);
                let shorter = list.subrange(0, i as int);
                assert(longer =~= shorter.push(list[i as int]));
                crate::sorted::lemma_push_to_set(shorter, list[i as int]);
                assert forall|d: Seq<char>| longer.contains(d) <==> shorter.contains(d) || d
                    == list[i as int] by {
                    assert(longer.contains(d) == longer.to_set().contains(d));
                    assert(shorter.contains(d) == shorter.to_set().contains(d));
                }
            }
            states.insert(CoordinatorScope::Placement(domain.copy()), hosted.state.copy());
            i = i + 1;
        }
        proof {
            assert(list.subrange(0, i as int) =~= list);
            assert forall|d: Seq<char>| list.contains(d) <==> self@.domains.contains_key(d) by {
                assert(list.to_set().contains(d) == list.contains(d));
            }
            assert(states@ =~= self@.scope_states());
        }
        states
    }

    /// The domains of which no leader runs here, which are to be stood for.
    pub fn inactive_domains(&self) -> (domains: Vec<PlacementDomainId>)
        ensures
            seq_view(domains@) == self@.inactive(),
    {
        let len = self.domains.len();
        let mut domains: Vec<PlacementDomainId> = Vec::new();
        let mut i: usize = 0;
        let ghost list = ranked::<PlacementDomainId>(self.domains@.dom());
        let ghost p = |domain: Seq<char>| !self@.runs(domain);
        assert(list.subrange(0, 0).filter(p) =~= Seq::<Seq<char>>::empty()) by {
            reveal(Seq::filter);
        }
        while i < len
            invariant
                i <= len,
                len == list.len(),
                list == ranked::<PlacementDomainId>(self.domains@.dom()),
                p == |domain: Seq<char>| !self@.runs(domain),
                seq_view(domains@) == list.subrange(0, i as int).filter(p),
            decreases len - i,
        {
            let (domain, hosted) = self.domains.entry_at(i);
            let ghost before = seq_view(domains@);
            proof {
                lemma_filter_step(list, p, i as int);
            }
            if !hosted.running {
                domains.push(domain.copy());
                assert(seq_view(domains@) =~= before.push(domain@));
            }
            i = i + 1;
        }
        assert(list.subrange(0, i as int) =~= list);
        domains
    }

    /// Starts to stand for a domain, unless the host stands for it already.
    pub fn begin_campaign(&mut self, domain: &PlacementDomainId) -> (begun: bool)
        ensures
            begun == !old(self)@.campaigning.contains(domain@),
            final(self)@ == (HostModel {
                campaigning: old(self)@.campaigning.insert(domain@),
                ..old(self)@
            }),
    {
        let begun = self.campaigning.insert(domain.copy());
        assert(self@ =~= HostModel {
            campaigning: old(self)@.campaigning.insert(domain@),
            ..old(self)@
        });
        begun
    }

    /// Notes how a campaign for a domain ended: whoever was elected runs a leader, and whoever
    /// was not stands by.
    pub fn settle_campaign(
        &mut self,
        domain: &PlacementDomainId,
        result: Result<LeaderRecord, CoordinatorRuntimeError>,
    )
        ensures
            final(self)@ == old(self)@.after_campaign(domain@, outcome(result)),
    {
        let _ = self.campaigning.remove(domain);
        let stream_id = match self.domains.get(domain) {
            Some(hosted) => hosted.stream_id,
            None => {
                assert(self@ =~= old(self)@.after_campaign(domain@, outcome(result)));
                return ;
            },
        };
        let ghost ended = outcome(result);
        let state = match election_state(result) {
            Ok(state) => state,
            Err(_) => CoordinatorHostScopeState::Failed,
        };
        let running = match &state {
            CoordinatorHostScopeState::Active(_) => true,
            _ => false,
        };
        self.domains.insert(domain.copy(), HostedDomain { state, running, stream_id });
        assert(self@ =~= old(self)@.after_campaign(domain@, ended));
    }

    /// Notes that the leader of a domain has stopped: the other scopes go on.
    pub fn domain_stopped(&mut self, domain: &PlacementDomainId)
        ensures
            final(self)@ == if old(self)@.domains.contains_key(domain@) {
                old(self)@.with_domain(
                    domain@,
                    (HostedDomain {
                        state: CoordinatorHostScopeState::Failed,
                        running: false,
                        ..old(self)@.domains[domain@]
                    }),
                )
            } else {
                old(self)@
            },
    {
        let stream_id = match self.domains.get(domain) {
            Some(hosted) => hosted.stream_id,
            None => {
                return ;
            },
        };
        self.domains.insert(
            domain.copy(),
            HostedDomain { state: CoordinatorHostScopeState::Failed, running: false, stream_id },
        );
        assert(self@ =~= old(self)@.with_domain(
            domain@,
            HostedDomain {
                state: CoordinatorHostScopeState::Failed,
                running: false,
                ..old(self)@.domains[domain@]
            },
        ));
    }
}

/// A leader that is elected under a host has every strategy of the host under its policy, one that
/// replaced another among them.
pub proof fn law_leaders_have_the_strategies_of_their_host(
    config: CoordinatorHostConfig,
    policy: PolicyModel,
)
    requires
        config.allocation_strategies@.contains_key(policy),
    ensures
        config.leader_strategies().contains_key(policy),
        config.leader_strategies()[policy] == config.allocation_strategies@[policy],
{
}

/// The end of the leader of one domain leaves the host where it stands in every other scope.
pub proof fn law_a_stopped_domain_stops_no_other(
    host: HostModel,
    domain: Seq<char>,
    scope: ScopeModel,
)
    requires
        host.domains.contains_key(domain),
        scope != CoordinatorScope::Placement(domain),
    ensures
        host.with_domain(
            domain,
            (HostedDomain {
                state: CoordinatorHostScopeState::Failed,
                running: false,
                ..host.domains[domain]
            }),
        ).scope_state(scope) == host.scope_state(scope),
{
}

} // verus!
