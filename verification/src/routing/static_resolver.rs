//! Routes by configured ranges of numbers.
use vstd::prelude::*;

use crate::keymap::{seq_view, Key};
use crate::records::RouteKey;
use crate::routing::cache::{
    CacheLookup, CacheModel, LocalRouteCache, LookupModel, RouteCacheConfig,
};
use crate::routing::{
    resolution, InvalidateReason, PlacementError, PlacementErrorModel, RequestModel,
    ResolveRequest, RouteCacheKey, RouteTarget, RouteTargetModel,
};

verus! {

/// A range of numbers that leads to one instance.
#[derive(Debug, PartialEq, Eq)]
pub struct StaticRouteRange<S = String> {
    pub service_kind: S,
    pub actor_kind: S,
    pub start_inclusive: u64,
    pub end_exclusive: u64,
    pub target: RouteTarget<S>,
}

pub type RangeModel = StaticRouteRange<Seq<char>>;

impl View for StaticRouteRange {
    type V = RangeModel;

    open spec fn view(&self) -> RangeModel {
        StaticRouteRange {
            service_kind: self.service_kind@,
            actor_kind: self.actor_kind@,
            start_inclusive: self.start_inclusive,
            end_exclusive: self.end_exclusive,
            target: self.target@,
        }
    }
}

impl StaticRouteRange<Seq<char>> {
    /// Whether a number of a service and an actor kind falls in the range.
    pub open spec fn covers(
        self,
        service_kind: Seq<char>,
        actor_kind: Seq<char>,
        value: u64,
    ) -> bool {
        self.service_kind == service_kind && self.actor_kind == actor_kind && self.start_inclusive
            <= value < self.end_exclusive
    }
}

/// The ranges of a service.
#[derive(Debug)]
pub struct StaticPlacementConfig {
    pub ranges: Vec<StaticRouteRange>,
}

/// The first range, from a place on, that covers a number.
pub open spec fn first_range(
    ranges: Seq<RangeModel>,
    at: nat,
    service_kind: Seq<char>,
    actor_kind: Seq<char>,
    value: u64,
) -> Option<RangeModel>
    decreases ranges.len() - at,
{
    if at >= ranges.len() {
        None
    } else if ranges[at as int].covers(service_kind, actor_kind, value) {
        Some(ranges[at as int])
    } else {
        first_range(ranges, at + 1, service_kind, actor_kind, value)
    }
}

/// Where the configuration sends a request.
pub open spec fn configured(ranges: Seq<RangeModel>, request: RequestModel) -> Result<
    RouteTargetModel,
    PlacementErrorModel,
> {
    match request.route_key {
        RouteKey::U64(value) => match first_range(
            ranges,
            0,
            request.service_kind,
            request.actor_kind,
            value,
        ) {
            Some(range) => Ok(range.target),
            None => Err(PlacementErrorModel::NoRoute),
        },
        _ => Err(PlacementErrorModel::UnsupportedRouteKey),
    }
}

/// Resolves routes from a configuration, and remembers them.
pub struct StaticRouteResolver {
    config: StaticPlacementConfig,
    cache: LocalRouteCache,
    placement_lookups: u64,
}

#[verifier::ext_equal]
pub struct StaticModel {
    pub ranges: Seq<RangeModel>,
    pub cache: CacheModel,
    pub placement_lookups: u64,
}

impl View for StaticRouteResolver {
    type V = StaticModel;

    closed spec fn view(&self) -> StaticModel {
        StaticModel {
            ranges: seq_view(self.config.ranges@),
            cache: self.cache@,
            placement_lookups: self.placement_lookups,
        }
    }
}

impl StaticModel {
    /// What a request resolves to, when it was looked up at one instant and is remembered as of
    /// another: what is remembered counts, and otherwise the configuration.
    pub open spec fn resolve(self, request: RequestModel, now: u128, filled: u128) -> (
        StaticModel,
        Result<RouteTargetModel, PlacementErrorModel>,
    ) {
        let (cache, lookup) = self.cache.looked_up(request.key(), now);
        match lookup {
            CacheLookup::Fresh(target) => (StaticModel { cache, ..self }, Ok(target)),
            CacheLookup::Stale(target) => (StaticModel { cache, ..self }, Ok(target)),
            CacheLookup::Miss => {
                let counted = StaticModel {
                    cache,
                    placement_lookups: if self.placement_lookups < u64::MAX {
                        (self.placement_lookups + 1) as u64
                    } else {
                        0
                    },
                    ..self
                };
                match configured(self.ranges, request) {
                    Ok(target) => (
                        StaticModel {
                            cache: cache.inserted(request.key(), target, filled),
                            ..counted
                        },
                        Ok(target),
                    ),
                    Err(error) => (counted, Err(error)),
                }
            },
        }
    }
}

impl StaticRouteResolver {
    pub fn new(config: StaticPlacementConfig, cache_config: RouteCacheConfig) -> (resolver: Self)
        requires
            cache_config.is_ordered(),
        ensures
            resolver@ == (StaticModel {
                ranges: seq_view(config.ranges@),
                cache: CacheModel { config: cache_config, entries: Map::empty() },
                placement_lookups: 0,
            }),
    {
        StaticRouteResolver { config, cache: LocalRouteCache::new(cache_config), placement_lookups: 0 }
    }

    pub fn placement_lookups(&self) -> (lookups: u64)
        ensures
            lookups == self@.placement_lookups,
    {
        self.placement_lookups
    }

    fn find_range(&self, request: &ResolveRequest) -> (result: Result<RouteTarget, PlacementError>)
        ensures
            resolution(result) == configured(self@.ranges, request@),
    {
        let value = match &request.route_key {
            RouteKey::U64(value) => *value,
            _ => {
                return Err(PlacementError::UnsupportedRouteKey);
            },
        };
        let ghost list = self@.ranges;
        let mut i: usize = 0;
        while i < self.config.ranges.len()
            invariant
                i <= self.config.ranges.len(),
                list == self@.ranges,
                list == seq_view(self.config.ranges@),
                request@.route_key == RouteKey::<Seq<char>, Seq<u8>>::U64(value),
                first_range(list, 0, request@.service_kind, request@.actor_kind, value)
                    == first_range(
                    list,
                    i as nat,
                    request@.service_kind,
                    request@.actor_kind,
                    value,
                ),
            decreases self.config.ranges.len() - i,
        {
            let range = &self.config.ranges[i];
            assert(list[i as int] == range@);
            if range.service_kind.same(&request.service_kind) && range.actor_kind.same(
                &request.actor_kind,
            ) && range.start_inclusive <= value && value < range.end_exclusive {
                return Ok(range.target.copy());
            }
            i = i + 1;
        }
        Err(PlacementError::NoRoute)
    }

    /// Resolves a request as of given instants.
    pub fn resolve_at(&mut self, request: &ResolveRequest, now: u128, filled: u128) -> (result:
        Result<RouteTarget, PlacementError>)
        ensures
            (final(self)@, resolution(result)) == old(self)@.resolve(request@, now, filled),
    {
        let key = request.cache_key();
        match self.cache.get_at(&key, now) {
            CacheLookup::Fresh(target) => {
                return Ok(target);
            },
            CacheLookup::Stale(target) => {
                return Ok(target);
            },
            CacheLookup::Miss => {},
        }
        self.placement_lookups = self.placement_lookups.wrapping_add(1);
        match self.find_range(request) {
            Ok(target) => {
                self.cache.insert_at(key, target.copy(), filled);
                Ok(target)
            },
            Err(error) => Err(error),
        }
    }

    /// Resolves a request as of now.
    pub fn resolve(&mut self, request: &ResolveRequest) -> (result: Result<
        RouteTarget,
        PlacementError,
    >)
        ensures
            exists|now: u128, filled: u128|
                (final(self)@, resolution(result)) == #[trigger] old(self)@.resolve(
                    request@,
                    now,
                    filled,
                ),
    {
        let now = self.cache.clock();
        let filled = self.cache.clock();
        let ghost seen = old(self)@.resolve(request@, now, filled);
        let result = self.resolve_at(request, now, filled);
        assert((self@, resolution(result)) == seen);
        result
    }

    /// Drops a remembered route, whatever the reason.
    pub fn invalidate(&mut self, key: &RouteCacheKey, _reason: InvalidateReason)
        ensures
            final(self)@ == (StaticModel {
                cache: old(self)@.cache.invalidated(key@),
                ..old(self)@
            }),
    {
        self.cache.invalidate(key);
    }
}

/// A route that was resolved is answered from what is remembered, without another look at the
/// configuration, until it expires.
pub proof fn law_resolved_routes_are_remembered(
    resolver: StaticModel,
    request: RequestModel,
    first: u128,
    filled: u128,
    now: u128,
    refilled: u128,
)
    requires
        filled <= now,
        now - filled < resolver.cache.config.hard_ttl.length(),
        resolver.cache.looked_up(request.key(), first).1 == LookupModel::Miss,
        configured(resolver.ranges, request) is Ok,
    ensures
        resolver.resolve(request, first, filled).0.resolve(request, now, refilled) == (
            resolver.resolve(request, first, filled).0,
            configured(resolver.ranges, request),
        ),
{
}

} // verus!
