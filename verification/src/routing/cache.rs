//! The routes that were resolved lately.
use std::time::Instant;

use dashmap::DashMap;
use vstd::prelude::*;

use crate::keymap::Key;
use crate::records::{Epoch, InstanceId, RouteKey};
use crate::routing::{CacheKeyModel, RouteCacheKey, RouteTarget, RouteTargetModel};
use crate::time::TimeSpan;

verus! {

/// How long a route is fresh, and how long it is used at all.
#[derive(Debug, Clone, Copy, PartialEq, Eq, Structural)]
pub struct RouteCacheConfig {
    pub soft_ttl: TimeSpan,
    pub hard_ttl: TimeSpan,
}

impl Default for RouteCacheConfig {
    fn default() -> (config: Self)
        ensures
            config.soft_ttl.length() == 5_000_000_000,
            config.hard_ttl.length() == 30_000_000_000,
            config.is_ordered(),
    {
        RouteCacheConfig { soft_ttl: TimeSpan::from_secs(5), hard_ttl: TimeSpan::from_secs(30) }
    }
}

impl RouteCacheConfig {
    /// Whether a route is not fresh for longer than it is used.
    pub open spec fn is_ordered(self) -> bool {
        self.soft_ttl.length() <= self.hard_ttl.length()
    }
}

/// The map of the `dashmap` crate.
#[verifier::external_type_specification]
#[verifier::external_body]
#[verifier::reject_recursive_types(K)]
#[verifier::reject_recursive_types(V)]
#[verifier::reject_recursive_types(S)]
pub struct ExDashMap<K, V, S>(dashmap::DashMap<K, V, S>);

/// An instant of the clock of the machine.
#[verifier::external_type_specification]
#[verifier::external_body]
pub struct ExInstant(std::time::Instant);

/// A key of the map in plain values: service, actor kind, which kind of route key it is, and the
/// route key, whose other parts are left empty.
pub type PlainKey = (String, String, u8, String, u64, i64, Vec<u8>);

pub type PlainKeyModel = (Seq<char>, Seq<char>, u8, Seq<char>, u64, i64, Seq<u8>);

/// An entry of the map in plain values: service, instance, endpoint, epoch, and when it was
/// inserted, in nanoseconds.
pub type PlainEntry = (String, String, String, Option<u64>, u128);

pub type PlainEntryModel = (Seq<char>, Seq<char>, Seq<char>, Option<u64>, u128);

/// What a map holds.
pub uninterp spec fn held_routes(map: DashMap<PlainKey, PlainEntry>) -> Map<
    PlainKeyModel,
    PlainEntryModel,
>;

/// The contents of a map that holds nothing.
pub open spec fn no_routes() -> Map<PlainKeyModel, PlainEntryModel> {
    Map::empty()
}

/// Calls `dashmap::DashMap::new`, which makes a map that holds nothing.
#[verifier::external_body]
fn new_map() -> (fresh: DashMap<PlainKey, PlainEntry>)
    ensures
        held_routes(fresh) == no_routes(),
{
    DashMap::new()
}

/// Calls `dashmap::DashMap::insert`, which binds a key to a value, in the place of the value that
/// the key had.
#[verifier::external_body]
fn map_insert(map: &mut DashMap<PlainKey, PlainEntry>, key: PlainKey, entry: PlainEntry)
    ensures
        held_routes(*final(map)) == held_routes(*old(map)).insert(
            (key.0@, key.1@, key.2, key.3@, key.4, key.5, key.6@),
            (entry.0@, entry.1@, entry.2@, entry.3, entry.4),
        ),
{
    let _ = map.insert(key, entry);
}

/// Calls `dashmap::DashMap::get` and clones the value: that of the key, if the map holds one.
#[verifier::external_body]
fn map_get(map: &DashMap<PlainKey, PlainEntry>, key: &PlainKey) -> (entry: Option<PlainEntry>)
    ensures
        match entry {
            Some(found) => {
                let plain = (key.0@, key.1@, key.2, key.3@, key.4, key.5, key.6@);
                held_routes(*map).contains_key(plain) && held_routes(*map)[plain] == (
                    found.0@,
                    found.1@,
                    found.2@,
                    found.3,
                    found.4,
                )
            },
            None => !held_routes(*map).contains_key(
                (key.0@, key.1@, key.2, key.3@, key.4, key.5, key.6@),
            ),
        },
{
    match map.get(key) {
        Some(entry) => Some(entry.value().clone()),
        None => None,
    }
}

/// Calls `dashmap::DashMap::remove`, which takes a key and its value out.
#[verifier::external_body]
fn map_remove(map: &mut DashMap<PlainKey, PlainEntry>, key: &PlainKey)
    ensures
        held_routes(*final(map)) == held_routes(*old(map)).remove(
            (key.0@, key.1@, key.2, key.3@, key.4, key.5, key.6@),
        ),
{
    let _ = map.remove(key);
}

/// Whether an entry leads to another instance than a given one.
fn leads_elsewhere(entry: &PlainEntry, instance_id: &InstanceId) -> (elsewhere: bool)
    ensures
        elsewhere == (entry.1@ != instance_id@),
{
    !entry.1.same(instance_id)
}

/// Calls `dashmap::DashMap::retain` with a test of the value: what does not lead to another
/// instance is taken out, and the rest stays as it is.
#[verifier::external_body]
fn map_retain_elsewhere(map: &mut DashMap<PlainKey, PlainEntry>, instance_id: &InstanceId)
    ensures
        held_routes(*final(map)) == held_routes(*old(map)).restrict(
            Set::new(|key: PlainKeyModel| held_routes(*old(map))[key].1 != instance_id@),
        ),
{
    map.retain(|_, entry| leads_elsewhere(entry, instance_id));
}

/// Calls `std::time::Instant::now`. Nothing is said of the instant.
#[verifier::external_body]
fn clock_origin() -> (origin: Instant) {
    Instant::now()
}

/// Calls `std::time::Instant::elapsed` and takes it in nanoseconds. Nothing is said of how much
/// time has passed.
#[verifier::external_body]
fn elapsed_nanos(origin: &Instant) -> (nanos: u128) {
    origin.elapsed().as_nanos()
}

/// What stands for a key in the map.
pub open spec fn plain_key(key: CacheKeyModel) -> PlainKeyModel {
    let none = Seq::<char>::empty();
    let empty = Seq::<u8>::empty();
    match key.route_key {
        RouteKey::Str(value) => (key.service_kind, key.actor_kind, 0u8, value, 0u64, 0i64, empty),
        RouteKey::U64(value) => (key.service_kind, key.actor_kind, 1u8, none, value, 0i64, empty),
        RouteKey::I64(value) => (key.service_kind, key.actor_kind, 2u8, none, 0u64, value, empty),
        RouteKey::Bytes(value) => (key.service_kind, key.actor_kind, 3u8, none, 0u64, 0i64, value),
    }
}

fn plain(key: &RouteCacheKey) -> (plain: PlainKey)
    ensures
        (plain.0@, plain.1@, plain.2, plain.3@, plain.4, plain.5, plain.6@) == plain_key(key@),
{
    let service = key.service_kind.copy();
    let kind = key.actor_kind.copy();
    let none = String::new();
    let empty: Vec<u8> = Vec::new();
    match &key.route_key {
        RouteKey::Str(value) => (service, kind, 0, value.copy(), 0, 0, empty),
        RouteKey::U64(value) => (service, kind, 1, none, *value, 0, empty),
        RouteKey::I64(value) => (service, kind, 2, none, 0, *value, empty),
        RouteKey::Bytes(value) => (service, kind, 3, none, 0, 0, value.copy()),
    }
}

/// A remembered route, and when it was inserted, in nanoseconds since the cache was made.
#[verifier::ext_equal]
pub struct EntryModel {
    pub target: RouteTargetModel,
    pub inserted_at: u128,
}

/// What an entry of the map stands for.
pub open spec fn entry_of(entry: PlainEntryModel) -> EntryModel {
    EntryModel {
        target: RouteTarget {
            service_kind: entry.0,
            instance_id: entry.1,
            advertised_endpoint: entry.2,
            owner_epoch: match entry.3 {
                Some(epoch) => Some(Epoch(epoch)),
                None => None,
            },
        },
        inserted_at: entry.4,
    }
}

/// What a cache states.
#[verifier::ext_equal]
pub struct CacheModel {
    pub config: RouteCacheConfig,
    pub entries: Map<CacheKeyModel, EntryModel>,
}

/// What is found of a route.
#[derive(Debug, PartialEq, Eq)]
pub enum CacheLookup<T = RouteTarget> {
    Fresh(T),
    Stale(T),
    Miss,
}

pub type LookupModel = CacheLookup<RouteTargetModel>;

impl View for CacheLookup {
    type V = LookupModel;

    open spec fn view(&self) -> LookupModel {
        match self {
            CacheLookup::Fresh(target) => CacheLookup::Fresh(target@),
            CacheLookup::Stale(target) => CacheLookup::Stale(target@),
            CacheLookup::Miss => CacheLookup::Miss,
        }
    }
}

impl CacheModel {
    pub open spec fn inserted(
        self,
        key: CacheKeyModel,
        target: RouteTargetModel,
        now: u128,
    ) -> CacheModel {
        CacheModel {
            entries: self.entries.insert(key, EntryModel { target, inserted_at: now }),
            ..self
        }
    }

    pub open spec fn invalidated(self, key: CacheKeyModel) -> CacheModel {
        CacheModel { entries: self.entries.remove(key), ..self }
    }

    /// The cache without the routes to an instance.
    pub open spec fn without_instance(self, instance_id: Seq<char>) -> CacheModel {
        CacheModel {
            entries: self.entries.restrict(
                Set::new(
                    |key: CacheKeyModel| self.entries[key].target.instance_id != instance_id,
                ),
            ),
            ..self
        }
    }

    /// How old the entry of a key is.
    pub open spec fn age(self, key: CacheKeyModel, now: u128) -> int {
        if now >= self.entries[key].inserted_at {
            now - self.entries[key].inserted_at
        } else {
            0
        }
    }

    /// What is found of a key, and the cache after that: an expired route is dropped.
    pub open spec fn looked_up(self, key: CacheKeyModel, now: u128) -> (CacheModel, LookupModel) {
        if !self.entries.contains_key(key) {
            (self, CacheLookup::Miss)
        } else if self.age(key, now) < self.config.soft_ttl.length() {
            (self, CacheLookup::Fresh(self.entries[key].target))
        } else if self.age(key, now) < self.config.hard_ttl.length() {
            (self, CacheLookup::Stale(self.entries[key].target))
        } else {
            (self.invalidated(key), CacheLookup::Miss)
        }
    }
}

/// The routes that were resolved lately.
pub struct LocalRouteCache {
    config: RouteCacheConfig,
    entries: DashMap<PlainKey, PlainEntry>,
    origin: Instant,
}

impl View for LocalRouteCache {
    type V = CacheModel;

    closed spec fn view(&self) -> CacheModel {
        let held = held_routes(self.entries);
        CacheModel {
            config: self.config,
            entries: Map::new(
                |key: CacheKeyModel| held.contains_key(plain_key(key)),
                |key: CacheKeyModel| entry_of(held[plain_key(key)]),
            ),
        }
    }
}

impl LocalRouteCache {
    pub fn new(config: RouteCacheConfig) -> (cache: Self)
        requires
            config.is_ordered(),
        ensures
            cache@ == (CacheModel { config, entries: Map::empty() }),
    {
        let cache = LocalRouteCache { config, entries: new_map(), origin: clock_origin() };
        assert(cache@ =~= CacheModel { config, entries: Map::empty() });
        cache
    }

    /// How many nanoseconds have passed since the cache was made. Nothing is said of how many.
    pub(crate) fn clock(&self) -> (nanos: u128) {
        elapsed_nanos(&self.origin)
    }

    /// Remembers a route as of an instant.
    pub fn insert_at(&mut self, key: RouteCacheKey, target: RouteTarget, now: u128)
        ensures
            final(self)@ == old(self)@.inserted(key@, target@, now),
    {
        let epoch = match target.owner_epoch {
            Some(epoch) => Some(epoch.0),
            None => None,
        };
        let ghost stated = target@;
        map_insert(
            &mut self.entries,
            plain(&key),
            (target.service_kind, target.instance_id, target.advertised_endpoint, epoch, now),
        );
        assert(self@ =~= old(self)@.inserted(key@, stated, now));
    }

    /// Remembers a route as of now.
    pub fn insert(&mut self, key: RouteCacheKey, target: RouteTarget)
        ensures
            exists|now: u128| final(self)@ == #[trigger] old(self)@.inserted(key@, target@, now),
    {
        let now = self.clock();
        let ghost made = old(self)@.inserted(key@, target@, now);
        self.insert_at(key, target, now);
        assert(self@ == made);
    }

    /// Looks a route up as of an instant.
    pub fn get_at(&mut self, key: &RouteCacheKey, now: u128) -> (lookup: CacheLookup)
        ensures
            (final(self)@, lookup@) == old(self)@.looked_up(key@, now),
    {
        let plain = plain(key);
        let (service_kind, instance_id, advertised_endpoint, epoch, inserted_at) = match map_get(
            &self.entries,
            &plain,
        ) {
            Some(entry) => entry,
            None => {
                return CacheLookup::Miss;
            },
        };
        let owner_epoch = match epoch {
            Some(epoch) => Some(Epoch(epoch)),
            None => None,
        };
        let target = RouteTarget { service_kind, instance_id, advertised_endpoint, owner_epoch };
        assert(self@.entries[key@] =~= EntryModel { target: target@, inserted_at });
        let age: u128 = if now >= inserted_at {
            now - inserted_at
        } else {
            0
        };
        if age < self.config.soft_ttl.as_nanos() {
            CacheLookup::Fresh(target)
        } else if age < self.config.hard_ttl.as_nanos() {
            CacheLookup::Stale(target)
        } else {
            map_remove(&mut self.entries, &plain);
            assert(self@ =~= old(self)@.invalidated(key@));
            CacheLookup::Miss
        }
    }

    /// Looks a route up as of now.
    pub fn get(&mut self, key: &RouteCacheKey) -> (lookup: CacheLookup)
        ensures
            exists|now: u128|
                (final(self)@, lookup@) == #[trigger] old(self)@.looked_up(key@, now),
    {
        let now = self.clock();
        let ghost seen = old(self)@.looked_up(key@, now);
        let lookup = self.get_at(key, now);
        assert((self@, lookup@) == seen);
        lookup
    }

    pub fn invalidate(&mut self, key: &RouteCacheKey)
        ensures
            final(self)@ == old(self)@.invalidated(key@),
    {
        let plain = plain(key);
        map_remove(&mut self.entries, &plain);
        assert(self@ =~= old(self)@.invalidated(key@));
    }

    /// Drops every route to an instance.
    pub fn invalidate_instance(&mut self, instance_id: &InstanceId)
        ensures
            final(self)@ == old(self)@.without_instance(instance_id@),
    {
        map_retain_elsewhere(&mut self.entries, instance_id);
        assert(self@ =~= old(self)@.without_instance(instance_id@));
    }
}

impl Default for LocalRouteCache {
    fn default() -> (cache: Self)
        ensures
            cache@.entries == Map::<CacheKeyModel, EntryModel>::empty(),
            cache@.config.soft_ttl.length() == 5_000_000_000,
            cache@.config.hard_ttl.length() == 30_000_000_000,
    {
        LocalRouteCache::new(RouteCacheConfig::default())
    }
}

/// A route that was inserted is found until it expires: fresh at first, then stale.
pub proof fn law_an_inserted_route_is_found(
    cache: CacheModel,
    key: CacheKeyModel,
    target: RouteTargetModel,
    inserted: u128,
    now: u128,
)
    requires
        inserted <= now,
        now - inserted < cache.config.hard_ttl.length(),
    ensures
        cache.inserted(key, target, inserted).looked_up(key, now).1 == if now - inserted
            < cache.config.soft_ttl.length() {
            LookupModel::Fresh(target)
        } else {
            LookupModel::Stale(target)
        },
{
}

/// No route is handed out once it has expired or was invalidated.
pub proof fn law_a_dropped_route_is_missed(
    cache: CacheModel,
    key: CacheKeyModel,
    target: RouteTargetModel,
    inserted: u128,
    now: u128,
)
    requires
        cache.config.is_ordered(),
    ensures
        cache.invalidated(key).looked_up(key, now).1 == LookupModel::Miss,
        now >= inserted && now - inserted >= cache.config.hard_ttl.length() ==> cache.inserted(
            key,
            target,
            inserted,
        ).looked_up(key, now) == (
            cache.inserted(key, target, inserted).invalidated(key),
            LookupModel::Miss,
        ),
{
}

} // verus!
