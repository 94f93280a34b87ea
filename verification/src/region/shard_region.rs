//! The region: it routes to the shards whose homes it knows, and keeps messages for the others.
use vstd::prelude::*;

use crate::keymap::{seq_view, KeyMap};
use crate::region::waiting::{
    for_shard, lemma_marked_bytes, messages_of, payload_bytes, staying, WaitingModel, WaitingRoom,
};
use crate::region::{
    payload_content, payload_len, BufferedMessage, BufferedMessageMode, DecisionModel,
    EntityConfig, EntityConfigModel, EntityId, HomeModel, MessageModel, RegionConfig, RegionError,
    RouteDecision, ShardHome,
};
use crate::selection::marked;
use crate::time::MonotonicTime;
use crate::types::{NodeIncarnation, PlacementSlotState, Revision, ShardId};

verus! {

/// Routes the messages of one entity type.
pub struct ShardRegion {
    local_incarnation: NodeIncarnation,
    entity: EntityConfig,
    config: RegionConfig,
    homes: KeyMap<ShardId, ShardHome>,
    inflight: KeyMap<ShardId, ()>,
    waiting: WaitingRoom,
    applied_revision: Option<Revision>,
}

/// What a region knows.
#[verifier::ext_equal]
pub struct RegionModel {
    pub local_incarnation: NodeIncarnation,
    pub entity: EntityConfigModel,
    pub config: RegionConfig,
    pub homes: Map<ShardId, HomeModel>,
    pub inflight: Set<ShardId>,
    pub waiting: Seq<WaitingModel>,
    pub applied_revision: Option<Revision>,
}

impl View for ShardRegion {
    type V = RegionModel;

    closed spec fn view(&self) -> RegionModel {
        RegionModel {
            local_incarnation: self.local_incarnation,
            entity: self.entity@,
            config: self.config,
            homes: self.homes@,
            inflight: self.inflight@.dom(),
            waiting: self.waiting@,
            applied_revision: self.applied_revision,
        }
    }
}

impl RegionModel {
    /// Whether a revision is no later than the last one applied.
    pub open spec fn is_stale(self, revision: Revision) -> bool {
        self.applied_revision matches Some(applied) && revision.0 <= applied.0
    }

    /// Why the home of a shard is refused, if it is.
    pub open spec fn home_fault(self, shard_id: ShardId, home: HomeModel) -> Option<RegionError> {
        if self.is_stale(home.revision) {
            Some(RegionError::StaleRevision)
        } else if self.homes.dom().len() == self.config.maximum_cached_homes
            && !self.homes.contains_key(shard_id) {
            Some(RegionError::HomeCacheFull)
        } else {
            None
        }
    }

    /// The messages that wait for a shard, in the order in which they came.
    pub open spec fn queue(self, shard_id: ShardId) -> Seq<MessageModel> {
        messages_of(marked(self.waiting, for_shard(self.waiting, shard_id), true))
    }

    /// The region once the home of a shard is known.
    pub open spec fn with_home(self, shard_id: ShardId, home: HomeModel) -> RegionModel {
        RegionModel {
            homes: self.homes.insert(shard_id, home),
            inflight: self.inflight.remove(shard_id),
            waiting: marked(self.waiting, for_shard(self.waiting, shard_id), false),
            applied_revision: Some(home.revision),
            ..self
        }
    }

    /// The region once the home of a shard is given up.
    pub open spec fn without_home(self, shard_id: ShardId, revision: Revision) -> RegionModel {
        RegionModel {
            homes: self.homes.remove(shard_id),
            applied_revision: Some(revision),
            ..self
        }
    }

    /// Whether messages for a shard go to its home.
    pub open spec fn is_open(self, shard_id: ShardId) -> bool {
        self.homes.contains_key(shard_id) && self.homes[shard_id].state
            == PlacementSlotState::Running
    }

    /// Where messages for a shard with a running home go.
    pub open spec fn directed(self, shard_id: ShardId) -> DecisionModel {
        let home = self.homes[shard_id];
        if home.owner.incarnation == self.local_incarnation {
            DecisionModel::Local { shard_id, generation: home.generation }
        } else {
            DecisionModel::Remote { shard_id, home }
        }
    }

    /// The region once expired messages are dropped.
    pub open spec fn aged(self, now: MonotonicTime) -> RegionModel {
        RegionModel { waiting: marked(self.waiting, staying(self.waiting, now), true), ..self }
    }

    /// Until when a message may wait, if that can be told.
    pub open spec fn residence_deadline(self, now: MonotonicTime) -> Option<MonotonicTime> {
        if now.0 + self.config.maximum_buffer_age_millis <= u64::MAX {
            Some(MonotonicTime((now.0 + self.config.maximum_buffer_age_millis) as u64))
        } else {
            None
        }
    }

    /// When a message expires that is kept at `now`.
    pub open spec fn expiry(self, mode: BufferedMessageMode, residence: MonotonicTime) -> MonotonicTime {
        match mode {
            BufferedMessageMode::Tell => residence,
            BufferedMessageMode::Ask { deadline } => if deadline.0 <= residence.0 {
                deadline
            } else {
                residence
            },
        }
    }

    /// Why a message cannot be kept, if it cannot. Expired messages are already dropped.
    pub open spec fn keep_fault(
        self,
        mode: BufferedMessageMode,
        payload: Seq<u8>,
        now: MonotonicTime,
    ) -> Option<RegionError> {
        if self.waiting.len() == self.config.maximum_buffered_messages || payload_bytes(
            self.waiting,
        ) + payload.len() > self.config.maximum_buffered_bytes {
            Some(RegionError::BufferFull)
        } else if self.residence_deadline(now) is None {
            Some(RegionError::InvalidTime)
        } else if self.expiry(mode, self.residence_deadline(now)->0).0 <= now.0 {
            Some(RegionError::MessageExpired)
        } else {
            None
        }
    }

    /// The region once a message is kept.
    pub open spec fn kept(
        self,
        entity_id: Seq<u8>,
        message_id: u64,
        mode: BufferedMessageMode,
        payload: Seq<u8>,
        now: MonotonicTime,
    ) -> RegionModel {
        RegionModel {
            waiting: self.waiting.push(
                WaitingModel {
                    shard_id: self.entity.shard_of(entity_id),
                    message: MessageModel {
                        entity_id,
                        message_id,
                        mode,
                        payload,
                        admitted_at: now,
                        expires_at: self.expiry(mode, self.residence_deadline(now)->0),
                    },
                },
            ),
            ..self
        }
    }

    /// What routing a message does and answers.
    ///
    /// A message is kept before the lookup of its home is started: where no further lookup may
    /// be started, it stays.
    pub open spec fn routed(
        self,
        entity_id: Seq<u8>,
        message_id: u64,
        mode: BufferedMessageMode,
        payload: Seq<u8>,
        now: MonotonicTime,
    ) -> (RegionModel, Result<DecisionModel, RegionError>) {
        let shard_id = self.entity.shard_of(entity_id);
        let aged = self.aged(now);
        let kept = aged.kept(entity_id, message_id, mode, payload, now);
        if message_id == 0 {
            (self, Err(RegionError::InvalidMessage))
        } else if self.is_open(shard_id) {
            (self, Ok(self.directed(shard_id)))
        } else if aged.keep_fault(mode, payload, now) is Some {
            (aged, Err(aged.keep_fault(mode, payload, now)->0))
        } else if self.inflight.contains(shard_id) {
            (kept, Ok(DecisionModel::Buffered { shard_id, start_lookup: false }))
        } else if self.inflight.len() == self.config.maximum_inflight_lookups {
            (kept, Err(RegionError::LookupLimit))
        } else {
            (
                RegionModel { inflight: kept.inflight.insert(shard_id), ..kept },
                Ok(DecisionModel::Buffered { shard_id, start_lookup: true }),
            )
        }
    }

    /// The bounds that a region keeps.
    pub open spec fn is_bounded(self) -> bool {
        &&& self.homes.dom().finite()
        &&& self.inflight.finite()
        &&& self.homes.dom().len() <= self.config.maximum_cached_homes
        &&& self.inflight.len() <= self.config.maximum_inflight_lookups
        &&& self.waiting.len() <= self.config.maximum_buffered_messages
        &&& payload_bytes(self.waiting) <= self.config.maximum_buffered_bytes
    }
}

pub open spec fn decided(
    result: Result<RouteDecision, RegionError>,
) -> Result<DecisionModel, RegionError> {
    match result {
        Ok(decision) => Ok(decision@),
        Err(error) => Err(error),
    }
}

impl ShardRegion {
    pub fn new(
        local_incarnation: NodeIncarnation,
        entity: EntityConfig,
        config: RegionConfig,
    ) -> (result: Result<Self, RegionError>)
        ensures
            match result {
                Ok(region) => !config.has_zero_limit() && region@ == (RegionModel {
                    local_incarnation,
                    entity: entity@,
                    config,
                    homes: Map::empty(),
                    inflight: Set::empty(),
                    waiting: Seq::empty(),
                    applied_revision: None,
                }),
                Err(error) => config.has_zero_limit() && error == RegionError::ZeroLimit,
            },
    {
        match config.validate() {
            Err(error) => {
                return Err(error);
            },
            Ok(()) => {},
        }
        let region = ShardRegion {
            local_incarnation,
            entity,
            config,
            homes: KeyMap::new(),
            inflight: KeyMap::new(),
            waiting: WaitingRoom::new(),
            applied_revision: None,
        };
        assert(region@.inflight =~= Set::<ShardId>::empty());
        Ok(region)
    }

    fn has_applied(&self, revision: Revision) -> (stale: bool)
        ensures
            stale == self@.is_stale(revision),
    {
        match self.applied_revision {
            Some(applied) => revision.get() <= applied.get(),
            None => false,
        }
    }

    /// Learns the home of a shard, and hands out the messages that waited for it.
    pub fn apply_home(&mut self, shard_id: ShardId, home: ShardHome) -> (result: Result<
        Vec<BufferedMessage>,
        RegionError,
    >)
        ensures
            match result {
                Ok(messages) => {
                    &&& old(self)@.home_fault(shard_id, home@) is None
                    &&& seq_view(messages@) == old(self)@.queue(shard_id)
                    &&& final(self)@ == old(self)@.with_home(shard_id, home@)
                },
                Err(error) => {
                    &&& old(self)@.home_fault(shard_id, home@) == Some(error)
                    &&& final(self)@ == old(self)@
                },
            },
    {
        if self.has_applied(home.revision) {
            return Err(RegionError::StaleRevision);
        }
        if self.homes.len() == self.config.maximum_cached_homes && !self.homes.contains_key(
            &shard_id,
        ) {
            return Err(RegionError::HomeCacheFull);
        }
        self.applied_revision = Some(home.revision);
        self.homes.insert(shard_id, home);
        let _ = self.inflight.remove(&shard_id);
        let messages = self.waiting.take(shard_id);
        assert(self@ =~= old(self)@.with_home(shard_id, home@));
        Ok(messages)
    }

    /// Gives up the home of a shard that is being handed off.
    pub fn invalidate_for_handoff(&mut self, shard_id: ShardId, revision: Revision) -> (result:
        Result<(), RegionError>)
        ensures
            match result {
                Ok(_) => !old(self)@.is_stale(revision) && final(self)@ == old(self)@.without_home(
                    shard_id,
                    revision,
                ),
                Err(error) => old(self)@.is_stale(revision) && error == RegionError::StaleRevision
                    && final(self)@ == old(self)@,
            },
    {
        if self.has_applied(revision) {
            return Err(RegionError::StaleRevision);
        }
        self.applied_revision = Some(revision);
        let _ = self.homes.remove(&shard_id);
        assert(self@ =~= old(self)@.without_home(shard_id, revision));
        Ok(())
    }

    /// Routes a message to the home of its shard, or keeps it until the home is known.
    pub fn route(
        &mut self,
        entity_id: EntityId,
        message_id: u64,
        mode: BufferedMessageMode,
        payload: bytes::Bytes,
        now: MonotonicTime,
    ) -> (result: Result<RouteDecision, RegionError>)
        requires
            old(self)@.entity.shard_count > 0,
        ensures
            (final(self)@, decided(result)) == old(self)@.routed(
                entity_id@,
                message_id,
                mode,
                payload_content(payload),
                now,
            ),
    {
        if message_id == 0 {
            return Err(RegionError::InvalidMessage);
        }
        let shard_id = self.entity.shard_for(&entity_id);
        match self.homes.get(&shard_id) {
            Some(home) => {
                if home.state == PlacementSlotState::Running {
                    return if home.owner.incarnation == self.local_incarnation {
                        Ok(RouteDecision::Local { shard_id, generation: home.generation })
                    } else {
                        Ok(RouteDecision::Remote { shard_id, home: home.copy_home() })
                    };
                }
            },
            None => {},
        }
        self.waiting.expire(now);
        assert(self@ =~= old(self)@.aged(now));
        let added = payload_len(&payload);
        if self.waiting.len() == self.config.maximum_buffered_messages {
            return Err(RegionError::BufferFull);
        }
        match self.waiting.bytes().checked_add(added) {
            None => {
                return Err(RegionError::BufferFull);
            },
            Some(bytes) => {
                if bytes > self.config.maximum_buffered_bytes {
                    return Err(RegionError::BufferFull);
                }
            },
        }
        let residence_deadline = match now.checked_add_millis(
            self.config.maximum_buffer_age_millis,
        ) {
            None => {
                return Err(RegionError::InvalidTime);
            },
            Some(deadline) => deadline,
        };
        let expires_at = match mode {
            BufferedMessageMode::Tell => residence_deadline,
            BufferedMessageMode::Ask { deadline } => if deadline.0 <= residence_deadline.0 {
                deadline
            } else {
                residence_deadline
            },
        };
        if expires_at.0 <= now.0 {
            return Err(RegionError::MessageExpired);
        }
        let ghost aged = self@;
        self.waiting.push(
            shard_id,
            BufferedMessage { entity_id, message_id, mode, payload, admitted_at: now, expires_at },
        );
        let ghost kept = aged.kept(entity_id@, message_id, mode, payload_content(payload), now);
        assert(self@ =~= kept);
        if self.inflight.contains_key(&shard_id) {
            return Ok(RouteDecision::Buffered { shard_id, start_lookup: false });
        }
        if self.inflight.len() == self.config.maximum_inflight_lookups {
            return Err(RegionError::LookupLimit);
        }
        self.inflight.insert(shard_id, ());
        assert(self@.inflight =~= kept.inflight.insert(shard_id));
        Ok(RouteDecision::Buffered { shard_id, start_lookup: true })
    }
}

/// What a region holds stays within its bounds, whatever it learns and routes.
pub proof fn law_region_stays_bounded(
    region: RegionModel,
    shard_id: ShardId,
    home: HomeModel,
    revision: Revision,
    entity_id: Seq<u8>,
    message_id: u64,
    mode: BufferedMessageMode,
    payload: Seq<u8>,
    now: MonotonicTime,
)
    requires
        region.is_bounded(),
    ensures
        region.home_fault(shard_id, home) is None ==> region.with_home(shard_id, home).is_bounded(),
        region.without_home(shard_id, revision).is_bounded(),
        region.routed(entity_id, message_id, mode, payload, now).0.is_bounded(),
{
    lemma_marked_len(region.waiting, for_shard(region.waiting, shard_id));
    lemma_marked_bytes(region.waiting, for_shard(region.waiting, shard_id));
    lemma_marked_len(region.waiting, staying(region.waiting, now));
    lemma_marked_bytes(region.waiting, staying(region.waiting, now));
    let aged = region.aged(now);
    let kept = aged.kept(entity_id, message_id, mode, payload, now);
    assert(kept.waiting.drop_last() =~= aged.waiting);
    vstd::set_lib::lemma_len_subset(region.homes.dom().remove(shard_id), region.homes.dom());
    assert(region.homes.remove(shard_id).dom() =~= region.homes.dom().remove(shard_id));
    assert(region.homes.insert(shard_id, home).dom() =~= region.homes.dom().insert(shard_id));
    vstd::set_lib::lemma_len_subset(region.inflight.remove(shard_id), region.inflight);
}

proof fn lemma_marked_len(waiting: Seq<WaitingModel>, marks: Seq<bool>)
    ensures
        marked(waiting, marks, true).len() + marked(waiting, marks, false).len() == waiting.len(),
    decreases waiting.len(),
{
    if waiting.len() > 0 {
        lemma_marked_len(waiting.drop_last(), marks);
    }
}

/// One lookup is started for a shard: while it is under way, further messages only wait.
pub proof fn law_lookups_are_single_flight(
    region: RegionModel,
    entity_id: Seq<u8>,
    message_id: u64,
    mode: BufferedMessageMode,
    payload: Seq<u8>,
    now: MonotonicTime,
)
    ensures
        ({
            let shard_id = region.entity.shard_of(entity_id);
            let (after, result) = region.routed(entity_id, message_id, mode, payload, now);
            &&& region.inflight.contains(shard_id) ==> result != Ok::<_, RegionError>(
                DecisionModel::Buffered { shard_id, start_lookup: true },
            )
            &&& result is Ok && result->Ok_0 is Buffered ==> after.inflight.contains(shard_id)
        }),
{
}

/// What is kept is handed out once, behind what came before it, when the home is learnt.
pub proof fn law_kept_messages_are_handed_out(
    region: RegionModel,
    entity_id: Seq<u8>,
    message_id: u64,
    mode: BufferedMessageMode,
    payload: Seq<u8>,
    now: MonotonicTime,
    home: HomeModel,
)
    requires
        ({
            let result = region.routed(entity_id, message_id, mode, payload, now).1;
            result is Ok && result->Ok_0 is Buffered
        }),
    ensures
        ({
            let shard_id = region.entity.shard_of(entity_id);
            let aged = region.aged(now);
            let after = region.routed(entity_id, message_id, mode, payload, now).0;
            &&& after.queue(shard_id) == aged.queue(shard_id).push(after.waiting.last().message)
            &&& after.waiting.last().message.message_id == message_id
            &&& after.waiting.last().message.payload == payload
            &&& after.waiting.last().message.mode == mode
            &&& after.with_home(shard_id, home).queue(shard_id) == Seq::<MessageModel>::empty()
        }),
{
    let shard_id = region.entity.shard_of(entity_id);
    let aged = region.aged(now);
    let after = region.routed(entity_id, message_id, mode, payload, now).0;
    assert(after.waiting.drop_last() =~= aged.waiting);
    lemma_marked_congruent(
        aged.waiting,
        for_shard(after.waiting, shard_id),
        for_shard(aged.waiting, shard_id),
        true,
    );
    assert(after.queue(shard_id) =~= aged.queue(shard_id).push(after.waiting.last().message));
    lemma_unwanted(after.waiting, shard_id);
    let rest = after.with_home(shard_id, home).waiting;
    lemma_none_for(rest, for_shard(rest, shard_id));
    assert(after.with_home(shard_id, home).queue(shard_id) =~= Seq::<MessageModel>::empty());
}

proof fn lemma_marked_congruent(
    waiting: Seq<WaitingModel>,
    left: Seq<bool>,
    right: Seq<bool>,
    wanted: bool,
)
    requires
        forall|i: int| 0 <= i < waiting.len() ==> #[trigger] left[i] == right[i],
    ensures
        marked(waiting, left, wanted) == marked(waiting, right, wanted),
    decreases waiting.len(),
{
    if waiting.len() > 0 {
        lemma_marked_congruent(waiting.drop_last(), left, right, wanted);
        assert(left[waiting.len() - 1] == right[waiting.len() - 1]);
    }
}

/// What is left once a shard's messages are taken waits for other shards.
proof fn lemma_unwanted(waiting: Seq<WaitingModel>, shard_id: ShardId)
    ensures
        ({
            let rest = marked(waiting, for_shard(waiting, shard_id), false);
            forall|i: int| 0 <= i < rest.len() ==> (#[trigger] rest[i]).shard_id != shard_id
        }),
    decreases waiting.len(),
{
    if waiting.len() > 0 {
        let front = waiting.drop_last();
        lemma_unwanted(front, shard_id);
        lemma_marked_congruent(
            front,
            for_shard(waiting, shard_id),
            for_shard(front, shard_id),
            false,
        );
    }
}

proof fn lemma_none_for(waiting: Seq<WaitingModel>, marks: Seq<bool>)
    requires
        forall|i: int| 0 <= i < waiting.len() ==> !#[trigger] marks[i],
    ensures
        marked(waiting, marks, true).len() == 0,
    decreases waiting.len(),
{
    if waiting.len() > 0 {
        lemma_none_for(waiting.drop_last(), marks);
        assert(!marks[waiting.len() - 1]);
    }
}

/// Revisions only grow: what was applied once is refused from then on.
pub proof fn law_revisions_apply_once(
    region: RegionModel,
    shard_id: ShardId,
    home: HomeModel,
    revision: Revision,
    later: Revision,
)
    ensures
        region.with_home(shard_id, home).is_stale(later) == (later.0 <= home.revision.0),
        region.without_home(shard_id, revision).is_stale(later) == (later.0 <= revision.0),
{
}

/// Once a home is given up for a handoff, no message goes there: it waits or is refused.
pub proof fn law_handoff_closes_the_shard(
    region: RegionModel,
    revision: Revision,
    entity_id: Seq<u8>,
    message_id: u64,
    mode: BufferedMessageMode,
    payload: Seq<u8>,
    now: MonotonicTime,
)
    ensures
        ({
            let shard_id = region.entity.shard_of(entity_id);
            let result = region.without_home(shard_id, revision).routed(
                entity_id,
                message_id,
                mode,
                payload,
                now,
            ).1;
            result is Ok ==> result->Ok_0 is Buffered
        }),
{
}

} // verus!
