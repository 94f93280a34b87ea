//! Which shard an entity is on, which configurations are sound, and where messages go.
use vstd::prelude::*;
use vstd::utf8::encode_utf8;

use crate::hashing::{blake3_digest, xxh3_64};
use crate::order::{is_first_difference, law_sorting_is_canonical, lemma_sorting_exists};
use crate::region::barrier::HandoffBarrierModel;
use crate::region::shard_region::RegionModel;
use crate::region::waiting::{
    for_shard, messages_of, payload_bytes, stays, staying, WaitingModel,
};
use crate::region::{
    requested_config, BufferedMessageMode, DecisionModel, EntityConfigModel, HomeModel,
    MessageModel, RegionConfig, RegionError,
};
use crate::selection::marked;
use crate::sharding::lemma_congruent;
use crate::time::MonotonicTime;
use crate::types::{NodeIncarnation, PlacementSlotState, ProtocolId, Revision, ShardId};

verus! {

/// The number of the shard of an entity is below the shard count, and congruent to the seeded XXH3
/// hash of the bytes of the entity modulo the shard count; so two entities share a shard exactly
/// when their hashes are congruent.
pub proof fn law_shards_are_congruent_to_the_hash(
    config: EntityConfigModel,
    entity_id: Seq<u8>,
    other: Seq<u8>,
)
    requires
        config.shard_count > 0,
    ensures
        config.shard_of(entity_id).0 < config.shard_count,
        (xxh3_64(entity_id, 0x4c41_5454_4943_4531) - config.shard_of(entity_id).0)
            % config.shard_count as int == 0,
        config.shard_of(entity_id) == config.shard_of(other) <==> (xxh3_64(
            entity_id,
            0x4c41_5454_4943_4531,
        ) - xxh3_64(other, 0x4c41_5454_4943_4531)) % config.shard_count as int == 0,
{
    lemma_congruent(
        xxh3_64(entity_id, 0x4c41_5454_4943_4531) as int,
        xxh3_64(other, 0x4c41_5454_4943_4531) as int,
        config.shard_count as int,
    );
}

/// A configuration is refused exactly when it has no shards or more than 1048576, when its
/// allocation policy has no name, one of more than 128 bytes or no version, or when it lists more
/// than 64 constraints or one of more than 256 bytes.
pub proof fn law_sound_configs_are_bounded(config: EntityConfigModel)
    ensures
        config.fault() is None <==> {
            &&& 1 <= config.shard_count <= 1048576
            &&& config.allocation_policy_id.len() > 0
            &&& encode_utf8(config.allocation_policy_id).len() <= 128
            &&& config.allocation_policy_version > 0
            &&& config.hard_constraints.len() <= 64
            &&& forall|i: int|
                0 <= i < config.hard_constraints.len() ==> encode_utf8(
                    #[trigger] config.hard_constraints[i],
                ).len() <= 256
        },
        config.fault() == Some(RegionError::InvalidShardCount) <==> config.shard_count == 0
            || config.shard_count > 1048576,
        config.fault() is Some ==> config.fault() == Some(RegionError::InvalidShardCount)
            || config.fault() == Some(RegionError::InvalidConfig),
{
}

/// Whether the bytes of one text come before those of another.
pub open spec fn ascends(left: Seq<char>, right: Seq<char>) -> bool {
    exists|k: int| #[trigger] is_first_difference(encode_utf8(left), encode_utf8(right), k)
}

/// A sound configuration is sealed as it was asked for: it keeps what it states, lists its
/// constraints in the order of their bytes and each once, is of the first hash version and bears the
/// BLAKE3 digest of its canonical bytes.
pub proof fn law_sealed_configs_keep_what_they_state(config: EntityConfigModel)
    ensures
        ({
            let sealed = config.sealed();
            &&& sealed.domain == config.domain
            &&& sealed.entity_type == config.entity_type
            &&& sealed.protocol_id == config.protocol_id
            &&& sealed.shard_count == config.shard_count
            &&& sealed.allocation_policy_id == config.allocation_policy_id
            &&& sealed.allocation_policy_version == config.allocation_policy_version
            &&& sealed.shard_hash_version == 1
            &&& sealed.hard_constraints.to_set() == config.hard_constraints.to_set()
            &&& forall|i: int, j: int|
                0 <= i < j < sealed.hard_constraints.len() ==> ascends(
                    #[trigger] sealed.hard_constraints[i],
                    #[trigger] sealed.hard_constraints[j],
                )
            &&& sealed.fingerprint == blake3_digest(sealed.canonical())
        }),
{
    let sealed = config.sealed();
    let sorted = lemma_sorting_exists(config.hard_constraints);
    law_sorting_is_canonical(crate::region::in_order(config.hard_constraints), sorted);
    assert forall|i: int, j: int|
        0 <= i < j < sealed.hard_constraints.len() implies ascends(
        #[trigger] sealed.hard_constraints[i],
        #[trigger] sealed.hard_constraints[j],
    ) by {
        crate::order::law_texts_are_ordered_by_their_bytes(
            sealed.hard_constraints[i],
            sealed.hard_constraints[j],
        );
    }
    assert(sealed.canonical() == EntityConfigModel {
        fingerprint: config.fingerprint,
        ..sealed
    }.canonical());
}

/// What is asked for is checked and sealed as it is asked for: with that domain, type, protocol, shard
/// count, policy and constraints.
pub proof fn law_configs_are_made_as_asked(
    domain: Seq<char>,
    entity_type: Seq<char>,
    protocol_id: ProtocolId,
    shard_count: u32,
    policy_id: Seq<char>,
    policy_version: u32,
    constraints: Seq<Seq<char>>,
)
    ensures
        ({
            let config = requested_config(
                domain,
                entity_type,
                protocol_id,
                shard_count,
                policy_id,
                policy_version,
                constraints,
            );
            &&& config.domain == domain
            &&& config.entity_type == entity_type
            &&& config.protocol_id == protocol_id
            &&& config.shard_count == shard_count
            &&& config.allocation_policy_id == policy_id
            &&& config.allocation_policy_version == policy_version
            &&& config.hard_constraints == constraints
        }),
{
}

/// A configuration from elsewhere passes exactly when it is sound, of the first hash version, and
/// bears the very digest that it is sealed with.
pub proof fn law_configs_pass_under_their_own_digest(config: EntityConfigModel)
    ensures
        config.rejection() is None <==> config.fault() is None && config.shard_hash_version == 1
            && config.fingerprint == config.sealed().fingerprint,
        config.fault() is Some ==> config.rejection() == config.fault(),
        config.fault() is None && config.rejection() is Some ==> config.rejection() == Some(
            RegionError::InvalidConfig,
        ),
{
}

/// Every limit of a region must allow something.
pub proof fn law_limits_allow_something(config: RegionConfig)
    ensures
        !config.has_zero_limit() <==> {
            &&& config.maximum_cached_homes > 0
            &&& config.maximum_inflight_lookups > 0
            &&& config.maximum_buffered_messages > 0
            &&& config.maximum_buffered_bytes > 0
            &&& config.maximum_buffer_age_millis > 0
        },
{
}

proof fn lemma_marked_is_filter(
    all: Seq<WaitingModel>,
    waiting: Seq<WaitingModel>,
    shard_id: ShardId,
    wanted: bool,
)
    requires
        waiting.len() <= all.len(),
        forall|i: int| 0 <= i < waiting.len() ==> #[trigger] waiting[i] == all[i],
    ensures
        marked(waiting, for_shard(all, shard_id), wanted) == waiting.filter(
            |entry: WaitingModel| (entry.shard_id == shard_id) == wanted,
        ),
    decreases waiting.len(),
{
    let pred = |entry: WaitingModel| (entry.shard_id == shard_id) == wanted;
    reveal(Seq::filter);
    if waiting.len() > 0 {
        lemma_marked_is_filter(all, waiting.drop_last(), shard_id, wanted);
        assert(waiting.last() == all[waiting.len() - 1]);
        assert(for_shard(all, shard_id)[waiting.len() - 1] == (waiting.last().shard_id
            == shard_id));
    }
}

proof fn lemma_queue(region: RegionModel, shard_id: ShardId)
    ensures
        region.queue(shard_id) == region.waiting.filter(
            |entry: WaitingModel| entry.shard_id == shard_id,
        ).map_values(|entry: WaitingModel| entry.message),
{
    lemma_marked_is_filter(region.waiting, region.waiting, shard_id, true);
    let own = |entry: WaitingModel| entry.shard_id == shard_id;
    let own_too = |entry: WaitingModel| (entry.shard_id == shard_id) == true;
    assert(own =~= own_too);
    assert(region.queue(shard_id) =~= region.waiting.filter(own).map_values(
        |entry: WaitingModel| entry.message,
    ));
}

/// The messages that wait for a shard are those that were kept for it, in the order in which they
/// were; once its home is known they are gone from the region, and the messages for the other shards
/// wait on as they did.
pub proof fn law_messages_wait_in_order(
    region: RegionModel,
    shard_id: ShardId,
    other: ShardId,
    home: HomeModel,
    revision: Revision,
)
    ensures
        region.queue(shard_id) == region.waiting.filter(
            |entry: WaitingModel| entry.shard_id == shard_id,
        ).map_values(|entry: WaitingModel| entry.message),
        ({
            let after = region.with_home(shard_id, home);
            &&& after.waiting == region.waiting.filter(
                |entry: WaitingModel| entry.shard_id != shard_id,
            )
            &&& after.homes.contains_key(shard_id) && after.homes[shard_id] == home
            &&& other != shard_id ==> (after.homes.contains_key(other)
                <==> region.homes.contains_key(other)) && after.homes[other]
                == region.homes[other]
            &&& after.inflight.contains(other) <==> region.inflight.contains(other) && other
                != shard_id
            &&& after.applied_revision == Some(home.revision)
            &&& after.local_incarnation == region.local_incarnation
            &&& after.entity == region.entity
            &&& after.config == region.config
        }),
        ({
            let after = region.without_home(shard_id, revision);
            &&& after.waiting == region.waiting
            &&& after.inflight == region.inflight
            &&& after.homes.contains_key(other) <==> region.homes.contains_key(other) && other
                != shard_id
            &&& other != shard_id ==> after.homes[other] == region.homes[other]
            &&& after.applied_revision == Some(revision)
            &&& after.local_incarnation == region.local_incarnation
            &&& after.entity == region.entity
            &&& after.config == region.config
        }),
{
    lemma_queue(region, shard_id);
    lemma_marked_is_filter(region.waiting, region.waiting, shard_id, false);
    let rest = |entry: WaitingModel| entry.shard_id != shard_id;
    let rest_too = |entry: WaitingModel| (entry.shard_id == shard_id) == false;
    assert(rest =~= rest_too);
}

/// The home of a shard is taken in exactly when it comes with a later revision than the last one
/// applied, and there is room for it or the shard has a home already.
pub proof fn law_homes_are_taken_in_once(region: RegionModel, shard_id: ShardId, home: HomeModel)
    ensures
        ({
            let stale = region.applied_revision is Some && home.revision.0
                <= (region.applied_revision->0).0;
            let full = region.homes.dom().len() == region.config.maximum_cached_homes
                && !region.homes.contains_key(shard_id);
            &&& region.home_fault(shard_id, home) is None <==> !stale && !full
            &&& region.home_fault(shard_id, home) == Some(RegionError::StaleRevision) <==> stale
            &&& region.home_fault(shard_id, home) == Some(RegionError::HomeCacheFull) <==> !stale
                && full
            &&& region.is_stale(home.revision) <==> stale
        }),
{
}

/// Whether the first messages of a queue, and no more of them, have expired.
pub open spec fn expired_up_to(queue: Seq<MessageModel>, now: MonotonicTime, n: int) -> bool {
    &&& 0 <= n <= queue.len()
    &&& forall|i: int| 0 <= i < n ==> (#[trigger] queue[i]).expires_at.0 <= now.0
    &&& n < queue.len() ==> queue[n].expires_at.0 > now.0
}

proof fn lemma_aged_queue(
    all: Seq<WaitingModel>,
    waiting: Seq<WaitingModel>,
    now: MonotonicTime,
    shard_id: ShardId,
) -> (n: int)
    requires
        waiting.len() <= all.len(),
        forall|i: int| 0 <= i < waiting.len() ==> #[trigger] waiting[i] == all[i],
    ensures
        ({
            let own = |entry: WaitingModel| entry.shard_id == shard_id;
            let queue = waiting.filter(own);
            let aged = marked(waiting, staying(all, now), true).filter(own);
            &&& 0 <= n <= queue.len()
            &&& aged == queue.skip(n)
            &&& forall|i: int|
                0 <= i < n ==> (#[trigger] queue[i]).message.expires_at.0 <= now.0
            &&& n < queue.len() ==> queue[n].message.expires_at.0 > now.0
            &&& n < queue.len() <==> exists|i: int|
                0 <= i < waiting.len() && (#[trigger] all[i]).shard_id == shard_id
                    && all[i].message.expires_at.0 > now.0
        }),
    decreases waiting.len(),
{
    let own = |entry: WaitingModel| entry.shard_id == shard_id;
    reveal(Seq::filter);
    let queue = waiting.filter(own);
    let aged = marked(waiting, staying(all, now), true).filter(own);
    if waiting.len() == 0 {
        assert(aged =~= queue.skip(0));
        0
    } else {
        let front = waiting.drop_last();
        let at = waiting.len() - 1;
        let last = waiting.last();
        assert(last == all[at]);
        let n = lemma_aged_queue(all, front, now, shard_id);
        let front_queue = front.filter(own);
        let front_kept = marked(front, staying(all, now), true);
        let stayed = staying(all, now)[at];
        assert(stayed == stays(all, now, at));
        if stayed {
            assert(front_kept.push(last).drop_last() =~= front_kept);
        }
        if last.shard_id != shard_id {
            assert(queue =~= front_queue);
            assert(aged =~= front_kept.filter(own));
            if exists|i: int|
                0 <= i < waiting.len() && (#[trigger] all[i]).shard_id == shard_id
                    && all[i].message.expires_at.0 > now.0 {
                let i = choose|i: int|
                    0 <= i < waiting.len() && (#[trigger] all[i]).shard_id == shard_id
                        && all[i].message.expires_at.0 > now.0;
                assert(i < front.len());
            }
            n
        } else {
            assert(queue =~= front_queue.push(last));
            if n < front_queue.len() {
                let i = choose|i: int|
                    0 <= i < front.len() && (#[trigger] all[i]).shard_id == shard_id
                        && all[i].message.expires_at.0 > now.0;
                assert(all[i].shard_id == all[at].shard_id);
                assert(stayed);
                assert(aged =~= queue.skip(n));
                assert(queue[n] == front_queue[n]);
                n
            } else if last.message.expires_at.0 > now.0 {
                assert(all[at].shard_id == shard_id);
                assert(stayed);
                assert(front_kept.filter(own) =~= Seq::<WaitingModel>::empty());
                assert(aged =~= queue.skip(n));
                assert(queue[n] == last);
                n
            } else {
                if stayed {
                    let i = choose|i: int|
                        0 <= i <= at && (#[trigger] all[i]).shard_id == all[at].shard_id
                            && all[i].message.expires_at.0 > now.0;
                    assert(i < front.len());
                    assert(false);
                }
                assert(aged =~= queue.skip(n + 1));
                n + 1
            }
        }
    }
}

/// Messages expire from the front of the queue of their shard: a queue loses exactly the messages in
/// front of the first one that has not expired.
pub proof fn law_queues_expire_from_the_front(
    region: RegionModel,
    now: MonotonicTime,
    shard_id: ShardId,
) -> (n: int)
    ensures
        expired_up_to(region.queue(shard_id), now, n),
        region.aged(now).queue(shard_id) == region.queue(shard_id).skip(n),
        region.aged(now).homes == region.homes,
        region.aged(now).inflight == region.inflight,
        region.aged(now).applied_revision == region.applied_revision,
        region.aged(now).entity == region.entity,
        region.aged(now).config == region.config,
{
    let own = |entry: WaitingModel| entry.shard_id == shard_id;
    let message = |entry: WaitingModel| entry.message;
    let n = lemma_aged_queue(region.waiting, region.waiting, now, shard_id);
    lemma_queue(region, shard_id);
    lemma_queue(region.aged(now), shard_id);
    let queue = region.waiting.filter(own);
    assert(queue.skip(n).map_values(message) =~= queue.map_values(message).skip(n));
    assert forall|i: int| 0 <= i < n implies (#[trigger] region.queue(
        shard_id,
    )[i]).expires_at.0 <= now.0 by {
        assert(region.queue(shard_id)[i] == queue[i].message);
    }
    n
}

/// The payloads that wait take as many bytes as they hold together, whichever came first.
pub proof fn law_waiting_bytes_add_up(waiting: Seq<WaitingModel>, next: WaitingModel)
    ensures
        payload_bytes(Seq::<WaitingModel>::empty()) == 0,
        payload_bytes(waiting.push(next)) == payload_bytes(waiting) + next.message.payload.len(),
{
    assert(waiting.push(next).drop_last() =~= waiting);
}

/// Where a message goes: to the home of its shard if that is known and runs, here or elsewhere.
/// Otherwise it is kept behind what waits already, if it has room and time, for as long as the region
/// keeps messages but no longer than it is asked for; a lookup is started for the first one, unless
/// too many are under way.
pub proof fn law_messages_go_to_the_home_of_their_shard(
    region: RegionModel,
    entity_id: Seq<u8>,
    message_id: u64,
    mode: BufferedMessageMode,
    payload: Seq<u8>,
    now: MonotonicTime,
)
    ensures
        ({
            let shard_id = region.entity.shard_of(entity_id);
            let (after, result) = region.routed(entity_id, message_id, mode, payload, now);
            let home = region.homes[shard_id];
            let open = region.homes.contains_key(shard_id) && home.state
                == PlacementSlotState::Running;
            let here = home.owner.incarnation == region.local_incarnation;
            let aged = region.aged(now);
            let full = aged.waiting.len() == region.config.maximum_buffered_messages
                || payload_bytes(aged.waiting) + payload.len()
                > region.config.maximum_buffered_bytes;
            let limit = now.0 + region.config.maximum_buffer_age_millis;
            let timeless = limit > u64::MAX;
            let late = mode matches BufferedMessageMode::Ask { deadline } && deadline.0 <= now.0
                || region.config.maximum_buffer_age_millis == 0;
            let kept = message_id != 0 && !open && !full && !timeless && !late;
            let under_way = region.inflight.contains(shard_id);
            let busy = region.inflight.len() == region.config.maximum_inflight_lookups;
            &&& message_id == 0 ==> result == Err::<DecisionModel, _>(RegionError::InvalidMessage)
                && after == region
            &&& message_id != 0 && open && here ==> after == region && result == Ok::<
                _,
                RegionError,
            >(DecisionModel::Local { shard_id, generation: home.generation })
            &&& message_id != 0 && open && !here ==> after == region && result == Ok::<
                _,
                RegionError,
            >(DecisionModel::Remote { shard_id, home })
            &&& message_id != 0 && !open && full ==> after == aged && result == Err::<
                DecisionModel,
                _,
            >(RegionError::BufferFull)
            &&& message_id != 0 && !open && !full && timeless ==> after == aged && result == Err::<
                DecisionModel,
                _,
            >(RegionError::InvalidTime)
            &&& message_id != 0 && !open && !full && !timeless && late ==> after == aged && result
                == Err::<DecisionModel, _>(RegionError::MessageExpired)
            &&& kept && under_way ==> result == Ok::<_, RegionError>(
                DecisionModel::Buffered { shard_id, start_lookup: false },
            )
            &&& kept && !under_way && busy ==> result == Err::<DecisionModel, _>(
                RegionError::LookupLimit,
            )
            &&& kept && !under_way && !busy ==> result == Ok::<_, RegionError>(
                DecisionModel::Buffered { shard_id, start_lookup: true },
            )
            &&& after.inflight == if kept && !under_way && !busy {
                region.inflight.insert(shard_id)
            } else {
                region.inflight
            }
            &&& kept ==> {
                let entry = after.waiting.last();
                &&& after.waiting.len() == aged.waiting.len() + 1
                &&& after.waiting.drop_last() == aged.waiting
                &&& entry.shard_id == shard_id
                &&& entry.message.entity_id == entity_id
                &&& entry.message.message_id == message_id
                &&& entry.message.mode == mode
                &&& entry.message.payload == payload
                &&& entry.message.admitted_at == now
                &&& entry.message.expires_at.0 <= limit
                &&& mode matches BufferedMessageMode::Ask { deadline }
                    ==> entry.message.expires_at.0 <= deadline.0
                &&& entry.message.expires_at.0 == limit || (
                mode matches BufferedMessageMode::Ask { deadline } && entry.message.expires_at
                    == deadline)
            }
            &&& after.homes == region.homes
            &&& after.applied_revision == region.applied_revision
            &&& after.local_incarnation == region.local_incarnation
            &&& after.entity == region.entity
            &&& after.config == region.config
        }),
{
    let aged = region.aged(now);
    let kept = aged.kept(entity_id, message_id, mode, payload, now);
    assert(kept.waiting.drop_last() =~= aged.waiting);
}

/// An acknowledgement counts exactly when the session is waited for and has applied the revision of
/// the barrier; a barrier is complete exactly when those that are waited for are those that have
/// acknowledged.
pub proof fn law_barriers_wait_for_their_sessions(
    barrier: HandoffBarrierModel,
    session: NodeIncarnation,
    revision: Revision,
    other: NodeIncarnation,
)
    ensures
        barrier.expects(session, revision) <==> barrier.required.contains(session)
            && barrier.revision.0 <= revision.0,
        barrier.complete() <==> forall|id: NodeIncarnation|
            barrier.required.contains(id) <==> barrier.applied.contains(id),
        barrier.acknowledged(session).applied.contains(other) <==> other == session
            || barrier.applied.contains(other),
        barrier.acknowledged(session).required == barrier.required,
        barrier.acknowledged(session).revision == barrier.revision,
        barrier.departed(session).required.contains(other) <==> other != session
            && barrier.required.contains(other),
        barrier.departed(session).applied == barrier.applied,
        barrier.departed(session).revision == barrier.revision,
{
    if forall|id: NodeIncarnation|
        barrier.required.contains(id) <==> barrier.applied.contains(id) {
        assert(barrier.required =~= barrier.applied);
    }
}

} // verus!
