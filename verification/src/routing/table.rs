//! Routes by virtual shards.
use vstd::prelude::*;

use crate::keymap::{seq_view, Key, KeyMap};
use crate::records::{
    ActorKind, Epoch, InstanceId, InstanceRecord, InstanceState, RouteKey, ServiceKind,
    VirtualShardId,
};
use crate::routing::{
    resolution, PlacementError, PlacementErrorModel, RouteTarget, RouteTargetModel,
};
use crate::sharding::VirtualShardMapper;
use crate::sorted::SortedMap;

verus! {

impl View for VirtualShardId {
    type V = VirtualShardId;

    open spec fn view(&self) -> VirtualShardId {
        *self
    }
}

impl Key for VirtualShardId {
    fn same(&self, other: &Self) -> (same: bool) {
        *self == *other
    }

    fn copy(&self) -> (copy: Self) {
        *self
    }
}

/// The owner of a virtual shard.
#[derive(Debug, PartialEq, Eq)]
pub struct VirtualShardAssignment<S = String> {
    pub shard_id: VirtualShardId,
    pub owner: S,
    pub epoch: Epoch,
}

pub type AssignmentModel = VirtualShardAssignment<Seq<char>>;

impl View for VirtualShardAssignment {
    type V = AssignmentModel;

    open spec fn view(&self) -> AssignmentModel {
        VirtualShardAssignment {
            shard_id: self.shard_id,
            owner: self.owner@,
            epoch: self.epoch,
        }
    }
}

/// Routes by virtual shards: which shard a route key falls in, who owns the shard, and whether
/// the owner takes requests.
pub struct VirtualShardRouteTable {
    service_kind: ServiceKind,
    actor_kind: ActorKind,
    mapper: VirtualShardMapper,
    assignments: KeyMap<VirtualShardId, VirtualShardAssignment>,
    instances: SortedMap<InstanceId, InstanceRecord>,
}

#[verifier::ext_equal]
pub struct TableModel {
    pub service_kind: Seq<char>,
    pub actor_kind: Seq<char>,
    pub mapper: VirtualShardMapper,
    pub assignments: Map<VirtualShardId, AssignmentModel>,
    pub instances: Map<Seq<char>, InstanceRecord<Seq<char>>>,
}

impl View for VirtualShardRouteTable {
    type V = TableModel;

    closed spec fn view(&self) -> TableModel {
        TableModel {
            service_kind: self.service_kind@,
            actor_kind: self.actor_kind@,
            mapper: self.mapper,
            assignments: self.assignments@,
            instances: self.instances@,
        }
    }
}

/// The first so many assignments by their shards: the last one of a shard counts.
pub open spec fn by_shard(assignments: Seq<AssignmentModel>, count: nat) -> Map<
    VirtualShardId,
    AssignmentModel,
>
    decreases count,
{
    if count == 0 {
        Map::empty()
    } else {
        by_shard(assignments, (count - 1) as nat).insert(
            assignments[count - 1].shard_id,
            assignments[count - 1],
        )
    }
}

impl TableModel {
    /// Where a route key leads.
    pub open spec fn resolve(self, route_key: RouteKey<Seq<char>, Seq<u8>>) -> Result<
        RouteTargetModel,
        PlacementErrorModel,
    > {
        let shard_id = self.mapper.shard_of(route_key);
        if !self.assignments.contains_key(shard_id) {
            Err(PlacementErrorModel::NoRoute)
        } else {
            let assignment = self.assignments[shard_id];
            if !self.instances.contains_key(assignment.owner) {
                Err(PlacementErrorModel::InstanceNotFound { instance_id: assignment.owner })
            } else {
                let instance = self.instances[assignment.owner];
                if instance.state != InstanceState::Ready {
                    Err(
                        PlacementErrorModel::InstanceNotReady {
                            instance_id: instance.instance_id,
                            state: instance.state,
                        },
                    )
                } else {
                    Ok(
                        RouteTarget {
                            service_kind: self.service_kind,
                            instance_id: instance.instance_id,
                            advertised_endpoint: instance.advertised_endpoint,
                            owner_epoch: Some(assignment.epoch),
                        },
                    )
                }
            }
        }
    }
}

impl VirtualShardRouteTable {
    pub fn new(
        service_kind: ServiceKind,
        actor_kind: ActorKind,
        mapper: VirtualShardMapper,
        assignments: Vec<VirtualShardAssignment>,
        instances: SortedMap<InstanceId, InstanceRecord>,
    ) -> (table: Self)
        ensures
            table@ == (TableModel {
                service_kind: service_kind@,
                actor_kind: actor_kind@,
                mapper,
                assignments: by_shard(seq_view(assignments@), assignments@.len()),
                instances: instances@,
            }),
    {
        let ghost list = seq_view(assignments@);
        let mut by_id: KeyMap<VirtualShardId, VirtualShardAssignment> = KeyMap::new();
        let mut i: usize = 0;
        while i < assignments.len()
            invariant
                i <= assignments.len(),
                list == seq_view(assignments@),
                by_id@ == by_shard(list, i as nat),
            decreases assignments.len() - i,
        {
            let assignment = &assignments[i];
            assert(list[i as int] == assignments@[i as int]@);
            by_id.insert(
                assignment.shard_id,
                VirtualShardAssignment {
                    shard_id: assignment.shard_id,
                    owner: assignment.owner.copy(),
                    epoch: assignment.epoch,
                },
            );
            i = i + 1;
        }
        VirtualShardRouteTable { service_kind, actor_kind, mapper, assignments: by_id, instances }
    }

    pub fn resolve(&self, route_key: &RouteKey) -> (result: Result<RouteTarget, PlacementError>)
        ensures
            resolution(result) == self@.resolve(route_key@),
    {
        let shard_id = self.mapper.shard_for_route_key(route_key);
        let assignment = match self.assignments.get(&shard_id) {
            Some(assignment) => assignment,
            None => {
                return Err(PlacementError::NoRoute);
            },
        };
        let instance = match self.instances.get(&assignment.owner) {
            Some(instance) => instance,
            None => {
                return Err(
                    PlacementError::InstanceNotFound { instance_id: assignment.owner.copy() },
                );
            },
        };
        if instance.state != InstanceState::Ready {
            return Err(
                PlacementError::InstanceNotReady {
                    instance_id: instance.instance_id.copy(),
                    state: instance.state,
                },
            );
        }
        Ok(
            RouteTarget {
                service_kind: self.service_kind.copy(),
                instance_id: instance.instance_id.copy(),
                advertised_endpoint: instance.advertised_endpoint.copy(),
                owner_epoch: Some(assignment.epoch),
            },
        )
    }

    pub fn actor_kind(&self) -> (actor_kind: &ActorKind)
        ensures
            actor_kind@ == self@.actor_kind,
    {
        &self.actor_kind
    }
}

} // verus!
