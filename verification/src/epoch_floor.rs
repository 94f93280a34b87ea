//! Proofs that come with placement records: the record was read at a revision, and its
//! epoch is the floor that the store keeps for its key.
use vstd::prelude::*;

use crate::keymap::Key;
use crate::records::{
    ActorPlacementKey, Epoch, OwnershipKey, OwnershipRecordBinding, PlacementRevision,
    SingletonKey, VirtualShardPlacementKey,
};

verus! {

pub type KeyModel = OwnershipKey<Seq<char>, Seq<u8>>;

pub type RecordModel = OwnershipRecordBinding<Seq<char>, Seq<u8>>;

pub type ProofModel = OwnershipEpochFloorProof<Seq<char>, Seq<u8>>;

pub type ProofErrorModel = OwnershipProofError<Seq<char>, Seq<u8>>;

impl<S, B> OwnershipKey<S, B> {
    /// The service that the placement belongs to.
    pub open spec fn service(self) -> S {
        match self {
            OwnershipKey::Explicit(key) => key.service_kind,
            OwnershipKey::VirtualShard(key) => key.service_kind,
            OwnershipKey::Singleton(key) => key.service_kind,
        }
    }
}

impl<S, B> OwnershipRecordBinding<S, B> {
    /// The key that the record stands under.
    pub open spec fn key(self) -> OwnershipKey<S, B> {
        match self {
            OwnershipRecordBinding::Actor(record) => OwnershipKey::Explicit(
                ActorPlacementKey {
                    service_kind: record.service_kind,
                    actor_kind: record.actor_kind,
                    actor_id: record.actor_id,
                },
            ),
            OwnershipRecordBinding::VirtualShard(record) => OwnershipKey::VirtualShard(
                VirtualShardPlacementKey {
                    service_kind: record.service_kind,
                    actor_kind: record.actor_kind,
                    shard_id: record.shard_id,
                },
            ),
            OwnershipRecordBinding::Singleton(record) => OwnershipKey::Singleton(
                SingletonKey {
                    service_kind: record.service_kind,
                    singleton_kind: record.singleton_kind,
                    scope: record.scope,
                },
            ),
        }
    }

    pub open spec fn service(self) -> S {
        self.key().service()
    }

    pub open spec fn spec_owner(self) -> S {
        match self {
            OwnershipRecordBinding::Actor(record) => record.owner,
            OwnershipRecordBinding::VirtualShard(record) => record.owner,
            OwnershipRecordBinding::Singleton(record) => record.owner,
        }
    }

    pub open spec fn spec_epoch(self) -> Epoch {
        match self {
            OwnershipRecordBinding::Actor(record) => record.epoch,
            OwnershipRecordBinding::VirtualShard(record) => record.epoch,
            OwnershipRecordBinding::Singleton(record) => record.epoch,
        }
    }
}

impl OwnershipKey {
    pub fn service_kind(&self) -> (service: &String)
        ensures
            service@ == self@.service(),
    {
        match self {
            OwnershipKey::Explicit(key) => &key.service_kind,
            OwnershipKey::VirtualShard(key) => &key.service_kind,
            OwnershipKey::Singleton(key) => &key.service_kind,
        }
    }
}

impl OwnershipRecordBinding {
    pub fn service_kind(&self) -> (service: &String)
        ensures
            service@ == self@.service(),
    {
        match self {
            OwnershipRecordBinding::Actor(record) => &record.service_kind,
            OwnershipRecordBinding::VirtualShard(record) => &record.service_kind,
            OwnershipRecordBinding::Singleton(record) => &record.service_kind,
        }
    }

    pub fn owner(&self) -> (owner: &String)
        ensures
            owner@ == self@.spec_owner(),
    {
        match self {
            OwnershipRecordBinding::Actor(record) => &record.owner,
            OwnershipRecordBinding::VirtualShard(record) => &record.owner,
            OwnershipRecordBinding::Singleton(record) => &record.owner,
        }
    }

    pub fn epoch(&self) -> (epoch: Epoch)
        ensures
            epoch == self@.spec_epoch(),
    {
        match self {
            OwnershipRecordBinding::Actor(record) => record.epoch,
            OwnershipRecordBinding::VirtualShard(record) => record.epoch,
            OwnershipRecordBinding::Singleton(record) => record.epoch,
        }
    }

    pub fn epoch_key(&self) -> (key: OwnershipKey)
        ensures
            key@ == self@.key(),
    {
        match self {
            OwnershipRecordBinding::Actor(record) => OwnershipKey::Explicit(
                crate::ownership::actor_key(record),
            ),
            OwnershipRecordBinding::VirtualShard(record) => OwnershipKey::VirtualShard(
                crate::ownership::virtual_shard_key(record),
            ),
            OwnershipRecordBinding::Singleton(record) => OwnershipKey::Singleton(
                crate::ownership::singleton_key(record),
            ),
        }
    }
}

/// What a proof was issued for.
#[derive(Debug, Clone, Copy, PartialEq, Eq, Structural)]
pub enum OwnershipProofContext {
    Snapshot,
    Upsert,
    Delete,
}

/// The lowest epoch that the store still accepts under a key.
#[derive(Debug, PartialEq, Eq)]
pub struct EpochFloorRecord<S = String, B = Vec<u8>> {
    pub key: OwnershipKey<S, B>,
    pub epoch: Epoch,
}

impl View for EpochFloorRecord {
    type V = EpochFloorRecord<Seq<char>, Seq<u8>>;

    open spec fn view(&self) -> Self::V {
        EpochFloorRecord { key: self.key@, epoch: self.epoch }
    }
}

/// Why a proof does not cover a record.
#[allow(inconsistent_fields)]
#[derive(Debug, PartialEq, Eq)]
pub enum OwnershipProofError<S = String, B = Vec<u8>> {
    ContextMismatch { expected: OwnershipProofContext, actual: OwnershipProofContext },
    RevisionMismatch { expected: PlacementRevision, actual: PlacementRevision },
    RecordBindingMismatch { key: OwnershipKey<S, B> },
    FloorMismatch { key: OwnershipKey<S, B> },
    DeletePreviousMismatch { key: OwnershipKey<S, B> },
}

impl View for OwnershipProofError {
    type V = OwnershipProofError<Seq<char>, Seq<u8>>;

    open spec fn view(&self) -> Self::V {
        match self {
            OwnershipProofError::ContextMismatch {
                expected,
                actual,
            } => OwnershipProofError::ContextMismatch { expected: *expected, actual: *actual },
            OwnershipProofError::RevisionMismatch {
                expected,
                actual,
            } => OwnershipProofError::RevisionMismatch { expected: *expected, actual: *actual },
            OwnershipProofError::RecordBindingMismatch {
                key,
            } => OwnershipProofError::RecordBindingMismatch { key: key@ },
            OwnershipProofError::FloorMismatch { key } => OwnershipProofError::FloorMismatch {
                key: key@,
            },
            OwnershipProofError::DeletePreviousMismatch {
                key,
            } => OwnershipProofError::DeletePreviousMismatch { key: key@ },
        }
    }
}

/// A proof of the epoch floor of one record.
#[derive(Debug, PartialEq, Eq)]
pub struct OwnershipEpochFloorProof<S = String, B = Vec<u8>> {
    pub context: OwnershipProofContext,
    pub observed_revision: PlacementRevision,
    pub record_revision: PlacementRevision,
    pub binding: OwnershipRecordBinding<S, B>,
    pub floor: EpochFloorRecord<S, B>,
}

impl View for OwnershipEpochFloorProof {
    type V = OwnershipEpochFloorProof<Seq<char>, Seq<u8>>;

    open spec fn view(&self) -> Self::V {
        OwnershipEpochFloorProof {
            context: self.context,
            observed_revision: self.observed_revision,
            record_revision: self.record_revision,
            binding: self.binding@,
            floor: self.floor@,
        }
    }
}

/// Why a proof does not cover `binding`, read at `observed` and last written at `written`.
pub open spec fn proof_fault(
    proof: ProofModel,
    context: OwnershipProofContext,
    observed: PlacementRevision,
    written: PlacementRevision,
    binding: RecordModel,
) -> Option<ProofErrorModel> {
    if proof.context != context {
        Some(OwnershipProofError::ContextMismatch { expected: context, actual: proof.context })
    } else if proof.observed_revision != observed {
        Some(
            OwnershipProofError::RevisionMismatch {
                expected: observed,
                actual: proof.observed_revision,
            },
        )
    } else if proof.record_revision != written {
        Some(
            OwnershipProofError::RevisionMismatch {
                expected: written,
                actual: proof.record_revision,
            },
        )
    } else if proof.binding != binding {
        Some(OwnershipProofError::RecordBindingMismatch { key: binding.key() })
    } else if proof.floor.key != binding.key() || proof.floor.epoch != binding.spec_epoch() {
        Some(OwnershipProofError::FloorMismatch { key: binding.key() })
    } else {
        None
    }
}

impl OwnershipEpochFloorProof {
    pub fn record_revision(&self) -> (revision: PlacementRevision)
        ensures
            revision == self@.record_revision,
    {
        self.record_revision
    }

    fn check(
        &self,
        context: OwnershipProofContext,
        observed: PlacementRevision,
        written: PlacementRevision,
        binding: &OwnershipRecordBinding,
    ) -> (result: Result<(), OwnershipProofError>)
        ensures
            match result {
                Ok(_) => proof_fault(self@, context, observed, written, binding@) is None,
                Err(error) => proof_fault(self@, context, observed, written, binding@) == Some(
                    error@,
                ),
            },
    {
        if self.context != context {
            return Err(
                OwnershipProofError::ContextMismatch { expected: context, actual: self.context },
            );
        }
        if self.observed_revision != observed {
            return Err(
                OwnershipProofError::RevisionMismatch {
                    expected: observed,
                    actual: self.observed_revision,
                },
            );
        }
        if self.record_revision != written {
            return Err(
                OwnershipProofError::RevisionMismatch {
                    expected: written,
                    actual: self.record_revision,
                },
            );
        }
        if !self.binding.same(binding) {
            return Err(OwnershipProofError::RecordBindingMismatch { key: binding.epoch_key() });
        }
        let key = binding.epoch_key();
        if !self.floor.key.same(&key) || self.floor.epoch != binding.epoch() {
            return Err(OwnershipProofError::FloorMismatch { key });
        }
        Ok(())
    }

    /// Checks that the proof covers a record that was written at `revision`.
    pub fn validate_upsert(
        &self,
        revision: PlacementRevision,
        binding: &OwnershipRecordBinding,
    ) -> (result: Result<(), OwnershipProofError>)
        ensures
            match result {
                Ok(_) => upsert_fault(self@, revision, binding@) is None,
                Err(error) => upsert_fault(self@, revision, binding@) == Some(error@),
            },
    {
        self.check(OwnershipProofContext::Upsert, revision, revision, binding)
    }

    /// Checks that the proof covers the last record of a key that was deleted at `revision`.
    pub fn validate_delete(
        &self,
        revision: PlacementRevision,
        previous: &OwnershipRecordBinding,
    ) -> (result: Result<(), OwnershipProofError>)
        ensures
            match result {
                Ok(_) => delete_fault(self@, revision, previous@) is None,
                Err(error) => delete_fault(self@, revision, previous@) == Some(error@),
            },
    {
        self.check(OwnershipProofContext::Delete, revision, self.record_revision, previous)
    }

    /// Checks that the proof covers a record of a snapshot.
    pub fn validate_snapshot(
        &self,
        snapshot_revision: PlacementRevision,
        record_revision: PlacementRevision,
        binding: &OwnershipRecordBinding,
    ) -> (result: Result<(), OwnershipProofError>)
        ensures
            match result {
                Ok(_) => proof_fault(
                    self@,
                    OwnershipProofContext::Snapshot,
                    snapshot_revision,
                    record_revision,
                    binding@,
                ) is None,
                Err(error) => proof_fault(
                    self@,
                    OwnershipProofContext::Snapshot,
                    snapshot_revision,
                    record_revision,
                    binding@,
                ) == Some(error@),
            },
    {
        self.check(OwnershipProofContext::Snapshot, snapshot_revision, record_revision, binding)
    }
}

/// Why a proof does not cover a record that was written at `revision`.
pub open spec fn upsert_fault(
    proof: ProofModel,
    revision: PlacementRevision,
    binding: RecordModel,
) -> Option<ProofErrorModel> {
    proof_fault(proof, OwnershipProofContext::Upsert, revision, revision, binding)
}

/// Why a proof does not cover the last record of a key that was deleted at `revision`.
pub open spec fn delete_fault(
    proof: ProofModel,
    revision: PlacementRevision,
    previous: RecordModel,
) -> Option<ProofErrorModel> {
    proof_fault(proof, OwnershipProofContext::Delete, revision, proof.record_revision, previous)
}

} // verus!
