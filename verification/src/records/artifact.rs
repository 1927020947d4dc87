//! Artifact collections, snapshots and passages.
use vstd::prelude::*;
use crate::context::TemporalFacts;
use crate::ids::{
    ArtifactCollectionId, ArtifactPassageId, ArtifactSnapshotId, EvidenceId, OperationId,
};
use crate::records::evidence::{Actor, EvidenceReceipt, RecordState, Scope};
use crate::snapshot::Snapshot;
use crate::table::{Replica, copies, opt_replica, opt_view, replicas, views};

verus! {

#[derive(Debug, PartialEq, Eq)]
pub struct NewArtifactCollection {
    pub label: String,
}

/// What a [`NewArtifactCollection`] holds.
#[verifier::ext_equal]
pub struct NewArtifactCollectionModel {
    pub label: Seq<char>,
}

impl View for NewArtifactCollection {
    type V = NewArtifactCollectionModel;

    open spec fn view(&self) -> NewArtifactCollectionModel {
        NewArtifactCollectionModel {
            label: self.label@,
        }
    }
}

impl Replica for NewArtifactCollection {
    fn replica(&self) -> (r: Self) {
        NewArtifactCollection {
            label: self.label.clone(),
        }
    }
}

impl Clone for NewArtifactCollection {
    fn clone(&self) -> (r: Self)
        ensures
            r@ == self@,
    {
        self.replica()
    }
}

#[derive(Clone, Copy, Debug, PartialEq, Eq, Structural)]
pub struct ArtifactCollectionHeader {
    pub id: ArtifactCollectionId,
    pub scope: Scope,
    pub created_by: Actor,
    pub recorded_at_ms: i64,
    pub operation_id: OperationId,
}

impl View for ArtifactCollectionHeader {
    type V = ArtifactCollectionHeader;

    open spec fn view(&self) -> ArtifactCollectionHeader {
        *self
    }
}

#[derive(Clone, Copy, Debug, PartialEq, Eq)]
pub struct ArtifactAvailabilityRevision<I> {
    pub id: I,
    pub revision: u64,
    pub state: RecordState,
    pub recorded_at_ms: i64,
    pub operation_id: OperationId,
}

impl<I: Copy> View for ArtifactAvailabilityRevision<I> {
    type V = ArtifactAvailabilityRevision<I>;

    open spec fn view(&self) -> ArtifactAvailabilityRevision<I> {
        *self
    }
}

#[derive(Debug, PartialEq, Eq)]
pub struct ArtifactCollectionRecord {
    pub header: ArtifactCollectionHeader,
    pub availability: ArtifactAvailabilityRevision<ArtifactCollectionId>,
    pub label: Option<String>,
}

/// What a [`ArtifactCollectionRecord`] holds.
#[verifier::ext_equal]
pub struct ArtifactCollectionRecordModel {
    pub header: ArtifactCollectionHeader,
    pub availability: ArtifactAvailabilityRevision<ArtifactCollectionId>,
    pub label: Option<Seq<char>>,
}

impl View for ArtifactCollectionRecord {
    type V = ArtifactCollectionRecordModel;

    open spec fn view(&self) -> ArtifactCollectionRecordModel {
        ArtifactCollectionRecordModel {
            header: self.header,
            availability: self.availability,
            label: opt_view(self.label),
        }
    }
}

impl Replica for ArtifactCollectionRecord {
    fn replica(&self) -> (r: Self) {
        ArtifactCollectionRecord {
            header: self.header,
            availability: self.availability,
            label: opt_replica(&self.label),
        }
    }
}

impl Clone for ArtifactCollectionRecord {
    fn clone(&self) -> (r: Self)
        ensures
            r@ == self@,
    {
        self.replica()
    }
}

#[derive(Clone, Copy, Debug, PartialEq, Eq, Structural)]
pub struct ArtifactCollectionReceipt {
    pub id: ArtifactCollectionId,
    pub availability_revision: u64,
}

impl View for ArtifactCollectionReceipt {
    type V = ArtifactCollectionReceipt;

    open spec fn view(&self) -> ArtifactCollectionReceipt {
        *self
    }
}

#[derive(Debug, PartialEq, Eq)]
pub struct NewArtifactSnapshot {
    pub collection_id: ArtifactCollectionId,
    pub expected_collection_revision: u64,
    pub temporal: TemporalFacts,
    pub media_type: String,
    pub bytes: Vec<u8>,
}

/// What a [`NewArtifactSnapshot`] holds.
#[verifier::ext_equal]
pub struct NewArtifactSnapshotModel {
    pub collection_id: ArtifactCollectionId,
    pub expected_collection_revision: u64,
    pub temporal: TemporalFacts,
    pub media_type: Seq<char>,
    pub bytes: Seq<u8>,
}

impl View for NewArtifactSnapshot {
    type V = NewArtifactSnapshotModel;

    open spec fn view(&self) -> NewArtifactSnapshotModel {
        NewArtifactSnapshotModel {
            collection_id: self.collection_id,
            expected_collection_revision: self.expected_collection_revision,
            temporal: self.temporal,
            media_type: self.media_type@,
            bytes: self.bytes@,
        }
    }
}

impl Replica for NewArtifactSnapshot {
    fn replica(&self) -> (r: Self) {
        NewArtifactSnapshot {
            collection_id: self.collection_id,
            expected_collection_revision: self.expected_collection_revision,
            temporal: self.temporal,
            media_type: self.media_type.clone(),
            bytes: copies(&self.bytes),
        }
    }
}

impl Clone for NewArtifactSnapshot {
    fn clone(&self) -> (r: Self)
        ensures
            r@ == self@,
    {
        self.replica()
    }
}

#[derive(Clone, Copy, Debug, PartialEq, Eq, Structural)]
pub struct ArtifactSnapshotHeader {
    pub id: ArtifactSnapshotId,
    pub collection_id: ArtifactCollectionId,
    pub evidence_id: EvidenceId,
    pub scope: Scope,
    pub temporal: TemporalFacts,
    pub byte_len: u64,
    pub recorded_at_ms: i64,
    pub operation_id: OperationId,
}

impl View for ArtifactSnapshotHeader {
    type V = ArtifactSnapshotHeader;

    open spec fn view(&self) -> ArtifactSnapshotHeader {
        *self
    }
}

#[derive(Debug, PartialEq, Eq)]
pub struct ArtifactSnapshotRecord {
    pub header: ArtifactSnapshotHeader,
    pub availability: ArtifactAvailabilityRevision<ArtifactSnapshotId>,
    pub media_type: Option<String>,
    pub content_digest: Option<[u8; 32]>,
    pub payload_available: bool,
}

/// What a [`ArtifactSnapshotRecord`] holds.
#[verifier::ext_equal]
pub struct ArtifactSnapshotRecordModel {
    pub header: ArtifactSnapshotHeader,
    pub availability: ArtifactAvailabilityRevision<ArtifactSnapshotId>,
    pub media_type: Option<Seq<char>>,
    pub content_digest: Option<[u8; 32]>,
    pub payload_available: bool,
}

impl View for ArtifactSnapshotRecord {
    type V = ArtifactSnapshotRecordModel;

    open spec fn view(&self) -> ArtifactSnapshotRecordModel {
        ArtifactSnapshotRecordModel {
            header: self.header,
            availability: self.availability,
            media_type: opt_view(self.media_type),
            content_digest: self.content_digest,
            payload_available: self.payload_available,
        }
    }
}

impl Replica for ArtifactSnapshotRecord {
    fn replica(&self) -> (r: Self) {
        ArtifactSnapshotRecord {
            header: self.header,
            availability: self.availability,
            media_type: opt_replica(&self.media_type),
            content_digest: self.content_digest,
            payload_available: self.payload_available,
        }
    }
}

impl Clone for ArtifactSnapshotRecord {
    fn clone(&self) -> (r: Self)
        ensures
            r@ == self@,
    {
        self.replica()
    }
}

#[derive(Debug, PartialEq, Eq)]
pub struct ArtifactSnapshotBlob {
    pub id: ArtifactSnapshotId,
    pub media_type: String,
    pub content_digest: [u8; 32],
    pub bytes: Vec<u8>,
}

/// What a [`ArtifactSnapshotBlob`] holds.
#[verifier::ext_equal]
pub struct ArtifactSnapshotBlobModel {
    pub id: ArtifactSnapshotId,
    pub media_type: Seq<char>,
    pub content_digest: [u8; 32],
    pub bytes: Seq<u8>,
}

impl View for ArtifactSnapshotBlob {
    type V = ArtifactSnapshotBlobModel;

    open spec fn view(&self) -> ArtifactSnapshotBlobModel {
        ArtifactSnapshotBlobModel {
            id: self.id,
            media_type: self.media_type@,
            content_digest: self.content_digest,
            bytes: self.bytes@,
        }
    }
}

impl Replica for ArtifactSnapshotBlob {
    fn replica(&self) -> (r: Self) {
        ArtifactSnapshotBlob {
            id: self.id,
            media_type: self.media_type.clone(),
            content_digest: self.content_digest,
            bytes: copies(&self.bytes),
        }
    }
}

impl Clone for ArtifactSnapshotBlob {
    fn clone(&self) -> (r: Self)
        ensures
            r@ == self@,
    {
        self.replica()
    }
}

#[derive(Clone, Copy, Debug, PartialEq, Eq, Structural)]
pub struct ArtifactSnapshotReceipt {
    pub id: ArtifactSnapshotId,
    pub availability_revision: u64,
    pub evidence: EvidenceReceipt,
}

impl View for ArtifactSnapshotReceipt {
    type V = ArtifactSnapshotReceipt;

    open spec fn view(&self) -> ArtifactSnapshotReceipt {
        *self
    }
}

#[derive(Clone, Copy, Debug, PartialEq, Eq, Structural)]
pub struct ArtifactRange {
    pub start: u64,
    pub end_exclusive: u64,
}

impl View for ArtifactRange {
    type V = ArtifactRange;

    open spec fn view(&self) -> ArtifactRange {
        *self
    }
}

#[derive(Clone, Copy, Debug, PartialEq, Eq, Structural)]
pub struct ArtifactLocator {
    pub ordinal: u32,
    pub byte_range: Option<ArtifactRange>,
    pub page_range: Option<ArtifactRange>,
    pub time_range_ms: Option<ArtifactRange>,
}

impl View for ArtifactLocator {
    type V = ArtifactLocator;

    open spec fn view(&self) -> ArtifactLocator {
        *self
    }
}

#[derive(Debug, PartialEq, Eq)]
pub struct NewArtifactPassage {
    pub locator: ArtifactLocator,
    pub text: String,
}

/// What a [`NewArtifactPassage`] holds.
#[verifier::ext_equal]
pub struct NewArtifactPassageModel {
    pub locator: ArtifactLocator,
    pub text: Seq<char>,
}

impl View for NewArtifactPassage {
    type V = NewArtifactPassageModel;

    open spec fn view(&self) -> NewArtifactPassageModel {
        NewArtifactPassageModel {
            locator: self.locator,
            text: self.text@,
        }
    }
}

impl Replica for NewArtifactPassage {
    fn replica(&self) -> (r: Self) {
        NewArtifactPassage {
            locator: self.locator,
            text: self.text.clone(),
        }
    }
}

impl Clone for NewArtifactPassage {
    fn clone(&self) -> (r: Self)
        ensures
            r@ == self@,
    {
        self.replica()
    }
}

#[derive(Debug, PartialEq, Eq)]
pub struct NewArtifactPassageBatch {
    pub snapshot_id: ArtifactSnapshotId,
    pub expected_snapshot_revision: u64,
    pub passages: Vec<NewArtifactPassage>,
}

/// What a [`NewArtifactPassageBatch`] holds.
#[verifier::ext_equal]
pub struct NewArtifactPassageBatchModel {
    pub snapshot_id: ArtifactSnapshotId,
    pub expected_snapshot_revision: u64,
    pub passages: Seq<NewArtifactPassageModel>,
}

impl View for NewArtifactPassageBatch {
    type V = NewArtifactPassageBatchModel;

    open spec fn view(&self) -> NewArtifactPassageBatchModel {
        NewArtifactPassageBatchModel {
            snapshot_id: self.snapshot_id,
            expected_snapshot_revision: self.expected_snapshot_revision,
            passages: views(self.passages@),
        }
    }
}

impl Replica for NewArtifactPassageBatch {
    fn replica(&self) -> (r: Self) {
        NewArtifactPassageBatch {
            snapshot_id: self.snapshot_id,
            expected_snapshot_revision: self.expected_snapshot_revision,
            passages: replicas(&self.passages),
        }
    }
}

impl Clone for NewArtifactPassageBatch {
    fn clone(&self) -> (r: Self)
        ensures
            r@ == self@,
    {
        self.replica()
    }
}

#[derive(Clone, Copy, Debug, PartialEq, Eq, Structural)]
pub struct ArtifactPassageHeader {
    pub id: ArtifactPassageId,
    pub collection_id: ArtifactCollectionId,
    pub snapshot_id: ArtifactSnapshotId,
    pub evidence_id: EvidenceId,
    pub scope: Scope,
    pub temporal: TemporalFacts,
    pub locator: ArtifactLocator,
    pub recorded_at_ms: i64,
    pub operation_id: OperationId,
}

impl View for ArtifactPassageHeader {
    type V = ArtifactPassageHeader;

    open spec fn view(&self) -> ArtifactPassageHeader {
        *self
    }
}

#[derive(Debug, PartialEq, Eq)]
pub struct ArtifactPassageRecord {
    pub header: ArtifactPassageHeader,
    pub availability: ArtifactAvailabilityRevision<ArtifactPassageId>,
    pub text: Option<String>,
}

/// What a [`ArtifactPassageRecord`] holds.
#[verifier::ext_equal]
pub struct ArtifactPassageRecordModel {
    pub header: ArtifactPassageHeader,
    pub availability: ArtifactAvailabilityRevision<ArtifactPassageId>,
    pub text: Option<Seq<char>>,
}

impl View for ArtifactPassageRecord {
    type V = ArtifactPassageRecordModel;

    open spec fn view(&self) -> ArtifactPassageRecordModel {
        ArtifactPassageRecordModel {
            header: self.header,
            availability: self.availability,
            text: opt_view(self.text),
        }
    }
}

impl Replica for ArtifactPassageRecord {
    fn replica(&self) -> (r: Self) {
        ArtifactPassageRecord {
            header: self.header,
            availability: self.availability,
            text: opt_replica(&self.text),
        }
    }
}

impl Clone for ArtifactPassageRecord {
    fn clone(&self) -> (r: Self)
        ensures
            r@ == self@,
    {
        self.replica()
    }
}

#[derive(Clone, Copy, Debug, PartialEq, Eq, Structural)]
pub struct ArtifactPassageReceipt {
    pub id: ArtifactPassageId,
    pub availability_revision: u64,
    pub evidence: EvidenceReceipt,
}

impl View for ArtifactPassageReceipt {
    type V = ArtifactPassageReceipt;

    open spec fn view(&self) -> ArtifactPassageReceipt {
        *self
    }
}

#[derive(Debug, PartialEq, Eq)]
pub struct ArtifactPassageBatchReceipt {
    pub passages: Vec<ArtifactPassageReceipt>,
}

/// What a [`ArtifactPassageBatchReceipt`] holds.
#[verifier::ext_equal]
pub struct ArtifactPassageBatchReceiptModel {
    pub passages: Seq<ArtifactPassageReceipt>,
}

impl View for ArtifactPassageBatchReceipt {
    type V = ArtifactPassageBatchReceiptModel;

    open spec fn view(&self) -> ArtifactPassageBatchReceiptModel {
        ArtifactPassageBatchReceiptModel {
            passages: self.passages@,
        }
    }
}

impl Replica for ArtifactPassageBatchReceipt {
    fn replica(&self) -> (r: Self) {
        ArtifactPassageBatchReceipt {
            passages: copies(&self.passages),
        }
    }
}

impl Clone for ArtifactPassageBatchReceipt {
    fn clone(&self) -> (r: Self)
        ensures
            r@ == self@,
    {
        self.replica()
    }
}

#[derive(Clone, Copy, Debug, PartialEq, Eq, Structural)]
pub enum ArtifactEvidenceProvenance {
    Snapshot {
        collection_id: ArtifactCollectionId,
        snapshot_id: ArtifactSnapshotId,
        byte_len: u64,
    },
    Passage {
        collection_id: ArtifactCollectionId,
        snapshot_id: ArtifactSnapshotId,
        passage_id: ArtifactPassageId,
        locator: ArtifactLocator,
    },
}

impl View for ArtifactEvidenceProvenance {
    type V = ArtifactEvidenceProvenance;

    open spec fn view(&self) -> ArtifactEvidenceProvenance {
        *self
    }
}

} // verus!
