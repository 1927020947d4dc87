//! Artifacts: collections, snapshots and passages.
use vstd::prelude::*;
use crate::clock::{Fresh, FreshModel};
use crate::context::OperationContext;
use crate::digest::{
    artifact_snapshot_mutation_digest, content_hash, mutation_digest, mutation_digest_of,
    snapshot_mutation_digest_of,
};
use crate::fault::{
    CorruptFault, InputFault, MemoryError, MemoryResult, TextField, corrupt, invalid,
};
use crate::ids::{ArtifactCollectionId, ArtifactPassageId, ArtifactSnapshotId, EvidenceId};
use crate::inspect::revision_of;
use crate::keys::{DependencyKey, OrdinalKey, RevisionKey};
use crate::records::artifact::{
    ArtifactAvailabilityRevision, ArtifactCollectionHeader, ArtifactCollectionReceipt,
    ArtifactEvidenceProvenance, ArtifactPassageBatchReceipt, ArtifactPassageBatchReceiptModel,
    ArtifactPassageHeader, ArtifactPassageReceipt, ArtifactRange, ArtifactSnapshotHeader,
    ArtifactSnapshotReceipt, NewArtifactCollection, NewArtifactCollectionModel,
    NewArtifactPassage, NewArtifactPassageBatch, NewArtifactPassageBatchModel,
    NewArtifactPassageModel, NewArtifactSnapshot, NewArtifactSnapshotModel,
};
use crate::records::audit::{ArtifactSnapshotPayload, ArtifactSnapshotPayloadModel, AuditAction};
use crate::records::evidence::{
    Actor, EvidenceClass, EvidenceHeader, EvidenceLifecycleTruth, EvidenceReceipt, RecordRef,
    RecordState, Scope,
};
use crate::records::receipt::{Receipt, ReceiptModel};
use crate::rules::{
    MAX_TEXT_BYTES, exact_text_fault, may_handle_artifacts, parent_fault, require_active_revision,
    require_artifact_actor, validate_exact_bounded_text,
};
use crate::snapshot::Snapshot;
use crate::staging::{MAX_INDEX_TERMS_PER_RECORD, Planned, commits, plans};
use crate::store::{Batch, MemoryDatabase, StoreModel, Write, WriteModel};
use crate::table::{Replica, copies, views};
use crate::text::{byte_len, terms, tokenize, utf8};

verus! {

pub const MAX_ARTIFACT_SNAPSHOT_BYTES: usize = 33_554_432;

pub const MAX_ARTIFACT_LABEL_BYTES: usize = 1_024;

pub const MAX_ARTIFACT_MEDIA_TYPE_BYTES: usize = 1_024;

pub const MAX_ARTIFACT_PASSAGE_BATCH: usize = 512;

pub const MAX_ARTIFACT_PASSAGE_BATCH_BYTES: usize = 8_388_608;

impl ArtifactRange {
    /// The range has something in it.
    pub open spec fn nonempty(self) -> bool {
        self.start < self.end_exclusive
    }
}

/// Whether a range is absent or has something in it.
pub open spec fn range_ok(range: Option<ArtifactRange>) -> bool {
    match range {
        Some(inner) => inner.nonempty(),
        None => true,
    }
}

pub fn validate_artifact_range(range: Option<ArtifactRange>, fault: InputFault) -> (r: MemoryResult<()>)
    ensures
        r == (if range_ok(range) {
            Ok(())
        } else {
            invalid(fault)
        }),
{
    if let Some(inner) = range {
        if inner.start >= inner.end_exclusive {
            return Err(MemoryError::InvalidInput(fault));
        }
    }
    Ok(())
}

/// The total number of text bytes of the first `n` passages.
pub open spec fn passage_bytes(passages: Seq<NewArtifactPassageModel>, n: nat) -> nat
    decreases n,
{
    if n == 0 {
        0
    } else {
        passage_bytes(passages, (n - 1) as nat) + utf8(passages[n - 1].text).len()
    }
}

/// What is wrong with the passage at an index of a batch, if anything.
pub open spec fn passage_fault(passages: Seq<NewArtifactPassageModel>, i: int) -> Option<InputFault> {
    let passage = passages[i];
    match exact_text_fault(passage.text, TextField::ArtifactPassageText, MAX_TEXT_BYTES) {
        Some(fault) => Some(fault),
        None => if passage_bytes(passages, (i + 1) as nat) > MAX_ARTIFACT_PASSAGE_BATCH_BYTES {
            Some(InputFault::PassageBatchBytes)
        } else if i > 0 && passages[i - 1].locator.ordinal >= passage.locator.ordinal {
            Some(InputFault::PassageOrdinals)
        } else if !range_ok(passage.locator.byte_range) {
            Some(InputFault::ByteRange)
        } else if !range_ok(passage.locator.page_range) {
            Some(InputFault::PageRange)
        } else if !range_ok(passage.locator.time_range_ms) {
            Some(InputFault::TimeRange)
        } else if terms(passage.text).len() > MAX_INDEX_TERMS_PER_RECORD {
            Some(InputFault::PassageTerms)
        } else {
            None
        },
    }
}

/// The first fault among the first `n` passages.
pub open spec fn passages_fault(passages: Seq<NewArtifactPassageModel>, n: nat) -> Option<InputFault>
    decreases n,
{
    if n == 0 {
        None
    } else {
        match passages_fault(passages, (n - 1) as nat) {
            Some(fault) => Some(fault),
            None => passage_fault(passages, n - 1),
        }
    }
}

/// What is wrong with a batch of passages, if anything.
pub open spec fn passage_batch_fault(passages: Seq<NewArtifactPassageModel>) -> Option<InputFault> {
    if passages.len() == 0 || passages.len() > MAX_ARTIFACT_PASSAGE_BATCH {
        Some(InputFault::PassageBatchSize)
    } else {
        passages_fault(passages, passages.len())
    }
}

proof fn passages_fault_persists(passages: Seq<NewArtifactPassageModel>, n: nat, m: nat)
    requires
        n <= m,
        passages_fault(passages, n) is Some,
    ensures
        passages_fault(passages, m) == passages_fault(passages, n),
    decreases m,
{
    if n < m {
        passages_fault_persists(passages, n, (m - 1) as nat);
    }
}

fn check_passage(passages: &Vec<NewArtifactPassage>, i: usize, before: usize) -> (r: MemoryResult<usize>)
    requires
        i < passages@.len(),
        before == passage_bytes(views(passages@), i as nat),
        before <= MAX_ARTIFACT_PASSAGE_BATCH_BYTES,
    ensures
        match r {
            Ok(total) => passage_fault(views(passages@), i as int) is None && total == passage_bytes(
                views(passages@),
                (i + 1) as nat,
            ) && total <= MAX_ARTIFACT_PASSAGE_BATCH_BYTES,
            Err(error) => passage_fault(views(passages@), i as int) matches Some(fault) && error
                == MemoryError::InvalidInput(fault),
        },
{
    let passage = &passages[i];
    assert(views(passages@)[i as int] == passage@);
    validate_exact_bounded_text(passage.text.as_str(), TextField::ArtifactPassageText, MAX_TEXT_BYTES)?;
    let total: usize = before + byte_len(passage.text.as_str());
    if total > MAX_ARTIFACT_PASSAGE_BATCH_BYTES {
        return Err(MemoryError::InvalidInput(InputFault::PassageBatchBytes));
    }
    if i > 0 {
        assert(views(passages@)[i - 1] == passages@[i - 1]@);
        if passages[i - 1].locator.ordinal >= passage.locator.ordinal {
            return Err(MemoryError::InvalidInput(InputFault::PassageOrdinals));
        }
    }
    validate_artifact_range(passage.locator.byte_range, InputFault::ByteRange)?;
    validate_artifact_range(passage.locator.page_range, InputFault::PageRange)?;
    validate_artifact_range(passage.locator.time_range_ms, InputFault::TimeRange)?;
    let tokens = tokenize(passage.text.as_str());
    assert(views(tokens@).len() == tokens@.len());
    if tokens.len() > MAX_INDEX_TERMS_PER_RECORD {
        return Err(MemoryError::InvalidInput(InputFault::PassageTerms));
    }
    Ok(total)
}

pub fn validate_artifact_passage_batch(passages: &Vec<NewArtifactPassage>) -> (r: MemoryResult<()>)
    ensures
        r == (match passage_batch_fault(views(passages@)) {
            Some(fault) => invalid(fault),
            None => Ok(()),
        }),
{
    if passages.len() == 0 || passages.len() > MAX_ARTIFACT_PASSAGE_BATCH {
        return Err(MemoryError::InvalidInput(InputFault::PassageBatchSize));
    }
    let mut total: usize = 0;
    for i in 0..passages.len()
        invariant
            0 < passages@.len() <= MAX_ARTIFACT_PASSAGE_BATCH,
            total == passage_bytes(views(passages@), i as nat),
            total <= MAX_ARTIFACT_PASSAGE_BATCH_BYTES,
            passages_fault(views(passages@), i as nat) is None,
    {
        match check_passage(passages, i, total) {
            Ok(next) => {
                total = next;
            },
            Err(error) => {
                proof {
                    passages_fault_persists(views(passages@), (i + 1) as nat, passages@.len());
                }
                return Err(error);
            },
        }
    }
    Ok(())
}

impl StoreModel {
    /// Creating a collection. The first identifier drawn is the audit event's, the second
    /// the collection's.
    pub open spec fn create_artifact_collection(
        self,
        operation: OperationContext,
        input: NewArtifactCollectionModel,
        request: Seq<u8>,
        fresh: FreshModel,
    ) -> MemoryResult<(StoreModel, ArtifactCollectionReceipt)> {
        let digest = mutation_digest_of(
            self.digest_key@,
            "create_artifact_collection"@,
            operation.actor,
            request,
        );
        if !may_handle_artifacts(operation.actor) {
            Err(MemoryError::Unauthorized)
        } else {
            match exact_text_fault(input.label, TextField::ArtifactLabel, MAX_ARTIFACT_LABEL_BYTES) {
                Some(fault) => invalid(fault),
                None => match self.replay(operation.id, digest) {
                    Err(error) => Err(error),
                    Ok(Some(ReceiptModel::Collection(receipt))) => Ok((self, receipt)),
                    Ok(Some(_)) => corrupt(CorruptFault::ReceiptShape),
                    Ok(None) => {
                        let id = ArtifactCollectionId(fresh.ids[1]);
                        let record = RecordRef::ArtifactCollection(id);
                        let now = fresh.recorded_at_ms;
                        let receipt = ArtifactCollectionReceipt { id, availability_revision: 1 };
                        Ok(
                            (
                                self.put(
                                    WriteModel::PutCollection(
                                        id,
                                        ArtifactCollectionHeader {
                                            id,
                                            scope: Scope::Artifact(id.0),
                                            created_by: operation.actor,
                                            recorded_at_ms: now,
                                            operation_id: operation.id,
                                        },
                                    ),
                                ).put(
                                    WriteModel::PutCollectionAvailability(
                                        revision_of(id.0, 1),
                                        ArtifactAvailabilityRevision {
                                            id,
                                            revision: 1,
                                            state: RecordState::Active,
                                            recorded_at_ms: now,
                                            operation_id: operation.id,
                                        },
                                    ),
                                ).put(WriteModel::PutHead(record, 1)).put(
                                    WriteModel::PutText(record, input.label),
                                ).audited(
                                    self.audit_event(
                                        fresh.ids[0],
                                        operation,
                                        AuditAction::ArtifactCollectionCreated,
                                        seq![record],
                                        Seq::empty(),
                                        None,
                                        now,
                                    ),
                                ).remembered(operation.id, digest, ReceiptModel::Collection(receipt)),
                                receipt,
                            ),
                        )
                    },
                },
            }
        }
    }

    /// What is wrong with a request to import a snapshot, whatever the store holds.
    pub open spec fn snapshot_request_fault(actor: Actor, input: NewArtifactSnapshotModel) -> Option<MemoryError> {
        if !may_handle_artifacts(actor) {
            Some(MemoryError::Unauthorized)
        } else if !input.temporal.coherent() {
            Some(MemoryError::InvalidInput(InputFault::ValidTimeInterval))
        } else {
            match exact_text_fault(input.media_type, TextField::ArtifactMediaType, MAX_ARTIFACT_MEDIA_TYPE_BYTES) {
                Some(fault) => Some(MemoryError::InvalidInput(fault)),
                None => if input.bytes.len() == 0 || input.bytes.len() > MAX_ARTIFACT_SNAPSHOT_BYTES {
                    Some(MemoryError::InvalidInput(InputFault::SnapshotBytes))
                } else {
                    None
                },
            }
        }
    }

    /// The collection that a snapshot is imported into, if it can be built upon.
    #[verifier::opaque]
    pub open spec fn open_collection(self, id: ArtifactCollectionId, expected_revision: u64) -> MemoryResult<
        ArtifactCollectionHeader,
    > {
        match self.inspect_artifact_collection(id) {
            Err(error) => Err(error),
            Ok(None) => Err(MemoryError::NotFound(RecordRef::ArtifactCollection(id))),
            Ok(Some(collection)) => match parent_fault(
                collection.availability.state,
                collection.availability.revision,
                expected_revision,
            ) {
                Some(error) => Err(error),
                None => Ok(collection.header),
            },
        }
    }

    /// Importing a snapshot. The identifiers drawn are those of the audit event, the
    /// snapshot and its evidence. `metadata` encodes all of the input but its bytes.
    pub open spec fn import_artifact_snapshot(
        self,
        operation: OperationContext,
        input: NewArtifactSnapshotModel,
        metadata: Seq<u8>,
        fresh: FreshModel,
    ) -> MemoryResult<(StoreModel, ArtifactSnapshotReceipt)> {
        let digest = snapshot_mutation_digest_of(self.digest_key@, operation.actor, metadata, input.bytes);
        match Self::snapshot_request_fault(operation.actor, input) {
            Some(error) => Err(error),
            None => match self.replay(operation.id, digest) {
                Err(error) => Err(error),
                Ok(Some(ReceiptModel::Snapshot(receipt))) => Ok((self, receipt)),
                Ok(Some(_)) => corrupt(CorruptFault::ReceiptShape),
                Ok(None) => match self.open_collection(input.collection_id, input.expected_collection_revision) {
                    Err(error) => Err(error),
                    Ok(collection) => {
                        let id = ArtifactSnapshotId(fresh.ids[1]);
                        let evidence_id = EvidenceId(fresh.ids[2]);
                        let record = RecordRef::ArtifactSnapshot(id);
                        let source = RecordRef::Evidence(evidence_id);
                        let now = fresh.recorded_at_ms;
                        let receipt = ArtifactSnapshotReceipt {
                            id,
                            availability_revision: 1,
                            evidence: EvidenceReceipt { id: evidence_id, availability_revision: 1 },
                        };
                        Ok(
                            (
                                self.put(
                                    WriteModel::PutSnapshot(
                                        id,
                                        ArtifactSnapshotHeader {
                                            id,
                                            collection_id: input.collection_id,
                                            evidence_id,
                                            scope: collection.scope,
                                            temporal: input.temporal,
                                            byte_len: input.bytes.len() as u64,
                                            recorded_at_ms: now,
                                            operation_id: operation.id,
                                        },
                                    ),
                                ).put(
                                    WriteModel::PutSnapshotAvailability(
                                        revision_of(id.0, 1),
                                        ArtifactAvailabilityRevision {
                                            id,
                                            revision: 1,
                                            state: RecordState::Active,
                                            recorded_at_ms: now,
                                            operation_id: operation.id,
                                        },
                                    ),
                                ).put(WriteModel::PutHead(record, 1)).put(
                                    WriteModel::PutSnapshotPayload(
                                        id,
                                        ArtifactSnapshotPayloadModel {
                                            media_type: input.media_type,
                                            content_digest: crate::digest::content_digest(input.bytes),
                                        },
                                    ),
                                ).put(WriteModel::PutBlob(id, input.bytes)).with_evidence(
                                    EvidenceHeader {
                                        id: evidence_id,
                                        class: EvidenceClass::ArtifactSnapshot,
                                        captured_by: operation.actor,
                                        scope: collection.scope,
                                        temporal: input.temporal,
                                        lifecycle: EvidenceLifecycleTruth::Direct,
                                        recorded_at_ms: now,
                                        operation_id: operation.id,
                                    },
                                    input.media_type,
                                ).depends(record, source).depends(source, record).put(
                                    WriteModel::PutProvenance(
                                        evidence_id,
                                        ArtifactEvidenceProvenance::Snapshot {
                                            collection_id: input.collection_id,
                                            snapshot_id: id,
                                            byte_len: input.bytes.len() as u64,
                                        },
                                    ),
                                ).depends(RecordRef::ArtifactCollection(input.collection_id), record).audited(
                                    self.audit_event(
                                        fresh.ids[0],
                                        operation,
                                        AuditAction::ArtifactSnapshotImported,
                                        seq![record, source],
                                        Seq::empty(),
                                        None,
                                        now,
                                    ),
                                ).remembered(operation.id, digest, ReceiptModel::Snapshot(receipt)),
                                receipt,
                            ),
                        )
                    },
                },
            },
        }
    }

    /// The snapshot that passages are taken from, if it can be built upon.
    #[verifier::opaque]
    pub open spec fn open_snapshot(self, id: ArtifactSnapshotId, expected_revision: u64) -> MemoryResult<
        ArtifactSnapshotHeader,
    > {
        match self.inspect_artifact_snapshot(id) {
            Err(error) => Err(error),
            Ok(None) => Err(MemoryError::NotFound(RecordRef::ArtifactSnapshot(id))),
            Ok(Some(snapshot)) => match parent_fault(
                snapshot.availability.state,
                snapshot.availability.revision,
                expected_revision,
            ) {
                Some(error) => Err(error),
                None => Ok(snapshot.header),
            },
        }
    }

    /// Why one of the first `n` passages has no place in a snapshot: it lies beyond the
    /// end, or its ordinal is taken.
    pub open spec fn placement_fault(
        self,
        snapshot: ArtifactSnapshotHeader,
        passages: Seq<NewArtifactPassageModel>,
        n: nat,
    ) -> Option<InputFault>
        decreases n,
    {
        if n == 0 {
            None
        } else {
            match self.placement_fault(snapshot, passages, (n - 1) as nat) {
                Some(fault) => Some(fault),
                None => {
                    let locator = passages[n - 1].locator;
                    if locator.byte_range matches Some(range) && range.end_exclusive > snapshot.byte_len {
                        Some(InputFault::PassageBeyondSnapshot)
                    } else if self.artifact_passage_ordinals.contains_key(
                        OrdinalKey { snapshot: snapshot.id, ordinal: locator.ordinal },
                    ) {
                        Some(InputFault::PassageOrdinalTaken(snapshot.id, locator.ordinal))
                    } else {
                        None
                    }
                },
            }
        }
    }

    /// With the first `n` passages of a snapshot, each with its evidence. Passage `i` and
    /// its evidence take the identifiers drawn at `2 * i + 1` and `2 * i + 2`.
    pub open spec fn with_passages(
        self,
        operation: OperationContext,
        snapshot: ArtifactSnapshotHeader,
        passages: Seq<NewArtifactPassageModel>,
        fresh: FreshModel,
        n: nat,
    ) -> StoreModel
        decreases n,
    {
        if n == 0 {
            self
        } else {
            let before = self.with_passages(operation, snapshot, passages, fresh, (n - 1) as nat);
            let passage = passages[n - 1];
            let id = ArtifactPassageId(fresh.ids[2 * n - 1]);
            let evidence_id = EvidenceId(fresh.ids[2 * n as int]);
            let record = RecordRef::ArtifactPassage(id);
            let source = RecordRef::Evidence(evidence_id);
            let now = fresh.recorded_at_ms;
            before.put(
                WriteModel::PutPassage(
                    id,
                    ArtifactPassageHeader {
                        id,
                        collection_id: snapshot.collection_id,
                        snapshot_id: snapshot.id,
                        evidence_id,
                        scope: snapshot.scope,
                        temporal: snapshot.temporal,
                        locator: passage.locator,
                        recorded_at_ms: now,
                        operation_id: operation.id,
                    },
                ),
            ).put(
                WriteModel::PutPassageAvailability(
                    revision_of(id.0, 1),
                    ArtifactAvailabilityRevision {
                        id,
                        revision: 1,
                        state: RecordState::Active,
                        recorded_at_ms: now,
                        operation_id: operation.id,
                    },
                ),
            ).put(WriteModel::PutHead(record, 1)).put(WriteModel::PutText(record, passage.text)).with_evidence(
                EvidenceHeader {
                    id: evidence_id,
                    class: EvidenceClass::ArtifactPassage,
                    captured_by: operation.actor,
                    scope: snapshot.scope,
                    temporal: snapshot.temporal,
                    lifecycle: EvidenceLifecycleTruth::Direct,
                    recorded_at_ms: now,
                    operation_id: operation.id,
                },
                passage.text,
            ).depends(record, source).depends(source, record).depends(
                RecordRef::ArtifactSnapshot(snapshot.id),
                record,
            ).put(
                WriteModel::PutOrdinal(
                    OrdinalKey { snapshot: snapshot.id, ordinal: passage.locator.ordinal },
                    id,
                ),
            ).put(
                WriteModel::PutProvenance(
                    evidence_id,
                    ArtifactEvidenceProvenance::Passage {
                        collection_id: snapshot.collection_id,
                        snapshot_id: snapshot.id,
                        passage_id: id,
                        locator: passage.locator,
                    },
                ),
            )
        }
    }

    /// What the first `n` passages are answered.
    pub open spec fn passage_receipts(fresh: FreshModel, n: nat) -> Seq<ArtifactPassageReceipt> {
        Seq::new(
            n,
            |i: int|
                ArtifactPassageReceipt {
                    id: ArtifactPassageId(fresh.ids[2 * i + 1]),
                    availability_revision: 1,
                    evidence: EvidenceReceipt {
                        id: EvidenceId(fresh.ids[2 * i + 2]),
                        availability_revision: 1,
                    },
                },
        )
    }

    /// The records that creating the first `n` passages is about.
    pub open spec fn passage_subjects(fresh: FreshModel, n: nat) -> Seq<RecordRef> {
        Seq::new(
            2 * n,
            |i: int|
                if i % 2 == 0 {
                    RecordRef::ArtifactPassage(ArtifactPassageId(fresh.ids[i + 1]))
                } else {
                    RecordRef::Evidence(EvidenceId(fresh.ids[i + 1]))
                },
        )
    }

    /// Creating passages of a snapshot. The first identifier drawn is the audit event's.
    pub open spec fn create_artifact_passages(
        self,
        operation: OperationContext,
        input: NewArtifactPassageBatchModel,
        request: Seq<u8>,
        fresh: FreshModel,
    ) -> MemoryResult<(StoreModel, ArtifactPassageBatchReceiptModel)> {
        let digest = mutation_digest_of(
            self.digest_key@,
            "create_artifact_passages"@,
            operation.actor,
            request,
        );
        let n = input.passages.len();
        if !may_handle_artifacts(operation.actor) {
            Err(MemoryError::Unauthorized)
        } else {
            match passage_batch_fault(input.passages) {
                Some(fault) => invalid(fault),
                None => match self.replay(operation.id, digest) {
                    Err(error) => Err(error),
                    Ok(Some(ReceiptModel::Passages(receipt))) => Ok((self, receipt)),
                    Ok(Some(_)) => corrupt(CorruptFault::ReceiptShape),
                    Ok(None) => match self.open_snapshot(input.snapshot_id, input.expected_snapshot_revision) {
                        Err(error) => Err(error),
                        Ok(found) => {
                            let snapshot = ArtifactSnapshotHeader { id: input.snapshot_id, ..found };
                            match self.placement_fault(snapshot, input.passages, n) {
                                Some(fault) => invalid(fault),
                                None => {
                                    let receipt = ArtifactPassageBatchReceiptModel {
                                        passages: Self::passage_receipts(fresh, n),
                                    };
                                    Ok(
                                        (
                                            self.with_passages(operation, snapshot, input.passages, fresh, n).audited(
                                                self.audit_event(
                                                    fresh.ids[0],
                                                    operation,
                                                    AuditAction::ArtifactPassagesCreated,
                                                    Self::passage_subjects(fresh, n),
                                                    Seq::empty(),
                                                    None,
                                                    fresh.recorded_at_ms,
                                                ),
                                            ).remembered(operation.id, digest, ReceiptModel::Passages(receipt)),
                                            receipt,
                                        ),
                                    )
                                },
                            }
                        },
                    },
                },
            }
        }
    }
}

proof fn placement_fault_persists(
    s: StoreModel,
    snapshot: ArtifactSnapshotHeader,
    passages: Seq<NewArtifactPassageModel>,
    n: nat,
    m: nat,
)
    requires
        n <= m,
        s.placement_fault(snapshot, passages, n) is Some,
    ensures
        s.placement_fault(snapshot, passages, m) == s.placement_fault(snapshot, passages, n),
    decreases m,
{
    if n < m {
        placement_fault_persists(s, snapshot, passages, n, (m - 1) as nat);
    }
}

impl MemoryDatabase {
    /// What creating a collection would do with the given instant and identifiers.
    /// `request` encodes the input.
    pub fn plan_create_artifact_collection(
        &self,
        operation: OperationContext,
        input: &NewArtifactCollection,
        request: &[u8],
        fresh: &Fresh,
    ) -> (r: MemoryResult<Planned<ArtifactCollectionReceipt>>)
        requires
            fresh.ids@.len() == 2,
        ensures
            plans(self@, r, self@.create_artifact_collection(operation, input@, request@, fresh@)),
    {
        require_artifact_actor(operation.actor)?;
        validate_exact_bounded_text(
            input.label.as_str(),
            TextField::ArtifactLabel,
            MAX_ARTIFACT_LABEL_BYTES,
        )?;
        let digest = mutation_digest(
            &self.digest_key,
            "create_artifact_collection",
            operation.actor,
            request,
        );
        let mut batch = Batch::new();
        match self.replayed_operation(operation.id, digest)? {
            Some(Receipt::Collection(receipt)) => {
                return Ok(Planned { batch, receipt });
            },
            Some(_) => {
                return Err(MemoryError::Corrupt(CorruptFault::ReceiptShape));
            },
            None => {},
        }
        let id = ArtifactCollectionId(fresh.ids[1]);
        let record = RecordRef::ArtifactCollection(id);
        let now: i64 = fresh.recorded_at_ms;
        batch.push(
            Write::PutCollection(
                id,
                ArtifactCollectionHeader {
                    id,
                    scope: Scope::Artifact(id.0),
                    created_by: operation.actor,
                    recorded_at_ms: now,
                    operation_id: operation.id,
                },
            ),
        );
        batch.push(
            Write::PutCollectionAvailability(
                RevisionKey { id: id.0, revision: 1 },
                ArtifactAvailabilityRevision {
                    id,
                    revision: 1,
                    state: RecordState::Active,
                    recorded_at_ms: now,
                    operation_id: operation.id,
                },
            ),
        );
        batch.push(Write::PutHead(record, 1));
        batch.push(Write::PutText(record, input.label.clone()));
        let subjects: Vec<RecordRef> = vec![record];
        assert(subjects@ =~= seq![record]);
        self.insert_audit(
            &mut batch,
            fresh.ids[0],
            operation,
            AuditAction::ArtifactCollectionCreated,
            subjects,
            Vec::new(),
            None,
            now,
        );
        let receipt = ArtifactCollectionReceipt { id, availability_revision: 1 };
        self.insert_operation(&mut batch, operation.id, digest, Receipt::Collection(receipt));
        Ok(Planned { batch, receipt })
    }

    /// Creates a collection in a scope of its own.
    pub fn create_artifact_collection(
        &mut self,
        operation: OperationContext,
        input: NewArtifactCollection,
        request: &[u8],
    ) -> (r: MemoryResult<ArtifactCollectionReceipt>)
        ensures
            exists|fresh: FreshModel|
                fresh.ids.len() == 2 && #[trigger] commits(
                    old(self)@,
                    final(self)@,
                    r,
                    old(self)@.create_artifact_collection(operation, input@, request@, fresh),
                ),
    {
        let fresh = Fresh::draw(2);
        let planned = self.plan_create_artifact_collection(operation, &input, request, &fresh);
        let r = self.commit(planned);
        assert(commits(
            old(self)@,
            self@,
            r,
            old(self)@.create_artifact_collection(operation, input@, request@, fresh@),
        ));
        r
    }

    fn open_collection(&self, id: ArtifactCollectionId, expected_revision: u64) -> (r: MemoryResult<
        ArtifactCollectionHeader,
    >)
        ensures
            r == self@.open_collection(id, expected_revision),
    {
        reveal(StoreModel::open_collection);
        let collection = match self.inspect_artifact_collection(id)? {
            Some(collection) => collection,
            None => return Err(MemoryError::NotFound(RecordRef::ArtifactCollection(id))),
        };
        require_active_revision(
            collection.availability.state,
            collection.availability.revision,
            expected_revision,
        )?;
        Ok(collection.header)
    }

    /// What importing a snapshot would do with the given instant and identifiers.
    /// `metadata` encodes all of the input but its bytes.
    pub fn plan_import_artifact_snapshot(
        &self,
        operation: OperationContext,
        input: &NewArtifactSnapshot,
        metadata: &[u8],
        fresh: &Fresh,
    ) -> (r: MemoryResult<Planned<ArtifactSnapshotReceipt>>)
        requires
            fresh.ids@.len() == 3,
        ensures
            plans(self@, r, self@.import_artifact_snapshot(operation, input@, metadata@, fresh@)),
    {
        require_artifact_actor(operation.actor)?;
        input.temporal.validate()?;
        validate_exact_bounded_text(
            input.media_type.as_str(),
            TextField::ArtifactMediaType,
            MAX_ARTIFACT_MEDIA_TYPE_BYTES,
        )?;
        if input.bytes.len() == 0 || input.bytes.len() > MAX_ARTIFACT_SNAPSHOT_BYTES {
            return Err(MemoryError::InvalidInput(InputFault::SnapshotBytes));
        }
        let digest = artifact_snapshot_mutation_digest(
            &self.digest_key,
            operation.actor,
            metadata,
            input.bytes.as_slice(),
        );
        let mut batch = Batch::new();
        match self.replayed_operation(operation.id, digest)? {
            Some(Receipt::Snapshot(receipt)) => {
                return Ok(Planned { batch, receipt });
            },
            Some(_) => {
                return Err(MemoryError::Corrupt(CorruptFault::ReceiptShape));
            },
            None => {},
        }
        let collection = self.open_collection(input.collection_id, input.expected_collection_revision)?;
        let id = ArtifactSnapshotId(fresh.ids[1]);
        let evidence_id = EvidenceId(fresh.ids[2]);
        let record = RecordRef::ArtifactSnapshot(id);
        let source = RecordRef::Evidence(evidence_id);
        let now: i64 = fresh.recorded_at_ms;
        let byte_count: u64 = input.bytes.len() as u64;
        batch.push(
            Write::PutSnapshot(
                id,
                ArtifactSnapshotHeader {
                    id,
                    collection_id: input.collection_id,
                    evidence_id,
                    scope: collection.scope,
                    temporal: input.temporal,
                    byte_len: byte_count,
                    recorded_at_ms: now,
                    operation_id: operation.id,
                },
            ),
        );
        batch.push(
            Write::PutSnapshotAvailability(
                RevisionKey { id: id.0, revision: 1 },
                ArtifactAvailabilityRevision {
                    id,
                    revision: 1,
                    state: RecordState::Active,
                    recorded_at_ms: now,
                    operation_id: operation.id,
                },
            ),
        );
        batch.push(Write::PutHead(record, 1));
        batch.push(
            Write::PutSnapshotPayload(
                id,
                ArtifactSnapshotPayload {
                    media_type: input.media_type.clone(),
                    content_digest: content_hash(input.bytes.as_slice()),
                },
            ),
        );
        batch.push(Write::PutBlob(id, copies(&input.bytes)));
        self.insert_evidence(
            &mut batch,
            EvidenceHeader {
                id: evidence_id,
                class: EvidenceClass::ArtifactSnapshot,
                captured_by: operation.actor,
                scope: collection.scope,
                temporal: input.temporal,
                lifecycle: EvidenceLifecycleTruth::Direct,
                recorded_at_ms: now,
                operation_id: operation.id,
            },
            &input.media_type,
        );
        batch.push(Write::PutDependency(DependencyKey { source: record, dependent: source }));
        batch.push(Write::PutDependency(DependencyKey { source, dependent: record }));
        batch.push(
            Write::PutProvenance(
                evidence_id,
                ArtifactEvidenceProvenance::Snapshot {
                    collection_id: input.collection_id,
                    snapshot_id: id,
                    byte_len: byte_count,
                },
            ),
        );
        batch.push(
            Write::PutDependency(
                DependencyKey {
                    source: RecordRef::ArtifactCollection(input.collection_id),
                    dependent: record,
                },
            ),
        );
        let subjects: Vec<RecordRef> = vec![record, source];
        assert(subjects@ =~= seq![record, source]);
        self.insert_audit(
            &mut batch,
            fresh.ids[0],
            operation,
            AuditAction::ArtifactSnapshotImported,
            subjects,
            Vec::new(),
            None,
            now,
        );
        let receipt = ArtifactSnapshotReceipt {
            id,
            availability_revision: 1,
            evidence: EvidenceReceipt { id: evidence_id, availability_revision: 1 },
        };
        self.insert_operation(&mut batch, operation.id, digest, Receipt::Snapshot(receipt));
        Ok(Planned { batch, receipt })
    }

    /// Imports exact bytes into a collection, with evidence of their own.
    pub fn import_artifact_snapshot(
        &mut self,
        operation: OperationContext,
        input: NewArtifactSnapshot,
        metadata: &[u8],
    ) -> (r: MemoryResult<ArtifactSnapshotReceipt>)
        ensures
            exists|fresh: FreshModel|
                fresh.ids.len() == 3 && #[trigger] commits(
                    old(self)@,
                    final(self)@,
                    r,
                    old(self)@.import_artifact_snapshot(operation, input@, metadata@, fresh),
                ),
    {
        let fresh = Fresh::draw(3);
        let planned = self.plan_import_artifact_snapshot(operation, &input, metadata, &fresh);
        let r = self.commit(planned);
        assert(commits(
            old(self)@,
            self@,
            r,
            old(self)@.import_artifact_snapshot(operation, input@, metadata@, fresh@),
        ));
        r
    }

    fn open_snapshot(&self, id: ArtifactSnapshotId, expected_revision: u64) -> (r: MemoryResult<
        ArtifactSnapshotHeader,
    >)
        ensures
            r == self@.open_snapshot(id, expected_revision),
    {
        reveal(StoreModel::open_snapshot);
        let snapshot = match self.inspect_artifact_snapshot(id)? {
            Some(snapshot) => snapshot,
            None => return Err(MemoryError::NotFound(RecordRef::ArtifactSnapshot(id))),
        };
        require_active_revision(
            snapshot.availability.state,
            snapshot.availability.revision,
            expected_revision,
        )?;
        Ok(snapshot.header)
    }

    fn check_placement(&self, snapshot: ArtifactSnapshotHeader, passages: &Vec<NewArtifactPassage>) -> (r:
        MemoryResult<()>)
        ensures
            r == (match self@.placement_fault(snapshot, views(passages@), passages@.len()) {
                Some(fault) => invalid(fault),
                None => Ok(()),
            }),
    {
        for i in 0..passages.len()
            invariant
                self@.placement_fault(snapshot, views(passages@), i as nat) is None,
        {
            let locator = passages[i].locator;
            assert(views(passages@)[i as int] == passages@[i as int]@);
            let beyond = match locator.byte_range {
                Some(range) => range.end_exclusive > snapshot.byte_len,
                None => false,
            };
            if beyond {
                proof {
                    placement_fault_persists(
                        self@,
                        snapshot,
                        views(passages@),
                        (i + 1) as nat,
                        passages@.len(),
                    );
                }
                return Err(MemoryError::InvalidInput(InputFault::PassageBeyondSnapshot));
            }
            if self.artifact_passage_ordinals.contains(
                &OrdinalKey { snapshot: snapshot.id, ordinal: locator.ordinal },
            ) {
                proof {
                    placement_fault_persists(
                        self@,
                        snapshot,
                        views(passages@),
                        (i + 1) as nat,
                        passages@.len(),
                    );
                }
                return Err(
                    MemoryError::InvalidInput(
                        InputFault::PassageOrdinalTaken(snapshot.id, locator.ordinal),
                    ),
                );
            }
        }
        Ok(())
    }

    fn insert_passage(
        &self,
        batch: &mut Batch,
        operation: OperationContext,
        snapshot: ArtifactSnapshotHeader,
        passages: &Vec<NewArtifactPassage>,
        fresh: &Fresh,
        i: usize,
        Ghost(start): Ghost<StoreModel>,
    )
        requires
            i < passages@.len(),
            fresh.ids@.len() == 2 * passages@.len() + 1,
            self@.after(old(batch)@) == start.with_passages(
                operation,
                snapshot,
                views(passages@),
                fresh@,
                i as nat,
            ),
        ensures
            self@.after(final(batch)@) == start.with_passages(
                operation,
                snapshot,
                views(passages@),
                fresh@,
                (i + 1) as nat,
            ),
    {
        let drawn: usize = fresh.ids.len();
        let passage = &passages[i];
        assert(views(passages@)[i as int] == passage@);
        let id = ArtifactPassageId(fresh.ids[2 * i + 1]);
        let evidence_id = EvidenceId(fresh.ids[2 * i + 2]);
        let record = RecordRef::ArtifactPassage(id);
        let source = RecordRef::Evidence(evidence_id);
        let now: i64 = fresh.recorded_at_ms;
        batch.push(
            Write::PutPassage(
                id,
                ArtifactPassageHeader {
                    id,
                    collection_id: snapshot.collection_id,
                    snapshot_id: snapshot.id,
                    evidence_id,
                    scope: snapshot.scope,
                    temporal: snapshot.temporal,
                    locator: passage.locator,
                    recorded_at_ms: now,
                    operation_id: operation.id,
                },
            ),
        );
        batch.push(
            Write::PutPassageAvailability(
                RevisionKey { id: id.0, revision: 1 },
                ArtifactAvailabilityRevision {
                    id,
                    revision: 1,
                    state: RecordState::Active,
                    recorded_at_ms: now,
                    operation_id: operation.id,
                },
            ),
        );
        batch.push(Write::PutHead(record, 1));
        batch.push(Write::PutText(record, passage.text.clone()));
        self.insert_evidence(
            batch,
            EvidenceHeader {
                id: evidence_id,
                class: EvidenceClass::ArtifactPassage,
                captured_by: operation.actor,
                scope: snapshot.scope,
                temporal: snapshot.temporal,
                lifecycle: EvidenceLifecycleTruth::Direct,
                recorded_at_ms: now,
                operation_id: operation.id,
            },
            &passage.text,
        );
        batch.push(Write::PutDependency(DependencyKey { source: record, dependent: source }));
        batch.push(Write::PutDependency(DependencyKey { source, dependent: record }));
        batch.push(
            Write::PutDependency(
                DependencyKey { source: RecordRef::ArtifactSnapshot(snapshot.id), dependent: record },
            ),
        );
        batch.push(
            Write::PutOrdinal(
                OrdinalKey { snapshot: snapshot.id, ordinal: passage.locator.ordinal },
                id,
            ),
        );
        batch.push(
            Write::PutProvenance(
                evidence_id,
                ArtifactEvidenceProvenance::Passage {
                    collection_id: snapshot.collection_id,
                    snapshot_id: snapshot.id,
                    passage_id: id,
                    locator: passage.locator,
                },
            ),
        );
    }

    /// What creating passages would do with the given instant and identifiers.
    /// `request` encodes the input.
    pub fn plan_create_artifact_passages(
        &self,
        operation: OperationContext,
        input: &NewArtifactPassageBatch,
        request: &[u8],
        fresh: &Fresh,
    ) -> (r: MemoryResult<Planned<ArtifactPassageBatchReceipt>>)
        requires
            fresh.ids@.len() == 2 * input.passages@.len() + 1,
        ensures
            plans(self@, r, self@.create_artifact_passages(operation, input@, request@, fresh@)),
    {
        require_artifact_actor(operation.actor)?;
        validate_artifact_passage_batch(&input.passages)?;
        let digest = mutation_digest(
            &self.digest_key,
            "create_artifact_passages",
            operation.actor,
            request,
        );
        let mut batch = Batch::new();
        match self.replayed_operation(operation.id, digest)? {
            Some(Receipt::Passages(receipt)) => {
                return Ok(Planned { batch, receipt });
            },
            Some(_) => {
                return Err(MemoryError::Corrupt(CorruptFault::ReceiptShape));
            },
            None => {},
        }
        let found = self.open_snapshot(input.snapshot_id, input.expected_snapshot_revision)?;
        let snapshot = ArtifactSnapshotHeader { id: input.snapshot_id, ..found };
        self.check_placement(snapshot, &input.passages)?;
        let mut receipts: Vec<ArtifactPassageReceipt> = Vec::new();
        let mut subjects: Vec<RecordRef> = Vec::new();
        let drawn: usize = fresh.ids.len();
        for i in 0..input.passages.len()
            invariant
                fresh.ids@.len() == 2 * input.passages@.len() + 1,
                drawn == fresh.ids@.len(),
                self@.after(batch@) == self@.with_passages(
                    operation,
                    snapshot,
                    views(input.passages@),
                    fresh@,
                    i as nat,
                ),
                receipts@ == StoreModel::passage_receipts(fresh@, i as nat),
                subjects@ == StoreModel::passage_subjects(fresh@, i as nat),
        {
            self.insert_passage(
                &mut batch,
                operation,
                snapshot,
                &input.passages,
                fresh,
                i,
                Ghost(self@),
            );
            let id = ArtifactPassageId(fresh.ids[2 * i + 1]);
            let evidence_id = EvidenceId(fresh.ids[2 * i + 2]);
            receipts.push(
                ArtifactPassageReceipt {
                    id,
                    availability_revision: 1,
                    evidence: EvidenceReceipt { id: evidence_id, availability_revision: 1 },
                },
            );
            subjects.push(RecordRef::ArtifactPassage(id));
            subjects.push(RecordRef::Evidence(evidence_id));
            assert(receipts@ =~= StoreModel::passage_receipts(fresh@, (i + 1) as nat));
            assert(subjects@ =~= StoreModel::passage_subjects(fresh@, (i + 1) as nat));
        }
        assert(views(input.passages@).len() == input.passages@.len());
        self.insert_audit(
            &mut batch,
            fresh.ids[0],
            operation,
            AuditAction::ArtifactPassagesCreated,
            subjects,
            Vec::new(),
            None,
            fresh.recorded_at_ms,
        );
        let receipt = ArtifactPassageBatchReceipt { passages: receipts };
        self.insert_operation(&mut batch, operation.id, digest, Receipt::Passages(receipt.replica()));
        Ok(Planned { batch, receipt })
    }

    /// Creates passages of a snapshot, each with evidence of its own.
    pub fn create_artifact_passages(
        &mut self,
        operation: OperationContext,
        input: NewArtifactPassageBatch,
        request: &[u8],
    ) -> (r: MemoryResult<ArtifactPassageBatchReceipt>)
        ensures
            exists|fresh: FreshModel|
                #[trigger] commits(
                    old(self)@,
                    final(self)@,
                    r,
                    old(self)@.create_artifact_passages(operation, input@, request@, fresh),
                ),
    {
        let n: usize = input.passages.len();
        if n > MAX_ARTIFACT_PASSAGE_BATCH {
            let refused: MemoryResult<ArtifactPassageBatchReceipt> = match require_artifact_actor(
                operation.actor,
            ) {
                Err(error) => Err(error),
                Ok(_) => Err(MemoryError::InvalidInput(InputFault::PassageBatchSize)),
            };
            proof {
                let fresh = FreshModel { recorded_at_ms: 0, ids: Seq::empty() };
                assert(commits(
                    old(self)@,
                    self@,
                    refused,
                    old(self)@.create_artifact_passages(operation, input@, request@, fresh),
                ));
            }
            return refused;
        }
        let fresh = Fresh::draw(2 * n + 1);
        let planned = self.plan_create_artifact_passages(operation, &input, request, &fresh);
        let r = self.commit(planned);
        assert(commits(
            old(self)@,
            self@,
            r,
            old(self)@.create_artifact_passages(operation, input@, request@, fresh@),
        ));
        r
    }
}

} // verus!
