//! What is recorded beside what was asked for: who asked, when, under which operation, and
//! where it belongs.

use vstd::prelude::*;
use crate::clock::FreshModel;
use crate::context::OperationContext;
use crate::digest::index_digest;
use crate::fault::MemoryResult;
use crate::grounds::relations_are_heard;
use crate::ids::{ArtifactPassageId, EvidenceId};
use crate::inspect::lookup;
use crate::keys::{OrdinalKey, RevisionKey};
use crate::readback::{indexing_aside, support_aside};
use crate::records::artifact::{
    ArtifactCollectionHeader, ArtifactEvidenceProvenance, ArtifactPassageHeader,
    ArtifactSnapshotHeader, ArtifactSnapshotReceipt, NewArtifactPassageModel,
    NewArtifactSnapshotModel,
};
use crate::records::claim::{
    ClaimRevisionHeaderModel, NewSemanticRelationModel, RelationReceipt, RememberReceipt,
    RememberUserClaimModel,
};
use crate::records::evidence::{
    Actor, EvidenceClass, EvidenceHeader, EvidenceLifecycleModel, EvidenceLifecycleTruth,
    RecordRef, RecordState, TerminalTurnStatus,
};
use crate::store::StoreModel;
use crate::text::utf8;
use crate::workflow::all_differ;

verus! {

/// What is remembered of the user is recorded as the user's own word, told directly, at the
/// time and under the operation of the request.
pub proof fn remembering_is_recorded(
    s: StoreModel,
    operation: OperationContext,
    input: RememberUserClaimModel,
    request: Seq<u8>,
    fresh: FreshModel,
    after: StoreModel,
    receipt: RememberReceipt,
)
    requires
        s.remember_user_claim(operation, input, request, fresh) == MemoryResult::Ok((after, receipt)),
        !s.operations.contains_key(operation.id),
    ensures
        lookup(after.evidence, receipt.evidence.id) == Some(
            EvidenceHeader {
                id: receipt.evidence.id,
                class: EvidenceClass::UserAssertion,
                captured_by: Actor::User,
                scope: input.scope,
                temporal: input.temporal,
                lifecycle: EvidenceLifecycleTruth::Direct,
                recorded_at_ms: fresh.recorded_at_ms,
                operation_id: operation.id,
            },
        ),
        lookup(after.claims, RevisionKey { id: receipt.claim.id.0, revision: 1 }) == Some(
            ClaimRevisionHeaderModel {
                id: receipt.claim.id,
                revision: 1,
                previous_revision: None,
                domain: input.domain,
                scope: input.scope,
                temporal: input.temporal,
                evidence_ids: seq![receipt.evidence.id],
                state: RecordState::Active,
                recorded_at_ms: fresh.recorded_at_ms,
                operation_id: operation.id,
            },
        ),
        receipt.evidence.availability_revision == 1 && receipt.claim.revision == 1 && receipt.claim.state
            == RecordState::Active,
{
    broadcast use {indexing_aside, support_aside};

    reveal(StoreModel::remember_request);
    reveal(StoreModel::replay);
    broadcast use crate::writing::parts_after_put;
    reveal(StoreModel::with_evidence);
    reveal(StoreModel::with_claim);
}

/// A relation is recorded at the time and under the operation of the request.
pub proof fn relations_are_recorded(
    s: StoreModel,
    operation: OperationContext,
    input: NewSemanticRelationModel,
    request: Seq<u8>,
    fresh: FreshModel,
    after: StoreModel,
    receipt: RelationReceipt,
)
    requires
        s.create_semantic_relation(operation, input, request, fresh) == MemoryResult::Ok((after, receipt)),
        !s.operations.contains_key(operation.id),
    ensures
        lookup(after.relations, RevisionKey { id: receipt.id.0, revision: 1 }) matches Some(header) && {
            &&& header.id == receipt.id && header.revision == 1 && header.previous_revision is None
            &&& header.from == input.from && header.to == input.to && header.kind == input.kind
            &&& header.scope == input.scope && header.state == RecordState::Active
            &&& header.recorded_at_ms == fresh.recorded_at_ms && header.operation_id == operation.id
        },
        receipt.revision == 1 && receipt.state == RecordState::Active,
{
    broadcast use support_aside;

    relations_are_heard(operation.actor, input);
    reveal(StoreModel::replay);
    broadcast use crate::writing::parts_after_put;
    reveal(StoreModel::with_relation);
}

/// A snapshot takes its scope from its collection and its time from the import, and is as
/// long as its bytes; its evidence is of the snapshot, in the same scope, and says what kind
/// of bytes they are.
pub proof fn snapshots_are_recorded(
    s: StoreModel,
    operation: OperationContext,
    input: NewArtifactSnapshotModel,
    metadata: Seq<u8>,
    fresh: FreshModel,
    after: StoreModel,
    receipt: ArtifactSnapshotReceipt,
    collection: ArtifactCollectionHeader,
)
    requires
        s.import_artifact_snapshot(operation, input, metadata, fresh) == MemoryResult::Ok((after, receipt)),
        !s.operations.contains_key(operation.id),
        s.open_collection(input.collection_id, input.expected_collection_revision) == MemoryResult::Ok(collection),
    ensures
        lookup(after.artifact_snapshots, receipt.id) == Some(
            ArtifactSnapshotHeader {
                id: receipt.id,
                collection_id: input.collection_id,
                evidence_id: receipt.evidence.id,
                scope: collection.scope,
                temporal: input.temporal,
                byte_len: input.bytes.len() as u64,
                recorded_at_ms: fresh.recorded_at_ms,
                operation_id: operation.id,
            },
        ),
        lookup(after.evidence, receipt.evidence.id) == Some(
            EvidenceHeader {
                id: receipt.evidence.id,
                class: EvidenceClass::ArtifactSnapshot,
                captured_by: operation.actor,
                scope: collection.scope,
                temporal: input.temporal,
                lifecycle: EvidenceLifecycleTruth::Direct,
                recorded_at_ms: fresh.recorded_at_ms,
                operation_id: operation.id,
            },
        ),
        lookup(after.texts, RecordRef::Evidence(receipt.evidence.id)) == Some(input.media_type),
{
    broadcast use indexing_aside;

    reveal(StoreModel::replay);
    broadcast use crate::writing::parts_after_put;
    reveal(StoreModel::with_evidence);
}

/// Whether a passage and its evidence are recorded where their snapshot is.
pub open spec fn is_recorded(
    store: StoreModel,
    operation: OperationContext,
    snapshot: ArtifactSnapshotHeader,
    passages: Seq<NewArtifactPassageModel>,
    fresh: FreshModel,
    i: int,
) -> bool {
    let id = ArtifactPassageId(fresh.ids[2 * i + 1]);
    let evidence_id = EvidenceId(fresh.ids[2 * i + 2]);
    &&& lookup(store.artifact_passages, id) == Some(
        ArtifactPassageHeader {
            id,
            collection_id: snapshot.collection_id,
            snapshot_id: snapshot.id,
            evidence_id,
            scope: snapshot.scope,
            temporal: snapshot.temporal,
            locator: passages[i].locator,
            recorded_at_ms: fresh.recorded_at_ms,
            operation_id: operation.id,
        },
    )
    &&& lookup(store.evidence, evidence_id) == Some(
        EvidenceHeader {
            id: evidence_id,
            class: EvidenceClass::ArtifactPassage,
            captured_by: operation.actor,
            scope: snapshot.scope,
            temporal: snapshot.temporal,
            lifecycle: EvidenceLifecycleTruth::Direct,
            recorded_at_ms: fresh.recorded_at_ms,
            operation_id: operation.id,
        },
    )
    &&& lookup(store.artifact_by_evidence, evidence_id) == Some(
        ArtifactEvidenceProvenance::Passage {
            collection_id: snapshot.collection_id,
            snapshot_id: snapshot.id,
            passage_id: id,
            locator: passages[i].locator,
        },
    )
    &&& lookup(
        store.artifact_passage_ordinals,
        OrdinalKey { snapshot: snapshot.id, ordinal: passages[i].locator.ordinal },
    ) == Some(id)
}

/// Passages take their collection, scope and time from their snapshot, and so does their
/// evidence, which is traced to them; and each has its place in the snapshot.
pub proof fn passages_are_recorded(
    s: StoreModel,
    operation: OperationContext,
    snapshot: ArtifactSnapshotHeader,
    passages: Seq<NewArtifactPassageModel>,
    fresh: FreshModel,
    n: nat,
)
    requires
        n <= passages.len(),
        fresh.ids.len() == 2 * passages.len() + 1,
        all_differ(fresh.ids),
        forall|i: int, j: int|
            0 <= i < j < passages.len() ==> (#[trigger] passages[i]).locator.ordinal != (
            #[trigger] passages[j]).locator.ordinal,
    ensures
        forall|i: int|
            0 <= i < n ==> #[trigger] is_recorded(
                s.with_passages(operation, snapshot, passages, fresh, n),
                operation,
                snapshot,
                passages,
                fresh,
                i,
            ),
    decreases n,
{
    if n > 0 {
        passages_are_recorded(s, operation, snapshot, passages, fresh, (n - 1) as nat);
        let before = s.with_passages(operation, snapshot, passages, fresh, (n - 1) as nat);
        let after = s.with_passages(operation, snapshot, passages, fresh, n);
        assert forall|i: int| 0 <= i < n implies #[trigger] is_recorded(
            after,
            operation,
            snapshot,
            passages,
            fresh,
            i,
        ) by {
            broadcast use indexing_aside;

            broadcast use crate::writing::parts_after_put;
            reveal(StoreModel::with_evidence);
            if i < n - 1 {
                assert(is_recorded(before, operation, snapshot, passages, fresh, i));
                assert(fresh.ids[2 * i + 1] != fresh.ids[2 * n - 1]);
                assert(fresh.ids[2 * i + 2] != fresh.ids[2 * n as int]);
                assert(passages[i].locator.ordinal != passages[n - 1].locator.ordinal);
            }
        }
    }
}

/// Where evidence came from is kept: what was told directly is, and of the end of a turn the
/// status is kept and the event only as its digest, in a domain of its own.
pub proof fn origins_are_kept(s: StoreModel, source_event_id: Seq<char>, status: TerminalTurnStatus)
    ensures
        s.lifecycle_truth(EvidenceLifecycleModel::Direct) == EvidenceLifecycleTruth::Direct,
        s.lifecycle_truth(EvidenceLifecycleModel::TerminalTurn { source_event_id, status }) == (
        EvidenceLifecycleTruth::TerminalTurn {
            source_event_digest: index_digest(s.digest_key@, 0x05, utf8(source_event_id)),
            status,
        }),
{
    reveal(StoreModel::lifecycle_truth);
}

} // verus!
