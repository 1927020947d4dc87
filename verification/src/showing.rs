//! What is shown of the revisions of a record, of the bytes of a snapshot and of traces.

use vstd::prelude::*;
use crate::derived::filed_under;
use crate::fault::MemoryResult;
use crate::ids::{
    ActivationTraceId, ArtifactCollectionId, ArtifactPassageId, ArtifactSnapshotId, ClaimId,
    EntityId, EvidenceId, ProposalId, ProposalReviewCaseId, RelationId, Ulid,
};
use crate::keys::{RecordIndexKey, RevisionKey};
use crate::order::{in_order, in_order_lists};
use crate::records::artifact::{ArtifactSnapshotBlobModel, ArtifactSnapshotRecordModel};
use crate::records::claim::InspectedRecordModel;
use crate::records::evidence::{RecordRef, RecordState};
use crate::store::StoreModel;

verus! {

/// What the text of a record shows: nothing once the record was purged.
pub open spec fn text_shown(s: StoreModel, record: RecordRef, state: RecordState) -> Option<Seq<char>> {
    if state == RecordState::Purged || !s.texts.contains_key(record) {
        None
    } else {
        Some(s.texts[record])
    }
}

/// A revision of evidence, a claim or an entity is shown if and only if it was filed, with
/// what was filed of it and with the payload that is there.
pub proof fn revisions_are_shown(s: StoreModel, evidence: EvidenceId, claim: ClaimId, entity: EntityId, revision: u64)
    ensures
        s.evidence_at(evidence, revision) is Some <==> s.evidence.contains_key(evidence)
            && s.evidence_availability.contains_key(RevisionKey { id: evidence.0, revision }),
        s.evidence_at(evidence, revision) matches Some(found) ==> {
            let availability = s.evidence_availability[RevisionKey { id: evidence.0, revision }];
            &&& found.header == s.evidence[evidence]
            &&& found.availability == availability
            &&& found.text == text_shown(s, RecordRef::Evidence(evidence), availability.state)
        },
        s.claim_at(claim, revision) is Some <==> s.claims.contains_key(RevisionKey { id: claim.0, revision }),
        s.claim_at(claim, revision) matches Some(found) ==> {
            let header = s.claims[RevisionKey { id: claim.0, revision }];
            &&& found.header == header
            &&& found.proposition == text_shown(s, RecordRef::Claim(claim), header.state)
        },
        s.entity_at(entity, revision) is Some <==> s.entities.contains_key(RevisionKey { id: entity.0, revision }),
        s.entity_at(entity, revision) matches Some(found) ==> {
            &&& found.header == s.entities[RevisionKey { id: entity.0, revision }]
            &&& s.entity_payloads.contains_key(entity) ==> found.canonical_name == Some(
                s.entity_payloads[entity].canonical_name,
            ) && found.aliases == s.entity_payloads[entity].aliases
            &&& !s.entity_payloads.contains_key(entity) ==> found.canonical_name is None && found.aliases.len() == 0
        },
{
    reveal(StoreModel::evidence_at);
    reveal(StoreModel::claim_at);
    reveal(StoreModel::entity_at);
    reveal(StoreModel::text_unless_purged);
}

/// A revision of a relation, a proposal or a review is shown if and only if it was filed,
/// with the payload while there is one.
pub proof fn revisions_of_workings_are_shown(
    s: StoreModel,
    relation: RelationId,
    proposal: ProposalId,
    review: ProposalReviewCaseId,
    revision: u64,
)
    ensures
        s.relation_at(relation, revision) is Some <==> s.relations.contains_key(
            RevisionKey { id: relation.0, revision },
        ),
        s.relation_at(relation, revision) matches Some(found) ==> {
            let header = s.relations[RevisionKey { id: relation.0, revision }];
            let there = header.state != RecordState::Purged && s.relation_payloads.contains_key(relation);
            &&& found.header == header
            &&& found.payload_available == there
            &&& there ==> found.qualifier == s.relation_payloads[relation].qualifier
            &&& !there ==> found.qualifier is None
        },
        s.proposal_at(proposal, revision) is Some <==> s.proposals.contains_key(
            RevisionKey { id: proposal.0, revision },
        ),
        s.proposal_at(proposal, revision) matches Some(found) ==> {
            &&& found.header == s.proposals[RevisionKey { id: proposal.0, revision }]
            &&& s.proposal_payloads.contains_key(proposal) ==> found.source_evidence
                == s.proposal_payloads[proposal].source_evidence && found.changes == Some(
                s.proposal_payloads[proposal].changes,
            )
            &&& !s.proposal_payloads.contains_key(proposal) ==> found.source_evidence.len() == 0
                && found.changes is None
        },
        s.review_at(review, revision) is Some <==> s.proposal_reviews.contains_key(
            RevisionKey { id: review.0, revision },
        ),
        s.review_at(review, revision) matches Some(found) ==> {
            &&& found.header == s.proposal_reviews[RevisionKey { id: review.0, revision }]
            &&& s.review_payloads.contains_key(review) ==> found.findings == Some(s.review_payloads[review].findings)
            &&& !s.review_payloads.contains_key(review) ==> found.findings is None
        },
{
    reveal(StoreModel::relation_at);
    reveal(StoreModel::proposal_at);
    reveal(StoreModel::review_at);
}

/// A revision of a collection, a snapshot or a passage is shown if and only if it was
/// filed, and shows nothing of its contents once it was purged.
pub proof fn revisions_of_artifacts_are_shown(
    s: StoreModel,
    collection: ArtifactCollectionId,
    snapshot: ArtifactSnapshotId,
    passage: ArtifactPassageId,
    revision: u64,
)
    ensures
        s.collection_at(collection, revision) is Some <==> s.artifact_collections.contains_key(collection)
            && s.artifact_collection_availability.contains_key(RevisionKey { id: collection.0, revision }),
        s.collection_at(collection, revision) matches Some(found) ==> {
            let availability = s.artifact_collection_availability[RevisionKey { id: collection.0, revision }];
            &&& found.header == s.artifact_collections[collection]
            &&& found.availability == availability
            &&& found.label == text_shown(s, RecordRef::ArtifactCollection(collection), availability.state)
        },
        s.snapshot_at(snapshot, revision) is Some <==> s.artifact_snapshots.contains_key(snapshot)
            && s.artifact_snapshot_availability.contains_key(RevisionKey { id: snapshot.0, revision }),
        s.snapshot_at(snapshot, revision) matches Some(found) ==> {
            let availability = s.artifact_snapshot_availability[RevisionKey { id: snapshot.0, revision }];
            let there = availability.state != RecordState::Purged && s.snapshot_payloads.contains_key(snapshot);
            &&& found.header == s.artifact_snapshots[snapshot]
            &&& found.availability == availability
            &&& found.payload_available == there
            &&& there ==> found.media_type == Some(s.snapshot_payloads[snapshot].media_type) && found.content_digest
                == Some(s.snapshot_payloads[snapshot].content_digest)
            &&& !there ==> found.media_type is None && found.content_digest is None
        },
        s.passage_at(passage, revision) is Some <==> s.artifact_passages.contains_key(passage)
            && s.artifact_passage_availability.contains_key(RevisionKey { id: passage.0, revision }),
        s.passage_at(passage, revision) matches Some(found) ==> {
            let availability = s.artifact_passage_availability[RevisionKey { id: passage.0, revision }];
            &&& found.header == s.artifact_passages[passage]
            &&& found.availability == availability
            &&& found.text == text_shown(s, RecordRef::ArtifactPassage(passage), availability.state)
        },
{
    reveal(StoreModel::collection_at);
    reveal(StoreModel::snapshot_at);
    reveal(StoreModel::passage_at);
    reveal(StoreModel::text_unless_purged);
}

/// A record is shown as it is at its current revision: wherever that revision is filed, to
/// inspect the record is to inspect that revision of it.
pub proof fn current_revisions_are_shown(s: StoreModel, record: RecordRef)
    ensures
        s.heads.contains_key(record) && s.inspect_revision(record, s.heads[record]) is Some ==> s.inspect_head(record)
            == MemoryResult::Ok(s.inspect_revision(record, s.heads[record])),
        s.inspect_head(record) matches Ok(Some(found)) ==> s.heads.contains_key(record) && s.inspect_revision(
            record,
            s.heads[record],
        ) == Some(found),
        !s.heads.contains_key(record) ==> !(s.inspect_head(record) matches Ok(Some(_))),
{
    reveal(StoreModel::inspect_head);
    reveal(StoreModel::inspect_revision);
    reveal(StoreModel::inspect_evidence);
    reveal(StoreModel::evidence_at);
    reveal(StoreModel::inspect_claim);
    reveal(StoreModel::inspect_entity);
    reveal(StoreModel::inspect_semantic_relation);
    reveal(StoreModel::inspect_proposal);
    reveal(StoreModel::inspect_proposal_review);
    reveal(StoreModel::inspect_artifact_collection);
    reveal(StoreModel::collection_at);
    reveal(StoreModel::inspect_artifact_snapshot);
    reveal(StoreModel::snapshot_at);
    reveal(StoreModel::inspect_artifact_passage);
    reveal(StoreModel::passage_at);
}

/// What is shown of a record is of its own kind and is what is found under its own name.
pub proof fn revisions_are_of_their_kind(s: StoreModel, record: RecordRef, revision: u64)
    ensures
        s.inspect_revision(record, revision) is Some <==> (match record {
            RecordRef::Evidence(id) => s.evidence_at(id, revision) is Some,
            RecordRef::Claim(id) => s.claim_at(id, revision) is Some,
            RecordRef::Entity(id) => s.entity_at(id, revision) is Some,
            RecordRef::SemanticRelation(id) => s.relation_at(id, revision) is Some,
            RecordRef::Proposal(id) => s.proposal_at(id, revision) is Some,
            RecordRef::ProposalReview(id) => s.review_at(id, revision) is Some,
            RecordRef::ArtifactCollection(id) => s.collection_at(id, revision) is Some,
            RecordRef::ArtifactSnapshot(id) => s.snapshot_at(id, revision) is Some,
            RecordRef::ArtifactPassage(id) => s.passage_at(id, revision) is Some,
        }),
        s.inspect_revision(record, revision) matches Some(found) ==> (match (record, found) {
            (RecordRef::Evidence(id), InspectedRecordModel::Evidence(shown)) => s.evidence_at(id, revision) == Some(
                shown,
            ),
            (RecordRef::Claim(id), InspectedRecordModel::Claim(shown)) => s.claim_at(id, revision) == Some(shown),
            (RecordRef::Entity(id), InspectedRecordModel::Entity(shown)) => s.entity_at(id, revision) == Some(shown),
            (RecordRef::SemanticRelation(id), InspectedRecordModel::SemanticRelation(shown)) => s.relation_at(
                id,
                revision,
            ) == Some(shown),
            (RecordRef::Proposal(id), InspectedRecordModel::Proposal(shown)) => s.proposal_at(id, revision) == Some(
                shown,
            ),
            (RecordRef::ProposalReview(id), InspectedRecordModel::ProposalReview(shown)) => s.review_at(id, revision)
                == Some(shown),
            (RecordRef::ArtifactCollection(id), InspectedRecordModel::ArtifactCollection(shown)) => s.collection_at(
                id,
                revision,
            ) == Some(shown),
            (RecordRef::ArtifactSnapshot(id), InspectedRecordModel::ArtifactSnapshot(shown)) => s.snapshot_at(
                id,
                revision,
            ) == Some(shown),
            (RecordRef::ArtifactPassage(id), InspectedRecordModel::ArtifactPassage(shown)) => s.passage_at(
                id,
                revision,
            ) == Some(shown),
            _ => false,
        }),
{
    reveal(StoreModel::inspect_revision);
}

/// The bytes of a snapshot are handed out if and only if its contents are there and the
/// bytes are as long as was noted and have the digest that was noted.
pub proof fn bytes_are_handed_out(s: StoreModel, id: ArtifactSnapshotId, record: ArtifactSnapshotRecordModel)
    requires
        s.inspect_artifact_snapshot(id) == MemoryResult::Ok(Some(record)),
        record.media_type is Some <==> record.content_digest is Some,
    ensures
        s.materialized(id) matches Ok(Some(blob)) ==> {
            &&& record.media_type == Some(blob.media_type) && record.content_digest == Some(blob.content_digest)
            &&& s.artifact_snapshot_blobs.contains_key(id) && blob.bytes == s.artifact_snapshot_blobs[id]
            &&& blob.id == id
            &&& blob.bytes.len() == record.header.byte_len
            &&& crate::digest::content_digest(blob.bytes) == blob.content_digest
        },
        s.materialized(id) == MemoryResult::Ok(None::<ArtifactSnapshotBlobModel>) <==> record.media_type is None,
        record.media_type is Some && s.artifact_snapshot_blobs.contains_key(id)
            && s.artifact_snapshot_blobs[id].len() == record.header.byte_len && record.content_digest == Some(
            crate::digest::content_digest(s.artifact_snapshot_blobs[id]),
        ) ==> s.materialized(id) is Ok,
{
    reveal(StoreModel::materialized);
}

/// A trace is shown if and only if it was filed and its payload is there, with all that was
/// filed of it.
pub proof fn traces_are_shown(s: StoreModel, id: ActivationTraceId)
    ensures
        s.inspect_activation_trace(id) is Some <==> s.activation_traces.contains_key(id)
            && s.activation_trace_payloads.contains_key(id),
        s.inspect_activation_trace(id) matches Some(trace) ==> {
            let header = s.activation_traces[id];
            let payload = s.activation_trace_payloads[id];
            &&& trace.id == header.id && trace.revision == header.revision
            &&& trace.era_id == header.era_id && trace.operation_id == header.operation_id
            &&& trace.recall_case == header.recall_case
            &&& trace.evaluator == header.evaluator && trace.profile == header.profile
            &&& trace.input_digest == header.input_digest
            &&& trace.candidates == payload.candidates && trace.contributions == payload.contributions
            &&& trace.recorded_at_ms == header.recorded_at_ms
        },
{
    reveal(StoreModel::inspect_activation_trace);
}

proof fn live_traces_are_told(s: StoreModel, ids: Seq<Ulid>, n: nat, id: ActivationTraceId)
    requires
        n <= ids.len(),
    ensures
        s.live_traces(ids, n).contains(id) <==> s.activation_trace_payloads.contains_key(id) && exists|i: int|
            0 <= i < n && id.0 == #[trigger] ids[i],
    decreases n,
{
    if n > 0 {
        let m = (n - 1) as nat;
        live_traces_are_told(s, ids, m, id);
        let before = s.live_traces(ids, m);
        let now = s.live_traces(ids, n);
        let last = ActivationTraceId(ids[m as int]);
        if now.contains(id) {
            let k = now.index_of(id);
            assert(now[k] == id);
            if k < before.len() {
                assert(before[k] == id);
                assert(before.contains(id));
            } else {
                assert(id == last);
                assert(id.0 == ids[m as int]);
            }
        }
        if before.contains(id) {
            let k = before.index_of(id);
            assert(now[k] == id);
        }
        if s.activation_trace_payloads.contains_key(id) && exists|i: int| 0 <= i < n && id.0 == #[trigger] ids[i] {
            let i = choose|i: int| 0 <= i < n && id.0 == #[trigger] ids[i];
            if i < m {
                assert(before.contains(id));
            } else {
                assert(id == last);
                assert(now[before.len() as int] == id);
            }
        }
    }
}

/// The traces that depend on some records are those filed under one of them whose payloads
/// are there.
pub proof fn traces_depend_on_their_records(s: StoreModel, records: Seq<RecordRef>, id: ActivationTraceId)
    requires
        filed_under(s.activation_traces_by_record, records).finite(),
    ensures
        s.traces_depending_on(records).contains(id) <==> {
            &&& exists|i: int|
                0 <= i < records.len() && s.activation_traces_by_record.contains_key(
                    RecordIndexKey { record: #[trigger] records[i], id: id.0 },
                )
            &&& s.activation_trace_payloads.contains_key(id)
        },
{
    let filed = filed_under(s.activation_traces_by_record, records);
    in_order_lists(filed);
    let ids = in_order(filed);
    live_traces_are_told(s, ids, ids.len(), id);
    if s.traces_depending_on(records).contains(id) {
        let i = choose|i: int| 0 <= i < ids.len() && id.0 == #[trigger] ids[i];
        assert(ids.contains(ids[i]));
        assert(filed.contains(id.0));
    }
    if filed.contains(id.0) {
        assert(ids.contains(id.0));
        let i = ids.index_of(id.0);
        assert(ids[i] == id.0);
    }
}

} // verus!
