//! What is seen of a record: its current revision, its payload while it has one, and what a
//! further revision makes of it.

use vstd::prelude::*;
use crate::fault::{MemoryError, MemoryResult};
use crate::ids::{
    ClaimId, EntityId, EvidenceId, OperationId, ProposalId, ProposalReviewCaseId, RelationId,
};
use crate::inspect::{lookup, revision_of};
use crate::records::audit::RecordRevision;
use crate::records::claim::{
    ClaimRecordModel, ClaimRevisionHeaderModel, EntityRecordModel, EntityRevisionHeaderModel,
    SemanticRelationRevisionHeaderModel,
};
use crate::records::evidence::{
    EvidenceAvailabilityRevision, EvidenceRecordModel, RecordRef, RecordState,
};
use crate::records::proposal::{ProposalRecordModel, ProposalStatus};
use crate::store::StoreModel;

verus! {

/// A record stands as it is inspected: in its scope, in the state of its current revision
/// and at that revision.
pub proof fn records_stand_as_inspected(s: StoreModel, record: RecordRef)
    ensures
        s.standing(record) == match record {
            RecordRef::Evidence(id) => match s.inspect_evidence(id) {
                Ok(Some(found)) => Ok((found.header.scope, found.availability.state, found.availability.revision)),
                Ok(None) => Err(MemoryError::NotFound(record)),
                Err(error) => Err(error),
            },
            RecordRef::Claim(id) => match s.inspect_claim(id) {
                Ok(Some(found)) => Ok((found.header.scope, found.header.state, found.header.revision)),
                Ok(None) => Err(MemoryError::NotFound(record)),
                Err(error) => Err(error),
            },
            RecordRef::Entity(id) => match s.inspect_entity(id) {
                Ok(Some(found)) => Ok((found.header.scope, found.header.state, found.header.revision)),
                Ok(None) => Err(MemoryError::NotFound(record)),
                Err(error) => Err(error),
            },
            RecordRef::SemanticRelation(id) => match s.inspect_semantic_relation(id) {
                Ok(Some(found)) => Ok((found.header.scope, found.header.state, found.header.revision)),
                Ok(None) => Err(MemoryError::NotFound(record)),
                Err(error) => Err(error),
            },
            RecordRef::Proposal(id) => match s.inspect_proposal(id) {
                Some(found) => Ok((found.header.scope, found.header.state, found.header.revision)),
                None => Err(MemoryError::NotFound(record)),
            },
            RecordRef::ProposalReview(id) => match s.inspect_proposal_review(id) {
                Some(found) => Ok((found.header.scope, found.header.state, found.header.revision)),
                None => Err(MemoryError::NotFound(record)),
            },
            RecordRef::ArtifactCollection(id) => match s.inspect_artifact_collection(id) {
                Ok(Some(found)) => Ok((found.header.scope, found.availability.state, found.availability.revision)),
                Ok(None) => Err(MemoryError::NotFound(record)),
                Err(error) => Err(error),
            },
            RecordRef::ArtifactSnapshot(id) => match s.inspect_artifact_snapshot(id) {
                Ok(Some(found)) => Ok((found.header.scope, found.availability.state, found.availability.revision)),
                Ok(None) => Err(MemoryError::NotFound(record)),
                Err(error) => Err(error),
            },
            RecordRef::ArtifactPassage(id) => match s.inspect_artifact_passage(id) {
                Ok(Some(found)) => Ok((found.header.scope, found.availability.state, found.availability.revision)),
                Ok(None) => Err(MemoryError::NotFound(record)),
                Err(error) => Err(error),
            },
        },
{
    reveal(StoreModel::standing);
    reveal(StoreModel::inspect_head);
}

/// What is inspected is what the head names: the header and the state at that revision,
/// with the text unless the record was purged.
pub proof fn heads_are_inspected(s: StoreModel, evidence: EvidenceId, claim: ClaimId, entity: EntityId)
    ensures
        s.inspect_evidence(evidence) matches Ok(Some(found)) ==> {
            let revision = s.heads[RecordRef::Evidence(evidence)];
            &&& s.heads.contains_key(RecordRef::Evidence(evidence))
            &&& lookup(s.evidence, evidence) == Some(found.header)
            &&& lookup(s.evidence_availability, revision_of(evidence.0, revision)) == Some(found.availability)
            &&& found.text == (if found.availability.state == RecordState::Purged {
                None
            } else {
                lookup(s.texts, RecordRef::Evidence(evidence))
            })
        },
        s.inspect_claim(claim) matches Ok(Some(found)) ==> {
            let revision = s.heads[RecordRef::Claim(claim)];
            &&& s.heads.contains_key(RecordRef::Claim(claim))
            &&& lookup(s.claims, revision_of(claim.0, revision)) == Some(found.header)
            &&& found.proposition == (if found.header.state == RecordState::Purged {
                None
            } else {
                lookup(s.texts, RecordRef::Claim(claim))
            })
        },
        s.inspect_entity(entity) matches Ok(Some(found)) ==> {
            let revision = s.heads[RecordRef::Entity(entity)];
            &&& s.heads.contains_key(RecordRef::Entity(entity))
            &&& lookup(s.entities, revision_of(entity.0, revision)) == Some(found.header)
            &&& found.canonical_name is Some <==> s.entity_payloads.contains_key(entity)
            &&& lookup(s.entity_payloads, entity) matches Some(payload) ==> found.canonical_name == Some(
                payload.canonical_name,
            ) && found.aliases == payload.aliases
        },
        !s.evidence.contains_key(evidence) ==> s.inspect_evidence(evidence) == MemoryResult::Ok(
            None::<EvidenceRecordModel>,
        ),
        !s.heads.contains_key(RecordRef::Claim(claim)) ==> s.inspect_claim(claim) == MemoryResult::Ok(
            None::<ClaimRecordModel>,
        ),
        !s.heads.contains_key(RecordRef::Entity(entity)) ==> s.inspect_entity(entity) == MemoryResult::Ok(
            None::<EntityRecordModel>,
        ),
{
    reveal(StoreModel::inspect_evidence);
    reveal(StoreModel::evidence_at);
    reveal(StoreModel::inspect_claim);
    reveal(StoreModel::claim_at);
    reveal(StoreModel::inspect_entity);
    reveal(StoreModel::entity_at);
    reveal(StoreModel::text_unless_purged);
}

/// What is inspected of a relation, a proposal and a review is what their heads name, with
/// the payload while there is one.
pub proof fn workings_are_inspected(
    s: StoreModel,
    relation: RelationId,
    proposal: ProposalId,
    review: ProposalReviewCaseId,
)
    ensures
        s.inspect_semantic_relation(relation) matches Ok(Some(found)) ==> {
            let revision = s.heads[RecordRef::SemanticRelation(relation)];
            let shown = found.header.state != RecordState::Purged && s.relation_payloads.contains_key(relation);
            &&& s.heads.contains_key(RecordRef::SemanticRelation(relation))
            &&& lookup(s.relations, revision_of(relation.0, revision)) == Some(found.header)
            &&& found.payload_available == shown
            &&& shown ==> found.qualifier == s.relation_payloads[relation].qualifier
            &&& !shown ==> found.qualifier is None
        },
        s.inspect_proposal(proposal) matches Some(found) ==> {
            let revision = s.heads[RecordRef::Proposal(proposal)];
            &&& s.heads.contains_key(RecordRef::Proposal(proposal))
            &&& lookup(s.proposals, revision_of(proposal.0, revision)) == Some(found.header)
            &&& found.changes is Some <==> s.proposal_payloads.contains_key(proposal)
            &&& lookup(s.proposal_payloads, proposal) matches Some(payload) ==> found.changes == Some(payload.changes)
                && found.source_evidence == payload.source_evidence
        },
        s.inspect_proposal_review(review) matches Some(found) ==> {
            let revision = s.heads[RecordRef::ProposalReview(review)];
            &&& s.heads.contains_key(RecordRef::ProposalReview(review))
            &&& lookup(s.proposal_reviews, revision_of(review.0, revision)) == Some(found.header)
            &&& found.findings is Some <==> s.review_payloads.contains_key(review)
            &&& lookup(s.review_payloads, review) matches Some(payload) ==> found.findings == Some(payload.findings)
        },
{
    reveal(StoreModel::inspect_semantic_relation);
    reveal(StoreModel::relation_at);
    reveal(StoreModel::inspect_proposal);
    reveal(StoreModel::proposal_at);
    reveal(StoreModel::inspect_proposal_review);
    reveal(StoreModel::review_at);
}

/// A withdrawn proposal ends as it was withdrawn: one that lost its support is stale, one
/// that was retracted is rejected, and any other keeps its status. It waits neither for a
/// review nor for a decision any more, if it waited, and everything else of it stays.
pub proof fn withdrawn_proposals_end(
    s: StoreModel,
    staged: StoreModel,
    id: ProposalId,
    expected_revision: u64,
    state: RecordState,
    operation_id: OperationId,
    recorded_at_ms: i64,
    after: StoreModel,
    revision: RecordRevision,
    current: ProposalRecordModel,
)
    requires
        s.appended(staged, RecordRef::Proposal(id), expected_revision, state, operation_id, recorded_at_ms)
            == MemoryResult::Ok((after, revision)),
        s.inspect_proposal(id) == Some(current),
    ensures
        revision.record == RecordRef::Proposal(id) && revision.state == state && revision.revision
            == expected_revision + 1,
        lookup(after.proposals, revision_of(id.0, revision.revision)) matches Some(header) && {
            &&& header.status == (match state {
                RecordState::Unsupported => ProposalStatus::Stale,
                RecordState::Retracted => ProposalStatus::Rejected,
                _ => current.header.status,
            })
            &&& header.state == state
            &&& header.revision == expected_revision + 1 && header.previous_revision == Some(expected_revision)
            &&& header.scope == current.header.scope && header.source_job_id == current.header.source_job_id
            &&& header.operation_id == operation_id && header.recorded_at_ms == recorded_at_ms
        },
        lookup(after.heads, RecordRef::Proposal(id)) == Some(revision.revision),
        current.header.status is PendingReview ==> !after.pending_proposals.contains_key(id),
        current.header.status is ReviewedApprove || current.header.status is ReviewedReject || current.header.status
            is NeedsUser ==> !after.awaiting_adjudication.contains_key(id),
{
    reveal(StoreModel::appended);
    reveal(StoreModel::next_revision);
    reveal(StoreModel::unlisted_proposal);
    broadcast use crate::writing::parts_after_put;
}

/// A further revision of a claim, an entity or a relation is what it was, in another state:
/// everything but the state, the revision and who made it when stays.
pub proof fn further_revisions_keep_the_rest(
    s: StoreModel,
    staged: StoreModel,
    record: RecordRef,
    expected_revision: u64,
    state: RecordState,
    operation_id: OperationId,
    recorded_at_ms: i64,
    after: StoreModel,
    revision: RecordRevision,
)
    requires
        s.appended(staged, record, expected_revision, state, operation_id, recorded_at_ms) == MemoryResult::Ok(
            (after, revision),
        ),
    ensures
        s.standing(record) matches Ok((_, _, actual)) && actual == expected_revision,
        revision == (RecordRevision { record, revision: (expected_revision + 1) as u64, state }),
        lookup(after.heads, record) == Some(revision.revision),
        match record {
            RecordRef::Claim(id) => {
                let was = s.inspect_claim(id)->Ok_0->Some_0.header;
                lookup(after.claims, revision_of(id.0, revision.revision)) == Some(
                    ClaimRevisionHeaderModel {
                        id: was.id,
                        revision: revision.revision,
                        previous_revision: Some(expected_revision),
                        domain: was.domain,
                        scope: was.scope,
                        temporal: was.temporal,
                        evidence_ids: was.evidence_ids,
                        state,
                        recorded_at_ms,
                        operation_id,
                    },
                )
            },
            RecordRef::Entity(id) => {
                let was = s.inspect_entity(id)->Ok_0->Some_0.header;
                lookup(after.entities, revision_of(id.0, revision.revision)) == Some(
                    EntityRevisionHeaderModel {
                        id: was.id,
                        revision: revision.revision,
                        previous_revision: Some(expected_revision),
                        kind: was.kind,
                        scope: was.scope,
                        temporal: was.temporal,
                        evidence_ids: was.evidence_ids,
                        state,
                        recorded_at_ms,
                        operation_id,
                    },
                )
            },
            RecordRef::SemanticRelation(id) => {
                let was = s.inspect_semantic_relation(id)->Ok_0->Some_0.header;
                lookup(after.relations, revision_of(id.0, revision.revision)) == Some(
                    SemanticRelationRevisionHeaderModel {
                        id: was.id,
                        revision: revision.revision,
                        previous_revision: Some(expected_revision),
                        from: was.from,
                        to: was.to,
                        kind: was.kind,
                        scope: was.scope,
                        evidence_ids: was.evidence_ids,
                        state,
                        recorded_at_ms,
                        operation_id,
                    },
                )
            },
            RecordRef::Evidence(id) => lookup(
                after.evidence_availability,
                revision_of(id.0, revision.revision),
            ) == Some(
                EvidenceAvailabilityRevision {
                    evidence_id: id,
                    revision: revision.revision,
                    state,
                    recorded_at_ms,
                    operation_id,
                },
            ),
            _ => true,
        },
{
    reveal(StoreModel::appended);
    reveal(StoreModel::next_revision);
    broadcast use crate::writing::parts_after_put;
}

} // verus!
