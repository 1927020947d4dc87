//! What one change makes of each part of a store.

use vstd::prelude::*;
use crate::store::{StoreModel, WriteModel};

verus! {

/// Each part of a store after one change. A proof that follows a part through many changes
/// goes by these and need not look at the other parts.
pub broadcast group parts_after_put {
    put_keeps_era,
    put_keeps_key,
    put_evidence,
    put_evidence_availability,
    put_heads,
    put_claims,
    put_entities,
    put_relations,
    put_proposals,
    put_proposal_sources,
    put_pending_proposals,
    put_awaiting_adjudication,
    put_proposal_reviews,
    put_latest_proposal_review,
    put_recall_feedback,
    put_artifact_collections,
    put_artifact_collection_availability,
    put_artifact_snapshots,
    put_artifact_snapshot_availability,
    put_artifact_snapshot_blobs,
    put_artifact_passages,
    put_artifact_passage_availability,
    put_artifact_passage_ordinals,
    put_artifact_by_evidence,
    put_texts,
    put_entity_payloads,
    put_relation_payloads,
    put_proposal_payloads,
    put_review_payloads,
    put_snapshot_payloads,
    put_lexical_docs,
    put_lexical_postings,
    put_time_index,
    put_dependencies,
    put_recall_cases,
    put_relation_evaluators,
    put_relation_evaluator_heads,
    put_relation_profiles,
    put_relation_profile_heads,
    put_relation_signals,
    put_relation_signal_heads,
    put_relation_signal_payloads,
    put_relation_signal_pairs,
    put_relation_signals_by_record,
    put_relation_signals_by_evaluator,
    put_relation_signals_by_profile,
    put_activation_traces,
    put_activation_trace_payloads,
    put_activation_traces_by_record,
    put_activation_traces_by_evaluator,
    put_activation_traces_by_profile,
    put_audit,
    put_operations,
}

pub broadcast proof fn put_keeps_era(s: StoreModel, write: WriteModel)
    ensures
        (#[trigger] s.put(write).era_id) == s.era_id,
{
    reveal(StoreModel::put);
}

pub broadcast proof fn put_keeps_key(s: StoreModel, write: WriteModel)
    ensures
        (#[trigger] s.put(write).digest_key) == s.digest_key,
{
    reveal(StoreModel::put);
}

pub broadcast proof fn put_evidence(s: StoreModel, write: WriteModel)
    ensures
        (#[trigger] s.put(write).evidence) == (match write {
            WriteModel::PutEvidence(key, value) => s.evidence.insert(key, value),
            _ => s.evidence,
        }),
{
    reveal(StoreModel::put);
}

pub broadcast proof fn put_evidence_availability(s: StoreModel, write: WriteModel)
    ensures
        (#[trigger] s.put(write).evidence_availability) == (match write {
            WriteModel::PutEvidenceAvailability(key, value) => s.evidence_availability.insert(key, value),
            _ => s.evidence_availability,
        }),
{
    reveal(StoreModel::put);
}

pub broadcast proof fn put_heads(s: StoreModel, write: WriteModel)
    ensures
        (#[trigger] s.put(write).heads) == (match write {
            WriteModel::PutHead(key, value) => s.heads.insert(key, value),
            _ => s.heads,
        }),
{
    reveal(StoreModel::put);
}

pub broadcast proof fn put_claims(s: StoreModel, write: WriteModel)
    ensures
        (#[trigger] s.put(write).claims) == (match write {
            WriteModel::PutClaim(key, value) => s.claims.insert(key, value),
            _ => s.claims,
        }),
{
    reveal(StoreModel::put);
}

pub broadcast proof fn put_entities(s: StoreModel, write: WriteModel)
    ensures
        (#[trigger] s.put(write).entities) == (match write {
            WriteModel::PutEntity(key, value) => s.entities.insert(key, value),
            _ => s.entities,
        }),
{
    reveal(StoreModel::put);
}

pub broadcast proof fn put_relations(s: StoreModel, write: WriteModel)
    ensures
        (#[trigger] s.put(write).relations) == (match write {
            WriteModel::PutRelation(key, value) => s.relations.insert(key, value),
            _ => s.relations,
        }),
{
    reveal(StoreModel::put);
}

pub broadcast proof fn put_proposals(s: StoreModel, write: WriteModel)
    ensures
        (#[trigger] s.put(write).proposals) == (match write {
            WriteModel::PutProposal(key, value) => s.proposals.insert(key, value),
            _ => s.proposals,
        }),
{
    reveal(StoreModel::put);
}

pub broadcast proof fn put_proposal_sources(s: StoreModel, write: WriteModel)
    ensures
        (#[trigger] s.put(write).proposal_sources) == (match write {
            WriteModel::PutProposalSource(key, value) => s.proposal_sources.insert(key, value),
            _ => s.proposal_sources,
        }),
{
    reveal(StoreModel::put);
}

pub broadcast proof fn put_pending_proposals(s: StoreModel, write: WriteModel)
    ensures
        (#[trigger] s.put(write).pending_proposals) == (match write {
            WriteModel::PutPending(key) => s.pending_proposals.insert(key, ()),
            WriteModel::DropPending(key) => s.pending_proposals.remove(key),
            _ => s.pending_proposals,
        }),
{
    reveal(StoreModel::put);
}

pub broadcast proof fn put_awaiting_adjudication(s: StoreModel, write: WriteModel)
    ensures
        (#[trigger] s.put(write).awaiting_adjudication) == (match write {
            WriteModel::PutAwaiting(key) => s.awaiting_adjudication.insert(key, ()),
            WriteModel::DropAwaiting(key) => s.awaiting_adjudication.remove(key),
            _ => s.awaiting_adjudication,
        }),
{
    reveal(StoreModel::put);
}

pub broadcast proof fn put_proposal_reviews(s: StoreModel, write: WriteModel)
    ensures
        (#[trigger] s.put(write).proposal_reviews) == (match write {
            WriteModel::PutReview(key, value) => s.proposal_reviews.insert(key, value),
            _ => s.proposal_reviews,
        }),
{
    reveal(StoreModel::put);
}

pub broadcast proof fn put_latest_proposal_review(s: StoreModel, write: WriteModel)
    ensures
        (#[trigger] s.put(write).latest_proposal_review) == (match write {
            WriteModel::PutLatestReview(key, value) => s.latest_proposal_review.insert(key, value),
            _ => s.latest_proposal_review,
        }),
{
    reveal(StoreModel::put);
}

pub broadcast proof fn put_recall_feedback(s: StoreModel, write: WriteModel)
    ensures
        (#[trigger] s.put(write).recall_feedback) == (match write {
            WriteModel::PutFeedback(key, value) => s.recall_feedback.insert(key, value),
            _ => s.recall_feedback,
        }),
{
    reveal(StoreModel::put);
}

pub broadcast proof fn put_artifact_collections(s: StoreModel, write: WriteModel)
    ensures
        (#[trigger] s.put(write).artifact_collections) == (match write {
            WriteModel::PutCollection(key, value) => s.artifact_collections.insert(key, value),
            _ => s.artifact_collections,
        }),
{
    reveal(StoreModel::put);
}

pub broadcast proof fn put_artifact_collection_availability(s: StoreModel, write: WriteModel)
    ensures
        (#[trigger] s.put(write).artifact_collection_availability) == (match write {
            WriteModel::PutCollectionAvailability(key, value) => s.artifact_collection_availability.insert(key, value),
            _ => s.artifact_collection_availability,
        }),
{
    reveal(StoreModel::put);
}

pub broadcast proof fn put_artifact_snapshots(s: StoreModel, write: WriteModel)
    ensures
        (#[trigger] s.put(write).artifact_snapshots) == (match write {
            WriteModel::PutSnapshot(key, value) => s.artifact_snapshots.insert(key, value),
            _ => s.artifact_snapshots,
        }),
{
    reveal(StoreModel::put);
}

pub broadcast proof fn put_artifact_snapshot_availability(s: StoreModel, write: WriteModel)
    ensures
        (#[trigger] s.put(write).artifact_snapshot_availability) == (match write {
            WriteModel::PutSnapshotAvailability(key, value) => s.artifact_snapshot_availability.insert(key, value),
            _ => s.artifact_snapshot_availability,
        }),
{
    reveal(StoreModel::put);
}

pub broadcast proof fn put_artifact_snapshot_blobs(s: StoreModel, write: WriteModel)
    ensures
        (#[trigger] s.put(write).artifact_snapshot_blobs) == (match write {
            WriteModel::PutBlob(key, value) => s.artifact_snapshot_blobs.insert(key, value),
            WriteModel::DropBlob(key) => s.artifact_snapshot_blobs.remove(key),
            _ => s.artifact_snapshot_blobs,
        }),
{
    reveal(StoreModel::put);
}

pub broadcast proof fn put_artifact_passages(s: StoreModel, write: WriteModel)
    ensures
        (#[trigger] s.put(write).artifact_passages) == (match write {
            WriteModel::PutPassage(key, value) => s.artifact_passages.insert(key, value),
            _ => s.artifact_passages,
        }),
{
    reveal(StoreModel::put);
}

pub broadcast proof fn put_artifact_passage_availability(s: StoreModel, write: WriteModel)
    ensures
        (#[trigger] s.put(write).artifact_passage_availability) == (match write {
            WriteModel::PutPassageAvailability(key, value) => s.artifact_passage_availability.insert(key, value),
            _ => s.artifact_passage_availability,
        }),
{
    reveal(StoreModel::put);
}

pub broadcast proof fn put_artifact_passage_ordinals(s: StoreModel, write: WriteModel)
    ensures
        (#[trigger] s.put(write).artifact_passage_ordinals) == (match write {
            WriteModel::PutOrdinal(key, value) => s.artifact_passage_ordinals.insert(key, value),
            _ => s.artifact_passage_ordinals,
        }),
{
    reveal(StoreModel::put);
}

pub broadcast proof fn put_artifact_by_evidence(s: StoreModel, write: WriteModel)
    ensures
        (#[trigger] s.put(write).artifact_by_evidence) == (match write {
            WriteModel::PutProvenance(key, value) => s.artifact_by_evidence.insert(key, value),
            _ => s.artifact_by_evidence,
        }),
{
    reveal(StoreModel::put);
}

pub broadcast proof fn put_texts(s: StoreModel, write: WriteModel)
    ensures
        (#[trigger] s.put(write).texts) == (match write {
            WriteModel::PutText(key, value) => s.texts.insert(key, value),
            WriteModel::DropText(key) => s.texts.remove(key),
            _ => s.texts,
        }),
{
    reveal(StoreModel::put);
}

pub broadcast proof fn put_entity_payloads(s: StoreModel, write: WriteModel)
    ensures
        (#[trigger] s.put(write).entity_payloads) == (match write {
            WriteModel::PutEntityPayload(key, value) => s.entity_payloads.insert(key, value),
            WriteModel::DropEntityPayload(key) => s.entity_payloads.remove(key),
            _ => s.entity_payloads,
        }),
{
    reveal(StoreModel::put);
}

pub broadcast proof fn put_relation_payloads(s: StoreModel, write: WriteModel)
    ensures
        (#[trigger] s.put(write).relation_payloads) == (match write {
            WriteModel::PutRelationPayload(key, value) => s.relation_payloads.insert(key, value),
            WriteModel::DropRelationPayload(key) => s.relation_payloads.remove(key),
            _ => s.relation_payloads,
        }),
{
    reveal(StoreModel::put);
}

pub broadcast proof fn put_proposal_payloads(s: StoreModel, write: WriteModel)
    ensures
        (#[trigger] s.put(write).proposal_payloads) == (match write {
            WriteModel::PutProposalPayload(key, value) => s.proposal_payloads.insert(key, value),
            WriteModel::DropProposalPayload(key) => s.proposal_payloads.remove(key),
            _ => s.proposal_payloads,
        }),
{
    reveal(StoreModel::put);
}

pub broadcast proof fn put_review_payloads(s: StoreModel, write: WriteModel)
    ensures
        (#[trigger] s.put(write).review_payloads) == (match write {
            WriteModel::PutReviewPayload(key, value) => s.review_payloads.insert(key, value),
            WriteModel::DropReviewPayload(key) => s.review_payloads.remove(key),
            _ => s.review_payloads,
        }),
{
    reveal(StoreModel::put);
}

pub broadcast proof fn put_snapshot_payloads(s: StoreModel, write: WriteModel)
    ensures
        (#[trigger] s.put(write).snapshot_payloads) == (match write {
            WriteModel::PutSnapshotPayload(key, value) => s.snapshot_payloads.insert(key, value),
            WriteModel::DropSnapshotPayload(key) => s.snapshot_payloads.remove(key),
            _ => s.snapshot_payloads,
        }),
{
    reveal(StoreModel::put);
}

pub broadcast proof fn put_lexical_docs(s: StoreModel, write: WriteModel)
    ensures
        (#[trigger] s.put(write).lexical_docs) == (match write {
            WriteModel::PutLexicalDoc(key, value) => s.lexical_docs.insert(key, value),
            WriteModel::DropLexicalDoc(key) => s.lexical_docs.remove(key),
            _ => s.lexical_docs,
        }),
{
    reveal(StoreModel::put);
}

pub broadcast proof fn put_lexical_postings(s: StoreModel, write: WriteModel)
    ensures
        (#[trigger] s.put(write).lexical_postings) == (match write {
            WriteModel::PutPosting(key) => s.lexical_postings.insert(key, ()),
            WriteModel::DropPosting(key) => s.lexical_postings.remove(key),
            _ => s.lexical_postings,
        }),
{
    reveal(StoreModel::put);
}

pub broadcast proof fn put_time_index(s: StoreModel, write: WriteModel)
    ensures
        (#[trigger] s.put(write).time_index) == (match write {
            WriteModel::PutTime(key) => s.time_index.insert(key, ()),
            WriteModel::DropTime(key) => s.time_index.remove(key),
            _ => s.time_index,
        }),
{
    reveal(StoreModel::put);
}

pub broadcast proof fn put_dependencies(s: StoreModel, write: WriteModel)
    ensures
        (#[trigger] s.put(write).dependencies) == (match write {
            WriteModel::PutDependency(key) => s.dependencies.insert(key, ()),
            _ => s.dependencies,
        }),
{
    reveal(StoreModel::put);
}

pub broadcast proof fn put_recall_cases(s: StoreModel, write: WriteModel)
    ensures
        (#[trigger] s.put(write).recall_cases) == (match write {
            WriteModel::PutRecallCase(key, value) => s.recall_cases.insert(key, value),
            _ => s.recall_cases,
        }),
{
    reveal(StoreModel::put);
}

pub broadcast proof fn put_relation_evaluators(s: StoreModel, write: WriteModel)
    ensures
        (#[trigger] s.put(write).relation_evaluators) == (match write {
            WriteModel::PutEvaluator(key, value) => s.relation_evaluators.insert(key, value),
            _ => s.relation_evaluators,
        }),
{
    reveal(StoreModel::put);
}

pub broadcast proof fn put_relation_evaluator_heads(s: StoreModel, write: WriteModel)
    ensures
        (#[trigger] s.put(write).relation_evaluator_heads) == (match write {
            WriteModel::PutEvaluatorHead(key, value) => s.relation_evaluator_heads.insert(key, value),
            _ => s.relation_evaluator_heads,
        }),
{
    reveal(StoreModel::put);
}

pub broadcast proof fn put_relation_profiles(s: StoreModel, write: WriteModel)
    ensures
        (#[trigger] s.put(write).relation_profiles) == (match write {
            WriteModel::PutProfile(key, value) => s.relation_profiles.insert(key, value),
            _ => s.relation_profiles,
        }),
{
    reveal(StoreModel::put);
}

pub broadcast proof fn put_relation_profile_heads(s: StoreModel, write: WriteModel)
    ensures
        (#[trigger] s.put(write).relation_profile_heads) == (match write {
            WriteModel::PutProfileHead(key, value) => s.relation_profile_heads.insert(key, value),
            _ => s.relation_profile_heads,
        }),
{
    reveal(StoreModel::put);
}

pub broadcast proof fn put_relation_signals(s: StoreModel, write: WriteModel)
    ensures
        (#[trigger] s.put(write).relation_signals) == (match write {
            WriteModel::PutSignal(key, value) => s.relation_signals.insert(key, value),
            _ => s.relation_signals,
        }),
{
    reveal(StoreModel::put);
}

pub broadcast proof fn put_relation_signal_heads(s: StoreModel, write: WriteModel)
    ensures
        (#[trigger] s.put(write).relation_signal_heads) == (match write {
            WriteModel::PutSignalHead(key, value) => s.relation_signal_heads.insert(key, value),
            _ => s.relation_signal_heads,
        }),
{
    reveal(StoreModel::put);
}

pub broadcast proof fn put_relation_signal_payloads(s: StoreModel, write: WriteModel)
    ensures
        (#[trigger] s.put(write).relation_signal_payloads) == (match write {
            WriteModel::PutSignalPayload(key, value) => s.relation_signal_payloads.insert(key, value),
            WriteModel::DropSignalPayload(key) => s.relation_signal_payloads.remove(key),
            _ => s.relation_signal_payloads,
        }),
{
    reveal(StoreModel::put);
}

pub broadcast proof fn put_relation_signal_pairs(s: StoreModel, write: WriteModel)
    ensures
        (#[trigger] s.put(write).relation_signal_pairs) == (match write {
            WriteModel::PutSignalPair(key, value) => s.relation_signal_pairs.insert(key, value),
            _ => s.relation_signal_pairs,
        }),
{
    reveal(StoreModel::put);
}

pub broadcast proof fn put_relation_signals_by_record(s: StoreModel, write: WriteModel)
    ensures
        (#[trigger] s.put(write).relation_signals_by_record) == (match write {
            WriteModel::PutSignalByRecord(key) => s.relation_signals_by_record.insert(key, ()),
            _ => s.relation_signals_by_record,
        }),
{
    reveal(StoreModel::put);
}

pub broadcast proof fn put_relation_signals_by_evaluator(s: StoreModel, write: WriteModel)
    ensures
        (#[trigger] s.put(write).relation_signals_by_evaluator) == (match write {
            WriteModel::PutSignalByEvaluator(key) => s.relation_signals_by_evaluator.insert(key, ()),
            WriteModel::DropSignalByEvaluator(key) => s.relation_signals_by_evaluator.remove(key),
            _ => s.relation_signals_by_evaluator,
        }),
{
    reveal(StoreModel::put);
}

pub broadcast proof fn put_relation_signals_by_profile(s: StoreModel, write: WriteModel)
    ensures
        (#[trigger] s.put(write).relation_signals_by_profile) == (match write {
            WriteModel::PutSignalByProfile(key) => s.relation_signals_by_profile.insert(key, ()),
            _ => s.relation_signals_by_profile,
        }),
{
    reveal(StoreModel::put);
}

pub broadcast proof fn put_activation_traces(s: StoreModel, write: WriteModel)
    ensures
        (#[trigger] s.put(write).activation_traces) == (match write {
            WriteModel::PutTrace(key, value) => s.activation_traces.insert(key, value),
            _ => s.activation_traces,
        }),
{
    reveal(StoreModel::put);
}

pub broadcast proof fn put_activation_trace_payloads(s: StoreModel, write: WriteModel)
    ensures
        (#[trigger] s.put(write).activation_trace_payloads) == (match write {
            WriteModel::PutTracePayload(key, value) => s.activation_trace_payloads.insert(key, value),
            WriteModel::DropTracePayload(key) => s.activation_trace_payloads.remove(key),
            _ => s.activation_trace_payloads,
        }),
{
    reveal(StoreModel::put);
}

pub broadcast proof fn put_activation_traces_by_record(s: StoreModel, write: WriteModel)
    ensures
        (#[trigger] s.put(write).activation_traces_by_record) == (match write {
            WriteModel::PutTraceByRecord(key) => s.activation_traces_by_record.insert(key, ()),
            _ => s.activation_traces_by_record,
        }),
{
    reveal(StoreModel::put);
}

pub broadcast proof fn put_activation_traces_by_evaluator(s: StoreModel, write: WriteModel)
    ensures
        (#[trigger] s.put(write).activation_traces_by_evaluator) == (match write {
            WriteModel::PutTraceByEvaluator(key) => s.activation_traces_by_evaluator.insert(key, ()),
            _ => s.activation_traces_by_evaluator,
        }),
{
    reveal(StoreModel::put);
}

pub broadcast proof fn put_activation_traces_by_profile(s: StoreModel, write: WriteModel)
    ensures
        (#[trigger] s.put(write).activation_traces_by_profile) == (match write {
            WriteModel::PutTraceByProfile(key) => s.activation_traces_by_profile.insert(key, ()),
            _ => s.activation_traces_by_profile,
        }),
{
    reveal(StoreModel::put);
}

pub broadcast proof fn put_audit(s: StoreModel, write: WriteModel)
    ensures
        (#[trigger] s.put(write).audit) == (match write {
            WriteModel::PutAudit(key, value) => s.audit.insert(key, value),
            _ => s.audit,
        }),
{
    reveal(StoreModel::put);
}

pub broadcast proof fn put_operations(s: StoreModel, write: WriteModel)
    ensures
        (#[trigger] s.put(write).operations) == (match write {
            WriteModel::PutOperation(key, value) => s.operations.insert(key, value),
            _ => s.operations,
        }),
{
    reveal(StoreModel::put);
}

} // verus!
