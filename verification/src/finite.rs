//! That what a store holds is finite.
use vstd::prelude::*;
use crate::store::{MemoryDatabase, StoreModel};

verus! {

impl StoreModel {
    /// Whether every table of a store holds finitely many entries.
    pub open spec fn is_finite(self) -> bool {
        &&& self.evidence.dom().finite()
        &&& self.evidence_availability.dom().finite()
        &&& self.heads.dom().finite()
        &&& self.claims.dom().finite()
        &&& self.entities.dom().finite()
        &&& self.relations.dom().finite()
        &&& self.proposals.dom().finite()
        &&& self.proposal_sources.dom().finite()
        &&& self.pending_proposals.dom().finite()
        &&& self.awaiting_adjudication.dom().finite()
        &&& self.proposal_reviews.dom().finite()
        &&& self.latest_proposal_review.dom().finite()
        &&& self.recall_feedback.dom().finite()
        &&& self.artifact_collections.dom().finite()
        &&& self.artifact_collection_availability.dom().finite()
        &&& self.artifact_snapshots.dom().finite()
        &&& self.artifact_snapshot_availability.dom().finite()
        &&& self.artifact_snapshot_blobs.dom().finite()
        &&& self.artifact_passages.dom().finite()
        &&& self.artifact_passage_availability.dom().finite()
        &&& self.artifact_passage_ordinals.dom().finite()
        &&& self.artifact_by_evidence.dom().finite()
        &&& self.texts.dom().finite()
        &&& self.entity_payloads.dom().finite()
        &&& self.relation_payloads.dom().finite()
        &&& self.proposal_payloads.dom().finite()
        &&& self.review_payloads.dom().finite()
        &&& self.snapshot_payloads.dom().finite()
        &&& self.lexical_docs.dom().finite()
        &&& self.lexical_postings.dom().finite()
        &&& self.time_index.dom().finite()
        &&& self.dependencies.dom().finite()
        &&& self.recall_cases.dom().finite()
        &&& self.relation_evaluators.dom().finite()
        &&& self.relation_evaluator_heads.dom().finite()
        &&& self.relation_profiles.dom().finite()
        &&& self.relation_profile_heads.dom().finite()
        &&& self.relation_signals.dom().finite()
        &&& self.relation_signal_heads.dom().finite()
        &&& self.relation_signal_payloads.dom().finite()
        &&& self.relation_signal_pairs.dom().finite()
        &&& self.relation_signals_by_record.dom().finite()
        &&& self.relation_signals_by_evaluator.dom().finite()
        &&& self.relation_signals_by_profile.dom().finite()
        &&& self.activation_traces.dom().finite()
        &&& self.activation_trace_payloads.dom().finite()
        &&& self.activation_traces_by_record.dom().finite()
        &&& self.activation_traces_by_evaluator.dom().finite()
        &&& self.activation_traces_by_profile.dom().finite()
        &&& self.audit.dom().finite()
        &&& self.operations.dom().finite()
    }
}

impl MemoryDatabase {
    /// A store holds finitely many entries, whatever table they are in.
    pub proof fn is_finite(&self)
        ensures
            self@.is_finite(),
    {
        self.evidence.is_finite();
        self.evidence_availability.is_finite();
        self.heads.is_finite();
        self.claims.is_finite();
        self.entities.is_finite();
        self.relations.is_finite();
        self.proposals.is_finite();
        self.proposal_sources.is_finite();
        self.pending_proposals.is_finite();
        self.awaiting_adjudication.is_finite();
        self.proposal_reviews.is_finite();
        self.latest_proposal_review.is_finite();
        self.recall_feedback.is_finite();
        self.artifact_collections.is_finite();
        self.artifact_collection_availability.is_finite();
        self.artifact_snapshots.is_finite();
        self.artifact_snapshot_availability.is_finite();
        self.artifact_snapshot_blobs.is_finite();
        self.artifact_passages.is_finite();
        self.artifact_passage_availability.is_finite();
        self.artifact_passage_ordinals.is_finite();
        self.artifact_by_evidence.is_finite();
        self.texts.is_finite();
        self.entity_payloads.is_finite();
        self.relation_payloads.is_finite();
        self.proposal_payloads.is_finite();
        self.review_payloads.is_finite();
        self.snapshot_payloads.is_finite();
        self.lexical_docs.is_finite();
        self.lexical_postings.is_finite();
        self.time_index.is_finite();
        self.dependencies.is_finite();
        self.recall_cases.is_finite();
        self.relation_evaluators.is_finite();
        self.relation_evaluator_heads.is_finite();
        self.relation_profiles.is_finite();
        self.relation_profile_heads.is_finite();
        self.relation_signals.is_finite();
        self.relation_signal_heads.is_finite();
        self.relation_signal_payloads.is_finite();
        self.relation_signal_pairs.is_finite();
        self.relation_signals_by_record.is_finite();
        self.relation_signals_by_evaluator.is_finite();
        self.relation_signals_by_profile.is_finite();
        self.activation_traces.is_finite();
        self.activation_trace_payloads.is_finite();
        self.activation_traces_by_record.is_finite();
        self.activation_traces_by_evaluator.is_finite();
        self.activation_traces_by_profile.is_finite();
        self.audit.is_finite();
        self.operations.is_finite();
    }
}

} // verus!
