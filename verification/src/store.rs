//! The tables of a store, and how they change.
use vstd::prelude::*;
use crate::ids::{
    ActivationTraceId, ArtifactCollectionId, ArtifactPassageId, ArtifactSnapshotId, EntityId,
    EraId, EvidenceId, OperationId, ProposalId, ProposalReviewCaseId, ProposalSourceJobId,
    RecallCaseId, RecallFeedbackId, RelationEvaluatorId, RelationId, RelationProfileId,
    RelationSignalId,
};
use crate::keys::{
    AuditKey, DependencyKey, OrdinalKey, OwnerIndexKey, PairKey, PostingKey, RecordIndexKey,
    RevisionKey, TimeKey,
};
use crate::records::artifact::{
    ArtifactAvailabilityRevision, ArtifactCollectionHeader, ArtifactEvidenceProvenance,
    ArtifactPassageHeader, ArtifactSnapshotHeader,
};
use crate::records::audit::{
    ArtifactSnapshotPayload, ArtifactSnapshotPayloadModel, AuditEvent, AuditEventModel,
    LexicalDocument, LexicalDocumentModel, RelationPayload, RelationPayloadModel,
};
use crate::records::claim::{
    ClaimRevisionHeader, ClaimRevisionHeaderModel, EntityPayload, EntityPayloadModel,
    EntityRevisionHeader, EntityRevisionHeaderModel, SemanticRelationRevisionHeader,
    SemanticRelationRevisionHeaderModel,
};
use crate::records::evidence::{EvidenceAvailabilityRevision, EvidenceHeader, RecordRef};
use crate::records::proposal::{
    ProposalPayload, ProposalPayloadModel, ProposalReviewCaseHeader, ProposalReviewPayload,
    ProposalReviewPayloadModel, ProposalReviewPointer, ProposalRevisionHeader,
    ProposalSourceIndex, RecallFeedback,
};
use crate::records::recall::{RecallCase, RecallCaseModel};
use crate::records::receipt::{StoredOperation, StoredOperationModel};
use crate::records::relation::{
    ActivationTraceHeader, ActivationTracePayload, ActivationTracePayloadModel,
    RelationEvaluatorRevisionHeader, RelationEvaluatorRevisionHeaderModel,
    RelationProfileRevisionHeader, RelationProfileRevisionHeaderModel, RelationSignalPayload,
    RelationSignalPayloadModel, RelationSignalRevisionHeader,
};
use crate::table::{Table, views, views_of_empty, views_of_push};

verus! {

/// One change of one table.
pub enum Write {
    PutEvidence(EvidenceId, EvidenceHeader),
    PutEvidenceAvailability(RevisionKey, EvidenceAvailabilityRevision),
    PutHead(RecordRef, u64),
    PutClaim(RevisionKey, ClaimRevisionHeader),
    PutEntity(RevisionKey, EntityRevisionHeader),
    PutRelation(RevisionKey, SemanticRelationRevisionHeader),
    PutProposal(RevisionKey, ProposalRevisionHeader),
    PutProposalSource(ProposalSourceJobId, ProposalSourceIndex),
    PutPending(ProposalId),
    DropPending(ProposalId),
    PutAwaiting(ProposalId),
    DropAwaiting(ProposalId),
    PutReview(RevisionKey, ProposalReviewCaseHeader),
    PutLatestReview(ProposalId, ProposalReviewPointer),
    PutFeedback(RecallFeedbackId, RecallFeedback),
    PutCollection(ArtifactCollectionId, ArtifactCollectionHeader),
    PutCollectionAvailability(RevisionKey, ArtifactAvailabilityRevision<ArtifactCollectionId>),
    PutSnapshot(ArtifactSnapshotId, ArtifactSnapshotHeader),
    PutSnapshotAvailability(RevisionKey, ArtifactAvailabilityRevision<ArtifactSnapshotId>),
    PutBlob(ArtifactSnapshotId, Vec<u8>),
    DropBlob(ArtifactSnapshotId),
    PutPassage(ArtifactPassageId, ArtifactPassageHeader),
    PutPassageAvailability(RevisionKey, ArtifactAvailabilityRevision<ArtifactPassageId>),
    PutOrdinal(OrdinalKey, ArtifactPassageId),
    PutProvenance(EvidenceId, ArtifactEvidenceProvenance),
    PutText(RecordRef, String),
    DropText(RecordRef),
    PutEntityPayload(EntityId, EntityPayload),
    DropEntityPayload(EntityId),
    PutRelationPayload(RelationId, RelationPayload),
    DropRelationPayload(RelationId),
    PutProposalPayload(ProposalId, ProposalPayload),
    DropProposalPayload(ProposalId),
    PutReviewPayload(ProposalReviewCaseId, ProposalReviewPayload),
    DropReviewPayload(ProposalReviewCaseId),
    PutSnapshotPayload(ArtifactSnapshotId, ArtifactSnapshotPayload),
    DropSnapshotPayload(ArtifactSnapshotId),
    PutLexicalDoc(RecordRef, LexicalDocument),
    DropLexicalDoc(RecordRef),
    PutPosting(PostingKey),
    DropPosting(PostingKey),
    PutTime(TimeKey),
    DropTime(TimeKey),
    PutDependency(DependencyKey),
    PutRecallCase(RecallCaseId, RecallCase),
    PutEvaluator(RevisionKey, RelationEvaluatorRevisionHeader),
    PutEvaluatorHead(RelationEvaluatorId, u64),
    PutProfile(RevisionKey, RelationProfileRevisionHeader),
    PutProfileHead(RelationProfileId, u64),
    PutSignal(RevisionKey, RelationSignalRevisionHeader),
    PutSignalHead(RelationSignalId, u64),
    PutSignalPayload(RelationSignalId, RelationSignalPayload),
    DropSignalPayload(RelationSignalId),
    PutSignalPair(PairKey, RelationSignalId),
    PutSignalByRecord(RecordIndexKey),
    PutSignalByEvaluator(OwnerIndexKey),
    DropSignalByEvaluator(OwnerIndexKey),
    PutSignalByProfile(OwnerIndexKey),
    PutTrace(ActivationTraceId, ActivationTraceHeader),
    PutTracePayload(ActivationTraceId, ActivationTracePayload),
    DropTracePayload(ActivationTraceId),
    PutTraceByRecord(RecordIndexKey),
    PutTraceByEvaluator(OwnerIndexKey),
    PutTraceByProfile(OwnerIndexKey),
    PutAudit(AuditKey, AuditEvent),
    PutOperation(OperationId, StoredOperation),
}

/// What a [`Write`] does.
pub enum WriteModel {
    PutEvidence(EvidenceId, EvidenceHeader),
    PutEvidenceAvailability(RevisionKey, EvidenceAvailabilityRevision),
    PutHead(RecordRef, u64),
    PutClaim(RevisionKey, ClaimRevisionHeaderModel),
    PutEntity(RevisionKey, EntityRevisionHeaderModel),
    PutRelation(RevisionKey, SemanticRelationRevisionHeaderModel),
    PutProposal(RevisionKey, ProposalRevisionHeader),
    PutProposalSource(ProposalSourceJobId, ProposalSourceIndex),
    PutPending(ProposalId),
    DropPending(ProposalId),
    PutAwaiting(ProposalId),
    DropAwaiting(ProposalId),
    PutReview(RevisionKey, ProposalReviewCaseHeader),
    PutLatestReview(ProposalId, ProposalReviewPointer),
    PutFeedback(RecallFeedbackId, RecallFeedback),
    PutCollection(ArtifactCollectionId, ArtifactCollectionHeader),
    PutCollectionAvailability(RevisionKey, ArtifactAvailabilityRevision<ArtifactCollectionId>),
    PutSnapshot(ArtifactSnapshotId, ArtifactSnapshotHeader),
    PutSnapshotAvailability(RevisionKey, ArtifactAvailabilityRevision<ArtifactSnapshotId>),
    PutBlob(ArtifactSnapshotId, Seq<u8>),
    DropBlob(ArtifactSnapshotId),
    PutPassage(ArtifactPassageId, ArtifactPassageHeader),
    PutPassageAvailability(RevisionKey, ArtifactAvailabilityRevision<ArtifactPassageId>),
    PutOrdinal(OrdinalKey, ArtifactPassageId),
    PutProvenance(EvidenceId, ArtifactEvidenceProvenance),
    PutText(RecordRef, Seq<char>),
    DropText(RecordRef),
    PutEntityPayload(EntityId, EntityPayloadModel),
    DropEntityPayload(EntityId),
    PutRelationPayload(RelationId, RelationPayloadModel),
    DropRelationPayload(RelationId),
    PutProposalPayload(ProposalId, ProposalPayloadModel),
    DropProposalPayload(ProposalId),
    PutReviewPayload(ProposalReviewCaseId, ProposalReviewPayloadModel),
    DropReviewPayload(ProposalReviewCaseId),
    PutSnapshotPayload(ArtifactSnapshotId, ArtifactSnapshotPayloadModel),
    DropSnapshotPayload(ArtifactSnapshotId),
    PutLexicalDoc(RecordRef, LexicalDocumentModel),
    DropLexicalDoc(RecordRef),
    PutPosting(PostingKey),
    DropPosting(PostingKey),
    PutTime(TimeKey),
    DropTime(TimeKey),
    PutDependency(DependencyKey),
    PutRecallCase(RecallCaseId, RecallCaseModel),
    PutEvaluator(RevisionKey, RelationEvaluatorRevisionHeaderModel),
    PutEvaluatorHead(RelationEvaluatorId, u64),
    PutProfile(RevisionKey, RelationProfileRevisionHeaderModel),
    PutProfileHead(RelationProfileId, u64),
    PutSignal(RevisionKey, RelationSignalRevisionHeader),
    PutSignalHead(RelationSignalId, u64),
    PutSignalPayload(RelationSignalId, RelationSignalPayloadModel),
    DropSignalPayload(RelationSignalId),
    PutSignalPair(PairKey, RelationSignalId),
    PutSignalByRecord(RecordIndexKey),
    PutSignalByEvaluator(OwnerIndexKey),
    DropSignalByEvaluator(OwnerIndexKey),
    PutSignalByProfile(OwnerIndexKey),
    PutTrace(ActivationTraceId, ActivationTraceHeader),
    PutTracePayload(ActivationTraceId, ActivationTracePayloadModel),
    DropTracePayload(ActivationTraceId),
    PutTraceByRecord(RecordIndexKey),
    PutTraceByEvaluator(OwnerIndexKey),
    PutTraceByProfile(OwnerIndexKey),
    PutAudit(AuditKey, AuditEventModel),
    PutOperation(OperationId, StoredOperationModel),
}

impl View for Write {
    type V = WriteModel;

    open spec fn view(&self) -> WriteModel {
        match *self {
            Write::PutEvidence(key, value) => WriteModel::PutEvidence(key, value),
            Write::PutEvidenceAvailability(key, value) => WriteModel::PutEvidenceAvailability(key, value),
            Write::PutHead(key, value) => WriteModel::PutHead(key, value),
            Write::PutClaim(key, value) => WriteModel::PutClaim(key, value@),
            Write::PutEntity(key, value) => WriteModel::PutEntity(key, value@),
            Write::PutRelation(key, value) => WriteModel::PutRelation(key, value@),
            Write::PutProposal(key, value) => WriteModel::PutProposal(key, value),
            Write::PutProposalSource(key, value) => WriteModel::PutProposalSource(key, value),
            Write::PutPending(key) => WriteModel::PutPending(key),
            Write::DropPending(key) => WriteModel::DropPending(key),
            Write::PutAwaiting(key) => WriteModel::PutAwaiting(key),
            Write::DropAwaiting(key) => WriteModel::DropAwaiting(key),
            Write::PutReview(key, value) => WriteModel::PutReview(key, value),
            Write::PutLatestReview(key, value) => WriteModel::PutLatestReview(key, value),
            Write::PutFeedback(key, value) => WriteModel::PutFeedback(key, value),
            Write::PutCollection(key, value) => WriteModel::PutCollection(key, value),
            Write::PutCollectionAvailability(key, value) => WriteModel::PutCollectionAvailability(key, value),
            Write::PutSnapshot(key, value) => WriteModel::PutSnapshot(key, value),
            Write::PutSnapshotAvailability(key, value) => WriteModel::PutSnapshotAvailability(key, value),
            Write::PutBlob(key, value) => WriteModel::PutBlob(key, value@),
            Write::DropBlob(key) => WriteModel::DropBlob(key),
            Write::PutPassage(key, value) => WriteModel::PutPassage(key, value),
            Write::PutPassageAvailability(key, value) => WriteModel::PutPassageAvailability(key, value),
            Write::PutOrdinal(key, value) => WriteModel::PutOrdinal(key, value),
            Write::PutProvenance(key, value) => WriteModel::PutProvenance(key, value),
            Write::PutText(key, value) => WriteModel::PutText(key, value@),
            Write::DropText(key) => WriteModel::DropText(key),
            Write::PutEntityPayload(key, value) => WriteModel::PutEntityPayload(key, value@),
            Write::DropEntityPayload(key) => WriteModel::DropEntityPayload(key),
            Write::PutRelationPayload(key, value) => WriteModel::PutRelationPayload(key, value@),
            Write::DropRelationPayload(key) => WriteModel::DropRelationPayload(key),
            Write::PutProposalPayload(key, value) => WriteModel::PutProposalPayload(key, value@),
            Write::DropProposalPayload(key) => WriteModel::DropProposalPayload(key),
            Write::PutReviewPayload(key, value) => WriteModel::PutReviewPayload(key, value@),
            Write::DropReviewPayload(key) => WriteModel::DropReviewPayload(key),
            Write::PutSnapshotPayload(key, value) => WriteModel::PutSnapshotPayload(key, value@),
            Write::DropSnapshotPayload(key) => WriteModel::DropSnapshotPayload(key),
            Write::PutLexicalDoc(key, value) => WriteModel::PutLexicalDoc(key, value@),
            Write::DropLexicalDoc(key) => WriteModel::DropLexicalDoc(key),
            Write::PutPosting(key) => WriteModel::PutPosting(key),
            Write::DropPosting(key) => WriteModel::DropPosting(key),
            Write::PutTime(key) => WriteModel::PutTime(key),
            Write::DropTime(key) => WriteModel::DropTime(key),
            Write::PutDependency(key) => WriteModel::PutDependency(key),
            Write::PutRecallCase(key, value) => WriteModel::PutRecallCase(key, value@),
            Write::PutEvaluator(key, value) => WriteModel::PutEvaluator(key, value@),
            Write::PutEvaluatorHead(key, value) => WriteModel::PutEvaluatorHead(key, value),
            Write::PutProfile(key, value) => WriteModel::PutProfile(key, value@),
            Write::PutProfileHead(key, value) => WriteModel::PutProfileHead(key, value),
            Write::PutSignal(key, value) => WriteModel::PutSignal(key, value),
            Write::PutSignalHead(key, value) => WriteModel::PutSignalHead(key, value),
            Write::PutSignalPayload(key, value) => WriteModel::PutSignalPayload(key, value@),
            Write::DropSignalPayload(key) => WriteModel::DropSignalPayload(key),
            Write::PutSignalPair(key, value) => WriteModel::PutSignalPair(key, value),
            Write::PutSignalByRecord(key) => WriteModel::PutSignalByRecord(key),
            Write::PutSignalByEvaluator(key) => WriteModel::PutSignalByEvaluator(key),
            Write::DropSignalByEvaluator(key) => WriteModel::DropSignalByEvaluator(key),
            Write::PutSignalByProfile(key) => WriteModel::PutSignalByProfile(key),
            Write::PutTrace(key, value) => WriteModel::PutTrace(key, value),
            Write::PutTracePayload(key, value) => WriteModel::PutTracePayload(key, value@),
            Write::DropTracePayload(key) => WriteModel::DropTracePayload(key),
            Write::PutTraceByRecord(key) => WriteModel::PutTraceByRecord(key),
            Write::PutTraceByEvaluator(key) => WriteModel::PutTraceByEvaluator(key),
            Write::PutTraceByProfile(key) => WriteModel::PutTraceByProfile(key),
            Write::PutAudit(key, value) => WriteModel::PutAudit(key, value@),
            Write::PutOperation(key, value) => WriteModel::PutOperation(key, value@),
        }
    }
}

/// What a store holds.
pub struct StoreModel {
    pub era_id: EraId,
    pub digest_key: [u8; 32],
    pub evidence: Map<EvidenceId, EvidenceHeader>,
    pub evidence_availability: Map<RevisionKey, EvidenceAvailabilityRevision>,
    pub heads: Map<RecordRef, u64>,
    pub claims: Map<RevisionKey, ClaimRevisionHeaderModel>,
    pub entities: Map<RevisionKey, EntityRevisionHeaderModel>,
    pub relations: Map<RevisionKey, SemanticRelationRevisionHeaderModel>,
    pub proposals: Map<RevisionKey, ProposalRevisionHeader>,
    pub proposal_sources: Map<ProposalSourceJobId, ProposalSourceIndex>,
    pub pending_proposals: Map<ProposalId, ()>,
    pub awaiting_adjudication: Map<ProposalId, ()>,
    pub proposal_reviews: Map<RevisionKey, ProposalReviewCaseHeader>,
    pub latest_proposal_review: Map<ProposalId, ProposalReviewPointer>,
    pub recall_feedback: Map<RecallFeedbackId, RecallFeedback>,
    pub artifact_collections: Map<ArtifactCollectionId, ArtifactCollectionHeader>,
    pub artifact_collection_availability: Map<RevisionKey, ArtifactAvailabilityRevision<ArtifactCollectionId>>,
    pub artifact_snapshots: Map<ArtifactSnapshotId, ArtifactSnapshotHeader>,
    pub artifact_snapshot_availability: Map<RevisionKey, ArtifactAvailabilityRevision<ArtifactSnapshotId>>,
    pub artifact_snapshot_blobs: Map<ArtifactSnapshotId, Seq<u8>>,
    pub artifact_passages: Map<ArtifactPassageId, ArtifactPassageHeader>,
    pub artifact_passage_availability: Map<RevisionKey, ArtifactAvailabilityRevision<ArtifactPassageId>>,
    pub artifact_passage_ordinals: Map<OrdinalKey, ArtifactPassageId>,
    pub artifact_by_evidence: Map<EvidenceId, ArtifactEvidenceProvenance>,
    pub texts: Map<RecordRef, Seq<char>>,
    pub entity_payloads: Map<EntityId, EntityPayloadModel>,
    pub relation_payloads: Map<RelationId, RelationPayloadModel>,
    pub proposal_payloads: Map<ProposalId, ProposalPayloadModel>,
    pub review_payloads: Map<ProposalReviewCaseId, ProposalReviewPayloadModel>,
    pub snapshot_payloads: Map<ArtifactSnapshotId, ArtifactSnapshotPayloadModel>,
    pub lexical_docs: Map<RecordRef, LexicalDocumentModel>,
    pub lexical_postings: Map<PostingKey, ()>,
    pub time_index: Map<TimeKey, ()>,
    pub dependencies: Map<DependencyKey, ()>,
    pub recall_cases: Map<RecallCaseId, RecallCaseModel>,
    pub relation_evaluators: Map<RevisionKey, RelationEvaluatorRevisionHeaderModel>,
    pub relation_evaluator_heads: Map<RelationEvaluatorId, u64>,
    pub relation_profiles: Map<RevisionKey, RelationProfileRevisionHeaderModel>,
    pub relation_profile_heads: Map<RelationProfileId, u64>,
    pub relation_signals: Map<RevisionKey, RelationSignalRevisionHeader>,
    pub relation_signal_heads: Map<RelationSignalId, u64>,
    pub relation_signal_payloads: Map<RelationSignalId, RelationSignalPayloadModel>,
    pub relation_signal_pairs: Map<PairKey, RelationSignalId>,
    pub relation_signals_by_record: Map<RecordIndexKey, ()>,
    pub relation_signals_by_evaluator: Map<OwnerIndexKey, ()>,
    pub relation_signals_by_profile: Map<OwnerIndexKey, ()>,
    pub activation_traces: Map<ActivationTraceId, ActivationTraceHeader>,
    pub activation_trace_payloads: Map<ActivationTraceId, ActivationTracePayloadModel>,
    pub activation_traces_by_record: Map<RecordIndexKey, ()>,
    pub activation_traces_by_evaluator: Map<OwnerIndexKey, ()>,
    pub activation_traces_by_profile: Map<OwnerIndexKey, ()>,
    pub audit: Map<AuditKey, AuditEventModel>,
    pub operations: Map<OperationId, StoredOperationModel>,
}

impl StoreModel {
    /// The store after one change.
    #[verifier::opaque]
    pub open spec fn put(self, write: WriteModel) -> StoreModel {
        match write {
            WriteModel::PutEvidence(key, value) => StoreModel { evidence: self.evidence.insert(key, value), ..self },
            WriteModel::PutEvidenceAvailability(key, value) => StoreModel { evidence_availability: self.evidence_availability.insert(key, value), ..self },
            WriteModel::PutHead(key, value) => StoreModel { heads: self.heads.insert(key, value), ..self },
            WriteModel::PutClaim(key, value) => StoreModel { claims: self.claims.insert(key, value), ..self },
            WriteModel::PutEntity(key, value) => StoreModel { entities: self.entities.insert(key, value), ..self },
            WriteModel::PutRelation(key, value) => StoreModel { relations: self.relations.insert(key, value), ..self },
            WriteModel::PutProposal(key, value) => StoreModel { proposals: self.proposals.insert(key, value), ..self },
            WriteModel::PutProposalSource(key, value) => StoreModel { proposal_sources: self.proposal_sources.insert(key, value), ..self },
            WriteModel::PutPending(key) => StoreModel { pending_proposals: self.pending_proposals.insert(key, ()), ..self },
            WriteModel::DropPending(key) => StoreModel { pending_proposals: self.pending_proposals.remove(key), ..self },
            WriteModel::PutAwaiting(key) => StoreModel { awaiting_adjudication: self.awaiting_adjudication.insert(key, ()), ..self },
            WriteModel::DropAwaiting(key) => StoreModel { awaiting_adjudication: self.awaiting_adjudication.remove(key), ..self },
            WriteModel::PutReview(key, value) => StoreModel { proposal_reviews: self.proposal_reviews.insert(key, value), ..self },
            WriteModel::PutLatestReview(key, value) => StoreModel { latest_proposal_review: self.latest_proposal_review.insert(key, value), ..self },
            WriteModel::PutFeedback(key, value) => StoreModel { recall_feedback: self.recall_feedback.insert(key, value), ..self },
            WriteModel::PutCollection(key, value) => StoreModel { artifact_collections: self.artifact_collections.insert(key, value), ..self },
            WriteModel::PutCollectionAvailability(key, value) => StoreModel { artifact_collection_availability: self.artifact_collection_availability.insert(key, value), ..self },
            WriteModel::PutSnapshot(key, value) => StoreModel { artifact_snapshots: self.artifact_snapshots.insert(key, value), ..self },
            WriteModel::PutSnapshotAvailability(key, value) => StoreModel { artifact_snapshot_availability: self.artifact_snapshot_availability.insert(key, value), ..self },
            WriteModel::PutBlob(key, value) => StoreModel { artifact_snapshot_blobs: self.artifact_snapshot_blobs.insert(key, value), ..self },
            WriteModel::DropBlob(key) => StoreModel { artifact_snapshot_blobs: self.artifact_snapshot_blobs.remove(key), ..self },
            WriteModel::PutPassage(key, value) => StoreModel { artifact_passages: self.artifact_passages.insert(key, value), ..self },
            WriteModel::PutPassageAvailability(key, value) => StoreModel { artifact_passage_availability: self.artifact_passage_availability.insert(key, value), ..self },
            WriteModel::PutOrdinal(key, value) => StoreModel { artifact_passage_ordinals: self.artifact_passage_ordinals.insert(key, value), ..self },
            WriteModel::PutProvenance(key, value) => StoreModel { artifact_by_evidence: self.artifact_by_evidence.insert(key, value), ..self },
            WriteModel::PutText(key, value) => StoreModel { texts: self.texts.insert(key, value), ..self },
            WriteModel::DropText(key) => StoreModel { texts: self.texts.remove(key), ..self },
            WriteModel::PutEntityPayload(key, value) => StoreModel { entity_payloads: self.entity_payloads.insert(key, value), ..self },
            WriteModel::DropEntityPayload(key) => StoreModel { entity_payloads: self.entity_payloads.remove(key), ..self },
            WriteModel::PutRelationPayload(key, value) => StoreModel { relation_payloads: self.relation_payloads.insert(key, value), ..self },
            WriteModel::DropRelationPayload(key) => StoreModel { relation_payloads: self.relation_payloads.remove(key), ..self },
            WriteModel::PutProposalPayload(key, value) => StoreModel { proposal_payloads: self.proposal_payloads.insert(key, value), ..self },
            WriteModel::DropProposalPayload(key) => StoreModel { proposal_payloads: self.proposal_payloads.remove(key), ..self },
            WriteModel::PutReviewPayload(key, value) => StoreModel { review_payloads: self.review_payloads.insert(key, value), ..self },
            WriteModel::DropReviewPayload(key) => StoreModel { review_payloads: self.review_payloads.remove(key), ..self },
            WriteModel::PutSnapshotPayload(key, value) => StoreModel { snapshot_payloads: self.snapshot_payloads.insert(key, value), ..self },
            WriteModel::DropSnapshotPayload(key) => StoreModel { snapshot_payloads: self.snapshot_payloads.remove(key), ..self },
            WriteModel::PutLexicalDoc(key, value) => StoreModel { lexical_docs: self.lexical_docs.insert(key, value), ..self },
            WriteModel::DropLexicalDoc(key) => StoreModel { lexical_docs: self.lexical_docs.remove(key), ..self },
            WriteModel::PutPosting(key) => StoreModel { lexical_postings: self.lexical_postings.insert(key, ()), ..self },
            WriteModel::DropPosting(key) => StoreModel { lexical_postings: self.lexical_postings.remove(key), ..self },
            WriteModel::PutTime(key) => StoreModel { time_index: self.time_index.insert(key, ()), ..self },
            WriteModel::DropTime(key) => StoreModel { time_index: self.time_index.remove(key), ..self },
            WriteModel::PutDependency(key) => StoreModel { dependencies: self.dependencies.insert(key, ()), ..self },
            WriteModel::PutRecallCase(key, value) => StoreModel { recall_cases: self.recall_cases.insert(key, value), ..self },
            WriteModel::PutEvaluator(key, value) => StoreModel { relation_evaluators: self.relation_evaluators.insert(key, value), ..self },
            WriteModel::PutEvaluatorHead(key, value) => StoreModel { relation_evaluator_heads: self.relation_evaluator_heads.insert(key, value), ..self },
            WriteModel::PutProfile(key, value) => StoreModel { relation_profiles: self.relation_profiles.insert(key, value), ..self },
            WriteModel::PutProfileHead(key, value) => StoreModel { relation_profile_heads: self.relation_profile_heads.insert(key, value), ..self },
            WriteModel::PutSignal(key, value) => StoreModel { relation_signals: self.relation_signals.insert(key, value), ..self },
            WriteModel::PutSignalHead(key, value) => StoreModel { relation_signal_heads: self.relation_signal_heads.insert(key, value), ..self },
            WriteModel::PutSignalPayload(key, value) => StoreModel { relation_signal_payloads: self.relation_signal_payloads.insert(key, value), ..self },
            WriteModel::DropSignalPayload(key) => StoreModel { relation_signal_payloads: self.relation_signal_payloads.remove(key), ..self },
            WriteModel::PutSignalPair(key, value) => StoreModel { relation_signal_pairs: self.relation_signal_pairs.insert(key, value), ..self },
            WriteModel::PutSignalByRecord(key) => StoreModel { relation_signals_by_record: self.relation_signals_by_record.insert(key, ()), ..self },
            WriteModel::PutSignalByEvaluator(key) => StoreModel { relation_signals_by_evaluator: self.relation_signals_by_evaluator.insert(key, ()), ..self },
            WriteModel::DropSignalByEvaluator(key) => StoreModel { relation_signals_by_evaluator: self.relation_signals_by_evaluator.remove(key), ..self },
            WriteModel::PutSignalByProfile(key) => StoreModel { relation_signals_by_profile: self.relation_signals_by_profile.insert(key, ()), ..self },
            WriteModel::PutTrace(key, value) => StoreModel { activation_traces: self.activation_traces.insert(key, value), ..self },
            WriteModel::PutTracePayload(key, value) => StoreModel { activation_trace_payloads: self.activation_trace_payloads.insert(key, value), ..self },
            WriteModel::DropTracePayload(key) => StoreModel { activation_trace_payloads: self.activation_trace_payloads.remove(key), ..self },
            WriteModel::PutTraceByRecord(key) => StoreModel { activation_traces_by_record: self.activation_traces_by_record.insert(key, ()), ..self },
            WriteModel::PutTraceByEvaluator(key) => StoreModel { activation_traces_by_evaluator: self.activation_traces_by_evaluator.insert(key, ()), ..self },
            WriteModel::PutTraceByProfile(key) => StoreModel { activation_traces_by_profile: self.activation_traces_by_profile.insert(key, ()), ..self },
            WriteModel::PutAudit(key, value) => StoreModel { audit: self.audit.insert(key, value), ..self },
            WriteModel::PutOperation(key, value) => StoreModel { operations: self.operations.insert(key, value), ..self },
        }
    }

    /// The store after a list of changes, made in order.
    pub open spec fn after(self, writes: Seq<WriteModel>) -> StoreModel
        decreases writes.len(),
    {
        if writes.len() == 0 {
            self
        } else {
            self.after(writes.drop_last()).put(writes.last())
        }
    }

    /// The store in which nothing was recorded yet.
    pub open spec fn pristine(era_id: EraId, digest_key: [u8; 32]) -> StoreModel {
        StoreModel {
            era_id,
            digest_key,
            evidence: Map::empty(),
            evidence_availability: Map::empty(),
            heads: Map::empty(),
            claims: Map::empty(),
            entities: Map::empty(),
            relations: Map::empty(),
            proposals: Map::empty(),
            proposal_sources: Map::empty(),
            pending_proposals: Map::empty(),
            awaiting_adjudication: Map::empty(),
            proposal_reviews: Map::empty(),
            latest_proposal_review: Map::empty(),
            recall_feedback: Map::empty(),
            artifact_collections: Map::empty(),
            artifact_collection_availability: Map::empty(),
            artifact_snapshots: Map::empty(),
            artifact_snapshot_availability: Map::empty(),
            artifact_snapshot_blobs: Map::empty(),
            artifact_passages: Map::empty(),
            artifact_passage_availability: Map::empty(),
            artifact_passage_ordinals: Map::empty(),
            artifact_by_evidence: Map::empty(),
            texts: Map::empty(),
            entity_payloads: Map::empty(),
            relation_payloads: Map::empty(),
            proposal_payloads: Map::empty(),
            review_payloads: Map::empty(),
            snapshot_payloads: Map::empty(),
            lexical_docs: Map::empty(),
            lexical_postings: Map::empty(),
            time_index: Map::empty(),
            dependencies: Map::empty(),
            recall_cases: Map::empty(),
            relation_evaluators: Map::empty(),
            relation_evaluator_heads: Map::empty(),
            relation_profiles: Map::empty(),
            relation_profile_heads: Map::empty(),
            relation_signals: Map::empty(),
            relation_signal_heads: Map::empty(),
            relation_signal_payloads: Map::empty(),
            relation_signal_pairs: Map::empty(),
            relation_signals_by_record: Map::empty(),
            relation_signals_by_evaluator: Map::empty(),
            relation_signals_by_profile: Map::empty(),
            activation_traces: Map::empty(),
            activation_trace_payloads: Map::empty(),
            activation_traces_by_record: Map::empty(),
            activation_traces_by_evaluator: Map::empty(),
            activation_traces_by_profile: Map::empty(),
            audit: Map::empty(),
            operations: Map::empty(),
        }
    }
}

/// Changes that are made together or not at all.
pub struct Batch {
    pub writes: Vec<Write>,
}

impl View for Batch {
    type V = Seq<WriteModel>;

    open spec fn view(&self) -> Seq<WriteModel> {
        views(self.writes@)
    }
}

impl Batch {
    pub fn new() -> (r: Batch)
        ensures
            r@ == Seq::<WriteModel>::empty(),
            forall|s: StoreModel| #[trigger] s.after(r@) == s,
    {
        broadcast use views_of_empty;

        Batch { writes: Vec::new() }
    }

    pub fn push(&mut self, write: Write)
        ensures
            final(self)@ == old(self)@.push(write@),
            forall|s: StoreModel| #[trigger] s.after(final(self)@) == s.after(old(self)@).put(write@),
    {
        broadcast use views_of_push;

        self.writes.push(write);
        assert(self@.drop_last() =~= old(self)@);
    }
}

/// A store of evidence-backed memory.
pub struct MemoryDatabase {
    pub(crate) era_id: EraId,
    pub(crate) digest_key: [u8; 32],
    pub(crate) evidence: Table<EvidenceId, EvidenceHeader>,
    pub(crate) evidence_availability: Table<RevisionKey, EvidenceAvailabilityRevision>,
    pub(crate) heads: Table<RecordRef, u64>,
    pub(crate) claims: Table<RevisionKey, ClaimRevisionHeader>,
    pub(crate) entities: Table<RevisionKey, EntityRevisionHeader>,
    pub(crate) relations: Table<RevisionKey, SemanticRelationRevisionHeader>,
    pub(crate) proposals: Table<RevisionKey, ProposalRevisionHeader>,
    pub(crate) proposal_sources: Table<ProposalSourceJobId, ProposalSourceIndex>,
    pub(crate) pending_proposals: Table<ProposalId, ()>,
    pub(crate) awaiting_adjudication: Table<ProposalId, ()>,
    pub(crate) proposal_reviews: Table<RevisionKey, ProposalReviewCaseHeader>,
    pub(crate) latest_proposal_review: Table<ProposalId, ProposalReviewPointer>,
    pub(crate) recall_feedback: Table<RecallFeedbackId, RecallFeedback>,
    pub(crate) artifact_collections: Table<ArtifactCollectionId, ArtifactCollectionHeader>,
    pub(crate) artifact_collection_availability: Table<RevisionKey, ArtifactAvailabilityRevision<ArtifactCollectionId>>,
    pub(crate) artifact_snapshots: Table<ArtifactSnapshotId, ArtifactSnapshotHeader>,
    pub(crate) artifact_snapshot_availability: Table<RevisionKey, ArtifactAvailabilityRevision<ArtifactSnapshotId>>,
    pub(crate) artifact_snapshot_blobs: Table<ArtifactSnapshotId, Vec<u8>>,
    pub(crate) artifact_passages: Table<ArtifactPassageId, ArtifactPassageHeader>,
    pub(crate) artifact_passage_availability: Table<RevisionKey, ArtifactAvailabilityRevision<ArtifactPassageId>>,
    pub(crate) artifact_passage_ordinals: Table<OrdinalKey, ArtifactPassageId>,
    pub(crate) artifact_by_evidence: Table<EvidenceId, ArtifactEvidenceProvenance>,
    pub(crate) texts: Table<RecordRef, String>,
    pub(crate) entity_payloads: Table<EntityId, EntityPayload>,
    pub(crate) relation_payloads: Table<RelationId, RelationPayload>,
    pub(crate) proposal_payloads: Table<ProposalId, ProposalPayload>,
    pub(crate) review_payloads: Table<ProposalReviewCaseId, ProposalReviewPayload>,
    pub(crate) snapshot_payloads: Table<ArtifactSnapshotId, ArtifactSnapshotPayload>,
    pub(crate) lexical_docs: Table<RecordRef, LexicalDocument>,
    pub(crate) lexical_postings: Table<PostingKey, ()>,
    pub(crate) time_index: Table<TimeKey, ()>,
    pub(crate) dependencies: Table<DependencyKey, ()>,
    pub(crate) recall_cases: Table<RecallCaseId, RecallCase>,
    pub(crate) relation_evaluators: Table<RevisionKey, RelationEvaluatorRevisionHeader>,
    pub(crate) relation_evaluator_heads: Table<RelationEvaluatorId, u64>,
    pub(crate) relation_profiles: Table<RevisionKey, RelationProfileRevisionHeader>,
    pub(crate) relation_profile_heads: Table<RelationProfileId, u64>,
    pub(crate) relation_signals: Table<RevisionKey, RelationSignalRevisionHeader>,
    pub(crate) relation_signal_heads: Table<RelationSignalId, u64>,
    pub(crate) relation_signal_payloads: Table<RelationSignalId, RelationSignalPayload>,
    pub(crate) relation_signal_pairs: Table<PairKey, RelationSignalId>,
    pub(crate) relation_signals_by_record: Table<RecordIndexKey, ()>,
    pub(crate) relation_signals_by_evaluator: Table<OwnerIndexKey, ()>,
    pub(crate) relation_signals_by_profile: Table<OwnerIndexKey, ()>,
    pub(crate) activation_traces: Table<ActivationTraceId, ActivationTraceHeader>,
    pub(crate) activation_trace_payloads: Table<ActivationTraceId, ActivationTracePayload>,
    pub(crate) activation_traces_by_record: Table<RecordIndexKey, ()>,
    pub(crate) activation_traces_by_evaluator: Table<OwnerIndexKey, ()>,
    pub(crate) activation_traces_by_profile: Table<OwnerIndexKey, ()>,
    pub(crate) audit: Table<AuditKey, AuditEvent>,
    pub(crate) operations: Table<OperationId, StoredOperation>,
}

impl View for MemoryDatabase {
    type V = StoreModel;

    open(crate) spec fn view(&self) -> StoreModel {
        StoreModel {
            era_id: self.era_id,
            digest_key: self.digest_key,
            evidence: self.evidence@,
            evidence_availability: self.evidence_availability@,
            heads: self.heads@,
            claims: self.claims@,
            entities: self.entities@,
            relations: self.relations@,
            proposals: self.proposals@,
            proposal_sources: self.proposal_sources@,
            pending_proposals: self.pending_proposals@,
            awaiting_adjudication: self.awaiting_adjudication@,
            proposal_reviews: self.proposal_reviews@,
            latest_proposal_review: self.latest_proposal_review@,
            recall_feedback: self.recall_feedback@,
            artifact_collections: self.artifact_collections@,
            artifact_collection_availability: self.artifact_collection_availability@,
            artifact_snapshots: self.artifact_snapshots@,
            artifact_snapshot_availability: self.artifact_snapshot_availability@,
            artifact_snapshot_blobs: self.artifact_snapshot_blobs@,
            artifact_passages: self.artifact_passages@,
            artifact_passage_availability: self.artifact_passage_availability@,
            artifact_passage_ordinals: self.artifact_passage_ordinals@,
            artifact_by_evidence: self.artifact_by_evidence@,
            texts: self.texts@,
            entity_payloads: self.entity_payloads@,
            relation_payloads: self.relation_payloads@,
            proposal_payloads: self.proposal_payloads@,
            review_payloads: self.review_payloads@,
            snapshot_payloads: self.snapshot_payloads@,
            lexical_docs: self.lexical_docs@,
            lexical_postings: self.lexical_postings@,
            time_index: self.time_index@,
            dependencies: self.dependencies@,
            recall_cases: self.recall_cases@,
            relation_evaluators: self.relation_evaluators@,
            relation_evaluator_heads: self.relation_evaluator_heads@,
            relation_profiles: self.relation_profiles@,
            relation_profile_heads: self.relation_profile_heads@,
            relation_signals: self.relation_signals@,
            relation_signal_heads: self.relation_signal_heads@,
            relation_signal_payloads: self.relation_signal_payloads@,
            relation_signal_pairs: self.relation_signal_pairs@,
            relation_signals_by_record: self.relation_signals_by_record@,
            relation_signals_by_evaluator: self.relation_signals_by_evaluator@,
            relation_signals_by_profile: self.relation_signals_by_profile@,
            activation_traces: self.activation_traces@,
            activation_trace_payloads: self.activation_trace_payloads@,
            activation_traces_by_record: self.activation_traces_by_record@,
            activation_traces_by_evaluator: self.activation_traces_by_evaluator@,
            activation_traces_by_profile: self.activation_traces_by_profile@,
            audit: self.audit@,
            operations: self.operations@,
        }
    }
}

impl MemoryDatabase {
    /// A store in which nothing was recorded yet.
    pub fn pristine(era_id: EraId, digest_key: [u8; 32]) -> (r: MemoryDatabase)
        ensures
            r@ == StoreModel::pristine(era_id, digest_key),
    {
        MemoryDatabase {
            era_id,
            digest_key,
            evidence: Table::new(),
            evidence_availability: Table::new(),
            heads: Table::new(),
            claims: Table::new(),
            entities: Table::new(),
            relations: Table::new(),
            proposals: Table::new(),
            proposal_sources: Table::new(),
            pending_proposals: Table::new(),
            awaiting_adjudication: Table::new(),
            proposal_reviews: Table::new(),
            latest_proposal_review: Table::new(),
            recall_feedback: Table::new(),
            artifact_collections: Table::new(),
            artifact_collection_availability: Table::new(),
            artifact_snapshots: Table::new(),
            artifact_snapshot_availability: Table::new(),
            artifact_snapshot_blobs: Table::new(),
            artifact_passages: Table::new(),
            artifact_passage_availability: Table::new(),
            artifact_passage_ordinals: Table::new(),
            artifact_by_evidence: Table::new(),
            texts: Table::new(),
            entity_payloads: Table::new(),
            relation_payloads: Table::new(),
            proposal_payloads: Table::new(),
            review_payloads: Table::new(),
            snapshot_payloads: Table::new(),
            lexical_docs: Table::new(),
            lexical_postings: Table::new(),
            time_index: Table::new(),
            dependencies: Table::new(),
            recall_cases: Table::new(),
            relation_evaluators: Table::new(),
            relation_evaluator_heads: Table::new(),
            relation_profiles: Table::new(),
            relation_profile_heads: Table::new(),
            relation_signals: Table::new(),
            relation_signal_heads: Table::new(),
            relation_signal_payloads: Table::new(),
            relation_signal_pairs: Table::new(),
            relation_signals_by_record: Table::new(),
            relation_signals_by_evaluator: Table::new(),
            relation_signals_by_profile: Table::new(),
            activation_traces: Table::new(),
            activation_trace_payloads: Table::new(),
            activation_traces_by_record: Table::new(),
            activation_traces_by_evaluator: Table::new(),
            activation_traces_by_profile: Table::new(),
            audit: Table::new(),
            operations: Table::new(),
        }
    }

    pub fn era_id(&self) -> (r: EraId)
        ensures
            r == self@.era_id,
    {
        self.era_id
    }

    /// Makes one change.
    pub fn write(&mut self, write: Write)
        ensures
            final(self)@ == old(self)@.put(write@),
    {
        reveal(StoreModel::put);
        match write {
            Write::PutEvidence(key, value) => self.evidence.insert(key, value),
            Write::PutEvidenceAvailability(key, value) => self.evidence_availability.insert(key, value),
            Write::PutHead(key, value) => self.heads.insert(key, value),
            Write::PutClaim(key, value) => self.claims.insert(key, value),
            Write::PutEntity(key, value) => self.entities.insert(key, value),
            Write::PutRelation(key, value) => self.relations.insert(key, value),
            Write::PutProposal(key, value) => self.proposals.insert(key, value),
            Write::PutProposalSource(key, value) => self.proposal_sources.insert(key, value),
            Write::PutPending(key) => self.pending_proposals.insert(key, ()),
            Write::DropPending(key) => self.pending_proposals.remove(&key),
            Write::PutAwaiting(key) => self.awaiting_adjudication.insert(key, ()),
            Write::DropAwaiting(key) => self.awaiting_adjudication.remove(&key),
            Write::PutReview(key, value) => self.proposal_reviews.insert(key, value),
            Write::PutLatestReview(key, value) => self.latest_proposal_review.insert(key, value),
            Write::PutFeedback(key, value) => self.recall_feedback.insert(key, value),
            Write::PutCollection(key, value) => self.artifact_collections.insert(key, value),
            Write::PutCollectionAvailability(key, value) => self.artifact_collection_availability.insert(key, value),
            Write::PutSnapshot(key, value) => self.artifact_snapshots.insert(key, value),
            Write::PutSnapshotAvailability(key, value) => self.artifact_snapshot_availability.insert(key, value),
            Write::PutBlob(key, value) => self.artifact_snapshot_blobs.insert(key, value),
            Write::DropBlob(key) => self.artifact_snapshot_blobs.remove(&key),
            Write::PutPassage(key, value) => self.artifact_passages.insert(key, value),
            Write::PutPassageAvailability(key, value) => self.artifact_passage_availability.insert(key, value),
            Write::PutOrdinal(key, value) => self.artifact_passage_ordinals.insert(key, value),
            Write::PutProvenance(key, value) => self.artifact_by_evidence.insert(key, value),
            Write::PutText(key, value) => self.texts.insert(key, value),
            Write::DropText(key) => self.texts.remove(&key),
            Write::PutEntityPayload(key, value) => self.entity_payloads.insert(key, value),
            Write::DropEntityPayload(key) => self.entity_payloads.remove(&key),
            Write::PutRelationPayload(key, value) => self.relation_payloads.insert(key, value),
            Write::DropRelationPayload(key) => self.relation_payloads.remove(&key),
            Write::PutProposalPayload(key, value) => self.proposal_payloads.insert(key, value),
            Write::DropProposalPayload(key) => self.proposal_payloads.remove(&key),
            Write::PutReviewPayload(key, value) => self.review_payloads.insert(key, value),
            Write::DropReviewPayload(key) => self.review_payloads.remove(&key),
            Write::PutSnapshotPayload(key, value) => self.snapshot_payloads.insert(key, value),
            Write::DropSnapshotPayload(key) => self.snapshot_payloads.remove(&key),
            Write::PutLexicalDoc(key, value) => self.lexical_docs.insert(key, value),
            Write::DropLexicalDoc(key) => self.lexical_docs.remove(&key),
            Write::PutPosting(key) => self.lexical_postings.insert(key, ()),
            Write::DropPosting(key) => self.lexical_postings.remove(&key),
            Write::PutTime(key) => self.time_index.insert(key, ()),
            Write::DropTime(key) => self.time_index.remove(&key),
            Write::PutDependency(key) => self.dependencies.insert(key, ()),
            Write::PutRecallCase(key, value) => self.recall_cases.insert(key, value),
            Write::PutEvaluator(key, value) => self.relation_evaluators.insert(key, value),
            Write::PutEvaluatorHead(key, value) => self.relation_evaluator_heads.insert(key, value),
            Write::PutProfile(key, value) => self.relation_profiles.insert(key, value),
            Write::PutProfileHead(key, value) => self.relation_profile_heads.insert(key, value),
            Write::PutSignal(key, value) => self.relation_signals.insert(key, value),
            Write::PutSignalHead(key, value) => self.relation_signal_heads.insert(key, value),
            Write::PutSignalPayload(key, value) => self.relation_signal_payloads.insert(key, value),
            Write::DropSignalPayload(key) => self.relation_signal_payloads.remove(&key),
            Write::PutSignalPair(key, value) => self.relation_signal_pairs.insert(key, value),
            Write::PutSignalByRecord(key) => self.relation_signals_by_record.insert(key, ()),
            Write::PutSignalByEvaluator(key) => self.relation_signals_by_evaluator.insert(key, ()),
            Write::DropSignalByEvaluator(key) => self.relation_signals_by_evaluator.remove(&key),
            Write::PutSignalByProfile(key) => self.relation_signals_by_profile.insert(key, ()),
            Write::PutTrace(key, value) => self.activation_traces.insert(key, value),
            Write::PutTracePayload(key, value) => self.activation_trace_payloads.insert(key, value),
            Write::DropTracePayload(key) => self.activation_trace_payloads.remove(&key),
            Write::PutTraceByRecord(key) => self.activation_traces_by_record.insert(key, ()),
            Write::PutTraceByEvaluator(key) => self.activation_traces_by_evaluator.insert(key, ()),
            Write::PutTraceByProfile(key) => self.activation_traces_by_profile.insert(key, ()),
            Write::PutAudit(key, value) => self.audit.insert(key, value),
            Write::PutOperation(key, value) => self.operations.insert(key, value),
        }
    }

    /// Makes the changes of a batch, in order.
    pub fn apply(&mut self, batch: Batch)
        ensures
            final(self)@ == old(self)@.after(batch@),
    {
        let ghost all = batch.writes@;
        let ghost start = self@;
        let mut forward = batch.writes;
        let mut backward: Vec<Write> = Vec::new();
        while forward.len() > 0
            invariant
                forward@.len() + backward@.len() == all.len(),
                forward@ == all.take(forward@.len() as int),
                forall|i: int| 0 <= i < backward@.len() ==> #[trigger] backward@[i] == all[all.len() - 1 - i],
            decreases forward@.len(),
        {
            let last = forward.pop();
            match last {
                Some(write) => {
                    backward.push(write);
                },
                None => {},
            }
        }
        assert(views(all.take(0)) =~= Seq::<WriteModel>::empty());
        while backward.len() > 0
            invariant
                backward@.len() <= all.len(),
                forall|i: int| 0 <= i < backward@.len() ==> #[trigger] backward@[i] == all[all.len() - 1 - i],
                self@ == start.after(views(all.take(all.len() - backward@.len()))),
            decreases backward@.len(),
        {
            let ghost done = all.len() - backward@.len();
            let last = backward.pop();
            match last {
                Some(write) => {
                    proof {
                        let longer = views(all.take(done + 1));
                        assert(longer.drop_last() =~= views(all.take(done)));
                        assert(longer.last() == write@);
                    }
                    self.write(write);
                },
                None => {},
            }
        }
        assert(all.take(all.len() as int) =~= all);
    }
}

} // verus!
