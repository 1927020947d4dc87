//! What is remembered of committed operations.
use vstd::prelude::*;
use crate::ids::ActivationTraceId;
use crate::records::artifact::{
    ArtifactCollectionReceipt, ArtifactPassageBatchReceipt, ArtifactPassageBatchReceiptModel,
    ArtifactSnapshotReceipt,
};
use crate::records::audit::{
    PurgeReceipt, PurgeReceiptModel, RetractionReceipt, RetractionReceiptModel,
};
use crate::records::claim::{
    ClaimReceipt, CorrectionReceipt, CorrectionReceiptModel, RelationReceipt, RememberReceipt,
};
use crate::records::evidence::EvidenceReceipt;
use crate::records::proposal::{
    ProposalAdjudicationReceipt, ProposalAdjudicationReceiptModel, ProposalReceipt,
    ProposalReviewReceipt, RecallFeedback,
};
use crate::records::relation::{
    RelationEvaluatorReceipt, RelationEvaluatorStateReceipt, RelationEvaluatorStateReceiptModel,
    RelationProfileReceipt, RelationProfileStateReceipt, RelationProfileStateReceiptModel,
    RelationSignalBatchReceipt, RelationSignalBatchReceiptModel,
};
use crate::snapshot::Snapshot;
use crate::table::Replica;

verus! {

/// What a committed operation answered.
#[derive(Debug, PartialEq, Eq)]
pub enum Receipt {
    Evidence(EvidenceReceipt),
    Collection(ArtifactCollectionReceipt),
    Snapshot(ArtifactSnapshotReceipt),
    Passages(ArtifactPassageBatchReceipt),
    Retraction(RetractionReceipt),
    Remember(RememberReceipt),
    Correction(CorrectionReceipt),
    Claim(ClaimReceipt),
    Relation(RelationReceipt),
    Evaluator(RelationEvaluatorReceipt),
    Profile(RelationProfileReceipt),
    EvaluatorState(RelationEvaluatorStateReceipt),
    ProfileState(RelationProfileStateReceipt),
    Signals(RelationSignalBatchReceipt),
    Trace(ActivationTraceId),
    Proposal(ProposalReceipt),
    Review(ProposalReviewReceipt),
    Adjudication(ProposalAdjudicationReceipt),
    Feedback(RecallFeedback),
    Purge(PurgeReceipt),
}

/// What a [`Receipt`] holds.
#[verifier::ext_equal]
pub enum ReceiptModel {
    Evidence(EvidenceReceipt),
    Collection(ArtifactCollectionReceipt),
    Snapshot(ArtifactSnapshotReceipt),
    Passages(ArtifactPassageBatchReceiptModel),
    Retraction(RetractionReceiptModel),
    Remember(RememberReceipt),
    Correction(CorrectionReceiptModel),
    Claim(ClaimReceipt),
    Relation(RelationReceipt),
    Evaluator(RelationEvaluatorReceipt),
    Profile(RelationProfileReceipt),
    EvaluatorState(RelationEvaluatorStateReceiptModel),
    ProfileState(RelationProfileStateReceiptModel),
    Signals(RelationSignalBatchReceiptModel),
    Trace(ActivationTraceId),
    Proposal(ProposalReceipt),
    Review(ProposalReviewReceipt),
    Adjudication(ProposalAdjudicationReceiptModel),
    Feedback(RecallFeedback),
    Purge(PurgeReceiptModel),
}

impl View for Receipt {
    type V = ReceiptModel;

    open spec fn view(&self) -> ReceiptModel {
        match *self {
            Receipt::Evidence(inner) => ReceiptModel::Evidence(inner),
            Receipt::Collection(inner) => ReceiptModel::Collection(inner),
            Receipt::Snapshot(inner) => ReceiptModel::Snapshot(inner),
            Receipt::Passages(inner) => ReceiptModel::Passages(inner@),
            Receipt::Retraction(inner) => ReceiptModel::Retraction(inner@),
            Receipt::Remember(inner) => ReceiptModel::Remember(inner),
            Receipt::Correction(inner) => ReceiptModel::Correction(inner@),
            Receipt::Claim(inner) => ReceiptModel::Claim(inner),
            Receipt::Relation(inner) => ReceiptModel::Relation(inner),
            Receipt::Evaluator(inner) => ReceiptModel::Evaluator(inner),
            Receipt::Profile(inner) => ReceiptModel::Profile(inner),
            Receipt::EvaluatorState(inner) => ReceiptModel::EvaluatorState(inner@),
            Receipt::ProfileState(inner) => ReceiptModel::ProfileState(inner@),
            Receipt::Signals(inner) => ReceiptModel::Signals(inner@),
            Receipt::Trace(inner) => ReceiptModel::Trace(inner),
            Receipt::Proposal(inner) => ReceiptModel::Proposal(inner),
            Receipt::Review(inner) => ReceiptModel::Review(inner),
            Receipt::Adjudication(inner) => ReceiptModel::Adjudication(inner@),
            Receipt::Feedback(inner) => ReceiptModel::Feedback(inner),
            Receipt::Purge(inner) => ReceiptModel::Purge(inner@),
        }
    }
}

impl Replica for Receipt {
    fn replica(&self) -> (r: Self) {
        match self {
            Receipt::Evidence(inner) => Receipt::Evidence(*inner),
            Receipt::Collection(inner) => Receipt::Collection(*inner),
            Receipt::Snapshot(inner) => Receipt::Snapshot(*inner),
            Receipt::Passages(inner) => Receipt::Passages(inner.replica()),
            Receipt::Retraction(inner) => Receipt::Retraction(inner.replica()),
            Receipt::Remember(inner) => Receipt::Remember(*inner),
            Receipt::Correction(inner) => Receipt::Correction(inner.replica()),
            Receipt::Claim(inner) => Receipt::Claim(*inner),
            Receipt::Relation(inner) => Receipt::Relation(*inner),
            Receipt::Evaluator(inner) => Receipt::Evaluator(*inner),
            Receipt::Profile(inner) => Receipt::Profile(*inner),
            Receipt::EvaluatorState(inner) => Receipt::EvaluatorState(inner.replica()),
            Receipt::ProfileState(inner) => Receipt::ProfileState(inner.replica()),
            Receipt::Signals(inner) => Receipt::Signals(inner.replica()),
            Receipt::Trace(inner) => Receipt::Trace(*inner),
            Receipt::Proposal(inner) => Receipt::Proposal(*inner),
            Receipt::Review(inner) => Receipt::Review(*inner),
            Receipt::Adjudication(inner) => Receipt::Adjudication(inner.replica()),
            Receipt::Feedback(inner) => Receipt::Feedback(*inner),
            Receipt::Purge(inner) => Receipt::Purge(inner.replica()),
        }
    }
}

impl Clone for Receipt {
    fn clone(&self) -> (r: Self)
        ensures
            r@ == self@,
    {
        self.replica()
    }
}

/// A committed operation: the digest of its request, and its answer.
#[derive(Debug, PartialEq, Eq)]
pub struct StoredOperation {
    pub digest: [u8; 32],
    pub receipt: Receipt,
}

/// What a [`StoredOperation`] holds.
#[verifier::ext_equal]
pub struct StoredOperationModel {
    pub digest: [u8; 32],
    pub receipt: ReceiptModel,
}

impl View for StoredOperation {
    type V = StoredOperationModel;

    open spec fn view(&self) -> StoredOperationModel {
        StoredOperationModel {
            digest: self.digest,
            receipt: self.receipt@,
        }
    }
}

impl Replica for StoredOperation {
    fn replica(&self) -> (r: Self) {
        StoredOperation {
            digest: self.digest,
            receipt: self.receipt.replica(),
        }
    }
}

impl Clone for StoredOperation {
    fn clone(&self) -> (r: Self)
        ensures
            r@ == self@,
    {
        self.replica()
    }
}

} // verus!
