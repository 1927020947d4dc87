//! Proposals, their review and their adjudication.
use vstd::prelude::*;
use crate::applying::Applied;
use crate::context::TemporalFacts;
use crate::ids::{
    ClaimId, EntityId, EraId, EvidenceId, OperationId, ProposalDraftId, ProposalId,
    ProposalReviewCaseId, ProposalSourceJobId, RecallCaseId, RecallFeedbackId, RelationId,
};
use crate::records::audit::RecordRevision;
use crate::records::claim::{EntityKind, RelationKind};
use crate::records::evidence::{Actor, ClaimDomain, RecordState, Scope};
use crate::records::recall::{EvidenceRevisionPin, RecordRevisionPin};
use crate::table::{
    Replica, copies, opt_replica, opt_replicas, opt_view, opt_views, replicas, views,
};

verus! {

#[derive(Clone, Copy, Debug, PartialEq, Eq, Structural)]
pub enum ProposalStatus {
    PendingReview,
    ReviewedApprove,
    ReviewedReject,
    NeedsUser,
    Applied,
    Rejected,
    Stale,
    Unsupported,
}

impl View for ProposalStatus {
    type V = ProposalStatus;

    open spec fn view(&self) -> ProposalStatus {
        *self
    }
}

#[derive(Clone, Copy, Debug, PartialEq, Eq, Structural)]
pub enum ProposalEndpoint {
    Draft(ProposalDraftId),
    Existing(RecordRevisionPin),
}

impl View for ProposalEndpoint {
    type V = ProposalEndpoint;

    open spec fn view(&self) -> ProposalEndpoint {
        *self
    }
}

#[derive(Debug, PartialEq, Eq)]
pub enum ProposalChange {
    CreateClaim {
        draft_id: ProposalDraftId,
        domain: ClaimDomain,
        temporal: TemporalFacts,
        proposition: String,
        evidence_ids: Vec<EvidenceId>,
    },
    CreateEntity {
        draft_id: ProposalDraftId,
        kind: EntityKind,
        temporal: TemporalFacts,
        canonical_name: String,
        aliases: Vec<String>,
        evidence_ids: Vec<EvidenceId>,
    },
    CreateRelation {
        draft_id: ProposalDraftId,
        from: ProposalEndpoint,
        to: ProposalEndpoint,
        kind: RelationKind,
        evidence_ids: Vec<EvidenceId>,
        qualifier: Option<String>,
    },
    Retract {
        target: RecordRevisionPin,
    },
    Supersede {
        target: RecordRevisionPin,
        replacement: ProposalDraftId,
    },
}

/// What a [`ProposalChange`] holds.
#[verifier::ext_equal]
pub enum ProposalChangeModel {
    CreateClaim { draft_id: ProposalDraftId, domain: ClaimDomain, temporal: TemporalFacts, proposition: Seq<char>, evidence_ids: Seq<EvidenceId> },
    CreateEntity { draft_id: ProposalDraftId, kind: EntityKind, temporal: TemporalFacts, canonical_name: Seq<char>, aliases: Seq<Seq<char>>, evidence_ids: Seq<EvidenceId> },
    CreateRelation { draft_id: ProposalDraftId, from: ProposalEndpoint, to: ProposalEndpoint, kind: RelationKind, evidence_ids: Seq<EvidenceId>, qualifier: Option<Seq<char>> },
    Retract { target: RecordRevisionPin },
    Supersede { target: RecordRevisionPin, replacement: ProposalDraftId },
}

impl View for ProposalChange {
    type V = ProposalChangeModel;

    open spec fn view(&self) -> ProposalChangeModel {
        match *self {
            ProposalChange::CreateClaim { draft_id, domain, temporal, proposition, evidence_ids } => ProposalChangeModel::CreateClaim {
                draft_id,
                domain,
                temporal,
                proposition: proposition@,
                evidence_ids: evidence_ids@,
            },
            ProposalChange::CreateEntity { draft_id, kind, temporal, canonical_name, aliases, evidence_ids } => ProposalChangeModel::CreateEntity {
                draft_id,
                kind,
                temporal,
                canonical_name: canonical_name@,
                aliases: views(aliases@),
                evidence_ids: evidence_ids@,
            },
            ProposalChange::CreateRelation { draft_id, from, to, kind, evidence_ids, qualifier } => ProposalChangeModel::CreateRelation {
                draft_id,
                from,
                to,
                kind,
                evidence_ids: evidence_ids@,
                qualifier: opt_view(qualifier),
            },
            ProposalChange::Retract { target } => ProposalChangeModel::Retract {
                target,
            },
            ProposalChange::Supersede { target, replacement } => ProposalChangeModel::Supersede {
                target,
                replacement,
            },
        }
    }
}

impl Replica for ProposalChange {
    fn replica(&self) -> (r: Self) {
        match self {
            ProposalChange::CreateClaim { draft_id, domain, temporal, proposition, evidence_ids } => ProposalChange::CreateClaim {
                draft_id: *draft_id,
                domain: *domain,
                temporal: *temporal,
                proposition: proposition.clone(),
                evidence_ids: copies(evidence_ids),
            },
            ProposalChange::CreateEntity { draft_id, kind, temporal, canonical_name, aliases, evidence_ids } => ProposalChange::CreateEntity {
                draft_id: *draft_id,
                kind: *kind,
                temporal: *temporal,
                canonical_name: canonical_name.clone(),
                aliases: replicas(aliases),
                evidence_ids: copies(evidence_ids),
            },
            ProposalChange::CreateRelation { draft_id, from, to, kind, evidence_ids, qualifier } => ProposalChange::CreateRelation {
                draft_id: *draft_id,
                from: *from,
                to: *to,
                kind: *kind,
                evidence_ids: copies(evidence_ids),
                qualifier: opt_replica(qualifier),
            },
            ProposalChange::Retract { target } => ProposalChange::Retract {
                target: *target,
            },
            ProposalChange::Supersede { target, replacement } => ProposalChange::Supersede {
                target: *target,
                replacement: *replacement,
            },
        }
    }
}

impl Clone for ProposalChange {
    fn clone(&self) -> (r: Self)
        ensures
            r@ == self@,
    {
        self.replica()
    }
}

#[derive(Debug, PartialEq, Eq)]
pub struct NewProposalBundle {
    pub source_job_id: ProposalSourceJobId,
    pub scope: Scope,
    pub source_evidence: Vec<EvidenceRevisionPin>,
    pub changes: Vec<ProposalChange>,
}

/// What a [`NewProposalBundle`] holds.
#[verifier::ext_equal]
pub struct NewProposalBundleModel {
    pub source_job_id: ProposalSourceJobId,
    pub scope: Scope,
    pub source_evidence: Seq<EvidenceRevisionPin>,
    pub changes: Seq<ProposalChangeModel>,
}

impl View for NewProposalBundle {
    type V = NewProposalBundleModel;

    open spec fn view(&self) -> NewProposalBundleModel {
        NewProposalBundleModel {
            source_job_id: self.source_job_id,
            scope: self.scope,
            source_evidence: self.source_evidence@,
            changes: views(self.changes@),
        }
    }
}

impl Replica for NewProposalBundle {
    fn replica(&self) -> (r: Self) {
        NewProposalBundle {
            source_job_id: self.source_job_id,
            scope: self.scope,
            source_evidence: copies(&self.source_evidence),
            changes: replicas(&self.changes),
        }
    }
}

impl Clone for NewProposalBundle {
    fn clone(&self) -> (r: Self)
        ensures
            r@ == self@,
    {
        self.replica()
    }
}

#[derive(Clone, Copy, Debug, PartialEq, Eq, Structural)]
pub struct ProposalRevisionHeader {
    pub id: ProposalId,
    pub revision: u64,
    pub previous_revision: Option<u64>,
    pub source_job_id: ProposalSourceJobId,
    pub scope: Scope,
    pub status: ProposalStatus,
    /// Availability of the separately erasable proposal bundle.
    pub state: RecordState,
    pub recorded_at_ms: i64,
    pub operation_id: OperationId,
}

impl View for ProposalRevisionHeader {
    type V = ProposalRevisionHeader;

    open spec fn view(&self) -> ProposalRevisionHeader {
        *self
    }
}

#[derive(Debug, PartialEq, Eq)]
pub struct ProposalPayload {
    pub source_evidence: Vec<EvidenceRevisionPin>,
    pub changes: Vec<ProposalChange>,
}

/// What a [`ProposalPayload`] holds.
#[verifier::ext_equal]
pub struct ProposalPayloadModel {
    pub source_evidence: Seq<EvidenceRevisionPin>,
    pub changes: Seq<ProposalChangeModel>,
}

impl View for ProposalPayload {
    type V = ProposalPayloadModel;

    open spec fn view(&self) -> ProposalPayloadModel {
        ProposalPayloadModel {
            source_evidence: self.source_evidence@,
            changes: views(self.changes@),
        }
    }
}

impl Replica for ProposalPayload {
    fn replica(&self) -> (r: Self) {
        ProposalPayload {
            source_evidence: copies(&self.source_evidence),
            changes: replicas(&self.changes),
        }
    }
}

impl Clone for ProposalPayload {
    fn clone(&self) -> (r: Self)
        ensures
            r@ == self@,
    {
        self.replica()
    }
}

#[derive(Debug, PartialEq, Eq)]
pub struct ProposalRecord {
    pub header: ProposalRevisionHeader,
    pub source_evidence: Vec<EvidenceRevisionPin>,
    pub changes: Option<Vec<ProposalChange>>,
}

/// What a [`ProposalRecord`] holds.
#[verifier::ext_equal]
pub struct ProposalRecordModel {
    pub header: ProposalRevisionHeader,
    pub source_evidence: Seq<EvidenceRevisionPin>,
    pub changes: Option<Seq<ProposalChangeModel>>,
}

impl View for ProposalRecord {
    type V = ProposalRecordModel;

    open spec fn view(&self) -> ProposalRecordModel {
        ProposalRecordModel {
            header: self.header,
            source_evidence: self.source_evidence@,
            changes: opt_views(self.changes),
        }
    }
}

impl Replica for ProposalRecord {
    fn replica(&self) -> (r: Self) {
        ProposalRecord {
            header: self.header,
            source_evidence: copies(&self.source_evidence),
            changes: opt_replicas(&self.changes),
        }
    }
}

impl Clone for ProposalRecord {
    fn clone(&self) -> (r: Self)
        ensures
            r@ == self@,
    {
        self.replica()
    }
}

#[derive(Clone, Copy, Debug, PartialEq, Eq, Structural)]
pub struct ProposalReceipt {
    pub id: ProposalId,
    pub revision: u64,
    pub status: ProposalStatus,
}

impl View for ProposalReceipt {
    type V = ProposalReceipt;

    open spec fn view(&self) -> ProposalReceipt {
        *self
    }
}

#[derive(Clone, Copy, Debug, PartialEq, Eq)]
pub struct ProposalSourceIndex {
    pub proposal_id: ProposalId,
    pub input_digest: [u8; 32],
}

impl View for ProposalSourceIndex {
    type V = ProposalSourceIndex;

    open spec fn view(&self) -> ProposalSourceIndex {
        *self
    }
}

#[derive(Clone, Copy, Debug, PartialEq, Eq, Structural)]
pub struct ProposalReviewPointer {
    pub review_case_id: ProposalReviewCaseId,
    pub revision: u64,
}

impl View for ProposalReviewPointer {
    type V = ProposalReviewPointer;

    open spec fn view(&self) -> ProposalReviewPointer {
        *self
    }
}

#[derive(Clone, Copy, Debug, PartialEq, Eq, Structural)]
pub enum ProposalReviewVerdict {
    Approve,
    Reject,
    NeedsUser,
    Unsupported,
}

impl View for ProposalReviewVerdict {
    type V = ProposalReviewVerdict;

    open spec fn view(&self) -> ProposalReviewVerdict {
        *self
    }
}

#[derive(Clone, Copy, Debug, PartialEq, Eq, Structural)]
pub enum ReviewFindingCode {
    EvidenceInsufficient,
    EvidenceContradiction,
    ScopeMismatch,
    TemporalConflict,
    DuplicateRecord,
    UnsafeMutation,
    AmbiguousIdentity,
    UnsupportedChange,
}

impl View for ReviewFindingCode {
    type V = ReviewFindingCode;

    open spec fn view(&self) -> ReviewFindingCode {
        *self
    }
}

#[derive(Debug, PartialEq, Eq)]
pub struct ProposalReviewFinding {
    pub code: ReviewFindingCode,
    pub change_index: Option<u32>,
    pub pins: Vec<RecordRevisionPin>,
}

/// What a [`ProposalReviewFinding`] holds.
#[verifier::ext_equal]
pub struct ProposalReviewFindingModel {
    pub code: ReviewFindingCode,
    pub change_index: Option<u32>,
    pub pins: Seq<RecordRevisionPin>,
}

impl View for ProposalReviewFinding {
    type V = ProposalReviewFindingModel;

    open spec fn view(&self) -> ProposalReviewFindingModel {
        ProposalReviewFindingModel {
            code: self.code,
            change_index: self.change_index,
            pins: self.pins@,
        }
    }
}

impl Replica for ProposalReviewFinding {
    fn replica(&self) -> (r: Self) {
        ProposalReviewFinding {
            code: self.code,
            change_index: self.change_index,
            pins: copies(&self.pins),
        }
    }
}

impl Clone for ProposalReviewFinding {
    fn clone(&self) -> (r: Self)
        ensures
            r@ == self@,
    {
        self.replica()
    }
}

#[derive(Debug, PartialEq, Eq)]
pub struct NewProposalReview {
    pub proposal_id: ProposalId,
    pub proposal_revision: u64,
    pub recall_case_id: RecallCaseId,
    pub recall_case_revision: u64,
    pub verdict: ProposalReviewVerdict,
    pub findings: Vec<ProposalReviewFinding>,
}

/// What a [`NewProposalReview`] holds.
#[verifier::ext_equal]
pub struct NewProposalReviewModel {
    pub proposal_id: ProposalId,
    pub proposal_revision: u64,
    pub recall_case_id: RecallCaseId,
    pub recall_case_revision: u64,
    pub verdict: ProposalReviewVerdict,
    pub findings: Seq<ProposalReviewFindingModel>,
}

impl View for NewProposalReview {
    type V = NewProposalReviewModel;

    open spec fn view(&self) -> NewProposalReviewModel {
        NewProposalReviewModel {
            proposal_id: self.proposal_id,
            proposal_revision: self.proposal_revision,
            recall_case_id: self.recall_case_id,
            recall_case_revision: self.recall_case_revision,
            verdict: self.verdict,
            findings: views(self.findings@),
        }
    }
}

impl Replica for NewProposalReview {
    fn replica(&self) -> (r: Self) {
        NewProposalReview {
            proposal_id: self.proposal_id,
            proposal_revision: self.proposal_revision,
            recall_case_id: self.recall_case_id,
            recall_case_revision: self.recall_case_revision,
            verdict: self.verdict,
            findings: replicas(&self.findings),
        }
    }
}

impl Clone for NewProposalReview {
    fn clone(&self) -> (r: Self)
        ensures
            r@ == self@,
    {
        self.replica()
    }
}

#[derive(Clone, Copy, Debug, PartialEq, Eq, Structural)]
pub struct ProposalReviewCaseHeader {
    pub id: ProposalReviewCaseId,
    pub revision: u64,
    pub previous_revision: Option<u64>,
    pub proposal_id: ProposalId,
    pub proposal_revision: u64,
    pub recall_case_id: RecallCaseId,
    pub recall_case_revision: u64,
    pub verdict: ProposalReviewVerdict,
    pub scope: Scope,
    pub state: RecordState,
    pub recorded_at_ms: i64,
    pub operation_id: OperationId,
}

impl View for ProposalReviewCaseHeader {
    type V = ProposalReviewCaseHeader;

    open spec fn view(&self) -> ProposalReviewCaseHeader {
        *self
    }
}

#[derive(Debug, PartialEq, Eq)]
pub struct ProposalReviewPayload {
    pub findings: Vec<ProposalReviewFinding>,
}

/// What a [`ProposalReviewPayload`] holds.
#[verifier::ext_equal]
pub struct ProposalReviewPayloadModel {
    pub findings: Seq<ProposalReviewFindingModel>,
}

impl View for ProposalReviewPayload {
    type V = ProposalReviewPayloadModel;

    open spec fn view(&self) -> ProposalReviewPayloadModel {
        ProposalReviewPayloadModel {
            findings: views(self.findings@),
        }
    }
}

impl Replica for ProposalReviewPayload {
    fn replica(&self) -> (r: Self) {
        ProposalReviewPayload {
            findings: replicas(&self.findings),
        }
    }
}

impl Clone for ProposalReviewPayload {
    fn clone(&self) -> (r: Self)
        ensures
            r@ == self@,
    {
        self.replica()
    }
}

#[derive(Debug, PartialEq, Eq)]
pub struct ProposalReviewCase {
    pub header: ProposalReviewCaseHeader,
    pub findings: Option<Vec<ProposalReviewFinding>>,
}

/// What a [`ProposalReviewCase`] holds.
#[verifier::ext_equal]
pub struct ProposalReviewCaseModel {
    pub header: ProposalReviewCaseHeader,
    pub findings: Option<Seq<ProposalReviewFindingModel>>,
}

impl View for ProposalReviewCase {
    type V = ProposalReviewCaseModel;

    open spec fn view(&self) -> ProposalReviewCaseModel {
        ProposalReviewCaseModel {
            header: self.header,
            findings: opt_views(self.findings),
        }
    }
}

impl Replica for ProposalReviewCase {
    fn replica(&self) -> (r: Self) {
        ProposalReviewCase {
            header: self.header,
            findings: opt_replicas(&self.findings),
        }
    }
}

impl Clone for ProposalReviewCase {
    fn clone(&self) -> (r: Self)
        ensures
            r@ == self@,
    {
        self.replica()
    }
}

#[derive(Clone, Copy, Debug, PartialEq, Eq, Structural)]
pub struct ProposalReviewReceipt {
    pub review_case_id: ProposalReviewCaseId,
    pub review_revision: u64,
    pub proposal: ProposalReceipt,
}

impl View for ProposalReviewReceipt {
    type V = ProposalReviewReceipt;

    open spec fn view(&self) -> ProposalReviewReceipt {
        *self
    }
}

#[derive(Clone, Copy, Debug, PartialEq, Eq, Structural)]
pub enum ProposalDecision {
    Accept,
    Reject,
}

impl View for ProposalDecision {
    type V = ProposalDecision;

    open spec fn view(&self) -> ProposalDecision {
        *self
    }
}

#[derive(Clone, Copy, Debug, PartialEq, Eq, Structural)]
pub enum AdjudicationAuthority {
    ExplicitUser,
    ExplicitOperator,
}

impl View for AdjudicationAuthority {
    type V = AdjudicationAuthority;

    open spec fn view(&self) -> AdjudicationAuthority {
        *self
    }
}

#[derive(Clone, Copy, Debug, PartialEq, Eq, Structural)]
pub struct ProposalAdjudication {
    pub proposal_id: ProposalId,
    pub expected_proposal_revision: u64,
    pub review_case_id: ProposalReviewCaseId,
    pub expected_review_revision: u64,
    pub decision: ProposalDecision,
    pub authority: AdjudicationAuthority,
}

impl View for ProposalAdjudication {
    type V = ProposalAdjudication;

    open spec fn view(&self) -> ProposalAdjudication {
        *self
    }
}

#[derive(Clone, Copy, Debug, PartialEq, Eq, Structural)]
pub enum AppliedRecord {
    Claim(ClaimId),
    Entity(EntityId),
    SemanticRelation(RelationId),
}

impl View for AppliedRecord {
    type V = AppliedRecord;

    open spec fn view(&self) -> AppliedRecord {
        *self
    }
}

#[derive(Clone, Copy, Debug, PartialEq, Eq, Structural)]
pub struct DraftMapping {
    pub draft_id: ProposalDraftId,
    pub record: AppliedRecord,
}

impl View for DraftMapping {
    type V = DraftMapping;

    open spec fn view(&self) -> DraftMapping {
        *self
    }
}

#[derive(Debug, PartialEq, Eq)]
pub struct ProposalAdjudicationReceipt {
    pub proposal: ProposalReceipt,
    pub draft_mappings: Vec<DraftMapping>,
    pub changed_records: Vec<RecordRevision>,
}

/// What a [`ProposalAdjudicationReceipt`] holds.
#[verifier::ext_equal]
pub struct ProposalAdjudicationReceiptModel {
    pub proposal: ProposalReceipt,
    pub draft_mappings: Seq<DraftMapping>,
    pub changed_records: Seq<RecordRevision>,
}

impl View for ProposalAdjudicationReceipt {
    type V = ProposalAdjudicationReceiptModel;

    open spec fn view(&self) -> ProposalAdjudicationReceiptModel {
        ProposalAdjudicationReceiptModel {
            proposal: self.proposal,
            draft_mappings: self.draft_mappings@,
            changed_records: self.changed_records@,
        }
    }
}

impl Replica for ProposalAdjudicationReceipt {
    fn replica(&self) -> (r: Self) {
        ProposalAdjudicationReceipt {
            proposal: self.proposal,
            draft_mappings: copies(&self.draft_mappings),
            changed_records: copies(&self.changed_records),
        }
    }
}

impl Clone for ProposalAdjudicationReceipt {
    fn clone(&self) -> (r: Self)
        ensures
            r@ == self@,
    {
        self.replica()
    }
}

#[derive(Clone, Copy, Debug, PartialEq, Eq, Structural)]
pub enum RecallFeedbackKind {
    Relevant,
    Irrelevant,
    Outdated,
    Unsafe,
    MissingExpectedRecord,
}

impl View for RecallFeedbackKind {
    type V = RecallFeedbackKind;

    open spec fn view(&self) -> RecallFeedbackKind {
        *self
    }
}

#[derive(Clone, Copy, Debug, PartialEq, Eq, Structural)]
pub struct NewRecallFeedback {
    pub recall_case_id: RecallCaseId,
    pub recall_case_revision: u64,
    pub candidate: Option<RecordRevisionPin>,
    pub kind: RecallFeedbackKind,
}

impl View for NewRecallFeedback {
    type V = NewRecallFeedback;

    open spec fn view(&self) -> NewRecallFeedback {
        *self
    }
}

#[derive(Clone, Copy, Debug, PartialEq, Eq, Structural)]
pub struct RecallFeedback {
    pub id: RecallFeedbackId,
    pub era_id: EraId,
    pub operation_id: OperationId,
    pub actor: Actor,
    pub recall_case_id: RecallCaseId,
    pub recall_case_revision: u64,
    pub candidate: Option<RecordRevisionPin>,
    pub kind: RecallFeedbackKind,
    pub recorded_at_ms: i64,
}

impl View for RecallFeedback {
    type V = RecallFeedback;

    open spec fn view(&self) -> RecallFeedback {
        *self
    }
}

} // verus!
