//! Audit events, purge previews and stored documents.
use vstd::prelude::*;
use crate::context::TemporalFacts;
use crate::ids::{
    ActivationTraceId, AuditEventId, EraId, OperationId, RelationEvaluatorId, RelationProfileId,
    RelationSignalId,
};
use crate::records::evidence::{Actor, RecordRef, RecordState, Scope};
use crate::records::proposal::{AdjudicationAuthority, ProposalDecision};
use crate::records::relation::{ActivationTrace, RelationSignalPin};
use crate::table::{Replica, copies, opt_replica, opt_view};

verus! {

#[derive(Clone, Copy, Debug, PartialEq, Eq, Structural)]
pub enum AuditAction {
    EvidenceCaptured,
    ClaimCreated,
    RelationCreated,
    RecordRetracted,
    UserClaimRemembered,
    UserClaimCorrected,
    PurgeCommitted,
    ProposalSubmitted,
    ProposalReviewed,
    ProposalAdjudicated,
    RecallFeedbackRecorded,
    ArtifactCollectionCreated,
    ArtifactSnapshotImported,
    ArtifactPassagesCreated,
    RelationEvaluatorPut,
    RelationProfilePut,
    RelationSignalsPut,
    ShadowActivationRecorded,
    RelationEvaluatorStateChanged,
    RelationProfileStateChanged,
}

impl View for AuditAction {
    type V = AuditAction;

    open spec fn view(&self) -> AuditAction {
        *self
    }
}

#[derive(Clone, Copy, Debug, PartialEq, Eq, Structural)]
pub enum AuditOutcome {
    Committed,
}

impl View for AuditOutcome {
    type V = AuditOutcome;

    open spec fn view(&self) -> AuditOutcome {
        *self
    }
}

#[derive(Clone, Copy, Debug, PartialEq, Eq, Structural)]
pub struct AdjudicationAudit {
    pub decision: ProposalDecision,
    pub authority: AdjudicationAuthority,
}

impl View for AdjudicationAudit {
    type V = AdjudicationAudit;

    open spec fn view(&self) -> AdjudicationAudit {
        *self
    }
}

#[derive(Clone, Copy, Debug, PartialEq, Eq, Structural)]
pub enum DerivedRecordRef {
    RelationEvaluator(RelationEvaluatorId),
    RelationProfile(RelationProfileId),
    RelationSignal(RelationSignalId),
    ActivationTrace(ActivationTraceId),
}

impl View for DerivedRecordRef {
    type V = DerivedRecordRef;

    open spec fn view(&self) -> DerivedRecordRef {
        *self
    }
}

/// The audit header intentionally has no string or content-hash field.
#[derive(Debug, PartialEq, Eq)]
pub struct AuditEvent {
    pub id: AuditEventId,
    pub era_id: EraId,
    pub operation_id: OperationId,
    pub actor: Actor,
    pub action: AuditAction,
    pub subjects: Vec<RecordRef>,
    pub derived_subjects: Vec<DerivedRecordRef>,
    pub adjudication: Option<AdjudicationAudit>,
    pub outcome: AuditOutcome,
    pub recorded_at_ms: i64,
}

/// What a [`AuditEvent`] holds.
#[verifier::ext_equal]
pub struct AuditEventModel {
    pub id: AuditEventId,
    pub era_id: EraId,
    pub operation_id: OperationId,
    pub actor: Actor,
    pub action: AuditAction,
    pub subjects: Seq<RecordRef>,
    pub derived_subjects: Seq<DerivedRecordRef>,
    pub adjudication: Option<AdjudicationAudit>,
    pub outcome: AuditOutcome,
    pub recorded_at_ms: i64,
}

impl View for AuditEvent {
    type V = AuditEventModel;

    open spec fn view(&self) -> AuditEventModel {
        AuditEventModel {
            id: self.id,
            era_id: self.era_id,
            operation_id: self.operation_id,
            actor: self.actor,
            action: self.action,
            subjects: self.subjects@,
            derived_subjects: self.derived_subjects@,
            adjudication: self.adjudication,
            outcome: self.outcome,
            recorded_at_ms: self.recorded_at_ms,
        }
    }
}

impl Replica for AuditEvent {
    fn replica(&self) -> (r: Self) {
        AuditEvent {
            id: self.id,
            era_id: self.era_id,
            operation_id: self.operation_id,
            actor: self.actor,
            action: self.action,
            subjects: copies(&self.subjects),
            derived_subjects: copies(&self.derived_subjects),
            adjudication: self.adjudication,
            outcome: self.outcome,
            recorded_at_ms: self.recorded_at_ms,
        }
    }
}

impl Clone for AuditEvent {
    fn clone(&self) -> (r: Self)
        ensures
            r@ == self@,
    {
        self.replica()
    }
}

#[derive(Clone, Copy, Debug, PartialEq, Eq, Structural)]
pub struct PurgeDependency {
    pub record: RecordRef,
    pub expected_revision: u64,
}

impl View for PurgeDependency {
    type V = PurgeDependency;

    open spec fn view(&self) -> PurgeDependency {
        *self
    }
}

#[derive(Clone, Copy, Debug, PartialEq, Eq, Structural)]
pub struct RelationSignalPurgeDependency {
    pub signal: RelationSignalPin,
}

impl View for RelationSignalPurgeDependency {
    type V = RelationSignalPurgeDependency;

    open spec fn view(&self) -> RelationSignalPurgeDependency {
        *self
    }
}

#[derive(Debug, PartialEq, Eq)]
pub struct PurgePreview {
    pub target: RecordRef,
    pub expected_revision: u64,
    /// Logical payload removals. LSM tombstones do not guarantee physical byte erasure.
    pub payloads_to_make_unavailable: u32,
    pub invalidations: Vec<PurgeDependency>,
    pub relation_signal_invalidations: Vec<RelationSignalPurgeDependency>,
    pub activation_trace_invalidations: Vec<ActivationTraceId>,
    pub issued_at_ms: i64,
    pub expires_at_ms: i64,
    pub token: [u8; 32],
}

/// What a [`PurgePreview`] holds.
#[verifier::ext_equal]
pub struct PurgePreviewModel {
    pub target: RecordRef,
    pub expected_revision: u64,
    pub payloads_to_make_unavailable: u32,
    pub invalidations: Seq<PurgeDependency>,
    pub relation_signal_invalidations: Seq<RelationSignalPurgeDependency>,
    pub activation_trace_invalidations: Seq<ActivationTraceId>,
    pub issued_at_ms: i64,
    pub expires_at_ms: i64,
    pub token: [u8; 32],
}

impl View for PurgePreview {
    type V = PurgePreviewModel;

    open spec fn view(&self) -> PurgePreviewModel {
        PurgePreviewModel {
            target: self.target,
            expected_revision: self.expected_revision,
            payloads_to_make_unavailable: self.payloads_to_make_unavailable,
            invalidations: self.invalidations@,
            relation_signal_invalidations: self.relation_signal_invalidations@,
            activation_trace_invalidations: self.activation_trace_invalidations@,
            issued_at_ms: self.issued_at_ms,
            expires_at_ms: self.expires_at_ms,
            token: self.token,
        }
    }
}

impl Replica for PurgePreview {
    fn replica(&self) -> (r: Self) {
        PurgePreview {
            target: self.target,
            expected_revision: self.expected_revision,
            payloads_to_make_unavailable: self.payloads_to_make_unavailable,
            invalidations: copies(&self.invalidations),
            relation_signal_invalidations: copies(&self.relation_signal_invalidations),
            activation_trace_invalidations: copies(&self.activation_trace_invalidations),
            issued_at_ms: self.issued_at_ms,
            expires_at_ms: self.expires_at_ms,
            token: self.token,
        }
    }
}

impl Clone for PurgePreview {
    fn clone(&self) -> (r: Self)
        ensures
            r@ == self@,
    {
        self.replica()
    }
}

#[derive(Clone, Copy, Debug, PartialEq, Eq, Structural)]
pub struct RecordRevision {
    pub record: RecordRef,
    pub revision: u64,
    pub state: RecordState,
}

impl View for RecordRevision {
    type V = RecordRevision;

    open spec fn view(&self) -> RecordRevision {
        *self
    }
}

#[derive(Debug, PartialEq, Eq)]
pub struct PurgeReceipt {
    pub target: RecordRevision,
    pub invalidated: Vec<RecordRevision>,
    pub purged_relation_signals: Vec<RelationSignalPin>,
    pub purged_activation_traces: Vec<ActivationTraceId>,
    /// Payloads made unreadable through the database API.
    pub payloads_made_unavailable: u32,
}

/// What a [`PurgeReceipt`] holds.
#[verifier::ext_equal]
pub struct PurgeReceiptModel {
    pub target: RecordRevision,
    pub invalidated: Seq<RecordRevision>,
    pub purged_relation_signals: Seq<RelationSignalPin>,
    pub purged_activation_traces: Seq<ActivationTraceId>,
    pub payloads_made_unavailable: u32,
}

impl View for PurgeReceipt {
    type V = PurgeReceiptModel;

    open spec fn view(&self) -> PurgeReceiptModel {
        PurgeReceiptModel {
            target: self.target,
            invalidated: self.invalidated@,
            purged_relation_signals: self.purged_relation_signals@,
            purged_activation_traces: self.purged_activation_traces@,
            payloads_made_unavailable: self.payloads_made_unavailable,
        }
    }
}

impl Replica for PurgeReceipt {
    fn replica(&self) -> (r: Self) {
        PurgeReceipt {
            target: self.target,
            invalidated: copies(&self.invalidated),
            purged_relation_signals: copies(&self.purged_relation_signals),
            purged_activation_traces: copies(&self.purged_activation_traces),
            payloads_made_unavailable: self.payloads_made_unavailable,
        }
    }
}

impl Clone for PurgeReceipt {
    fn clone(&self) -> (r: Self)
        ensures
            r@ == self@,
    {
        self.replica()
    }
}

#[derive(Debug, PartialEq, Eq)]
pub struct RetractionReceipt {
    pub target: RecordRevision,
    pub invalidated: Vec<RecordRevision>,
}

/// What a [`RetractionReceipt`] holds.
#[verifier::ext_equal]
pub struct RetractionReceiptModel {
    pub target: RecordRevision,
    pub invalidated: Seq<RecordRevision>,
}

impl View for RetractionReceipt {
    type V = RetractionReceiptModel;

    open spec fn view(&self) -> RetractionReceiptModel {
        RetractionReceiptModel {
            target: self.target,
            invalidated: self.invalidated@,
        }
    }
}

impl Replica for RetractionReceipt {
    fn replica(&self) -> (r: Self) {
        RetractionReceipt {
            target: self.target,
            invalidated: copies(&self.invalidated),
        }
    }
}

impl Clone for RetractionReceipt {
    fn clone(&self) -> (r: Self)
        ensures
            r@ == self@,
    {
        self.replica()
    }
}

#[derive(Debug, PartialEq, Eq)]
pub struct LexicalDocument {
    pub record: RecordRef,
    pub revision: u64,
    pub scope: Scope,
    pub temporal: TemporalFacts,
    pub term_hashes: Vec<[u8; 32]>,
    pub exact_hash: [u8; 32],
}

/// What a [`LexicalDocument`] holds.
#[verifier::ext_equal]
pub struct LexicalDocumentModel {
    pub record: RecordRef,
    pub revision: u64,
    pub scope: Scope,
    pub temporal: TemporalFacts,
    pub term_hashes: Seq<[u8; 32]>,
    pub exact_hash: [u8; 32],
}

impl View for LexicalDocument {
    type V = LexicalDocumentModel;

    open spec fn view(&self) -> LexicalDocumentModel {
        LexicalDocumentModel {
            record: self.record,
            revision: self.revision,
            scope: self.scope,
            temporal: self.temporal,
            term_hashes: self.term_hashes@,
            exact_hash: self.exact_hash,
        }
    }
}

impl Replica for LexicalDocument {
    fn replica(&self) -> (r: Self) {
        LexicalDocument {
            record: self.record,
            revision: self.revision,
            scope: self.scope,
            temporal: self.temporal,
            term_hashes: copies(&self.term_hashes),
            exact_hash: self.exact_hash,
        }
    }
}

impl Clone for LexicalDocument {
    fn clone(&self) -> (r: Self)
        ensures
            r@ == self@,
    {
        self.replica()
    }
}

#[derive(Debug, PartialEq, Eq)]
pub struct RelationPayload {
    pub qualifier: Option<String>,
}

/// What a [`RelationPayload`] holds.
#[verifier::ext_equal]
pub struct RelationPayloadModel {
    pub qualifier: Option<Seq<char>>,
}

impl View for RelationPayload {
    type V = RelationPayloadModel;

    open spec fn view(&self) -> RelationPayloadModel {
        RelationPayloadModel {
            qualifier: opt_view(self.qualifier),
        }
    }
}

impl Replica for RelationPayload {
    fn replica(&self) -> (r: Self) {
        RelationPayload {
            qualifier: opt_replica(&self.qualifier),
        }
    }
}

impl Clone for RelationPayload {
    fn clone(&self) -> (r: Self)
        ensures
            r@ == self@,
    {
        self.replica()
    }
}

#[derive(Debug, PartialEq, Eq)]
pub struct ArtifactSnapshotPayload {
    pub media_type: String,
    pub content_digest: [u8; 32],
}

/// What a [`ArtifactSnapshotPayload`] holds.
#[verifier::ext_equal]
pub struct ArtifactSnapshotPayloadModel {
    pub media_type: Seq<char>,
    pub content_digest: [u8; 32],
}

impl View for ArtifactSnapshotPayload {
    type V = ArtifactSnapshotPayloadModel;

    open spec fn view(&self) -> ArtifactSnapshotPayloadModel {
        ArtifactSnapshotPayloadModel {
            media_type: self.media_type@,
            content_digest: self.content_digest,
        }
    }
}

impl Replica for ArtifactSnapshotPayload {
    fn replica(&self) -> (r: Self) {
        ArtifactSnapshotPayload {
            media_type: self.media_type.clone(),
            content_digest: self.content_digest,
        }
    }
}

impl Clone for ArtifactSnapshotPayload {
    fn clone(&self) -> (r: Self)
        ensures
            r@ == self@,
    {
        self.replica()
    }
}

} // verus!
