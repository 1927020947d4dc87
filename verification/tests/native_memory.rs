//! The memory store, as its users see it.
use std::cell::RefCell;
use std::collections::BTreeSet;
use std::fmt::Debug;
use std::rc::Rc;

use mmdb::{
    ActivationTrace, ActivationTraceId, Actor, AdjudicationAudit, AdjudicationAuthority,
    AppliedRecord, ArtifactCollectionId, ArtifactCollectionReceipt, ArtifactCollectionRecord,
    ArtifactEvidenceProvenance, ArtifactLocator, ArtifactPassageBatchReceipt, ArtifactPassageId,
    ArtifactPassageRecord, ArtifactRange, ArtifactSnapshotBlob, ArtifactSnapshotId,
    ArtifactSnapshotReceipt, ArtifactSnapshotRecord, AuditAction, AuditEvent,
    BeginTurnRecallResult, ClaimDomain, ClaimId, ClaimReceipt, ClaimRecord, CorrectUserClaim,
    CorrectionReceipt, DerivedDefinitionStateChange, EntityId, EntityKind, EntityRecord, EraId,
    EvidenceClass, EvidenceId, EvidenceLifecycle, EvidenceLifecycleTruth, EvidenceReceipt,
    EvidenceRecord, EvidenceRevisionPin, InspectedRecord, MAX_ACTIVATION_CANDIDATES,
    MAX_ARTIFACT_PASSAGE_BATCH, MAX_ARTIFACT_SNAPSHOT_BYTES, MAX_ENTITY_ALIASES,
    MAX_EVIDENCE_SOURCES, MAX_EVIDENCE_TEXT_BYTES, MAX_INDEX_TERMS_PER_RECORD,
    MAX_OPERATOR_LIST_LIMIT, MAX_PROPOSAL_CHANGES, MAX_RECALL_SCOPES, MAX_RELATION_SIGNAL_BATCH,
    MAX_SOURCE_EVENT_ID_BYTES, MAX_TEXT_BYTES, NativeMetadata, NewArtifactCollection,
    NewArtifactPassage, NewArtifactPassageBatch, NewArtifactSnapshot, NewClaim, NewEvidence,
    NewProposalBundle, NewProposalReview, NewRecallFeedback, NewRelationEvaluatorRevision,
    NewRelationProfileRevision, NewRelationSignal, NewRelationSignalBatch, NewSemanticRelation,
    OperationContext, OperationId, PURGE_PREVIEW_TTL_MS, ProposalAdjudication,
    ProposalAdjudicationReceipt, ProposalChange, ProposalDecision, ProposalDraftId,
    ProposalEndpoint, ProposalId, ProposalReceipt, ProposalRecord, ProposalReviewCase,
    ProposalReviewCaseId, ProposalReviewFinding, ProposalReviewReceipt, ProposalReviewVerdict,
    ProposalRevisionHeader, ProposalSourceJobId, ProposalStatus, PurgePreview, PurgeReceipt,
    RELATION_FIXED_POINT_SCALE, RecallCase, RecallCaseId, RecallCasePin, RecallFeedback,
    RecallFeedbackId, RecallFeedbackKind, RecallQuery, RecallResult, RecordRef, RecordRevisionPin,
    RecordState, RelationDimension, RelationDimensionScore, RelationEvaluatorId,
    RelationEvaluatorKind, RelationEvaluatorPin, RelationEvaluatorReceipt,
    RelationEvaluatorRecord, RelationEvaluatorStateReceipt, RelationHeadWeight, RelationId,
    RelationKind, RelationProfileAvailability, RelationProfileId, RelationProfilePin,
    RelationProfileReceipt, RelationProfileRecord, RelationProfileStateReceipt, RelationReceipt,
    RelationSignalAvailability, RelationSignalBatchReceipt, RelationSignalId,
    RelationSignalPurgeDependency, RelationSignalRecord, RelationSignalStaleReason,
    RelationSignalUnavailableReason, RememberReceipt, RememberUserClaim, RetractionReceipt,
    ReviewFindingCode, RevisionSelector, Scope, SemanticRelationRecord, ShadowActivationRequest,
    TemporalFacts, TerminalTurnStatus, Ulid, Write, settle_metadata,
};
use mmdb::text::tokenize;
use mmdb::{MemoryDatabase as Store, MemoryError as Fault};

/// A fault with its words.
#[derive(Debug)]
enum MemoryError {
    Corrupt(String),
    StoreEraMismatch { outer: String, internal: String },
    NotFound(RecordRef),
    OperationConflict(OperationId),
    RevisionConflict { expected: u64, actual: u64 },
    InadmissibleSource { evidence_id: EvidenceId, class: EvidenceClass, domain: ClaimDomain },
    SourceUnavailable(EvidenceId),
    ScopeMismatch,
    Unauthorized,
    InvalidInput(String),
    StalePurgePreview,
    PurgePreviewNotYetValid { issued_at_ms: i64, now_ms: i64 },
    PurgePreviewExpired { expires_at_ms: i64, now_ms: i64 },
}

type MemoryResult<T> = Result<T, MemoryError>;

impl From<Fault> for MemoryError {
    fn from(fault: Fault) -> Self {
        match fault {
            Fault::Corrupt(fault) => MemoryError::Corrupt(fault.message()),
            Fault::StoreEraMismatch { outer, internal } => MemoryError::StoreEraMismatch { outer, internal },
            Fault::NotFound(record) => MemoryError::NotFound(record),
            Fault::OperationConflict(id) => MemoryError::OperationConflict(id),
            Fault::RevisionConflict { expected, actual } => MemoryError::RevisionConflict { expected, actual },
            Fault::InadmissibleSource { evidence_id, class, domain } => {
                MemoryError::InadmissibleSource { evidence_id, class, domain }
            }
            Fault::SourceUnavailable(id) => MemoryError::SourceUnavailable(id),
            Fault::ScopeMismatch => MemoryError::ScopeMismatch,
            Fault::Unauthorized => MemoryError::Unauthorized,
            Fault::InvalidInput(fault) => MemoryError::InvalidInput(fault.message()),
            Fault::StalePurgePreview => MemoryError::StalePurgePreview,
            Fault::PurgePreviewNotYetValid { issued_at_ms, now_ms } => {
                MemoryError::PurgePreviewNotYetValid { issued_at_ms, now_ms }
            }
            Fault::PurgePreviewExpired { expires_at_ms, now_ms } => {
                MemoryError::PurgePreviewExpired { expires_at_ms, now_ms }
            }
        }
    }
}

/// The place where a store is kept.
type Root = Rc<RefCell<Store>>;

/// A handle on a store. Requests are encoded by their debug form.
struct MemoryDatabase {
    store: Root,
}

fn encoded<T: Debug>(value: &T) -> Vec<u8> {
    format!("{value:?}").into_bytes()
}

impl MemoryDatabase {
    fn open(root: &Root) -> MemoryResult<MemoryDatabase> {
        Ok(MemoryDatabase { store: Rc::clone(root) })
    }

    fn capture_evidence(&self, operation: OperationContext, input: NewEvidence) -> MemoryResult<EvidenceReceipt> {
        let request = encoded(&input);
        Ok(self.store.borrow_mut().capture_evidence(operation, input, &request)?)
    }

    fn create_claim(&self, operation: OperationContext, input: NewClaim) -> MemoryResult<ClaimReceipt> {
        let request = encoded(&input);
        Ok(self.store.borrow_mut().create_claim(operation, input, &request)?)
    }

    fn create_semantic_relation(&self, operation: OperationContext, input: NewSemanticRelation) -> MemoryResult<RelationReceipt> {
        let request = encoded(&input);
        Ok(self.store.borrow_mut().create_semantic_relation(operation, input, &request)?)
    }

    fn remember_user_claim(&self, operation: OperationContext, input: RememberUserClaim) -> MemoryResult<RememberReceipt> {
        let request = encoded(&input);
        Ok(self.store.borrow_mut().remember_user_claim(operation, input, &request)?)
    }

    fn correct_user_claim(&self, operation: OperationContext, input: CorrectUserClaim) -> MemoryResult<CorrectionReceipt> {
        let request = encoded(&input);
        Ok(self.store.borrow_mut().correct_user_claim(operation, input, &request)?)
    }

    fn submit_proposal(&self, operation: OperationContext, input: NewProposalBundle) -> MemoryResult<ProposalReceipt> {
        let request = encoded(&input);
        Ok(self.store.borrow_mut().submit_proposal(operation, input, &request)?)
    }

    fn review_proposal(&self, operation: OperationContext, input: NewProposalReview) -> MemoryResult<ProposalReviewReceipt> {
        let request = encoded(&input);
        Ok(self.store.borrow_mut().review_proposal(operation, input, &request)?)
    }

    fn adjudicate_proposal(&self, operation: OperationContext, input: ProposalAdjudication) -> MemoryResult<ProposalAdjudicationReceipt> {
        let request = encoded(&input);
        Ok(self.store.borrow_mut().adjudicate_proposal(operation, input, &request)?)
    }

    fn record_recall_feedback(&self, operation: OperationContext, input: NewRecallFeedback) -> MemoryResult<RecallFeedback> {
        let request = encoded(&input);
        Ok(self.store.borrow_mut().record_recall_feedback(operation, input, &request)?)
    }

    fn create_artifact_collection(&self, operation: OperationContext, input: NewArtifactCollection) -> MemoryResult<ArtifactCollectionReceipt> {
        let request = encoded(&input);
        Ok(self.store.borrow_mut().create_artifact_collection(operation, input, &request)?)
    }

    fn create_artifact_passages(&self, operation: OperationContext, input: NewArtifactPassageBatch) -> MemoryResult<ArtifactPassageBatchReceipt> {
        let request = encoded(&input);
        Ok(self.store.borrow_mut().create_artifact_passages(operation, input, &request)?)
    }

    fn put_relation_evaluator(&self, operation: OperationContext, input: NewRelationEvaluatorRevision) -> MemoryResult<RelationEvaluatorReceipt> {
        let request = encoded(&input);
        Ok(self.store.borrow_mut().put_relation_evaluator(operation, input, &request)?)
    }

    fn put_relation_profile(&self, operation: OperationContext, input: NewRelationProfileRevision) -> MemoryResult<RelationProfileReceipt> {
        let request = encoded(&input);
        Ok(self.store.borrow_mut().put_relation_profile(operation, input, &request)?)
    }

    fn put_relation_signals(&self, operation: OperationContext, input: NewRelationSignalBatch) -> MemoryResult<RelationSignalBatchReceipt> {
        let request = encoded(&input);
        Ok(self.store.borrow_mut().put_relation_signals(operation, input, &request)?)
    }

    fn shadow_activate(&self, operation: OperationContext, input: ShadowActivationRequest) -> MemoryResult<ActivationTrace> {
        let request = encoded(&input);
        Ok(self.store.borrow_mut().shadow_activate(operation, input, &request)?)
    }

    fn commit_purge(&self, operation: OperationContext, input: PurgePreview) -> MemoryResult<PurgeReceipt> {
        let request = encoded(&input);
        Ok(self.store.borrow_mut().commit_purge(operation, input, &request)?)
    }

    fn import_artifact_snapshot(
        &self,
        operation: OperationContext,
        input: NewArtifactSnapshot,
    ) -> MemoryResult<ArtifactSnapshotReceipt> {
        let request = encoded(&(
            input.collection_id,
            input.expected_collection_revision,
            input.temporal,
            input.media_type.clone(),
        ));
        Ok(self.store.borrow_mut().import_artifact_snapshot(operation, input, &request)?)
    }

    fn retract(
        &self,
        operation: OperationContext,
        record: RecordRef,
        expected_revision: u64,
    ) -> MemoryResult<RetractionReceipt> {
        let request = encoded(&(record, expected_revision));
        Ok(self.store.borrow_mut().retract(operation, record, expected_revision, &request)?)
    }

    fn set_relation_evaluator_state(
        &self,
        operation: OperationContext,
        pin: RelationEvaluatorPin,
        change: DerivedDefinitionStateChange,
    ) -> MemoryResult<RelationEvaluatorStateReceipt> {
        let request = encoded(&(pin, change));
        Ok(self.store.borrow_mut().set_relation_evaluator_state(operation, pin, change, &request)?)
    }

    fn set_relation_profile_state(
        &self,
        operation: OperationContext,
        pin: RelationProfilePin,
        change: DerivedDefinitionStateChange,
    ) -> MemoryResult<RelationProfileStateReceipt> {
        let request = encoded(&(pin, change));
        Ok(self.store.borrow_mut().set_relation_profile_state(operation, pin, change, &request)?)
    }

    fn recall(&self, query: RecallQuery) -> MemoryResult<RecallResult> {
        let request = encoded(&query);
        Ok(self.store.borrow_mut().recall(query, &request)?)
    }

    fn begin_turn_recall(
        &self,
        operation: OperationContext,
        evidence: NewEvidence,
        query: RecallQuery,
    ) -> MemoryResult<BeginTurnRecallResult> {
        let evidence_request = encoded(&evidence);
        let query_request = encoded(&query);
        Ok(self.store.borrow_mut().begin_turn_recall(
            operation,
            evidence,
            &evidence_request,
            query,
            &query_request,
        )?)
    }

    fn records_in_observed_range(
        &self,
        from_ms: Option<i64>,
        to_ms: Option<i64>,
        limit: usize,
    ) -> MemoryResult<Vec<RecordRef>> {
        Ok(self.store.borrow().records_in_observed_range(from_ms, to_ms, limit, None))
    }

    fn inspect_evidence(&self, id: EvidenceId) -> MemoryResult<Option<EvidenceRecord>> {
        Ok(self.store.borrow().inspect_evidence(id)?)
    }

    fn inspect_claim(&self, id: ClaimId) -> MemoryResult<Option<ClaimRecord>> {
        Ok(self.store.borrow().inspect_claim(id)?)
    }

    fn inspect_entity(&self, id: EntityId) -> MemoryResult<Option<EntityRecord>> {
        Ok(self.store.borrow().inspect_entity(id)?)
    }

    fn inspect_semantic_relation(&self, id: RelationId) -> MemoryResult<Option<SemanticRelationRecord>> {
        Ok(self.store.borrow().inspect_semantic_relation(id)?)
    }

    fn inspect_proposal(&self, id: ProposalId) -> MemoryResult<Option<ProposalRecord>> {
        Ok(self.store.borrow().inspect_proposal(id)?)
    }

    fn inspect_proposal_review(&self, id: ProposalReviewCaseId) -> MemoryResult<Option<ProposalReviewCase>> {
        Ok(self.store.borrow().inspect_proposal_review(id)?)
    }

    fn inspect_artifact_collection(&self, id: ArtifactCollectionId) -> MemoryResult<Option<ArtifactCollectionRecord>> {
        Ok(self.store.borrow().inspect_artifact_collection(id)?)
    }

    fn inspect_artifact_snapshot(&self, id: ArtifactSnapshotId) -> MemoryResult<Option<ArtifactSnapshotRecord>> {
        Ok(self.store.borrow().inspect_artifact_snapshot(id)?)
    }

    fn materialize_artifact_snapshot(&self, id: ArtifactSnapshotId) -> MemoryResult<Option<ArtifactSnapshotBlob>> {
        Ok(self.store.borrow().materialize_artifact_snapshot(id)?)
    }

    fn artifact_provenance_for_evidence(&self, id: EvidenceId) -> MemoryResult<Option<ArtifactEvidenceProvenance>> {
        Ok(self.store.borrow().artifact_provenance_for_evidence(id)?)
    }

    fn inspect_artifact_passage(&self, id: ArtifactPassageId) -> MemoryResult<Option<ArtifactPassageRecord>> {
        Ok(self.store.borrow().inspect_artifact_passage(id)?)
    }

    fn inspect_activation_trace(&self, id: ActivationTraceId) -> MemoryResult<Option<ActivationTrace>> {
        Ok(self.store.borrow().inspect_activation_trace(id)?)
    }

    fn inspect_recall_case(&self, id: RecallCaseId) -> MemoryResult<Option<RecallCase>> {
        Ok(self.store.borrow().inspect_recall_case(id)?)
    }

    fn inspect_recall_feedback(&self, id: RecallFeedbackId) -> MemoryResult<Option<RecallFeedback>> {
        Ok(self.store.borrow().inspect_recall_feedback(id)?)
    }

    fn audit_events(&self, limit: usize) -> MemoryResult<Vec<AuditEvent>> {
        Ok(self.store.borrow().audit_events(limit)?)
    }

    fn list_proposals(&self, limit: usize) -> MemoryResult<Vec<ProposalRevisionHeader>> {
        Ok(self.store.borrow().list_proposals(limit)?)
    }

    fn list_pending_proposals(&self, limit: usize) -> MemoryResult<Vec<ProposalRevisionHeader>> {
        Ok(self.store.borrow().list_pending_proposals(limit)?)
    }

    fn list_awaiting_adjudication(&self, limit: usize) -> MemoryResult<Vec<ProposalRevisionHeader>> {
        Ok(self.store.borrow().list_awaiting_adjudication(limit)?)
    }

    fn proposal_by_source_job(&self, id: ProposalSourceJobId) -> MemoryResult<Option<ProposalRecord>> {
        Ok(self.store.borrow().proposal_by_source_job(id)?)
    }

    fn latest_proposal_review(&self, id: ProposalId) -> MemoryResult<Option<ProposalReviewCase>> {
        Ok(self.store.borrow().latest_proposal_review(id)?)
    }

    fn inspect(&self, record: RecordRef, revision: RevisionSelector) -> MemoryResult<Option<InspectedRecord>> {
        Ok(self.store.borrow().inspect(record, revision)?)
    }

    fn inspect_relation_evaluator(&self, id: RelationEvaluatorId, selector: RevisionSelector) -> MemoryResult<Option<RelationEvaluatorRecord>> {
        Ok(self.store.borrow().inspect_relation_evaluator(id, selector)?)
    }

    fn inspect_relation_profile(&self, id: RelationProfileId, selector: RevisionSelector) -> MemoryResult<Option<RelationProfileRecord>> {
        Ok(self.store.borrow().inspect_relation_profile(id, selector)?)
    }

    fn inspect_relation_signal(&self, id: RelationSignalId, selector: RevisionSelector) -> MemoryResult<Option<RelationSignalRecord>> {
        Ok(self.store.borrow().inspect_relation_signal(id, selector)?)
    }

    fn preview_purge(&self, actor: Actor, target: RecordRef) -> MemoryResult<PurgePreview> {
        Ok(self.store.borrow().preview_purge(actor, target)?)
    }

    fn operational_fingerprint(&self, domain: &str, input: &[u8]) -> MemoryResult<[u8; 32]> {
        Ok(self.store.borrow().operational_fingerprint(domain, input)?)
    }

    fn source_event_fingerprint(&self, source_event_id: &str) -> MemoryResult<[u8; 32]> {
        Ok(self.store.borrow().source_event_fingerprint(source_event_id)?)
    }
}

/// Settles a new store and opens it.
fn create_test_database() -> ((), Root, MemoryDatabase) {
    let era = Ulid::new();
    let (store, metadata) = Store::open(&era_text(era), None, true, Ulid::new(), Ulid::new()).unwrap();
    assert_eq!(store.era_id(), EraId(era));
    assert_eq!(metadata.store_era_id, era_text(era));
    let root: Root = Rc::new(RefCell::new(store));
    let database = MemoryDatabase::open(&root).unwrap();
    ((), root, database)
}

fn era_text(era: Ulid) -> String {
    era.text()
}

#[test]
fn private_digest_metadata_must_match_the_outer_store_era() {
    let outer = era_text(Ulid::new());
    let wrong = NativeMetadata {
        store_era_id: era_text(Ulid::new()),
        digest_key: [7; 32],
    };
    assert!(matches!(
        settle_metadata(Some(wrong.clone()), &outer, true, Ulid::new(), Ulid::new()).map_err(MemoryError::from),
        Err(MemoryError::StoreEraMismatch { outer: told, internal })
            if internal == wrong.store_era_id && told == outer
    ));
    assert_eq!(
        settle_metadata(Some(wrong.clone()), &wrong.store_era_id, false, Ulid::new(), Ulid::new()).unwrap(),
        wrong
    );
}

#[test]
fn populated_store_with_missing_native_metadata_fails_closed() {
    let error = match settle_metadata(None, &era_text(Ulid::new()), false, Ulid::new(), Ulid::new()) {
        Ok(_) => panic!("missing metadata in a populated store must be corruption"),
        Err(error) => MemoryError::from(error),
    };
    assert!(matches!(
        error,
        MemoryError::Corrupt(message) if message.contains("native metadata")
    ));
}

#[test]
fn begin_turn_captures_raw_evidence_but_recalls_the_pre_turn_view() {
    let (_parent, _root, database) = create_test_database();
    let proposal_source = database
        .capture_evidence(
            OperationContext::new(Actor::System),
            NewEvidence {
                class: EvidenceClass::ImportedSource,
                scope: Scope::Personal,
                temporal: TemporalFacts::observed_at(50),
                lifecycle: EvidenceLifecycle::Direct,
                text: "source available before the turn".into(),
            },
        )
        .unwrap();
    for index in 0..8 {
        database
            .capture_evidence(
                OperationContext::new(Actor::System),
                NewEvidence {
                    class: EvidenceClass::ToolObservation,
                    scope: Scope::Personal,
                    temporal: TemporalFacts::observed_at(60 + index),
                    lifecycle: EvidenceLifecycle::Direct,
                    text: format!("race_marker baseline {index}"),
                },
            )
            .unwrap();
    }

    let begin_operation = OperationContext::new(Actor::User);
    let result = database
        .begin_turn_recall(
            begin_operation,
            NewEvidence {
                class: EvidenceClass::UserAssertion,
                scope: Scope::Personal,
                temporal: TemporalFacts::observed_at(100),
                lifecycle: EvidenceLifecycle::Direct,
                text: "race_marker raw current turn".into(),
            },
            RecallQuery {
                text: "race_marker".into(),
                scopes: vec![Scope::Personal],
                observed_from_ms: None,
                observed_to_ms: None,
                valid_at_ms: None,
                limit: 100,
            },
        )
        .unwrap();
    assert!(database
        .audit_events(usize::MAX)
        .unwrap()
        .iter()
        .any(|event| {
            event.operation_id == begin_operation.id && event.action == AuditAction::EvidenceCaptured
        }));
    let later_claim = database
        .create_claim(
            OperationContext::new(Actor::System),
            NewClaim {
                domain: ClaimDomain::ExternalFact,
                scope: Scope::Personal,
                temporal: TemporalFacts::observed_at(101),
                proposition: "race_marker CONCURRENT_WRITE".into(),
                evidence_ids: vec![proposal_source.id],
            },
        )
        .unwrap();
    assert_eq!(
        database
            .inspect_evidence(result.evidence.id)
            .unwrap()
            .unwrap()
            .text
            .as_deref(),
        Some("race_marker raw current turn")
    );
    assert!(result
        .recall
        .citations
        .iter()
        .all(|citation| citation.record != RecordRef::Evidence(result.evidence.id)));
    assert!(!result.recall.citations.is_empty());
    assert!(result
        .recall
        .citations
        .iter()
        .all(|citation| !citation.text.contains("CONCURRENT_WRITE")));
    assert_eq!(
        database
            .inspect_claim(later_claim.id)
            .unwrap()
            .unwrap()
            .header
            .state,
        RecordState::Active
    );
}

#[test]
fn evidence_preserves_exact_bytes_while_rejecting_blank_input() {
    let (_parent, _root, database) = create_test_database();
    let exact = " \n\t{\"value\":\" exact tool payload \"}\r\n ".to_string();
    let captured = database
        .capture_evidence(
            OperationContext::new(Actor::System),
            NewEvidence {
                class: EvidenceClass::ToolObservation,
                scope: Scope::Personal,
                temporal: TemporalFacts::observed_at(100),
                lifecycle: EvidenceLifecycle::TerminalTurn {
                    source_event_id: "tool-call-exact-bytes".into(),
                    status: TerminalTurnStatus::Completed,
                },
                text: exact.clone(),
            },
        )
        .unwrap();

    assert_eq!(
        database
            .inspect_evidence(captured.id)
            .unwrap()
            .unwrap()
            .text
            .as_deref(),
        Some(exact.as_str())
    );
    assert!(matches!(
        database.capture_evidence(
            OperationContext::new(Actor::User),
            NewEvidence {
                class: EvidenceClass::UserAssertion,
                scope: Scope::Personal,
                temporal: TemporalFacts::observed_at(100),
                lifecycle: EvidenceLifecycle::Direct,
                text: " \n\t\r ".into(),
            },
        ),
        Err(MemoryError::InvalidInput(message)) if message.contains("cannot be empty")
    ));
}

#[test]
fn evidence_over_lexical_term_budget_roundtrips_exactly_and_recalls_an_indexed_prefix() {
    let (_parent, _root, database) = create_test_database();
    let mut exact = String::from("lexical_prefix_marker\n");
    for index in 0..(MAX_INDEX_TERMS_PER_RECORD + 64) {
        exact.push_str(&format!("evidence_term_{index:05} "));
    }
    exact.push_str("\nexact trailing bytes  \r\n");
    assert!(tokenize(&exact).len() > MAX_INDEX_TERMS_PER_RECORD);
    assert!(exact.len() < MAX_EVIDENCE_TEXT_BYTES);

    let captured = database
        .capture_evidence(
            OperationContext::new(Actor::System),
            NewEvidence {
                class: EvidenceClass::ImportedSource,
                scope: Scope::Personal,
                temporal: TemporalFacts::observed_at(101),
                lifecycle: EvidenceLifecycle::Direct,
                text: exact.clone(),
            },
        )
        .unwrap();
    assert_eq!(
        database
            .inspect_evidence(captured.id)
            .unwrap()
            .unwrap()
            .text
            .as_deref(),
        Some(exact.as_str())
    );
    let recalled = database
        .recall(RecallQuery {
            text: "lexical_prefix_marker".into(),
            scopes: vec![Scope::Personal],
            observed_from_ms: None,
            observed_to_ms: None,
            valid_at_ms: None,
            limit: 10,
        })
        .unwrap();
    assert_eq!(recalled.citations.len(), 1);
    assert_eq!(
        recalled.citations[0].record,
        RecordRef::Evidence(captured.id)
    );
    assert_eq!(recalled.citations[0].text, exact);
}

#[test]
fn evidence_authority_claim_cas_and_operation_replay_are_enforced() {
    let (_parent, _root, database) = create_test_database();
    let evidence_operation = OperationContext::new(Actor::User);
    let evidence_input = NewEvidence {
        class: EvidenceClass::UserAssertion,
        scope: Scope::Personal,
        temporal: TemporalFacts::observed_at(100),
        lifecycle: EvidenceLifecycle::Direct,
        text: "I prefer Rust".into(),
    };
    let first = database
        .capture_evidence(evidence_operation, evidence_input.clone())
        .unwrap();
    let replay = database
        .capture_evidence(evidence_operation, evidence_input)
        .unwrap();
    assert_eq!(replay, first);
    assert!(matches!(
        database.capture_evidence(
            evidence_operation,
            NewEvidence {
                class: EvidenceClass::UserAssertion,
                scope: Scope::Personal,
                temporal: TemporalFacts::observed_at(100),
                lifecycle: EvidenceLifecycle::Direct,
                text: "I prefer Go".into(),
            },
        ),
        Err(MemoryError::OperationConflict(id)) if id == evidence_operation.id
    ));

    assert!(matches!(
        database.create_claim(
            OperationContext::new(Actor::System),
            NewClaim {
                domain: ClaimDomain::ExternalFact,
                scope: Scope::Personal,
                temporal: TemporalFacts::observed_at(100),
                proposition: "Rust is the user's preference".into(),
                evidence_ids: vec![first.id],
            },
        ),
        Err(MemoryError::InadmissibleSource { evidence_id, .. }) if evidence_id == first.id
    ));

    let claim = database
        .create_claim(
            OperationContext::new(Actor::User),
            NewClaim {
                domain: ClaimDomain::UserPreference,
                scope: Scope::Personal,
                temporal: TemporalFacts::observed_at(100),
                proposition: "The user prefers Rust".into(),
                evidence_ids: vec![first.id],
            },
        )
        .unwrap();
    assert_eq!(
        database
            .inspect_claim(claim.id)
            .unwrap()
            .unwrap()
            .proposition
            .as_deref(),
        Some("The user prefers Rust")
    );
    assert!(matches!(
        database.retract(
            OperationContext::new(Actor::User),
            RecordRef::Claim(claim.id),
            2,
        ),
        Err(MemoryError::RevisionConflict {
            expected: 2,
            actual: 1
        })
    ));
    let retracted = database
        .retract(
            OperationContext::new(Actor::User),
            RecordRef::Claim(claim.id),
            1,
        )
        .unwrap();
    assert_eq!(retracted.target.revision, 2);
    assert_eq!(retracted.target.state, RecordState::Retracted);

    let audit_json = format!("{:?}", database.audit_events(10).unwrap());
    assert!(!audit_json.contains("prefer Rust"));
    assert!(!audit_json.contains("proposition"));
}

#[test]
fn semantic_relation_identity_is_stable_across_cas_retraction() {
    let (_parent, _root, database) = create_test_database();
    let evidence = database
        .capture_evidence(
            OperationContext::new(Actor::User),
            NewEvidence {
                class: EvidenceClass::UserAssertion,
                scope: Scope::Personal,
                temporal: TemporalFacts::observed_at(100),
                lifecycle: EvidenceLifecycle::Direct,
                text: "I prefer Rust".into(),
            },
        )
        .unwrap();
    let claim = database
        .create_claim(
            OperationContext::new(Actor::User),
            NewClaim {
                domain: ClaimDomain::UserPreference,
                scope: Scope::Personal,
                temporal: TemporalFacts::observed_at(100),
                proposition: "The user prefers Rust".into(),
                evidence_ids: vec![evidence.id],
            },
        )
        .unwrap();
    let relation = database
        .create_semantic_relation(
            OperationContext::new(Actor::System),
            NewSemanticRelation {
                from: RecordRef::Evidence(evidence.id),
                to: RecordRef::Claim(claim.id),
                kind: RelationKind::Supports,
                scope: Scope::Personal,
                evidence_ids: vec![evidence.id],
                qualifier: Some("direct support".into()),
            },
        )
        .unwrap();
    let before = database
        .inspect_semantic_relation(relation.id)
        .unwrap()
        .unwrap();
    let retracted = database
        .retract(
            OperationContext::new(Actor::System),
            RecordRef::SemanticRelation(relation.id),
            1,
        )
        .unwrap();
    assert_eq!(retracted.target.revision, 2);
    let after = database
        .inspect_semantic_relation(relation.id)
        .unwrap()
        .unwrap();
    assert_eq!(after.header.from, before.header.from);
    assert_eq!(after.header.to, before.header.to);
    assert_eq!(after.header.kind, before.header.kind);
    assert_eq!(after.qualifier.as_deref(), Some("direct support"));
    assert_eq!(after.header.state, RecordState::Retracted);
}

#[test]
fn relation_kinds_enforce_endpoint_shapes_for_direct_and_proposed_writes() {
    let (_parent, _root, database) = create_test_database();
    let source = imported_source(&database, "relation endpoint source");
    let make_claim = |text: &str| {
        database
            .create_claim(
                OperationContext::new(Actor::System),
                NewClaim {
                    domain: ClaimDomain::ExternalFact,
                    scope: Scope::Personal,
                    temporal: TemporalFacts::observed_at(500),
                    proposition: text.into(),
                    evidence_ids: vec![source.id],
                },
            )
            .unwrap()
    };
    let first = make_claim("first claim");
    let second = make_claim("second claim");

    assert!(matches!(
        database.create_semantic_relation(
            OperationContext::new(Actor::System),
            NewSemanticRelation {
                from: RecordRef::Claim(first.id),
                to: RecordRef::Evidence(source.id),
                kind: RelationKind::Supersedes,
                scope: Scope::Personal,
                evidence_ids: vec![source.id],
                qualifier: None,
            },
        ),
        Err(MemoryError::InvalidInput(message)) if message.contains("same-kind")
    ));
    assert!(database
        .create_semantic_relation(
            OperationContext::new(Actor::System),
            NewSemanticRelation {
                from: RecordRef::Claim(second.id),
                to: RecordRef::Claim(first.id),
                kind: RelationKind::Supersedes,
                scope: Scope::Personal,
                evidence_ids: vec![source.id],
                qualifier: None,
            },
        )
        .is_ok());

    let claim_draft = ProposalDraftId::new();
    let entity_draft = ProposalDraftId::new();
    assert!(matches!(
        database.submit_proposal(
            OperationContext::new(Actor::Assistant),
            NewProposalBundle {
                source_job_id: ProposalSourceJobId::new(),
                scope: Scope::Personal,
                source_evidence: vec![EvidenceRevisionPin {
                    id: source.id,
                    revision: 1,
                }],
                changes: vec![
                    ProposalChange::CreateClaim {
                        draft_id: claim_draft,
                        domain: ClaimDomain::ExternalFact,
                        temporal: TemporalFacts::observed_at(500),
                        proposition: "draft claim".into(),
                        evidence_ids: vec![source.id],
                    },
                    ProposalChange::CreateEntity {
                        draft_id: entity_draft,
                        kind: EntityKind::Concept,
                        temporal: TemporalFacts::observed_at(500),
                        canonical_name: "draft entity".into(),
                        aliases: Vec::new(),
                        evidence_ids: vec![source.id],
                    },
                    ProposalChange::CreateRelation {
                        draft_id: ProposalDraftId::new(),
                        from: ProposalEndpoint::Draft(claim_draft),
                        to: ProposalEndpoint::Draft(entity_draft),
                        kind: RelationKind::Supersedes,
                        evidence_ids: vec![source.id],
                        qualifier: None,
                    },
                ],
            },
        ),
        Err(MemoryError::InvalidInput(message)) if message.contains("same-kind")
    ));
}

#[test]
fn unicode_lexical_and_time_recall_returns_revision_citations_and_ids_only_case() {
    let (_parent, _root, database) = create_test_database();
    let earlier = database
        .capture_evidence(
            OperationContext::new(Actor::User),
            NewEvidence {
                class: EvidenceClass::UserAssertion,
                scope: Scope::Personal,
                temporal: TemporalFacts::observed_at(100),
                lifecycle: EvidenceLifecycle::Direct,
                text: "我喜欢本地记忆系统".into(),
            },
        )
        .unwrap();
    database
        .capture_evidence(
            OperationContext::new(Actor::User),
            NewEvidence {
                class: EvidenceClass::UserAssertion,
                scope: Scope::Personal,
                temporal: TemporalFacts::observed_at(300),
                lifecycle: EvidenceLifecycle::Direct,
                text: "稍后的记忆系统记录".into(),
            },
        )
        .unwrap();
    database
        .capture_evidence(
            OperationContext::new(Actor::User),
            NewEvidence {
                class: EvidenceClass::UserAssertion,
                scope: Scope::Personal,
                temporal: TemporalFacts::observed_at(150),
                lifecycle: EvidenceLifecycle::Direct,
                text: "Résumé notes".into(),
            },
        )
        .unwrap();

    let recalled = database
        .recall(RecallQuery {
            text: "记忆系统".into(),
            scopes: vec![Scope::Personal],
            observed_from_ms: Some(0),
            observed_to_ms: Some(200),
            valid_at_ms: None,
            limit: 10,
        })
        .unwrap();
    assert_eq!(recalled.citations.len(), 1);
    assert_eq!(
        recalled.citations[0].record,
        RecordRef::Evidence(earlier.id)
    );
    assert_eq!(recalled.citations[0].revision, 1);
    assert!(recalled.citations[0].matched_term_count > 0);

    let exact = database
        .recall(RecallQuery {
            text: "我喜欢本地记忆系统".into(),
            scopes: vec![Scope::Personal],
            observed_from_ms: None,
            observed_to_ms: None,
            valid_at_ms: None,
            limit: 1,
        })
        .unwrap();
    assert!(exact.citations[0].exact_match);

    let non_ascii_word = database
        .recall(RecallQuery {
            text: "RÉSUMÉ".into(),
            scopes: vec![Scope::Personal],
            observed_from_ms: None,
            observed_to_ms: None,
            valid_at_ms: None,
            limit: 1,
        })
        .unwrap();
    assert_eq!(non_ascii_word.citations[0].text, "Résumé notes");

    let time_only = database
        .recall(RecallQuery {
            text: String::new(),
            scopes: vec![Scope::Personal],
            observed_from_ms: Some(250),
            observed_to_ms: Some(350),
            valid_at_ms: None,
            limit: 10,
        })
        .unwrap();
    assert_eq!(time_only.citations.len(), 1);
    assert_eq!(time_only.citations[0].temporal.observed_at_ms, 300);

    let case = database
        .inspect_recall_case(recalled.case_id)
        .unwrap()
        .unwrap();
    assert_eq!(case.candidates[0].record, RecordRef::Evidence(earlier.id));
    let case_json = format!("{:?}", case);
    assert!(!case_json.contains("记忆系统"));
    assert!(!case_json.contains("我喜欢"));
    assert!(!case_json.contains("text"));
}

#[test]
fn recall_exposes_typed_evidence_truth_but_never_direct_assistant_utterances() {
    let (_parent, _root, database) = create_test_database();
    let scope = Scope::Session(Ulid::new());
    let raw_source_event_id = "run-018f-private-linkage";
    let outcome = database
        .capture_evidence(
            OperationContext::new(Actor::System),
            NewEvidence {
                class: EvidenceClass::ActionOutcome,
                scope: scope.clone(),
                temporal: TemporalFacts::observed_at(100),
                lifecycle: EvidenceLifecycle::TerminalTurn {
                    source_event_id: raw_source_event_id.into(),
                    status: TerminalTurnStatus::Failed,
                },
                text: "terminal_truth_marker failed safely".into(),
            },
        )
        .unwrap();
    database
        .capture_evidence(
            OperationContext::new(Actor::Assistant),
            NewEvidence {
                class: EvidenceClass::AssistantUtterance,
                scope: scope.clone(),
                temporal: TemporalFacts::observed_at(101),
                lifecycle: EvidenceLifecycle::Direct,
                text: "terminal_truth_marker speculative assistant text".into(),
            },
        )
        .unwrap();

    let recalled = database
        .recall(RecallQuery {
            text: "terminal_truth_marker".into(),
            scopes: vec![scope],
            observed_from_ms: None,
            observed_to_ms: None,
            valid_at_ms: None,
            limit: 10,
        })
        .unwrap();
    assert_eq!(recalled.citations.len(), 1);
    let citation = &recalled.citations[0];
    assert_eq!(citation.record, RecordRef::Evidence(outcome.id));
    assert_eq!(citation.evidence.len(), 1);
    assert_eq!(citation.evidence[0].class, EvidenceClass::ActionOutcome);
    let EvidenceLifecycleTruth::TerminalTurn {
        source_event_digest,
        status,
    } = citation.evidence[0].lifecycle
    else {
        panic!("expected terminal lifecycle truth")
    };
    assert_eq!(status, TerminalTurnStatus::Failed);
    assert_ne!(source_event_digest, [0; 32]);
    assert_eq!(
        source_event_digest,
        database
            .source_event_fingerprint(raw_source_event_id)
            .unwrap()
    );
    let stored = database.inspect_evidence(outcome.id).unwrap().unwrap();
    let json = format!("{stored:?} {citation:?}");
    assert!(!json.contains(raw_source_event_id));
    assert!(json.contains("ActionOutcome"));
    assert!(json.contains("Failed"));
}

#[test]
fn purge_preview_makes_exact_payload_unavailable_and_invalidates_dependency_closure() {
    let (_parent, _root, database) = create_test_database();
    let evidence = database
        .capture_evidence(
            OperationContext::new(Actor::User),
            NewEvidence {
                class: EvidenceClass::UserAssertion,
                scope: Scope::Personal,
                temporal: TemporalFacts::observed_at(100),
                lifecycle: EvidenceLifecycle::Direct,
                text: "secret preference for Rust".into(),
            },
        )
        .unwrap();
    let claim = database
        .create_claim(
            OperationContext::new(Actor::User),
            NewClaim {
                domain: ClaimDomain::UserPreference,
                scope: Scope::Personal,
                temporal: TemporalFacts::observed_at(100),
                proposition: "The user prefers Rust".into(),
                evidence_ids: vec![evidence.id],
            },
        )
        .unwrap();
    let relation = database
        .create_semantic_relation(
            OperationContext::new(Actor::System),
            NewSemanticRelation {
                from: RecordRef::Evidence(evidence.id),
                to: RecordRef::Claim(claim.id),
                kind: RelationKind::Supports,
                scope: Scope::Personal,
                evidence_ids: vec![evidence.id],
                qualifier: None,
            },
        )
        .unwrap();

    let preview = database
        .preview_purge(Actor::Operator, RecordRef::Evidence(evidence.id))
        .unwrap();
    assert_eq!(preview.payloads_to_make_unavailable, 3);
    assert_eq!(preview.invalidations.len(), 2);
    assert!(preview
        .invalidations
        .iter()
        .any(|entry| entry.record == RecordRef::Claim(claim.id)));
    assert!(preview
        .invalidations
        .iter()
        .any(|entry| { entry.record == RecordRef::SemanticRelation(relation.id) }));
    assert!(matches!(
        database.commit_purge(OperationContext::new(Actor::Assistant), preview.clone()),
        Err(MemoryError::Unauthorized)
    ));

    let operation = OperationContext::new(Actor::Operator);
    let receipt = database.commit_purge(operation, preview.clone()).unwrap();
    assert_eq!(receipt.target.state, RecordState::Purged);
    assert_eq!(receipt.invalidated.len(), 2);
    assert_eq!(receipt.payloads_made_unavailable, 3);
    assert_eq!(
        database
            .inspect_evidence(evidence.id)
            .unwrap()
            .unwrap()
            .text,
        None
    );
    assert_eq!(
        database
            .inspect_claim(claim.id)
            .unwrap()
            .unwrap()
            .header
            .state,
        RecordState::Unsupported
    );
    assert!(database
        .inspect_claim(claim.id)
        .unwrap()
        .unwrap()
        .proposition
        .is_none());
    assert_eq!(
        database
            .inspect_semantic_relation(relation.id)
            .unwrap()
            .unwrap()
            .header
            .state,
        RecordState::Unsupported
    );
    assert!(
        !database
            .inspect_semantic_relation(relation.id)
            .unwrap()
            .unwrap()
            .payload_available
    );
    let recalled = database
        .recall(RecallQuery {
            text: "Rust".into(),
            scopes: vec![Scope::Personal],
            observed_from_ms: None,
            observed_to_ms: None,
            valid_at_ms: None,
            limit: 10,
        })
        .unwrap();
    assert!(recalled.citations.is_empty());

    // A retry returns the original structural receipt even though the
    // target can no longer be previewed as live.
    assert_eq!(database.commit_purge(operation, preview).unwrap(), receipt);
    let audit_json = format!("{:?}", database.audit_events(20).unwrap());
    assert!(!audit_json.contains("secret preference"));
}

#[test]
fn purge_after_retraction_removes_every_descendant_payload_without_reinvalidating_it() {
    let (_parent, _root, database) = create_test_database();
    let evidence = database
        .capture_evidence(
            OperationContext::new(Actor::User),
            NewEvidence {
                class: EvidenceClass::UserAssertion,
                scope: Scope::Personal,
                temporal: TemporalFacts::observed_at(100),
                lifecycle: EvidenceLifecycle::Direct,
                text: "private source payload".into(),
            },
        )
        .unwrap();
    let claim = database
        .create_claim(
            OperationContext::new(Actor::User),
            NewClaim {
                domain: ClaimDomain::UserNote,
                scope: Scope::Personal,
                temporal: TemporalFacts::observed_at(100),
                proposition: "private derived payload".into(),
                evidence_ids: vec![evidence.id],
            },
        )
        .unwrap();
    let relation = database
        .create_semantic_relation(
            OperationContext::new(Actor::System),
            NewSemanticRelation {
                from: RecordRef::Evidence(evidence.id),
                to: RecordRef::Claim(claim.id),
                kind: RelationKind::Supports,
                scope: Scope::Personal,
                evidence_ids: vec![evidence.id],
                qualifier: Some("private qualifier".into()),
            },
        )
        .unwrap();

    let retracted = database
        .retract(
            OperationContext::new(Actor::Operator),
            RecordRef::Evidence(evidence.id),
            1,
        )
        .unwrap();
    assert_eq!(retracted.invalidated.len(), 2);

    let preview = database
        .preview_purge(Actor::Operator, RecordRef::Evidence(evidence.id))
        .unwrap();
    assert_eq!(preview.expected_revision, 2);
    assert_eq!(preview.invalidations.len(), 2);
    assert_eq!(preview.payloads_to_make_unavailable, 3);

    let receipt = database
        .commit_purge(OperationContext::new(Actor::Operator), preview)
        .unwrap();
    assert!(receipt.invalidated.is_empty());
    assert_eq!(receipt.payloads_made_unavailable, 3);
    let claim = database.inspect_claim(claim.id).unwrap().unwrap();
    assert_eq!(claim.header.state, RecordState::Unsupported);
    assert_eq!(claim.header.revision, 2);
    assert!(claim.proposition.is_none());
    let relation = database
        .inspect_semantic_relation(relation.id)
        .unwrap()
        .unwrap();
    assert_eq!(relation.header.state, RecordState::Unsupported);
    assert_eq!(relation.header.revision, 2);
    assert!(!relation.payload_available);
}

#[test]
fn privacy_retraction_and_purge_do_not_refuse_more_than_4096_reverse_edges() {
    const OLD_REFUSAL_THRESHOLD: usize = 4_096;
    let (_parent, _root, database) = create_test_database();
    let source = imported_source(&database, "large privacy fanout source");
    let recall_case = recall_case_for(&database, "large privacy fanout source");
    let mut sample_claims = Vec::new();
    for bundle in 0..33 {
        let changes = (0..MAX_PROPOSAL_CHANGES)
            .map(|change| ProposalChange::CreateClaim {
                draft_id: ProposalDraftId::new(),
                domain: ClaimDomain::ExternalFact,
                temporal: TemporalFacts::observed_at(500),
                proposition: format!("fanout claim {bundle} {change}"),
                evidence_ids: vec![source.id],
            })
            .collect();
        let proposal = database
            .submit_proposal(
                OperationContext::new(Actor::Assistant),
                NewProposalBundle {
                    source_job_id: ProposalSourceJobId::new(),
                    scope: Scope::Personal,
                    source_evidence: vec![EvidenceRevisionPin {
                        id: source.id,
                        revision: 1,
                    }],
                    changes,
                },
            )
            .unwrap();
        let review = approve_proposal(&database, &proposal, &recall_case);
        let applied = database
            .adjudicate_proposal(
                OperationContext::new(Actor::Operator),
                ProposalAdjudication {
                    proposal_id: proposal.id,
                    expected_proposal_revision: review.proposal.revision,
                    review_case_id: review.review_case_id,
                    expected_review_revision: review.review_revision,
                    decision: ProposalDecision::Accept,
                    authority: AdjudicationAuthority::ExplicitOperator,
                },
            )
            .unwrap();
        sample_claims.push(applied.draft_mappings[0].record);
    }

    let retraction = database
        .retract(
            OperationContext::new(Actor::Operator),
            RecordRef::Evidence(source.id),
            1,
        )
        .unwrap();
    assert!(retraction.invalidated.len() > OLD_REFUSAL_THRESHOLD);
    let preview = database
        .preview_purge(Actor::Operator, RecordRef::Evidence(source.id))
        .unwrap();
    assert!(preview.invalidations.len() > OLD_REFUSAL_THRESHOLD);
    assert!(preview.payloads_to_make_unavailable > OLD_REFUSAL_THRESHOLD as u32);
    let receipt = database
        .commit_purge(OperationContext::new(Actor::Operator), preview)
        .unwrap();
    assert!(receipt.invalidated.is_empty());
    for sample in [sample_claims[0], sample_claims[32]] {
        let AppliedRecord::Claim(id) = sample else {
            panic!("expected claim mapping")
        };
        assert!(database
            .inspect_claim(id)
            .unwrap()
            .unwrap()
            .proposition
            .is_none());
    }
}

#[test]
fn observed_range_candidate_limit_keeps_the_newest_records() {
    let (_parent, _root, database) = create_test_database();
    let mut ids = Vec::new();
    for observed_at_ms in [100, 200, 300] {
        let receipt = database
            .capture_evidence(
                OperationContext::new(Actor::User),
                NewEvidence {
                    class: EvidenceClass::UserAssertion,
                    scope: Scope::Personal,
                    temporal: TemporalFacts::observed_at(observed_at_ms),
                    lifecycle: EvidenceLifecycle::Direct,
                    text: format!("evidence at {observed_at_ms}"),
                },
            )
            .unwrap();
        ids.push(receipt.id);
    }

    let records = database
        .records_in_observed_range(None, None, 2)
        .unwrap();

    assert_eq!(
        records,
        vec![RecordRef::Evidence(ids[2]), RecordRef::Evidence(ids[1])]
    );
}

#[test]
fn recall_rejects_an_unbounded_scope_set() {
    let (_parent, _root, database) = create_test_database();
    let scopes = (0..=MAX_RECALL_SCOPES)
        .map(|_| Scope::Session(Ulid::new()))
        .collect();

    let error = database
        .recall(RecallQuery {
            text: "bounded scopes".into(),
            scopes,
            observed_from_ms: None,
            observed_to_ms: None,
            valid_at_ms: None,
            limit: 10,
        })
        .unwrap_err();

    assert!(
        matches!(error, MemoryError::InvalidInput(message) if message.contains("visible scopes"))
    );
}

#[test]
fn oversized_payload_is_rejected_before_any_durable_write() {
    let (_parent, _root, database) = create_test_database();
    let oversized = "x".repeat(MAX_EVIDENCE_TEXT_BYTES + 1);

    let error = database
        .capture_evidence(
            OperationContext::new(Actor::User),
            NewEvidence {
                class: EvidenceClass::UserAssertion,
                scope: Scope::Personal,
                temporal: TemporalFacts::observed_at(100),
                lifecycle: EvidenceLifecycle::Direct,
                text: oversized,
            },
        )
        .unwrap_err();

    assert!(
        matches!(error, MemoryError::InvalidInput(message) if message.contains(&MAX_EVIDENCE_TEXT_BYTES.to_string()))
    );
    assert!(database.audit_events(10).unwrap().is_empty());
    assert!(database
        .recall(RecallQuery {
            text: "x".into(),
            scopes: vec![Scope::Personal],
            observed_from_ms: None,
            observed_to_ms: None,
            valid_at_ms: None,
            limit: 10,
        })
        .unwrap()
        .citations
        .is_empty());
}

#[test]
fn claim_source_fanout_is_bounded_before_source_reads() {
    let (_parent, _root, database) = create_test_database();
    let evidence_ids = (0..=MAX_EVIDENCE_SOURCES)
        .map(|_| EvidenceId::new())
        .collect();

    let error = database
        .create_claim(
            OperationContext::new(Actor::Operator),
            NewClaim {
                domain: ClaimDomain::ExternalFact,
                scope: Scope::Personal,
                temporal: TemporalFacts::observed_at(100),
                proposition: "bounded claim".into(),
                evidence_ids,
            },
        )
        .unwrap_err();

    assert!(matches!(error, MemoryError::InvalidInput(message) if message.contains("64")));
    assert!(database.audit_events(10).unwrap().is_empty());
}

#[test]
fn utterances_never_support_claims_and_commitments_require_a_completed_terminal_turn() {
    let (_parent, _root, database) = create_test_database();
    assert!(matches!(
        database.capture_evidence(
            OperationContext::new(Actor::Assistant),
            NewEvidence {
                class: EvidenceClass::UserAssertion,
                scope: Scope::Personal,
                temporal: TemporalFacts::observed_at(100),
                lifecycle: EvidenceLifecycle::Direct,
                text: "not actually said by the user".into(),
            },
        ),
        Err(MemoryError::Unauthorized)
    ));

    let utterance = database
        .capture_evidence(
            OperationContext::new(Actor::Assistant),
            NewEvidence {
                class: EvidenceClass::AssistantUtterance,
                scope: Scope::Session(Ulid::new()),
                temporal: TemporalFacts::observed_at(100),
                lifecycle: EvidenceLifecycle::Direct,
                text: "I might do that later".into(),
            },
        )
        .unwrap();
    let utterance_scope = database
        .inspect_evidence(utterance.id)
        .unwrap()
        .unwrap()
        .header
        .scope;
    assert!(matches!(
        database.create_claim(
            OperationContext::new(Actor::System),
            NewClaim {
                domain: ClaimDomain::SessionContext,
                scope: utterance_scope,
                temporal: TemporalFacts::observed_at(100),
                proposition: "The assistant committed to doing it".into(),
                evidence_ids: vec![utterance.id],
            },
        ),
        Err(MemoryError::InadmissibleSource { evidence_id, .. }) if evidence_id == utterance.id
    ));

    assert!(matches!(
        database.capture_evidence(
            OperationContext::new(Actor::System),
            NewEvidence {
                class: EvidenceClass::AssistantCommitment,
                scope: Scope::Session(Ulid::new()),
                temporal: TemporalFacts::observed_at(100),
                lifecycle: EvidenceLifecycle::Direct,
                text: "I will send the report".into(),
            },
        ),
        Err(MemoryError::InvalidInput(_))
    ));

    let commitment_scope = Scope::Session(Ulid::new());
    let commitment = database
        .capture_evidence(
            OperationContext::new(Actor::System),
            NewEvidence {
                class: EvidenceClass::AssistantCommitment,
                scope: commitment_scope.clone(),
                temporal: TemporalFacts::observed_at(200),
                lifecycle: EvidenceLifecycle::TerminalTurn {
                    source_event_id: "018f5f6e-4f1d-7d8a-9a01-completed".into(),
                    status: TerminalTurnStatus::Completed,
                },
                text: "I will send the report".into(),
            },
        )
        .unwrap();
    assert!(matches!(
        database.create_claim(
            OperationContext::new(Actor::System),
            NewClaim {
                domain: ClaimDomain::UserPreference,
                scope: commitment_scope.clone(),
                temporal: TemporalFacts::observed_at(200),
                proposition: "The user prefers receiving reports".into(),
                evidence_ids: vec![commitment.id],
            },
        ),
        Err(MemoryError::InadmissibleSource { evidence_id, .. })
            if evidence_id == commitment.id
    ));
    let claim = database
        .create_claim(
            OperationContext::new(Actor::System),
            NewClaim {
                domain: ClaimDomain::AssistantCommitment,
                scope: commitment_scope,
                temporal: TemporalFacts::observed_at(200),
                proposition: "The assistant committed to send the report".into(),
                evidence_ids: vec![commitment.id],
            },
        )
        .unwrap();
    assert_eq!(claim.state, RecordState::Active);

    for status in [
        TerminalTurnStatus::Failed,
        TerminalTurnStatus::Cancelled,
        TerminalTurnStatus::Interrupted,
    ] {
        assert!(matches!(
            database.capture_evidence(
                OperationContext::new(Actor::System),
                NewEvidence {
                    class: EvidenceClass::AssistantCommitment,
                    scope: Scope::Session(Ulid::new()),
                    temporal: TemporalFacts::observed_at(300),
                    lifecycle: EvidenceLifecycle::TerminalTurn {
                        source_event_id: format!("terminal-{status:?}"),
                        status,
                    },
                    text: "this commitment did not complete".into(),
                },
            ),
            Err(MemoryError::InvalidInput(_))
        ));
    }
    for (class, status) in [
        (EvidenceClass::ToolObservation, TerminalTurnStatus::Failed),
        (EvidenceClass::ActionOutcome, TerminalTurnStatus::Cancelled),
        (
            EvidenceClass::ToolObservation,
            TerminalTurnStatus::Interrupted,
        ),
    ] {
        database
            .capture_evidence(
                OperationContext::new(Actor::System),
                NewEvidence {
                    class,
                    scope: Scope::Session(Ulid::new()),
                    temporal: TemporalFacts::observed_at(400),
                    lifecycle: EvidenceLifecycle::TerminalTurn {
                        source_event_id: format!("outcome-{class:?}-{status:?}"),
                        status,
                    },
                    text: "truthful terminal outcome".into(),
                },
            )
            .unwrap();
    }
    assert!(matches!(
        database.capture_evidence(
            OperationContext::new(Actor::System),
            NewEvidence {
                class: EvidenceClass::ActionOutcome,
                scope: Scope::Session(Ulid::new()),
                temporal: TemporalFacts::observed_at(500),
                lifecycle: EvidenceLifecycle::TerminalTurn {
                    source_event_id: "x".repeat(MAX_SOURCE_EVENT_ID_BYTES + 1),
                    status: TerminalTurnStatus::Failed,
                },
                text: "bounded terminal outcome".into(),
            },
        ),
        Err(MemoryError::InvalidInput(_))
    ));
}

#[test]
fn assistant_cannot_activate_claims_or_semantic_relations() {
    let (_parent, _root, database) = create_test_database();
    let evidence = database
        .capture_evidence(
            OperationContext::new(Actor::User),
            NewEvidence {
                class: EvidenceClass::UserAssertion,
                scope: Scope::Personal,
                temporal: TemporalFacts::observed_at(100),
                lifecycle: EvidenceLifecycle::Direct,
                text: "I prefer Rust".into(),
            },
        )
        .unwrap();
    let claim_input = NewClaim {
        domain: ClaimDomain::UserPreference,
        scope: Scope::Personal,
        temporal: TemporalFacts::observed_at(100),
        proposition: "The user prefers Rust".into(),
        evidence_ids: vec![evidence.id],
    };
    assert!(matches!(
        database.create_claim(OperationContext::new(Actor::Assistant), claim_input.clone(),),
        Err(MemoryError::Unauthorized)
    ));
    let claim = database
        .create_claim(OperationContext::new(Actor::User), claim_input)
        .unwrap();
    let relation_input = NewSemanticRelation {
        from: RecordRef::Evidence(evidence.id),
        to: RecordRef::Claim(claim.id),
        kind: RelationKind::Supports,
        scope: Scope::Personal,
        evidence_ids: vec![evidence.id],
        qualifier: None,
    };
    assert!(matches!(
        database.create_semantic_relation(
            OperationContext::new(Actor::Assistant),
            relation_input.clone(),
        ),
        Err(MemoryError::Unauthorized)
    ));
    assert!(database
        .create_semantic_relation(OperationContext::new(Actor::System), relation_input)
        .is_ok());
}

#[test]
fn purge_preview_expires_after_ten_minutes() {
    let (_parent, _root, database) = create_test_database();
    let evidence = database
        .capture_evidence(
            OperationContext::new(Actor::User),
            NewEvidence {
                class: EvidenceClass::UserAssertion,
                scope: Scope::Personal,
                temporal: TemporalFacts::observed_at(100),
                lifecycle: EvidenceLifecycle::Direct,
                text: "ephemeral".into(),
            },
        )
        .unwrap();
    let preview = database
        .preview_purge(Actor::Operator, RecordRef::Evidence(evidence.id))
        .unwrap();
    assert_eq!(
        preview.expires_at_ms - preview.issued_at_ms,
        PURGE_PREVIEW_TTL_MS
    );

    let mut expired = preview.clone();
    expired.issued_at_ms = 0;
    expired.expires_at_ms = 1;
    assert!(matches!(
        database.commit_purge(OperationContext::new(Actor::Operator), expired),
        Err(MemoryError::PurgePreviewExpired { .. })
    ));
    assert!(database
        .commit_purge(OperationContext::new(Actor::Operator), preview)
        .is_ok());
}

#[test]
fn generic_retraction_cas_removes_recall_and_invalidates_dependents_once() {
    let (_parent, _root, database) = create_test_database();
    let evidence = database
        .capture_evidence(
            OperationContext::new(Actor::User),
            NewEvidence {
                class: EvidenceClass::UserAssertion,
                scope: Scope::Personal,
                temporal: TemporalFacts::observed_at(100),
                lifecycle: EvidenceLifecycle::Direct,
                text: "remember retract_marker".into(),
            },
        )
        .unwrap();
    assert_eq!(
        database
            .inspect_evidence(evidence.id)
            .unwrap()
            .unwrap()
            .header
            .captured_by,
        Actor::User
    );
    let claim = database
        .create_claim(
            OperationContext::new(Actor::User),
            NewClaim {
                domain: ClaimDomain::UserPreference,
                scope: Scope::Personal,
                temporal: TemporalFacts::observed_at(100),
                proposition: "retract_marker is preferred".into(),
                evidence_ids: vec![evidence.id],
            },
        )
        .unwrap();
    let relation = database
        .create_semantic_relation(
            OperationContext::new(Actor::System),
            NewSemanticRelation {
                from: RecordRef::Evidence(evidence.id),
                to: RecordRef::Claim(claim.id),
                kind: RelationKind::Supports,
                scope: Scope::Personal,
                evidence_ids: vec![evidence.id],
                qualifier: None,
            },
        )
        .unwrap();

    assert!(matches!(
        database.retract(
            OperationContext::new(Actor::User),
            RecordRef::Evidence(evidence.id),
            2,
        ),
        Err(MemoryError::RevisionConflict {
            expected: 2,
            actual: 1
        })
    ));
    let operation = OperationContext::new(Actor::User);
    let receipt = database
        .retract(operation, RecordRef::Evidence(evidence.id), 1)
        .unwrap();
    assert_eq!(receipt.target.state, RecordState::Retracted);
    assert_eq!(receipt.target.revision, 2);
    assert_eq!(receipt.invalidated.len(), 2);
    assert_eq!(
        database
            .retract(operation, RecordRef::Evidence(evidence.id), 1)
            .unwrap(),
        receipt
    );
    assert_eq!(
        database
            .inspect_claim(claim.id)
            .unwrap()
            .unwrap()
            .header
            .state,
        RecordState::Unsupported
    );
    assert_eq!(
        database
            .inspect_semantic_relation(relation.id)
            .unwrap()
            .unwrap()
            .header
            .state,
        RecordState::Unsupported
    );
    assert!(database
        .recall(RecallQuery {
            text: "retract_marker".into(),
            scopes: vec![Scope::Personal],
            observed_from_ms: None,
            observed_to_ms: None,
            valid_at_ms: None,
            limit: 10,
        })
        .unwrap()
        .citations
        .is_empty());
    let events = database.audit_events(20).unwrap();
    let retraction = events
        .iter()
        .find(|event| event.operation_id == operation.id)
        .unwrap();
    assert_eq!(retraction.action, AuditAction::RecordRetracted);
    assert_eq!(retraction.subjects.len(), 3);
}

#[test]
fn remember_user_claim_commits_assertion_and_user_note_as_one_idempotent_operation() {
    let (_parent, _root, database) = create_test_database();
    let operation = OperationContext::new(Actor::User);
    let input = RememberUserClaim {
        domain: ClaimDomain::UserNote,
        scope: Scope::Personal,
        temporal: TemporalFacts::observed_at(200),
        evidence_text: "Remember note_marker exactly".into(),
        proposition: "note_marker exactly".into(),
    };

    let receipt = database
        .remember_user_claim(operation, input.clone())
        .unwrap();
    assert_eq!(
        database
            .remember_user_claim(operation, input.clone())
            .unwrap(),
        receipt
    );
    let evidence = database
        .inspect_evidence(receipt.evidence.id)
        .unwrap()
        .unwrap();
    assert_eq!(evidence.header.class, EvidenceClass::UserAssertion);
    assert_eq!(evidence.header.captured_by, Actor::User);
    assert_eq!(
        evidence.text.as_deref(),
        Some("Remember note_marker exactly")
    );
    let claim = database.inspect_claim(receipt.claim.id).unwrap().unwrap();
    assert_eq!(claim.header.domain, ClaimDomain::UserNote);
    assert_eq!(claim.header.evidence_ids, vec![receipt.evidence.id]);
    assert_eq!(claim.proposition.as_deref(), Some("note_marker exactly"));

    let operation_events: Vec<_> = database
        .audit_events(20)
        .unwrap()
        .into_iter()
        .filter(|event| event.operation_id == operation.id)
        .collect();
    assert_eq!(operation_events.len(), 1);
    assert_eq!(operation_events[0].action, AuditAction::UserClaimRemembered);
    assert_eq!(
        operation_events[0].subjects,
        vec![
            RecordRef::Evidence(receipt.evidence.id),
            RecordRef::Claim(receipt.claim.id),
        ]
    );
    let mut changed = input;
    changed.proposition = "different".into();
    assert!(matches!(
        database.remember_user_claim(operation, changed),
        Err(MemoryError::OperationConflict(id)) if id == operation.id
    ));

    assert!(matches!(
        database.remember_user_claim(
            OperationContext::new(Actor::User),
            RememberUserClaim {
                domain: ClaimDomain::UserNote,
                scope: Scope::Personal,
                temporal: TemporalFacts::observed_at(201),
                evidence_text: "uncommitted_marker".into(),
                proposition: "   ".into(),
            },
        ),
        Err(MemoryError::InvalidInput(_))
    ));
    assert!(database
        .recall(RecallQuery {
            text: "uncommitted_marker".into(),
            scopes: vec![Scope::Personal],
            observed_from_ms: None,
            observed_to_ms: None,
            valid_at_ms: None,
            limit: 10,
        })
        .unwrap()
        .citations
        .is_empty());
}

#[test]
fn correct_user_claim_atomically_supersedes_and_replaces_the_target() {
    let (_parent, _root, database) = create_test_database();
    let remembered = database
        .remember_user_claim(
            OperationContext::new(Actor::User),
            RememberUserClaim {
                domain: ClaimDomain::UserNote,
                scope: Scope::Personal,
                temporal: TemporalFacts::observed_at(100),
                evidence_text: "old_marker was said".into(),
                proposition: "old_marker".into(),
            },
        )
        .unwrap();
    let old_relation = database
        .create_semantic_relation(
            OperationContext::new(Actor::System),
            NewSemanticRelation {
                from: RecordRef::Evidence(remembered.evidence.id),
                to: RecordRef::Claim(remembered.claim.id),
                kind: RelationKind::Supports,
                scope: Scope::Personal,
                evidence_ids: vec![remembered.evidence.id],
                qualifier: None,
            },
        )
        .unwrap();

    let operation = OperationContext::new(Actor::User);
    let input = CorrectUserClaim {
        target: remembered.claim.id,
        expected_revision: 1,
        temporal: TemporalFacts::observed_at(200),
        evidence_text: "Correction: new_marker is right".into(),
        replacement_proposition: "new_marker".into(),
    };
    let receipt = database
        .correct_user_claim(operation, input.clone())
        .unwrap();
    assert_eq!(
        database.correct_user_claim(operation, input).unwrap(),
        receipt
    );
    assert_ne!(receipt.replacement.id, remembered.claim.id);
    assert_eq!(receipt.superseded.state, RecordState::Superseded);
    assert_eq!(receipt.superseded.revision, 2);
    assert_eq!(receipt.invalidated.len(), 1);
    assert_eq!(
        receipt.invalidated[0].record,
        RecordRef::SemanticRelation(old_relation.id)
    );

    let correction = database
        .inspect_evidence(receipt.evidence.id)
        .unwrap()
        .unwrap();
    assert_eq!(correction.header.class, EvidenceClass::UserCorrection);
    assert_eq!(correction.header.captured_by, Actor::User);
    let old = database
        .inspect_claim(remembered.claim.id)
        .unwrap()
        .unwrap();
    assert_eq!(old.header.state, RecordState::Superseded);
    let replacement = database
        .inspect_claim(receipt.replacement.id)
        .unwrap()
        .unwrap();
    assert_eq!(replacement.header.domain, ClaimDomain::UserNote);
    assert_eq!(replacement.header.scope, Scope::Personal);
    assert_eq!(replacement.header.evidence_ids, vec![receipt.evidence.id]);
    assert_eq!(replacement.proposition.as_deref(), Some("new_marker"));
    let supersedes = database
        .inspect_semantic_relation(receipt.supersedes_relation.id)
        .unwrap()
        .unwrap();
    assert_eq!(
        supersedes.header.from,
        RecordRef::Claim(receipt.replacement.id)
    );
    assert_eq!(supersedes.header.to, RecordRef::Claim(remembered.claim.id));
    assert_eq!(supersedes.header.kind, RelationKind::Supersedes);
    assert_eq!(supersedes.header.state, RecordState::Active);
    assert_eq!(
        database
            .inspect_semantic_relation(old_relation.id)
            .unwrap()
            .unwrap()
            .header
            .state,
        RecordState::Unsupported
    );
    assert!(database
        .recall(RecallQuery {
            text: "old_marker".into(),
            scopes: vec![Scope::Personal],
            observed_from_ms: None,
            observed_to_ms: None,
            valid_at_ms: None,
            limit: 10,
        })
        .unwrap()
        .citations
        .iter()
        .all(|citation| citation.record != RecordRef::Claim(remembered.claim.id)));

    let operation_events: Vec<_> = database
        .audit_events(20)
        .unwrap()
        .into_iter()
        .filter(|event| event.operation_id == operation.id)
        .collect();
    assert_eq!(operation_events.len(), 1);
    assert_eq!(operation_events[0].action, AuditAction::UserClaimCorrected);
    assert!(matches!(
        database.correct_user_claim(
            OperationContext::new(Actor::User),
            CorrectUserClaim {
                target: remembered.claim.id,
                expected_revision: 1,
                temporal: TemporalFacts::observed_at(201),
                evidence_text: "another correction".into(),
                replacement_proposition: "another value".into(),
            },
        ),
        Err(MemoryError::RevisionConflict {
            expected: 1,
            actual: 2
        })
    ));

    let untouched = database
        .remember_user_claim(
            OperationContext::new(Actor::User),
            RememberUserClaim {
                domain: ClaimDomain::UserNote,
                scope: Scope::Personal,
                temporal: TemporalFacts::observed_at(300),
                evidence_text: "atomic target".into(),
                proposition: "atomic target".into(),
            },
        )
        .unwrap();
    assert!(matches!(
        database.correct_user_claim(
            OperationContext::new(Actor::User),
            CorrectUserClaim {
                target: untouched.claim.id,
                expected_revision: 1,
                temporal: TemporalFacts::observed_at(301),
                evidence_text: "uncommitted_correction_marker".into(),
                replacement_proposition: "   ".into(),
            },
        ),
        Err(MemoryError::InvalidInput(_))
    ));
    assert_eq!(
        database
            .inspect_claim(untouched.claim.id)
            .unwrap()
            .unwrap()
            .header
            .state,
        RecordState::Active
    );
    assert!(database
        .recall(RecallQuery {
            text: "uncommitted_correction_marker".into(),
            scopes: vec![Scope::Personal],
            observed_from_ms: None,
            observed_to_ms: None,
            valid_at_ms: None,
            limit: 10,
        })
        .unwrap()
        .citations
        .is_empty());
}

#[test]
fn generic_inspect_selects_head_or_an_exact_structural_revision() {
    let (_parent, _root, database) = create_test_database();
    let remembered = database
        .remember_user_claim(
            OperationContext::new(Actor::User),
            RememberUserClaim {
                domain: ClaimDomain::UserNote,
                scope: Scope::Personal,
                temporal: TemporalFacts::observed_at(100),
                evidence_text: "original inspect value".into(),
                proposition: "original inspect value".into(),
            },
        )
        .unwrap();
    database
        .correct_user_claim(
            OperationContext::new(Actor::User),
            CorrectUserClaim {
                target: remembered.claim.id,
                expected_revision: 1,
                temporal: TemporalFacts::observed_at(200),
                evidence_text: "corrected inspect value".into(),
                replacement_proposition: "corrected inspect value".into(),
            },
        )
        .unwrap();

    let historical = database
        .inspect(
            RecordRef::Claim(remembered.claim.id),
            RevisionSelector::Exact(1),
        )
        .unwrap()
        .unwrap();
    let InspectedRecord::Claim(historical) = historical else {
        panic!("expected a claim")
    };
    assert_eq!(historical.header.state, RecordState::Active);
    assert_eq!(
        historical.proposition.as_deref(),
        Some("original inspect value")
    );

    let head = database
        .inspect(
            RecordRef::Claim(remembered.claim.id),
            RevisionSelector::Head,
        )
        .unwrap()
        .unwrap();
    let InspectedRecord::Claim(head) = head else {
        panic!("expected a claim")
    };
    assert_eq!(head.header.state, RecordState::Superseded);
    assert!(database
        .inspect(
            RecordRef::Claim(remembered.claim.id),
            RevisionSelector::Exact(99),
        )
        .unwrap()
        .is_none());
}

fn imported_source(database: &MemoryDatabase, text: &str) -> EvidenceReceipt {
    database
        .capture_evidence(
            OperationContext::new(Actor::System),
            NewEvidence {
                class: EvidenceClass::ImportedSource,
                scope: Scope::Personal,
                temporal: TemporalFacts::observed_at(500),
                lifecycle: EvidenceLifecycle::Direct,
                text: text.into(),
            },
        )
        .unwrap()
}

fn recall_case_for(database: &MemoryDatabase, text: &str) -> RecallCase {
    let recalled = database
        .recall(RecallQuery {
            text: text.into(),
            scopes: vec![Scope::Personal],
            observed_from_ms: None,
            observed_to_ms: None,
            valid_at_ms: None,
            limit: 10,
        })
        .unwrap();
    database
        .inspect_recall_case(recalled.case_id)
        .unwrap()
        .unwrap()
}

fn approve_proposal(
    database: &MemoryDatabase,
    proposal: &ProposalReceipt,
    recall_case: &RecallCase,
) -> ProposalReviewReceipt {
    database
        .review_proposal(
            OperationContext::new(Actor::Assistant),
            NewProposalReview {
                proposal_id: proposal.id,
                proposal_revision: proposal.revision,
                recall_case_id: recall_case.id,
                recall_case_revision: recall_case.revision,
                verdict: ProposalReviewVerdict::Approve,
                findings: Vec::new(),
            },
        )
        .unwrap()
}

#[test]
fn adjudication_requires_real_authority_and_audits_the_structural_decision() {
    let (_parent, _root, database) = create_test_database();
    let source = imported_source(&database, "audited authority source");
    let recall_case = recall_case_for(&database, "audited authority source");
    let proposal = database
        .submit_proposal(
            OperationContext::new(Actor::Assistant),
            NewProposalBundle {
                source_job_id: ProposalSourceJobId::new(),
                scope: Scope::Personal,
                source_evidence: vec![EvidenceRevisionPin {
                    id: source.id,
                    revision: 1,
                }],
                changes: vec![ProposalChange::CreateEntity {
                    draft_id: ProposalDraftId::new(),
                    kind: EntityKind::Concept,
                    temporal: TemporalFacts::observed_at(500),
                    canonical_name: "audited authority entity".into(),
                    aliases: Vec::new(),
                    evidence_ids: vec![source.id],
                }],
            },
        )
        .unwrap();
    let review = approve_proposal(&database, &proposal, &recall_case);
    let base = ProposalAdjudication {
        proposal_id: proposal.id,
        expected_proposal_revision: review.proposal.revision,
        review_case_id: review.review_case_id,
        expected_review_revision: review.review_revision,
        decision: ProposalDecision::Accept,
        authority: AdjudicationAuthority::ExplicitOperator,
    };
    assert!(matches!(
        database.adjudicate_proposal(OperationContext::new(Actor::System), base.clone()),
        Err(MemoryError::Unauthorized)
    ));

    let operation = OperationContext::new(Actor::Operator);
    database.adjudicate_proposal(operation, base).unwrap();
    let event = database
        .audit_events(usize::MAX)
        .unwrap()
        .into_iter()
        .find(|event| event.operation_id == operation.id)
        .unwrap();
    assert_eq!(
        event.adjudication,
        Some(AdjudicationAudit {
            decision: ProposalDecision::Accept,
            authority: AdjudicationAuthority::ExplicitOperator,
        })
    );
}

#[test]
fn review_findings_accept_only_exact_same_scope_sources_and_approve_fails_closed() {
    let (_parent, _root, database) = create_test_database();
    let source = imported_source(&database, "review_pin_marker proposal source");
    let session_scope = Scope::Session(Ulid::new());
    let cross_scope = database
        .capture_evidence(
            OperationContext::new(Actor::System),
            NewEvidence {
                class: EvidenceClass::ImportedSource,
                scope: session_scope.clone(),
                temporal: TemporalFacts::observed_at(500),
                lifecycle: EvidenceLifecycle::Direct,
                text: "review_pin_marker cross scope".into(),
            },
        )
        .unwrap();
    let recalled = database
        .recall(RecallQuery {
            text: "review_pin_marker".into(),
            scopes: vec![Scope::Personal, session_scope],
            observed_from_ms: None,
            observed_to_ms: None,
            valid_at_ms: None,
            limit: 10,
        })
        .unwrap();
    let recall_case = database
        .inspect_recall_case(recalled.case_id)
        .unwrap()
        .unwrap();
    let unrelated = imported_source(&database, "not present in the pinned recall case");
    let proposal = database
        .submit_proposal(
            OperationContext::new(Actor::Assistant),
            NewProposalBundle {
                source_job_id: ProposalSourceJobId::new(),
                scope: Scope::Personal,
                source_evidence: vec![EvidenceRevisionPin {
                    id: source.id,
                    revision: 1,
                }],
                changes: vec![ProposalChange::CreateEntity {
                    draft_id: ProposalDraftId::new(),
                    kind: EntityKind::Concept,
                    temporal: TemporalFacts::observed_at(500),
                    canonical_name: "review pin entity".into(),
                    aliases: Vec::new(),
                    evidence_ids: vec![source.id],
                }],
            },
        )
        .unwrap();
    let review = |verdict, code, pin| NewProposalReview {
        proposal_id: proposal.id,
        proposal_revision: proposal.revision,
        recall_case_id: recall_case.id,
        recall_case_revision: recall_case.revision,
        verdict,
        findings: vec![ProposalReviewFinding {
            code,
            change_index: Some(0),
            pins: vec![pin],
        }],
    };

    assert!(matches!(
        database.review_proposal(
            OperationContext::new(Actor::Assistant),
            review(
                ProposalReviewVerdict::NeedsUser,
                ReviewFindingCode::AmbiguousIdentity,
                RecordRevisionPin {
                    record: RecordRef::Evidence(unrelated.id),
                    revision: 1,
                },
            ),
        ),
        Err(MemoryError::InvalidInput(message)) if message.contains("proposal evidence or recall case")
    ));
    assert!(matches!(
        database.review_proposal(
            OperationContext::new(Actor::Assistant),
            review(
                ProposalReviewVerdict::NeedsUser,
                ReviewFindingCode::ScopeMismatch,
                RecordRevisionPin {
                    record: RecordRef::Evidence(cross_scope.id),
                    revision: 1,
                },
            ),
        ),
        Err(MemoryError::ScopeMismatch)
    ));
    assert!(matches!(
        database.review_proposal(
            OperationContext::new(Actor::Assistant),
            review(
                ProposalReviewVerdict::Approve,
                ReviewFindingCode::EvidenceInsufficient,
                RecordRevisionPin {
                    record: RecordRef::Evidence(source.id),
                    revision: 1,
                },
            ),
        ),
        Err(MemoryError::InvalidInput(message)) if message.contains("approve")
    ));

    let accepted = database
        .review_proposal(
            OperationContext::new(Actor::Assistant),
            NewProposalReview {
                proposal_id: proposal.id,
                proposal_revision: proposal.revision,
                recall_case_id: recall_case.id,
                recall_case_revision: recall_case.revision,
                verdict: ProposalReviewVerdict::NeedsUser,
                findings: vec![ProposalReviewFinding {
                    code: ReviewFindingCode::AmbiguousIdentity,
                    change_index: Some(0),
                    pins: vec![RecordRevisionPin {
                        record: RecordRef::Evidence(source.id),
                        revision: 1,
                    }],
                }],
            },
        )
        .unwrap();
    assert_eq!(
        database
            .inspect_proposal_review(accepted.review_case_id)
            .unwrap()
            .unwrap()
            .findings
            .unwrap()[0]
            .pins,
        vec![RecordRevisionPin {
            record: RecordRef::Evidence(source.id),
            revision: 1,
        }]
    );
}

#[test]
fn proposal_drafts_are_not_recalled_and_operator_accept_maps_all_drafts_atomically() {
    let (_parent, root, database) = create_test_database();
    let source = imported_source(&database, "Ada wrote proposal_atomic_marker");
    let recall_case = recall_case_for(&database, "proposal_atomic_marker");
    let entity_draft = ProposalDraftId::new();
    let claim_draft = ProposalDraftId::new();
    let relation_draft = ProposalDraftId::new();
    let proposal = database
        .submit_proposal(
            OperationContext::new(Actor::Assistant),
            NewProposalBundle {
                source_job_id: ProposalSourceJobId::new(),
                scope: Scope::Personal,
                source_evidence: vec![EvidenceRevisionPin {
                    id: source.id,
                    revision: 1,
                }],
                changes: vec![
                    ProposalChange::CreateEntity {
                        draft_id: entity_draft,
                        kind: EntityKind::Person,
                        temporal: TemporalFacts::observed_at(500),
                        canonical_name: "Ada Lovelace proposal_atomic_marker".into(),
                        aliases: vec!["Ada".into()],
                        evidence_ids: vec![source.id],
                    },
                    ProposalChange::CreateClaim {
                        draft_id: claim_draft,
                        domain: ClaimDomain::ExternalFact,
                        temporal: TemporalFacts::observed_at(500),
                        proposition: "Ada wrote proposal_atomic_marker".into(),
                        evidence_ids: vec![source.id],
                    },
                    ProposalChange::CreateRelation {
                        draft_id: relation_draft,
                        from: ProposalEndpoint::Draft(entity_draft),
                        to: ProposalEndpoint::Draft(claim_draft),
                        kind: RelationKind::About,
                        evidence_ids: vec![source.id],
                        qualifier: None,
                    },
                ],
            },
        )
        .unwrap();
    assert_eq!(proposal.status, ProposalStatus::PendingReview);
    assert!(database
        .recall(RecallQuery {
            text: "Ada Lovelace".into(),
            scopes: vec![Scope::Personal],
            observed_from_ms: None,
            observed_to_ms: None,
            valid_at_ms: None,
            limit: 10,
        })
        .unwrap()
        .citations
        .iter()
        .all(|citation| !matches!(citation.record, RecordRef::Entity(_))));

    let review = approve_proposal(&database, &proposal, &recall_case);
    let adjudication = ProposalAdjudication {
        proposal_id: proposal.id,
        expected_proposal_revision: review.proposal.revision,
        review_case_id: review.review_case_id,
        expected_review_revision: review.review_revision,
        decision: ProposalDecision::Accept,
        authority: AdjudicationAuthority::ExplicitOperator,
    };
    assert!(matches!(
        database.adjudicate_proposal(
            OperationContext::new(Actor::Assistant),
            adjudication.clone()
        ),
        Err(MemoryError::Unauthorized)
    ));
    assert!(matches!(
        database
            .adjudicate_proposal(OperationContext::new(Actor::System), adjudication.clone()),
        Err(MemoryError::Unauthorized)
    ));
    let operation = OperationContext::new(Actor::Operator);
    let applied = database
        .adjudicate_proposal(operation, adjudication.clone())
        .unwrap();
    assert_eq!(applied.proposal.status, ProposalStatus::Applied);
    assert_eq!(applied.draft_mappings.len(), 3);
    assert_eq!(
        database
            .adjudicate_proposal(operation, adjudication.clone())
            .unwrap(),
        applied
    );
    let mapped = |draft| {
        applied
            .draft_mappings
            .iter()
            .find(|mapping| mapping.draft_id == draft)
            .unwrap()
            .record
    };
    let AppliedRecord::Entity(entity_id) = mapped(entity_draft) else {
        panic!("entity draft was not mapped")
    };
    let AppliedRecord::Claim(claim_id) = mapped(claim_draft) else {
        panic!("claim draft was not mapped")
    };
    let AppliedRecord::SemanticRelation(relation_id) = mapped(relation_draft) else {
        panic!("relation draft was not mapped")
    };
    let relation = database
        .inspect_semantic_relation(relation_id)
        .unwrap()
        .unwrap();
    assert_eq!(relation.header.from, RecordRef::Entity(entity_id));
    assert_eq!(relation.header.to, RecordRef::Claim(claim_id));
    assert!(database
        .recall(RecallQuery {
            text: "Ada Lovelace".into(),
            scopes: vec![Scope::Personal],
            observed_from_ms: None,
            observed_to_ms: None,
            valid_at_ms: None,
            limit: 10,
        })
        .unwrap()
        .citations
        .iter()
        .any(|citation| citation.record == RecordRef::Entity(entity_id)));

    let purge = database
        .preview_purge(Actor::Operator, RecordRef::Evidence(source.id))
        .unwrap();
    assert!(purge
        .invalidations
        .iter()
        .any(|dependency| dependency.record == RecordRef::Entity(entity_id)));
    database
        .commit_purge(OperationContext::new(Actor::Operator), purge)
        .unwrap();
    let unavailable = database.inspect_entity(entity_id).unwrap().unwrap();
    assert_eq!(unavailable.header.state, RecordState::Unsupported);
    assert!(unavailable.canonical_name.is_none());
    assert!(unavailable.aliases.is_empty());

    drop(database);
    let reopened = MemoryDatabase::open(&root).unwrap();
    assert_eq!(
        reopened
            .adjudicate_proposal(operation, adjudication)
            .unwrap(),
        applied
    );
}

#[test]
fn proposal_source_job_and_operation_replay_survive_reopen() {
    let (_parent, root, database) = create_test_database();
    let source = imported_source(&database, "durable proposal source");
    let source_job_id = ProposalSourceJobId::new();
    let operation = OperationContext::new(Actor::Assistant);
    let input = NewProposalBundle {
        source_job_id,
        scope: Scope::Personal,
        source_evidence: vec![EvidenceRevisionPin {
            id: source.id,
            revision: 1,
        }],
        changes: vec![ProposalChange::CreateEntity {
            draft_id: ProposalDraftId::new(),
            kind: EntityKind::Concept,
            temporal: TemporalFacts::observed_at(500),
            canonical_name: "durable proposal entity".into(),
            aliases: Vec::new(),
            evidence_ids: vec![source.id],
        }],
    };
    let first = database.submit_proposal(operation, input.clone()).unwrap();
    assert_eq!(database.submit_proposal(operation, input).unwrap(), first);
    drop(database);

    let reopened = MemoryDatabase::open(&root).unwrap();
    assert_eq!(
        reopened
            .proposal_by_source_job(source_job_id)
            .unwrap()
            .unwrap()
            .header
            .id,
        first.id
    );
}

#[test]
fn proposal_operator_reads_are_bounded_and_latest_review_is_directly_addressable() {
    let (_parent, _root, database) = create_test_database();
    let source = imported_source(&database, "operator proposal listing source");
    let recall_case = recall_case_for(&database, "operator proposal listing source");
    let submit = |name: &str| {
        database
            .submit_proposal(
                OperationContext::new(Actor::Assistant),
                NewProposalBundle {
                    source_job_id: ProposalSourceJobId::new(),
                    scope: Scope::Personal,
                    source_evidence: vec![EvidenceRevisionPin {
                        id: source.id,
                        revision: 1,
                    }],
                    changes: vec![ProposalChange::CreateEntity {
                        draft_id: ProposalDraftId::new(),
                        kind: EntityKind::Concept,
                        temporal: TemporalFacts::observed_at(500),
                        canonical_name: name.into(),
                        aliases: Vec::new(),
                        evidence_ids: vec![source.id],
                    }],
                },
            )
            .unwrap()
    };
    let first = submit("first pending");
    let reviewed = submit("reviewed proposal");
    let third = submit("third pending");
    let review = approve_proposal(&database, &reviewed, &recall_case);

    let listed = database.list_proposals(2).unwrap();
    assert_eq!(listed.len(), 2);
    assert!(listed
        .iter()
        .all(|header| [first.id, reviewed.id, third.id].contains(&header.id)));
    let pending = database
        .list_pending_proposals(MAX_OPERATOR_LIST_LIMIT + 1)
        .unwrap();
    assert_eq!(
        pending
            .iter()
            .map(|header| header.id)
            .collect::<BTreeSet<_>>(),
        BTreeSet::from([first.id, third.id])
    );
    assert_eq!(
        database
            .list_awaiting_adjudication(MAX_OPERATOR_LIST_LIMIT + 1)
            .unwrap()
            .iter()
            .map(|header| header.id)
            .collect::<Vec<_>>(),
        vec![reviewed.id]
    );
    assert_eq!(
        database
            .latest_proposal_review(reviewed.id)
            .unwrap()
            .unwrap()
            .header
            .id,
        review.review_case_id
    );
    assert!(database.latest_proposal_review(first.id).unwrap().is_none());
    database
        .adjudicate_proposal(
            OperationContext::new(Actor::Operator),
            ProposalAdjudication {
                proposal_id: reviewed.id,
                expected_proposal_revision: review.proposal.revision,
                review_case_id: review.review_case_id,
                expected_review_revision: review.review_revision,
                decision: ProposalDecision::Reject,
                authority: AdjudicationAuthority::ExplicitOperator,
            },
        )
        .unwrap();
    assert!(database
        .list_awaiting_adjudication(MAX_OPERATOR_LIST_LIMIT)
        .unwrap()
        .is_empty());
}

#[test]
fn proposal_bundle_has_an_aggregate_encoded_byte_budget() {
    let (_parent, _root, database) = create_test_database();
    let source = imported_source(&database, "aggregate proposal byte source");
    let changes = (0..17)
        .map(|index| ProposalChange::CreateClaim {
            draft_id: ProposalDraftId::new(),
            domain: ClaimDomain::ExternalFact,
            temporal: TemporalFacts::observed_at(500),
            proposition: format!("{index}{}", "x".repeat(MAX_TEXT_BYTES - 2)),
            evidence_ids: vec![source.id],
        })
        .collect();

    let error = database
        .submit_proposal(
            OperationContext::new(Actor::Assistant),
            NewProposalBundle {
                source_job_id: ProposalSourceJobId::new(),
                scope: Scope::Personal,
                source_evidence: vec![EvidenceRevisionPin {
                    id: source.id,
                    revision: 1,
                }],
                changes,
            },
        )
        .unwrap_err();

    assert!(
        matches!(error, MemoryError::InvalidInput(message) if message.contains("encoded bytes"))
    );
}

#[test]
fn proposal_bundle_has_an_aggregate_alias_budget() {
    let (_parent, _root, database) = create_test_database();
    let source = imported_source(&database, "aggregate proposal alias source");
    let changes = (0..17)
        .map(|entity| ProposalChange::CreateEntity {
            draft_id: ProposalDraftId::new(),
            kind: EntityKind::Concept,
            temporal: TemporalFacts::observed_at(500),
            canonical_name: format!("entity {entity}"),
            aliases: (0..MAX_ENTITY_ALIASES)
                .map(|alias| format!("alias {entity} {alias}"))
                .collect(),
            evidence_ids: vec![source.id],
        })
        .collect();

    let error = database
        .submit_proposal(
            OperationContext::new(Actor::Assistant),
            NewProposalBundle {
                source_job_id: ProposalSourceJobId::new(),
                scope: Scope::Personal,
                source_evidence: vec![EvidenceRevisionPin {
                    id: source.id,
                    revision: 1,
                }],
                changes,
            },
        )
        .unwrap_err();

    assert!(
        matches!(error, MemoryError::InvalidInput(message) if message.contains("total aliases"))
    );
}

#[test]
fn proposal_bundle_has_an_aggregate_dependency_edge_budget() {
    let (_parent, _root, database) = create_test_database();
    let sources: Vec<_> = (0..MAX_EVIDENCE_SOURCES)
        .map(|index| imported_source(&database, &format!("edge source {index}")))
        .collect();
    let source_evidence: Vec<_> = sources
        .iter()
        .map(|source| EvidenceRevisionPin {
            id: source.id,
            revision: 1,
        })
        .collect();
    let evidence_ids: Vec<_> = sources.iter().map(|source| source.id).collect();
    let changes = (0..64)
        .map(|index| ProposalChange::CreateClaim {
            draft_id: ProposalDraftId::new(),
            domain: ClaimDomain::ExternalFact,
            temporal: TemporalFacts::observed_at(500),
            proposition: format!("bounded edge claim {index}"),
            evidence_ids: evidence_ids.clone(),
        })
        .collect();

    let error = database
        .submit_proposal(
            OperationContext::new(Actor::Assistant),
            NewProposalBundle {
                source_job_id: ProposalSourceJobId::new(),
                scope: Scope::Personal,
                source_evidence,
                changes,
            },
        )
        .unwrap_err();

    assert!(
        matches!(error, MemoryError::InvalidInput(message) if message.contains("dependency edges"))
    );
}

#[test]
fn stale_source_pin_prevents_any_proposal_change_from_applying() {
    let (_parent, _root, database) = create_test_database();
    let source = imported_source(&database, "stale proposal source marker");
    let recall_case = recall_case_for(&database, "stale proposal source marker");
    let proposal = database
        .submit_proposal(
            OperationContext::new(Actor::Assistant),
            NewProposalBundle {
                source_job_id: ProposalSourceJobId::new(),
                scope: Scope::Personal,
                source_evidence: vec![EvidenceRevisionPin {
                    id: source.id,
                    revision: 1,
                }],
                changes: vec![ProposalChange::CreateEntity {
                    draft_id: ProposalDraftId::new(),
                    kind: EntityKind::Concept,
                    temporal: TemporalFacts::observed_at(500),
                    canonical_name: "must_not_apply_marker".into(),
                    aliases: Vec::new(),
                    evidence_ids: vec![source.id],
                }],
            },
        )
        .unwrap();
    let review = approve_proposal(&database, &proposal, &recall_case);
    database
        .retract(
            OperationContext::new(Actor::Operator),
            RecordRef::Evidence(source.id),
            1,
        )
        .unwrap();
    let adjudication_operation = OperationContext::new(Actor::Operator);
    let receipt = database
        .adjudicate_proposal(
            adjudication_operation,
            ProposalAdjudication {
                proposal_id: proposal.id,
                expected_proposal_revision: review.proposal.revision + 1,
                review_case_id: review.review_case_id,
                expected_review_revision: review.review_revision + 1,
                decision: ProposalDecision::Accept,
                authority: AdjudicationAuthority::ExplicitOperator,
            },
        )
        .unwrap();
    assert_eq!(receipt.proposal.status, ProposalStatus::Stale);
    assert!(receipt.draft_mappings.is_empty());
    assert_eq!(
        database
            .audit_events(usize::MAX)
            .unwrap()
            .into_iter()
            .find(|event| event.operation_id == adjudication_operation.id)
            .unwrap()
            .adjudication,
        Some(AdjudicationAudit {
            decision: ProposalDecision::Accept,
            authority: AdjudicationAuthority::ExplicitOperator,
        })
    );
    assert!(database
        .recall(RecallQuery {
            text: "must_not_apply_marker".into(),
            scopes: vec![Scope::Personal],
            observed_from_ms: Some(0),
            observed_to_ms: None,
            valid_at_ms: None,
            limit: 10,
        })
        .unwrap()
        .citations
        .is_empty());
}

#[test]
fn stale_recall_candidate_pin_marks_acceptance_stale_without_partial_writes() {
    let (_parent, _root, database) = create_test_database();
    let source = imported_source(&database, "independent proposal source");
    let candidate = imported_source(&database, "lawyer_candidate_marker");
    let recall_case = recall_case_for(&database, "lawyer_candidate_marker");
    assert_eq!(
        recall_case.candidates[0].record,
        RecordRef::Evidence(candidate.id)
    );
    let proposal = database
        .submit_proposal(
            OperationContext::new(Actor::Assistant),
            NewProposalBundle {
                source_job_id: ProposalSourceJobId::new(),
                scope: Scope::Personal,
                source_evidence: vec![EvidenceRevisionPin {
                    id: source.id,
                    revision: 1,
                }],
                changes: vec![ProposalChange::CreateEntity {
                    draft_id: ProposalDraftId::new(),
                    kind: EntityKind::Concept,
                    temporal: TemporalFacts::observed_at(500),
                    canonical_name: "candidate_stale_must_not_apply".into(),
                    aliases: Vec::new(),
                    evidence_ids: vec![source.id],
                }],
            },
        )
        .unwrap();
    let review = approve_proposal(&database, &proposal, &recall_case);
    database
        .retract(
            OperationContext::new(Actor::Operator),
            RecordRef::Evidence(candidate.id),
            1,
        )
        .unwrap();
    let receipt = database
        .adjudicate_proposal(
            OperationContext::new(Actor::Operator),
            ProposalAdjudication {
                proposal_id: proposal.id,
                expected_proposal_revision: review.proposal.revision,
                review_case_id: review.review_case_id,
                expected_review_revision: review.review_revision + 1,
                decision: ProposalDecision::Accept,
                authority: AdjudicationAuthority::ExplicitOperator,
            },
        )
        .unwrap();
    assert_eq!(receipt.proposal.status, ProposalStatus::Stale);
    assert!(receipt.changed_records.is_empty());
    assert!(database
        .recall(RecallQuery {
            text: "candidate_stale_must_not_apply".into(),
            scopes: vec![Scope::Personal],
            observed_from_ms: Some(0),
            observed_to_ms: None,
            valid_at_ms: None,
            limit: 10,
        })
        .unwrap()
        .citations
        .is_empty());
}

#[test]
fn purge_during_review_removes_entity_proposal_and_review_payloads_and_blocks_accept() {
    let (_parent, _root, database) = create_test_database();
    let source = imported_source(&database, "purge_review_marker");
    let recall_case = recall_case_for(&database, "purge_review_marker");
    let proposal = database
        .submit_proposal(
            OperationContext::new(Actor::Assistant),
            NewProposalBundle {
                source_job_id: ProposalSourceJobId::new(),
                scope: Scope::Personal,
                source_evidence: vec![EvidenceRevisionPin {
                    id: source.id,
                    revision: 1,
                }],
                changes: vec![ProposalChange::CreateEntity {
                    draft_id: ProposalDraftId::new(),
                    kind: EntityKind::Concept,
                    temporal: TemporalFacts::observed_at(500),
                    canonical_name: "purge_review_entity".into(),
                    aliases: Vec::new(),
                    evidence_ids: vec![source.id],
                }],
            },
        )
        .unwrap();
    let review = approve_proposal(&database, &proposal, &recall_case);
    let preview = database
        .preview_purge(Actor::Operator, RecordRef::Evidence(source.id))
        .unwrap();
    assert!(preview
        .invalidations
        .iter()
        .any(|entry| entry.record == RecordRef::Proposal(proposal.id)));
    assert!(preview
        .invalidations
        .iter()
        .any(|entry| { entry.record == RecordRef::ProposalReview(review.review_case_id) }));
    database
        .commit_purge(OperationContext::new(Actor::Operator), preview)
        .unwrap();
    assert!(database
        .inspect_proposal(proposal.id)
        .unwrap()
        .unwrap()
        .changes
        .is_none());
    assert!(database
        .inspect_proposal_review(review.review_case_id)
        .unwrap()
        .unwrap()
        .findings
        .is_none());
    assert_eq!(
        database
            .inspect_proposal(proposal.id)
            .unwrap()
            .unwrap()
            .header
            .status,
        ProposalStatus::Stale
    );
    assert!(matches!(
        database.adjudicate_proposal(
            OperationContext::new(Actor::Operator),
            ProposalAdjudication {
                proposal_id: proposal.id,
                expected_proposal_revision: review.proposal.revision + 1,
                review_case_id: review.review_case_id,
                expected_review_revision: review.review_revision + 1,
                decision: ProposalDecision::Accept,
                authority: AdjudicationAuthority::ExplicitOperator,
            }
        ),
        Err(MemoryError::InvalidInput(_))
    ));
}

#[test]
fn recall_feedback_is_structured_idempotent_and_does_not_correct_memory() {
    let (_parent, _root, database) = create_test_database();
    let source = imported_source(&database, "feedback_marker");
    let recall_case = recall_case_for(&database, "feedback_marker");
    let operation = OperationContext::new(Actor::User);
    let input = NewRecallFeedback {
        recall_case_id: recall_case.id,
        recall_case_revision: recall_case.revision,
        candidate: Some(RecordRevisionPin {
            record: RecordRef::Evidence(source.id),
            revision: 1,
        }),
        kind: RecallFeedbackKind::Irrelevant,
    };
    let first = database
        .record_recall_feedback(operation, input.clone())
        .unwrap();
    assert_eq!(
        database.record_recall_feedback(operation, input).unwrap(),
        first
    );
    assert_eq!(
        database.inspect_recall_feedback(first.id).unwrap().unwrap(),
        first
    );
    assert_eq!(
        database
            .inspect_evidence(source.id)
            .unwrap()
            .unwrap()
            .availability
            .state,
        RecordState::Active
    );
}

#[test]
fn recall_feedback_kind_determines_whether_a_candidate_is_allowed() {
    let (_parent, _root, database) = create_test_database();
    let source = imported_source(&database, "feedback candidate semantics");
    let recall_case = recall_case_for(&database, "feedback candidate semantics");
    let candidate = RecordRevisionPin {
        record: RecordRef::Evidence(source.id),
        revision: 1,
    };

    assert!(matches!(
        database.record_recall_feedback(
            OperationContext::new(Actor::User),
            NewRecallFeedback {
                recall_case_id: recall_case.id,
                recall_case_revision: recall_case.revision,
                candidate: Some(candidate),
                kind: RecallFeedbackKind::MissingExpectedRecord,
            },
        ),
        Err(MemoryError::InvalidInput(message)) if message.contains("must not name a candidate")
    ));
    assert!(matches!(
        database.record_recall_feedback(
            OperationContext::new(Actor::User),
            NewRecallFeedback {
                recall_case_id: recall_case.id,
                recall_case_revision: recall_case.revision,
                candidate: None,
                kind: RecallFeedbackKind::Relevant,
            },
        ),
        Err(MemoryError::InvalidInput(message)) if message.contains("requires a candidate")
    ));
}

#[test]
fn operational_fingerprint_is_keyed_stable_and_store_specific() {
    let (first_parent, first_root, first) = create_test_database();
    let (_, _, second) = create_test_database();
    let fingerprint = first
        .operational_fingerprint("assistant-memory-ledger", b"same durable input")
        .unwrap();
    assert_eq!(
        fingerprint,
        first
            .operational_fingerprint("assistant-memory-ledger", b"same durable input")
            .unwrap()
    );
    assert_ne!(
        fingerprint,
        first
            .operational_fingerprint("assistant-memory-terminal", b"same durable input")
            .unwrap()
    );
    assert_ne!(
        fingerprint,
        second
            .operational_fingerprint("assistant-memory-ledger", b"same durable input")
            .unwrap()
    );
    drop(first);
    let reopened = MemoryDatabase::open(&first_root).unwrap();
    assert_eq!(
        fingerprint,
        reopened
            .operational_fingerprint("assistant-memory-ledger", b"same durable input")
            .unwrap()
    );
    drop(first_parent);
}

fn artifact_snapshot_fixture(
    database: &MemoryDatabase,
    bytes: Vec<u8>,
) -> (ArtifactCollectionReceipt, ArtifactSnapshotReceipt) {
    let collection = database
        .create_artifact_collection(
            OperationContext::new(Actor::User),
            NewArtifactCollection {
                label: "  exact collection label  ".into(),
            },
        )
        .unwrap();
    let snapshot = database
        .import_artifact_snapshot(
            OperationContext::new(Actor::System),
            NewArtifactSnapshot {
                collection_id: collection.id,
                expected_collection_revision: 1,
                temporal: TemporalFacts::observed_at(42),
                media_type: "application/octet-stream".into(),
                bytes,
            },
        )
        .unwrap();
    (collection, snapshot)
}

#[test]
fn artifact_snapshot_is_exact_immutable_and_replay_safe() {
    let (_parent, _root, database) = create_test_database();
    let collection = database
        .create_artifact_collection(
            OperationContext::new(Actor::User),
            NewArtifactCollection {
                label: "  exact collection label  ".into(),
            },
        )
        .unwrap();
    assert_eq!(
        database
            .inspect_artifact_collection(collection.id)
            .unwrap()
            .unwrap()
            .label
            .as_deref(),
        Some("  exact collection label  ")
    );
    let operation = OperationContext::new(Actor::System);
    let bytes = vec![0, 255, 7, 0, 42];
    let input = NewArtifactSnapshot {
        collection_id: collection.id,
        expected_collection_revision: 1,
        temporal: TemporalFacts::observed_at(42),
        media_type: "application/octet-stream".into(),
        bytes: bytes.clone(),
    };
    let first = database
        .import_artifact_snapshot(operation, input.clone())
        .unwrap();
    assert_eq!(
        database
            .import_artifact_snapshot(operation, input.clone())
            .unwrap(),
        first
    );
    let conflicting = NewArtifactSnapshot {
        bytes: vec![1, 2, 3],
        ..input.clone()
    };
    assert!(matches!(
        database.import_artifact_snapshot(operation, conflicting),
        Err(MemoryError::OperationConflict(id)) if id == operation.id
    ));
    let record = database
        .inspect_artifact_snapshot(first.id)
        .unwrap()
        .unwrap();
    assert_eq!(record.header.byte_len, bytes.len() as u64);
    assert_eq!(
        record.media_type.as_deref(),
        Some("application/octet-stream")
    );
    assert_eq!(
        record.content_digest,
        Some(*blake3::hash(&bytes).as_bytes())
    );
    let materialized = database
        .materialize_artifact_snapshot(first.id)
        .unwrap()
        .unwrap();
    assert_eq!(materialized.bytes, bytes);
    assert_eq!(record.header.evidence_id, first.evidence.id);
    assert_eq!(
        database
            .artifact_provenance_for_evidence(first.evidence.id)
            .unwrap(),
        Some(ArtifactEvidenceProvenance::Snapshot {
            collection_id: collection.id,
            snapshot_id: first.id,
            byte_len: bytes.len() as u64,
        })
    );
    assert_eq!(
        database
            .inspect_evidence(first.evidence.id)
            .unwrap()
            .unwrap()
            .header
            .class,
        EvidenceClass::ArtifactSnapshot
    );
}

#[test]
fn artifact_passage_batch_preserves_exact_text_locator_and_lineage() {
    let (_parent, _root, database) = create_test_database();
    let (collection, snapshot) = artifact_snapshot_fixture(&database, vec![1; 100]);
    let operation = OperationContext::new(Actor::System);
    let input = NewArtifactPassageBatch {
        snapshot_id: snapshot.id,
        expected_snapshot_revision: 1,
        passages: vec![
            NewArtifactPassage {
                locator: ArtifactLocator {
                    ordinal: 0,
                    byte_range: Some(ArtifactRange {
                        start: 0,
                        end_exclusive: 10,
                    }),
                    page_range: Some(ArtifactRange {
                        start: 1,
                        end_exclusive: 2,
                    }),
                    time_range_ms: None,
                },
                text: "  exact first passage  ".into(),
            },
            NewArtifactPassage {
                locator: ArtifactLocator {
                    ordinal: 1,
                    byte_range: Some(ArtifactRange {
                        start: 10,
                        end_exclusive: 20,
                    }),
                    page_range: None,
                    time_range_ms: Some(ArtifactRange {
                        start: 100,
                        end_exclusive: 200,
                    }),
                },
                text: "second passage".into(),
            },
        ],
    };
    let receipt = database
        .create_artifact_passages(operation, input.clone())
        .unwrap();
    assert_eq!(
        database.create_artifact_passages(operation, input).unwrap(),
        receipt
    );
    assert_eq!(receipt.passages.len(), 2);
    let first = database
        .inspect_artifact_passage(receipt.passages[0].id)
        .unwrap()
        .unwrap();
    assert_eq!(first.text.as_deref(), Some("  exact first passage  "));
    assert_eq!(first.header.collection_id, collection.id);
    assert_eq!(first.header.snapshot_id, snapshot.id);
    assert_eq!(first.header.evidence_id, receipt.passages[0].evidence.id);
    assert_eq!(first.header.locator.ordinal, 0);
    assert_eq!(
        database
            .artifact_provenance_for_evidence(receipt.passages[0].evidence.id)
            .unwrap(),
        Some(ArtifactEvidenceProvenance::Passage {
            collection_id: collection.id,
            snapshot_id: snapshot.id,
            passage_id: receipt.passages[0].id,
            locator: first.header.locator,
        })
    );
}

#[test]
fn artifact_recall_citations_carry_typed_provenance_and_locator() {
    let (_parent, _root, database) = create_test_database();
    let (collection, snapshot) = artifact_snapshot_fixture(&database, vec![7; 100]);
    let passage = database
        .create_artifact_passages(
            OperationContext::new(Actor::System),
            NewArtifactPassageBatch {
                snapshot_id: snapshot.id,
                expected_snapshot_revision: 1,
                passages: vec![NewArtifactPassage {
                    locator: ArtifactLocator {
                        ordinal: 4,
                        byte_range: Some(ArtifactRange {
                            start: 10,
                            end_exclusive: 20,
                        }),
                        page_range: None,
                        time_range_ms: None,
                    },
                    text: "typed provenance marker".into(),
                }],
            },
        )
        .unwrap()
        .passages
        .remove(0);
    database
        .create_claim(
            OperationContext::new(Actor::System),
            NewClaim {
                domain: ClaimDomain::ArtifactContent,
                scope: Scope::Artifact(collection.id.0),
                temporal: TemporalFacts::observed_at(43),
                proposition: "typed provenance derived claim".into(),
                evidence_ids: vec![passage.evidence.id],
            },
        )
        .unwrap();
    let recall = database
        .recall(RecallQuery {
            text: "typed provenance derived claim".into(),
            scopes: vec![Scope::Artifact(collection.id.0)],
            observed_from_ms: None,
            observed_to_ms: None,
            valid_at_ms: None,
            limit: 10,
        })
        .unwrap();
    let claim = recall
        .citations
        .iter()
        .find(|citation| matches!(citation.record, RecordRef::Claim(_)))
        .unwrap();
    assert_eq!(
        claim.evidence[0].artifact,
        Some(ArtifactEvidenceProvenance::Passage {
            collection_id: collection.id,
            snapshot_id: snapshot.id,
            passage_id: passage.id,
            locator: ArtifactLocator {
                ordinal: 4,
                byte_range: Some(ArtifactRange {
                    start: 10,
                    end_exclusive: 20,
                }),
                page_range: None,
                time_range_ms: None,
            },
        })
    );
}

#[test]
fn passage_ordinals_are_unique_across_batches_without_partial_write() {
    let (_parent, root, database) = create_test_database();
    let (_collection, snapshot) = artifact_snapshot_fixture(&database, vec![1; 100]);
    database
        .create_artifact_passages(
            OperationContext::new(Actor::System),
            NewArtifactPassageBatch {
                snapshot_id: snapshot.id,
                expected_snapshot_revision: 1,
                passages: vec![NewArtifactPassage {
                    locator: ArtifactLocator {
                        ordinal: 2,
                        byte_range: None,
                        page_range: None,
                        time_range_ms: None,
                    },
                    text: "existing ordinal".into(),
                }],
            },
        )
        .unwrap();
    let operation = OperationContext::new(Actor::System);
    let attempted = NewArtifactPassageBatch {
        snapshot_id: snapshot.id,
        expected_snapshot_revision: 1,
        passages: vec![
            NewArtifactPassage {
                locator: ArtifactLocator {
                    ordinal: 1,
                    byte_range: None,
                    page_range: None,
                    time_range_ms: None,
                },
                text: "must not partially insert".into(),
            },
            NewArtifactPassage {
                locator: ArtifactLocator {
                    ordinal: 2,
                    byte_range: None,
                    page_range: None,
                    time_range_ms: None,
                },
                text: "duplicate durable ordinal".into(),
            },
        ],
    };
    assert!(matches!(
        database.create_artifact_passages(operation, attempted),
        Err(MemoryError::InvalidInput(message)) if message.contains("already has passage ordinal 2")
    ));
    let retry = database
        .create_artifact_passages(
            operation,
            NewArtifactPassageBatch {
                snapshot_id: snapshot.id,
                expected_snapshot_revision: 1,
                passages: vec![NewArtifactPassage {
                    locator: ArtifactLocator {
                        ordinal: 1,
                        byte_range: None,
                        page_range: None,
                        time_range_ms: None,
                    },
                    text: "valid retry".into(),
                }],
            },
        )
        .unwrap();
    assert_eq!(retry.passages.len(), 1);
    drop(database);
    let reopened = MemoryDatabase::open(&root).unwrap();
    assert!(matches!(
        reopened.create_artifact_passages(
            OperationContext::new(Actor::System),
            NewArtifactPassageBatch {
                snapshot_id: snapshot.id,
                expected_snapshot_revision: 1,
                passages: vec![NewArtifactPassage {
                    locator: ArtifactLocator {
                        ordinal: 1,
                        byte_range: None,
                        page_range: None,
                        time_range_ms: None,
                    },
                    text: "duplicate after reopen".into(),
                }],
            },
        ),
        Err(MemoryError::InvalidInput(message)) if message.contains("already has passage ordinal 1")
    ));
}

#[test]
fn artifact_inputs_are_bounded_before_any_partial_write() {
    let (_parent, _root, database) = create_test_database();
    let (collection, snapshot) = artifact_snapshot_fixture(&database, vec![1; 100]);
    let oversized_snapshot_operation = OperationContext::new(Actor::System);
    assert!(matches!(
        database.import_artifact_snapshot(
            oversized_snapshot_operation,
            NewArtifactSnapshot {
                collection_id: collection.id,
                expected_collection_revision: 1,
                temporal: TemporalFacts::observed_at(1),
                media_type: "x".into(),
                bytes: vec![0; MAX_ARTIFACT_SNAPSHOT_BYTES + 1],
            }
        ),
        Err(MemoryError::InvalidInput(_))
    ));
    let invalid_batch_operation = OperationContext::new(Actor::System);
    assert!(matches!(
        database.create_artifact_passages(
            invalid_batch_operation,
            NewArtifactPassageBatch {
                snapshot_id: snapshot.id,
                expected_snapshot_revision: 1,
                passages: vec![
                    NewArtifactPassage {
                        locator: ArtifactLocator { ordinal: 1, byte_range: None, page_range: None, time_range_ms: None },
                        text: "first".into(),
                    },
                    NewArtifactPassage {
                        locator: ArtifactLocator { ordinal: 0, byte_range: None, page_range: None, time_range_ms: None },
                        text: "second".into(),
                    },
                ],
            }
        ),
        Err(MemoryError::InvalidInput(message)) if message.contains("increasing ordinals")
    ));
    assert!(matches!(
        database.create_artifact_passages(
            OperationContext::new(Actor::System),
            NewArtifactPassageBatch {
                snapshot_id: snapshot.id,
                expected_snapshot_revision: 1,
                passages: (0..=MAX_ARTIFACT_PASSAGE_BATCH)
                    .map(|ordinal| NewArtifactPassage {
                        locator: ArtifactLocator {
                            ordinal: ordinal as u32,
                            byte_range: None,
                            page_range: None,
                            time_range_ms: None,
                        },
                        text: "x".into(),
                    })
                    .collect(),
            }
        ),
        Err(MemoryError::InvalidInput(message)) if message.contains("passages")
    ));
    assert!(matches!(
        database.create_artifact_passages(
            OperationContext::new(Actor::System),
            NewArtifactPassageBatch {
                snapshot_id: snapshot.id,
                expected_snapshot_revision: 1,
                passages: (0..129)
                    .map(|ordinal| NewArtifactPassage {
                        locator: ArtifactLocator {
                            ordinal,
                            byte_range: None,
                            page_range: None,
                            time_range_ms: None,
                        },
                        text: "x".repeat(MAX_TEXT_BYTES),
                    })
                    .collect(),
            }
        ),
        Err(MemoryError::InvalidInput(message)) if message.contains("text bytes")
    ));
    let recovered = database
        .create_artifact_passages(
            invalid_batch_operation,
            NewArtifactPassageBatch {
                snapshot_id: snapshot.id,
                expected_snapshot_revision: 1,
                passages: vec![NewArtifactPassage {
                    locator: ArtifactLocator {
                        ordinal: 0,
                        byte_range: None,
                        page_range: None,
                        time_range_ms: None,
                    },
                    text: "valid retry after rejected batch".into(),
                }],
            },
        )
        .unwrap();
    assert_eq!(recovered.passages.len(), 1);
    assert_eq!(
        database
            .inspect_artifact_snapshot(snapshot.id)
            .unwrap()
            .unwrap()
            .availability
            .revision,
        1
    );
}

#[test]
fn generic_capture_cannot_forge_artifact_evidence_and_purge_closes_lineage() {
    let (_parent, _root, database) = create_test_database();
    for class in [
        EvidenceClass::ArtifactSnapshot,
        EvidenceClass::ArtifactPassage,
    ] {
        assert!(matches!(
            database.capture_evidence(
                OperationContext::new(Actor::System),
                NewEvidence {
                    class,
                    scope: Scope::Artifact(Ulid::new()),
                    temporal: TemporalFacts::observed_at(1),
                    lifecycle: EvidenceLifecycle::Direct,
                    text: "forged".into(),
                }
            ),
            Err(MemoryError::InvalidInput(message)) if message.contains("first-class artifact API")
        ));
    }
    let (_collection, snapshot) = artifact_snapshot_fixture(&database, vec![9; 100]);
    let passages = database
        .create_artifact_passages(
            OperationContext::new(Actor::System),
            NewArtifactPassageBatch {
                snapshot_id: snapshot.id,
                expected_snapshot_revision: 1,
                passages: vec![NewArtifactPassage {
                    locator: ArtifactLocator {
                        ordinal: 0,
                        byte_range: None,
                        page_range: None,
                        time_range_ms: None,
                    },
                    text: "purge lineage".into(),
                }],
            },
        )
        .unwrap();
    database
        .retract(
            OperationContext::new(Actor::Operator),
            RecordRef::ArtifactSnapshot(snapshot.id),
            1,
        )
        .unwrap();
    assert_eq!(
        database
            .inspect_artifact_passage(passages.passages[0].id)
            .unwrap()
            .unwrap()
            .availability
            .state,
        RecordState::Unsupported
    );
    let preview = database
        .preview_purge(Actor::Operator, RecordRef::ArtifactSnapshot(snapshot.id))
        .unwrap();
    database
        .commit_purge(OperationContext::new(Actor::Operator), preview)
        .unwrap();
    assert!(
        !database
            .inspect_artifact_snapshot(snapshot.id)
            .unwrap()
            .unwrap()
            .payload_available
    );
    assert!(database
        .materialize_artifact_snapshot(snapshot.id)
        .unwrap()
        .is_none());
    assert!(database
        .inspect_artifact_passage(passages.passages[0].id)
        .unwrap()
        .unwrap()
        .text
        .is_none());
    assert!(database
        .inspect_evidence(passages.passages[0].evidence.id)
        .unwrap()
        .unwrap()
        .text
        .is_none());
}

#[test]
fn collection_purge_closes_artifact_evidence_and_derived_claim_lineage() {
    let (_parent, _root, database) = create_test_database();
    let (collection, snapshot) = artifact_snapshot_fixture(&database, vec![5; 100]);
    let passage = database
        .create_artifact_passages(
            OperationContext::new(Actor::System),
            NewArtifactPassageBatch {
                snapshot_id: snapshot.id,
                expected_snapshot_revision: 1,
                passages: vec![NewArtifactPassage {
                    locator: ArtifactLocator {
                        ordinal: 0,
                        byte_range: None,
                        page_range: None,
                        time_range_ms: None,
                    },
                    text: "collection purge evidence".into(),
                }],
            },
        )
        .unwrap()
        .passages
        .remove(0);
    let claim = database
        .create_claim(
            OperationContext::new(Actor::System),
            NewClaim {
                domain: ClaimDomain::ArtifactContent,
                scope: Scope::Artifact(collection.id.0),
                temporal: TemporalFacts::observed_at(44),
                proposition: "derived artifact claim payload".into(),
                evidence_ids: vec![passage.evidence.id],
            },
        )
        .unwrap();
    let preview = database
        .preview_purge(
            Actor::Operator,
            RecordRef::ArtifactCollection(collection.id),
        )
        .unwrap();
    assert!(preview
        .invalidations
        .iter()
        .any(|entry| { entry.record == RecordRef::Evidence(passage.evidence.id) }));
    assert!(preview
        .invalidations
        .iter()
        .any(|entry| entry.record == RecordRef::Claim(claim.id)));
    database
        .commit_purge(OperationContext::new(Actor::Operator), preview)
        .unwrap();
    assert!(
        !database
            .inspect_artifact_snapshot(snapshot.id)
            .unwrap()
            .unwrap()
            .payload_available
    );
    assert!(database
        .materialize_artifact_snapshot(snapshot.id)
        .unwrap()
        .is_none());
    assert!(database
        .inspect_artifact_passage(passage.id)
        .unwrap()
        .unwrap()
        .text
        .is_none());
    assert!(database
        .inspect_evidence(passage.evidence.id)
        .unwrap()
        .unwrap()
        .text
        .is_none());
    let claim = database.inspect_claim(claim.id).unwrap().unwrap();
    assert_eq!(claim.header.state, RecordState::Unsupported);
    assert!(claim.proposition.is_none());
}

#[test]
fn artifact_evidence_purge_closes_passage_and_derived_claim_lineage() {
    let (_parent, _root, database) = create_test_database();
    let (collection, snapshot) = artifact_snapshot_fixture(&database, vec![6; 100]);
    let passage = database
        .create_artifact_passages(
            OperationContext::new(Actor::System),
            NewArtifactPassageBatch {
                snapshot_id: snapshot.id,
                expected_snapshot_revision: 1,
                passages: vec![NewArtifactPassage {
                    locator: ArtifactLocator {
                        ordinal: 0,
                        byte_range: None,
                        page_range: None,
                        time_range_ms: None,
                    },
                    text: "evidence-rooted purge".into(),
                }],
            },
        )
        .unwrap()
        .passages
        .remove(0);
    let claim = database
        .create_claim(
            OperationContext::new(Actor::System),
            NewClaim {
                domain: ClaimDomain::ArtifactContent,
                scope: Scope::Artifact(collection.id.0),
                temporal: TemporalFacts::observed_at(45),
                proposition: "artifact evidence derived claim".into(),
                evidence_ids: vec![passage.evidence.id],
            },
        )
        .unwrap();
    let preview = database
        .preview_purge(Actor::Operator, RecordRef::Evidence(passage.evidence.id))
        .unwrap();
    assert!(preview
        .invalidations
        .iter()
        .any(|entry| entry.record == RecordRef::ArtifactPassage(passage.id)));
    assert!(preview
        .invalidations
        .iter()
        .any(|entry| entry.record == RecordRef::Claim(claim.id)));
    database
        .commit_purge(OperationContext::new(Actor::Operator), preview)
        .unwrap();
    assert!(database
        .inspect_artifact_passage(passage.id)
        .unwrap()
        .unwrap()
        .text
        .is_none());
    assert!(database
        .inspect_claim(claim.id)
        .unwrap()
        .unwrap()
        .proposition
        .is_none());
}

#[test]
fn maximum_snapshot_metadata_operations_do_not_materialize_the_blob() {
    let (_parent, _root, database) = create_test_database();
    let (_collection, snapshot) =
        artifact_snapshot_fixture(&database, vec![0xa5; MAX_ARTIFACT_SNAPSHOT_BYTES]);
    let metadata = database
        .inspect_artifact_snapshot(snapshot.id)
        .unwrap()
        .unwrap();
    assert_eq!(metadata.header.byte_len, MAX_ARTIFACT_SNAPSHOT_BYTES as u64);
    assert!(metadata.payload_available);

    // Simulate loss in the separately stored blob. Metadata/state paths
    // must remain usable and must not attempt to load or hash the blob.
    database.store.borrow_mut().write(Write::DropBlob(snapshot.id));
    database
        .inspect(
            RecordRef::ArtifactSnapshot(snapshot.id),
            RevisionSelector::Head,
        )
        .unwrap()
        .unwrap();
    database
        .retract(
            OperationContext::new(Actor::Operator),
            RecordRef::ArtifactSnapshot(snapshot.id),
            1,
        )
        .unwrap();
    let preview = database
        .preview_purge(Actor::Operator, RecordRef::ArtifactSnapshot(snapshot.id))
        .unwrap();
    database
        .commit_purge(OperationContext::new(Actor::Operator), preview)
        .unwrap();
}

#[test]
fn relation_evaluator_definitions_are_operator_owned_versioned_and_idempotent() {
    let (_parent, _root, database) = create_test_database();
    let evaluator_id = RelationEvaluatorId::new();
    let input = NewRelationEvaluatorRevision {
        id: evaluator_id,
        expected_revision: None,
        kind: RelationEvaluatorKind::DeterministicRules,
        schema_version: 1,
        dimensions: vec![RelationDimension::Support, RelationDimension::TaskRelevance],
        provenance_digest: [0x11; 32],
    };
    assert!(matches!(
        database.put_relation_evaluator(OperationContext::new(Actor::System), input.clone()),
        Err(MemoryError::Unauthorized)
    ));

    let operation = OperationContext::new(Actor::Operator);
    let created = database
        .put_relation_evaluator(operation, input.clone())
        .unwrap();
    assert_eq!(created.pin.id, evaluator_id);
    assert_eq!(created.pin.revision, 1);
    assert_eq!(created.state, RecordState::Active);
    assert_eq!(
        database
            .put_relation_evaluator(operation, input.clone())
            .unwrap(),
        created
    );

    let mut changed = input.clone();
    changed.schema_version = 2;
    assert!(matches!(
        database.put_relation_evaluator(operation, changed),
        Err(MemoryError::OperationConflict(id)) if id == operation.id
    ));

    let revised = database
        .put_relation_evaluator(
            OperationContext::new(Actor::Operator),
            NewRelationEvaluatorRevision {
                expected_revision: Some(1),
                schema_version: 2,
                provenance_digest: [0x22; 32],
                ..input
            },
        )
        .unwrap();
    assert_eq!(revised.pin.revision, 2);
    let head = database
        .inspect_relation_evaluator(evaluator_id, RevisionSelector::Head)
        .unwrap()
        .unwrap();
    assert_eq!(head.header.revision, 2);
    assert_eq!(head.header.previous_revision, Some(1));
    assert_eq!(head.header.provenance_digest, [0x22; 32]);
    assert_eq!(
        database
            .inspect_relation_evaluator(evaluator_id, RevisionSelector::Exact(1))
            .unwrap()
            .unwrap()
            .header
            .schema_version,
        1
    );
}

#[test]
fn relation_profiles_pin_an_exact_evaluator_and_reject_duplicate_heads() {
    let (_parent, _root, database) = create_test_database();
    let evaluator_id = RelationEvaluatorId::new();
    let evaluator = database
        .put_relation_evaluator(
            OperationContext::new(Actor::Operator),
            NewRelationEvaluatorRevision {
                id: evaluator_id,
                expected_revision: None,
                kind: RelationEvaluatorKind::DeterministicRules,
                schema_version: 1,
                dimensions: vec![RelationDimension::Support, RelationDimension::TaskRelevance],
                provenance_digest: [0x31; 32],
            },
        )
        .unwrap();
    let profile_id = RelationProfileId::new();
    let input = NewRelationProfileRevision {
        id: profile_id,
        expected_revision: None,
        evaluator: evaluator.pin,
        heads: vec![
            RelationHeadWeight {
                dimension: RelationDimension::Support,
                weight_micros: 1_000_000,
            },
            RelationHeadWeight {
                dimension: RelationDimension::TaskRelevance,
                weight_micros: 500_000,
            },
        ],
        provenance_digest: [0x32; 32],
    };
    assert!(matches!(
        database.put_relation_profile(OperationContext::new(Actor::System), input.clone()),
        Err(MemoryError::Unauthorized)
    ));
    let profile = database
        .put_relation_profile(OperationContext::new(Actor::Operator), input.clone())
        .unwrap();
    assert_eq!(profile.pin.id, profile_id);
    assert_eq!(profile.pin.revision, 1);
    assert_eq!(profile.availability, RelationProfileAvailability::Available);

    let mut duplicate = input.clone();
    duplicate.id = RelationProfileId::new();
    duplicate.heads.push(RelationHeadWeight {
        dimension: RelationDimension::Support,
        weight_micros: 1,
    });
    assert!(matches!(
        database.put_relation_profile(OperationContext::new(Actor::Operator), duplicate),
        Err(MemoryError::InvalidInput(message)) if message.contains("unique")
    ));

    database
        .put_relation_evaluator(
            OperationContext::new(Actor::Operator),
            NewRelationEvaluatorRevision {
                id: evaluator_id,
                expected_revision: Some(1),
                kind: RelationEvaluatorKind::DeterministicRules,
                schema_version: 2,
                dimensions: vec![RelationDimension::Support, RelationDimension::TaskRelevance],
                provenance_digest: [0x33; 32],
            },
        )
        .unwrap();
    assert_eq!(
        database
            .inspect_relation_profile(profile_id, RevisionSelector::Head)
            .unwrap()
            .unwrap()
            .availability,
        RelationProfileAvailability::StaleEvaluator
    );
}

#[test]
fn relation_signals_are_versioned_fixed_point_sidecars_with_computed_staleness() {
    let (_parent, _root, database) = create_test_database();
    let first = imported_source(&database, "signal source alpha");
    let second = imported_source(&database, "signal source beta");
    let evaluator_id = RelationEvaluatorId::new();
    let evaluator = database
        .put_relation_evaluator(
            OperationContext::new(Actor::Operator),
            NewRelationEvaluatorRevision {
                id: evaluator_id,
                expected_revision: None,
                kind: RelationEvaluatorKind::DeterministicRules,
                schema_version: 1,
                dimensions: vec![RelationDimension::Support],
                provenance_digest: [0x41; 32],
            },
        )
        .unwrap();
    let profile_id = RelationProfileId::new();
    let profile = database
        .put_relation_profile(
            OperationContext::new(Actor::Operator),
            NewRelationProfileRevision {
                id: profile_id,
                expected_revision: None,
                evaluator: evaluator.pin,
                heads: vec![RelationHeadWeight {
                    dimension: RelationDimension::Support,
                    weight_micros: RELATION_FIXED_POINT_SCALE,
                }],
                provenance_digest: [0x42; 32],
            },
        )
        .unwrap();
    let input = NewRelationSignalBatch {
        evaluator: evaluator.pin,
        profile: profile.pin,
        signals: vec![NewRelationSignal {
            from: RecordRevisionPin {
                record: RecordRef::Evidence(first.id),
                revision: 1,
            },
            to: RecordRevisionPin {
                record: RecordRef::Evidence(second.id),
                revision: 1,
            },
            expected_signal: None,
            scores: vec![RelationDimensionScore {
                dimension: RelationDimension::Support,
                score_micros: 750_000,
            }],
            provenance_digest: [0x43; 32],
        }],
    };
    assert!(matches!(
        database.put_relation_signals(OperationContext::new(Actor::Operator), input.clone()),
        Err(MemoryError::Unauthorized)
    ));
    let operation = OperationContext::new(Actor::System);
    let created = database
        .put_relation_signals(operation, input.clone())
        .unwrap();
    assert_eq!(
        database
            .put_relation_signals(operation, input.clone())
            .unwrap(),
        created
    );
    let first_signal = created.signals[0];
    let record = database
        .inspect_relation_signal(first_signal.pin.id, RevisionSelector::Head)
        .unwrap()
        .unwrap();
    assert_eq!(record.availability, RelationSignalAvailability::Available);
    assert_eq!(record.scores.as_ref().unwrap()[0].score_micros, 750_000);

    let profile_v2 = database
        .put_relation_profile(
            OperationContext::new(Actor::Operator),
            NewRelationProfileRevision {
                id: profile_id,
                expected_revision: Some(1),
                evaluator: evaluator.pin,
                heads: vec![RelationHeadWeight {
                    dimension: RelationDimension::Support,
                    weight_micros: 500_000,
                }],
                provenance_digest: [0x44; 32],
            },
        )
        .unwrap();
    assert_eq!(
        database
            .inspect_relation_signal(first_signal.pin.id, RevisionSelector::Head)
            .unwrap()
            .unwrap()
            .availability,
        RelationSignalAvailability::Stale(RelationSignalStaleReason::ProfileAdvanced)
    );

    let revised = database
        .put_relation_signals(
            OperationContext::new(Actor::System),
            NewRelationSignalBatch {
                evaluator: evaluator.pin,
                profile: profile_v2.pin,
                signals: vec![NewRelationSignal {
                    expected_signal: Some(first_signal.pin),
                    ..input.signals[0].clone()
                }],
            },
        )
        .unwrap();
    assert_eq!(revised.signals[0].pin.id, first_signal.pin.id);
    assert_eq!(revised.signals[0].pin.revision, 2);
    assert_eq!(
        database
            .inspect_relation_signal(first_signal.pin.id, RevisionSelector::Head)
            .unwrap()
            .unwrap()
            .availability,
        RelationSignalAvailability::Available
    );

    database
        .retract(
            OperationContext::new(Actor::System),
            RecordRef::Evidence(first.id),
            1,
        )
        .unwrap();
    assert_eq!(
        database
            .inspect_relation_signal(first_signal.pin.id, RevisionSelector::Head)
            .unwrap()
            .unwrap()
            .availability,
        RelationSignalAvailability::Stale(RelationSignalStaleReason::SourceInactive)
    );
}

#[test]
fn shadow_activation_is_one_hop_deterministic_structural_and_non_authoritative() {
    let (_parent, _root, database) = create_test_database();
    imported_source(&database, "shadow_query_marker common alpha");
    imported_source(&database, "shadow_query_marker common beta");
    let recall_case = recall_case_for(&database, "shadow_query_marker common");
    assert_eq!(recall_case.candidates.len(), 2);
    let baseline = recall_case.clone();
    let candidate_pins: Vec<_> = recall_case
        .candidates
        .iter()
        .map(|candidate| RecordRevisionPin {
            record: candidate.record,
            revision: candidate.revision,
        })
        .collect();

    let evaluator = database
        .put_relation_evaluator(
            OperationContext::new(Actor::Operator),
            NewRelationEvaluatorRevision {
                id: RelationEvaluatorId::new(),
                expected_revision: None,
                kind: RelationEvaluatorKind::DeterministicRules,
                schema_version: 1,
                dimensions: vec![RelationDimension::TaskRelevance],
                provenance_digest: [0x51; 32],
            },
        )
        .unwrap();
    let profile = database
        .put_relation_profile(
            OperationContext::new(Actor::Operator),
            NewRelationProfileRevision {
                id: RelationProfileId::new(),
                expected_revision: None,
                evaluator: evaluator.pin,
                heads: vec![RelationHeadWeight {
                    dimension: RelationDimension::TaskRelevance,
                    weight_micros: RELATION_FIXED_POINT_SCALE,
                }],
                provenance_digest: [0x52; 32],
            },
        )
        .unwrap();
    let signal = database
        .put_relation_signals(
            OperationContext::new(Actor::System),
            NewRelationSignalBatch {
                evaluator: evaluator.pin,
                profile: profile.pin,
                signals: vec![NewRelationSignal {
                    from: candidate_pins[0],
                    to: candidate_pins[1],
                    expected_signal: None,
                    scores: vec![RelationDimensionScore {
                        dimension: RelationDimension::TaskRelevance,
                        score_micros: 800_000,
                    }],
                    provenance_digest: [0x53; 32],
                }],
            },
        )
        .unwrap()
        .signals[0];

    let request = ShadowActivationRequest {
        recall_case: RecallCasePin {
            id: recall_case.id,
            revision: recall_case.revision,
        },
        evaluator: evaluator.pin,
        profile: profile.pin,
        candidates: candidate_pins.clone(),
    };
    assert!(matches!(
        database.shadow_activate(OperationContext::new(Actor::Operator), request.clone()),
        Err(MemoryError::Unauthorized)
    ));
    let operation = OperationContext::new(Actor::System);
    let trace = database
        .shadow_activate(operation, request.clone())
        .unwrap();
    assert_eq!(database.shadow_activate(operation, request).unwrap(), trace);
    assert_eq!(trace.contributions.len(), 1);
    assert_eq!(trace.contributions[0].signal, signal.pin);
    assert_eq!(trace.contributions[0].weighted_score_micros, 800_000);
    assert_eq!(
        trace
            .candidates
            .iter()
            .find(|candidate| candidate.candidate == candidate_pins[1])
            .unwrap()
            .shadow_rank,
        0
    );
    assert_eq!(
        database
            .inspect_recall_case(recall_case.id)
            .unwrap()
            .unwrap(),
        baseline
    );
    assert_eq!(
        database
            .inspect_activation_trace(trace.id)
            .unwrap()
            .unwrap(),
        trace
    );
    let trace_json = format!("{:?}", trace);
    let audit_json = format!("{:?}", database.audit_events(100).unwrap());
    assert!(!trace_json.contains("shadow_query_marker"));
    assert!(!audit_json.contains("shadow_query_marker"));
}

#[test]
fn canonical_purge_exactly_erases_dependent_relation_signal_payloads() {
    let (_parent, _root, database) = create_test_database();
    let first = imported_source(&database, "purge signal private alpha");
    let second = imported_source(&database, "purge signal private beta");
    let evaluator = database
        .put_relation_evaluator(
            OperationContext::new(Actor::Operator),
            NewRelationEvaluatorRevision {
                id: RelationEvaluatorId::new(),
                expected_revision: None,
                kind: RelationEvaluatorKind::ExternalProjection,
                schema_version: 1,
                dimensions: vec![RelationDimension::Support],
                provenance_digest: [0x61; 32],
            },
        )
        .unwrap();
    let profile = database
        .put_relation_profile(
            OperationContext::new(Actor::Operator),
            NewRelationProfileRevision {
                id: RelationProfileId::new(),
                expected_revision: None,
                evaluator: evaluator.pin,
                heads: vec![RelationHeadWeight {
                    dimension: RelationDimension::Support,
                    weight_micros: RELATION_FIXED_POINT_SCALE,
                }],
                provenance_digest: [0x62; 32],
            },
        )
        .unwrap();
    let signal = database
        .put_relation_signals(
            OperationContext::new(Actor::System),
            NewRelationSignalBatch {
                evaluator: evaluator.pin,
                profile: profile.pin,
                signals: vec![NewRelationSignal {
                    from: RecordRevisionPin {
                        record: RecordRef::Evidence(first.id),
                        revision: 1,
                    },
                    to: RecordRevisionPin {
                        record: RecordRef::Evidence(second.id),
                        revision: 1,
                    },
                    expected_signal: None,
                    scores: vec![RelationDimensionScore {
                        dimension: RelationDimension::Support,
                        score_micros: 900_000,
                    }],
                    provenance_digest: [0x63; 32],
                }],
            },
        )
        .unwrap()
        .signals[0];

    let recall_case = recall_case_for(&database, "purge signal private");
    let trace = database
        .shadow_activate(
            OperationContext::new(Actor::System),
            ShadowActivationRequest {
                recall_case: RecallCasePin {
                    id: recall_case.id,
                    revision: recall_case.revision,
                },
                evaluator: evaluator.pin,
                profile: profile.pin,
                candidates: recall_case
                    .candidates
                    .iter()
                    .map(|candidate| RecordRevisionPin {
                        record: candidate.record,
                        revision: candidate.revision,
                    })
                    .collect(),
            },
        )
        .unwrap();

    let preview = database
        .preview_purge(Actor::Operator, RecordRef::Evidence(first.id))
        .unwrap();
    assert_eq!(
        preview.relation_signal_invalidations,
        vec![RelationSignalPurgeDependency { signal: signal.pin }]
    );
    assert_eq!(preview.activation_trace_invalidations, vec![trace.id]);
    let operation = OperationContext::new(Actor::Operator);
    let receipt = database.commit_purge(operation, preview.clone()).unwrap();
    assert_eq!(receipt.purged_relation_signals.len(), 1);
    assert_eq!(receipt.purged_relation_signals[0].id, signal.pin.id);
    assert_eq!(receipt.purged_relation_signals[0].revision, 2);
    assert_eq!(receipt.purged_activation_traces, vec![trace.id]);
    assert_eq!(database.commit_purge(operation, preview).unwrap(), receipt);
    assert!(database
        .inspect_activation_trace(trace.id)
        .unwrap()
        .is_none());

    let unavailable = database
        .inspect_relation_signal(signal.pin.id, RevisionSelector::Head)
        .unwrap()
        .unwrap();
    assert_eq!(unavailable.header.state, RecordState::Purged);
    assert!(unavailable.scores.is_none());
    assert!(unavailable.provenance_digest.is_none());
    assert_eq!(
        unavailable.availability,
        RelationSignalAvailability::Unavailable(RelationSignalUnavailableReason::PayloadPurged)
    );
    let audit_json = format!("{:?}", database.audit_events(100).unwrap());
    assert!(!audit_json.contains("purge signal private"));
}

#[test]
fn definition_retraction_stales_and_definition_purge_erases_dependent_signals() {
    let (_parent, _root, database) = create_test_database();
    let first = imported_source(&database, "definition lifecycle alpha");
    let second = imported_source(&database, "definition lifecycle beta");
    let evaluator = database
        .put_relation_evaluator(
            OperationContext::new(Actor::Operator),
            NewRelationEvaluatorRevision {
                id: RelationEvaluatorId::new(),
                expected_revision: None,
                kind: RelationEvaluatorKind::OfflineLearnedProjection,
                schema_version: 1,
                dimensions: vec![RelationDimension::TaskRelevance],
                provenance_digest: [0x71; 32],
            },
        )
        .unwrap();
    let profile = database
        .put_relation_profile(
            OperationContext::new(Actor::Operator),
            NewRelationProfileRevision {
                id: RelationProfileId::new(),
                expected_revision: None,
                evaluator: evaluator.pin,
                heads: vec![RelationHeadWeight {
                    dimension: RelationDimension::TaskRelevance,
                    weight_micros: RELATION_FIXED_POINT_SCALE,
                }],
                provenance_digest: [0x72; 32],
            },
        )
        .unwrap();
    let signal = database
        .put_relation_signals(
            OperationContext::new(Actor::System),
            NewRelationSignalBatch {
                evaluator: evaluator.pin,
                profile: profile.pin,
                signals: vec![NewRelationSignal {
                    from: RecordRevisionPin {
                        record: RecordRef::Evidence(first.id),
                        revision: 1,
                    },
                    to: RecordRevisionPin {
                        record: RecordRef::Evidence(second.id),
                        revision: 1,
                    },
                    expected_signal: None,
                    scores: vec![RelationDimensionScore {
                        dimension: RelationDimension::TaskRelevance,
                        score_micros: 400_000,
                    }],
                    provenance_digest: [0x73; 32],
                }],
            },
        )
        .unwrap()
        .signals[0];

    let recall_case = recall_case_for(&database, "definition lifecycle");
    let trace = database
        .shadow_activate(
            OperationContext::new(Actor::System),
            ShadowActivationRequest {
                recall_case: RecallCasePin {
                    id: recall_case.id,
                    revision: recall_case.revision,
                },
                evaluator: evaluator.pin,
                profile: profile.pin,
                candidates: recall_case
                    .candidates
                    .iter()
                    .map(|candidate| RecordRevisionPin {
                        record: candidate.record,
                        revision: candidate.revision,
                    })
                    .collect(),
            },
        )
        .unwrap();

    assert!(matches!(
        database.set_relation_profile_state(
            OperationContext::new(Actor::System),
            profile.pin,
            DerivedDefinitionStateChange::Retract
        ),
        Err(MemoryError::Unauthorized)
    ));
    let retracted = database
        .set_relation_profile_state(
            OperationContext::new(Actor::Operator),
            profile.pin,
            DerivedDefinitionStateChange::Retract,
        )
        .unwrap();
    assert_eq!(retracted.profile.state, RecordState::Retracted);
    assert!(retracted.purged_relation_signals.is_empty());
    assert_eq!(
        database
            .inspect_relation_signal(signal.pin.id, RevisionSelector::Head)
            .unwrap()
            .unwrap()
            .availability,
        RelationSignalAvailability::Stale(RelationSignalStaleReason::ProfileInactive)
    );

    let operation = OperationContext::new(Actor::Operator);
    let purged = database
        .set_relation_evaluator_state(
            operation,
            evaluator.pin,
            DerivedDefinitionStateChange::Purge,
        )
        .unwrap();
    assert_eq!(purged.evaluator.state, RecordState::Purged);
    assert_eq!(purged.purged_relation_signals.len(), 1);
    assert_eq!(purged.purged_activation_traces, vec![trace.id]);
    assert_eq!(
        database
            .set_relation_evaluator_state(
                operation,
                evaluator.pin,
                DerivedDefinitionStateChange::Purge,
            )
            .unwrap(),
        purged
    );
    assert!(database
        .inspect_activation_trace(trace.id)
        .unwrap()
        .is_none());
    assert_eq!(
        database
            .inspect_relation_signal(signal.pin.id, RevisionSelector::Head)
            .unwrap()
            .unwrap()
            .availability,
        RelationSignalAvailability::Unavailable(RelationSignalUnavailableReason::PayloadPurged)
    );
}

#[test]
fn relation_signal_owner_indexes_follow_evaluator_changes_exactly() {
    let (_parent, _root, database) = create_test_database();
    let first = imported_source(&database, "evaluator migration alpha");
    let second = imported_source(&database, "evaluator migration beta");
    let evaluator_one = database
        .put_relation_evaluator(
            OperationContext::new(Actor::Operator),
            NewRelationEvaluatorRevision {
                id: RelationEvaluatorId::new(),
                expected_revision: None,
                kind: RelationEvaluatorKind::DeterministicRules,
                schema_version: 1,
                dimensions: vec![RelationDimension::Support],
                provenance_digest: [0x81; 32],
            },
        )
        .unwrap();
    let evaluator_two = database
        .put_relation_evaluator(
            OperationContext::new(Actor::Operator),
            NewRelationEvaluatorRevision {
                id: RelationEvaluatorId::new(),
                expected_revision: None,
                kind: RelationEvaluatorKind::ExternalProjection,
                schema_version: 1,
                dimensions: vec![RelationDimension::Support],
                provenance_digest: [0x82; 32],
            },
        )
        .unwrap();
    let profile_id = RelationProfileId::new();
    let profile_one = database
        .put_relation_profile(
            OperationContext::new(Actor::Operator),
            NewRelationProfileRevision {
                id: profile_id,
                expected_revision: None,
                evaluator: evaluator_one.pin,
                heads: vec![RelationHeadWeight {
                    dimension: RelationDimension::Support,
                    weight_micros: RELATION_FIXED_POINT_SCALE,
                }],
                provenance_digest: [0x83; 32],
            },
        )
        .unwrap();
    let from = RecordRevisionPin {
        record: RecordRef::Evidence(first.id),
        revision: 1,
    };
    let to = RecordRevisionPin {
        record: RecordRef::Evidence(second.id),
        revision: 1,
    };
    let signal_one = database
        .put_relation_signals(
            OperationContext::new(Actor::System),
            NewRelationSignalBatch {
                evaluator: evaluator_one.pin,
                profile: profile_one.pin,
                signals: vec![NewRelationSignal {
                    from,
                    to,
                    expected_signal: None,
                    scores: vec![RelationDimensionScore {
                        dimension: RelationDimension::Support,
                        score_micros: 100_000,
                    }],
                    provenance_digest: [0x84; 32],
                }],
            },
        )
        .unwrap()
        .signals[0];
    let profile_two = database
        .put_relation_profile(
            OperationContext::new(Actor::Operator),
            NewRelationProfileRevision {
                id: profile_id,
                expected_revision: Some(1),
                evaluator: evaluator_two.pin,
                heads: vec![RelationHeadWeight {
                    dimension: RelationDimension::Support,
                    weight_micros: RELATION_FIXED_POINT_SCALE,
                }],
                provenance_digest: [0x85; 32],
            },
        )
        .unwrap();
    database
        .put_relation_signals(
            OperationContext::new(Actor::System),
            NewRelationSignalBatch {
                evaluator: evaluator_two.pin,
                profile: profile_two.pin,
                signals: vec![NewRelationSignal {
                    from,
                    to,
                    expected_signal: Some(signal_one.pin),
                    scores: vec![RelationDimensionScore {
                        dimension: RelationDimension::Support,
                        score_micros: 200_000,
                    }],
                    provenance_digest: [0x86; 32],
                }],
            },
        )
        .unwrap();

    let old_purge = database
        .set_relation_evaluator_state(
            OperationContext::new(Actor::Operator),
            evaluator_one.pin,
            DerivedDefinitionStateChange::Purge,
        )
        .unwrap();
    assert!(old_purge.purged_relation_signals.is_empty());
    assert_eq!(
        database
            .inspect_relation_signal(signal_one.pin.id, RevisionSelector::Head)
            .unwrap()
            .unwrap()
            .availability,
        RelationSignalAvailability::Available
    );
}

#[test]
fn relation_signal_and_activation_inputs_enforce_aggregate_bounds_and_uniqueness() {
    let (_parent, _root, database) = create_test_database();
    let first = imported_source(&database, "bound alpha");
    let second = imported_source(&database, "bound beta");
    let evaluator = database
        .put_relation_evaluator(
            OperationContext::new(Actor::Operator),
            NewRelationEvaluatorRevision {
                id: RelationEvaluatorId::new(),
                expected_revision: None,
                kind: RelationEvaluatorKind::DeterministicRules,
                schema_version: 1,
                dimensions: vec![RelationDimension::Support],
                provenance_digest: [0x91; 32],
            },
        )
        .unwrap();
    let profile = database
        .put_relation_profile(
            OperationContext::new(Actor::Operator),
            NewRelationProfileRevision {
                id: RelationProfileId::new(),
                expected_revision: None,
                evaluator: evaluator.pin,
                heads: vec![RelationHeadWeight {
                    dimension: RelationDimension::Support,
                    weight_micros: RELATION_FIXED_POINT_SCALE,
                }],
                provenance_digest: [0x92; 32],
            },
        )
        .unwrap();
    let base = NewRelationSignal {
        from: RecordRevisionPin {
            record: RecordRef::Evidence(first.id),
            revision: 1,
        },
        to: RecordRevisionPin {
            record: RecordRef::Evidence(second.id),
            revision: 1,
        },
        expected_signal: None,
        scores: vec![RelationDimensionScore {
            dimension: RelationDimension::Support,
            score_micros: 1,
        }],
        provenance_digest: [0x93; 32],
    };
    assert!(matches!(
        database.put_relation_signals(
            OperationContext::new(Actor::System),
            NewRelationSignalBatch {
                evaluator: evaluator.pin,
                profile: profile.pin,
                signals: vec![base.clone(), base.clone()],
            }
        ),
        Err(MemoryError::InvalidInput(message)) if message.contains("pairs must be unique")
    ));
    let mut duplicate_dimensions = base.clone();
    duplicate_dimensions
        .scores
        .push(duplicate_dimensions.scores[0]);
    assert!(matches!(
        database.put_relation_signals(
            OperationContext::new(Actor::System),
            NewRelationSignalBatch {
                evaluator: evaluator.pin,
                profile: profile.pin,
                signals: vec![duplicate_dimensions],
            }
        ),
        Err(MemoryError::InvalidInput(message)) if message.contains("dimensions must be unique")
    ));
    let mut out_of_range = base.clone();
    out_of_range.scores[0].score_micros = RELATION_FIXED_POINT_SCALE + 1;
    assert!(matches!(
        database.put_relation_signals(
            OperationContext::new(Actor::System),
            NewRelationSignalBatch {
                evaluator: evaluator.pin,
                profile: profile.pin,
                signals: vec![out_of_range],
            }
        ),
        Err(MemoryError::InvalidInput(message)) if message.contains("scores must be within")
    ));
    assert!(matches!(
        database.put_relation_signals(
            OperationContext::new(Actor::System),
            NewRelationSignalBatch {
                evaluator: evaluator.pin,
                profile: profile.pin,
                signals: vec![base; MAX_RELATION_SIGNAL_BATCH + 1],
            }
        ),
        Err(MemoryError::InvalidInput(message)) if message.contains("signal batch")
    ));
    assert!(matches!(
        database.shadow_activate(
            OperationContext::new(Actor::System),
            ShadowActivationRequest {
                recall_case: RecallCasePin {
                    id: RecallCaseId::new(),
                    revision: 1,
                },
                evaluator: evaluator.pin,
                profile: profile.pin,
                candidates: vec![
                    RecordRevisionPin {
                        record: RecordRef::Evidence(first.id),
                        revision: 1,
                    };
                    MAX_ACTIVATION_CANDIDATES + 1
                ],
            }
        ),
        Err(MemoryError::InvalidInput(message)) if message.contains("candidates")
    ));
}
