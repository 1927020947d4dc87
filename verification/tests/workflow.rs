//! What proposals, definitions and artifacts leave in a store.
use mmdb::{
    Actor, AdjudicationAuthority, ArtifactLocator, ArtifactRange, ClaimDomain, EntityKind, EraId, EvidenceClass,
    EvidenceLifecycle, EvidenceReceipt, EvidenceRevisionPin, InspectedRecord, MemoryDatabase, MemoryError,
    NewArtifactCollection,
    NewArtifactPassage, NewArtifactPassageBatch, NewArtifactSnapshot, NewEvidence, NewProposalBundle,
    NewProposalReview, NewRecallFeedback, NewRelationEvaluatorRevision, NewRelationProfileRevision,
    OperationContext, ProposalAdjudication, ProposalChange, ProposalDecision, ProposalDraftId,
    ProposalReviewVerdict, ProposalSourceJobId, ProposalStatus, RecallFeedbackKind, RecallQuery,
    RecordRef, RecordRevisionPin, RecordState, RelationDimension, RelationEvaluatorId,
    RelationEvaluatorKind, RelationHeadWeight, RelationProfileAvailability, RelationProfileId,
    RevisionSelector, Scope, TemporalFacts, Ulid,
};
use mmdb::bundles::normalize_proposal_bundle;
use mmdb::fault::InputFault;

fn new_store() -> MemoryDatabase {
    MemoryDatabase::pristine(EraId(Ulid::new()), [5; 32])
}

fn operator() -> OperationContext {
    OperationContext::new(Actor::Operator)
}

fn system() -> OperationContext {
    OperationContext::new(Actor::System)
}

fn import(store: &mut MemoryDatabase, text: &str) -> EvidenceReceipt {
    let input = NewEvidence {
        class: EvidenceClass::ImportedSource,
        scope: Scope::Personal,
        temporal: TemporalFacts::observed_at(100),
        lifecycle: EvidenceLifecycle::Direct,
        text: text.to_string(),
    };
    store.capture_evidence(system(), input, text.as_bytes()).unwrap()
}

fn query(text: &str) -> RecallQuery {
    RecallQuery {
        text: text.to_string(),
        scopes: vec![Scope::Personal],
        observed_from_ms: None,
        observed_to_ms: None,
        valid_at_ms: None,
        limit: 10,
    }
}

#[test]
fn proposals_move_from_list_to_list() {
    let mut store = new_store();
    let source = import(&mut store, "a source");
    let bundle = NewProposalBundle {
        source_job_id: ProposalSourceJobId(Ulid(1)),
        scope: Scope::Personal,
        source_evidence: vec![EvidenceRevisionPin { id: source.id, revision: 1 }],
        changes: vec![ProposalChange::CreateClaim {
            draft_id: ProposalDraftId(Ulid(1)),
            domain: ClaimDomain::ExternalFact,
            temporal: TemporalFacts::observed_at(100),
            proposition: " it holds ".to_string(),
            evidence_ids: vec![source.id, source.id],
        }],
    };
    let proposal = store.submit_proposal(system(), bundle.clone(), b"bundle").unwrap();
    let found = store.inspect_proposal(proposal.id).unwrap().unwrap();
    assert_eq!(found.header.status, ProposalStatus::PendingReview);
    assert_eq!(found.source_evidence, bundle.source_evidence);
    let Some([ProposalChange::CreateClaim { proposition, evidence_ids, .. }]) = found.changes.as_deref() else {
        panic!("no change")
    };
    assert_eq!(proposition, "it holds");
    assert_eq!(evidence_ids, &vec![source.id]);
    assert_eq!(store.list_pending_proposals(10).unwrap().len(), 1);
    assert_eq!(
        store.proposal_by_source_job(ProposalSourceJobId(Ulid(1))).unwrap().unwrap().header.id,
        proposal.id
    );

    let events = store.audit_events(100).unwrap().len();
    assert_eq!(store.submit_proposal(system(), bundle, b"bundle").unwrap(), proposal);
    assert_eq!(store.list_proposals(10).unwrap().len(), 1);
    assert_eq!(store.audit_events(100).unwrap().len(), events);

    let case = store.recall(query("a source"), b"query").unwrap().case_id;
    let review = NewProposalReview {
        proposal_id: proposal.id,
        proposal_revision: 1,
        recall_case_id: case,
        recall_case_revision: 1,
        verdict: ProposalReviewVerdict::NeedsUser,
        findings: Vec::new(),
    };
    let review = store.review_proposal(system(), review, b"review").unwrap();
    let given = store.inspect_proposal_review(review.review_case_id).unwrap().unwrap();
    assert_eq!(given.header.verdict, ProposalReviewVerdict::NeedsUser);
    assert_eq!(given.findings, Some(Vec::new()));
    assert_eq!(
        store.latest_proposal_review(proposal.id).unwrap().unwrap().header.id,
        review.review_case_id
    );
    assert_eq!(store.list_pending_proposals(10).unwrap().len(), 0);
    assert_eq!(store.list_awaiting_adjudication(10).unwrap().len(), 1);

    let decision = ProposalAdjudication {
        proposal_id: proposal.id,
        expected_proposal_revision: 2,
        review_case_id: review.review_case_id,
        expected_review_revision: 1,
        decision: ProposalDecision::Reject,
        authority: AdjudicationAuthority::ExplicitOperator,
    };
    let receipt = store.adjudicate_proposal(operator(), decision, b"decision").unwrap();
    assert_eq!(receipt.proposal.status, ProposalStatus::Rejected);
    assert_eq!(store.list_awaiting_adjudication(10).unwrap().len(), 0);
    assert_eq!(receipt.changed_records.len(), 0);
}

#[test]
fn definitions_and_feedback_read_back() {
    let mut store = new_store();
    let evaluator = NewRelationEvaluatorRevision {
        id: RelationEvaluatorId(Ulid(7)),
        expected_revision: None,
        kind: RelationEvaluatorKind::ExternalProjection,
        schema_version: 3,
        dimensions: vec![RelationDimension::TaskRelevance, RelationDimension::Support],
        provenance_digest: [1; 32],
    };
    let pin = store.put_relation_evaluator(operator(), evaluator, b"e").unwrap().pin;
    let found = store.inspect_relation_evaluator(pin.id, RevisionSelector::Head).unwrap().unwrap();
    assert_eq!(found.header.revision, 1);
    assert_eq!(found.header.schema_version, 3);
    assert_eq!(
        found.header.dimensions,
        vec![RelationDimension::Support, RelationDimension::TaskRelevance]
    );
    let weight = RelationHeadWeight { dimension: RelationDimension::Support, weight_micros: -5 };
    let profile = NewRelationProfileRevision {
        id: RelationProfileId(Ulid(8)),
        expected_revision: None,
        evaluator: pin,
        heads: vec![weight],
        provenance_digest: [2; 32],
    };
    let profile = store.put_relation_profile(operator(), profile, b"p").unwrap().pin;
    let found = store.inspect_relation_profile(profile.id, RevisionSelector::Head).unwrap().unwrap();
    assert_eq!(found.header.heads, vec![weight]);
    assert_eq!(found.header.evaluator, pin);
    assert_eq!(found.availability, RelationProfileAvailability::Available);

    let source = import(&mut store, "a source");
    let case = store.recall(query("a source"), b"query").unwrap().case_id;
    let candidate = RecordRevisionPin { record: RecordRef::Evidence(source.id), revision: 1 };
    let input = NewRecallFeedback {
        recall_case_id: case,
        recall_case_revision: 1,
        candidate: Some(candidate),
        kind: RecallFeedbackKind::Outdated,
    };
    let feedback = store.record_recall_feedback(operator(), input, b"f").unwrap();
    assert_eq!(feedback.candidate, Some(candidate));
    assert_eq!(feedback.kind, RecallFeedbackKind::Outdated);
    assert_eq!(store.inspect_recall_feedback(feedback.id).unwrap(), Some(feedback));
}

#[test]
fn collections_and_passages_read_back() {
    let mut store = new_store();
    let label = NewArtifactCollection { label: "  Papers ".to_string() };
    let collection = store.create_artifact_collection(system(), label, b"c").unwrap();
    let found = store.inspect_artifact_collection(collection.id).unwrap().unwrap();
    assert_eq!(found.label, Some("  Papers ".to_string()));
    assert_eq!(found.header.scope, Scope::Artifact(collection.id.0));
    let snapshot = NewArtifactSnapshot {
        collection_id: collection.id,
        expected_collection_revision: 1,
        temporal: TemporalFacts::observed_at(1),
        media_type: "text/plain".to_string(),
        bytes: b"first second".to_vec(),
    };
    let snapshot = store.import_artifact_snapshot(system(), snapshot, b"s").unwrap();
    let at = |ordinal: u32, start: u64, end_exclusive: u64| ArtifactLocator {
        ordinal,
        byte_range: Some(ArtifactRange { start, end_exclusive }),
        page_range: None,
        time_range_ms: None,
    };
    let batch = NewArtifactPassageBatch {
        snapshot_id: snapshot.id,
        expected_snapshot_revision: 1,
        passages: vec![
            NewArtifactPassage { locator: at(0, 0, 5), text: "first".to_string() },
            NewArtifactPassage { locator: at(1, 6, 12), text: "second".to_string() },
        ],
    };
    let made = store.create_artifact_passages(system(), batch, b"p").unwrap();
    assert_eq!(made.passages.len(), 2);
    for (receipt, (locator, text)) in made.passages.iter().zip([(at(0, 0, 5), "first"), (at(1, 6, 12), "second")]) {
        let found = store.inspect_artifact_passage(receipt.id).unwrap().unwrap();
        assert_eq!(found.text, Some(text.to_string()));
        assert_eq!(found.header.locator, locator);
        assert_eq!(found.header.snapshot_id, snapshot.id);
        assert_eq!(found.availability.state, RecordState::Active);
        let evidence = store.inspect_evidence(receipt.evidence.id).unwrap().unwrap();
        assert_eq!(evidence.text, Some(text.to_string()));
        assert_eq!(evidence.header.class, EvidenceClass::ArtifactPassage);
    }
}

fn claim_change(draft: u128, proposition: &str, source: &EvidenceReceipt) -> ProposalChange {
    ProposalChange::CreateClaim {
        draft_id: ProposalDraftId(Ulid(draft)),
        domain: ClaimDomain::ExternalFact,
        temporal: TemporalFacts::observed_at(100),
        proposition: proposition.to_string(),
        evidence_ids: vec![source.id],
    }
}

fn bundle_of(job: u128, source: &EvidenceReceipt, changes: Vec<ProposalChange>) -> NewProposalBundle {
    NewProposalBundle {
        source_job_id: ProposalSourceJobId(Ulid(job)),
        scope: Scope::Personal,
        source_evidence: vec![EvidenceRevisionPin { id: source.id, revision: 1 }],
        changes,
    }
}

#[test]
fn a_normal_bundle_is_its_own_normal_form() {
    let mut store = new_store();
    let first = import(&mut store, "one source");
    let second = import(&mut store, "another source");
    let pin = |receipt: &EvidenceReceipt| EvidenceRevisionPin { id: receipt.id, revision: 1 };
    let bundle = NewProposalBundle {
        source_job_id: ProposalSourceJobId(Ulid(1)),
        scope: Scope::Personal,
        source_evidence: vec![pin(&second), pin(&first), pin(&second)],
        changes: vec![
            ProposalChange::CreateEntity {
                draft_id: ProposalDraftId(Ulid(1)),
                kind: EntityKind::Person,
                temporal: TemporalFacts::observed_at(100),
                canonical_name: " Ada ".to_string(),
                aliases: vec!["b".to_string(), " a ".to_string(), "b ".to_string()],
                evidence_ids: vec![second.id, first.id, second.id],
            },
            claim_change(2, "  it holds ", &first),
        ],
    };
    let normal = normalize_proposal_bundle(&bundle).unwrap();
    assert_ne!(normal, bundle);
    let ProposalChange::CreateEntity { canonical_name, aliases, evidence_ids, .. } = &normal.changes[0] else {
        panic!("another change")
    };
    assert_eq!(canonical_name, "Ada");
    assert_eq!(aliases, &vec!["a".to_string(), "b".to_string()]);
    assert_eq!(evidence_ids.len(), 2);
    assert_eq!(normal.source_evidence.len(), 2);
    assert_eq!(normalize_proposal_bundle(&normal).unwrap(), normal);
}

#[test]
fn a_source_job_proposes_one_bundle() {
    let mut store = new_store();
    let source = import(&mut store, "a source");
    let first = bundle_of(4, &source, vec![claim_change(1, "it holds", &source)]);
    let other = bundle_of(4, &source, vec![claim_change(1, "it does not hold", &source)]);
    let receipt = store.submit_proposal(system(), first.clone(), b"first").unwrap();
    assert_eq!(receipt.status, ProposalStatus::PendingReview);
    assert_eq!(receipt.revision, 1);
    assert_eq!(store.submit_proposal(system(), first, b"first").unwrap(), receipt);
    assert_eq!(
        store.submit_proposal(system(), other, b"other"),
        Err(MemoryError::InvalidInput(InputFault::SourceJobReused(ProposalSourceJobId(Ulid(4)))))
    );
    assert_eq!(store.list_proposals(10).unwrap().len(), 1);
    let recalled = store.recall(query("it holds"), b"query").unwrap();
    assert!(recalled.citations.iter().all(|citation| !matches!(citation.record, RecordRef::Claim(_))));
}

#[test]
fn a_proposal_that_loses_its_ground_leaves_the_lists() {
    let mut store = new_store();
    let source = import(&mut store, "a source");
    let kept = import(&mut store, "a second source");
    let lost = bundle_of(1, &source, vec![claim_change(1, "it holds", &source)]);
    let stays = bundle_of(2, &kept, vec![claim_change(1, "it stays", &kept)]);
    let lost = store.submit_proposal(system(), lost, b"lost").unwrap();
    let stays = store.submit_proposal(system(), stays, b"stays").unwrap();
    assert_eq!(store.list_pending_proposals(10).unwrap().len(), 2);
    store.retract(operator(), RecordRef::Evidence(source.id), 1, b"retract").unwrap();
    let pending: Vec<_> = store.list_pending_proposals(10).unwrap().iter().map(|header| header.id).collect();
    assert_eq!(pending, vec![stays.id]);
    let header = store.inspect_proposal(lost.id).unwrap().unwrap().header;
    assert_eq!(header.id, lost.id);
    assert_eq!(header.revision, 2);
    assert_eq!(header.status, ProposalStatus::Stale);
    assert_eq!(header.state, RecordState::Unsupported);
}

#[test]
fn a_purge_that_is_asked_for_again_leaves_nothing_to_read() {
    let mut store = new_store();
    let source = import(&mut store, "a source");
    let bundle = bundle_of(1, &source, vec![claim_change(1, "it holds", &source)]);
    let proposal = store.submit_proposal(system(), bundle, b"bundle").unwrap();
    let target = RecordRef::Evidence(source.id);
    let preview = store.preview_purge(Actor::Operator, target).unwrap();
    let operation = operator();
    let receipt = store.commit_purge(operation, preview.clone(), b"purge").unwrap();
    import(&mut store, "a later source");
    assert_eq!(store.commit_purge(operation, preview, b"purge").unwrap(), receipt);
    assert_eq!(receipt.target.record, target);
    for selector in [RevisionSelector::Exact(1), RevisionSelector::Exact(2), RevisionSelector::Head] {
        let Some(InspectedRecord::Evidence(found)) = store.inspect(target, selector).unwrap() else {
            panic!("no evidence")
        };
        assert_eq!(found.header.id, source.id);
        assert_eq!(found.text, None);
        let Some(InspectedRecord::Proposal(found)) =
            store.inspect(RecordRef::Proposal(proposal.id), selector).unwrap()
        else {
            panic!("no proposal")
        };
        assert_eq!(found.changes, None);
    }
    assert_eq!(store.list_pending_proposals(10).unwrap().len(), 0);
}
