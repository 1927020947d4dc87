//! What an accepted proposal leaves behind, and what recall does not miss.
use mmdb::{
    Actor, AdjudicationAuthority, AppliedRecord, ClaimDomain, ClaimId, EntityKind, EraId, EvidenceClass,
    EvidenceLifecycle, EvidenceReceipt, EvidenceRevisionPin, MemoryDatabase, NewClaim, NewEvidence,
    NewProposalBundle, NewProposalReview, OperationContext, ProposalAdjudication, ProposalChange,
    ProposalDecision, ProposalDraftId, ProposalEndpoint, ProposalReviewVerdict, ProposalSourceJobId,
    ProposalStatus, RecallQuery, RecordRef, RecordRevisionPin, RecordState, RelationId, RelationKind,
    Scope, TemporalFacts, Ulid,
};

fn operator() -> OperationContext {
    OperationContext::new(Actor::Operator)
}

fn system() -> OperationContext {
    OperationContext::new(Actor::System)
}

fn import(store: &mut MemoryDatabase, text: &str, observed_at_ms: i64) -> EvidenceReceipt {
    let input = NewEvidence {
        class: EvidenceClass::ImportedSource,
        scope: Scope::Personal,
        temporal: TemporalFacts::observed_at(observed_at_ms),
        lifecycle: EvidenceLifecycle::Direct,
        text: text.to_string(),
    };
    store.capture_evidence(system(), input, text.as_bytes()).unwrap()
}

fn claimed(store: &mut MemoryDatabase, text: &str, evidence: EvidenceReceipt) -> ClaimId {
    let claim = NewClaim {
        domain: ClaimDomain::ExternalFact,
        scope: Scope::Personal,
        temporal: TemporalFacts::observed_at(100),
        proposition: text.to_string(),
        evidence_ids: vec![evidence.id],
    };
    store.create_claim(system(), claim, text.as_bytes()).unwrap().id
}

fn query(text: &str) -> RecallQuery {
    RecallQuery {
        text: text.to_string(),
        scopes: vec![Scope::Personal],
        observed_from_ms: None,
        observed_to_ms: None,
        valid_at_ms: None,
        limit: 10,
    }
}

fn claim_stands(store: &MemoryDatabase, id: ClaimId) -> (RecordState, u64) {
    let found = store.inspect_claim(id).unwrap().unwrap();
    (found.header.state, found.header.revision)
}

fn relation_stands(store: &MemoryDatabase, id: RelationId) -> (RecordState, u64) {
    let found = store.inspect_semantic_relation(id).unwrap().unwrap();
    (found.header.state, found.header.revision)
}

#[test]
fn accepted_changes_take_hold_together() {
    let mut store = MemoryDatabase::pristine(EraId(Ulid::new()), [9; 32]);
    let source = import(&mut store, "a source", 100);
    let other = import(&mut store, "another source", 200);
    let retracted = claimed(&mut store, "it is red", other);
    let superseded = claimed(&mut store, "it is green", other);
    let aside = claimed(&mut store, "it is round", other);
    let draft = |id: u128| ProposalDraftId(Ulid(id));
    let claim_pin = |id: ClaimId| RecordRevisionPin { record: RecordRef::Claim(id), revision: 1 };
    let bundle = NewProposalBundle {
        source_job_id: ProposalSourceJobId(Ulid(1)),
        scope: Scope::Personal,
        source_evidence: vec![EvidenceRevisionPin { id: source.id, revision: 1 }],
        changes: vec![
            ProposalChange::CreateClaim {
                draft_id: draft(1),
                domain: ClaimDomain::ExternalFact,
                temporal: TemporalFacts::observed_at(300),
                proposition: "it is blue".to_string(),
                evidence_ids: vec![source.id],
            },
            ProposalChange::CreateEntity {
                draft_id: draft(2),
                kind: EntityKind::Concept,
                temporal: TemporalFacts::observed_at(300),
                canonical_name: "Blue".to_string(),
                aliases: Vec::new(),
                evidence_ids: vec![source.id],
            },
            ProposalChange::CreateRelation {
                draft_id: draft(3),
                from: ProposalEndpoint::Draft(draft(1)),
                to: ProposalEndpoint::Draft(draft(2)),
                kind: RelationKind::About,
                evidence_ids: vec![source.id],
                qualifier: None,
            },
            ProposalChange::Retract { target: claim_pin(retracted) },
            ProposalChange::Supersede { target: claim_pin(superseded), replacement: draft(1) },
        ],
    };
    let proposal = store.submit_proposal(system(), bundle, b"bundle").unwrap();
    let case = store.recall(query("a source"), b"query").unwrap().case_id;
    let review = NewProposalReview {
        proposal_id: proposal.id,
        proposal_revision: 1,
        recall_case_id: case,
        recall_case_revision: 1,
        verdict: ProposalReviewVerdict::Approve,
        findings: Vec::new(),
    };
    let review = store.review_proposal(system(), review, b"review").unwrap();
    assert_eq!(claim_stands(&store, retracted), (RecordState::Active, 1));
    let decision = ProposalAdjudication {
        proposal_id: proposal.id,
        expected_proposal_revision: 2,
        review_case_id: review.review_case_id,
        expected_review_revision: 1,
        decision: ProposalDecision::Accept,
        authority: AdjudicationAuthority::ExplicitOperator,
    };
    let receipt = store.adjudicate_proposal(operator(), decision, b"decision").unwrap();
    assert_eq!(receipt.proposal.status, ProposalStatus::Applied);

    assert_eq!(receipt.draft_mappings.len(), 3);
    let made = |id: u128| {
        receipt.draft_mappings.iter().find(|found| found.draft_id == draft(id)).unwrap().record
    };
    let AppliedRecord::Claim(blue) = made(1) else { panic!("no claim") };
    let AppliedRecord::Entity(entity) = made(2) else { panic!("no entity") };
    let AppliedRecord::SemanticRelation(about) = made(3) else { panic!("no relation") };
    assert_eq!(claim_stands(&store, blue), (RecordState::Active, 1));
    assert_eq!(
        store.inspect_claim(blue).unwrap().unwrap().proposition,
        Some("it is blue".to_string())
    );
    assert_eq!(
        store.inspect_entity(entity).unwrap().unwrap().canonical_name,
        Some("Blue".to_string())
    );
    assert_eq!(relation_stands(&store, about), (RecordState::Active, 1));
    assert_eq!(claim_stands(&store, retracted), (RecordState::Retracted, 2));
    assert_eq!(claim_stands(&store, superseded), (RecordState::Superseded, 2));
    assert_eq!(claim_stands(&store, aside), (RecordState::Active, 1));

    assert_eq!(receipt.changed_records.len(), 6);
    for changed in &receipt.changed_records {
        let standing = match changed.record {
            RecordRef::Claim(id) => claim_stands(&store, id),
            RecordRef::SemanticRelation(id) => relation_stands(&store, id),
            RecordRef::Entity(id) => {
                let found = store.inspect_entity(id).unwrap().unwrap();
                (found.header.state, found.header.revision)
            }
            other => panic!("moved: {other:?}"),
        };
        assert_eq!(standing, (changed.state, changed.revision));
    }
}

#[test]
fn what_was_captured_is_recalled() {
    let mut store = MemoryDatabase::pristine(EraId(Ulid::new()), [9; 32]);
    let bells = import(&mut store, "Harbour  Bells rang", 500);
    import(&mut store, "the harbour was quiet", 900);
    let found = store.recall(query("harbour bells RANG"), b"1").unwrap();
    let first = &found.citations[0];
    assert_eq!(first.record, RecordRef::Evidence(bells.id));
    assert!(first.exact_match);
    assert_eq!(first.text, "Harbour  Bells rang");
    assert!(found.citations[1..].iter().all(|other| !other.exact_match));

    let when = RecallQuery { observed_from_ms: Some(400), observed_to_ms: Some(501), ..query("") };
    let found = store.recall(when, b"2").unwrap();
    assert_eq!(found.citations.len(), 1);
    assert_eq!(found.citations[0].record, RecordRef::Evidence(bells.id));
    assert_eq!(found.citations[0].text, "Harbour  Bells rang");
    let before = RecallQuery { observed_to_ms: Some(500), ..query("") };
    assert_eq!(store.recall(before, b"3").unwrap().citations.len(), 0);
}
