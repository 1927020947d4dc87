//! One input for each way in which a request can be refused.
use std::fmt::Debug;

use mmdb::{
    Actor, AdjudicationAuthority, ArtifactCollectionId, ArtifactLocator, ArtifactRange, ClaimDomain, ClaimId,
    CorrectUserClaim, DerivedDefinitionStateChange, EntityId, EraId, EvidenceClass, EvidenceId,
    EvidenceLifecycle, EvidenceReceipt, EvidenceRevisionPin, MAX_ARTIFACT_SNAPSHOT_BYTES,
    MAX_OPERATIONAL_FINGERPRINT_INPUT_BYTES, MemoryDatabase, MemoryError, NewArtifactCollection,
    NewArtifactPassage, NewArtifactPassageBatch, NewArtifactSnapshot, NewClaim, NewEvidence,
    NewProposalBundle, NewProposalReview, NewRecallFeedback, NewRelationEvaluatorRevision,
    NewRelationProfileRevision, NewRelationSignal, NewRelationSignalBatch, NewSemanticRelation,
    OperationContext, ProposalAdjudication, ProposalChange, ProposalDecision, ProposalDraftId,
    ProposalEndpoint, ProposalId, ProposalReceipt, ProposalReviewCaseId, ProposalReviewFinding,
    ProposalReviewReceipt, ProposalReviewVerdict, ProposalSourceJobId, RecallCasePin, RecallFeedbackKind,
    RecallQuery, RecordRef, RecordRevisionPin, RelationDimension, RelationDimensionScore,
    RelationEvaluatorId, RelationEvaluatorKind, RelationEvaluatorPin, RelationHeadWeight, RelationId,
    RelationKind, RelationProfileId, RelationProfilePin, RelationSignalId, RelationSignalPin,
    RememberUserClaim, ReviewFindingCode, Scope, ShadowActivationRequest, TemporalFacts,
    TerminalTurnStatus, Ulid,
};
use mmdb::fault::InputFault;
use mmdb::ids::RecallCaseId;

fn new_store() -> MemoryDatabase {
    MemoryDatabase::pristine(EraId(Ulid::new()), [42; 32])
}

fn refused<T: Debug>(outcome: Result<T, MemoryError>) -> InputFault {
    match outcome {
        Err(MemoryError::InvalidInput(fault)) => fault,
        other => panic!("not refused as an input: {other:?}"),
    }
}

fn user() -> OperationContext {
    OperationContext::new(Actor::User)
}

fn operator() -> OperationContext {
    OperationContext::new(Actor::Operator)
}

fn system() -> OperationContext {
    OperationContext::new(Actor::System)
}

fn assistant() -> OperationContext {
    OperationContext::new(Actor::Assistant)
}

fn import(store: &mut MemoryDatabase, text: &str) -> EvidenceReceipt {
    let input = NewEvidence {
        class: EvidenceClass::ImportedSource,
        scope: Scope::Personal,
        temporal: TemporalFacts::observed_at(100),
        lifecycle: EvidenceLifecycle::Direct,
        text: text.to_string(),
    };
    store.capture_evidence(system(), input, text.as_bytes()).unwrap()
}

fn claim_of(text: &str, evidence_ids: Vec<EvidenceId>) -> NewClaim {
    NewClaim {
        domain: ClaimDomain::ExternalFact,
        scope: Scope::Personal,
        temporal: TemporalFacts::observed_at(100),
        proposition: text.to_string(),
        evidence_ids,
    }
}

fn claimed(store: &mut MemoryDatabase, text: &str, evidence: EvidenceReceipt) -> ClaimId {
    store.create_claim(system(), claim_of(text, vec![evidence.id]), text.as_bytes()).unwrap().id
}

fn cue(text: &str) -> RecallQuery {
    RecallQuery {
        text: text.to_string(),
        scopes: vec![Scope::Personal],
        observed_from_ms: None,
        observed_to_ms: None,
        valid_at_ms: None,
        limit: 10,
    }
}

fn pin(record: RecordRef, revision: u64) -> RecordRevisionPin {
    RecordRevisionPin { record, revision }
}

fn evidence_pin(evidence: EvidenceReceipt) -> RecordRevisionPin {
    pin(RecordRef::Evidence(evidence.id), 1)
}

#[test]
fn capture_refuses_lifecycles_that_do_not_fit() {
    let mut store = new_store();
    let input = NewEvidence {
        class: EvidenceClass::UserAssertion,
        scope: Scope::Personal,
        temporal: TemporalFacts::observed_at(1),
        lifecycle: EvidenceLifecycle::TerminalTurn {
            source_event_id: "run".to_string(),
            status: TerminalTurnStatus::Completed,
        },
        text: "x".to_string(),
    };
    assert_eq!(refused(store.capture_evidence(user(), input, b"x")), InputFault::CaptureLifecycle);
    let long = vec![0u8; MAX_OPERATIONAL_FINGERPRINT_INPUT_BYTES + 1];
    assert_eq!(refused(store.operational_fingerprint("d", &long)), InputFault::FingerprintInput);
}

#[test]
fn recall_refuses_bad_cues() {
    let mut store = new_store();
    let empty = RecallQuery { observed_from_ms: Some(5), observed_to_ms: Some(5), ..cue("x") };
    assert_eq!(refused(store.recall(empty, b"x")), InputFault::ObservedTimeInterval);
    assert_eq!(refused(store.recall(cue(&"x".repeat(32_769)), b"x")), InputFault::RecallQueryBytes);
    assert!(store.recall(cue(&"x".repeat(32_768)), b"x").is_ok());
}

#[test]
fn artifacts_refuse_bad_contents() {
    let mut store = new_store();
    let label = NewArtifactCollection { label: "papers".to_string() };
    let collection = store.create_artifact_collection(user(), label, b"c").unwrap();
    let snapshot_of = |collection_id: ArtifactCollectionId, bytes: Vec<u8>| NewArtifactSnapshot {
        collection_id,
        expected_collection_revision: 1,
        temporal: TemporalFacts::observed_at(1),
        media_type: "text/plain".to_string(),
        bytes,
    };
    let none = snapshot_of(collection.id, Vec::new());
    assert_eq!(refused(store.import_artifact_snapshot(system(), none, b"s")), InputFault::SnapshotBytes);
    let large = snapshot_of(collection.id, vec![0u8; MAX_ARTIFACT_SNAPSHOT_BYTES + 1]);
    assert_eq!(refused(store.import_artifact_snapshot(system(), large, b"s")), InputFault::SnapshotBytes);

    let snapshot =
        store.import_artifact_snapshot(system(), snapshot_of(collection.id, b"abcd".to_vec()), b"s").unwrap();
    let bad = Some(ArtifactRange { start: 2, end_exclusive: 2 });
    let plain = ArtifactLocator { ordinal: 0, byte_range: None, page_range: None, time_range_ms: None };
    for (locator, fault) in [
        (ArtifactLocator { byte_range: bad, ..plain }, InputFault::ByteRange),
        (ArtifactLocator { page_range: bad, ..plain }, InputFault::PageRange),
        (ArtifactLocator { time_range_ms: bad, ..plain }, InputFault::TimeRange),
    ] {
        let batch = NewArtifactPassageBatch {
            snapshot_id: snapshot.id,
            expected_snapshot_revision: 1,
            passages: vec![NewArtifactPassage { locator, text: "ab".to_string() }],
        };
        assert_eq!(refused(store.create_artifact_passages(system(), batch, b"p")), fault);
    }

    let record = RecordRef::ArtifactCollection(collection.id);
    store.retract(operator(), record, 1, b"r").unwrap();
    let late = NewArtifactSnapshot {
        expected_collection_revision: 2,
        ..snapshot_of(collection.id, b"abcd".to_vec())
    };
    assert_eq!(refused(store.import_artifact_snapshot(system(), late, b"t")), InputFault::ArtifactParentInactive);
}

#[test]
fn claims_refuse_bad_grounds() {
    let mut store = new_store();
    assert_eq!(
        refused(store.create_claim(system(), claim_of("it rains", Vec::new()), b"c")),
        InputFault::ClaimWithoutEvidence
    );
    let remember = RememberUserClaim {
        domain: ClaimDomain::SystemFact,
        scope: Scope::Personal,
        temporal: TemporalFacts::observed_at(1),
        evidence_text: "x".to_string(),
        proposition: "x".to_string(),
    };
    assert_eq!(refused(store.remember_user_claim(user(), remember, b"m")), InputFault::AssertionDomain);

    let ground = import(&mut store, "it was measured");
    let content = NewClaim { domain: ClaimDomain::ArtifactContent, ..claim_of("it is warm", vec![ground.id]) };
    let claim = store.create_claim(system(), content, b"c").unwrap().id;
    let correct = |target: ClaimId, expected_revision: u64| CorrectUserClaim {
        target,
        expected_revision,
        temporal: TemporalFacts::observed_at(2),
        evidence_text: "no".to_string(),
        replacement_proposition: "it is cold".to_string(),
    };
    assert_eq!(refused(store.correct_user_claim(user(), correct(claim, 1), b"1")), InputFault::CorrectionDomain);
    store.retract(operator(), RecordRef::Claim(claim), 1, b"r").unwrap();
    assert_eq!(refused(store.correct_user_claim(user(), correct(claim, 2), b"2")), InputFault::InactiveCorrection);
}

#[test]
fn relations_refuse_bad_ends() {
    let mut store = new_store();
    let ground = import(&mut store, "it was measured");
    let warm = claimed(&mut store, "it is warm", ground);
    let dry = claimed(&mut store, "it is dry", ground);
    let relate = |from: RecordRef, to: RecordRef, kind: RelationKind, evidence_ids: Vec<EvidenceId>| {
        NewSemanticRelation { from, to, kind, scope: Scope::Personal, evidence_ids, qualifier: None }
    };
    let (warm, dry) = (RecordRef::Claim(warm), RecordRef::Claim(dry));
    let snapshot = RecordRef::ArtifactCollection(ArtifactCollectionId(Ulid(1)));
    let relation = RecordRef::SemanticRelation(RelationId(Ulid(1)));
    for (from, to, fault) in [
        (warm, warm, InputFault::RelationEndpointsEqual),
        (warm, relation, InputFault::RelationOnRelation),
        (warm, snapshot, InputFault::RelationEndpointUnsupported),
        (
            warm,
            RecordRef::Evidence(ground.id),
            InputFault::EndpointMismatch(RelationKind::Supports),
        ),
    ] {
        let input = relate(from, to, RelationKind::Supports, vec![ground.id]);
        assert_eq!(refused(store.create_semantic_relation(system(), input, b"r")), fault);
    }
    let bare = relate(warm, dry, RelationKind::Supports, Vec::new());
    assert_eq!(refused(store.create_semantic_relation(system(), bare, b"r")), InputFault::RelationWithoutEvidence);
    store.retract(operator(), dry, 1, b"retract").unwrap();
    let late = relate(warm, dry, RelationKind::Supports, vec![ground.id]);
    assert_eq!(refused(store.create_semantic_relation(system(), late, b"r")), InputFault::RelationEndpointInactive);
}

fn evaluator_of(id: u128, expected_revision: Option<u64>) -> NewRelationEvaluatorRevision {
    NewRelationEvaluatorRevision {
        id: RelationEvaluatorId(Ulid(id)),
        expected_revision,
        kind: RelationEvaluatorKind::DeterministicRules,
        schema_version: 1,
        dimensions: vec![RelationDimension::Support, RelationDimension::TaskRelevance],
        provenance_digest: [1; 32],
    }
}

fn profile_of(id: u128, expected_revision: Option<u64>, evaluator: RelationEvaluatorPin) -> NewRelationProfileRevision {
    NewRelationProfileRevision {
        id: RelationProfileId(Ulid(id)),
        expected_revision,
        evaluator,
        heads: vec![RelationHeadWeight { dimension: RelationDimension::Support, weight_micros: 500_000 }],
        provenance_digest: [2; 32],
    }
}

fn with_definitions(store: &mut MemoryDatabase) -> (RelationEvaluatorPin, RelationProfilePin) {
    let evaluator = store.put_relation_evaluator(operator(), evaluator_of(7, None), b"e").unwrap().pin;
    let profile = store.put_relation_profile(operator(), profile_of(8, None, evaluator), b"p").unwrap().pin;
    (evaluator, profile)
}

#[test]
fn definitions_refuse_bad_shapes() {
    let mut store = new_store();
    let flat = NewRelationEvaluatorRevision { schema_version: 0, ..evaluator_of(7, None) };
    assert_eq!(refused(store.put_relation_evaluator(operator(), flat, b"e")), InputFault::EvaluatorSchemaVersion);
    let bare = NewRelationEvaluatorRevision { dimensions: Vec::new(), ..evaluator_of(7, None) };
    assert_eq!(refused(store.put_relation_evaluator(operator(), bare, b"e")), InputFault::EvaluatorDimensionCount);

    let (evaluator, profile) = with_definitions(&mut store);
    let heads_of = |heads: Vec<RelationHeadWeight>| NewRelationProfileRevision {
        heads,
        ..profile_of(8, Some(1), evaluator)
    };
    assert_eq!(
        refused(store.put_relation_profile(operator(), heads_of(Vec::new()), b"p")),
        InputFault::ProfileHeadCount
    );
    let heavy = RelationHeadWeight { dimension: RelationDimension::Support, weight_micros: 1_000_001 };
    assert_eq!(
        refused(store.put_relation_profile(operator(), heads_of(vec![heavy]), b"p")),
        InputFault::ProfileWeightRange
    );
    let foreign = RelationHeadWeight { dimension: RelationDimension::Contradiction, weight_micros: 1 };
    assert_eq!(
        refused(store.put_relation_profile(operator(), heads_of(vec![foreign]), b"p")),
        InputFault::ProfileHeadUndeclared
    );
    let unknown = RelationEvaluatorPin { id: RelationEvaluatorId(Ulid(99)), revision: 1 };
    assert_eq!(
        refused(store.put_relation_profile(operator(), profile_of(9, None, unknown), b"p")),
        InputFault::EvaluatorMissing
    );

    let retract = DerivedDefinitionStateChange::Retract;
    store.set_relation_profile_state(operator(), profile, retract, b"r").unwrap();
    let profile = RelationProfilePin { revision: 2, ..profile };
    assert_eq!(
        refused(store.set_relation_profile_state(operator(), profile, retract, b"s")),
        InputFault::ProfileTerminal
    );
    assert_eq!(
        refused(store.put_relation_profile(operator(), profile_of(8, Some(2), evaluator), b"q")),
        InputFault::ProfileNotRevisable
    );
    store.set_relation_evaluator_state(operator(), evaluator, retract, b"t").unwrap();
    let evaluator = RelationEvaluatorPin { revision: 2, ..evaluator };
    assert_eq!(
        refused(store.set_relation_evaluator_state(operator(), evaluator, retract, b"u")),
        InputFault::EvaluatorTerminal
    );
    assert_eq!(
        refused(store.put_relation_evaluator(operator(), evaluator_of(7, Some(2)), b"f")),
        InputFault::EvaluatorNotRevisable
    );
    assert_eq!(
        refused(store.put_relation_profile(operator(), profile_of(9, None, evaluator), b"p")),
        InputFault::EvaluatorInactive
    );
}

fn signal_of(from: RecordRevisionPin, to: RecordRevisionPin, dimension: RelationDimension) -> NewRelationSignal {
    NewRelationSignal {
        from,
        to,
        expected_signal: None,
        scores: vec![RelationDimensionScore { dimension, score_micros: 250_000 }],
        provenance_digest: [3; 32],
    }
}

#[test]
fn signals_refuse_bad_pins() {
    let mut store = new_store();
    let first = import(&mut store, "first");
    let second = import(&mut store, "second");
    let (a, b) = (evidence_pin(first), evidence_pin(second));
    let (evaluator, profile) = with_definitions(&mut store);
    let support = RelationDimension::Support;
    let batch = |evaluator: RelationEvaluatorPin, profile: RelationProfilePin, signal: NewRelationSignal| {
        NewRelationSignalBatch { evaluator, profile, signals: vec![signal] }
    };

    let same = batch(evaluator, profile, signal_of(a, a, support));
    assert_eq!(refused(store.put_relation_signals(system(), same, b"1")), InputFault::SignalEndpointsEqual);
    let bare = NewRelationSignal { scores: Vec::new(), ..signal_of(a, b, support) };
    assert_eq!(
        refused(store.put_relation_signals(system(), batch(evaluator, profile, bare), b"2")),
        InputFault::SignalScoreCount
    );
    let unweighed = batch(evaluator, profile, signal_of(a, b, RelationDimension::TaskRelevance));
    assert_eq!(refused(store.put_relation_signals(system(), unweighed, b"3")), InputFault::SignalDimensionDisabled);
    let unknown = RelationProfilePin { id: RelationProfileId(Ulid(99)), revision: 1 };
    let adrift = batch(evaluator, unknown, signal_of(a, b, support));
    assert_eq!(refused(store.put_relation_signals(system(), adrift, b"4")), InputFault::ProfileMissing);
    let other = store.put_relation_evaluator(operator(), evaluator_of(17, None), b"e").unwrap().pin;
    let crossed = batch(other, profile, signal_of(a, b, support));
    assert_eq!(refused(store.put_relation_signals(system(), crossed, b"5")), InputFault::SignalPinsStale);

    let put = batch(evaluator, profile, signal_of(a, b, support));
    let held = store.put_relation_signals(system(), put, b"6").unwrap().signals[0].pin;
    let stranger = RelationSignalPin { id: RelationSignalId(Ulid(1)), revision: 1 };
    let claimed = NewRelationSignal { expected_signal: Some(stranger), ..signal_of(a, b, support) };
    assert_eq!(
        refused(store.put_relation_signals(system(), batch(evaluator, profile, claimed), b"7")),
        InputFault::SignalPairOwned(held.id, stranger.id)
    );

    store
        .set_relation_evaluator_state(operator(), evaluator, DerivedDefinitionStateChange::Purge, b"8")
        .unwrap();
    let moved = store.put_relation_profile(operator(), profile_of(8, Some(1), other), b"9").unwrap().pin;
    let purged = RelationSignalPin { id: held.id, revision: 2 };
    let again = NewRelationSignal { expected_signal: Some(purged), ..signal_of(a, b, support) };
    assert_eq!(
        refused(store.put_relation_signals(system(), batch(other, moved, again), b"10")),
        InputFault::SignalPurged
    );

    store.retract(operator(), b.record, 1, b"11").unwrap();
    let gone = batch(other, moved, signal_of(a, pin(b.record, 2), support));
    assert_eq!(refused(store.put_relation_signals(system(), gone, b"12")), InputFault::PinnedRecordInactive);
}

#[test]
fn activation_refuses_stale_definitions() {
    let mut store = new_store();
    let first = import(&mut store, "harbour bells");
    let case = store.recall(cue("harbour bells"), b"q").unwrap();
    let (evaluator, profile) = with_definitions(&mut store);
    let recall_case = RecallCasePin { id: case.case_id, revision: 1 };
    let wanted = |recall_case: RecallCasePin, evaluator: RelationEvaluatorPin, profile: RelationProfilePin| {
        ShadowActivationRequest { recall_case, evaluator, profile, candidates: vec![evidence_pin(first)] }
    };
    let adrift = RecallCasePin { id: RecallCaseId(Ulid(1)), revision: 1 };
    assert_eq!(
        refused(store.shadow_activate(system(), wanted(adrift, evaluator, profile), b"1")),
        InputFault::RecallCaseMissing
    );
    let late = RelationEvaluatorPin { revision: 2, ..evaluator };
    assert_eq!(
        refused(store.shadow_activate(system(), wanted(recall_case, late, profile), b"2")),
        InputFault::ActivationEvaluatorStale
    );
    let later = RelationProfilePin { revision: 2, ..profile };
    assert_eq!(
        refused(store.shadow_activate(system(), wanted(recall_case, evaluator, later), b"3")),
        InputFault::ActivationPinsStale
    );

    let operation = system();
    let trace = store.shadow_activate(operation, wanted(recall_case, evaluator, profile), b"4").unwrap();
    assert_eq!(
        store.shadow_activate(operation, wanted(recall_case, evaluator, profile), b"4").unwrap(),
        trace
    );
    store
        .set_relation_evaluator_state(operator(), evaluator, DerivedDefinitionStateChange::Purge, b"5")
        .unwrap();
    assert_eq!(
        refused(store.shadow_activate(operation, wanted(recall_case, evaluator, profile), b"4")),
        InputFault::TracePayloadGone
    );

    let feedback = NewRecallFeedback {
        recall_case_id: case.case_id,
        recall_case_revision: 1,
        candidate: Some(pin(RecordRef::Claim(ClaimId(Ulid(1))), 1)),
        kind: RecallFeedbackKind::Relevant,
    };
    assert_eq!(
        refused(store.record_recall_feedback(user(), feedback, b"6")),
        InputFault::FeedbackCandidateUnpinned
    );
}

fn drafted_claim(draft: u128, evidence_ids: Vec<EvidenceId>) -> ProposalChange {
    ProposalChange::CreateClaim {
        draft_id: ProposalDraftId(Ulid(draft)),
        domain: ClaimDomain::ExternalFact,
        temporal: TemporalFacts::observed_at(100),
        proposition: "proposed".to_string(),
        evidence_ids,
    }
}

fn drafted_relation(
    from: ProposalEndpoint,
    to: ProposalEndpoint,
    kind: RelationKind,
    evidence_ids: Vec<EvidenceId>,
) -> ProposalChange {
    ProposalChange::CreateRelation {
        draft_id: ProposalDraftId(Ulid(70)),
        from,
        to,
        kind,
        evidence_ids,
        qualifier: None,
    }
}

fn bundle_of(job: u128, sources: Vec<EvidenceReceipt>, changes: Vec<ProposalChange>) -> NewProposalBundle {
    NewProposalBundle {
        source_job_id: ProposalSourceJobId(Ulid(job)),
        scope: Scope::Personal,
        source_evidence: sources.iter().map(|found| EvidenceRevisionPin { id: found.id, revision: 1 }).collect(),
        changes,
    }
}

#[test]
fn bundles_refuse_bad_changes() {
    let mut store = new_store();
    let source = import(&mut store, "a source");
    let aside = import(&mut store, "another source");
    let claim = claimed(&mut store, "it holds", source);
    let held = pin(RecordRef::Claim(claim), 1);
    let existing = ProposalEndpoint::Existing(held);
    let ids = vec![source.id];
    let draft = |id: u128| ProposalEndpoint::Draft(ProposalDraftId(Ulid(id)));
    let about = RelationKind::About;
    let supports = RelationKind::Supports;

    assert_eq!(
        refused(store.submit_proposal(system(), bundle_of(1, Vec::new(), vec![drafted_claim(1, ids.clone())]), b"1")),
        InputFault::ProposalWithoutEvidence
    );
    for (changes, fault) in [
        (Vec::new(), InputFault::ProposalChangeCount),
        (vec![drafted_claim(1, Vec::new())], InputFault::ProposedWithoutEvidence),
        (vec![drafted_claim(1, vec![aside.id])], InputFault::ProposedEvidencePin),
        (
            vec![drafted_relation(existing, existing, supports, ids.clone())],
            InputFault::ProposedEndpointsEqual,
        ),
        (
            vec![ProposalChange::Retract { target: held }, ProposalChange::Retract { target: held }],
            InputFault::MutationTargetRepeats,
        ),
        (
            vec![ProposalChange::Retract { target: pin(RecordRef::Proposal(ProposalId(Ulid(1))), 1) }],
            InputFault::WorkflowTarget,
        ),
        (
            vec![ProposalChange::Retract {
                target: pin(RecordRef::ProposalReview(ProposalReviewCaseId(Ulid(1))), 1),
            }],
            InputFault::WorkflowTarget,
        ),
        (
            vec![ProposalChange::Retract { target: evidence_pin(source) }],
            InputFault::MutatesOwnSource,
        ),
        (
            vec![
                drafted_claim(1, ids.clone()),
                drafted_relation(draft(1), existing, supports, ids.clone()),
                ProposalChange::Retract { target: held },
            ],
            InputFault::MutatesEndpoint,
        ),
        (
            vec![drafted_relation(
                existing,
                ProposalEndpoint::Existing(pin(RecordRef::Proposal(ProposalId(Ulid(1))), 1)),
                supports,
                ids.clone(),
            )],
            InputFault::EndpointKinds,
        ),
        (
            vec![drafted_relation(existing, draft(9), supports, ids.clone())],
            InputFault::DraftEndpointKinds,
        ),
        (
            vec![
                drafted_claim(1, ids.clone()),
                drafted_relation(draft(1), existing, about, ids.clone()),
            ],
            InputFault::EndpointMismatch(about),
        ),
    ] {
        let bundle = bundle_of(1, vec![source], changes);
        assert_eq!(refused(store.submit_proposal(system(), bundle, b"bundle")), fault);
    }

    let bundle = bundle_of(1, vec![source], vec![drafted_claim(1, ids.clone())]);
    store.submit_proposal(system(), bundle.clone(), b"bundle").unwrap();
    assert_eq!(
        refused(store.submit_proposal(system(), bundle, b"another")),
        InputFault::SourceJobReused(ProposalSourceJobId(Ulid(1)))
    );
    let unknown = ProposalChange::Retract { target: pin(RecordRef::Entity(EntityId(Ulid(1))), 1) };
    assert_eq!(
        store.submit_proposal(system(), bundle_of(2, vec![source], vec![unknown]), b"bundle").err(),
        Some(MemoryError::NotFound(RecordRef::Entity(EntityId(Ulid(1)))))
    );
}

fn submitted(store: &mut MemoryDatabase, job: u128, source: EvidenceReceipt) -> ProposalReceipt {
    let bundle = bundle_of(job, vec![source], vec![drafted_claim(1, vec![source.id])]);
    store.submit_proposal(system(), bundle, &job.to_be_bytes()).unwrap()
}

fn review_of(proposal: ProposalReceipt, case: RecallCaseId, verdict: ProposalReviewVerdict) -> NewProposalReview {
    NewProposalReview {
        proposal_id: proposal.id,
        proposal_revision: proposal.revision,
        recall_case_id: case,
        recall_case_revision: 1,
        verdict,
        findings: Vec::new(),
    }
}

fn reviewed(
    store: &mut MemoryDatabase,
    proposal: ProposalReceipt,
    case: RecallCaseId,
    verdict: ProposalReviewVerdict,
) -> ProposalReviewReceipt {
    store.review_proposal(assistant(), review_of(proposal, case, verdict), b"review").unwrap()
}

fn acceptance(proposal: ProposalId, revision: u64, review: ProposalReviewReceipt) -> ProposalAdjudication {
    ProposalAdjudication {
        proposal_id: proposal,
        expected_proposal_revision: revision,
        review_case_id: review.review_case_id,
        expected_review_revision: review.review_revision,
        decision: ProposalDecision::Accept,
        authority: AdjudicationAuthority::ExplicitOperator,
    }
}

#[test]
fn reviews_refuse_what_is_not_under_review() {
    let mut store = new_store();
    let source = import(&mut store, "a source");
    let case = store.recall(cue("a source"), b"q").unwrap().case_id;
    let proposal = submitted(&mut store, 1, source);
    let approve = ProposalReviewVerdict::Approve;

    let adrift = review_of(proposal, RecallCaseId(Ulid(1)), approve);
    assert_eq!(refused(store.review_proposal(assistant(), adrift, b"1")), InputFault::RecallCaseMissing);
    let beyond = NewProposalReview {
        findings: vec![ProposalReviewFinding {
            code: ReviewFindingCode::DuplicateRecord,
            change_index: Some(1),
            pins: Vec::new(),
        }],
        ..review_of(proposal, case, ProposalReviewVerdict::Reject)
    };
    assert_eq!(refused(store.review_proposal(assistant(), beyond, b"2")), InputFault::FindingChangeIndex);
    let review = reviewed(&mut store, proposal, case, approve);
    let again = review_of(review.proposal, case, approve);
    assert_eq!(refused(store.review_proposal(assistant(), again, b"3")), InputFault::ReviewNotPending);
}

#[test]
fn adjudication_refuses_what_cannot_be_decided() {
    let mut store = new_store();
    let source = import(&mut store, "a source");
    let case = store.recall(cue("a source"), b"q").unwrap().case_id;
    let proposal = submitted(&mut store, 1, source);
    let review = reviewed(&mut store, proposal, case, ProposalReviewVerdict::Unsupported);
    assert_eq!(
        refused(store.adjudicate_proposal(operator(), acceptance(proposal.id, 2, review), b"1")),
        InputFault::AcceptanceNotPermitted
    );
    let other = submitted(&mut store, 2, source);
    assert_eq!(
        refused(store.adjudicate_proposal(operator(), acceptance(other.id, 1, review), b"2")),
        InputFault::ReviewPinsOther
    );
    store.retract(operator(), RecordRef::Proposal(other.id), 1, b"3").unwrap();
    assert_eq!(
        refused(store.adjudicate_proposal(operator(), acceptance(other.id, 2, review), b"4")),
        InputFault::WorkflowRecordGone
    );

    let preview = store.preview_purge(Actor::Operator, RecordRef::Proposal(proposal.id)).unwrap();
    store.commit_purge(operator(), preview, b"5").unwrap();
    assert_eq!(
        refused(store.adjudicate_proposal(operator(), acceptance(proposal.id, 3, review), b"6")),
        InputFault::ProposalPayloadGone
    );
    assert_eq!(
        refused(store.preview_purge(Actor::Operator, RecordRef::Proposal(proposal.id))),
        InputFault::AlreadyPurged
    );
}
