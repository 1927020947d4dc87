//! What a store keeps of what it was told, whatever happens next.
use mmdb::{
    Actor, ArtifactLocator, ArtifactRange, ClaimDomain, ClaimId, CorrectUserClaim, EraId, EvidenceClass,
    EvidenceLifecycle, EvidenceReceipt, InspectedRecord, MemoryDatabase, MemoryError,
    NewArtifactCollection, NewArtifactPassage, NewArtifactPassageBatch, NewArtifactSnapshot,
    NewClaim, NewEvidence, NewSemanticRelation, OperationContext, RecallQuery, RecordRef,
    RecordState, RelationKind, RememberUserClaim, RevisionSelector, Scope, TemporalFacts, Ulid,
};
use mmdb::clock::Fresh;
use mmdb::fault::{CorruptFault, InputFault, TextField};
use mmdb::ids::OperationId;
use mmdb::store::Write;

fn new_store() -> MemoryDatabase {
    MemoryDatabase::pristine(EraId(Ulid::new()), [42; 32])
}

fn assertion(text: &str) -> NewEvidence {
    NewEvidence {
        class: EvidenceClass::UserAssertion,
        scope: Scope::Personal,
        temporal: TemporalFacts::observed_at(100),
        lifecycle: EvidenceLifecycle::Direct,
        text: text.to_string(),
    }
}

fn observation(text: &str) -> NewEvidence {
    NewEvidence { class: EvidenceClass::SystemObservation, ..assertion(text) }
}

fn user() -> OperationContext {
    OperationContext::new(Actor::User)
}

fn operator() -> OperationContext {
    OperationContext::new(Actor::Operator)
}

fn captured(store: &mut MemoryDatabase, text: &str) -> EvidenceReceipt {
    store
        .capture_evidence(OperationContext::new(Actor::System), observation(text), text.as_bytes())
        .unwrap()
}

fn claimed(store: &mut MemoryDatabase, text: &str, evidence: EvidenceReceipt) -> ClaimId {
    let claim = NewClaim {
        domain: ClaimDomain::SystemFact,
        scope: Scope::Personal,
        temporal: TemporalFacts::observed_at(100),
        proposition: text.to_string(),
        evidence_ids: vec![evidence.id],
    };
    store.create_claim(operator(), claim, text.as_bytes()).unwrap().id
}

fn cue(text: &str) -> RecallQuery {
    RecallQuery {
        text: text.to_string(),
        scopes: vec![Scope::Personal],
        observed_from_ms: None,
        observed_to_ms: None,
        valid_at_ms: None,
        limit: 10,
    }
}

fn state_of(store: &MemoryDatabase, id: ClaimId) -> (RecordState, u64) {
    let claim = store.inspect_claim(id).unwrap().unwrap();
    (claim.header.state, claim.header.revision)
}

#[test]
fn captured_evidence_reads_back_and_is_retried() {
    let mut store = new_store();
    let operation = user();
    let receipt = store.capture_evidence(operation, assertion("the door is red"), b"one").unwrap();
    let found = store.inspect_evidence(receipt.id).unwrap().unwrap();
    assert_eq!(found.text, Some("the door is red".to_string()));
    assert_eq!(found.header.id, receipt.id);
    assert_eq!(found.header.operation_id, operation.id);
    assert_eq!(found.availability.state, RecordState::Active);
    assert_eq!(found.availability.revision, 1);

    let again = store.capture_evidence(operation, assertion("the door is red"), b"one").unwrap();
    assert_eq!(again, receipt);
    assert_eq!(store.audit_events(10).unwrap().len(), 1);
    assert_eq!(
        store.capture_evidence(operation, assertion("the door is red"), b"two"),
        Err(MemoryError::OperationConflict(operation.id))
    );
}

#[test]
fn refused_requests_change_nothing() {
    let mut store = new_store();
    assert_eq!(
        store.capture_evidence(user(), assertion(" "), b"one"),
        Err(MemoryError::InvalidInput(InputFault::EmptyText(TextField::EvidenceText)))
    );
    let unheard = OperationContext::new(Actor::Assistant);
    assert_eq!(store.capture_evidence(unheard, assertion("x"), b"one"), Err(MemoryError::Unauthorized));
    assert_eq!(store.audit_events(10).unwrap().len(), 0);
    assert_eq!(store.records_in_observed_range(None, None, 0, None).len(), 0);
    let missing = RecordRef::Claim(ClaimId(Ulid(1)));
    assert_eq!(store.retract(operator(), missing, 1, b"one"), Err(MemoryError::NotFound(missing)));
}

#[test]
fn retractions_reach_what_rests_on_a_record() {
    let mut store = new_store();
    let ground = captured(&mut store, "rain was measured");
    let other = captured(&mut store, "wind was measured");
    let near = claimed(&mut store, "it rained", ground);
    let aside = claimed(&mut store, "it was windy", other);
    let relation = store
        .create_semantic_relation(
            operator(),
            NewSemanticRelation {
                from: RecordRef::Claim(near),
                to: RecordRef::Claim(aside),
                kind: RelationKind::Supports,
                scope: Scope::Personal,
                evidence_ids: vec![other.id],
                qualifier: None,
            },
            b"relation",
        )
        .unwrap();

    let record = RecordRef::Evidence(ground.id);
    let receipt = store.retract(operator(), record, 1, b"retract").unwrap();
    assert_eq!(receipt.target.state, RecordState::Retracted);
    assert_eq!(receipt.target.revision, 2);
    let invalidated: Vec<RecordRef> = receipt.invalidated.iter().map(|found| found.record).collect();
    assert_eq!(invalidated.len(), 2);
    assert!(invalidated.contains(&RecordRef::Claim(near)));
    assert!(invalidated.contains(&RecordRef::SemanticRelation(relation.id)));
    assert_eq!(state_of(&store, near), (RecordState::Unsupported, 2));
    assert_eq!(state_of(&store, aside), (RecordState::Active, 1));
    let found = store.inspect_semantic_relation(relation.id).unwrap().unwrap();
    assert_eq!(found.header.state, RecordState::Unsupported);
    assert_eq!(found.header.from, RecordRef::Claim(near));
    assert_eq!(found.header.to, RecordRef::Claim(aside));
    assert_eq!(found.header.kind, RelationKind::Supports);

    assert_eq!(
        store.retract(operator(), record, 1, b"again"),
        Err(MemoryError::RevisionConflict { expected: 1, actual: 2 })
    );
    assert_eq!(
        store.retract(operator(), record, 2, b"again"),
        Err(MemoryError::InvalidInput(InputFault::InactiveRetraction))
    );
    let first = store.inspect(RecordRef::Claim(near), RevisionSelector::Exact(1)).unwrap().unwrap();
    match first {
        InspectedRecord::Claim(claim) => assert_eq!(claim.header.state, RecordState::Active),
        _ => panic!("a claim was asked for"),
    }
}

#[test]
fn corrections_supersede_a_claim() {
    let mut store = new_store();
    let remembered = store
        .remember_user_claim(
            user(),
            RememberUserClaim {
                domain: ClaimDomain::UserPreference,
                scope: Scope::Personal,
                temporal: TemporalFacts::observed_at(100),
                evidence_text: "I like tea".to_string(),
                proposition: " likes tea ".to_string(),
            },
            b"remember",
        )
        .unwrap();
    assert_eq!(
        store.inspect_claim(remembered.claim.id).unwrap().unwrap().proposition,
        Some("likes tea".to_string())
    );
    let correction = CorrectUserClaim {
        target: remembered.claim.id,
        expected_revision: 1,
        temporal: TemporalFacts::observed_at(200),
        evidence_text: "I like coffee".to_string(),
        replacement_proposition: "likes coffee".to_string(),
    };
    let receipt = store.correct_user_claim(user(), correction, b"correct").unwrap();
    assert_eq!(state_of(&store, remembered.claim.id), (RecordState::Superseded, 2));
    assert_eq!(state_of(&store, receipt.replacement.id), (RecordState::Active, 1));
    let relation = store.inspect_semantic_relation(receipt.supersedes_relation.id).unwrap().unwrap();
    assert_eq!(relation.header.kind, RelationKind::Supersedes);
    assert_eq!(relation.header.from, RecordRef::Claim(receipt.replacement.id));
    assert_eq!(relation.header.to, RecordRef::Claim(remembered.claim.id));
    let replacement = store.inspect_claim(receipt.replacement.id).unwrap().unwrap();
    assert_eq!(replacement.proposition, Some("likes coffee".to_string()));
    assert_eq!(replacement.header.evidence_ids, vec![receipt.evidence.id]);
    assert_eq!(
        store.inspect_evidence(receipt.evidence.id).unwrap().unwrap().header.class,
        EvidenceClass::UserCorrection
    );
}

#[test]
fn purged_payloads_do_not_read_at_any_revision() {
    let mut store = new_store();
    let ground = captured(&mut store, "secret measurement");
    let near = claimed(&mut store, "secret conclusion", ground);
    let record = RecordRef::Evidence(ground.id);
    let preview = store.preview_purge(Actor::Operator, record).unwrap();
    assert_eq!(preview.payloads_to_make_unavailable, 2);
    let mut forged = preview.clone();
    forged.expected_revision = 9;
    assert_eq!(
        store.commit_purge(operator(), forged, b"forged"),
        Err(MemoryError::StalePurgePreview)
    );
    store.commit_purge(operator(), preview, b"purge").unwrap();
    let found = store.inspect_evidence(ground.id).unwrap().unwrap();
    assert_eq!(found.text, None);
    assert_eq!(found.availability.state, RecordState::Purged);
    assert_eq!(state_of(&store, near), (RecordState::Unsupported, 2));
    for revision in [1, 2] {
        match store.inspect(RecordRef::Claim(near), RevisionSelector::Exact(revision)).unwrap().unwrap() {
            InspectedRecord::Claim(claim) => assert_eq!(claim.proposition, None),
            _ => panic!("a claim was asked for"),
        }
    }
    assert_eq!(store.recall(cue("secret"), b"cue").unwrap().citations.len(), 0);
}

#[test]
fn recall_cites_what_is_current() {
    let mut store = new_store();
    let ground = captured(&mut store, "the fox sleeps");
    let claim = claimed(&mut store, "the fox dreams", ground);
    let answer = store.recall(cue("the fox dreams"), b"cue").unwrap();
    assert_eq!(answer.citations.len(), 2);
    assert_eq!(answer.citations[0].record, RecordRef::Claim(claim));
    assert!(answer.citations[0].exact_match);
    assert_eq!(answer.citations[0].evidence_ids, vec![ground.id]);
    assert_eq!(answer.citations[1].matched_term_count, 2);
    store.retract(operator(), RecordRef::Claim(claim), 1, b"retract").unwrap();
    let later = store.recall(cue("the fox dreams"), b"cue").unwrap();
    let cited: Vec<RecordRef> = later.citations.iter().map(|citation| citation.record).collect();
    assert_eq!(cited, vec![RecordRef::Evidence(ground.id)]);
    let case = store.inspect_recall_case(answer.case_id).unwrap().unwrap();
    assert_eq!(case.candidates.len(), 2);
    assert_eq!(
        store.recall(RecallQuery { scopes: Vec::new(), ..cue("fox") }, b"cue"),
        Err(MemoryError::InvalidInput(InputFault::RecallWithoutScope))
    );
}

#[test]
fn a_turn_does_not_recall_itself() {
    let mut store = new_store();
    let earlier = captured(&mut store, "the fox sleeps");
    let turn = store
        .begin_turn_recall(user(), assertion("the fox wakes"), b"turn", cue("fox"), b"cue")
        .unwrap();
    let cited: Vec<RecordRef> = turn.recall.citations.iter().map(|citation| citation.record).collect();
    assert_eq!(cited, vec![RecordRef::Evidence(earlier.id)]);
    assert!(store.inspect_evidence(turn.evidence.id).unwrap().is_some());
}

#[test]
fn snapshots_materialize_byte_for_byte() {
    let mut store = new_store();
    let collection = store
        .create_artifact_collection(
            operator(),
            NewArtifactCollection { label: "papers".to_string() },
            b"collection",
        )
        .unwrap();
    let bytes = vec![0u8, 159, 255, 10];
    let snapshot = store
        .import_artifact_snapshot(
            operator(),
            NewArtifactSnapshot {
                collection_id: collection.id,
                expected_collection_revision: 1,
                temporal: TemporalFacts::observed_at(2),
                media_type: "text/plain".to_string(),
                bytes: bytes.clone(),
            },
            b"snapshot",
        )
        .unwrap();
    let blob = store.materialize_artifact_snapshot(snapshot.id).unwrap().unwrap();
    assert_eq!(blob.bytes, bytes);
    assert_eq!(blob.media_type, "text/plain");
    assert_eq!(blob.content_digest, *blake3::hash(&bytes).as_bytes());

    let passage = |ordinal: u32, end: u64| NewArtifactPassage {
        locator: ArtifactLocator {
            ordinal,
            byte_range: Some(ArtifactRange { start: 0, end_exclusive: end }),
            page_range: None,
            time_range_ms: None,
        },
        text: format!("passage {ordinal}"),
    };
    let batch = |passages: Vec<NewArtifactPassage>| NewArtifactPassageBatch {
        snapshot_id: snapshot.id,
        expected_snapshot_revision: 1,
        passages,
    };
    let made = store.create_artifact_passages(operator(), batch(vec![passage(0, 4)]), b"passages").unwrap();
    let found = store.inspect_artifact_passage(made.passages[0].id).unwrap().unwrap();
    assert_eq!(found.text, Some("passage 0".to_string()));
    assert_eq!(
        store.create_artifact_passages(operator(), batch(vec![passage(1, 5)]), b"beyond"),
        Err(MemoryError::InvalidInput(InputFault::PassageBeyondSnapshot))
    );
    assert_eq!(
        store.create_artifact_passages(operator(), batch(vec![passage(0, 2)]), b"taken"),
        Err(MemoryError::InvalidInput(InputFault::PassageOrdinalTaken(snapshot.id, 0)))
    );

    store.write(Write::PutBlob(snapshot.id, vec![1, 2, 3, 4]));
    assert_eq!(
        store.materialize_artifact_snapshot(snapshot.id),
        Err(MemoryError::Corrupt(CorruptFault::SnapshotBlobMismatch(snapshot.id)))
    );
    store.write(Write::DropBlob(snapshot.id));
    assert_eq!(
        store.materialize_artifact_snapshot(snapshot.id),
        Err(MemoryError::Corrupt(CorruptFault::SnapshotBlobMissing(snapshot.id)))
    );
}

#[test]
fn plans_lead_where_operations_lead() {
    let era = EraId(Ulid::new());
    let mut first = MemoryDatabase::pristine(era, [1; 32]);
    let mut second = MemoryDatabase::pristine(era, [1; 32]);
    let operation = user();
    let planned = first
        .plan_capture_evidence(operation, &assertion("the door is red"), b"one", &Fresh::draw(2))
        .unwrap();
    assert!(!planned.batch.writes.is_empty());
    let id = planned.receipt.id;
    assert!(first.inspect_evidence(id).unwrap().is_none());
    first.apply(planned.batch);
    assert!(first.inspect_evidence(id).unwrap().is_some());

    let repeated = first
        .plan_capture_evidence(operation, &assertion("the door is red"), b"one", &Fresh::draw(2))
        .unwrap();
    assert_eq!(repeated.receipt.id, id);
    assert_eq!(repeated.batch.writes.len(), 0);

    let again = second
        .plan_capture_evidence(
            operation,
            &assertion("the door is red"),
            b"one",
            &Fresh { recorded_at_ms: 7, ids: vec![Ulid(1), id.as_ulid()] },
        )
        .unwrap();
    let answer = second.commit(Ok(again)).unwrap();
    assert_eq!(answer.id, id);
    assert_eq!(second.inspect_evidence(id).unwrap().unwrap().header.recorded_at_ms, 7);
}

#[test]
fn damage_is_told() {
    let mut store = new_store();
    let ground = captured(&mut store, "the fox sleeps");
    let claim = claimed(&mut store, "the fox dreams", ground);
    let record = RecordRef::Claim(claim);
    store.write(Write::PutHead(record, 7));
    assert_eq!(
        store.inspect_claim(claim),
        Err(MemoryError::Corrupt(CorruptFault::RevisionMissing(record, 7)))
    );
}

#[test]
fn fingerprints_are_separated_by_domain() {
    let store = new_store();
    let first = store.operational_fingerprint("ab", b"c").unwrap();
    assert_ne!(first, store.operational_fingerprint("a", b"bc").unwrap());
    assert_eq!(first, store.operational_fingerprint("ab", b"c").unwrap());
    assert_eq!(
        store.operational_fingerprint("", b"c"),
        Err(MemoryError::InvalidInput(InputFault::FingerprintDomain))
    );
    assert_eq!(
        store.source_event_fingerprint(""),
        Err(MemoryError::InvalidInput(InputFault::SourceEventId))
    );
    let mut framed = vec![0x20, 0, 0, 0, 0, 0, 0, 0, 2];
    framed.extend_from_slice(b"abc");
    assert_eq!(first, *blake3::keyed_hash(&[42; 32], &framed).as_bytes());
}

#[test]
fn operations_are_told_apart_by_their_identifiers() {
    let mut store = new_store();
    let operation = OperationContext { id: OperationId(Ulid(9)), actor: Actor::User };
    let receipt = store.capture_evidence(operation, assertion("one"), b"one").unwrap();
    let other = store.capture_evidence(user(), assertion("one"), b"one").unwrap();
    assert_ne!(receipt.id, other.id);
    let as_system = OperationContext { id: OperationId(Ulid(9)), actor: Actor::Operator };
    assert!(store.capture_evidence(as_system, assertion("one"), b"one").is_err());
    assert_eq!(store.audit_events(10).unwrap().len(), 2);
}

#[test]
fn what_a_claim_rests_on_is_kept_to_the_letter() {
    let mut store = new_store();
    let remembered = store
        .remember_user_claim(
            user(),
            RememberUserClaim {
                domain: ClaimDomain::UserNote,
                scope: Scope::Personal,
                temporal: TemporalFacts::observed_at(100),
                evidence_text: "  note  ".to_string(),
                proposition: "  note  ".to_string(),
            },
            b"remember",
        )
        .unwrap();
    assert_eq!(
        store.inspect_evidence(remembered.evidence.id).unwrap().unwrap().text,
        Some("  note  ".to_string())
    );
    assert_eq!(store.inspect_claim(remembered.claim.id).unwrap().unwrap().proposition, Some("note".to_string()));
    let correction = CorrectUserClaim {
        target: remembered.claim.id,
        expected_revision: 1,
        temporal: TemporalFacts::observed_at(200),
        evidence_text: "\tbetter\n".to_string(),
        replacement_proposition: " better ".to_string(),
    };
    let corrected = store.correct_user_claim(user(), correction, b"correct").unwrap();
    assert_eq!(
        store.inspect_evidence(corrected.evidence.id).unwrap().unwrap().text,
        Some("\tbetter\n".to_string())
    );
    assert_eq!(
        store.inspect_claim(corrected.replacement.id).unwrap().unwrap().proposition,
        Some("better".to_string())
    );
}
