//! What a damaged store says of itself.
use std::fmt::Debug;

use mmdb::{
    Actor, ArtifactCollectionId, ClaimDomain, ClaimId, CorruptFault, DerivedDefinitionStateChange, EraId,
    EvidenceClass, EvidenceLifecycle, EvidenceReceipt, EvidenceRevisionPin, Fresh, MemoryDatabase,
    MemoryError, NewClaim, NewEvidence, NewProposalBundle, NewProposalReview, NewRelationEvaluatorRevision,
    NewRelationProfileRevision, NewRelationSignal, NewRelationSignalBatch, OperationContext,
    ProposalChange, ProposalDraftId, ProposalId, ProposalReceipt, ProposalReviewVerdict,
    ProposalSourceJobId, RecallQuery, RecordRef, RecordRevisionPin, RelationDimension,
    RelationDimensionScore, RelationEvaluatorId, RelationEvaluatorKind, RelationEvaluatorPin,
    RelationHeadWeight, RelationProfileId, RelationProfilePin, RelationSignalId, RelationSignalPin,
    RevisionSelector, Scope, SignalIndex, TemporalFacts, Ulid, Write,
};
use mmdb::keys::{PairKey, RevisionKey};
use mmdb::records::proposal::ProposalSourceIndex;
use mmdb::records::receipt::{Receipt, StoredOperation};

fn new_store() -> MemoryDatabase {
    MemoryDatabase::pristine(EraId(Ulid::new()), [42; 32])
}

fn damaged<T: Debug>(outcome: Result<T, MemoryError>) -> CorruptFault {
    match outcome {
        Err(MemoryError::Corrupt(fault)) => fault,
        other => panic!("not told as damage: {other:?}"),
    }
}

fn operator() -> OperationContext {
    OperationContext::new(Actor::Operator)
}

fn system() -> OperationContext {
    OperationContext::new(Actor::System)
}

fn source_of(text: &str) -> NewEvidence {
    NewEvidence {
        class: EvidenceClass::ImportedSource,
        scope: Scope::Personal,
        temporal: TemporalFacts::observed_at(100),
        lifecycle: EvidenceLifecycle::Direct,
        text: text.to_string(),
    }
}

fn import(store: &mut MemoryDatabase, text: &str) -> EvidenceReceipt {
    store.capture_evidence(system(), source_of(text), text.as_bytes()).unwrap()
}

fn evidence_pin(evidence: EvidenceReceipt) -> RecordRevisionPin {
    RecordRevisionPin { record: RecordRef::Evidence(evidence.id), revision: 1 }
}

fn claimed(store: &mut MemoryDatabase, evidence: EvidenceReceipt) -> ClaimId {
    let claim = NewClaim {
        domain: ClaimDomain::ExternalFact,
        scope: Scope::Personal,
        temporal: TemporalFacts::observed_at(100),
        proposition: "it holds".to_string(),
        evidence_ids: vec![evidence.id],
    };
    store.create_claim(system(), claim, b"claim").unwrap().id
}

fn bundle_of(job: u128, source: EvidenceReceipt) -> NewProposalBundle {
    NewProposalBundle {
        source_job_id: ProposalSourceJobId(Ulid(job)),
        scope: Scope::Personal,
        source_evidence: vec![EvidenceRevisionPin { id: source.id, revision: 1 }],
        changes: vec![ProposalChange::CreateClaim {
            draft_id: ProposalDraftId(Ulid(1)),
            domain: ClaimDomain::ExternalFact,
            temporal: TemporalFacts::observed_at(100),
            proposition: "proposed".to_string(),
            evidence_ids: vec![source.id],
        }],
    }
}

fn submitted(store: &mut MemoryDatabase, source: EvidenceReceipt) -> ProposalReceipt {
    store.submit_proposal(system(), bundle_of(1, source), b"bundle").unwrap()
}

fn review_of(store: &mut MemoryDatabase, proposal: ProposalReceipt) -> NewProposalReview {
    let query = RecallQuery {
        text: "a source".to_string(),
        scopes: vec![Scope::Personal],
        observed_from_ms: None,
        observed_to_ms: None,
        valid_at_ms: None,
        limit: 10,
    };
    let case = store.recall(query, b"query").unwrap().case_id;
    NewProposalReview {
        proposal_id: proposal.id,
        proposal_revision: proposal.revision,
        recall_case_id: case,
        recall_case_revision: 1,
        verdict: ProposalReviewVerdict::Approve,
        findings: Vec::new(),
    }
}

fn evaluator_of(expected_revision: Option<u64>) -> NewRelationEvaluatorRevision {
    NewRelationEvaluatorRevision {
        id: RelationEvaluatorId(Ulid(7)),
        expected_revision,
        kind: RelationEvaluatorKind::DeterministicRules,
        schema_version: 1,
        dimensions: vec![RelationDimension::Support],
        provenance_digest: [1; 32],
    }
}

fn profile_of(expected_revision: Option<u64>, evaluator: RelationEvaluatorPin) -> NewRelationProfileRevision {
    NewRelationProfileRevision {
        id: RelationProfileId(Ulid(8)),
        expected_revision,
        evaluator,
        heads: vec![RelationHeadWeight { dimension: RelationDimension::Support, weight_micros: 500_000 }],
        provenance_digest: [2; 32],
    }
}

fn with_definitions(store: &mut MemoryDatabase) -> (RelationEvaluatorPin, RelationProfilePin) {
    let evaluator = store.put_relation_evaluator(operator(), evaluator_of(None), b"e").unwrap().pin;
    let profile = store.put_relation_profile(operator(), profile_of(None, evaluator), b"p").unwrap().pin;
    (evaluator, profile)
}

fn signal_of(
    from: RecordRevisionPin,
    to: RecordRevisionPin,
    expected_signal: Option<RelationSignalPin>,
) -> NewRelationSignal {
    NewRelationSignal {
        from,
        to,
        expected_signal,
        scores: vec![RelationDimensionScore { dimension: RelationDimension::Support, score_micros: 1 }],
        provenance_digest: [3; 32],
    }
}

fn with_signal(
    store: &mut MemoryDatabase,
    definitions: (RelationEvaluatorPin, RelationProfilePin),
    signal: NewRelationSignal,
) -> Result<RelationSignalPin, MemoryError> {
    let batch = NewRelationSignalBatch {
        evaluator: definitions.0,
        profile: definitions.1,
        signals: vec![signal],
    };
    Ok(store.put_relation_signals(system(), batch, b"signals")?.signals[0].pin)
}

#[test]
fn lost_heads_are_told() {
    let mut store = new_store();
    let planned =
        store.plan_capture_evidence(system(), &source_of("a source"), b"x", &Fresh::draw(2)).unwrap();
    let id = planned.receipt.id;
    for write in planned.batch.writes {
        if let Write::PutHead(..) = &write {
            continue;
        }
        store.write(write);
    }
    assert_eq!(
        damaged(store.inspect_evidence(id)),
        CorruptFault::HeadMissing(RecordRef::Evidence(id))
    );
    let unknown = RecordRef::ArtifactCollection(ArtifactCollectionId(Ulid(1)));
    assert_eq!(store.retract(operator(), unknown, 1, b"r"), Err(MemoryError::NotFound(unknown)));
}

#[test]
fn lost_revisions_are_told() {
    let mut store = new_store();
    let (evaluator, profile) = with_definitions(&mut store);
    store.write(Write::PutProfileHead(profile.id, 5));
    assert_eq!(
        damaged(store.put_relation_profile(operator(), profile_of(Some(5), evaluator), b"q")),
        CorruptFault::ProfileRevisionMissing(profile.id, 5)
    );
    store.write(Write::PutEvaluatorHead(evaluator.id, 5));
    assert_eq!(
        damaged(store.put_relation_evaluator(operator(), evaluator_of(Some(5)), b"f")),
        CorruptFault::EvaluatorRevisionMissing(evaluator.id, 5)
    );
}

#[test]
fn lost_signals_are_told() {
    let mut store = new_store();
    let a = evidence_pin(import(&mut store, "first"));
    let b = evidence_pin(import(&mut store, "second"));
    let c = evidence_pin(import(&mut store, "third"));
    let definitions = with_definitions(&mut store);
    let profile = definitions.1.id;
    let lost = RelationSignalPin { id: RelationSignalId(Ulid(3)), revision: 1 };
    store.write(Write::PutSignalPair(PairKey { profile, from: b.record, to: a.record }, lost.id));
    assert_eq!(
        damaged(with_signal(&mut store, definitions, signal_of(b, a, Some(lost)))),
        CorruptFault::SignalMissing(SignalIndex::Pair, lost.id)
    );
    let held = with_signal(&mut store, definitions, signal_of(a, b, None)).unwrap();
    store.write(Write::PutSignalPair(PairKey { profile, from: a.record, to: c.record }, held.id));
    assert_eq!(
        damaged(with_signal(&mut store, definitions, signal_of(a, c, Some(held)))),
        CorruptFault::SignalPairIndex
    );
    store.write(Write::PutSignalHead(held.id, 5));
    let late = RelationSignalPin { revision: 5, ..held };
    assert_eq!(
        damaged(with_signal(&mut store, definitions, signal_of(a, b, Some(late)))),
        CorruptFault::SignalRevisionMissing(held.id, 5)
    );

    store.write(Write::PutSignalHead(held.id, 1));
    let found = store.inspect_relation_signal(held.id, RevisionSelector::Head).unwrap().unwrap();
    let mut header = found.header;
    header.revision = u64::MAX;
    store.write(Write::PutSignal(RevisionKey { id: held.id.0, revision: u64::MAX }, header));
    store.write(Write::PutSignalHead(held.id, u64::MAX));
    let last = RelationSignalPin { revision: u64::MAX, ..held };
    assert_eq!(
        damaged(with_signal(&mut store, definitions, signal_of(a, b, Some(last)))),
        CorruptFault::SignalRevisionOverflow
    );
}

#[test]
fn the_last_revision_has_no_successor() {
    let mut store = new_store();
    let source = import(&mut store, "a source");
    let claim = claimed(&mut store, source);
    let record = RecordRef::Claim(claim);
    let mut header = store.inspect_claim(claim).unwrap().unwrap().header;
    header.revision = u64::MAX;
    store.write(Write::PutClaim(RevisionKey { id: claim.0, revision: u64::MAX }, header));
    store.write(Write::PutHead(record, u64::MAX));
    assert_eq!(damaged(store.retract(operator(), record, u64::MAX, b"r")), CorruptFault::RevisionOverflow);

    let proposal = submitted(&mut store, source);
    let mut header = store.inspect_proposal(proposal.id).unwrap().unwrap().header;
    header.revision = u64::MAX;
    store.write(Write::PutProposal(RevisionKey { id: proposal.id.0, revision: u64::MAX }, header));
    store.write(Write::PutHead(RecordRef::Proposal(proposal.id), u64::MAX));
    let review = review_of(&mut store, ProposalReceipt { revision: u64::MAX, ..proposal });
    assert_eq!(
        damaged(store.review_proposal(system(), review, b"review")),
        CorruptFault::ProposalRevisionOverflow
    );

    let (evaluator, profile) = with_definitions(&mut store);
    let found = store.inspect_relation_profile(profile.id, RevisionSelector::Head).unwrap().unwrap();
    let mut header = found.header;
    header.revision = u64::MAX;
    store.write(Write::PutProfile(RevisionKey { id: profile.id.0, revision: u64::MAX }, header));
    store.write(Write::PutProfileHead(profile.id, u64::MAX));
    assert_eq!(
        damaged(store.put_relation_profile(operator(), profile_of(Some(u64::MAX), evaluator), b"q")),
        CorruptFault::ProfileRevisionOverflow
    );
    let found = store.inspect_relation_evaluator(evaluator.id, RevisionSelector::Head).unwrap().unwrap();
    let mut header = found.header;
    header.revision = u64::MAX;
    store.write(Write::PutEvaluator(RevisionKey { id: evaluator.id.0, revision: u64::MAX }, header));
    store.write(Write::PutEvaluatorHead(evaluator.id, u64::MAX));
    let last = RelationEvaluatorPin { revision: u64::MAX, ..evaluator };
    assert_eq!(
        damaged(store.set_relation_evaluator_state(operator(), last, DerivedDefinitionStateChange::Retract, b"s")),
        CorruptFault::EvaluatorRevisionOverflow
    );
    assert_eq!(
        damaged(store.preview_purge_at(Actor::Operator, RecordRef::Evidence(source.id), i64::MAX)),
        CorruptFault::PreviewTimeOverflow
    );
}

#[test]
fn misplaced_proposals_are_told() {
    let mut store = new_store();
    let source = import(&mut store, "a source");
    let proposal = submitted(&mut store, source);
    let unknown = ProposalId(Ulid(1));

    store.write(Write::PutPending(unknown));
    assert_eq!(damaged(store.list_pending_proposals(10)), CorruptFault::PendingMissing(unknown));
    store.write(Write::DropPending(unknown));
    store.write(Write::PutAwaiting(unknown));
    assert_eq!(damaged(store.list_awaiting_adjudication(10)), CorruptFault::AwaitingMissing(unknown));
    store.write(Write::DropAwaiting(unknown));
    store.write(Write::PutAwaiting(proposal.id));
    assert_eq!(
        damaged(store.list_awaiting_adjudication(10)),
        CorruptFault::AwaitingNotActionable(proposal.id)
    );
    store.write(Write::DropAwaiting(proposal.id));

    let review = review_of(&mut store, proposal);
    store.review_proposal(system(), review, b"review").unwrap();
    assert_eq!(store.list_pending_proposals(10).unwrap().len(), 0);
    store.write(Write::PutPending(proposal.id));
    assert_eq!(damaged(store.list_pending_proposals(10)), CorruptFault::PendingNotPending(proposal.id));
}

#[test]
fn misplaced_answers_are_told() {
    let mut store = new_store();
    let source = import(&mut store, "a source");
    let operation = system();
    let planned = store
        .plan_submit_proposal(operation, &bundle_of(1, source), b"bundle", &Fresh::draw(2))
        .unwrap();
    for write in &planned.batch.writes {
        if let Write::PutProposalSource(job, index) = write {
            store.write(Write::PutProposalSource(
                *job,
                ProposalSourceIndex { proposal_id: ProposalId(Ulid(1)), ..*index },
            ));
        }
    }
    assert_eq!(
        damaged(store.submit_proposal(operation, bundle_of(1, source), b"bundle")),
        CorruptFault::SourceIndexDangling
    );
    for write in &planned.batch.writes {
        if let Write::PutOperation(id, stored) = write {
            let other = StoredOperation { digest: stored.digest, receipt: Receipt::Evidence(source) };
            store.write(Write::PutOperation(*id, other));
        }
    }
    assert_eq!(
        damaged(store.submit_proposal(operation, bundle_of(1, source), b"bundle")),
        CorruptFault::ReceiptShape
    );
}

#[test]
fn a_missing_signal_is_told_by_the_index_that_names_it() {
    let id = RelationSignalId(Ulid(3));
    let text = id.0.text();
    for (index, name) in [
        (SignalIndex::Pair, "relation signal pair"),
        (SignalIndex::Dependency, "relation-signal dependency"),
        (SignalIndex::Owner, "relation-signal owner"),
    ] {
        assert_eq!(
            CorruptFault::SignalMissing(index, id).message(),
            format!("{name} index points to missing signal {text}")
        );
    }
    assert_eq!(
        CorruptFault::SignalHeadMissing(id).message(),
        format!("relation signal {text} has no head")
    );
}
