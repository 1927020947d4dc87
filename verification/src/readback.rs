//! What is written can be read back, exactly; what is withdrawn cannot.
use vstd::prelude::*;
use crate::activation::BaselinePin;
use crate::books::{audit_tells, booked, entered_audit};
use crate::clock::FreshModel;
use crate::context::{OperationContext, TemporalFacts};
use crate::digest::mutation_digest_of;
use crate::fault::MemoryResult;
use crate::ids::{
    ActivationTraceId, ArtifactPassageId, ArtifactSnapshotId, ClaimId, EntityId, EvidenceId,
    OperationId, ProposalId, ProposalReviewCaseId, RelationId, Ulid,
};
use crate::purge::dependent_pins;
use crate::records::audit::{
    AuditAction, DerivedRecordRef, PurgeDependency, PurgePreviewModel, PurgeReceiptModel,
    RecordRevision,
};
use crate::records::claim::{
    ClaimReceipt, ClaimRecordModel, ClaimRevisionHeaderModel, NewClaimModel,
};
use crate::records::evidence::{
    EvidenceAvailabilityRevision, EvidenceHeader, EvidenceReceipt, EvidenceRecordModel,
    NewEvidenceModel, RecordRef, RecordState, Scope,
};
use crate::records::receipt::ReceiptModel;
use crate::records::relation::{
    ActivationTrace, ActivationTraceHeader, ActivationTraceModel, ActivationTracePayloadModel,
    RelationSignalPin, ShadowActivationRequestModel,
};
use crate::store::{StoreModel, WriteModel};

verus! {

/// Whether two states of a store differ in the indexes at most.
pub open spec fn same_but_indexes(a: StoreModel, b: StoreModel) -> bool {
    b == StoreModel {
        lexical_docs: b.lexical_docs,
        lexical_postings: b.lexical_postings,
        time_index: b.time_index,
        dependencies: b.dependencies,
        ..a
    }
}

broadcast proof fn postings_aside(s: StoreModel, record: RecordRef, hashes: Seq<[u8; 32]>, n: nat)
    ensures
        same_but_indexes(s, #[trigger] s.with_postings(record, hashes, n)),
    decreases n,
{
    reveal(StoreModel::put);
    if n > 0 {
        postings_aside(s, record, hashes, (n - 1) as nat);
    }
}

pub broadcast proof fn indexing_aside(
    s: StoreModel,
    record: RecordRef,
    revision: u64,
    scope: Scope,
    temporal: TemporalFacts,
    text: Seq<char>,
)
    ensures
        same_but_indexes(s, #[trigger] s.indexed(record, revision, scope, temporal, text)),
{
    broadcast use postings_aside;

    reveal(StoreModel::put);
    reveal(StoreModel::indexed);
}

pub broadcast proof fn support_aside(s: StoreModel, evidence_ids: Seq<EvidenceId>, record: RecordRef, n: nat)
    ensures
        same_but_indexes(s, #[trigger] s.supported(evidence_ids, record, n)),
    decreases n,
{
    reveal(StoreModel::put);
    if n > 0 {
        support_aside(s, evidence_ids, record, (n - 1) as nat);
    }
}

/// What evidence is right after it was captured.
pub open spec fn captured(header: EvidenceHeader, text: Seq<char>) -> EvidenceRecordModel {
    EvidenceRecordModel {
        header,
        availability: EvidenceAvailabilityRevision {
            evidence_id: header.id,
            revision: 1,
            state: RecordState::Active,
            recorded_at_ms: header.recorded_at_ms,
            operation_id: header.operation_id,
        },
        text: Some(text),
    }
}

proof fn evidence_reads(s: StoreModel, header: EvidenceHeader, text: Seq<char>)
    ensures
        s.with_evidence(header, text).inspect_evidence(header.id) == MemoryResult::Ok(Some(captured(header, text))),
{
    broadcast use indexing_aside;

    broadcast use crate::writing::parts_after_put;
    reveal(StoreModel::with_evidence);
    reveal(StoreModel::inspect_evidence);
    reveal(StoreModel::evidence_at);
    reveal(StoreModel::text_unless_purged);
}

/// Evidence reads back as it was captured: to the letter, active, at its first revision.
pub proof fn captured_evidence_reads_back(
    s: StoreModel,
    operation: OperationContext,
    input: NewEvidenceModel,
    request: Seq<u8>,
    fresh: FreshModel,
    after: StoreModel,
    receipt: EvidenceReceipt,
)
    requires
        s.capture_evidence(operation, input, request, fresh) == MemoryResult::Ok((after, receipt)),
        !s.operations.contains_key(operation.id),
    ensures
        after.inspect_evidence(receipt.id) == MemoryResult::Ok(
            Some(
                captured(
                    EvidenceHeader {
                        id: receipt.id,
                        class: input.class,
                        captured_by: operation.actor,
                        scope: input.scope,
                        temporal: input.temporal,
                        lifecycle: s.lifecycle_truth(input.lifecycle),
                        recorded_at_ms: fresh.recorded_at_ms,
                        operation_id: operation.id,
                    },
                    input.text,
                ),
            ),
        ),
{
    reveal(StoreModel::replay);
    let header = EvidenceHeader {
        id: receipt.id,
        class: input.class,
        captured_by: operation.actor,
        scope: input.scope,
        temporal: input.temporal,
        lifecycle: s.lifecycle_truth(input.lifecycle),
        recorded_at_ms: fresh.recorded_at_ms,
        operation_id: operation.id,
    };
    evidence_reads(s, header, input.text);
    broadcast use crate::writing::parts_after_put;
    reveal(StoreModel::inspect_evidence);
    reveal(StoreModel::evidence_at);
    reveal(StoreModel::text_unless_purged);
}

proof fn claim_reads(s: StoreModel, header: ClaimRevisionHeaderModel, proposition: Seq<char>)
    requires
        header.revision == 1,
        header.state == RecordState::Active,
    ensures
        s.with_claim(header, proposition).inspect_claim(header.id) == MemoryResult::Ok(
            Some(ClaimRecordModel { header, proposition: Some(proposition) }),
        ),
{
    broadcast use {indexing_aside, support_aside};

    broadcast use crate::writing::parts_after_put;
    reveal(StoreModel::with_claim);
    reveal(StoreModel::inspect_claim);
    reveal(StoreModel::claim_at);
    reveal(StoreModel::text_unless_purged);
}

/// A claim reads back as it was made, with its sources, active, at its first revision.
pub proof fn created_claims_read_back(
    s: StoreModel,
    operation: OperationContext,
    input: NewClaimModel,
    request: Seq<u8>,
    fresh: FreshModel,
    after: StoreModel,
    receipt: ClaimReceipt,
    wanted: NewClaimModel,
)
    requires
        s.create_claim(operation, input, request, fresh) == MemoryResult::Ok((after, receipt)),
        StoreModel::claim_request(operation.actor, input) == MemoryResult::Ok(wanted),
        !s.operations.contains_key(operation.id),
    ensures
        after.inspect_claim(receipt.id) == MemoryResult::Ok(
            Some(
                ClaimRecordModel {
                    header: ClaimRevisionHeaderModel {
                        id: receipt.id,
                        revision: 1,
                        previous_revision: None,
                        domain: wanted.domain,
                        scope: wanted.scope,
                        temporal: wanted.temporal,
                        evidence_ids: wanted.evidence_ids,
                        state: RecordState::Active,
                        recorded_at_ms: fresh.recorded_at_ms,
                        operation_id: operation.id,
                    },
                    proposition: Some(wanted.proposition),
                },
            ),
        ),
{
    reveal(StoreModel::replay);
    let header = ClaimRevisionHeaderModel {
        id: receipt.id,
        revision: 1,
        previous_revision: None,
        domain: wanted.domain,
        scope: wanted.scope,
        temporal: wanted.temporal,
        evidence_ids: wanted.evidence_ids,
        state: RecordState::Active,
        recorded_at_ms: fresh.recorded_at_ms,
        operation_id: operation.id,
    };
    claim_reads(s, header, wanted.proposition);
    broadcast use crate::writing::parts_after_put;
    reveal(StoreModel::inspect_claim);
    reveal(StoreModel::claim_at);
    reveal(StoreModel::text_unless_purged);
}

/// Filing an activation changes the index of activations alone.
pub proof fn filed_trace_aside(s: StoreModel, candidates: Seq<BaselinePin>, id: ActivationTraceId, n: nat)
    ensures
        s.trace_filed(candidates, id, n) == (StoreModel {
            activation_traces_by_record: s.trace_filed(candidates, id, n).activation_traces_by_record,
            ..s
        }),
    decreases n,
{
    reveal(StoreModel::put);
    if n > 0 {
        filed_trace_aside(s, candidates, id, (n - 1) as nat);
    }
}

/// A shadow activation reads back as it was answered, goes on the books once, and is
/// answered the same when it is retried.
pub proof fn activations_are_retried(
    s: StoreModel,
    operation: OperationContext,
    input: ShadowActivationRequestModel,
    request: Seq<u8>,
    fresh: FreshModel,
    again: FreshModel,
    after: StoreModel,
    trace: ActivationTraceModel,
)
    requires
        s.shadow_activate(operation, input, request, fresh) == MemoryResult::Ok((after, trace)),
    ensures
        after == s || booked(
            s,
            after,
            operation,
            mutation_digest_of(s.digest_key@, "shadow_activate"@, operation.actor, request),
            ReceiptModel::Trace(trace.id),
        ),
        after == s || after.inspect_activation_trace(trace.id) == Some(trace),
        after.shadow_activate(operation, input, request, again) == MemoryResult::Ok((after, trace)),
{
    reveal(StoreModel::replay);
    broadcast use crate::writing::parts_after_put;
    reveal(StoreModel::with_trace);
    reveal(StoreModel::activation_candidates);
    reveal(StoreModel::inspect_activation_trace);
    let digest = mutation_digest_of(s.digest_key@, "shadow_activate"@, operation.actor, request);
    if s.replay(operation.id, digest) == MemoryResult::Ok(None::<ReceiptModel>) {
        let candidates = s.activation_candidates(operation.actor, input)->Ok_0;
        let header = ActivationTraceHeader {
            id: trace.id,
            revision: trace.revision,
            era_id: trace.era_id,
            operation_id: trace.operation_id,
            recall_case: trace.recall_case,
            evaluator: trace.evaluator,
            profile: trace.profile,
            input_digest: trace.input_digest,
            recorded_at_ms: trace.recorded_at_ms,
        };
        let base = s.put(WriteModel::PutTrace(trace.id, header)).put(
            WriteModel::PutTracePayload(
                trace.id,
                ActivationTracePayloadModel { candidates: trace.candidates, contributions: trace.contributions },
            ),
        );
        filed_trace_aside(base, candidates, trace.id, candidates.len());
        let event = s.audit_event(
            fresh.ids[0],
            operation,
            AuditAction::ShadowActivationRecorded,
            Seq::empty(),
            seq![DerivedRecordRef::ActivationTrace(trace.id)],
            None,
            fresh.recorded_at_ms,
        );
        assert(audit_tells(s, event, operation));
        assert(after.audit == entered_audit(s.audit, event));
        assert(booked(s, after, operation, digest, ReceiptModel::Trace(trace.id)));
    }
}

/// Whether no payload came in between two states of a store.
pub open spec fn payloads_only_leave(a: StoreModel, b: StoreModel) -> bool {
    &&& forall|record: RecordRef| #[trigger] b.has_payload(record) ==> a.has_payload(record)
    &&& b.artifact_snapshot_blobs.dom().subset_of(a.artifact_snapshot_blobs.dom())
    &&& b.relation_signal_payloads.dom().subset_of(a.relation_signal_payloads.dom())
    &&& b.activation_trace_payloads.dom().subset_of(a.activation_trace_payloads.dom())
}

/// Whether a write brings no payload.
pub open spec fn brings_nothing(w: WriteModel) -> bool {
    match w {
        WriteModel::PutEvidenceAvailability(_, _) => true,
        WriteModel::PutHead(_, _) => true,
        WriteModel::PutClaim(_, _) => true,
        WriteModel::PutEntity(_, _) => true,
        WriteModel::PutRelation(_, _) => true,
        WriteModel::PutProposal(_, _) => true,
        WriteModel::PutReview(_, _) => true,
        WriteModel::PutCollectionAvailability(_, _) => true,
        WriteModel::PutSnapshotAvailability(_, _) => true,
        WriteModel::PutPassageAvailability(_, _) => true,
        WriteModel::PutSignal(_, _) => true,
        WriteModel::PutSignalHead(_, _) => true,
        WriteModel::PutAudit(_, _) => true,
        WriteModel::PutOperation(_, _) => true,
        WriteModel::DropText(_) => true,
        WriteModel::DropEntityPayload(_) => true,
        WriteModel::DropRelationPayload(_) => true,
        WriteModel::DropProposalPayload(_) => true,
        WriteModel::DropReviewPayload(_) => true,
        WriteModel::DropSnapshotPayload(_) => true,
        WriteModel::DropBlob(_) => true,
        WriteModel::DropSignalPayload(_) => true,
        WriteModel::DropTracePayload(_) => true,
        WriteModel::DropPending(_) => true,
        WriteModel::DropAwaiting(_) => true,
        WriteModel::DropPosting(_) => true,
        WriteModel::DropTime(_) => true,
        WriteModel::DropLexicalDoc(_) => true,
        _ => false,
    }
}

broadcast proof fn bare_put_leaves(s: StoreModel, w: WriteModel)
    requires
        brings_nothing(w),
    ensures
        payloads_only_leave(s, #[trigger] s.put(w)),
{
    broadcast use crate::writing::parts_after_put;
    reveal(StoreModel::has_payload);
}

broadcast proof fn withdrawn_postings_leave(s: StoreModel, record: RecordRef, hashes: Seq<[u8; 32]>, n: nat)
    ensures
        payloads_only_leave(s, #[trigger] s.without_postings(record, hashes, n)),
    decreases n,
{
    broadcast use bare_put_leaves;

    if n > 0 {
        withdrawn_postings_leave(s, record, hashes, (n - 1) as nat);
    }
}

broadcast proof fn unindexing_leaves(s: StoreModel, committed: StoreModel, record: RecordRef)
    ensures
        payloads_only_leave(s, #[trigger] s.unindexed(committed, record)),
{
    broadcast use {bare_put_leaves, withdrawn_postings_leave};

    reveal(StoreModel::unindexed);
}

broadcast proof fn erasing_leaves(s: StoreModel, record: RecordRef)
    ensures
        payloads_only_leave(s, #[trigger] s.without_payload(record)),
        !s.without_payload(record).has_payload(record),
{
    broadcast use bare_put_leaves;

    reveal(StoreModel::without_payload);
    assert(!s.without_payload(record).has_payload(record)) by {
        broadcast use crate::writing::parts_after_put;
        reveal(StoreModel::has_payload);
    }
}

broadcast proof fn next_revision_leaves(
    s: StoreModel,
    staged: StoreModel,
    record: RecordRef,
    expected_revision: u64,
    state: RecordState,
    operation_id: OperationId,
    recorded_at_ms: i64,
)
    requires
        s.next_revision(staged, record, expected_revision, state, operation_id, recorded_at_ms) is Ok,
    ensures
        payloads_only_leave(
            staged,
            (#[trigger] s.next_revision(
                staged,
                record,
                expected_revision,
                state,
                operation_id,
                recorded_at_ms,
            ))->Ok_0,
        ),
{
    broadcast use bare_put_leaves;

    reveal(StoreModel::next_revision);
    reveal(StoreModel::unlisted_proposal);
}

broadcast proof fn revision_leaves(
    s: StoreModel,
    staged: StoreModel,
    record: RecordRef,
    expected_revision: u64,
    state: RecordState,
    operation_id: OperationId,
    recorded_at_ms: i64,
)
    requires
        s.appended(staged, record, expected_revision, state, operation_id, recorded_at_ms) is Ok,
    ensures
        payloads_only_leave(
            staged,
            (#[trigger] s.appended(
                staged,
                record,
                expected_revision,
                state,
                operation_id,
                recorded_at_ms,
            ))->Ok_0.0,
        ),
{
    broadcast use {bare_put_leaves, next_revision_leaves};

    reveal(StoreModel::appended);
}

broadcast proof fn dependent_purge_leaves(
    s: StoreModel,
    staged: StoreModel,
    revisions: Seq<RecordRevision>,
    dependency: PurgeDependency,
    operation_id: OperationId,
    recorded_at_ms: i64,
)
    requires
        s.dependent_purged(staged, revisions, dependency, operation_id, recorded_at_ms) is Ok,
    ensures
        payloads_only_leave(
            staged,
            (#[trigger] s.dependent_purged(
                staged,
                revisions,
                dependency,
                operation_id,
                recorded_at_ms,
            ))->Ok_0.0,
        ),
        !s.dependent_purged(
            staged,
            revisions,
            dependency,
            operation_id,
            recorded_at_ms,
        )->Ok_0.0.has_payload(dependency.record),
{
    broadcast use {revision_leaves, unindexing_leaves, erasing_leaves};

    reveal(StoreModel::dependent_purged);
}

proof fn dependents_purge_leaves(
    s: StoreModel,
    staged: StoreModel,
    dependencies: Seq<PurgeDependency>,
    operation_id: OperationId,
    recorded_at_ms: i64,
    n: nat,
)
    requires
        s.dependents_purged(staged, dependencies, operation_id, recorded_at_ms, n) is Ok,
        n <= dependencies.len(),
    ensures
        payloads_only_leave(
            staged,
            s.dependents_purged(staged, dependencies, operation_id, recorded_at_ms, n)->Ok_0.0,
        ),
        forall|i: int|
            0 <= i < n ==> !s.dependents_purged(
                staged,
                dependencies,
                operation_id,
                recorded_at_ms,
                n,
            )->Ok_0.0.has_payload((#[trigger] dependencies[i]).record),
    decreases n,
{
    broadcast use dependent_purge_leaves;

    if n > 0 {
        dependents_purge_leaves(s, staged, dependencies, operation_id, recorded_at_ms, (n - 1) as nat);
    }
}

proof fn silencing_leaves(
    s: StoreModel,
    staged: StoreModel,
    pins: Seq<RelationSignalPin>,
    n: nat,
    operation_id: OperationId,
    recorded_at_ms: i64,
)
    requires
        s.signals_purged(staged, pins, n, operation_id, recorded_at_ms) is Ok,
        n <= pins.len(),
    ensures
        payloads_only_leave(staged, s.signals_purged(staged, pins, n, operation_id, recorded_at_ms)->Ok_0.0),
        forall|i: int|
            0 <= i < n ==> !s.signals_purged(
                staged,
                pins,
                n,
                operation_id,
                recorded_at_ms,
            )->Ok_0.0.relation_signal_payloads.contains_key((#[trigger] pins[i]).id),
    decreases n,
{
    broadcast use bare_put_leaves;

    if n > 0 {
        silencing_leaves(s, staged, pins, (n - 1) as nat, operation_id, recorded_at_ms);
        let before = s.signals_purged(staged, pins, (n - 1) as nat, operation_id, recorded_at_ms)->Ok_0.0;
        let after = s.signals_purged(staged, pins, n, operation_id, recorded_at_ms)->Ok_0.0;
        assert(payloads_only_leave(before, after) && !after.relation_signal_payloads.contains_key(
            pins[n - 1].id,
        )) by {
            reveal(StoreModel::signal_appended);
            broadcast use crate::writing::parts_after_put;
        }
    }
}

proof fn silenced_traces_leave(s: StoreModel, ids: Seq<ActivationTraceId>, n: nat)
    requires
        n <= ids.len(),
    ensures
        payloads_only_leave(s, s.without_traces(ids, n)),
        forall|i: int|
            0 <= i < n ==> !s.without_traces(ids, n).activation_trace_payloads.contains_key(#[trigger] ids[i]),
    decreases n,
{
    broadcast use bare_put_leaves;

    if n > 0 {
        silenced_traces_leave(s, ids, (n - 1) as nat);
        assert(!s.without_traces(ids, n).activation_trace_payloads.contains_key(ids[n - 1])) by {
            broadcast use crate::writing::parts_after_put;
        }
    }
}

/// A purge leaves no payload behind: not that of its target, nor of any record, signal or
/// activation that rests on it.
pub proof fn purged_payloads_are_gone(
    s: StoreModel,
    operation: OperationContext,
    preview: PurgePreviewModel,
    request: Seq<u8>,
    now_ms: i64,
    fresh: FreshModel,
    after: StoreModel,
    receipt: PurgeReceiptModel,
)
    requires
        s.commit_purge(operation, preview, request, now_ms, fresh) == MemoryResult::Ok((after, receipt)),
        !s.operations.contains_key(operation.id),
    ensures
        payloads_only_leave(s, after),
        !after.has_payload(preview.target),
        forall|i: int|
            0 <= i < preview.invalidations.len() ==> !after.has_payload((#[trigger] preview.invalidations[i]).record),
        forall|i: int|
            0 <= i < preview.relation_signal_invalidations.len() ==> !after.relation_signal_payloads.contains_key(
                dependent_pins(preview.relation_signal_invalidations)[i].id,
            ),
        forall|i: int|
            0 <= i < preview.activation_trace_invalidations.len() ==> !after.activation_trace_payloads.contains_key(
                #[trigger] preview.activation_trace_invalidations[i],
            ),
{
    broadcast use {bare_put_leaves, revision_leaves, unindexing_leaves, erasing_leaves};

    reveal(StoreModel::replay);
    reveal(StoreModel::purged);
    let now = fresh.recorded_at_ms;
    let moved = s.appended(
        s,
        preview.target,
        preview.expected_revision,
        RecordState::Purged,
        operation.id,
        now,
    )->Ok_0.0;
    let begun = moved.unindexed(s, preview.target).without_payload(preview.target);
    dependents_purge_leaves(s, begun, preview.invalidations, operation.id, now, preview.invalidations.len());
    let undermined = s.dependents_purged(
        begun,
        preview.invalidations,
        operation.id,
        now,
        preview.invalidations.len(),
    )->Ok_0.0;
    let pins = dependent_pins(preview.relation_signal_invalidations);
    silencing_leaves(s, undermined, pins, pins.len(), operation.id, now);
    let silenced = s.signals_purged(undermined, pins, pins.len(), operation.id, now)->Ok_0.0;
    let traces = preview.activation_trace_invalidations;
    silenced_traces_leave(silenced, traces, traces.len());
    assert(pins.len() == preview.relation_signal_invalidations.len());
}

/// Of a record whose payload is gone, nothing but its header reads back.
pub proof fn gone_payloads_do_not_read(s: StoreModel, id: Ulid)
    ensures
        !s.has_payload(RecordRef::Evidence(EvidenceId(id))) ==> match s.inspect_evidence(EvidenceId(id)) {
            Ok(Some(record)) => record.text is None,
            _ => true,
        },
        !s.has_payload(RecordRef::Claim(ClaimId(id))) ==> match s.inspect_claim(ClaimId(id)) {
            Ok(Some(record)) => record.proposition is None,
            _ => true,
        },
        !s.has_payload(RecordRef::Entity(EntityId(id))) ==> match s.inspect_entity(EntityId(id)) {
            Ok(Some(record)) => record.canonical_name is None,
            _ => true,
        },
        !s.has_payload(RecordRef::SemanticRelation(RelationId(id))) ==> match s.inspect_semantic_relation(
            RelationId(id),
        ) {
            Ok(Some(record)) => !record.payload_available && record.qualifier is None,
            _ => true,
        },
        !s.has_payload(RecordRef::Proposal(ProposalId(id))) ==> match s.inspect_proposal(ProposalId(id)) {
            Some(record) => record.changes is None,
            _ => true,
        },
        !s.has_payload(RecordRef::ProposalReview(ProposalReviewCaseId(id))) ==> match s.inspect_proposal_review(
            ProposalReviewCaseId(id),
        ) {
            Some(record) => record.findings is None,
            _ => true,
        },
        !s.has_payload(RecordRef::ArtifactSnapshot(ArtifactSnapshotId(id))) ==> match s.materialized(
            ArtifactSnapshotId(id),
        ) {
            Ok(Some(_)) => false,
            _ => true,
        },
        !s.has_payload(RecordRef::ArtifactPassage(ArtifactPassageId(id))) ==> match s.inspect_artifact_passage(
            ArtifactPassageId(id),
        ) {
            Ok(Some(record)) => record.text is None,
            _ => true,
        },
{
    reveal(StoreModel::has_payload);
    reveal(StoreModel::text_unless_purged);
    reveal(StoreModel::inspect_evidence);
    reveal(StoreModel::evidence_at);
    reveal(StoreModel::inspect_claim);
    reveal(StoreModel::claim_at);
    reveal(StoreModel::inspect_entity);
    reveal(StoreModel::entity_at);
    reveal(StoreModel::inspect_semantic_relation);
    reveal(StoreModel::relation_at);
    reveal(StoreModel::inspect_proposal);
    reveal(StoreModel::proposal_at);
    reveal(StoreModel::inspect_proposal_review);
    reveal(StoreModel::review_at);
    reveal(StoreModel::materialized);
    reveal(StoreModel::inspect_artifact_snapshot);
    reveal(StoreModel::snapshot_at);
    reveal(StoreModel::inspect_artifact_passage);
    reveal(StoreModel::passage_at);
}

} // verus!
