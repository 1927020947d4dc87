//! The books of a store: which operations it has carried out, and what was audited.
use vstd::prelude::*;
use crate::activation::BaselinePin;
use crate::applying::{Application, AppliedModel};
use crate::clock::FreshModel;
use crate::context::{OperationContext, TemporalFacts};
use crate::digest::{mutation_digest_of, snapshot_mutation_digest_of};
use crate::fault::{MemoryError, MemoryResult};
use crate::ids::{
    ActivationTraceId, EvidenceId, OperationId, ProposalDraftId, ProposalId, RelationEvaluatorId,
    Ulid,
};
use crate::keys::{AuditKey, OwnerIndexKey};
use crate::records::artifact::{
    ArtifactCollectionReceipt, ArtifactPassageBatchReceiptModel, ArtifactSnapshotHeader,
    ArtifactSnapshotReceipt, NewArtifactCollectionModel, NewArtifactPassageBatchModel,
    NewArtifactPassageModel, NewArtifactSnapshotModel,
};
use crate::records::audit::{
    AuditEventModel, AuditOutcome, PurgeDependency, PurgePreviewModel, PurgeReceiptModel,
    RecordRevision, RetractionReceiptModel,
};
use crate::records::claim::{
    ClaimReceipt, ClaimRevisionHeaderModel, CorrectUserClaimModel, CorrectionReceiptModel,
    EntityRevisionHeaderModel, NewClaimModel, NewSemanticRelationModel, RelationReceipt,
    RememberReceipt, RememberUserClaimModel, SemanticRelationRevisionHeaderModel,
};
use crate::records::evidence::{
    EvidenceHeader, EvidenceReceipt, NewEvidenceModel, RecordRef, RecordState, Scope,
};
use crate::records::proposal::{
    AppliedRecord, NewProposalBundleModel, NewProposalReviewModel, NewRecallFeedback,
    ProposalAdjudication, ProposalAdjudicationReceiptModel, ProposalChangeModel, ProposalReceipt,
    ProposalReviewCaseHeader, ProposalReviewFindingModel, ProposalReviewReceipt,
    ProposalRevisionHeader, ProposalStatus, RecallFeedback,
};
use crate::records::receipt::{ReceiptModel, StoredOperationModel};
use crate::records::relation::{
    DerivedDefinitionStateChange, NewRelationEvaluatorRevisionModel,
    NewRelationProfileRevisionModel, NewRelationSignalBatchModel, NewRelationSignalModel,
    RelationEvaluatorPin, RelationEvaluatorReceipt, RelationEvaluatorStateReceiptModel,
    RelationHeadWeight, RelationProfilePin, RelationProfileReceipt,
    RelationProfileStateReceiptModel, RelationSignalBatchReceiptModel, RelationSignalPayloadModel,
    RelationSignalPin, RelationSignalRevisionHeader,
};
use crate::snapshot::Snapshot;
use crate::store::{StoreModel, WriteModel};

verus! {

/// Whether two states of a store are of one identity and have the same operations and
/// audit events on record.
pub open spec fn same_books(a: StoreModel, b: StoreModel) -> bool {
    a.era_id == b.era_id && a.digest_key == b.digest_key && a.operations == b.operations && a.audit == b.audit
}

/// Whether the books of a store went on by one operation and the one audit event that
/// tells of it.
pub open spec fn booked(
    before: StoreModel,
    after: StoreModel,
    operation: OperationContext,
    digest: [u8; 32],
    receipt: ReceiptModel,
) -> bool {
    &&& after.era_id == before.era_id
    &&& after.digest_key == before.digest_key
    &&& after.operations == before.operations.insert(operation.id, StoredOperationModel { digest, receipt })
    &&& exists|event: AuditEventModel|
        audit_tells(before, event, operation) && after.audit == #[trigger] entered_audit(before.audit, event)
}

/// An audit log with one more event.
pub open spec fn entered_audit(audit: Map<AuditKey, AuditEventModel>, event: AuditEventModel) -> Map<
    AuditKey,
    AuditEventModel,
> {
    audit.insert(AuditKey { recorded_at_ms: event.recorded_at_ms, id: event.id }, event)
}

/// Whether an audit event tells of an operation on a store.
pub open spec fn audit_tells(s: StoreModel, event: AuditEventModel, operation: OperationContext) -> bool {
    event.era_id == s.era_id && event.operation_id == operation.id && event.actor == operation.actor
        && event.outcome == AuditOutcome::Committed
}

/// Whether a write leaves the books alone.
pub open spec fn books_apart(w: WriteModel) -> bool {
    !(w is PutAudit) && !(w is PutOperation)
}

broadcast proof fn put_keeps(s: StoreModel, w: WriteModel)
    requires
        books_apart(w),
    ensures
        same_books(s, #[trigger] s.put(w)),
{
    broadcast use crate::writing::parts_after_put;
}

broadcast proof fn audit_is_booked(s: StoreModel, event: AuditEventModel)
    ensures
        (#[trigger] s.audited(event)).audit == entered_audit(s.audit, event),
        s.audited(event).operations == s.operations,
        s.audited(event).era_id == s.era_id,
        s.audited(event).digest_key == s.digest_key,
{
    broadcast use crate::writing::parts_after_put;
}

broadcast proof fn operation_is_booked(s: StoreModel, id: OperationId, digest: [u8; 32], receipt: ReceiptModel)
    ensures
        (#[trigger] s.remembered(id, digest, receipt)).operations == s.operations.insert(
            id,
            StoredOperationModel { digest, receipt },
        ),
        s.remembered(id, digest, receipt).audit == s.audit,
        s.remembered(id, digest, receipt).era_id == s.era_id,
        s.remembered(id, digest, receipt).digest_key == s.digest_key,
{
    broadcast use crate::writing::parts_after_put;
}

broadcast proof fn postings_keep(s: StoreModel, record: RecordRef, hashes: Seq<[u8; 32]>, n: nat)
    ensures
        same_books(s, #[trigger] s.with_postings(record, hashes, n)),
    decreases n,
{
    broadcast use {put_keeps};

    if n > 0 {
        postings_keep(s, record, hashes, (n - 1) as nat);
    }
}

broadcast proof fn withdrawn_postings_keep(s: StoreModel, record: RecordRef, hashes: Seq<[u8; 32]>, n: nat)
    ensures
        same_books(s, #[trigger] s.without_postings(record, hashes, n)),
    decreases n,
{
    broadcast use {put_keeps};

    if n > 0 {
        withdrawn_postings_keep(s, record, hashes, (n - 1) as nat);
    }
}

broadcast proof fn indexing_keeps(s: StoreModel, record: RecordRef, revision: u64, scope: Scope, temporal: TemporalFacts, text: Seq<char>)
    ensures
        same_books(s, #[trigger] s.indexed(record, revision, scope, temporal, text)),
{
    broadcast use {put_keeps, postings_keep};

    reveal(StoreModel::indexed);
}

broadcast proof fn unindexing_keeps(s: StoreModel, committed: StoreModel, record: RecordRef)
    ensures
        same_books(s, #[trigger] s.unindexed(committed, record)),
{
    broadcast use {put_keeps, withdrawn_postings_keep};

    reveal(StoreModel::unindexed);
}

broadcast proof fn erasing_keeps(s: StoreModel, record: RecordRef)
    ensures
        same_books(s, #[trigger] s.without_payload(record)),
{
    broadcast use {put_keeps};

    reveal(StoreModel::without_payload);
}

broadcast proof fn unlisting_keeps(s: StoreModel, id: ProposalId, status: ProposalStatus)
    ensures
        same_books(s, #[trigger] s.unlisted_proposal(id, status)),
{
    broadcast use {put_keeps};

    reveal(StoreModel::unlisted_proposal);
}

broadcast proof fn support_keeps(s: StoreModel, evidence_ids: Seq<EvidenceId>, record: RecordRef, n: nat)
    ensures
        same_books(s, #[trigger] s.supported(evidence_ids, record, n)),
    decreases n,
{
    broadcast use {put_keeps};

    if n > 0 {
        support_keeps(s, evidence_ids, record, (n - 1) as nat);
    }
}

broadcast proof fn resting_keeps(s: StoreModel, sources: Seq<RecordRef>, dependent: RecordRef, n: nat)
    ensures
        same_books(s, #[trigger] s.rests_on(sources, dependent, n)),
    decreases n,
{
    broadcast use {put_keeps};

    if n > 0 {
        resting_keeps(s, sources, dependent, (n - 1) as nat);
    }
}

broadcast proof fn evidence_keeps(s: StoreModel, header: EvidenceHeader, text: Seq<char>)
    ensures
        same_books(s, #[trigger] s.with_evidence(header, text)),
{
    broadcast use {put_keeps, indexing_keeps};

    reveal(StoreModel::with_evidence);
}

broadcast proof fn claim_keeps(s: StoreModel, header: ClaimRevisionHeaderModel, proposition: Seq<char>)
    ensures
        same_books(s, #[trigger] s.with_claim(header, proposition)),
{
    broadcast use {put_keeps, indexing_keeps, support_keeps};

    reveal(StoreModel::with_claim);
}

broadcast proof fn relation_keeps(s: StoreModel, header: SemanticRelationRevisionHeaderModel, qualifier: Option<Seq<char>>)
    ensures
        same_books(s, #[trigger] s.with_relation(header, qualifier)),
{
    broadcast use {put_keeps, support_keeps};

    reveal(StoreModel::with_relation);
}

broadcast proof fn entity_keeps(s: StoreModel, header: EntityRevisionHeaderModel, canonical_name: Seq<char>, aliases: Seq<Seq<char>>)
    ensures
        same_books(s, #[trigger] s.with_entity(header, canonical_name, aliases)),
{
    broadcast use {put_keeps, indexing_keeps, support_keeps};

    reveal(StoreModel::with_entity);
}

broadcast proof fn passages_keep(s: StoreModel, operation: OperationContext, snapshot: ArtifactSnapshotHeader, passages: Seq<NewArtifactPassageModel>, fresh: FreshModel, n: nat)
    ensures
        same_books(s, #[trigger] s.with_passages(operation, snapshot, passages, fresh, n)),
    decreases n,
{
    broadcast use {put_keeps, evidence_keeps};

    if n > 0 {
        passages_keep(s, operation, snapshot, passages, fresh, (n - 1) as nat);
    }
}

broadcast proof fn proposal_keeps(s: StoreModel, header: ProposalRevisionHeader, bundle: NewProposalBundleModel, digest: [u8; 32])
    ensures
        same_books(s, #[trigger] s.with_proposal(header, bundle, digest)),
{
    broadcast use {put_keeps, resting_keeps};

    reveal(StoreModel::with_proposal);
}

broadcast proof fn review_keeps(s: StoreModel, next: ProposalRevisionHeader, review: ProposalReviewCaseHeader, findings: Seq<ProposalReviewFindingModel>, sources: Seq<RecordRef>)
    ensures
        same_books(s, #[trigger] s.with_review(next, review, findings, sources)),
{
    broadcast use {put_keeps, resting_keeps};

    reveal(StoreModel::with_review);
}

broadcast proof fn filing_keeps(s: StoreModel, header: RelationSignalRevisionHeader)
    ensures
        same_books(s, #[trigger] s.signal_filed(header)),
{
    broadcast use {put_keeps};

    reveal(StoreModel::signal_filed);
}

broadcast proof fn moving_keeps(s: StoreModel, header: RelationSignalRevisionHeader, previous_evaluator: Option<RelationEvaluatorId>)
    ensures
        same_books(s, #[trigger] s.signal_moved(header, previous_evaluator)),
{
    broadcast use {put_keeps};

    reveal(StoreModel::signal_moved);
}

broadcast proof fn signal_keeps(s: StoreModel, header: RelationSignalRevisionHeader, payload: RelationSignalPayloadModel, previous_evaluator: Option<RelationEvaluatorId>)
    ensures
        same_books(s, #[trigger] s.with_signal(header, payload, previous_evaluator)),
{
    broadcast use {put_keeps, filing_keeps, moving_keeps};

    reveal(StoreModel::with_signal);
}

broadcast proof fn silenced_traces_keep(s: StoreModel, ids: Seq<ActivationTraceId>, n: nat)
    ensures
        same_books(s, #[trigger] s.without_traces(ids, n)),
    decreases n,
{
    broadcast use {put_keeps};

    if n > 0 {
        silenced_traces_keep(s, ids, (n - 1) as nat);
    }
}

broadcast proof fn filed_trace_keeps(s: StoreModel, candidates: Seq<BaselinePin>, id: ActivationTraceId, n: nat)
    ensures
        same_books(s, #[trigger] s.trace_filed(candidates, id, n)),
    decreases n,
{
    broadcast use {put_keeps};

    if n > 0 {
        filed_trace_keeps(s, candidates, id, (n - 1) as nat);
    }
}

broadcast proof fn next_revision_keeps(s: StoreModel, staged: StoreModel, record: RecordRef, expected_revision: u64, state: RecordState, operation_id: OperationId, recorded_at_ms: i64)
    requires
        s.next_revision(staged, record, expected_revision, state, operation_id, recorded_at_ms) is Ok,
    ensures
        same_books(staged, (#[trigger] s.next_revision(staged, record, expected_revision, state, operation_id, recorded_at_ms))->Ok_0),
{
    broadcast use {put_keeps, unlisting_keeps};

    reveal(StoreModel::next_revision);
}

broadcast proof fn revision_keeps(s: StoreModel, staged: StoreModel, record: RecordRef, expected_revision: u64, state: RecordState, operation_id: OperationId, recorded_at_ms: i64)
    requires
        s.appended(staged, record, expected_revision, state, operation_id, recorded_at_ms) is Ok,
    ensures
        same_books(staged, (#[trigger] s.appended(staged, record, expected_revision, state, operation_id, recorded_at_ms))->Ok_0.0),
{
    broadcast use {put_keeps, next_revision_keeps};

    reveal(StoreModel::appended);
}

broadcast proof fn invalidation_keeps(s: StoreModel, staged: StoreModel, dependencies: Seq<PurgeDependency>, n: nat, state: RecordState, operation_id: OperationId, recorded_at_ms: i64)
    requires
        s.invalidated(staged, dependencies, n, state, operation_id, recorded_at_ms) is Ok,
    ensures
        same_books(staged, (#[trigger] s.invalidated(staged, dependencies, n, state, operation_id, recorded_at_ms))->Ok_0.0),
    decreases n,
{
    broadcast use {put_keeps, revision_keeps, unindexing_keeps};

    if n > 0 {
        invalidation_keeps(s, staged, dependencies, (n - 1) as nat, state, operation_id, recorded_at_ms);
    }
}

broadcast proof fn signal_revision_keeps(s: StoreModel, staged: StoreModel, pin: RelationSignalPin, state: RecordState, operation_id: OperationId, recorded_at_ms: i64)
    requires
        s.signal_appended(staged, pin, state, operation_id, recorded_at_ms) is Ok,
    ensures
        same_books(staged, (#[trigger] s.signal_appended(staged, pin, state, operation_id, recorded_at_ms))->Ok_0.0),
{
    broadcast use {put_keeps};

    reveal(StoreModel::signal_appended);
}

broadcast proof fn silencing_keeps(s: StoreModel, staged: StoreModel, pins: Seq<RelationSignalPin>, n: nat, operation_id: OperationId, recorded_at_ms: i64)
    requires
        s.signals_purged(staged, pins, n, operation_id, recorded_at_ms) is Ok,
    ensures
        same_books(staged, (#[trigger] s.signals_purged(staged, pins, n, operation_id, recorded_at_ms))->Ok_0.0),
    decreases n,
{
    broadcast use {put_keeps, signal_revision_keeps};

    if n > 0 {
        silencing_keeps(s, staged, pins, (n - 1) as nat, operation_id, recorded_at_ms);
    }
}

broadcast proof fn owner_purge_keeps(s: StoreModel, staged: StoreModel, change: DerivedDefinitionStateChange, signal_index: Map<OwnerIndexKey, ()>, trace_index: Map<OwnerIndexKey, ()>, owner: Ulid, operation_id: OperationId, recorded_at_ms: i64)
    requires
        s.owner_purged(staged, change, signal_index, trace_index, owner, operation_id, recorded_at_ms) is Ok,
    ensures
        same_books(staged, (#[trigger] s.owner_purged(staged, change, signal_index, trace_index, owner, operation_id, recorded_at_ms))->Ok_0.0),
{
    broadcast use {put_keeps, silencing_keeps, silenced_traces_keep};

    reveal(StoreModel::owner_purged);
}

broadcast proof fn dependent_purge_keeps(s: StoreModel, staged: StoreModel, revisions: Seq<RecordRevision>, dependency: PurgeDependency, operation_id: OperationId, recorded_at_ms: i64)
    requires
        s.dependent_purged(staged, revisions, dependency, operation_id, recorded_at_ms) is Ok,
    ensures
        same_books(staged, (#[trigger] s.dependent_purged(staged, revisions, dependency, operation_id, recorded_at_ms))->Ok_0.0),
{
    broadcast use {put_keeps, revision_keeps, unindexing_keeps, erasing_keeps};

    reveal(StoreModel::dependent_purged);
}

broadcast proof fn dependents_purge_keeps(s: StoreModel, staged: StoreModel, dependencies: Seq<PurgeDependency>, operation_id: OperationId, recorded_at_ms: i64, n: nat)
    requires
        s.dependents_purged(staged, dependencies, operation_id, recorded_at_ms, n) is Ok,
    ensures
        same_books(staged, (#[trigger] s.dependents_purged(staged, dependencies, operation_id, recorded_at_ms, n))->Ok_0.0),
    decreases n,
{
    broadcast use {put_keeps, dependent_purge_keeps};

    if n > 0 {
        dependents_purge_keeps(s, staged, dependencies, operation_id, recorded_at_ms, (n - 1) as nat);
    }
}

broadcast proof fn signal_put_keeps(s: StoreModel, staged: StoreModel, operation: OperationContext, wanted: NewRelationSignalBatchModel, heads: Seq<RelationHeadWeight>, signal: NewRelationSignalModel, new_id: Ulid, recorded_at_ms: i64)
    requires
        s.signal_put(staged, operation, wanted, heads, signal, new_id, recorded_at_ms) is Ok,
    ensures
        same_books(staged, (#[trigger] s.signal_put(staged, operation, wanted, heads, signal, new_id, recorded_at_ms))->Ok_0.0),
{
    broadcast use {put_keeps, signal_keeps};

    reveal(StoreModel::signal_put);
}

broadcast proof fn signals_put_keep(s: StoreModel, operation: OperationContext, wanted: NewRelationSignalBatchModel, heads: Seq<RelationHeadWeight>, fresh: FreshModel, n: nat)
    requires
        s.signals_put(operation, wanted, heads, fresh, n) is Ok,
    ensures
        same_books(s, (#[trigger] s.signals_put(operation, wanted, heads, fresh, n))->Ok_0.0),
    decreases n,
{
    broadcast use {put_keeps, signal_put_keeps};

    if n > 0 {
        signals_put_keep(s, operation, wanted, heads, fresh, (n - 1) as nat);
    }
}

broadcast proof fn creating_keeps(s: AppliedModel, change: ProposalChangeModel, id: Ulid, at: Application)
    ensures
        same_books(s.store, (#[trigger] s.creating(change, id, at)).store),
{
    broadcast use {claim_keeps, entity_keeps};

    reveal(AppliedModel::creating);
}

broadcast proof fn created_keep(
    s: AppliedModel,
    changes: Seq<ProposalChangeModel>,
    ids: Seq<Ulid>,
    at: Application,
    n: nat,
)
    ensures
        same_books(s.store, (#[trigger] s.created(changes, ids, at, n)).store),
    decreases n,
{
    broadcast use creating_keeps;

    if n > 0 {
        created_keep(s, changes, ids, at, (n - 1) as nat);
    }
}

broadcast proof fn relating_keeps(s: AppliedModel, change: ProposalChangeModel, id: Ulid, drafts: Map<ProposalDraftId, AppliedRecord>, at: Application)
    requires
        s.relating(change, id, drafts, at) is Ok,
    ensures
        same_books(s.store, (#[trigger] s.relating(change, id, drafts, at))->Ok_0.store),
{
    broadcast use {put_keeps, relation_keeps};

    reveal(AppliedModel::relating);
}

broadcast proof fn related_keep(s: AppliedModel, changes: Seq<ProposalChangeModel>, ids: Seq<Ulid>, drafts: Map<ProposalDraftId, AppliedRecord>, at: Application, n: nat)
    requires
        s.related(changes, ids, drafts, at, n) is Ok,
    ensures
        same_books(s.store, (#[trigger] s.related(changes, ids, drafts, at, n))->Ok_0.store),
    decreases n,
{
    broadcast use {put_keeps, relating_keeps};

    if n > 0 {
        related_keep(s, changes, ids, drafts, at, (n - 1) as nat);
    }
}

broadcast proof fn moved_keeps(s: AppliedModel, committed: StoreModel, record: RecordRef, expected_revision: u64, state: RecordState, at: Application)
    requires
        s.moved(committed, record, expected_revision, state, at) is Ok,
    ensures
        same_books(s.store, (#[trigger] s.moved(committed, record, expected_revision, state, at))->Ok_0.store),
{
    broadcast use {put_keeps, revision_keeps, unindexing_keeps};

    reveal(AppliedModel::moved);
}

broadcast proof fn superseding_keeps(s: AppliedModel, replacement: ProposalDraftId, target: RecordRef, id: Ulid, drafts: Map<ProposalDraftId, AppliedRecord>, sources: Seq<EvidenceId>, at: Application)
    requires
        s.superseding(replacement, target, id, drafts, sources, at) is Ok,
    ensures
        same_books(s.store, (#[trigger] s.superseding(replacement, target, id, drafts, sources, at))->Ok_0.store),
{
    broadcast use {put_keeps, relation_keeps};

    reveal(AppliedModel::superseding);
}

broadcast proof fn undermined_keep(s: AppliedModel, committed: StoreModel, dependencies: Seq<PurgeDependency>, spared: Set<RecordRef>, at: Application, n: nat)
    requires
        s.undermined(committed, dependencies, spared, at, n) is Ok,
    ensures
        same_books(s.store, (#[trigger] s.undermined(committed, dependencies, spared, at, n))->Ok_0.store),
    decreases n,
{
    broadcast use {put_keeps, moved_keeps};

    if n > 0 {
        undermined_keep(s, committed, dependencies, spared, at, (n - 1) as nat);
    }
}

broadcast proof fn mutating_keeps(s: AppliedModel, committed: StoreModel, change: ProposalChangeModel, id: Ulid, drafts: Map<ProposalDraftId, AppliedRecord>, sources: Seq<EvidenceId>, spared: Set<RecordRef>, at: Application)
    requires
        s.mutating(committed, change, id, drafts, sources, spared, at) is Ok,
    ensures
        same_books(s.store, (#[trigger] s.mutating(committed, change, id, drafts, sources, spared, at))->Ok_0.store),
{
    broadcast use {put_keeps, moved_keeps, superseding_keeps, undermined_keep};

    reveal(AppliedModel::mutating);
}

broadcast proof fn mutated_keep(s: AppliedModel, committed: StoreModel, changes: Seq<ProposalChangeModel>, ids: Seq<Ulid>, drafts: Map<ProposalDraftId, AppliedRecord>, sources: Seq<EvidenceId>, spared: Set<RecordRef>, at: Application, n: nat)
    requires
        s.mutated(committed, changes, ids, drafts, sources, spared, at, n) is Ok,
    ensures
        same_books(s.store, (#[trigger] s.mutated(committed, changes, ids, drafts, sources, spared, at, n))->Ok_0.store),
    decreases n,
{
    broadcast use {put_keeps, mutating_keeps};

    if n > 0 {
        mutated_keep(s, committed, changes, ids, drafts, sources, spared, at, (n - 1) as nat);
    }
}

broadcast proof fn applying_keeps(s: StoreModel, staged: StoreModel, changes: Seq<ProposalChangeModel>, ids: Seq<Ulid>, drafts: Map<ProposalDraftId, AppliedRecord>, sources: Seq<EvidenceId>, spared: Set<RecordRef>, at: Application)
    requires
        s.changes_applied(staged, changes, ids, drafts, sources, spared, at) is Ok,
    ensures
        same_books(staged, (#[trigger] s.changes_applied(staged, changes, ids, drafts, sources, spared, at))->Ok_0.store),
{
    broadcast use {put_keeps, created_keep, related_keep, mutated_keep};

    reveal(StoreModel::changes_applied);
}

/// A capture goes on the books once. Retrying it changes nothing and answers the same.
pub proof fn captures_are_retried(
    s: StoreModel,
    operation: OperationContext,
    input: NewEvidenceModel,
    request: Seq<u8>,
    fresh: FreshModel,
    again: FreshModel,
    after: StoreModel,
    receipt: EvidenceReceipt,
)
    requires
        s.capture_evidence(operation, input, request, fresh) == MemoryResult::Ok((after, receipt)),
    ensures
        after == s || booked(
            s,
            after,
            operation,
            mutation_digest_of(s.digest_key@, "capture_evidence"@, operation.actor, request),
            ReceiptModel::Evidence(receipt),
        ),
        after.capture_evidence(operation, input, request, again) == MemoryResult::Ok((after, receipt)),
{
    broadcast use {put_keeps, audit_is_booked, operation_is_booked, evidence_keeps};

    reveal(StoreModel::replay);
    let digest = mutation_digest_of(s.digest_key@, "capture_evidence"@, operation.actor, request);
    if s.replay(operation.id, digest) == MemoryResult::Ok(None::<ReceiptModel>) {
        assert(booked(s, after, operation, digest, ReceiptModel::Evidence(receipt)));
    }
}

/// A claim goes on the books once. Retrying it changes nothing and answers the same.
pub proof fn claims_are_retried(
    s: StoreModel,
    operation: OperationContext,
    input: NewClaimModel,
    request: Seq<u8>,
    fresh: FreshModel,
    again: FreshModel,
    after: StoreModel,
    receipt: ClaimReceipt,
)
    requires
        s.create_claim(operation, input, request, fresh) == MemoryResult::Ok((after, receipt)),
    ensures
        after == s || booked(
            s,
            after,
            operation,
            mutation_digest_of(s.digest_key@, "create_claim"@, operation.actor, request),
            ReceiptModel::Claim(receipt),
        ),
        after.create_claim(operation, input, request, again) == MemoryResult::Ok((after, receipt)),
{
    broadcast use {put_keeps, audit_is_booked, operation_is_booked, claim_keeps};

    reveal(StoreModel::replay);
    let digest = mutation_digest_of(s.digest_key@, "create_claim"@, operation.actor, request);
    if s.replay(operation.id, digest) == MemoryResult::Ok(None::<ReceiptModel>) {
        assert(booked(s, after, operation, digest, ReceiptModel::Claim(receipt)));
    }
}

/// A relation goes on the books once. Retrying it changes nothing and answers the same.
pub proof fn relations_are_retried(
    s: StoreModel,
    operation: OperationContext,
    input: NewSemanticRelationModel,
    request: Seq<u8>,
    fresh: FreshModel,
    again: FreshModel,
    after: StoreModel,
    receipt: RelationReceipt,
)
    requires
        s.create_semantic_relation(operation, input, request, fresh) == MemoryResult::Ok((after, receipt)),
    ensures
        after == s || booked(
            s,
            after,
            operation,
            mutation_digest_of(s.digest_key@, "create_semantic_relation"@, operation.actor, request),
            ReceiptModel::Relation(receipt),
        ),
        after.create_semantic_relation(operation, input, request, again) == MemoryResult::Ok((after, receipt)),
{
    broadcast use {put_keeps, audit_is_booked, operation_is_booked, relation_keeps};

    reveal(StoreModel::replay);
    let digest = mutation_digest_of(s.digest_key@, "create_semantic_relation"@, operation.actor, request);
    if s.replay(operation.id, digest) == MemoryResult::Ok(None::<ReceiptModel>) {
        assert(booked(s, after, operation, digest, ReceiptModel::Relation(receipt)));
    }
}

/// A remembered claim goes on the books once. Retrying it changes nothing and answers the same.
pub proof fn remembering_is_retried(
    s: StoreModel,
    operation: OperationContext,
    input: RememberUserClaimModel,
    request: Seq<u8>,
    fresh: FreshModel,
    again: FreshModel,
    after: StoreModel,
    receipt: RememberReceipt,
)
    requires
        s.remember_user_claim(operation, input, request, fresh) == MemoryResult::Ok((after, receipt)),
    ensures
        after == s || booked(
            s,
            after,
            operation,
            mutation_digest_of(s.digest_key@, "remember_user_claim"@, operation.actor, request),
            ReceiptModel::Remember(receipt),
        ),
        after.remember_user_claim(operation, input, request, again) == MemoryResult::Ok((after, receipt)),
{
    broadcast use {put_keeps, audit_is_booked, operation_is_booked, evidence_keeps, claim_keeps};

    reveal(StoreModel::replay);
    let digest = mutation_digest_of(s.digest_key@, "remember_user_claim"@, operation.actor, request);
    if s.replay(operation.id, digest) == MemoryResult::Ok(None::<ReceiptModel>) {
        assert(booked(s, after, operation, digest, ReceiptModel::Remember(receipt)));
    }
}

/// A correction goes on the books once. Retrying it changes nothing and answers the same.
pub proof fn corrections_are_retried(
    s: StoreModel,
    operation: OperationContext,
    input: CorrectUserClaimModel,
    request: Seq<u8>,
    fresh: FreshModel,
    again: FreshModel,
    after: StoreModel,
    receipt: CorrectionReceiptModel,
)
    requires
        s.correct_user_claim(operation, input, request, fresh) == MemoryResult::Ok((after, receipt)),
    ensures
        after == s || booked(
            s,
            after,
            operation,
            mutation_digest_of(s.digest_key@, "correct_user_claim"@, operation.actor, request),
            ReceiptModel::Correction(receipt),
        ),
        after.correct_user_claim(operation, input, request, again) == MemoryResult::Ok((after, receipt)),
{
    broadcast use {put_keeps, audit_is_booked, operation_is_booked, evidence_keeps, claim_keeps, relation_keeps, revision_keeps, unindexing_keeps, invalidation_keeps};

    reveal(StoreModel::replay);
    let digest = mutation_digest_of(s.digest_key@, "correct_user_claim"@, operation.actor, request);
    if s.replay(operation.id, digest) == MemoryResult::Ok(None::<ReceiptModel>) {
        assert(booked(s, after, operation, digest, ReceiptModel::Correction(receipt)));
    }
}

/// A retraction goes on the books once. Retrying it changes nothing and answers the same.
pub proof fn retractions_are_retried(
    s: StoreModel,
    operation: OperationContext,
    record: RecordRef,
    expected_revision: u64,
    request: Seq<u8>,
    fresh: FreshModel,
    again: FreshModel,
    after: StoreModel,
    receipt: RetractionReceiptModel,
)
    requires
        s.retract(operation, record, expected_revision, request, fresh) == MemoryResult::Ok((after, receipt)),
    ensures
        after == s || booked(
            s,
            after,
            operation,
            mutation_digest_of(s.digest_key@, "retract"@, operation.actor, request),
            ReceiptModel::Retraction(receipt),
        ),
        after.retract(operation, record, expected_revision, request, again) == MemoryResult::Ok((after, receipt)),
{
    broadcast use {put_keeps, audit_is_booked, operation_is_booked, revision_keeps, unindexing_keeps, invalidation_keeps};

    reveal(StoreModel::replay);
    let digest = mutation_digest_of(s.digest_key@, "retract"@, operation.actor, request);
    if s.replay(operation.id, digest) == MemoryResult::Ok(None::<ReceiptModel>) {
        assert(booked(s, after, operation, digest, ReceiptModel::Retraction(receipt)));
    }
}

/// A collection goes on the books once. Retrying it changes nothing and answers the same.
pub proof fn collections_are_retried(
    s: StoreModel,
    operation: OperationContext,
    input: NewArtifactCollectionModel,
    request: Seq<u8>,
    fresh: FreshModel,
    again: FreshModel,
    after: StoreModel,
    receipt: ArtifactCollectionReceipt,
)
    requires
        s.create_artifact_collection(operation, input, request, fresh) == MemoryResult::Ok((after, receipt)),
    ensures
        after == s || booked(
            s,
            after,
            operation,
            mutation_digest_of(s.digest_key@, "create_artifact_collection"@, operation.actor, request),
            ReceiptModel::Collection(receipt),
        ),
        after.create_artifact_collection(operation, input, request, again) == MemoryResult::Ok((after, receipt)),
{
    broadcast use {put_keeps, audit_is_booked, operation_is_booked};

    reveal(StoreModel::replay);
    let digest = mutation_digest_of(s.digest_key@, "create_artifact_collection"@, operation.actor, request);
    if s.replay(operation.id, digest) == MemoryResult::Ok(None::<ReceiptModel>) {
        assert(booked(s, after, operation, digest, ReceiptModel::Collection(receipt)));
    }
}

/// A snapshot goes on the books once. Retrying it changes nothing and answers the same.
pub proof fn snapshots_are_retried(
    s: StoreModel,
    operation: OperationContext,
    input: NewArtifactSnapshotModel,
    metadata: Seq<u8>,
    fresh: FreshModel,
    again: FreshModel,
    after: StoreModel,
    receipt: ArtifactSnapshotReceipt,
)
    requires
        s.import_artifact_snapshot(operation, input, metadata, fresh) == MemoryResult::Ok((after, receipt)),
    ensures
        after == s || booked(
            s,
            after,
            operation,
            snapshot_mutation_digest_of(s.digest_key@, operation.actor, metadata, input.bytes),
            ReceiptModel::Snapshot(receipt),
        ),
        after.import_artifact_snapshot(operation, input, metadata, again) == MemoryResult::Ok((after, receipt)),
{
    broadcast use {put_keeps, audit_is_booked, operation_is_booked, evidence_keeps};

    reveal(StoreModel::replay);
    let digest = snapshot_mutation_digest_of(s.digest_key@, operation.actor, metadata, input.bytes);
    if s.replay(operation.id, digest) == MemoryResult::Ok(None::<ReceiptModel>) {
        assert(booked(s, after, operation, digest, ReceiptModel::Snapshot(receipt)));
    }
}

/// A batch of passages goes on the books once. Retrying it changes nothing and answers the same.
pub proof fn passages_are_retried(
    s: StoreModel,
    operation: OperationContext,
    input: NewArtifactPassageBatchModel,
    request: Seq<u8>,
    fresh: FreshModel,
    again: FreshModel,
    after: StoreModel,
    receipt: ArtifactPassageBatchReceiptModel,
)
    requires
        s.create_artifact_passages(operation, input, request, fresh) == MemoryResult::Ok((after, receipt)),
    ensures
        after == s || booked(
            s,
            after,
            operation,
            mutation_digest_of(s.digest_key@, "create_artifact_passages"@, operation.actor, request),
            ReceiptModel::Passages(receipt),
        ),
        after.create_artifact_passages(operation, input, request, again) == MemoryResult::Ok((after, receipt)),
{
    broadcast use {put_keeps, audit_is_booked, operation_is_booked, passages_keep};

    reveal(StoreModel::replay);
    let digest = mutation_digest_of(s.digest_key@, "create_artifact_passages"@, operation.actor, request);
    if s.replay(operation.id, digest) == MemoryResult::Ok(None::<ReceiptModel>) {
        assert(booked(s, after, operation, digest, ReceiptModel::Passages(receipt)));
    }
}

/// An evaluator goes on the books once. Retrying it changes nothing and answers the same.
pub proof fn evaluators_are_retried(
    s: StoreModel,
    operation: OperationContext,
    input: NewRelationEvaluatorRevisionModel,
    request: Seq<u8>,
    fresh: FreshModel,
    again: FreshModel,
    after: StoreModel,
    receipt: RelationEvaluatorReceipt,
)
    requires
        s.put_relation_evaluator(operation, input, request, fresh) == MemoryResult::Ok((after, receipt)),
    ensures
        after == s || booked(
            s,
            after,
            operation,
            mutation_digest_of(s.digest_key@, "put_relation_evaluator"@, operation.actor, request),
            ReceiptModel::Evaluator(receipt),
        ),
        after.put_relation_evaluator(operation, input, request, again) == MemoryResult::Ok((after, receipt)),
{
    broadcast use {put_keeps, audit_is_booked, operation_is_booked};

    reveal(StoreModel::replay);
    let digest = mutation_digest_of(s.digest_key@, "put_relation_evaluator"@, operation.actor, request);
    if s.replay(operation.id, digest) == MemoryResult::Ok(None::<ReceiptModel>) {
        assert(booked(s, after, operation, digest, ReceiptModel::Evaluator(receipt)));
    }
}

/// A profile goes on the books once. Retrying it changes nothing and answers the same.
pub proof fn profiles_are_retried(
    s: StoreModel,
    operation: OperationContext,
    input: NewRelationProfileRevisionModel,
    request: Seq<u8>,
    fresh: FreshModel,
    again: FreshModel,
    after: StoreModel,
    receipt: RelationProfileReceipt,
)
    requires
        s.put_relation_profile(operation, input, request, fresh) == MemoryResult::Ok((after, receipt)),
    ensures
        after == s || booked(
            s,
            after,
            operation,
            mutation_digest_of(s.digest_key@, "put_relation_profile"@, operation.actor, request),
            ReceiptModel::Profile(receipt),
        ),
        after.put_relation_profile(operation, input, request, again) == MemoryResult::Ok((after, receipt)),
{
    broadcast use {put_keeps, audit_is_booked, operation_is_booked};

    reveal(StoreModel::replay);
    let digest = mutation_digest_of(s.digest_key@, "put_relation_profile"@, operation.actor, request);
    if s.replay(operation.id, digest) == MemoryResult::Ok(None::<ReceiptModel>) {
        assert(booked(s, after, operation, digest, ReceiptModel::Profile(receipt)));
    }
}

/// A change of an evaluator goes on the books once. Retrying it changes nothing and answers the same.
pub proof fn evaluator_states_are_retried(
    s: StoreModel,
    operation: OperationContext,
    pin: RelationEvaluatorPin,
    change: DerivedDefinitionStateChange,
    request: Seq<u8>,
    fresh: FreshModel,
    again: FreshModel,
    after: StoreModel,
    receipt: RelationEvaluatorStateReceiptModel,
)
    requires
        s.set_relation_evaluator_state(operation, pin, change, request, fresh) == MemoryResult::Ok((after, receipt)),
    ensures
        after == s || booked(
            s,
            after,
            operation,
            mutation_digest_of(s.digest_key@, "set_relation_evaluator_state"@, operation.actor, request),
            ReceiptModel::EvaluatorState(receipt),
        ),
        after.set_relation_evaluator_state(operation, pin, change, request, again) == MemoryResult::Ok((after, receipt)),
{
    broadcast use {put_keeps, audit_is_booked, operation_is_booked, owner_purge_keeps};

    reveal(StoreModel::replay);
    let digest = mutation_digest_of(s.digest_key@, "set_relation_evaluator_state"@, operation.actor, request);
    if s.replay(operation.id, digest) == MemoryResult::Ok(None::<ReceiptModel>) {
        assert(booked(s, after, operation, digest, ReceiptModel::EvaluatorState(receipt)));
    }
}

/// A change of a profile goes on the books once. Retrying it changes nothing and answers the same.
pub proof fn profile_states_are_retried(
    s: StoreModel,
    operation: OperationContext,
    pin: RelationProfilePin,
    change: DerivedDefinitionStateChange,
    request: Seq<u8>,
    fresh: FreshModel,
    again: FreshModel,
    after: StoreModel,
    receipt: RelationProfileStateReceiptModel,
)
    requires
        s.set_relation_profile_state(operation, pin, change, request, fresh) == MemoryResult::Ok((after, receipt)),
    ensures
        after == s || booked(
            s,
            after,
            operation,
            mutation_digest_of(s.digest_key@, "set_relation_profile_state"@, operation.actor, request),
            ReceiptModel::ProfileState(receipt),
        ),
        after.set_relation_profile_state(operation, pin, change, request, again) == MemoryResult::Ok((after, receipt)),
{
    broadcast use {put_keeps, audit_is_booked, operation_is_booked, owner_purge_keeps};

    reveal(StoreModel::replay);
    let digest = mutation_digest_of(s.digest_key@, "set_relation_profile_state"@, operation.actor, request);
    if s.replay(operation.id, digest) == MemoryResult::Ok(None::<ReceiptModel>) {
        assert(booked(s, after, operation, digest, ReceiptModel::ProfileState(receipt)));
    }
}

/// A batch of signals goes on the books once. Retrying it changes nothing and answers the same.
pub proof fn signals_are_retried(
    s: StoreModel,
    operation: OperationContext,
    input: NewRelationSignalBatchModel,
    request: Seq<u8>,
    fresh: FreshModel,
    again: FreshModel,
    after: StoreModel,
    receipt: RelationSignalBatchReceiptModel,
)
    requires
        s.put_relation_signals(operation, input, request, fresh) == MemoryResult::Ok((after, receipt)),
    ensures
        after == s || booked(
            s,
            after,
            operation,
            mutation_digest_of(s.digest_key@, "put_relation_signals"@, operation.actor, request),
            ReceiptModel::Signals(receipt),
        ),
        after.put_relation_signals(operation, input, request, again) == MemoryResult::Ok((after, receipt)),
{
    broadcast use {put_keeps, audit_is_booked, operation_is_booked, signals_put_keep};

    reveal(StoreModel::replay);
    let digest = mutation_digest_of(s.digest_key@, "put_relation_signals"@, operation.actor, request);
    if s.replay(operation.id, digest) == MemoryResult::Ok(None::<ReceiptModel>) {
        assert(booked(s, after, operation, digest, ReceiptModel::Signals(receipt)));
    }
}

/// A proposal goes on the books once; one that its source job brought before is remembered
/// without a further audit event. Retrying it changes nothing and answers the same.
pub proof fn submissions_are_retried(
    s: StoreModel,
    operation: OperationContext,
    input: NewProposalBundleModel,
    request: Seq<u8>,
    fresh: FreshModel,
    again: FreshModel,
    after: StoreModel,
    receipt: ProposalReceipt,
)
    requires
        s.submit_proposal(operation, input, request, fresh) == MemoryResult::Ok((after, receipt)),
    ensures
        after == s || booked(
            s,
            after,
            operation,
            mutation_digest_of(s.digest_key@, "submit_proposal"@, operation.actor, request),
            ReceiptModel::Proposal(receipt),
        ) || after == s.remembered(
            operation.id,
            mutation_digest_of(s.digest_key@, "submit_proposal"@, operation.actor, request),
            ReceiptModel::Proposal(receipt),
        ),
        after.submit_proposal(operation, input, request, again) == MemoryResult::Ok((after, receipt)),
{
    broadcast use {put_keeps, audit_is_booked, operation_is_booked, proposal_keeps};

    reveal(StoreModel::replay);
    let digest = mutation_digest_of(s.digest_key@, "submit_proposal"@, operation.actor, request);
    if s.replay(operation.id, digest) == MemoryResult::Ok(None::<ReceiptModel>) && after != s.remembered(
        operation.id,
        digest,
        ReceiptModel::Proposal(receipt),
    ) {
        assert(booked(s, after, operation, digest, ReceiptModel::Proposal(receipt)));
    }
}

/// A review goes on the books once. Retrying it changes nothing and answers the same.
pub proof fn reviews_are_retried(
    s: StoreModel,
    operation: OperationContext,
    input: NewProposalReviewModel,
    request: Seq<u8>,
    fresh: FreshModel,
    again: FreshModel,
    after: StoreModel,
    receipt: ProposalReviewReceipt,
)
    requires
        s.review_proposal(operation, input, request, fresh) == MemoryResult::Ok((after, receipt)),
    ensures
        after == s || booked(
            s,
            after,
            operation,
            mutation_digest_of(s.digest_key@, "review_proposal"@, operation.actor, request),
            ReceiptModel::Review(receipt),
        ),
        after.review_proposal(operation, input, request, again) == MemoryResult::Ok((after, receipt)),
{
    broadcast use {put_keeps, audit_is_booked, operation_is_booked, review_keeps};

    reveal(StoreModel::replay);
    let digest = mutation_digest_of(s.digest_key@, "review_proposal"@, operation.actor, request);
    if s.replay(operation.id, digest) == MemoryResult::Ok(None::<ReceiptModel>) {
        assert(booked(s, after, operation, digest, ReceiptModel::Review(receipt)));
    }
}

/// A decision goes on the books once. Retrying it changes nothing and answers the same.
pub proof fn adjudications_are_retried(
    s: StoreModel,
    operation: OperationContext,
    input: ProposalAdjudication,
    request: Seq<u8>,
    fresh: FreshModel,
    again: FreshModel,
    after: StoreModel,
    receipt: ProposalAdjudicationReceiptModel,
)
    requires
        s.adjudicate_proposal(operation, input, request, fresh) == MemoryResult::Ok((after, receipt)),
    ensures
        after == s || booked(
            s,
            after,
            operation,
            mutation_digest_of(s.digest_key@, "adjudicate_proposal"@, operation.actor, request),
            ReceiptModel::Adjudication(receipt),
        ),
        after.adjudicate_proposal(operation, input, request, again) == MemoryResult::Ok((after, receipt)),
{
    broadcast use {put_keeps, audit_is_booked, operation_is_booked, applying_keeps};

    reveal(StoreModel::replay);
    reveal(StoreModel::stale_acknowledged);
    reveal(StoreModel::closed);
    reveal(StoreModel::applied);
    reveal(StoreModel::accepted);
    let digest = mutation_digest_of(s.digest_key@, "adjudicate_proposal"@, operation.actor, request);
    if s.replay(operation.id, digest) == MemoryResult::Ok(None::<ReceiptModel>) {
        assert(booked(s, after, operation, digest, ReceiptModel::Adjudication(receipt)));
    }
}

/// A purge goes on the books once. Retrying it changes nothing and answers the same.
pub proof fn purges_are_retried(
    s: StoreModel,
    operation: OperationContext,
    preview: PurgePreviewModel,
    request: Seq<u8>,
    now_ms: i64,
    later_ms: i64,
    fresh: FreshModel,
    again: FreshModel,
    after: StoreModel,
    receipt: PurgeReceiptModel,
)
    requires
        s.commit_purge(operation, preview, request, now_ms, fresh) == MemoryResult::Ok((after, receipt)),
    ensures
        after == s || booked(
            s,
            after,
            operation,
            mutation_digest_of(s.digest_key@, "commit_purge"@, operation.actor, request),
            ReceiptModel::Purge(receipt),
        ),
        after.commit_purge(operation, preview, request, later_ms, again) == MemoryResult::Ok((after, receipt)),
{
    broadcast use {put_keeps, audit_is_booked, operation_is_booked, revision_keeps, unindexing_keeps, erasing_keeps, dependents_purge_keeps, silencing_keeps, silenced_traces_keep};

    reveal(StoreModel::replay);
    reveal(StoreModel::purged);
    let digest = mutation_digest_of(s.digest_key@, "commit_purge"@, operation.actor, request);
    if s.replay(operation.id, digest) == MemoryResult::Ok(None::<ReceiptModel>) {
        assert(booked(s, after, operation, digest, ReceiptModel::Purge(receipt)));
    }
}

/// Feedback goes on the books once. Retrying it changes nothing and answers the same.
pub proof fn feedback_is_retried(
    s: StoreModel,
    operation: OperationContext,
    input: NewRecallFeedback,
    request: Seq<u8>,
    fresh: FreshModel,
    again: FreshModel,
    after: StoreModel,
    receipt: RecallFeedback,
)
    requires
        s.record_recall_feedback(operation, input, request, fresh) == MemoryResult::Ok((after, receipt)),
    ensures
        after == s || booked(
            s,
            after,
            operation,
            mutation_digest_of(s.digest_key@, "record_recall_feedback"@, operation.actor, request),
            ReceiptModel::Feedback(receipt),
        ),
        after.record_recall_feedback(operation, input, request, again) == MemoryResult::Ok((after, receipt)),
{
    broadcast use {put_keeps, audit_is_booked, operation_is_booked};

    reveal(StoreModel::replay);
    let digest = mutation_digest_of(s.digest_key@, "record_recall_feedback"@, operation.actor, request);
    if s.replay(operation.id, digest) == MemoryResult::Ok(None::<ReceiptModel>) {
        assert(booked(s, after, operation, digest, ReceiptModel::Feedback(receipt)));
    }
}

/// An operation that is on the books is answered from them: with its receipt if the request
/// is the same, and with a refusal if it is another.
pub proof fn booked_operations_are_answered(
    before: StoreModel,
    after: StoreModel,
    operation: OperationContext,
    digest: [u8; 32],
    receipt: ReceiptModel,
    other: [u8; 32],
)
    requires
        booked(before, after, operation, digest, receipt),
    ensures
        after.replay(operation.id, other) == (if other == digest {
            MemoryResult::Ok(Some(receipt))
        } else {
            MemoryResult::Err(MemoryError::OperationConflict(operation.id))
        }),
{
    reveal(StoreModel::replay);
}

/// Other operations stay on the books as they are.
pub proof fn booked_operations_stay(
    before: StoreModel,
    after: StoreModel,
    operation: OperationContext,
    digest: [u8; 32],
    receipt: ReceiptModel,
    other: OperationId,
    asked: [u8; 32],
)
    requires
        booked(before, after, operation, digest, receipt),
        other != operation.id,
    ensures
        after.replay(other, asked) == before.replay(other, asked),
{
    reveal(StoreModel::replay);
}

} // verus!
