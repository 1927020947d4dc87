//! The audit trail: every operation leaves an event that tells who did what to which
//! records, in which era and when.

use vstd::prelude::*;
use crate::bundles::sound_bundle;
use crate::bundling::bundles_are_heard;
use crate::clock::FreshModel;
use crate::context::OperationContext;
use crate::derived::derived_subjects_of;
use crate::fault::MemoryResult;
use crate::ids::{ActivationTraceId, AuditEventId, Ulid};
use crate::inspect::lookup;
use crate::keys::{AuditKey, id_span, time_rank};
use crate::order::{Keyed, in_order, in_order_lists};
use crate::proceeding::proposals_name_themselves;
use crate::purge::{derived_refs, purge_records};
use crate::records::artifact::{
    ArtifactCollectionReceipt, ArtifactPassageBatchReceiptModel, ArtifactSnapshotReceipt,
    NewArtifactCollectionModel, NewArtifactPassageBatchModel, NewArtifactSnapshotModel,
};
use crate::records::audit::{
    AdjudicationAudit, AuditAction, AuditEventModel, AuditOutcome, DerivedRecordRef,
    PurgePreviewModel, PurgeReceiptModel, RetractionReceiptModel,
};
use crate::records::claim::{
    ClaimReceipt, CorrectUserClaimModel, CorrectionReceiptModel, NewClaimModel,
    NewSemanticRelationModel, RelationReceipt, RememberReceipt, RememberUserClaimModel,
};
use crate::records::evidence::{EvidenceReceipt, NewEvidenceModel, RecordRef};
use crate::records::proposal::{
    NewProposalBundleModel, NewProposalReviewModel, NewRecallFeedback, ProposalAdjudication,
    ProposalAdjudicationReceiptModel, ProposalChangeModel, ProposalReceipt, ProposalRecordModel,
    ProposalReviewReceipt, RecallFeedback,
};
use crate::records::relation::{
    ActivationTrace, ActivationTraceModel, DerivedDefinitionStateChange,
    NewRelationEvaluatorRevisionModel, NewRelationProfileRevisionModel,
    NewRelationSignalBatchModel, RelationEvaluatorPin, RelationEvaluatorReceipt,
    RelationEvaluatorStateReceiptModel, RelationProfilePin, RelationProfileReceipt,
    RelationProfileStateReceiptModel, RelationSignalBatchReceiptModel, RelationSignalPin,
    ShadowActivationRequestModel,
};
use crate::reviews::sound_review;
use crate::signals::signal_subjects;
use crate::staging::records_of;
use crate::store::StoreModel;

verus! {

/// Whether the audit trail of a store tells of an operation on another: who asked for it,
/// what was done, and which records and derived records it was about.
pub open spec fn tells(
    before: StoreModel,
    after: StoreModel,
    id: Ulid,
    operation: OperationContext,
    action: AuditAction,
    subjects: Seq<RecordRef>,
    derived: Seq<DerivedRecordRef>,
    adjudication: Option<AdjudicationAudit>,
    recorded_at_ms: i64,
) -> bool {
    lookup(after.audit, AuditKey { recorded_at_ms, id: AuditEventId(id) }) == Some(
        AuditEventModel {
            id: AuditEventId(id),
            era_id: before.era_id,
            operation_id: operation.id,
            actor: operation.actor,
            action,
            subjects,
            derived_subjects: derived,
            adjudication,
            outcome: AuditOutcome::Committed,
            recorded_at_ms,
        },
    )
}

/// The signals and traces that were silenced, the signals first.
pub open spec fn silenced(signals: Seq<RelationSignalPin>, traces: Seq<ActivationTraceId>) -> Seq<DerivedRecordRef> {
    Seq::new(signals.len(), |i: int| DerivedRecordRef::RelationSignal(signals[i].id)) + Seq::new(
        traces.len(),
        |i: int| DerivedRecordRef::ActivationTrace(traces[i]),
    )
}

/// Captured evidence is on the audit trail.
pub proof fn captures_are_on_the_trail(
    s: StoreModel,
    operation: OperationContext,
    input: NewEvidenceModel,
    request: Seq<u8>,
    fresh: FreshModel,
    after: StoreModel,
    receipt: EvidenceReceipt,
)
    requires
        s.capture_evidence(operation, input, request, fresh) == MemoryResult::Ok((after, receipt)),
        !s.operations.contains_key(operation.id),
    ensures
        tells(
            s,
            after,
            fresh.ids[0],
            operation,
            AuditAction::EvidenceCaptured,
            seq![RecordRef::Evidence(receipt.id)],
            Seq::empty(),
            None,
            fresh.recorded_at_ms,
        ),
{
    reveal(StoreModel::replay);
    broadcast use crate::writing::put_audit;

}

/// A created claim is on the audit trail.
pub proof fn claims_are_on_the_trail(
    s: StoreModel,
    operation: OperationContext,
    input: NewClaimModel,
    request: Seq<u8>,
    fresh: FreshModel,
    after: StoreModel,
    receipt: ClaimReceipt,
)
    requires
        s.create_claim(operation, input, request, fresh) == MemoryResult::Ok((after, receipt)),
        !s.operations.contains_key(operation.id),
    ensures
        tells(
            s,
            after,
            fresh.ids[0],
            operation,
            AuditAction::ClaimCreated,
            seq![RecordRef::Claim(receipt.id)],
            Seq::empty(),
            None,
            fresh.recorded_at_ms,
        ),
{
    reveal(StoreModel::replay);
    broadcast use crate::writing::put_audit;

}

/// A remembered claim, with its evidence, is on the audit trail.
pub proof fn remembering_is_on_the_trail(
    s: StoreModel,
    operation: OperationContext,
    input: RememberUserClaimModel,
    request: Seq<u8>,
    fresh: FreshModel,
    after: StoreModel,
    receipt: RememberReceipt,
)
    requires
        s.remember_user_claim(operation, input, request, fresh) == MemoryResult::Ok((after, receipt)),
        !s.operations.contains_key(operation.id),
    ensures
        tells(
            s,
            after,
            fresh.ids[0],
            operation,
            AuditAction::UserClaimRemembered,
            seq![RecordRef::Evidence(receipt.evidence.id), RecordRef::Claim(receipt.claim.id)],
            Seq::empty(),
            None,
            fresh.recorded_at_ms,
        ),
{
    reveal(StoreModel::replay);
    broadcast use crate::writing::put_audit;

}

/// A correction, with all that it made, replaced and left unsupported, is on the audit trail.
pub proof fn corrections_are_on_the_trail(
    s: StoreModel,
    operation: OperationContext,
    input: CorrectUserClaimModel,
    request: Seq<u8>,
    fresh: FreshModel,
    after: StoreModel,
    receipt: CorrectionReceiptModel,
)
    requires
        s.correct_user_claim(operation, input, request, fresh) == MemoryResult::Ok((after, receipt)),
        !s.operations.contains_key(operation.id),
    ensures
        tells(
            s,
            after,
            fresh.ids[0],
            operation,
            AuditAction::UserClaimCorrected,
            seq![
            RecordRef::Evidence(receipt.evidence.id),
            RecordRef::Claim(input.target),
            RecordRef::Claim(receipt.replacement.id),
            RecordRef::SemanticRelation(receipt.supersedes_relation.id),
        ] + Seq::new(receipt.invalidated.len(), |i: int| receipt.invalidated[i].record),
            Seq::empty(),
            None,
            fresh.recorded_at_ms,
        ),
{
    reveal(StoreModel::replay);
    broadcast use crate::writing::put_audit;

    reveal(StoreModel::correct_request);
}

/// A created relation is on the audit trail.
pub proof fn relations_are_on_the_trail(
    s: StoreModel,
    operation: OperationContext,
    input: NewSemanticRelationModel,
    request: Seq<u8>,
    fresh: FreshModel,
    after: StoreModel,
    receipt: RelationReceipt,
)
    requires
        s.create_semantic_relation(operation, input, request, fresh) == MemoryResult::Ok((after, receipt)),
        !s.operations.contains_key(operation.id),
    ensures
        tells(
            s,
            after,
            fresh.ids[0],
            operation,
            AuditAction::RelationCreated,
            seq![RecordRef::SemanticRelation(receipt.id)],
            Seq::empty(),
            None,
            fresh.recorded_at_ms,
        ),
{
    reveal(StoreModel::replay);
    broadcast use crate::writing::put_audit;

}

/// A created collection is on the audit trail.
pub proof fn collections_are_on_the_trail(
    s: StoreModel,
    operation: OperationContext,
    input: NewArtifactCollectionModel,
    request: Seq<u8>,
    fresh: FreshModel,
    after: StoreModel,
    receipt: ArtifactCollectionReceipt,
)
    requires
        s.create_artifact_collection(operation, input, request, fresh) == MemoryResult::Ok((after, receipt)),
        !s.operations.contains_key(operation.id),
    ensures
        tells(
            s,
            after,
            fresh.ids[0],
            operation,
            AuditAction::ArtifactCollectionCreated,
            seq![RecordRef::ArtifactCollection(receipt.id)],
            Seq::empty(),
            None,
            fresh.recorded_at_ms,
        ),
{
    reveal(StoreModel::replay);
    broadcast use crate::writing::put_audit;

}

/// An imported snapshot, with its evidence, is on the audit trail.
pub proof fn imports_are_on_the_trail(
    s: StoreModel,
    operation: OperationContext,
    input: NewArtifactSnapshotModel,
    metadata: Seq<u8>,
    fresh: FreshModel,
    after: StoreModel,
    receipt: ArtifactSnapshotReceipt,
)
    requires
        s.import_artifact_snapshot(operation, input, metadata, fresh) == MemoryResult::Ok((after, receipt)),
        !s.operations.contains_key(operation.id),
    ensures
        tells(
            s,
            after,
            fresh.ids[0],
            operation,
            AuditAction::ArtifactSnapshotImported,
            seq![RecordRef::ArtifactSnapshot(receipt.id), RecordRef::Evidence(receipt.evidence.id)],
            Seq::empty(),
            None,
            fresh.recorded_at_ms,
        ),
{
    reveal(StoreModel::replay);
    broadcast use crate::writing::put_audit;

}

/// Created passages, each with its evidence, are on the audit trail.
pub proof fn passages_are_on_the_trail(
    s: StoreModel,
    operation: OperationContext,
    input: NewArtifactPassageBatchModel,
    request: Seq<u8>,
    fresh: FreshModel,
    after: StoreModel,
    receipt: ArtifactPassageBatchReceiptModel,
)
    requires
        s.create_artifact_passages(operation, input, request, fresh) == MemoryResult::Ok((after, receipt)),
        !s.operations.contains_key(operation.id),
    ensures
        tells(
            s,
            after,
            fresh.ids[0],
            operation,
            AuditAction::ArtifactPassagesCreated,
            Seq::new(
            2 * receipt.passages.len(),
            |i: int|
                if i % 2 == 0 {
                    RecordRef::ArtifactPassage(receipt.passages[i / 2].id)
                } else {
                    RecordRef::Evidence(receipt.passages[i / 2].evidence.id)
                },
        ),
            Seq::empty(),
            None,
            fresh.recorded_at_ms,
        ),
{
    reveal(StoreModel::replay);
    broadcast use crate::writing::put_audit;

    let n = input.passages.len();
    let told = Seq::new(
        2 * receipt.passages.len(),
        |i: int|
            if i % 2 == 0 {
                RecordRef::ArtifactPassage(receipt.passages[i / 2].id)
            } else {
                RecordRef::Evidence(receipt.passages[i / 2].evidence.id)
            },
    );
    assert(StoreModel::passage_subjects(fresh, n) =~= told);
}

/// An evaluator that was put is on the audit trail.
pub proof fn evaluators_are_on_the_trail(
    s: StoreModel,
    operation: OperationContext,
    input: NewRelationEvaluatorRevisionModel,
    request: Seq<u8>,
    fresh: FreshModel,
    after: StoreModel,
    receipt: RelationEvaluatorReceipt,
)
    requires
        s.put_relation_evaluator(operation, input, request, fresh) == MemoryResult::Ok((after, receipt)),
        !s.operations.contains_key(operation.id),
    ensures
        tells(
            s,
            after,
            fresh.ids[0],
            operation,
            AuditAction::RelationEvaluatorPut,
            Seq::empty(),
            seq![DerivedRecordRef::RelationEvaluator(receipt.pin.id)],
            None,
            fresh.recorded_at_ms,
        ),
{
    reveal(StoreModel::replay);
    broadcast use crate::writing::put_audit;

}

/// A profile that was put is on the audit trail.
pub proof fn profiles_are_on_the_trail(
    s: StoreModel,
    operation: OperationContext,
    input: NewRelationProfileRevisionModel,
    request: Seq<u8>,
    fresh: FreshModel,
    after: StoreModel,
    receipt: RelationProfileReceipt,
)
    requires
        s.put_relation_profile(operation, input, request, fresh) == MemoryResult::Ok((after, receipt)),
        !s.operations.contains_key(operation.id),
    ensures
        tells(
            s,
            after,
            fresh.ids[0],
            operation,
            AuditAction::RelationProfilePut,
            Seq::empty(),
            seq![DerivedRecordRef::RelationProfile(receipt.pin.id)],
            None,
            fresh.recorded_at_ms,
        ),
{
    reveal(StoreModel::replay);
    broadcast use crate::writing::put_audit;

}

/// A closed evaluator, with the signals and traces that it silenced, is on the audit trail.
pub proof fn evaluator_states_are_on_the_trail(
    s: StoreModel,
    operation: OperationContext,
    pin: RelationEvaluatorPin,
    change: DerivedDefinitionStateChange,
    request: Seq<u8>,
    fresh: FreshModel,
    after: StoreModel,
    receipt: RelationEvaluatorStateReceiptModel,
)
    requires
        s.set_relation_evaluator_state(operation, pin, change, request, fresh) == MemoryResult::Ok((after, receipt)),
        !s.operations.contains_key(operation.id),
    ensures
        tells(
            s,
            after,
            fresh.ids[0],
            operation,
            AuditAction::RelationEvaluatorStateChanged,
            Seq::empty(),
            seq![DerivedRecordRef::RelationEvaluator(pin.id)] + silenced(
            receipt.purged_relation_signals,
            receipt.purged_activation_traces,
        ),
            None,
            fresh.recorded_at_ms,
        ),
{
    reveal(StoreModel::replay);
    broadcast use crate::writing::put_audit;

    assert(derived_subjects_of(
        DerivedRecordRef::RelationEvaluator(pin.id),
        receipt.purged_relation_signals,
        receipt.purged_activation_traces,
    ) =~= seq![DerivedRecordRef::RelationEvaluator(pin.id)] + silenced(
        receipt.purged_relation_signals,
        receipt.purged_activation_traces,
    ));
}

/// A closed profile, with the signals and traces that it silenced, is on the audit trail.
pub proof fn profile_states_are_on_the_trail(
    s: StoreModel,
    operation: OperationContext,
    pin: RelationProfilePin,
    change: DerivedDefinitionStateChange,
    request: Seq<u8>,
    fresh: FreshModel,
    after: StoreModel,
    receipt: RelationProfileStateReceiptModel,
)
    requires
        s.set_relation_profile_state(operation, pin, change, request, fresh) == MemoryResult::Ok((after, receipt)),
        !s.operations.contains_key(operation.id),
    ensures
        tells(
            s,
            after,
            fresh.ids[0],
            operation,
            AuditAction::RelationProfileStateChanged,
            Seq::empty(),
            seq![DerivedRecordRef::RelationProfile(pin.id)] + silenced(
            receipt.purged_relation_signals,
            receipt.purged_activation_traces,
        ),
            None,
            fresh.recorded_at_ms,
        ),
{
    reveal(StoreModel::replay);
    broadcast use crate::writing::put_audit;

    assert(derived_subjects_of(
        DerivedRecordRef::RelationProfile(pin.id),
        receipt.purged_relation_signals,
        receipt.purged_activation_traces,
    ) =~= seq![DerivedRecordRef::RelationProfile(pin.id)] + silenced(
        receipt.purged_relation_signals,
        receipt.purged_activation_traces,
    ));
}

/// Signals that were put are on the audit trail.
pub proof fn signals_are_on_the_trail(
    s: StoreModel,
    operation: OperationContext,
    input: NewRelationSignalBatchModel,
    request: Seq<u8>,
    fresh: FreshModel,
    after: StoreModel,
    receipt: RelationSignalBatchReceiptModel,
)
    requires
        s.put_relation_signals(operation, input, request, fresh) == MemoryResult::Ok((after, receipt)),
        !s.operations.contains_key(operation.id),
    ensures
        tells(
            s,
            after,
            fresh.ids[0],
            operation,
            AuditAction::RelationSignalsPut,
            Seq::empty(),
            Seq::new(
            receipt.signals.len(),
            |i: int| DerivedRecordRef::RelationSignal(receipt.signals[i].pin.id),
        ),
            None,
            fresh.recorded_at_ms,
        ),
{
    reveal(StoreModel::replay);
    broadcast use crate::writing::put_audit;

    assert(signal_subjects(receipt.signals) =~= Seq::new(
        receipt.signals.len(),
        |i: int| DerivedRecordRef::RelationSignal(receipt.signals[i].pin.id),
    ));
}

/// A shadow activation is on the audit trail.
pub proof fn activations_are_on_the_trail(
    s: StoreModel,
    operation: OperationContext,
    input: ShadowActivationRequestModel,
    request: Seq<u8>,
    fresh: FreshModel,
    after: StoreModel,
    receipt: ActivationTraceModel,
)
    requires
        s.shadow_activate(operation, input, request, fresh) == MemoryResult::Ok((after, receipt)),
        !s.operations.contains_key(operation.id),
    ensures
        tells(
            s,
            after,
            fresh.ids[0],
            operation,
            AuditAction::ShadowActivationRecorded,
            Seq::empty(),
            seq![DerivedRecordRef::ActivationTrace(receipt.id)],
            None,
            fresh.recorded_at_ms,
        ),
{
    reveal(StoreModel::replay);
    broadcast use crate::writing::put_audit;

}

/// Feedback, with the record that it is about, if any, is on the audit trail.
pub proof fn feedback_is_on_the_trail(
    s: StoreModel,
    operation: OperationContext,
    input: NewRecallFeedback,
    request: Seq<u8>,
    fresh: FreshModel,
    after: StoreModel,
    receipt: RecallFeedback,
)
    requires
        s.record_recall_feedback(operation, input, request, fresh) == MemoryResult::Ok((after, receipt)),
        !s.operations.contains_key(operation.id),
    ensures
        tells(
            s,
            after,
            fresh.ids[0],
            operation,
            AuditAction::RecallFeedbackRecorded,
            match input.candidate {
            Some(pin) => seq![pin.record],
            None => Seq::empty(),
        },
            Seq::empty(),
            None,
            fresh.recorded_at_ms,
        ),
{
    reveal(StoreModel::replay);
    broadcast use crate::writing::put_audit;

}

/// A review, with the proposal that it is of, is on the audit trail.
pub proof fn reviews_are_on_the_trail(
    s: StoreModel,
    operation: OperationContext,
    input: NewProposalReviewModel,
    request: Seq<u8>,
    fresh: FreshModel,
    after: StoreModel,
    receipt: ProposalReviewReceipt,
)
    requires
        s.review_proposal(operation, input, request, fresh) == MemoryResult::Ok((after, receipt)),
        !s.operations.contains_key(operation.id),
    ensures
        tells(
            s,
            after,
            fresh.ids[0],
            operation,
            AuditAction::ProposalReviewed,
            seq![RecordRef::Proposal(input.proposal_id), RecordRef::ProposalReview(receipt.review_case_id)],
            Seq::empty(),
            None,
            fresh.recorded_at_ms,
        ),
{
    reveal(StoreModel::replay);
    broadcast use crate::writing::put_audit;

    reveal(sound_review);
    reveal(StoreModel::reviewable);
}

/// A retraction, with what it left unsupported, is on the audit trail.
pub proof fn retractions_are_on_the_trail(
    s: StoreModel,
    operation: OperationContext,
    record: RecordRef,
    expected_revision: u64,
    request: Seq<u8>,
    fresh: FreshModel,
    after: StoreModel,
    receipt: RetractionReceiptModel,
)
    requires
        s.retract(operation, record, expected_revision, request, fresh) == MemoryResult::Ok((after, receipt)),
        !s.operations.contains_key(operation.id),
    ensures
        tells(
            s,
            after,
            fresh.ids[0],
            operation,
            AuditAction::RecordRetracted,
            seq![record] + Seq::new(receipt.invalidated.len(), |i: int| receipt.invalidated[i].record),
            Seq::empty(),
            None,
            fresh.recorded_at_ms,
        ),
{
    reveal(StoreModel::replay);
    broadcast use crate::writing::put_audit;

}

/// A proposal of a new source job is on the audit trail.
pub proof fn submissions_are_on_the_trail(
    s: StoreModel,
    operation: OperationContext,
    input: NewProposalBundleModel,
    request: Seq<u8>,
    fresh: FreshModel,
    after: StoreModel,
    receipt: ProposalReceipt,
)
    requires
        s.submit_proposal(operation, input, request, fresh) == MemoryResult::Ok((after, receipt)),
        !s.operations.contains_key(operation.id),
        !s.proposal_sources.contains_key(input.source_job_id),
    ensures
        tells(
            s,
            after,
            fresh.ids[0],
            operation,
            AuditAction::ProposalSubmitted,
            seq![RecordRef::Proposal(receipt.id)],
            Seq::empty(),
            None,
            fresh.recorded_at_ms,
        ),
{
    reveal(StoreModel::replay);
    broadcast use crate::writing::put_audit;

    bundles_are_heard(input, sound_bundle(input)->Ok_0);
}

/// A decision, with what was decided, on whose authority, and what it changed, is on the
/// audit trail.
pub proof fn decisions_are_on_the_trail(
    s: StoreModel,
    operation: OperationContext,
    input: ProposalAdjudication,
    request: Seq<u8>,
    fresh: FreshModel,
    after: StoreModel,
    receipt: ProposalAdjudicationReceiptModel,
    proposal: ProposalRecordModel,
    changes: Seq<ProposalChangeModel>,
)
    requires
        s.adjudicate_proposal(operation, input, request, fresh) == MemoryResult::Ok((after, receipt)),
        !s.operations.contains_key(operation.id),
        s.inspect_proposal(input.proposal_id) == Some(proposal),
        proposal.changes == Some(changes),
        s.is_kept(),
    ensures
        tells(
            s,
            after,
            fresh.ids[changes.len() as int],
            operation,
            AuditAction::ProposalAdjudicated,
            seq![RecordRef::Proposal(input.proposal_id)] + Seq::new(
                receipt.changed_records.len(),
                |i: int| receipt.changed_records[i].record,
            ),
            Seq::empty(),
            Some(AdjudicationAudit { decision: input.decision, authority: input.authority }),
            fresh.recorded_at_ms,
        ),
{
    reveal(StoreModel::replay);
    broadcast use crate::writing::put_audit;

    reveal(StoreModel::adjudicable);
    reveal(StoreModel::stale_acknowledged);
    reveal(StoreModel::accepted);
    reveal(StoreModel::closed);
    reveal(StoreModel::applied);
    proposals_name_themselves(s, input.proposal_id);
    let told = Seq::new(receipt.changed_records.len(), |i: int| receipt.changed_records[i].record);
    let first = seq![RecordRef::Proposal(input.proposal_id)];
    assert(records_of(receipt.changed_records) =~= told);
    if receipt.changed_records.len() == 0 {
        assert(first + told =~= first);
    }
}

/// A committed purge, with everything that it reached, is on the audit trail.
pub proof fn purges_are_on_the_trail(
    s: StoreModel,
    operation: OperationContext,
    preview: PurgePreviewModel,
    request: Seq<u8>,
    now_ms: i64,
    fresh: FreshModel,
    after: StoreModel,
    receipt: PurgeReceiptModel,
)
    requires
        s.commit_purge(operation, preview, request, now_ms, fresh) == MemoryResult::Ok((after, receipt)),
        !s.operations.contains_key(operation.id),
    ensures
        tells(
            s,
            after,
            fresh.ids[0],
            operation,
            AuditAction::PurgeCommitted,
            seq![preview.target] + Seq::new(preview.invalidations.len(), |i: int| preview.invalidations[i].record),
            silenced(receipt.purged_relation_signals, receipt.purged_activation_traces),
            None,
            fresh.recorded_at_ms,
        ),
{
    reveal(StoreModel::replay);
    broadcast use crate::writing::put_audit;

    reveal(StoreModel::purged);
    assert(purge_records(preview.target, preview.invalidations) =~= seq![preview.target] + Seq::new(
        preview.invalidations.len(),
        |i: int| preview.invalidations[i].record,
    ));
    assert(derived_refs(receipt.purged_relation_signals, receipt.purged_activation_traces) =~= silenced(
        receipt.purged_relation_signals,
        receipt.purged_activation_traces,
    ));
}

proof fn ranks_go_by_time(a: AuditKey, b: AuditKey)
    requires
        a.rank() < b.rank(),
    ensures
        a.recorded_at_ms < b.recorded_at_ms || (a.recorded_at_ms == b.recorded_at_ms && a.id.0.0 < b.id.0.0),
{
    let span = id_span();
    let x = time_rank(a.recorded_at_ms);
    let y = time_rank(b.recorded_at_ms);
    assert(0 <= a.id.0.0 < span && 0 <= b.id.0.0 < span);
    if x > y {
        assert(x * span >= y * span + span) by (nonlinear_arith)
            requires
                x >= y + 1,
                span > 0,
        ;
    }
}

/// Whether an event is on the trail before the place of another one: it is of an earlier
/// instant, or of the same one and has the smaller number.
pub open spec fn is_earlier(s: StoreModel, event: AuditEventModel, key: AuditKey) -> bool {
    exists|earlier: AuditKey| #[trigger]
        s.audit.contains_key(earlier) && s.audit[earlier] == event && (earlier.recorded_at_ms < key.recorded_at_ms || (
        earlier.recorded_at_ms == key.recorded_at_ms && earlier.id.0.0 < key.id.0.0))
}

/// The trail is shown from its beginning, in the order of its events, and no more of it
/// than was asked for: an event that is shown comes before every one that is not.
pub proof fn trails_are_shown_in_order(s: StoreModel, limit: usize, key: AuditKey)
    requires
        s.audit.dom().finite(),
        s.audit.contains_key(key),
    ensures
        s.audit_trail(limit).len() <= limit,
        s.audit_trail(limit).len() < limit ==> s.audit_trail(limit).contains(s.audit[key]),
        s.audit_trail(limit).contains(s.audit[key]) || (s.audit_trail(limit).len() == limit && forall|i: int|
            0 <= i < limit ==> is_earlier(s, #[trigger] s.audit_trail(limit)[i], key)),
{
    in_order_lists(s.audit.dom());
    let keys = in_order(s.audit.dom());
    let trail = s.audit_trail(limit);
    assert(keys.contains(key));
    let at = keys.index_of(key);
    assert(keys[at] == key);
    if at < trail.len() {
        assert(trail[at] == s.audit[key]);
    } else {
        assert(trail.len() == limit);
        assert forall|i: int| 0 <= i < limit implies is_earlier(s, #[trigger] trail[i], key) by {
            assert(keys.contains(keys[i]));
            assert(keys[i].rank() < keys[at].rank());
            ranks_go_by_time(keys[i], key);
            assert(s.audit.contains_key(keys[i]));
            assert(s.audit[keys[i]] == trail[i]);
        }
    }
}

} // verus!
