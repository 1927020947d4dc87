//! What proposals, reviews and definitions leave in a store.
use vstd::prelude::*;
use crate::adjudication::evidence_named;
use crate::applying::{Application, AppliedModel, drafted, spared_by};
use crate::bundles::{MAX_PROPOSAL_ENCODED_BYTES, sound_bundle};
use crate::clock::FreshModel;
use crate::context::OperationContext;
use crate::definitions::revision_after;
use crate::digest::mutation_digest_of;
use crate::fault::{InputFault, MemoryResult, invalid};
use crate::ids::{
    ArtifactPassageId, ArtifactSnapshotId, EvidenceId, ProposalDraftId, ProposalId, Ulid,
};
use crate::inspect::{lookup, revision_of};
use crate::proceeding::proposals_name_themselves;
use crate::readback::{indexing_aside, same_but_indexes, support_aside};
use crate::records::artifact::{
    ArtifactCollectionReceipt, ArtifactPassageBatchReceiptModel, ArtifactSnapshotHeader,
    NewArtifactCollectionModel, NewArtifactPassageBatchModel, NewArtifactPassageModel,
};
use crate::records::audit::PurgeDependency;
use crate::records::evidence::{
    Actor, EvidenceClass, RecordRef, RecordState, RevisionSelector, Scope,
};
use crate::records::proposal::{
    AppliedRecord, NewProposalBundleModel, NewProposalReviewModel, NewRecallFeedback,
    ProposalAdjudication, ProposalAdjudicationReceiptModel, ProposalChangeModel, ProposalReceipt,
    ProposalRecordModel, ProposalReviewPointer, ProposalReviewReceipt, ProposalRevisionHeader,
    ProposalStatus, RecallFeedback,
};
use crate::records::relation::{
    NewRelationEvaluatorRevisionModel, NewRelationProfileRevisionModel, RelationEvaluatorReceipt,
    RelationProfileAvailability, RelationProfileReceipt,
};
use crate::reviews::{sound_review, status_after};
use crate::staging::awaits_adjudication;
use crate::store::{StoreModel, WriteModel};

verus! {

pub broadcast proof fn resting_aside(s: StoreModel, sources: Seq<RecordRef>, dependent: RecordRef, n: nat)
    ensures
        same_but_indexes(s, #[trigger] s.rests_on(sources, dependent, n)),
    decreases n,
{
    reveal(StoreModel::put);
    if n > 0 {
        resting_aside(s, sources, dependent, (n - 1) as nat);
    }
}

broadcast proof fn withdrawn_postings_aside(s: StoreModel, record: RecordRef, hashes: Seq<[u8; 32]>, n: nat)
    ensures
        same_but_indexes(s, #[trigger] s.without_postings(record, hashes, n)),
    decreases n,
{
    reveal(StoreModel::put);
    if n > 0 {
        withdrawn_postings_aside(s, record, hashes, (n - 1) as nat);
    }
}

broadcast proof fn unindexing_aside(s: StoreModel, committed: StoreModel, record: RecordRef)
    ensures
        same_but_indexes(s, #[trigger] s.unindexed(committed, record)),
{
    broadcast use withdrawn_postings_aside;

    reveal(StoreModel::put);
    reveal(StoreModel::unindexed);
}

/// A proposal reads back as it was submitted, in its normal form: pending, active, at its
/// first revision, listed for review and found by its source job.
pub proof fn submitted_proposals_read_back(
    s: StoreModel,
    operation: OperationContext,
    input: NewProposalBundleModel,
    request: Seq<u8>,
    fresh: FreshModel,
    after: StoreModel,
    receipt: ProposalReceipt,
    bundle: NewProposalBundleModel,
)
    requires
        s.submit_proposal(operation, input, request, fresh) == MemoryResult::Ok((after, receipt)),
        !s.operations.contains_key(operation.id),
        sound_bundle(input) == MemoryResult::Ok(bundle),
        !s.proposal_sources.contains_key(bundle.source_job_id),
    ensures
        after.inspect_proposal(receipt.id) == Some(
            ProposalRecordModel {
                header: ProposalRevisionHeader {
                    id: receipt.id,
                    revision: 1,
                    previous_revision: None,
                    source_job_id: bundle.source_job_id,
                    scope: bundle.scope,
                    status: ProposalStatus::PendingReview,
                    state: RecordState::Active,
                    recorded_at_ms: fresh.recorded_at_ms,
                    operation_id: operation.id,
                },
                source_evidence: bundle.source_evidence,
                changes: Some(bundle.changes),
            },
        ),
        after.pending_proposals.contains_key(receipt.id),
        after.proposal_sources.contains_key(bundle.source_job_id),
        after.proposal_sources[bundle.source_job_id].proposal_id == receipt.id,
{
    broadcast use resting_aside;

    reveal(StoreModel::replay);
    broadcast use crate::writing::parts_after_put;
    reveal(StoreModel::with_proposal);
    reveal(StoreModel::inspect_proposal);
    reveal(StoreModel::proposal_at);
}

/// A source job proposes once: submitted again under another operation, its bundle leads to
/// no second proposal, and nothing but the operation is new.
pub proof fn source_jobs_propose_once(
    s: StoreModel,
    operation: OperationContext,
    input: NewProposalBundleModel,
    request: Seq<u8>,
    fresh: FreshModel,
    after: StoreModel,
    receipt: ProposalReceipt,
    bundle: NewProposalBundleModel,
)
    requires
        s.submit_proposal(operation, input, request, fresh) == MemoryResult::Ok((after, receipt)),
        !s.operations.contains_key(operation.id),
        sound_bundle(input) == MemoryResult::Ok(bundle),
        s.proposal_sources.contains_key(bundle.source_job_id),
    ensures
        after == (StoreModel { operations: after.operations, ..s }),
        match s.inspect_proposal(s.proposal_sources[bundle.source_job_id].proposal_id) {
            Some(proposal) => receipt.id == proposal.header.id && receipt.revision == proposal.header.revision
                && receipt.status == proposal.header.status,
            None => false,
        },
{
    reveal(StoreModel::replay);
    reveal(StoreModel::put);
}

/// A source job proposes one bundle. What it proposed first is pending, at its first
/// revision; proposed again under another operation, it is answered with the same proposal,
/// and nothing is added; another bundle of the job, told apart by its digest, is refused.
/// No claim, entity or relation comes of any of this.
pub proof fn source_jobs_propose_one_bundle(
    s: StoreModel,
    actor: Actor,
    first: OperationContext,
    input: NewProposalBundleModel,
    request: Seq<u8>,
    fresh: FreshModel,
    after: StoreModel,
    receipt: ProposalReceipt,
    bundle: NewProposalBundleModel,
    second: OperationContext,
    again: FreshModel,
    third: OperationContext,
    other: NewProposalBundleModel,
    other_request: Seq<u8>,
    more: FreshModel,
    other_bundle: NewProposalBundleModel,
)
    requires
        s.submit_proposal(first, input, request, fresh) == MemoryResult::Ok((after, receipt)),
        !s.operations.contains_key(first.id),
        sound_bundle(input) == MemoryResult::Ok(bundle),
        !s.proposal_sources.contains_key(bundle.source_job_id),
        first.actor == actor && second.actor == actor && third.actor == actor,
        !s.operations.contains_key(second.id) && !s.operations.contains_key(third.id),
        first.id != second.id && first.id != third.id && second.id != third.id,
        sound_bundle(other) == MemoryResult::Ok(other_bundle),
        other_bundle.source_job_id == bundle.source_job_id,
        other_request.len() <= MAX_PROPOSAL_ENCODED_BYTES,
        mutation_digest_of(s.digest_key@, "submit_proposal"@, actor, other_request) != mutation_digest_of(
            s.digest_key@,
            "submit_proposal"@,
            actor,
            request,
        ),
    ensures
        receipt.status == ProposalStatus::PendingReview,
        receipt.revision == 1,
        after.claims == s.claims && after.entities == s.entities && after.relations == s.relations,
        match after.submit_proposal(second, input, request, again) {
            Ok((repeated, answer)) => {
                &&& answer == receipt
                &&& repeated == (StoreModel { operations: repeated.operations, ..after })
                &&& repeated.submit_proposal(third, other, other_request, more) == invalid::<(StoreModel, ProposalReceipt)>(
                    InputFault::SourceJobReused(bundle.source_job_id),
                )
            },
            Err(_) => false,
        },
        after.submit_proposal(third, other, other_request, more) == invalid::<(StoreModel, ProposalReceipt)>(
            InputFault::SourceJobReused(bundle.source_job_id),
        ),
{
    broadcast use resting_aside;

    submitted_proposals_read_back(s, first, input, request, fresh, after, receipt, bundle);
    reveal(StoreModel::replay);
    reveal(StoreModel::put);
    reveal(StoreModel::with_proposal);
    reveal(StoreModel::inspect_proposal);
    reveal(StoreModel::proposal_at);
}

/// What is found of a proposal reads back as it was given and is the latest on it. The
/// proposal has the status that follows: it is pending no more, and awaits a decision if one
/// is due.
pub proof fn reviews_read_back(
    s: StoreModel,
    operation: OperationContext,
    input: NewProposalReviewModel,
    request: Seq<u8>,
    fresh: FreshModel,
    after: StoreModel,
    receipt: ProposalReviewReceipt,
    review: NewProposalReviewModel,
)
    requires
        s.review_proposal(operation, input, request, fresh) == MemoryResult::Ok((after, receipt)),
        !s.operations.contains_key(operation.id),
        sound_review(input) == MemoryResult::Ok(review),
        s.is_kept(),
    ensures
        match after.inspect_proposal_review(receipt.review_case_id) {
            Some(found) => {
                &&& found.findings == Some(review.findings)
                &&& found.header.revision == 1
                &&& found.header.state == RecordState::Active
                &&& found.header.proposal_id == input.proposal_id
                &&& found.header.proposal_revision == input.proposal_revision
                &&& found.header.recall_case_id == input.recall_case_id
                &&& found.header.verdict == input.verdict
            },
            None => false,
        },
        lookup(after.latest_proposal_review, input.proposal_id) == Some(
            ProposalReviewPointer { review_case_id: receipt.review_case_id, revision: 1 },
        ),
        match after.inspect_proposal(input.proposal_id) {
            Some(found) => found.header.status == status_after(input.verdict) && found.header.revision
                == input.proposal_revision + 1,
            None => false,
        },
        !after.pending_proposals.contains_key(input.proposal_id),
        after.awaiting_adjudication.contains_key(input.proposal_id) == awaits_adjudication(
            status_after(input.verdict),
        ),
{
    broadcast use resting_aside;

    reveal(StoreModel::replay);
    reveal(sound_review);
    reveal(StoreModel::reviewable);
    let (proposal, _) = s.reviewable(review)->Ok_0;
    assert(s.inspect_proposal(input.proposal_id) == Some(proposal));
    proposals_name_themselves(s, input.proposal_id);
    assert(s.lists_rightly(input.proposal_id)) by {
        reveal(StoreModel::lists_hold);
    }
    broadcast use crate::writing::parts_after_put;
    reveal(StoreModel::with_review);
    reveal(StoreModel::inspect_proposal);
    reveal(StoreModel::proposal_at);
    reveal(StoreModel::inspect_proposal_review);
    reveal(StoreModel::review_at);
}

/// Whether no proposal waits for a decision that did not before.
spec fn none_joins(a: StoreModel, b: StoreModel) -> bool {
    forall|id: ProposalId| #[trigger]
        b.awaiting_adjudication.contains_key(id) ==> a.awaiting_adjudication.contains_key(id)
}

proof fn none_joins_moving(
    committed: StoreModel,
    before: AppliedModel,
    record: RecordRef,
    expected_revision: u64,
    state: RecordState,
    at: Application,
)
    requires
        before.moved(committed, record, expected_revision, state, at) is Ok,
    ensures
        none_joins(before.store, before.moved(committed, record, expected_revision, state, at)->Ok_0.store),
{
    broadcast use unindexing_aside;

    reveal(AppliedModel::moved);
    reveal(StoreModel::appended);
    reveal(StoreModel::next_revision);
    reveal(StoreModel::unlisted_proposal);
    broadcast use crate::writing::parts_after_put;
}

proof fn none_joins_undermining(
    committed: StoreModel,
    start: AppliedModel,
    dependencies: Seq<PurgeDependency>,
    spared: Set<RecordRef>,
    at: Application,
    n: nat,
)
    requires
        start.undermined(committed, dependencies, spared, at, n) is Ok,
    ensures
        none_joins(start.store, start.undermined(committed, dependencies, spared, at, n)->Ok_0.store),
    decreases n,
{
    if n > 0 {
        none_joins_undermining(committed, start, dependencies, spared, at, (n - 1) as nat);
        let before = start.undermined(committed, dependencies, spared, at, (n - 1) as nat)->Ok_0;
        let dependency = dependencies[n - 1];
        if !(spared.contains(dependency.record) || before.seen.contains(dependency.record)) {
            none_joins_moving(
                committed,
                AppliedModel { seen: before.seen.insert(dependency.record), ..before },
                dependency.record,
                dependency.expected_revision,
                RecordState::Unsupported,
                at,
            );
        }
    }
}

proof fn none_joins_creating(
    start: AppliedModel,
    changes: Seq<ProposalChangeModel>,
    ids: Seq<Ulid>,
    at: Application,
    n: nat,
)
    ensures
        none_joins(start.store, start.created(changes, ids, at, n).store),
    decreases n,
{
    broadcast use {indexing_aside, support_aside};

    if n > 0 {
        none_joins_creating(start, changes, ids, at, (n - 1) as nat);
        reveal(AppliedModel::creating);
        reveal(StoreModel::with_claim);
        reveal(StoreModel::with_entity);
        broadcast use crate::writing::parts_after_put;
    }
}

proof fn none_joins_relating(
    start: AppliedModel,
    changes: Seq<ProposalChangeModel>,
    ids: Seq<Ulid>,
    drafts: Map<ProposalDraftId, AppliedRecord>,
    at: Application,
    n: nat,
)
    requires
        start.related(changes, ids, drafts, at, n) is Ok,
    ensures
        none_joins(start.store, start.related(changes, ids, drafts, at, n)->Ok_0.store),
    decreases n,
{
    broadcast use support_aside;

    if n > 0 {
        none_joins_relating(start, changes, ids, drafts, at, (n - 1) as nat);
        reveal(AppliedModel::relating);
        reveal(StoreModel::with_relation);
        broadcast use crate::writing::parts_after_put;
    }
}

proof fn none_joins_mutating(
    committed: StoreModel,
    start: AppliedModel,
    changes: Seq<ProposalChangeModel>,
    ids: Seq<Ulid>,
    drafts: Map<ProposalDraftId, AppliedRecord>,
    sources: Seq<EvidenceId>,
    spared: Set<RecordRef>,
    at: Application,
    n: nat,
)
    requires
        start.mutated(committed, changes, ids, drafts, sources, spared, at, n) is Ok,
    ensures
        none_joins(
            start.store,
            start.mutated(committed, changes, ids, drafts, sources, spared, at, n)->Ok_0.store,
        ),
    decreases n,
{
    if n > 0 {
        none_joins_mutating(committed, start, changes, ids, drafts, sources, spared, at, (n - 1) as nat);
        let before = start.mutated(committed, changes, ids, drafts, sources, spared, at, (n - 1) as nat)->Ok_0;
        reveal(AppliedModel::mutating);
        match changes[n - 1] {
            ProposalChangeModel::Retract { target } => {
                let state = RecordState::Retracted;
                let dependencies = committed.dependency_closure(target.record, false)->Ok_0;
                none_joins_moving(committed, before, target.record, target.revision, state, at);
                let moved = before.moved(committed, target.record, target.revision, state, at)->Ok_0;
                none_joins_undermining(committed, moved, dependencies, spared, at, dependencies.len());
            },
            ProposalChangeModel::Supersede { target, replacement } => {
                let state = RecordState::Superseded;
                let dependencies = committed.dependency_closure(target.record, false)->Ok_0;
                none_joins_moving(committed, before, target.record, target.revision, state, at);
                let moved = before.moved(committed, target.record, target.revision, state, at)->Ok_0;
                let linked = moved.superseding(replacement, target.record, ids[n - 1], drafts, sources, at)->Ok_0;
                assert(none_joins(moved.store, linked.store)) by {
                    broadcast use support_aside;

                    reveal(AppliedModel::superseding);
                    reveal(StoreModel::with_relation);
                    broadcast use crate::writing::parts_after_put;
                }
                none_joins_undermining(committed, linked, dependencies, spared, at, dependencies.len());
            },
            _ => {},
        }
    }
}

/// A proposal that was decided waits for no decision.
pub proof fn decided_proposals_wait_no_more(
    s: StoreModel,
    operation: OperationContext,
    input: ProposalAdjudication,
    request: Seq<u8>,
    fresh: FreshModel,
    after: StoreModel,
    receipt: ProposalAdjudicationReceiptModel,
)
    requires
        s.adjudicate_proposal(operation, input, request, fresh) == MemoryResult::Ok((after, receipt)),
        !s.operations.contains_key(operation.id),
        s.is_kept(),
    ensures
        !after.awaiting_adjudication.contains_key(input.proposal_id),
{
    reveal(StoreModel::replay);
    reveal(StoreModel::adjudicable);
    reveal(StoreModel::accepted);
    reveal(StoreModel::closed);
    reveal(StoreModel::stale_acknowledged);
    let (proposal, changes) = s.adjudicable(input)->Ok_0;
    assert(s.inspect_proposal(input.proposal_id) == Some(proposal));
    proposals_name_themselves(s, input.proposal_id);
    let digest = mutation_digest_of(s.digest_key@, "adjudicate_proposal"@, operation.actor, request);
    if s.applied(operation, input, digest, proposal, changes, fresh) == MemoryResult::Ok((after, receipt)) {
        reveal(StoreModel::applied);
        reveal(StoreModel::changes_applied);
        let ids = fresh.ids;
        let at = Application {
            scope: proposal.header.scope,
            operation_id: operation.id,
            recorded_at_ms: fresh.recorded_at_ms,
        };
        let drafts = drafted(changes, ids, changes.len());
        let sources = evidence_named(proposal.source_evidence);
        let spared = spared_by(input.proposal_id, input.review_case_id, changes);
        let start = AppliedModel {
            store: s.put(WriteModel::DropAwaiting(proposal.header.id)),
            revisions: Seq::empty(),
            seen: Set::empty(),
        };
        none_joins_creating(start, changes, ids, at, changes.len());
        let created = start.created(changes, ids, at, changes.len());
        none_joins_relating(created, changes, ids, drafts, at, changes.len());
        let related = created.related(changes, ids, drafts, at, changes.len())->Ok_0;
        none_joins_mutating(s, related, changes, ids, drafts, sources, spared, at, changes.len());
        let done = related.mutated(s, changes, ids, drafts, sources, spared, at, changes.len())->Ok_0;
        assert(!start.store.awaiting_adjudication.contains_key(input.proposal_id)) by {
            broadcast use crate::writing::parts_after_put;
        }
        assert(!done.store.awaiting_adjudication.contains_key(input.proposal_id));
        assert(after.awaiting_adjudication == done.store.awaiting_adjudication) by {
            broadcast use crate::writing::parts_after_put;
        }
    } else {
        broadcast use crate::writing::parts_after_put;
    }
}

/// An evaluator reads back as it was put, its dimensions in order, at the revision after the
/// one it had.
pub proof fn put_evaluators_read_back(
    s: StoreModel,
    operation: OperationContext,
    input: NewRelationEvaluatorRevisionModel,
    request: Seq<u8>,
    fresh: FreshModel,
    after: StoreModel,
    receipt: RelationEvaluatorReceipt,
    wanted: NewRelationEvaluatorRevisionModel,
)
    requires
        s.put_relation_evaluator(operation, input, request, fresh) == MemoryResult::Ok((after, receipt)),
        !s.operations.contains_key(operation.id),
        StoreModel::evaluator_request(operation.actor, input) == MemoryResult::Ok(wanted),
    ensures
        match after.evaluator_at(receipt.pin.id, RevisionSelector::Head) {
            Some(found) => {
                &&& receipt.pin.id == wanted.id
                &&& found.revision == receipt.pin.revision
                &&& Some(found.revision) == revision_after(lookup(s.relation_evaluator_heads, wanted.id))
                &&& found.dimensions == wanted.dimensions
                &&& found.kind == wanted.kind
                &&& found.schema_version == wanted.schema_version
                &&& found.provenance_digest == wanted.provenance_digest
                &&& found.state == RecordState::Active
            },
            None => false,
        },
{
    reveal(StoreModel::replay);
    broadcast use crate::writing::parts_after_put;
    reveal(StoreModel::evaluator_at);
}

/// A profile reads back as it was put, its weights in order, available, at the revision
/// after the one it had.
pub proof fn put_profiles_read_back(
    s: StoreModel,
    operation: OperationContext,
    input: NewRelationProfileRevisionModel,
    request: Seq<u8>,
    fresh: FreshModel,
    after: StoreModel,
    receipt: RelationProfileReceipt,
    wanted: NewRelationProfileRevisionModel,
)
    requires
        s.put_relation_profile(operation, input, request, fresh) == MemoryResult::Ok((after, receipt)),
        !s.operations.contains_key(operation.id),
        StoreModel::profile_request(operation.actor, input) == MemoryResult::Ok(wanted),
    ensures
        match after.profile_at(receipt.pin.id, RevisionSelector::Head) {
            Some(found) => {
                &&& receipt.pin.id == wanted.id
                &&& found.header.revision == receipt.pin.revision
                &&& Some(found.header.revision) == revision_after(lookup(s.relation_profile_heads, wanted.id))
                &&& found.header.evaluator == wanted.evaluator
                &&& found.header.heads == wanted.heads
                &&& found.header.provenance_digest == wanted.provenance_digest
                &&& found.header.state == RecordState::Active
                &&& found.availability == RelationProfileAvailability::Available
            },
            None => false,
        },
{
    reveal(StoreModel::replay);
    broadcast use crate::writing::parts_after_put;
    reveal(StoreModel::profile_at);
    reveal(StoreModel::profile_availability);
    reveal(StoreModel::evaluator_at);
    reveal(StoreModel::profile_evaluator_fault);
}

/// Feedback reads back as it was recorded.
pub proof fn recorded_feedback_reads_back(
    s: StoreModel,
    operation: OperationContext,
    input: NewRecallFeedback,
    request: Seq<u8>,
    fresh: FreshModel,
    after: StoreModel,
    feedback: RecallFeedback,
)
    requires
        s.record_recall_feedback(operation, input, request, fresh) == MemoryResult::Ok((after, feedback)),
        !s.operations.contains_key(operation.id),
    ensures
        lookup(after.recall_feedback, feedback.id) == Some(feedback),
        feedback.recall_case_id == input.recall_case_id,
        feedback.recall_case_revision == input.recall_case_revision,
        feedback.candidate == input.candidate,
        feedback.kind == input.kind,
        feedback.actor == operation.actor,
{
    reveal(StoreModel::replay);
    broadcast use crate::writing::parts_after_put;
}

/// A collection reads back as it was created: its label to the letter, active, at its first
/// revision, in a scope of its own.
pub proof fn created_collections_read_back(
    s: StoreModel,
    operation: OperationContext,
    input: NewArtifactCollectionModel,
    request: Seq<u8>,
    fresh: FreshModel,
    after: StoreModel,
    receipt: ArtifactCollectionReceipt,
)
    requires
        s.create_artifact_collection(operation, input, request, fresh) == MemoryResult::Ok((after, receipt)),
        !s.operations.contains_key(operation.id),
    ensures
        match after.inspect_artifact_collection(receipt.id) {
            Ok(Some(found)) => {
                &&& found.label == Some(input.label)
                &&& found.header.scope == Scope::Artifact(receipt.id.0)
                &&& found.header.created_by == operation.actor
                &&& found.availability.state == RecordState::Active
                &&& found.availability.revision == 1
            },
            _ => false,
        },
{
    reveal(StoreModel::replay);
    broadcast use crate::writing::parts_after_put;
    reveal(StoreModel::inspect_artifact_collection);
    reveal(StoreModel::collection_at);
    reveal(StoreModel::text_unless_purged);
}

/// Whether a passage and its evidence are filed as they were given.
spec fn passage_filed(
    s: StoreModel,
    snapshot_id: ArtifactSnapshotId,
    passages: Seq<NewArtifactPassageModel>,
    fresh: FreshModel,
    i: int,
) -> bool {
    let id = ArtifactPassageId(fresh.ids[2 * i + 1]);
    let evidence_id = EvidenceId(fresh.ids[2 * i + 2]);
    let record = RecordRef::ArtifactPassage(id);
    let source = RecordRef::Evidence(evidence_id);
    &&& s.artifact_passages.contains_key(id)
    &&& s.artifact_passages[id].locator == passages[i].locator
    &&& s.artifact_passages[id].snapshot_id == snapshot_id
    &&& s.artifact_passages[id].evidence_id == evidence_id
    &&& s.artifact_passage_availability.contains_key(revision_of(id.0, 1))
    &&& s.artifact_passage_availability[revision_of(id.0, 1)].state == RecordState::Active
    &&& s.artifact_passage_availability[revision_of(id.0, 1)].revision == 1
    &&& lookup(s.heads, record) == Some(1u64)
    &&& lookup(s.texts, record) == Some(passages[i].text)
    &&& s.evidence.contains_key(evidence_id)
    &&& s.evidence[evidence_id].class == EvidenceClass::ArtifactPassage
    &&& s.evidence_availability.contains_key(revision_of(evidence_id.0, 1))
    &&& s.evidence_availability[revision_of(evidence_id.0, 1)].state == RecordState::Active
    &&& lookup(s.heads, source) == Some(1u64)
    &&& lookup(s.texts, source) == Some(passages[i].text)
}

/// Whether identifiers differ.
pub open spec fn all_differ(ids: Seq<Ulid>) -> bool {
    forall|i: int, j: int| 0 <= i < j < ids.len() ==> ids[i] != ids[j]
}

proof fn passages_are_filed(
    s: StoreModel,
    operation: OperationContext,
    snapshot: ArtifactSnapshotHeader,
    passages: Seq<NewArtifactPassageModel>,
    fresh: FreshModel,
    n: nat,
)
    requires
        n <= passages.len(),
        fresh.ids.len() == 2 * passages.len() + 1,
        all_differ(fresh.ids),
    ensures
        forall|i: int|
            0 <= i < n ==> #[trigger] passage_filed(
                s.with_passages(operation, snapshot, passages, fresh, n),
                snapshot.id,
                passages,
                fresh,
                i,
            ),
    decreases n,
{
    if n > 0 {
        passages_are_filed(s, operation, snapshot, passages, fresh, (n - 1) as nat);
        let before = s.with_passages(operation, snapshot, passages, fresh, (n - 1) as nat);
        let after = s.with_passages(operation, snapshot, passages, fresh, n);
        assert forall|i: int| 0 <= i < n implies #[trigger] passage_filed(after, snapshot.id, passages, fresh, i) by {
            broadcast use indexing_aside;

            broadcast use crate::writing::parts_after_put;
            reveal(StoreModel::with_evidence);
            if i < n - 1 {
                assert(passage_filed(before, snapshot.id, passages, fresh, i));
                assert(fresh.ids[2 * i + 1] != fresh.ids[2 * n - 1]);
                assert(fresh.ids[2 * i + 2] != fresh.ids[2 * n as int]);
            }
        }
    }
}

/// Passages read back as they were given: text and place to the letter, active, at their
/// first revision, each with evidence of the same text.
pub proof fn created_passages_read_back(
    s: StoreModel,
    operation: OperationContext,
    input: NewArtifactPassageBatchModel,
    request: Seq<u8>,
    fresh: FreshModel,
    after: StoreModel,
    receipt: ArtifactPassageBatchReceiptModel,
)
    requires
        s.create_artifact_passages(operation, input, request, fresh) == MemoryResult::Ok((after, receipt)),
        !s.operations.contains_key(operation.id),
        fresh.ids.len() == 2 * input.passages.len() + 1,
        all_differ(fresh.ids),
    ensures
        receipt.passages.len() == input.passages.len(),
        forall|i: int|
            0 <= i < receipt.passages.len() ==> match after.inspect_artifact_passage(
                (#[trigger] receipt.passages[i]).id,
            ) {
                Ok(Some(found)) => {
                    &&& found.text == Some(input.passages[i].text)
                    &&& found.header.locator == input.passages[i].locator
                    &&& found.header.snapshot_id == input.snapshot_id
                    &&& found.header.evidence_id == receipt.passages[i].evidence.id
                    &&& found.availability.state == RecordState::Active
                    &&& found.availability.revision == 1
                },
                _ => false,
            },
        forall|i: int|
            0 <= i < receipt.passages.len() ==> match after.inspect_evidence(
                (#[trigger] receipt.passages[i]).evidence.id,
            ) {
                Ok(Some(found)) => found.text == Some(input.passages[i].text) && found.header.class
                    == EvidenceClass::ArtifactPassage && found.availability.state == RecordState::Active,
                _ => false,
            },
{
    reveal(StoreModel::replay);
    let found = s.open_snapshot(input.snapshot_id, input.expected_snapshot_revision)->Ok_0;
    let snapshot = ArtifactSnapshotHeader { id: input.snapshot_id, ..found };
    let n = input.passages.len();
    let filed = s.with_passages(operation, snapshot, input.passages, fresh, n);
    passages_are_filed(s, operation, snapshot, input.passages, fresh, n);
    assert forall|i: int| 0 <= i < n implies #[trigger] passage_filed(
        after,
        input.snapshot_id,
        input.passages,
        fresh,
        i,
    ) by {
        assert(passage_filed(filed, snapshot.id, input.passages, fresh, i));
        broadcast use crate::writing::parts_after_put;
    }
    reveal(StoreModel::inspect_artifact_passage);
    reveal(StoreModel::passage_at);
    reveal(StoreModel::inspect_evidence);
    reveal(StoreModel::evidence_at);
    reveal(StoreModel::text_unless_purged);
    assert forall|i: int| 0 <= i < receipt.passages.len() implies match after.inspect_artifact_passage(
        (#[trigger] receipt.passages[i]).id,
    ) {
        Ok(Some(found)) => {
            &&& found.text == Some(input.passages[i].text)
            &&& found.header.locator == input.passages[i].locator
            &&& found.header.snapshot_id == input.snapshot_id
            &&& found.header.evidence_id == receipt.passages[i].evidence.id
            &&& found.availability.state == RecordState::Active
            &&& found.availability.revision == 1
        },
        _ => false,
    } by {
        assert(passage_filed(after, input.snapshot_id, input.passages, fresh, i));
    }
    assert forall|i: int| 0 <= i < receipt.passages.len() implies match after.inspect_evidence(
        (#[trigger] receipt.passages[i]).evidence.id,
    ) {
        Ok(Some(found)) => found.text == Some(input.passages[i].text) && found.header.class
            == EvidenceClass::ArtifactPassage && found.availability.state == RecordState::Active,
        _ => false,
    } by {
        assert(passage_filed(after, input.snapshot_id, input.passages, fresh, i));
    }
}

} // verus!
