//! That proposing, reviewing, deciding and purging keep what holds of every store, and what a
//! purge leaves to be read, however often it is asked for.
use vstd::prelude::*;
use crate::adjudication::evidence_named;
use crate::applying::{Application, AppliedModel, drafted, spared_by};
use crate::bundles::sound_bundle;
use crate::clock::FreshModel;
use crate::context::OperationContext;
use crate::derived::filed_under;
use crate::digest::mutation_digest_of;
use crate::enduring::{
    claims_go_on, entities_go_on, live_signals_are_not_bare, relations_go_on, silencing_goes_on,
    trace_erasing_goes_on,
};
use crate::fault::{MemoryResult, SignalIndex};
use crate::history::gone_payloads_do_not_read_at_any_revision;
use crate::ids::{
    ActivationTraceId, ClaimId, EntityId, EvidenceId, OperationId, ProposalDraftId, ProposalId,
    ProposalReviewCaseId, RelationId, RelationSignalId, Ulid,
};
use crate::inspect::revision_of;
use crate::keeping::{
    Course, course, courses_begin, courses_end, drawn_is_new, erasing_goes_on, lists_shrink,
    nothing_derived_returns, nothing_returns, purges_go_on, purges_stay, puts_go_on, records_stay,
    resting_goes_on, revisions_go_on, standing_records_are_there, unindexing_goes_on,
};
use crate::order::{in_order, in_order_lists};
use crate::proposals::greatest_first;
use crate::purge::{dependent_pins, derived_refs, purge_records, signal_dependents};
use crate::readback::purged_payloads_are_gone;
use crate::records::audit::{AuditAction, PurgeDependency, PurgePreviewModel, PurgeReceiptModel};
use crate::records::claim::InspectedRecordModel;
use crate::records::evidence::{RecordRef, RecordState, RevisionSelector};
use crate::records::proposal::{
    AppliedRecord, NewProposalBundleModel, NewProposalReviewModel, ProposalAdjudication,
    ProposalAdjudicationReceiptModel, ProposalChangeModel, ProposalDecision, ProposalReceipt,
    ProposalRecordModel, ProposalReviewCaseHeader, ProposalReviewReceipt, ProposalRevisionHeader,
    ProposalStatus,
};
use crate::records::receipt::{ReceiptModel, StoredOperationModel};
use crate::reviews::{restated, sound_review, status_after};
use crate::staging::awaits_adjudication;
use crate::store::{StoreModel, WriteModel};

verus! {

proof fn submissions_list(s: StoreModel, header: ProposalRevisionHeader)
    requires
        s.is_kept(),
        !s.heads.contains_key(RecordRef::Proposal(header.id)),
        header.revision == 1,
        header.previous_revision is None,
        header.state == RecordState::Active,
        header.status == ProposalStatus::PendingReview,
    ensures
        ({
            let listed = s.put(WriteModel::PutProposal(revision_of(header.id.0, 1), header)).put(
                WriteModel::PutHead(RecordRef::Proposal(header.id), 1),
            ).put(WriteModel::PutPending(header.id));
            (Course { start: s, lists: listed, aside: Set::empty() }).reaches(listed)
        }),
{
    let listed = s.put(WriteModel::PutProposal(revision_of(header.id.0, 1), header)).put(
        WriteModel::PutHead(RecordRef::Proposal(header.id), 1),
    ).put(WriteModel::PutPending(header.id));
    reveal(Course::reaches);
    assert(listed.names_hold()) by {
        broadcast use crate::writing::parts_after_put;
        reveal(StoreModel::names_hold);
    }
    assert(listed.traces_hold()) by {
        broadcast use crate::writing::parts_after_put;
        reveal(StoreModel::traces_hold);
    }
    assert forall|id: ProposalId| #[trigger] listed.lists_rightly(id) by {
        broadcast use crate::writing::parts_after_put;
        reveal(StoreModel::lists_hold);
        assert(s.lists_rightly(id));
    }
    assert(records_stay(s, listed) && purges_stay(s, listed) && nothing_returns(s, listed)) by {
        broadcast use crate::writing::parts_after_put;
        reveal(StoreModel::has_payload);
    }
}

/// Submitting a proposal keeps what holds of every store.
pub proof fn submissions_keep(
    s: StoreModel,
    operation: OperationContext,
    input: NewProposalBundleModel,
    request: Seq<u8>,
    fresh: FreshModel,
    after: StoreModel,
    receipt: ProposalReceipt,
)
    requires
        s.is_kept(),
        s.is_new(fresh),
        fresh.ids.len() > 1,
        s.submit_proposal(operation, input, request, fresh) == MemoryResult::Ok((after, receipt)),
    ensures
        after.is_kept(),
        nothing_returns(s, after),
{
    broadcast use {puts_go_on, resting_goes_on};

    let digest = mutation_digest_of(s.digest_key@, "submit_proposal"@, operation.actor, request);
    let bundle = sound_bundle(input)->Ok_0;
    if s.replay(operation.id, digest) == MemoryResult::Ok(None::<ReceiptModel>) && !s.proposal_sources.contains_key(
        bundle.source_job_id,
    ) {
        let id = ProposalId(fresh.ids[1]);
        drawn_is_new(s, fresh, 1, RecordRef::Proposal(id));
        let header = ProposalRevisionHeader {
            id,
            revision: 1,
            previous_revision: None,
            source_job_id: bundle.source_job_id,
            scope: bundle.scope,
            status: ProposalStatus::PendingReview,
            state: RecordState::Active,
            recorded_at_ms: fresh.recorded_at_ms,
            operation_id: operation.id,
        };
        submissions_list(s, header);
        let listed = s.put(WriteModel::PutProposal(revision_of(header.id.0, 1), header)).put(
            WriteModel::PutHead(RecordRef::Proposal(header.id), 1),
        ).put(WriteModel::PutPending(header.id));
        let way = Course { start: s, lists: listed, aside: Set::empty() };
        reveal(StoreModel::with_proposal);
        assert(way.reaches(after));
        courses_end(way, after);
    } else {
        courses_begin(s);
        assert(course(s).reaches(after));
        courses_end(course(s), after);
    }
}

/// The store right after what was found of a proposal is listed.
spec fn review_listed(s: StoreModel, next: ProposalRevisionHeader, review: ProposalReviewCaseHeader) -> StoreModel {
    let listed = s.put(WriteModel::PutProposal(revision_of(next.id.0, next.revision), next)).put(
        WriteModel::PutHead(RecordRef::Proposal(next.id), next.revision),
    ).put(WriteModel::PutReview(revision_of(review.id.0, 1), review)).put(
        WriteModel::PutHead(RecordRef::ProposalReview(review.id), 1),
    ).put(WriteModel::DropPending(next.id));
    if awaits_adjudication(next.status) {
        listed.put(WriteModel::PutAwaiting(next.id))
    } else {
        listed
    }
}

proof fn reviews_list(
    s: StoreModel,
    current: ProposalRevisionHeader,
    next: ProposalRevisionHeader,
    review: ProposalReviewCaseHeader,
)
    requires
        s.is_kept(),
        s.proposal_head(next.id) == Some(current),
        current.state == RecordState::Active,
        current.status == ProposalStatus::PendingReview,
        next.state == RecordState::Active,
        next.status != ProposalStatus::PendingReview,
        review.revision == 1,
    ensures
        (Course { start: s, lists: review_listed(s, next, review), aside: Set::empty() }).reaches(
            review_listed(s, next, review),
        ),
{
    let listed = review_listed(s, next, review);
    reveal(Course::reaches);
    assert(listed.names_hold()) by {
        broadcast use crate::writing::parts_after_put;
        reveal(StoreModel::names_hold);
    }
    assert(listed.traces_hold()) by {
        broadcast use crate::writing::parts_after_put;
        reveal(StoreModel::traces_hold);
    }
    assert forall|id: ProposalId| #[trigger] listed.lists_rightly(id) by {
        broadcast use crate::writing::parts_after_put;
        reveal(StoreModel::lists_hold);
        assert(s.lists_rightly(id));
    }
    assert(records_stay(s, listed) && purges_stay(s, listed) && nothing_returns(s, listed)) by {
        broadcast use crate::writing::parts_after_put;
        reveal(StoreModel::has_payload);
    }
}

/// Reviewing a proposal keeps what holds of every store.
pub proof fn reviews_keep(
    s: StoreModel,
    operation: OperationContext,
    input: NewProposalReviewModel,
    request: Seq<u8>,
    fresh: FreshModel,
    after: StoreModel,
    receipt: ProposalReviewReceipt,
)
    requires
        s.is_kept(),
        s.is_new(fresh),
        fresh.ids.len() > 1,
        s.review_proposal(operation, input, request, fresh) == MemoryResult::Ok((after, receipt)),
    ensures
        after.is_kept(),
        nothing_returns(s, after),
{
    broadcast use {puts_go_on, resting_goes_on};

    let digest = mutation_digest_of(s.digest_key@, "review_proposal"@, operation.actor, request);
    if s.replay(operation.id, digest) == MemoryResult::Ok(None::<ReceiptModel>) {
        let review = sound_review(input)->Ok_0;
        let (proposal, _) = s.reviewable(review)->Ok_0;
        let next = restated(
            proposal.header,
            status_after(review.verdict),
            operation.id,
            fresh.recorded_at_ms,
        )->Ok_0;
        let id = ProposalReviewCaseId(fresh.ids[1]);
        drawn_is_new(s, fresh, 1, RecordRef::ProposalReview(id));
        assert(s.inspect_proposal(review.proposal_id) == Some(proposal) && proposal.header.state == RecordState::Active
            && proposal.header.status == ProposalStatus::PendingReview) by {
            reveal(StoreModel::reviewable);
        }
        proposals_name_themselves(s, review.proposal_id);
        let header = ProposalReviewCaseHeader {
            id,
            revision: 1,
            previous_revision: None,
            proposal_id: review.proposal_id,
            proposal_revision: review.proposal_revision,
            recall_case_id: review.recall_case_id,
            recall_case_revision: review.recall_case_revision,
            verdict: review.verdict,
            scope: proposal.header.scope,
            state: RecordState::Active,
            recorded_at_ms: fresh.recorded_at_ms,
            operation_id: operation.id,
        };
        reviews_list(s, proposal.header, next, header);
        let way = Course { start: s, lists: review_listed(s, next, header), aside: Set::empty() };
        reveal(StoreModel::with_review);
        assert(way.reaches(after));
        courses_end(way, after);
    } else {
        courses_begin(s);
        courses_end(course(s), after);
    }
}

/// The current header of a proposal carries its name.
pub proof fn proposals_name_themselves(s: StoreModel, id: ProposalId)
    requires
        s.names_hold(),
    ensures
        s.inspect_proposal(id) matches Some(proposal) ==> s.proposal_head(id) == Some(proposal.header)
            && proposal.header.id == id,
{
    reveal(StoreModel::names_hold);
    reveal(StoreModel::inspect_proposal);
    reveal(StoreModel::proposal_at);
}

proof fn pending_proposals_read(s: StoreModel, ids: Seq<ProposalId>, n: nat)
    requires
        s.is_kept(),
        n <= ids.len(),
        forall|i: int| 0 <= i < ids.len() ==> s.pending_proposals.contains_key(#[trigger] ids[i]),
    ensures
        s.pending_headers(ids, n) matches Ok(headers) && headers.len() == n && forall|i: int|
            0 <= i < n ==> (#[trigger] headers[i]).id == ids[i],
    decreases n,
{
    if n > 0 {
        pending_proposals_read(s, ids, (n - 1) as nat);
        let id = ids[n - 1];
        assert(s.lists_rightly(id)) by {
            reveal(StoreModel::lists_hold);
        }
        reveal(StoreModel::inspect_proposal);
        reveal(StoreModel::proposal_at);
        proposals_name_themselves(s, id);
    }
}

proof fn awaiting_proposals_read(s: StoreModel, ids: Seq<ProposalId>, n: nat)
    requires
        s.is_kept(),
        n <= ids.len(),
        forall|i: int| 0 <= i < ids.len() ==> s.awaiting_adjudication.contains_key(#[trigger] ids[i]),
    ensures
        s.awaiting_headers(ids, n) matches Ok(headers) && headers.len() == n && forall|i: int|
            0 <= i < n ==> (#[trigger] headers[i]).id == ids[i],
    decreases n,
{
    if n > 0 {
        awaiting_proposals_read(s, ids, (n - 1) as nat);
        let id = ids[n - 1];
        assert(s.lists_rightly(id)) by {
            reveal(StoreModel::lists_hold);
        }
        reveal(StoreModel::inspect_proposal);
        reveal(StoreModel::proposal_at);
        proposals_name_themselves(s, id);
    }
}

proof fn greatest_are_members(ids: Set<ProposalId>, limit: usize)
    requires
        ids.finite(),
    ensures
        forall|i: int|
            0 <= i < greatest_first(ids, limit).len() ==> ids.contains(#[trigger] greatest_first(ids, limit)[i]),
{
    in_order_lists(ids);
    let all = in_order(ids);
    assert forall|i: int| 0 <= i < greatest_first(ids, limit).len() implies ids.contains(
        #[trigger] greatest_first(ids, limit)[i],
    ) by {
        assert(all.contains(all[all.len() - 1 - i]));
    }
}

/// The lists of pending and of awaiting proposals are always told: each header that they lead
/// to is that of the proposal that is listed.
pub proof fn lists_are_told(s: StoreModel, limit: usize)
    requires
        s.is_kept(),
        s.is_finite(),
    ensures
        ({
            let ids = greatest_first(s.pending_proposals.dom(), limit);
            s.pending_headers(ids, ids.len()) matches Ok(headers) && headers.len() == ids.len() && forall|i: int|
                0 <= i < ids.len() ==> (#[trigger] headers[i]).id == ids[i]
        }),
        ({
            let ids = greatest_first(s.awaiting_adjudication.dom(), limit);
            s.awaiting_headers(ids, ids.len()) matches Ok(headers) && headers.len() == ids.len() && forall|i: int|
                0 <= i < ids.len() ==> (#[trigger] headers[i]).id == ids[i]
        }),
{
    let pending = greatest_first(s.pending_proposals.dom(), limit);
    greatest_are_members(s.pending_proposals.dom(), limit);
    assert forall|i: int| 0 <= i < pending.len() implies s.pending_proposals.contains_key(#[trigger] pending[i]) by {
        assert(s.pending_proposals.dom().contains(pending[i]));
    }
    pending_proposals_read(s, pending, pending.len());
    let awaiting = greatest_first(s.awaiting_adjudication.dom(), limit);
    greatest_are_members(s.awaiting_adjudication.dom(), limit);
    assert forall|i: int| 0 <= i < awaiting.len() implies s.awaiting_adjudication.contains_key(
        #[trigger] awaiting[i],
    ) by {
        assert(s.awaiting_adjudication.dom().contains(awaiting[i]));
    }
    awaiting_proposals_read(s, awaiting, awaiting.len());
}

/// A proposal is underway once it awaits no decision any more.
proof fn decisions_begin(s: StoreModel, id: ProposalId) -> (way: Course)
    requires
        s.is_kept(),
    ensures
        way.start == s,
        way.aside == set![id],
        way.lists == s.put(WriteModel::DropAwaiting(id)),
        way.reaches(s.put(WriteModel::DropAwaiting(id))),
        lists_shrink(s, way.lists),
        !way.lists.awaiting_adjudication.contains_key(id),
{
    let open = s.put(WriteModel::DropAwaiting(id));
    let way = Course { start: s, lists: open, aside: set![id] };
    reveal(Course::reaches);
    assert(open.names_hold()) by {
        broadcast use crate::writing::parts_after_put;
        reveal(StoreModel::names_hold);
    }
    assert(open.traces_hold()) by {
        broadcast use crate::writing::parts_after_put;
        reveal(StoreModel::traces_hold);
    }
    assert forall|other: ProposalId| !way.aside.contains(other) implies #[trigger] open.lists_rightly(other) by {
        broadcast use crate::writing::parts_after_put;
        reveal(StoreModel::lists_hold);
        assert(s.lists_rightly(other));
        assert(other != id);
    }
    assert(records_stay(s, open) && purges_stay(s, open) && nothing_returns(s, open) && lists_shrink(s, open)
        && !open.awaiting_adjudication.contains_key(id)) by {
        broadcast use crate::writing::parts_after_put;
        reveal(StoreModel::has_payload);
    }
    way
}

/// A proposal that is underway has arrived once its next header is there.
proof fn decisions_end(way: Course, s: StoreModel, next: ProposalRevisionHeader) -> (done: Course)
    requires
        way.reaches(s),
        way.aside == set![next.id],
        !way.lists.awaiting_adjudication.contains_key(next.id),
        !way.lists.pending_proposals.contains_key(next.id),
        next.status != ProposalStatus::PendingReview,
        !awaits_adjudication(next.status),
    ensures
        done.start == way.start,
        done.aside == Set::<ProposalId>::empty(),
        done.reaches(
            s.put(WriteModel::PutProposal(revision_of(next.id.0, next.revision), next)).put(
                WriteModel::PutHead(RecordRef::Proposal(next.id), next.revision),
            ),
        ),
{
    let closed = s.put(WriteModel::PutProposal(revision_of(next.id.0, next.revision), next)).put(
        WriteModel::PutHead(RecordRef::Proposal(next.id), next.revision),
    );
    let done = Course { start: way.start, lists: closed, aside: Set::empty() };
    reveal(Course::reaches);
    assert(closed.names_hold()) by {
        broadcast use crate::writing::parts_after_put;
        reveal(StoreModel::names_hold);
    }
    assert(closed.traces_hold()) by {
        broadcast use crate::writing::parts_after_put;
        reveal(StoreModel::traces_hold);
    }
    assert forall|id: ProposalId| #[trigger] closed.lists_rightly(id) by {
        broadcast use crate::writing::parts_after_put;
        if id != next.id {
            assert(s.lists_rightly(id));
        }
    }
    assert(records_stay(s, closed) && purges_stay(s, closed) && nothing_returns(s, closed)) by {
        broadcast use crate::writing::parts_after_put;
        reveal(StoreModel::has_payload);
    }
    assert(nothing_returns(way.start, closed)) by {
        assert forall|record: RecordRef| #[trigger] way.start.is_bare(record) implies closed.is_bare(record) by {
            assert(s.is_bare(record));
        }
        assert forall|id: RelationSignalId| #[trigger] way.start.signal_is_bare(id) implies closed.signal_is_bare(
            id,
        ) by {
            assert(s.signal_is_bare(id));
        }
        assert forall|id: ActivationTraceId| #[trigger] way.start.trace_is_bare(id) implies closed.trace_is_bare(
            id,
        ) by {
            assert(s.trace_is_bare(id));
        }
    }
    done
}

proof fn creations_go_on(
    c: Course,
    start: AppliedModel,
    changes: Seq<ProposalChangeModel>,
    fresh: FreshModel,
    at: Application,
    n: nat,
)
    requires
        c.reaches(start.store),
        c.start.is_new(fresh),
        n <= fresh.ids.len(),
    ensures
        c.reaches(start.created(changes, fresh.ids, at, n).store),
    decreases n,
{
    broadcast use {claims_go_on, entities_go_on};

    if n > 0 {
        creations_go_on(c, start, changes, fresh, at, (n - 1) as nat);
        drawn_is_new(c.start, fresh, n - 1, RecordRef::Claim(ClaimId(fresh.ids[n - 1])));
        drawn_is_new(c.start, fresh, n - 1, RecordRef::Entity(EntityId(fresh.ids[n - 1])));
        reveal(AppliedModel::creating);
    }
}

proof fn relating_goes_on(
    c: Course,
    start: AppliedModel,
    changes: Seq<ProposalChangeModel>,
    fresh: FreshModel,
    drafts: Map<ProposalDraftId, AppliedRecord>,
    at: Application,
    n: nat,
)
    requires
        c.reaches(start.store),
        c.start.is_new(fresh),
        n <= fresh.ids.len(),
        start.related(changes, fresh.ids, drafts, at, n) is Ok,
    ensures
        c.reaches(start.related(changes, fresh.ids, drafts, at, n)->Ok_0.store),
    decreases n,
{
    broadcast use relations_go_on;

    if n > 0 {
        relating_goes_on(c, start, changes, fresh, drafts, at, (n - 1) as nat);
        drawn_is_new(c.start, fresh, n - 1, RecordRef::SemanticRelation(RelationId(fresh.ids[n - 1])));
        reveal(AppliedModel::relating);
    }
}

proof fn moving_goes_on(
    c: Course,
    before: AppliedModel,
    record: RecordRef,
    expected_revision: u64,
    state: RecordState,
    at: Application,
)
    requires
        c.start.is_kept(),
        c.reaches(before.store),
        lists_shrink(c.start, c.lists),
        state != RecordState::Active,
        before.moved(c.start, record, expected_revision, state, at) is Ok,
    ensures
        c.reaches(before.moved(c.start, record, expected_revision, state, at)->Ok_0.store),
{
    broadcast use unindexing_goes_on;

    reveal(AppliedModel::moved);
    revisions_go_on(c, before.store, record, expected_revision, state, at.operation_id, at.recorded_at_ms);
}

proof fn undermining_goes_on(
    c: Course,
    start: AppliedModel,
    dependencies: Seq<PurgeDependency>,
    spared: Set<RecordRef>,
    at: Application,
    n: nat,
)
    requires
        c.start.is_kept(),
        c.reaches(start.store),
        lists_shrink(c.start, c.lists),
        start.undermined(c.start, dependencies, spared, at, n) is Ok,
    ensures
        c.reaches(start.undermined(c.start, dependencies, spared, at, n)->Ok_0.store),
    decreases n,
{
    if n > 0 {
        undermining_goes_on(c, start, dependencies, spared, at, (n - 1) as nat);
        let before = start.undermined(c.start, dependencies, spared, at, (n - 1) as nat)->Ok_0;
        let dependency = dependencies[n - 1];
        if !(spared.contains(dependency.record) || before.seen.contains(dependency.record)) {
            moving_goes_on(
                c,
                AppliedModel { seen: before.seen.insert(dependency.record), ..before },
                dependency.record,
                dependency.expected_revision,
                RecordState::Unsupported,
                at,
            );
        }
    }
}

proof fn mutating_goes_on(
    c: Course,
    before: AppliedModel,
    change: ProposalChangeModel,
    fresh: FreshModel,
    i: int,
    drafts: Map<ProposalDraftId, AppliedRecord>,
    sources: Seq<EvidenceId>,
    spared: Set<RecordRef>,
    at: Application,
)
    requires
        c.start.is_kept(),
        c.reaches(before.store),
        lists_shrink(c.start, c.lists),
        c.start.is_new(fresh),
        0 <= i < fresh.ids.len(),
        before.mutating(c.start, change, fresh.ids[i], drafts, sources, spared, at) is Ok,
    ensures
        c.reaches(before.mutating(c.start, change, fresh.ids[i], drafts, sources, spared, at)->Ok_0.store),
{
    broadcast use relations_go_on;

    reveal(AppliedModel::mutating);
    drawn_is_new(c.start, fresh, i, RecordRef::SemanticRelation(RelationId(fresh.ids[i])));
    match change {
        ProposalChangeModel::Retract { target } => {
            let dependencies = c.start.dependency_closure(target.record, false)->Ok_0;
            moving_goes_on(c, before, target.record, target.revision, RecordState::Retracted, at);
            let moved = before.moved(c.start, target.record, target.revision, RecordState::Retracted, at)->Ok_0;
            undermining_goes_on(c, moved, dependencies, spared, at, dependencies.len());
        },
        ProposalChangeModel::Supersede { target, replacement } => {
            let dependencies = c.start.dependency_closure(target.record, false)->Ok_0;
            moving_goes_on(c, before, target.record, target.revision, RecordState::Superseded, at);
            let moved = before.moved(c.start, target.record, target.revision, RecordState::Superseded, at)->Ok_0;
            let after = moved.superseding(replacement, target.record, fresh.ids[i], drafts, sources, at)->Ok_0;
            assert(c.reaches(after.store)) by {
                reveal(AppliedModel::superseding);
            }
            undermining_goes_on(c, after, dependencies, spared, at, dependencies.len());
        },
        _ => {},
    }
}

proof fn mutations_go_on(
    c: Course,
    start: AppliedModel,
    changes: Seq<ProposalChangeModel>,
    fresh: FreshModel,
    drafts: Map<ProposalDraftId, AppliedRecord>,
    sources: Seq<EvidenceId>,
    spared: Set<RecordRef>,
    at: Application,
    n: nat,
)
    requires
        c.start.is_kept(),
        c.reaches(start.store),
        lists_shrink(c.start, c.lists),
        c.start.is_new(fresh),
        n <= fresh.ids.len(),
        start.mutated(c.start, changes, fresh.ids, drafts, sources, spared, at, n) is Ok,
    ensures
        c.reaches(start.mutated(c.start, changes, fresh.ids, drafts, sources, spared, at, n)->Ok_0.store),
    decreases n,
{
    if n > 0 {
        mutations_go_on(c, start, changes, fresh, drafts, sources, spared, at, (n - 1) as nat);
        let before = start.mutated(
            c.start,
            changes,
            fresh.ids,
            drafts,
            sources,
            spared,
            at,
            (n - 1) as nat,
        )->Ok_0;
        mutating_goes_on(c, before, changes[n - 1], fresh, n - 1, drafts, sources, spared, at);
    }
}

proof fn closings_keep(
    s: StoreModel,
    operation: OperationContext,
    input: ProposalAdjudication,
    digest: [u8; 32],
    proposal: ProposalRevisionHeader,
    status: ProposalStatus,
    audit_id: Ulid,
    recorded_at_ms: i64,
)
    requires
        s.is_kept(),
        s.proposal_head(proposal.id) == Some(proposal),
        !s.pending_proposals.contains_key(proposal.id),
        status != ProposalStatus::PendingReview,
        !awaits_adjudication(status),
        s.closed(operation, input, digest, proposal, status, audit_id, recorded_at_ms) is Ok,
    ensures
        s.closed(operation, input, digest, proposal, status, audit_id, recorded_at_ms)->Ok_0.0.is_kept(),
        nothing_returns(s, s.closed(operation, input, digest, proposal, status, audit_id, recorded_at_ms)->Ok_0.0),
{
    broadcast use puts_go_on;

    reveal(StoreModel::closed);
    let next = restated(proposal, status, operation.id, recorded_at_ms)->Ok_0;
    let way = decisions_begin(s, proposal.id);
    let done = decisions_end(way, s.put(WriteModel::DropAwaiting(next.id)), next);
    let after = s.closed(operation, input, digest, proposal, status, audit_id, recorded_at_ms)->Ok_0.0;
    assert(done.reaches(after));
    courses_end(done, after);
}

proof fn applications_keep(
    s: StoreModel,
    operation: OperationContext,
    input: ProposalAdjudication,
    digest: [u8; 32],
    proposal: ProposalRecordModel,
    changes: Seq<ProposalChangeModel>,
    fresh: FreshModel,
)
    requires
        s.is_kept(),
        s.is_new(fresh),
        changes.len() < fresh.ids.len(),
        s.proposal_head(proposal.header.id) == Some(proposal.header),
        !s.pending_proposals.contains_key(proposal.header.id),
        s.applied(operation, input, digest, proposal, changes, fresh) is Ok,
    ensures
        s.applied(operation, input, digest, proposal, changes, fresh)->Ok_0.0.is_kept(),
        nothing_returns(s, s.applied(operation, input, digest, proposal, changes, fresh)->Ok_0.0),
{
    broadcast use puts_go_on;

    reveal(StoreModel::applied);
    let at = Application {
        scope: proposal.header.scope,
        operation_id: operation.id,
        recorded_at_ms: fresh.recorded_at_ms,
    };
    let n = changes.len();
    let drafts = drafted(changes, fresh.ids, n);
    let sources = evidence_named(proposal.source_evidence);
    let spared = spared_by(input.proposal_id, input.review_case_id, changes);
    let staged = s.put(WriteModel::DropAwaiting(proposal.header.id));
    let way = decisions_begin(s, proposal.header.id);
    let applied = s.changes_applied(staged, changes, fresh.ids, drafts, sources, spared, at)->Ok_0;
    assert(way.reaches(applied.store)) by {
        reveal(StoreModel::changes_applied);
        let start = AppliedModel { store: staged, revisions: Seq::empty(), seen: Set::empty() };
        creations_go_on(way, start, changes, fresh, at, n);
        let created = start.created(changes, fresh.ids, at, n);
        relating_goes_on(way, created, changes, fresh, drafts, at, n);
        let related = created.related(changes, fresh.ids, drafts, at, n)->Ok_0;
        mutations_go_on(way, related, changes, fresh, drafts, sources, spared, at, n);
    }
    let next = restated(proposal.header, ProposalStatus::Applied, operation.id, fresh.recorded_at_ms)->Ok_0;
    let done = decisions_end(way, applied.store, next);
    let after = s.applied(operation, input, digest, proposal, changes, fresh)->Ok_0.0;
    assert(done.reaches(after));
    courses_end(done, after);
}

/// Deciding on a proposal keeps what holds of every store. As many identifiers are drawn as
/// the proposal has changes, and one more.
pub proof fn decisions_keep(
    s: StoreModel,
    operation: OperationContext,
    input: ProposalAdjudication,
    request: Seq<u8>,
    fresh: FreshModel,
    after: StoreModel,
    receipt: ProposalAdjudicationReceiptModel,
)
    requires
        s.is_kept(),
        s.is_new(fresh),
        s.adjudicable(input) matches Ok((_, changes)) ==> changes.len() < fresh.ids.len(),
        s.adjudicate_proposal(operation, input, request, fresh) == MemoryResult::Ok((after, receipt)),
    ensures
        after.is_kept(),
        nothing_returns(s, after),
{
    broadcast use puts_go_on;

    let digest = mutation_digest_of(s.digest_key@, "adjudicate_proposal"@, operation.actor, request);
    courses_begin(s);
    if s.replay(operation.id, digest) == MemoryResult::Ok(None::<ReceiptModel>) {
        let (proposal, changes) = s.adjudicable(input)->Ok_0;
        let header = proposal.header;
        let id = input.proposal_id;
        let audit_id = fresh.ids[changes.len() as int];
        assert(s.inspect_proposal(id) == Some(proposal)) by {
            reveal(StoreModel::adjudicable);
        }
        proposals_name_themselves(s, id);
        assert(s.lists_rightly(id)) by {
            reveal(StoreModel::lists_hold);
        }
        if header.status == ProposalStatus::Stale {
            reveal(StoreModel::stale_acknowledged);
            assert(s.put(WriteModel::DropAwaiting(id)) == s) by {
                reveal(StoreModel::put);
                assert(s.awaiting_adjudication.remove(id) =~= s.awaiting_adjudication);
            }
            assert(course(s).reaches(after));
            courses_end(course(s), after);
        } else {
            assert(header.previous_revision is Some) by {
                reveal(StoreModel::deciding_review);
            }
            if input.decision == ProposalDecision::Reject {
                closings_keep(
                    s,
                    operation,
                    input,
                    digest,
                    header,
                    ProposalStatus::Rejected,
                    audit_id,
                    fresh.recorded_at_ms,
                );
            } else {
                let review = s.deciding_review(input, header)->Ok_0;
                reveal(StoreModel::accepted);
                let case = s.recall_cases[review.header.recall_case_id];
                let findings = review.findings->Some_0;
                if s.grounds_current(proposal, changes, review, findings, case)->Ok_0 {
                    applications_keep(s, operation, input, digest, proposal, changes, fresh);
                } else {
                    closings_keep(
                        s,
                        operation,
                        input,
                        digest,
                        header,
                        ProposalStatus::Stale,
                        audit_id,
                        fresh.recorded_at_ms,
                    );
                }
            }
        }
    } else {
        courses_end(course(s), after);
    }
}

proof fn dependents_go_on(
    c: Course,
    s: StoreModel,
    dependencies: Seq<PurgeDependency>,
    operation_id: OperationId,
    recorded_at_ms: i64,
    n: nat,
)
    requires
        c.start.is_kept(),
        c.reaches(s),
        lists_shrink(c.start, c.lists),
        n <= dependencies.len(),
        c.start.dependents_purged(s, dependencies, operation_id, recorded_at_ms, n) is Ok,
    ensures
        c.reaches(c.start.dependents_purged(s, dependencies, operation_id, recorded_at_ms, n)->Ok_0.0),
        forall|i: int| 0 <= i < n ==> c.start.heads.contains_key((#[trigger] dependencies[i]).record),
        forall|i: int|
            0 <= i < c.start.dependents_purged(s, dependencies, operation_id, recorded_at_ms, n)->Ok_0.1.len()
                ==> is_dependent(
                c.start,
                dependencies,
                (#[trigger] c.start.dependents_purged(s, dependencies, operation_id, recorded_at_ms, n)->Ok_0.1[i]).record,
            ),
    decreases n,
{
    broadcast use {unindexing_goes_on, erasing_goes_on};

    if n > 0 {
        dependents_go_on(c, s, dependencies, operation_id, recorded_at_ms, (n - 1) as nat);
        let (before, revisions) = c.start.dependents_purged(
            s,
            dependencies,
            operation_id,
            recorded_at_ms,
            (n - 1) as nat,
        )->Ok_0;
        let dependency = dependencies[n - 1];
        reveal(StoreModel::dependent_purged);
        standing_records_are_there(c.start, dependency.record);
        if c.start.standing(dependency.record)->Ok_0.1 == RecordState::Active {
            revisions_go_on(
                c,
                before,
                dependency.record,
                dependency.expected_revision,
                RecordState::Unsupported,
                operation_id,
                recorded_at_ms,
            );
            assert(is_dependent(c.start, dependencies, dependency.record));
        }
    }
}

/// Whether there is a record, and it is listed as a dependent.
spec fn is_dependent(s: StoreModel, dependencies: Seq<PurgeDependency>, record: RecordRef) -> bool {
    s.heads.contains_key(record) && exists|j: int|
        0 <= j < dependencies.len() && (#[trigger] dependencies[j]).record == record
}

/// Purging keeps what holds of every store: after it, and whenever it is asked for again,
/// what it is answered to have purged has no payload: neither its target nor any record,
/// signal or activation that rests on it. The first time, that goes for whatever the preview
/// shows to rest on the target, active or not.
pub proof fn purges_keep(
    s: StoreModel,
    operation: OperationContext,
    preview: PurgePreviewModel,
    request: Seq<u8>,
    now_ms: i64,
    fresh: FreshModel,
    after: StoreModel,
    receipt: PurgeReceiptModel,
)
    requires
        s.is_kept(),
        s.commit_purge(operation, preview, request, now_ms, fresh) == MemoryResult::Ok((after, receipt)),
    ensures
        after.is_kept(),
        nothing_returns(s, after),
        tells_what_is_gone(after, receipt),
        !s.operations.contains_key(operation.id) ==> {
            &&& receipt.target.record == preview.target
            &&& forall|i: int|
                0 <= i < preview.invalidations.len() ==> after.is_bare((#[trigger] preview.invalidations[i]).record)
        },
{
    broadcast use {puts_go_on, unindexing_goes_on, erasing_goes_on, trace_erasing_goes_on};

    let digest = mutation_digest_of(s.digest_key@, "commit_purge"@, operation.actor, request);
    courses_begin(s);
    reveal(StoreModel::replay);
    if s.operations.contains_key(operation.id) {
        courses_end(course(s), after);
        reveal(StoreModel::purges_hold);
        assert(s.purge_holds(operation.id));
    } else {
        let c = course(s);
        let now = fresh.recorded_at_ms;
        purged_payloads_are_gone(s, operation, preview, request, now_ms, fresh, after, receipt);
        reveal(StoreModel::purged);
        revisions_go_on(
            c,
            s,
            preview.target,
            preview.expected_revision,
            RecordState::Purged,
            operation.id,
            now,
        );
        let moved = s.appended(
            s,
            preview.target,
            preview.expected_revision,
            RecordState::Purged,
            operation.id,
            now,
        )->Ok_0.0;
        let begun = moved.unindexed(s, preview.target).without_payload(preview.target);
        let dependencies = preview.invalidations;
        dependents_go_on(c, begun, dependencies, operation.id, now, dependencies.len());
        let undermined = s.dependents_purged(
            begun,
            dependencies,
            operation.id,
            now,
            dependencies.len(),
        )->Ok_0.0;
        let pins = dependent_pins(preview.relation_signal_invalidations);
        previews_show_what_lives(s, preview, now_ms);
        silencing_goes_on(c, undermined, pins, pins.len(), operation.id, now);
        let (silenced, signals) = s.signals_purged(undermined, pins, pins.len(), operation.id, now)->Ok_0;
        let traces = preview.activation_trace_invalidations;
        let told = silenced.without_traces(traces, traces.len()).audited(
            s.audit_event(
                fresh.ids[0],
                operation,
                AuditAction::PurgeCommitted,
                purge_records(preview.target, preview.invalidations),
                derived_refs(signals, traces),
                None,
                now,
            ),
        );
        assert(c.reaches(told));
        courses_end(c, told);
        courses_end(c, silenced);
        courses_begin(silenced);
        assert(course(silenced).reaches(told));
        courses_end(course(silenced), told);
        assert(after == told.remembered(operation.id, digest, ReceiptModel::Purge(receipt)));
        purges_are_remembered(s, told, operation.id, digest, preview, receipt, after);
    }
}

/// Whether nothing that a purge was answered to have purged has a payload.
pub open spec fn tells_what_is_gone(s: StoreModel, receipt: PurgeReceiptModel) -> bool {
    &&& s.is_bare(receipt.target.record)
    &&& forall|i: int| 0 <= i < receipt.invalidated.len() ==> s.is_bare((#[trigger] receipt.invalidated[i]).record)
    &&& forall|i: int|
        0 <= i < receipt.purged_relation_signals.len() ==> s.signal_is_bare(
            (#[trigger] receipt.purged_relation_signals[i]).id,
        )
    &&& forall|i: int|
        0 <= i < receipt.purged_activation_traces.len() ==> s.trace_is_bare(
            #[trigger] receipt.purged_activation_traces[i],
        )
}

proof fn live_traces_are_there(s: StoreModel, ids: Seq<Ulid>, n: nat)
    requires
        s.traces_hold(),
    ensures
        forall|i: int|
            0 <= i < s.live_traces(ids, n).len() ==> s.activation_traces.contains_key(
                #[trigger] s.live_traces(ids, n)[i],
            ),
    decreases n,
{
    if n > 0 {
        live_traces_are_there(s, ids, (n - 1) as nat);
        reveal(StoreModel::traces_hold);
        let before = s.live_traces(ids, (n - 1) as nat);
        let all = s.live_traces(ids, n);
        assert forall|i: int| 0 <= i < all.len() implies s.activation_traces.contains_key(#[trigger] all[i]) by {
            if i < before.len() {
                assert(all[i] == before[i]);
            } else {
                assert(s.activation_trace_payloads.contains_key(all[i]));
            }
        }
    }
}

proof fn previews_show_what_lives(s: StoreModel, preview: PurgePreviewModel, now_ms: i64)
    requires
        s.is_kept(),
        s.preview_fault(preview, now_ms) is None,
    ensures
        forall|i: int|
            0 <= i < dependent_pins(preview.relation_signal_invalidations).len() ==> !s.signal_is_bare(
                (#[trigger] dependent_pins(preview.relation_signal_invalidations)[i]).id,
            ),
        forall|i: int|
            0 <= i < preview.activation_trace_invalidations.len() ==> s.activation_traces.contains_key(
                #[trigger] preview.activation_trace_invalidations[i],
            ),
{
    reveal(StoreModel::preview_fault);
    reveal(StoreModel::purge_preview);
    let records = purge_records(preview.target, preview.invalidations);
    let signal_ids = in_order(filed_under(s.relation_signals_by_record, records));
    let pins = s.signals_depending_on(records)->Ok_0;
    live_signals_are_not_bare(s, SignalIndex::Dependency, signal_ids, signal_ids.len());
    assert(dependent_pins(signal_dependents(pins)) =~= pins);
    let trace_ids = in_order(filed_under(s.activation_traces_by_record, records));
    live_traces_are_there(s, trace_ids, trace_ids.len());
}

proof fn purges_are_remembered(
    s: StoreModel,
    told: StoreModel,
    id: OperationId,
    digest: [u8; 32],
    preview: PurgePreviewModel,
    receipt: PurgeReceiptModel,
    after: StoreModel,
)
    requires
        s.is_kept(),
        told.is_kept(),
        course(s).reaches(told),
        after == told.remembered(id, digest, ReceiptModel::Purge(receipt)),
        receipt.target.record == preview.target,
        s.heads.contains_key(preview.target),
        !after.has_payload(preview.target),
        forall|i: int|
            0 <= i < preview.invalidations.len() ==> s.heads.contains_key((#[trigger] preview.invalidations[i]).record),
        forall|i: int|
            0 <= i < receipt.purged_relation_signals.len() ==> told.signal_is_bare(
                (#[trigger] receipt.purged_relation_signals[i]).id,
            ),
        forall|i: int|
            0 <= i < receipt.purged_activation_traces.len() ==> s.activation_traces.contains_key(
                #[trigger] receipt.purged_activation_traces[i],
            ) && !after.activation_trace_payloads.contains_key(receipt.purged_activation_traces[i]),
        forall|i: int|
            0 <= i < preview.invalidations.len() ==> !after.has_payload((#[trigger] preview.invalidations[i]).record),
        forall|i: int|
            0 <= i < receipt.invalidated.len() ==> is_dependent(
                s,
                preview.invalidations,
                (#[trigger] receipt.invalidated[i]).record,
            ),
    ensures
        after.is_kept(),
        nothing_returns(s, after),
        tells_what_is_gone(after, receipt),
        forall|i: int|
            0 <= i < preview.invalidations.len() ==> after.is_bare((#[trigger] preview.invalidations[i]).record),
{
    reveal(Course::reaches);
    assert(nothing_derived_returns(told, after) && after.activation_traces == told.activation_traces
        && after.traces_hold()) by {
        broadcast use crate::writing::parts_after_put;
        reveal(StoreModel::traces_hold);
    }
    assert(after.heads == told.heads && after.proposals == told.proposals && after.pending_proposals
        == told.pending_proposals && after.awaiting_adjudication == told.awaiting_adjudication && (forall|r: RecordRef|
     #[trigger] after.has_payload(r) == told.has_payload(r)) && after.names_hold() && after.operations
        == told.operations.insert(id, StoredOperationModel { digest, receipt: ReceiptModel::Purge(receipt) })) by {
        broadcast use crate::writing::parts_after_put;
        reveal(StoreModel::has_payload);
        reveal(StoreModel::names_hold);
    }
    assert(after.lists_hold()) by {
        reveal(StoreModel::lists_hold);
        assert forall|p: ProposalId| #[trigger] after.lists_rightly(p) by {
            assert(told.lists_rightly(p));
        }
    }
    assert forall|r: RecordRef| #[trigger] s.is_bare(r) implies after.is_bare(r) by {
        assert(told.is_bare(r));
    }
    assert(nothing_returns(told, after));
    assert(nothing_derived_returns(s, after)) by {
        assert forall|p: RelationSignalId| #[trigger] s.signal_is_bare(p) implies after.signal_is_bare(p) by {
            assert(told.signal_is_bare(p));
        }
        assert forall|p: ActivationTraceId| #[trigger] s.trace_is_bare(p) implies after.trace_is_bare(p) by {
            assert(told.trace_is_bare(p));
        }
    }
    assert forall|i: int| 0 <= i < preview.invalidations.len() implies after.is_bare(
        (#[trigger] preview.invalidations[i]).record,
    ) by {
        assert(told.heads.contains_key(preview.invalidations[i].record));
    }
    assert forall|i: int| 0 <= i < receipt.purged_relation_signals.len() implies after.signal_is_bare(
        (#[trigger] receipt.purged_relation_signals[i]).id,
    ) by {
        assert(told.signal_is_bare(receipt.purged_relation_signals[i].id));
    }
    assert forall|i: int| 0 <= i < receipt.purged_activation_traces.len() implies after.trace_is_bare(
        #[trigger] receipt.purged_activation_traces[i],
    ) by {
        assert(told.activation_traces.contains_key(receipt.purged_activation_traces[i]));
    }
    assert forall|i: int| 0 <= i < receipt.invalidated.len() implies after.is_bare(
        (#[trigger] receipt.invalidated[i]).record,
    ) by {
        let record = receipt.invalidated[i].record;
        assert(is_dependent(s, preview.invalidations, record));
        let j = choose|j: int|
            0 <= j < preview.invalidations.len() && (#[trigger] preview.invalidations[j]).record == record;
        assert(!after.has_payload(preview.invalidations[j].record));
        assert(told.heads.contains_key(record));
    }
    assert(told.heads.contains_key(preview.target));
    assert(after.purges_hold()) by {
        reveal(StoreModel::purges_hold);
        assert forall|other: OperationId| #[trigger] after.operations.contains_key(other) implies after.purge_holds(
            other,
        ) by {
            if other != id {
                assert(told.operations.contains_key(other));
                assert(told.purge_holds(other));
                if let ReceiptModel::Purge(known) = told.operations[other].receipt {
                    purges_go_on(told, after, known);
                }
            }
        }
    }
}

/// Whether nothing but its header is read of a record.
pub open spec fn reads_bare(found: InspectedRecordModel) -> bool {
    match found {
        InspectedRecordModel::Evidence(found) => found.text is None,
        InspectedRecordModel::Claim(found) => found.proposition is None,
        InspectedRecordModel::Entity(found) => found.canonical_name is None && found.aliases.len() == 0,
        InspectedRecordModel::SemanticRelation(found) => found.qualifier is None && !found.payload_available,
        InspectedRecordModel::Proposal(found) => found.changes is None,
        InspectedRecordModel::ProposalReview(found) => found.findings is None,
        InspectedRecordModel::ArtifactCollection(found) => found.label is None,
        InspectedRecordModel::ArtifactSnapshot(found) => found.media_type is None && found.content_digest is None
            && !found.payload_available,
        InspectedRecordModel::ArtifactPassage(found) => found.text is None,
    }
}

/// After a purge, the first time and whenever it is asked for again, nothing but headers is
/// read of its target and of what it invalidated, at the head and at every revision.
pub proof fn purged_records_read_bare(
    s: StoreModel,
    operation: OperationContext,
    preview: PurgePreviewModel,
    request: Seq<u8>,
    now_ms: i64,
    fresh: FreshModel,
    after: StoreModel,
    receipt: PurgeReceiptModel,
    record: RecordRef,
    revision: u64,
)
    requires
        s.is_kept(),
        s.commit_purge(operation, preview, request, now_ms, fresh) == MemoryResult::Ok((after, receipt)),
        record == receipt.target.record || exists|i: int|
            0 <= i < receipt.invalidated.len() && (#[trigger] receipt.invalidated[i]).record == record,
    ensures
        after.inspect_revision(record, revision) matches Some(found) ==> reads_bare(found),
        after.inspect_head(record) matches Ok(Some(found)) ==> reads_bare(found),
{
    purges_keep(s, operation, preview, request, now_ms, fresh, after, receipt);
    gone_payloads_do_not_read_at_any_revision(after, record, revision);
    heads_read_bare(after, record);
}

/// After a purge, the first time and whenever it is asked for again, no score is read of a
/// signal that it purged, and no activation that it purged is read.
pub proof fn purged_derivations_do_not_read(
    s: StoreModel,
    operation: OperationContext,
    preview: PurgePreviewModel,
    request: Seq<u8>,
    now_ms: i64,
    fresh: FreshModel,
    after: StoreModel,
    receipt: PurgeReceiptModel,
    i: int,
    selector: RevisionSelector,
)
    requires
        s.is_kept(),
        s.commit_purge(operation, preview, request, now_ms, fresh) == MemoryResult::Ok((after, receipt)),
    ensures
        0 <= i < receipt.purged_relation_signals.len() ==> (after.inspect_relation_signal(
            receipt.purged_relation_signals[i].id,
            selector,
        ) matches Ok(Some(found)) ==> found.scores is None && found.provenance_digest is None),
        0 <= i < receipt.purged_activation_traces.len() ==> after.inspect_activation_trace(
            receipt.purged_activation_traces[i],
        ) is None,
{
    purges_keep(s, operation, preview, request, now_ms, fresh, after, receipt);
    reveal(StoreModel::inspect_relation_signal);
    reveal(StoreModel::inspect_activation_trace);
    assert(0 <= i < receipt.purged_relation_signals.len() ==> after.signal_is_bare(
        receipt.purged_relation_signals[i].id,
    ));
    assert(0 <= i < receipt.purged_activation_traces.len() ==> after.trace_is_bare(
        receipt.purged_activation_traces[i],
    ));
}

proof fn heads_read_bare(s: StoreModel, record: RecordRef)
    requires
        !s.has_payload(record),
    ensures
        s.inspect_head(record) matches Ok(Some(found)) ==> reads_bare(found),
{
    reveal(StoreModel::inspect_head);
    reveal(StoreModel::has_payload);
    reveal(StoreModel::text_unless_purged);
    match record {
        RecordRef::Evidence(_) => {
            reveal(StoreModel::inspect_evidence);
            reveal(StoreModel::evidence_at);
        },
        RecordRef::Claim(_) => {
            reveal(StoreModel::inspect_claim);
            reveal(StoreModel::claim_at);
        },
        RecordRef::Entity(_) => {
            reveal(StoreModel::inspect_entity);
            reveal(StoreModel::entity_at);
        },
        RecordRef::SemanticRelation(_) => {
            reveal(StoreModel::inspect_semantic_relation);
            reveal(StoreModel::relation_at);
        },
        RecordRef::Proposal(_) => {
            reveal(StoreModel::inspect_proposal);
            reveal(StoreModel::proposal_at);
        },
        RecordRef::ProposalReview(_) => {
            reveal(StoreModel::inspect_proposal_review);
            reveal(StoreModel::review_at);
        },
        RecordRef::ArtifactCollection(_) => {
            reveal(StoreModel::inspect_artifact_collection);
            reveal(StoreModel::collection_at);
        },
        RecordRef::ArtifactSnapshot(_) => {
            reveal(StoreModel::inspect_artifact_snapshot);
            reveal(StoreModel::snapshot_at);
        },
        RecordRef::ArtifactPassage(_) => {
            reveal(StoreModel::inspect_artifact_passage);
            reveal(StoreModel::passage_at);
        },
    }
}

} // verus!
