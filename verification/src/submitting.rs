//! What is submitted, listed and said of recalls: which bundles become proposals, what
//! operators are shown of them, and which feedback is taken.

use vstd::prelude::*;
use crate::bundles::{existing_pins, sound_bundle};
use crate::bundling::bundles_are_heard;
use crate::clock::FreshModel;
use crate::context::OperationContext;
use crate::deciding::{change_holds, changes_hold_by_their_pins, evidence_holds, pin_holds};
use crate::digest::mutation_digest_of;
use crate::fault::MemoryResult;
use crate::grounds::lists_are_as_long;
use crate::ids::ProposalId;
use crate::inspect::lookup;
use crate::order::{Keyed, in_order, in_order_lists};
use crate::proposals::greatest_first;
use crate::records::evidence::{RecordState, Scope};
use crate::records::proposal::{
    NewProposalBundleModel, NewProposalReviewModel, NewRecallFeedback, ProposalReviewFindingModel,
    ProposalReviewReceipt,
};
use crate::records::recall::{EvidenceRevisionPin, RecordRevisionPin};
use crate::reviews::{finding_out_of_range, sound_findings, sound_review};
use crate::store::StoreModel;

verus! {

proof fn sources_are_checked(s: StoreModel, pins: Seq<EvidenceRevisionPin>, scope: Scope, n: nat)
    requires
        n <= pins.len(),
    ensures
        s.source_pins_fault(pins, scope, n) is None <==> forall|i: int|
            0 <= i < n ==> evidence_holds(s, #[trigger] pins[i], scope),
    decreases n,
{
    if n > 0 {
        sources_are_checked(s, pins, scope, (n - 1) as nat);
    }
}

proof fn records_are_checked(s: StoreModel, pins: Seq<RecordRevisionPin>, scope: Scope, n: nat)
    requires
        n <= pins.len(),
    ensures
        s.record_pins_fault(pins, scope, n) is None <==> forall|i: int|
            0 <= i < n ==> pin_holds(s, #[trigger] pins[i], Some(scope)),
    decreases n,
{
    if n > 0 {
        records_are_checked(s, pins, scope, (n - 1) as nat);
    }
}

/// A sound bundle of a new source job becomes a proposal if and only if its encoding takes
/// up at most a mebibyte and everything that it pins holds in its scope: the evidence and
/// the records that its changes relate, retract or supersede.
pub proof fn bundles_become_proposals(
    s: StoreModel,
    operation: OperationContext,
    input: NewProposalBundleModel,
    request: Seq<u8>,
    fresh: FreshModel,
    bundle: NewProposalBundleModel,
)
    requires
        !s.operations.contains_key(operation.id),
        sound_bundle(input) == MemoryResult::Ok(bundle),
        !s.proposal_sources.contains_key(input.source_job_id),
    ensures
        s.submit_proposal(operation, input, request, fresh) is Ok <==> {
            &&& request.len() <= 1_048_576
            &&& forall|i: int|
                0 <= i < bundle.source_evidence.len() ==> evidence_holds(
                    s,
                    #[trigger] bundle.source_evidence[i],
                    input.scope,
                )
            &&& forall|i: int|
                0 <= i < bundle.changes.len() ==> change_holds(s, #[trigger] bundle.changes[i], input.scope)
        },
        s.submit_proposal(operation, input, request, fresh) matches Ok((_, receipt)) ==> receipt.revision == 1
            && receipt.status is PendingReview,
{
    reveal(StoreModel::replay);
    bundles_are_heard(input, bundle);
    let pins = existing_pins(bundle.changes);
    sources_are_checked(s, bundle.source_evidence, input.scope, bundle.source_evidence.len());
    records_are_checked(s, pins, input.scope, pins.len());
    changes_hold_by_their_pins(s, bundle.changes, input.scope);
}

/// A source job proposes once: a bundle of a job that proposed before is answered with that
/// proposal if it is the same request, and refused otherwise.
pub proof fn source_jobs_are_answered_again(
    s: StoreModel,
    operation: OperationContext,
    input: NewProposalBundleModel,
    request: Seq<u8>,
    fresh: FreshModel,
    bundle: NewProposalBundleModel,
)
    requires
        !s.operations.contains_key(operation.id),
        sound_bundle(input) == MemoryResult::Ok(bundle),
        s.proposal_sources.contains_key(input.source_job_id),
        request.len() <= 1_048_576,
        s.inspect_proposal(s.proposal_sources[input.source_job_id].proposal_id) is Some,
    ensures
        ({
            let known = s.proposal_sources[input.source_job_id];
            let digest = mutation_digest_of(s.digest_key@, "submit_proposal"@, operation.actor, request);
            let found = s.inspect_proposal(known.proposal_id)->Some_0;
            match s.submit_proposal(operation, input, request, fresh) {
                Ok((after, receipt)) => {
                    &&& known.input_digest == digest
                    &&& receipt.id == found.header.id && receipt.revision == found.header.revision && receipt.status
                        == found.header.status
                    &&& after.proposals == s.proposals && after.heads == s.heads
                },
                Err(_) => known.input_digest != digest,
            }
        }),
{
    reveal(StoreModel::replay);
    broadcast use crate::writing::parts_after_put;
    bundles_are_heard(input, bundle);
}

/// An operator is shown the newest proposals first, no more than were asked for and never
/// more than 100; what is not shown is older than everything that is.
pub proof fn newest_proposals_are_shown_first(ids: Set<ProposalId>, limit: usize, id: ProposalId)
    requires
        ids.finite(),
    ensures
        ({
            let shown = greatest_first(ids, limit);
            &&& shown.len() <= limit && shown.len() <= 100
            &&& forall|i: int| 0 <= i < shown.len() ==> ids.contains(#[trigger] shown[i])
            &&& forall|i: int, j: int|
                0 <= i < j < shown.len() ==> (#[trigger] shown[i]).0.0 > (#[trigger] shown[j]).0.0
            &&& ids.contains(id) ==> shown.contains(id) || ((shown.len() == limit || shown.len() == 100) && forall|i: int|
                0 <= i < shown.len() ==> (#[trigger] shown[i]).0.0 > id.0.0)
        }),
{
    in_order_lists(ids);
    let all = in_order(ids);
    let shown = greatest_first(ids, limit);
    assert forall|i: int| 0 <= i < shown.len() implies ids.contains(#[trigger] shown[i]) && shown[i] == all[all.len() - 1
        - i] by {
        assert(all.contains(all[all.len() - 1 - i]));
    }
    assert forall|i: int, j: int| 0 <= i < j < shown.len() implies (#[trigger] shown[i]).0.0 > (
    #[trigger] shown[j]).0.0 by {
        assert(shown[i] == all[all.len() - 1 - i] && shown[j] == all[all.len() - 1 - j]);
        assert(all[all.len() - 1 - j].rank() < all[all.len() - 1 - i].rank());
    }
    if ids.contains(id) {
        assert(all.contains(id));
        let at = all.index_of(id);
        assert(all[at] == id);
        if at >= all.len() - shown.len() {
            assert(shown[all.len() - 1 - at] == id);
        } else {
            assert forall|i: int| 0 <= i < shown.len() implies (#[trigger] shown[i]).0.0 > id.0.0 by {
                assert(shown[i] == all[all.len() - 1 - i]);
                assert(all[at].rank() < all[all.len() - 1 - i].rank());
            }
        }
    }
}

/// Feedback is given by anyone but the assistant. It names no candidate if it misses one,
/// and names one otherwise, at a revision that the recall case has; and the case is the one
/// that was seen.
pub proof fn feedback_is_heard(
    s: StoreModel,
    operation: OperationContext,
    input: NewRecallFeedback,
    request: Seq<u8>,
    fresh: FreshModel,
)
    requires
        !s.operations.contains_key(operation.id),
    ensures
        s.record_recall_feedback(operation, input, request, fresh) is Ok <==> {
            &&& !(operation.actor is Assistant)
            &&& input.kind is MissingExpectedRecord <==> input.candidate is None
            &&& lookup(s.recall_cases, input.recall_case_id) matches Some(case)
            &&& case.revision == input.recall_case_revision
            &&& input.candidate matches Some(pin) ==> exists|i: int|
                0 <= i < case.candidates.len() && (#[trigger] case.candidates[i]).record == pin.record
                    && case.candidates[i].revision == pin.revision
        },
        s.record_recall_feedback(operation, input, request, fresh) matches Ok((after, feedback)) ==> {
            &&& lookup(after.recall_feedback, feedback.id) == Some(feedback)
            &&& feedback.actor == operation.actor && feedback.operation_id == operation.id && feedback.era_id == s.era_id
            &&& feedback.recall_case_id == input.recall_case_id && feedback.recall_case_revision
                == input.recall_case_revision
            &&& feedback.candidate == input.candidate && feedback.kind == input.kind
            &&& feedback.recorded_at_ms == fresh.recorded_at_ms
        },
{
    reveal(StoreModel::replay);
    reveal(StoreModel::feedback_fault);
    broadcast use crate::writing::parts_after_put;
}

/// A review is given by anyone but the user, of a proposal that waits for it, is active
/// and is as it was seen, on a recall case in the proposal's scope. It approves
/// with nothing to find fault with, finds fault with at most 64 things, each in a change
/// that there is and with at most 64 pins.
pub proof fn reviews_are_heard(
    s: StoreModel,
    operation: OperationContext,
    input: NewProposalReviewModel,
    request: Seq<u8>,
    fresh: FreshModel,
    after: StoreModel,
    receipt: ProposalReviewReceipt,
)
    requires
        s.review_proposal(operation, input, request, fresh) == MemoryResult::Ok((after, receipt)),
        !s.operations.contains_key(operation.id),
    ensures
        !(operation.actor is User),
        input.findings.len() <= 64,
        s.inspect_proposal(input.proposal_id) matches Some(proposal) && {
            &&& proposal.header.revision == input.proposal_revision
            &&& proposal.header.state == RecordState::Active
            &&& proposal.header.status is PendingReview
            &&& proposal.changes matches Some(changes) && forall|i: int|
                0 <= i < input.findings.len() ==> ((#[trigger] input.findings[i]).change_index matches Some(at)
                    ==> at < changes.len())
            &&& lookup(s.recall_cases, input.recall_case_id) matches Some(case) && case.revision
                == input.recall_case_revision && case.scopes.contains(proposal.header.scope)
        },
        input.verdict is Approve ==> input.findings.len() == 0,
        forall|i: int| 0 <= i < input.findings.len() ==> (#[trigger] input.findings[i]).pins.to_set().len() <= 64,
{
    reveal(StoreModel::replay);
    reveal(sound_review);
    reveal(StoreModel::reviewable);
    let review = sound_review(input)->Ok_0;
    findings_are_kept(input.findings, input.findings.len());
    let proposal = s.inspect_proposal(input.proposal_id)->Some_0;
    let changes = proposal.changes->Some_0;
    assert forall|i: int| 0 <= i < input.findings.len() implies ((#[trigger] input.findings[i]).change_index matches Some(
        at,
    ) ==> at < changes.len()) by {
        assert(review.findings[i].change_index == input.findings[i].change_index);
        if input.findings[i].change_index is Some && input.findings[i].change_index->Some_0 >= changes.len() {
            assert(finding_out_of_range(review.findings, changes.len()));
        }
    }
}

proof fn findings_are_kept(findings: Seq<ProposalReviewFindingModel>, n: nat)
    requires
        n <= findings.len(),
    ensures
        sound_findings(findings, n) matches Ok(kept) ==> kept.len() == n && forall|i: int|
            0 <= i < n ==> (#[trigger] findings[i]).pins.to_set().len() <= 64 && kept[i].change_index
                == findings[i].change_index && kept[i].pins.to_set() == findings[i].pins.to_set(),
    decreases n,
{
    if n > 0 {
        let m = (n - 1) as nat;
        findings_are_kept(findings, m);
        vstd::seq_lib::seq_to_set_is_finite(findings[m as int].pins);
        lists_are_as_long(findings[m as int].pins.to_set());
        match sound_findings(findings, n) {
            Ok(kept) => {
                let before = sound_findings(findings, m)->Ok_0;
                assert forall|i: int| 0 <= i < n implies (#[trigger] findings[i]).pins.to_set().len() <= 64
                    && kept[i].change_index == findings[i].change_index && kept[i].pins.to_set()
                    == findings[i].pins.to_set() by {
                    if i < m {
                        assert(kept[i] == before[i]);
                    }
                }
            },
            _ => {},
        }
    }
}

} // verus!
