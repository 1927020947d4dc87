//! How a proposal comes to its end: what a review makes of it, who decides on it, and
//! what a decision leads to.

use vstd::prelude::*;
use crate::adjudication::{candidate_pins, finding_pins, holds_authority};
use crate::applying::Applied;
use crate::bundles::{change_pins, existing_pins, pins_in};
use crate::clock::FreshModel;
use crate::context::OperationContext;
use crate::fault::MemoryResult;
use crate::order::in_order_lists;
use crate::proceeding::proposals_name_themselves;
use crate::records::evidence::{Actor, RecordRef, RecordState, Scope};
use crate::records::proposal::{
    AdjudicationAuthority, NewProposalReviewModel, ProposalAdjudication,
    ProposalAdjudicationReceiptModel, ProposalChangeModel, ProposalEndpoint, ProposalRecordModel,
    ProposalReviewCaseModel, ProposalReviewFindingModel, ProposalReviewReceipt,
};
use crate::records::recall::{
    EvidenceRevisionPin, RecallCaseCandidate, RecallCaseModel, RecordRevisionPin,
};
use crate::reviews::{pin_is_known, sound_review};
use crate::store::StoreModel;
use crate::workflow::{resting_aside, reviews_read_back};

verus! {

/// After a review a proposal stands as the verdict says: approved if and only if the
/// verdict approves, rejected if and only if it rejects, with the user if and only if it
/// needs them, and unsupported if and only if the verdict finds it so. It waits for a
/// decision unless it is unsupported, and no longer for a review.
pub proof fn verdicts_settle_the_status(
    s: StoreModel,
    operation: OperationContext,
    input: NewProposalReviewModel,
    request: Seq<u8>,
    fresh: FreshModel,
    after: StoreModel,
    receipt: ProposalReviewReceipt,
)
    requires
        s.review_proposal(operation, input, request, fresh) == MemoryResult::Ok((after, receipt)),
        !s.operations.contains_key(operation.id),
        s.is_kept(),
    ensures
        after.inspect_proposal(input.proposal_id) matches Some(found) && {
            &&& found.header.status == receipt.proposal.status
            &&& found.header.status is ReviewedApprove <==> input.verdict is Approve
            &&& found.header.status is ReviewedReject <==> input.verdict is Reject
            &&& found.header.status is NeedsUser <==> input.verdict is NeedsUser
            &&& found.header.status is Unsupported <==> input.verdict is Unsupported
            &&& found.header.state == RecordState::Active
            &&& found.header.revision == input.proposal_revision + 1
            &&& found.header.previous_revision == Some(input.proposal_revision)
            &&& found.header.id == input.proposal_id
            &&& Some(found.changes) == (match s.inspect_proposal(input.proposal_id) {
                Some(before) => Some(before.changes),
                None => None,
            })
        },
        after.awaiting_adjudication.contains_key(input.proposal_id) <==> !(input.verdict is Unsupported),
        !after.pending_proposals.contains_key(input.proposal_id),
{
    broadcast use resting_aside;

    let review = sound_review(input)->Ok_0;
    reviews_read_back(s, operation, input, request, fresh, after, receipt, review);
    reveal(StoreModel::replay);
    reveal(sound_review);
    reveal(StoreModel::reviewable);
    let (proposal, _) = s.reviewable(review)->Ok_0;
    assert(s.inspect_proposal(input.proposal_id) == Some(proposal));
    proposals_name_themselves(s, input.proposal_id);
    broadcast use crate::writing::parts_after_put;
    reveal(StoreModel::with_review);
    reveal(StoreModel::inspect_proposal);
    reveal(StoreModel::proposal_at);
}

/// Only what a review approved, or left to the user, can be accepted: while a proposal
/// stands in any other way but as stale, a request to accept it is refused.
pub proof fn only_reviewed_proposals_are_accepted(
    s: StoreModel,
    operation: OperationContext,
    input: ProposalAdjudication,
    request: Seq<u8>,
    fresh: FreshModel,
    found: ProposalRecordModel,
)
    requires
        s.inspect_proposal(input.proposal_id) == Some(found),
        !(found.header.status is ReviewedApprove || found.header.status is NeedsUser || found.header.status is Stale),
        !s.operations.contains_key(operation.id),
        input.decision is Accept,
    ensures
        s.adjudicate_proposal(operation, input, request, fresh) is Err,
{
    reveal(StoreModel::replay);
    reveal(StoreModel::adjudicable);
    reveal(StoreModel::accepted);
}

/// A proposal that its review rejects cannot be accepted.
pub proof fn rejected_proposals_are_not_accepted(
    s: StoreModel,
    operation: OperationContext,
    input: NewProposalReviewModel,
    request: Seq<u8>,
    fresh: FreshModel,
    after: StoreModel,
    receipt: ProposalReviewReceipt,
    later: OperationContext,
    decision: ProposalAdjudication,
    later_request: Seq<u8>,
    later_fresh: FreshModel,
)
    requires
        s.review_proposal(operation, input, request, fresh) == MemoryResult::Ok((after, receipt)),
        !s.operations.contains_key(operation.id),
        s.is_kept(),
        input.verdict is Reject || input.verdict is Unsupported,
        !after.operations.contains_key(later.id),
        decision.proposal_id == input.proposal_id,
        decision.decision is Accept,
    ensures
        after.adjudicate_proposal(later, decision, later_request, later_fresh) is Err,
{
    verdicts_settle_the_status(s, operation, input, request, fresh, after, receipt);
    only_reviewed_proposals_are_accepted(
        after,
        later,
        decision,
        later_request,
        later_fresh,
        after.inspect_proposal(input.proposal_id)->Some_0,
    );
}

/// People decide, each in their own name: the user with the authority of the user, the
/// operator with that of the operator, and nobody else with any.
pub proof fn people_decide_in_their_own_name(actor: Actor, authority: AdjudicationAuthority)
    ensures
        holds_authority(actor, authority) <==> match authority {
            AdjudicationAuthority::ExplicitUser => actor is User,
            AdjudicationAuthority::ExplicitOperator => actor is Operator,
        },
{
}

/// Whether a record stands as it was pinned: active, at the pinned revision and, where a
/// scope is given, in it.
pub open spec fn pin_holds(s: StoreModel, pin: RecordRevisionPin, scope: Option<Scope>) -> bool {
    match s.standing(pin.record) {
        Ok((found, state, revision)) => {
            &&& state == RecordState::Active
            &&& revision == pin.revision
            &&& scope matches Some(wanted) ==> found == wanted
        },
        Err(_) => false,
    }
}

/// Whether evidence stands as it was pinned: there, active, at the pinned revision and in
/// a scope.
pub open spec fn evidence_holds(s: StoreModel, pin: EvidenceRevisionPin, scope: Scope) -> bool {
    match s.inspect_evidence(pin.id) {
        Ok(Some(evidence)) => {
            &&& evidence.availability.state == RecordState::Active
            &&& evidence.availability.revision == pin.revision
            &&& evidence.header.scope == scope
        },
        _ => false,
    }
}

/// Whether the records that a change speaks of stand as it pins them.
pub open spec fn change_holds(s: StoreModel, change: ProposalChangeModel, scope: Scope) -> bool {
    match change {
        ProposalChangeModel::CreateRelation { from, to, .. } => {
            &&& from matches ProposalEndpoint::Existing(pin) ==> pin_holds(s, pin, Some(scope))
            &&& to matches ProposalEndpoint::Existing(pin) ==> pin_holds(s, pin, Some(scope))
        },
        ProposalChangeModel::Retract { target } => pin_holds(s, target, Some(scope)),
        ProposalChangeModel::Supersede { target, .. } => pin_holds(s, target, Some(scope)),
        _ => true,
    }
}

/// Whether a pin of a finding is one that its review may name: evidence of the proposal
/// or a candidate of the recall case, at the revision pinned there.
pub open spec fn finding_may_name(
    proposal: ProposalRecordModel,
    case: RecallCaseModel,
    pin: RecordRevisionPin,
) -> bool {
    ||| exists|i: int|
        0 <= i < proposal.source_evidence.len() && pin == (RecordRevisionPin {
            record: RecordRef::Evidence((#[trigger] proposal.source_evidence[i]).id),
            revision: proposal.source_evidence[i].revision,
        })
    ||| exists|i: int|
        0 <= i < case.candidates.len() && pin == (RecordRevisionPin {
            record: (#[trigger] case.candidates[i]).record,
            revision: case.candidates[i].revision,
        })
}

/// Whether everything that an accepted proposal was decided on still stands: its evidence,
/// what its changes pin, what its review was shown and found, and the review itself.
pub open spec fn grounds_hold(
    s: StoreModel,
    proposal: ProposalRecordModel,
    changes: Seq<ProposalChangeModel>,
    review: ProposalReviewCaseModel,
    findings: Seq<ProposalReviewFindingModel>,
    case: RecallCaseModel,
) -> bool {
    let scope = proposal.header.scope;
    &&& review.header.state == RecordState::Active && review.header.scope == scope
    &&& case.revision == review.header.recall_case_revision && case.scopes.contains(scope)
    &&& forall|i: int|
        0 <= i < proposal.source_evidence.len() ==> evidence_holds(s, #[trigger] proposal.source_evidence[i], scope)
    &&& forall|i: int| 0 <= i < changes.len() ==> change_holds(s, #[trigger] changes[i], scope)
    &&& forall|i: int|
        0 <= i < case.candidates.len() ==> pin_holds(
            s,
            RecordRevisionPin {
                record: (#[trigger] case.candidates[i]).record,
                revision: case.candidates[i].revision,
            },
            None,
        )
    &&& forall|i: int, j: int|
        0 <= i < findings.len() && 0 <= j < findings[i].pins.len() ==> finding_may_name(
            proposal,
            case,
            #[trigger] findings[i].pins[j],
        ) && pin_holds(s, findings[i].pins[j], Some(scope))
}

proof fn evidence_pins_tell(s: StoreModel, pins: Seq<EvidenceRevisionPin>, scope: Scope, n: nat)
    requires
        n <= pins.len(),
    ensures
        s.evidence_pins_current(pins, scope, n) == MemoryResult::Ok(true) <==> forall|i: int|
            0 <= i < n ==> evidence_holds(s, #[trigger] pins[i], scope),
    decreases n,
{
    if n > 0 {
        evidence_pins_tell(s, pins, scope, (n - 1) as nat);
        assert(s.evidence_pin_is_current(pins[n - 1], scope) == MemoryResult::Ok(true) <==> evidence_holds(
            s,
            pins[n - 1],
            scope,
        ));
    }
}

proof fn record_pins_tell(s: StoreModel, pins: Seq<RecordRevisionPin>, scope: Option<Scope>, n: nat)
    requires
        n <= pins.len(),
    ensures
        s.record_pins_current(pins, scope, n) == MemoryResult::Ok(true) <==> forall|i: int|
            0 <= i < n ==> pin_holds(s, #[trigger] pins[i], scope),
    decreases n,
{
    if n > 0 {
        record_pins_tell(s, pins, scope, (n - 1) as nat);
        assert(s.record_pin_is_current(pins[n - 1], scope) == MemoryResult::Ok(true) <==> pin_holds(
            s,
            pins[n - 1],
            scope,
        ));
    }
}

proof fn known_pins_tell(
    s: StoreModel,
    sources: Seq<EvidenceRevisionPin>,
    candidates: Seq<RecallCaseCandidate>,
    pins: Seq<RecordRevisionPin>,
    scope: Scope,
    n: nat,
)
    requires
        n <= pins.len(),
    ensures
        s.known_pins_current(sources, candidates, pins, scope, n) == MemoryResult::Ok(true) <==> forall|i: int|
            0 <= i < n ==> pin_is_known(sources, candidates, #[trigger] pins[i]) && pin_holds(
                s,
                pins[i],
                Some(scope),
            ),
    decreases n,
{
    if n > 0 {
        known_pins_tell(s, sources, candidates, pins, scope, (n - 1) as nat);
        assert(s.record_pin_is_current(pins[n - 1], Some(scope)) == MemoryResult::Ok(true) <==> pin_holds(
            s,
            pins[n - 1],
            Some(scope),
        ));
    }
}

/// A pin is of one of some findings if and only if it is in the list of their pins.
proof fn findings_list_their_pins(findings: Seq<ProposalReviewFindingModel>, pin: RecordRevisionPin, n: nat)
    requires
        n <= findings.len(),
    ensures
        finding_pins(findings, n).contains(pin) <==> exists|i: int, j: int|
            0 <= i < n && 0 <= j < findings[i].pins.len() && #[trigger] findings[i].pins[j] == pin,
    decreases n,
{
    if n > 0 {
        let m = (n - 1) as nat;
        findings_list_their_pins(findings, pin, m);
        let before = finding_pins(findings, m);
        let last = findings[n - 1].pins;
        let all = finding_pins(findings, n);
        assert(all == before + last);
        if all.contains(pin) {
            let k = choose|k: int| 0 <= k < all.len() && all[k] == pin;
            if k < before.len() {
                assert(before[k] == pin);
                assert(before.contains(pin));
            } else {
                assert(findings[n - 1].pins[k - before.len()] == pin);
            }
        }
        if exists|i: int, j: int| 0 <= i < n && 0 <= j < findings[i].pins.len() && #[trigger] findings[i].pins[j] == pin {
            let (i, j) = choose|i: int, j: int|
                0 <= i < n && 0 <= j < findings[i].pins.len() && #[trigger] findings[i].pins[j] == pin;
            if i < m {
                assert(findings[i].pins[j] == pin);
                assert(before.contains(pin));
                let k = choose|k: int| 0 <= k < before.len() && before[k] == pin;
                assert(all[k] == pin);
            } else {
                assert(all[before.len() + j] == pin);
            }
        }
    }
}

/// The pins of one change.
spec fn pins_of_change(change: ProposalChangeModel) -> Set<RecordRevisionPin> {
    match change {
        ProposalChangeModel::CreateRelation { from, to, .. } => pins_of_end(from).union(pins_of_end(to)),
        ProposalChangeModel::Retract { target } => set![target],
        ProposalChangeModel::Supersede { target, .. } => set![target],
        _ => Set::empty(),
    }
}

spec fn pins_of_end(end: ProposalEndpoint) -> Set<RecordRevisionPin> {
    match end {
        ProposalEndpoint::Existing(pin) => set![pin],
        ProposalEndpoint::Draft(_) => Set::empty(),
    }
}

/// Changes pin finitely many records.
pub proof fn changes_pin_finitely(changes: Seq<ProposalChangeModel>)
    ensures
        pins_in(changes).finite(),
    decreases changes.len(),
{
    if changes.len() == 0 {
        assert(pins_in(changes) =~= Set::empty());
    } else {
        let rest = changes.drop_last();
        changes_pin_finitely(rest);
        let all = pins_in(rest).union(pins_of_change(changes.last()));
        assert(all.finite());
        assert forall|pin: RecordRevisionPin| pins_in(changes).contains(pin) implies all.contains(pin) by {
            let i = choose|i: int| 0 <= i < changes.len() && change_pins(#[trigger] changes[i], pin);
            if i < rest.len() {
                assert(change_pins(rest[i], pin));
                assert(pins_in(rest).contains(pin));
            } else {
                assert(pins_of_change(changes.last()).contains(pin));
            }
        }
        assert(pins_in(changes).subset_of(all));
        vstd::set_lib::lemma_len_subset(pins_in(changes), all);
    }
}

/// Changes hold if and only if all that they pin does.
pub proof fn changes_hold_by_their_pins(s: StoreModel, changes: Seq<ProposalChangeModel>, scope: Scope)
    ensures
        (forall|i: int| 0 <= i < changes.len() ==> change_holds(s, #[trigger] changes[i], scope)) <==> forall|i: int|
            0 <= i < existing_pins(changes).len() ==> pin_holds(s, #[trigger] existing_pins(changes)[i], Some(scope)),
{
    let pins = existing_pins(changes);
    changes_pin_finitely(changes);
    in_order_lists(pins_in(changes));
    if forall|i: int| 0 <= i < pins.len() ==> pin_holds(s, #[trigger] pins[i], Some(scope)) {
        assert forall|i: int| 0 <= i < changes.len() implies change_holds(s, #[trigger] changes[i], scope) by {
            assert forall|pin: RecordRevisionPin| change_pins(changes[i], pin) implies pin_holds(
                s,
                pin,
                Some(scope),
            ) by {
                assert(pins_in(changes).contains(pin));
                assert(pins.contains(pin));
                let k = choose|k: int| 0 <= k < pins.len() && pins[k] == pin;
                assert(pin_holds(s, pins[k], Some(scope)));
            }
            match changes[i] {
                ProposalChangeModel::CreateRelation { from, to, .. } => {
                    if let ProposalEndpoint::Existing(pin) = from {
                        assert(change_pins(changes[i], pin));
                    }
                    if let ProposalEndpoint::Existing(pin) = to {
                        assert(change_pins(changes[i], pin));
                    }
                },
                ProposalChangeModel::Retract { target } => {
                    assert(change_pins(changes[i], target));
                },
                ProposalChangeModel::Supersede { target, .. } => {
                    assert(change_pins(changes[i], target));
                },
                _ => {},
            }
        }
    }
    if forall|i: int| 0 <= i < changes.len() ==> change_holds(s, #[trigger] changes[i], scope) {
        assert forall|k: int| 0 <= k < pins.len() implies pin_holds(s, #[trigger] pins[k], Some(scope)) by {
            assert(pins.contains(pins[k]));
            assert(pins_in(changes).contains(pins[k]));
            let i = choose|i: int| 0 <= i < changes.len() && change_pins(#[trigger] changes[i], pins[k]);
            assert(change_holds(s, changes[i], scope));
        }
    }
}

/// The grounds of a decision are found current if and only if they all hold.
pub proof fn grounds_are_current_when_they_hold(
    s: StoreModel,
    proposal: ProposalRecordModel,
    changes: Seq<ProposalChangeModel>,
    review: ProposalReviewCaseModel,
    findings: Seq<ProposalReviewFindingModel>,
    case: RecallCaseModel,
)
    ensures
        s.grounds_current(proposal, changes, review, findings, case) == MemoryResult::Ok(true) <==> grounds_hold(
            s,
            proposal,
            changes,
            review,
            findings,
            case,
        ),
{
    reveal(StoreModel::grounds_current);
    let scope = proposal.header.scope;
    let sources = proposal.source_evidence;
    let pins = existing_pins(changes);
    let candidates = candidate_pins(case.candidates);
    let found = finding_pins(findings, findings.len());
    evidence_pins_tell(s, sources, scope, sources.len());
    record_pins_tell(s, pins, Some(scope), pins.len());
    record_pins_tell(s, candidates, None, candidates.len());
    known_pins_tell(s, sources, case.candidates, found, scope, found.len());
    changes_hold_by_their_pins(s, changes, scope);
    assert((forall|i: int| 0 <= i < candidates.len() ==> pin_holds(s, #[trigger] candidates[i], None)) <==> forall|i: int|
        0 <= i < case.candidates.len() ==> pin_holds(
            s,
            RecordRevisionPin {
                record: (#[trigger] case.candidates[i]).record,
                revision: case.candidates[i].revision,
            },
            None,
        )) by {
        assert forall|i: int| 0 <= i < candidates.len() implies #[trigger] candidates[i] == (RecordRevisionPin {
            record: case.candidates[i].record,
            revision: case.candidates[i].revision,
        }) by {}
        if forall|i: int| 0 <= i < candidates.len() ==> pin_holds(s, #[trigger] candidates[i], None) {
            assert forall|i: int| 0 <= i < case.candidates.len() implies pin_holds(
                s,
                RecordRevisionPin {
                    record: (#[trigger] case.candidates[i]).record,
                    revision: case.candidates[i].revision,
                },
                None,
            ) by {
                assert(pin_holds(s, candidates[i], None));
            }
        }
    }
    assert forall|pin: RecordRevisionPin| #[trigger] pin_is_known(sources, case.candidates, pin) <==> finding_may_name(
        proposal,
        case,
        pin,
    ) by {
        if pin_is_known(sources, case.candidates, pin) {
            if exists|i: int|
                0 <= i < sources.len() && RecordRef::Evidence((#[trigger] sources[i]).id) == pin.record
                    && sources[i].revision == pin.revision {
                let i = choose|i: int|
                    0 <= i < sources.len() && RecordRef::Evidence((#[trigger] sources[i]).id) == pin.record
                        && sources[i].revision == pin.revision;
                assert(pin == (RecordRevisionPin {
                    record: RecordRef::Evidence(proposal.source_evidence[i].id),
                    revision: proposal.source_evidence[i].revision,
                }));
            } else {
                let i = choose|i: int|
                    0 <= i < case.candidates.len() && (#[trigger] case.candidates[i]).record == pin.record
                        && case.candidates[i].revision == pin.revision;
                assert(pin == (RecordRevisionPin {
                    record: case.candidates[i].record,
                    revision: case.candidates[i].revision,
                }));
            }
        }
    }
    let all = forall|i: int|
        0 <= i < found.len() ==> pin_is_known(sources, case.candidates, #[trigger] found[i]) && pin_holds(
            s,
            found[i],
            Some(scope),
        );
    let each = forall|i: int, j: int|
        0 <= i < findings.len() && 0 <= j < findings[i].pins.len() ==> finding_may_name(
            proposal,
            case,
            #[trigger] findings[i].pins[j],
        ) && pin_holds(s, findings[i].pins[j], Some(scope));
    if all {
        assert forall|i: int, j: int| 0 <= i < findings.len() && 0 <= j < findings[i].pins.len() implies finding_may_name(
            proposal,
            case,
            #[trigger] findings[i].pins[j],
        ) && pin_holds(s, findings[i].pins[j], Some(scope)) by {
            let pin = findings[i].pins[j];
            findings_list_their_pins(findings, pin, findings.len());
            assert(found.contains(pin));
            let k = choose|k: int| 0 <= k < found.len() && found[k] == pin;
            assert(pin_is_known(sources, case.candidates, found[k]));
        }
    }
    if each {
        assert forall|k: int| 0 <= k < found.len() implies pin_is_known(sources, case.candidates, #[trigger] found[k])
            && pin_holds(s, found[k], Some(scope)) by {
            assert(found.contains(found[k]));
            findings_list_their_pins(findings, found[k], findings.len());
            let (i, j) = choose|i: int, j: int|
                0 <= i < findings.len() && 0 <= j < findings[i].pins.len() && #[trigger] findings[i].pins[j] == found[k];
            assert(finding_may_name(proposal, case, findings[i].pins[j]));
        }
    }
    assert(all <==> each);
}

/// A decision ends a proposal as it says. One that rejects leaves it rejected and changes
/// nothing else. One that accepts applies it if everything that it was decided on still
/// stands, and otherwise leaves it stale and changes nothing else. A proposal that was
/// stale before stays so. In every case the decision was made by someone with the
/// authority that it claims, on a review of the revision before.
pub proof fn decisions_end_proposals(
    s: StoreModel,
    operation: OperationContext,
    input: ProposalAdjudication,
    request: Seq<u8>,
    fresh: FreshModel,
    after: StoreModel,
    receipt: ProposalAdjudicationReceiptModel,
    proposal: ProposalRecordModel,
    changes: Seq<ProposalChangeModel>,
)
    requires
        s.adjudicate_proposal(operation, input, request, fresh) == MemoryResult::Ok((after, receipt)),
        !s.operations.contains_key(operation.id),
        s.inspect_proposal(input.proposal_id) == Some(proposal),
        proposal.changes == Some(changes),
        s.is_kept(),
    ensures
        (operation.actor is User && input.authority is ExplicitUser) || (operation.actor is Operator && input.authority
            is ExplicitOperator),
        proposal.header.revision == input.expected_proposal_revision,
        after.inspect_proposal(input.proposal_id) matches Some(found) && found.header.status
            == receipt.proposal.status && found.header.revision == receipt.proposal.revision,
        receipt.proposal.id == input.proposal_id,
        proposal.header.status is Stale ==> receipt.proposal.status is Stale && receipt.proposal.revision
            == proposal.header.revision,
        !(proposal.header.status is Stale) ==> {
            let review = s.inspect_proposal_review(input.review_case_id)->Some_0;
            &&& s.inspect_proposal_review(input.review_case_id) is Some
            &&& review.header.revision == input.expected_review_revision
            &&& review.header.proposal_id == input.proposal_id
            &&& proposal.header.previous_revision == Some(review.header.proposal_revision)
            &&& receipt.proposal.revision == proposal.header.revision + 1
            &&& input.decision is Reject ==> receipt.proposal.status is Rejected
            &&& input.decision is Accept ==> {
                let held = grounds_hold(
                    s,
                    proposal,
                    changes,
                    review,
                    review.findings->Some_0,
                    s.recall_cases[review.header.recall_case_id],
                );
                &&& proposal.header.status is ReviewedApprove || proposal.header.status is NeedsUser
                &&& held ==> receipt.proposal.status is Applied
                &&& !held ==> receipt.proposal.status is Stale
            }
        },
        !(receipt.proposal.status is Applied) ==> receipt.changed_records.len() == 0 && receipt.draft_mappings.len()
            == 0,
{
    reveal(StoreModel::replay);
    reveal(StoreModel::adjudicable);
    reveal(StoreModel::deciding_review);
    reveal(StoreModel::stale_acknowledged);
    reveal(StoreModel::accepted);
    reveal(StoreModel::closed);
    reveal(StoreModel::applied);
    proposals_name_themselves(s, input.proposal_id);
    broadcast use crate::writing::parts_after_put;
    reveal(StoreModel::inspect_proposal);
    reveal(StoreModel::proposal_at);
    if !(proposal.header.status is Stale) && input.decision is Accept {
        let review = s.inspect_proposal_review(input.review_case_id)->Some_0;
        grounds_are_current_when_they_hold(
            s,
            proposal,
            changes,
            review,
            review.findings->Some_0,
            s.recall_cases[review.header.recall_case_id],
        );
    }
}

} // verus!
