//! Reviews of proposals.
use vstd::prelude::*;
use crate::clock::{Fresh, FreshModel};
use crate::context::OperationContext;
use crate::digest::{mutation_digest, mutation_digest_of};
use crate::fault::{CorruptFault, InputFault, MemoryError, MemoryResult, corrupt, invalid};
use crate::ids::{OperationId, ProposalId, ProposalReviewCaseId};
use crate::inspect::{lookup, revision_of, shown};
use crate::keys::RevisionKey;
use crate::order::{Ranked, in_order, in_order_is_unique, increasing, sorted_distinct};
use crate::proposals::{proposal_receipt, proposal_receipt_of};
use crate::records::audit::AuditAction;
use crate::records::evidence::{Actor, RecordRef, RecordState, Scope};
use crate::records::proposal::{
    NewProposalReview, NewProposalReviewModel, ProposalRecord, ProposalRecordModel,
    ProposalReviewCaseHeader, ProposalReviewFinding, ProposalReviewFindingModel,
    ProposalReviewPayload, ProposalReviewPayloadModel, ProposalReviewPointer,
    ProposalReviewReceipt, ProposalReviewVerdict, ProposalRevisionHeader, ProposalStatus,
};
use crate::records::recall::{
    EvidenceRevisionPin, RecallCase, RecallCaseCandidate, RecallCaseModel, RecordRevisionPin,
};
use crate::records::receipt::{Receipt, ReceiptModel};
use crate::staging::{
    Planned, awaits_adjudication, commits, plans, proposal_status_awaits_adjudication,
};
use crate::store::{Batch, MemoryDatabase, StoreModel, Write, WriteModel};
use crate::table::views;

verus! {

pub const MAX_REVIEW_FINDINGS: usize = 64;

pub const MAX_REVIEW_PINS_PER_FINDING: usize = 64;

/// The first `n` findings with their pins in order.
pub open spec fn sound_findings(findings: Seq<ProposalReviewFindingModel>, n: nat) -> MemoryResult<
    Seq<ProposalReviewFindingModel>,
>
    decreases n,
{
    if n == 0 {
        Ok(Seq::empty())
    } else {
        match sound_findings(findings, (n - 1) as nat) {
            Err(error) => Err(error),
            Ok(before) => {
                let pins = in_order(findings[n - 1].pins.to_set());
                if pins.len() > MAX_REVIEW_PINS_PER_FINDING {
                    invalid(InputFault::FindingPinCount)
                } else {
                    Ok(before.push(ProposalReviewFindingModel { pins, ..findings[n - 1] }))
                }
            },
        }
    }
}

/// A review in its normal form.
#[verifier::opaque]
pub open spec fn sound_review(input: NewProposalReviewModel) -> MemoryResult<NewProposalReviewModel> {
    if input.findings.len() > MAX_REVIEW_FINDINGS {
        invalid(InputFault::ReviewFindingCount)
    } else {
        match sound_findings(input.findings, input.findings.len()) {
            Err(error) => Err(error),
            Ok(findings) => Ok(NewProposalReviewModel { findings, ..input }),
        }
    }
}

proof fn findings_refusal_persists(findings: Seq<ProposalReviewFindingModel>, n: nat, m: nat)
    requires
        n <= m,
        sound_findings(findings, n) is Err,
    ensures
        sound_findings(findings, m) == sound_findings(findings, n),
    decreases m,
{
    if n < m {
        findings_refusal_persists(findings, n, (m - 1) as nat);
    }
}

/// What is to be recorded of a review that an actor asks for: a user reviews nothing.
pub fn review_request(actor: Actor, input: &NewProposalReview) -> (r: MemoryResult<NewProposalReview>)
    ensures
        shown(r) == (if actor == Actor::User {
            Err(MemoryError::Unauthorized)
        } else {
            sound_review(input@)
        }),
{
    if actor == Actor::User {
        return Err(MemoryError::Unauthorized);
    }
    normalize_review(input)
}

/// The review as it is encoded, with the pins of its findings in order.
pub fn normalize_review(input: &NewProposalReview) -> (r: MemoryResult<NewProposalReview>)
    ensures
        shown(r) == sound_review(input@),
{
    reveal(sound_review);
    let ghost all = views(input.findings@);
    assert(all.len() == input.findings@.len());
    if input.findings.len() > MAX_REVIEW_FINDINGS {
        return Err(MemoryError::InvalidInput(InputFault::ReviewFindingCount));
    }
    let mut findings: Vec<ProposalReviewFinding> = Vec::new();
    assert(views(findings@) =~= Seq::<ProposalReviewFindingModel>::empty());
    for i in 0..input.findings.len()
        invariant
            all == views(input.findings@),
            all.len() == input.findings@.len(),
            all.len() <= MAX_REVIEW_FINDINGS,
            sound_findings(all, i as nat) == Ok::<Seq<ProposalReviewFindingModel>, MemoryError>(views(findings@)),
    {
        assert(views(input.findings@)[i as int] == input.findings@[i as int]@);
        let pins = sorted_distinct(&input.findings[i].pins);
        if pins.len() > MAX_REVIEW_PINS_PER_FINDING {
            proof {
                findings_refusal_persists(all, (i + 1) as nat, all.len());
            }
            reveal(sound_review);
            return Err(MemoryError::InvalidInput(InputFault::FindingPinCount));
        }
        let finding = ProposalReviewFinding {
            code: input.findings[i].code,
            change_index: input.findings[i].change_index,
            pins,
        };
        let ghost before = findings@;
        findings.push(finding);
        assert(views(findings@) =~= views(before).push(finding@));
    }
    Ok(
        NewProposalReview {
            proposal_id: input.proposal_id,
            proposal_revision: input.proposal_revision,
            recall_case_id: input.recall_case_id,
            recall_case_revision: input.recall_case_revision,
            verdict: input.verdict,
            findings,
        },
    )
}

/// The status that a verdict gives a proposal.
pub open spec fn status_after(verdict: ProposalReviewVerdict) -> ProposalStatus {
    match verdict {
        ProposalReviewVerdict::Approve => ProposalStatus::ReviewedApprove,
        ProposalReviewVerdict::Reject => ProposalStatus::ReviewedReject,
        ProposalReviewVerdict::NeedsUser => ProposalStatus::NeedsUser,
        ProposalReviewVerdict::Unsupported => ProposalStatus::Unsupported,
    }
}

fn verdict_status(verdict: ProposalReviewVerdict) -> (r: ProposalStatus)
    ensures
        r == status_after(verdict),
{
    match verdict {
        ProposalReviewVerdict::Approve => ProposalStatus::ReviewedApprove,
        ProposalReviewVerdict::Reject => ProposalStatus::ReviewedReject,
        ProposalReviewVerdict::NeedsUser => ProposalStatus::NeedsUser,
        ProposalReviewVerdict::Unsupported => ProposalStatus::Unsupported,
    }
}

/// The next revision of a proposal, with another status.
pub open spec fn restated(
    current: ProposalRevisionHeader,
    status: ProposalStatus,
    operation_id: OperationId,
    recorded_at_ms: i64,
) -> MemoryResult<ProposalRevisionHeader> {
    if current.revision == u64::MAX {
        corrupt(CorruptFault::ProposalRevisionOverflow)
    } else {
        Ok(
            ProposalRevisionHeader {
                revision: (current.revision + 1) as u64,
                previous_revision: Some(current.revision),
                status,
                recorded_at_ms,
                operation_id,
                ..current
            },
        )
    }
}

pub fn next_proposal_status(
    current: &ProposalRevisionHeader,
    status: ProposalStatus,
    operation_id: OperationId,
    recorded_at_ms: i64,
) -> (r: MemoryResult<ProposalRevisionHeader>)
    ensures
        r == restated(*current, status, operation_id, recorded_at_ms),
{
    if current.revision == u64::MAX {
        return Err(MemoryError::Corrupt(CorruptFault::ProposalRevisionOverflow));
    }
    Ok(
        ProposalRevisionHeader {
            id: current.id,
            revision: current.revision + 1,
            previous_revision: Some(current.revision),
            source_job_id: current.source_job_id,
            scope: current.scope,
            status,
            state: current.state,
            recorded_at_ms,
            operation_id,
        },
    )
}

/// Whether a finding may name a pin: it is evidence of the proposal or a candidate of
/// the recall case.
pub open spec fn pin_is_known(
    sources: Seq<EvidenceRevisionPin>,
    candidates: Seq<RecallCaseCandidate>,
    pin: RecordRevisionPin,
) -> bool {
    ||| exists|i: int|
        0 <= i < sources.len() && RecordRef::Evidence((#[trigger] sources[i]).id) == pin.record
            && sources[i].revision == pin.revision
    ||| exists|i: int|
        0 <= i < candidates.len() && (#[trigger] candidates[i]).record == pin.record && candidates[i].revision
            == pin.revision
}

pub(crate) fn knows_pin(
    sources: &Vec<EvidenceRevisionPin>,
    candidates: &Vec<RecallCaseCandidate>,
    pin: RecordRevisionPin,
) -> (r: bool)
    ensures
        r == pin_is_known(sources@, candidates@, pin),
{
    for i in 0..sources.len()
        invariant
            forall|j: int|
                0 <= j < i ==> !(RecordRef::Evidence((#[trigger] sources@[j]).id) == pin.record
                    && sources@[j].revision == pin.revision),
    {
        if RecordRef::Evidence(sources[i].id) == pin.record && sources[i].revision == pin.revision {
            return true;
        }
    }
    for i in 0..candidates.len()
        invariant
            forall|j: int|
                0 <= j < sources@.len() ==> !(RecordRef::Evidence((#[trigger] sources@[j]).id) == pin.record
                    && sources@[j].revision == pin.revision),
            forall|j: int|
                0 <= j < i ==> !((#[trigger] candidates@[j]).record == pin.record && candidates@[j].revision
                    == pin.revision),
    {
        if candidates[i].record == pin.record && candidates[i].revision == pin.revision {
            return true;
        }
    }
    false
}

/// Whether some finding is about a change that there is not.
pub open spec fn finding_out_of_range(findings: Seq<ProposalReviewFindingModel>, changes: nat) -> bool {
    exists|i: int|
        0 <= i < findings.len() && (#[trigger] findings[i]).change_index is Some
            && findings[i].change_index->Some_0 >= changes
}

fn any_finding_out_of_range(findings: &Vec<ProposalReviewFinding>, changes: usize) -> (r: bool)
    ensures
        r == finding_out_of_range(views(findings@), changes as nat),
{
    let ghost all = views(findings@);
    assert(all.len() == findings@.len());
    for i in 0..findings.len()
        invariant
            all == views(findings@),
            all.len() == findings@.len(),
            forall|j: int|
                0 <= j < i ==> !((#[trigger] all[j]).change_index is Some && all[j].change_index->Some_0 >= changes),
    {
        assert(views(findings@)[i as int] == findings@[i as int]@);
        if let Some(index) = findings[i].change_index {
            if index as usize >= changes {
                assert(all[i as int].change_index is Some);
                return true;
            }
        }
    }
    false
}

/// What a review depends on: the proposal, the candidates of the recall case and the
/// records that its findings pin.
pub open spec fn review_dependencies(
    proposal_id: ProposalId,
    candidates: Seq<RecallCaseCandidate>,
    findings: Seq<ProposalReviewFindingModel>,
) -> Set<RecordRef> {
    Set::new(
        |record: RecordRef|
            record == RecordRef::Proposal(proposal_id) || (exists|i: int|
                0 <= i < candidates.len() && (#[trigger] candidates[i]).record == record) || (exists|i: int, j: int|
                0 <= i < findings.len() && 0 <= j < findings[i].pins.len() && (
                #[trigger] findings[i].pins[j]).record == record),
    )
}

fn dependencies_of_review(
    proposal_id: ProposalId,
    candidates: &Vec<RecallCaseCandidate>,
    findings: &Vec<ProposalReviewFinding>,
) -> (r: Vec<RecordRef>)
    ensures
        r@ == in_order(review_dependencies(proposal_id, candidates@, views(findings@))),
{
    let ghost all = views(findings@);
    assert(all.len() == findings@.len());
    let mut records: Ranked<RecordRef> = Ranked::new();
    records.insert(RecordRef::Proposal(proposal_id));
    for i in 0..candidates.len()
        invariant
            increasing(records@),
            forall|record: RecordRef| #[trigger]
                records@.contains(record) <==> record == RecordRef::Proposal(proposal_id) || exists|k: int|
                    0 <= k < i && (#[trigger] candidates@[k]).record == record,
    {
        let ghost before = records@;
        records.insert(candidates[i].record);
        proof {
            assert forall|record: RecordRef| #[trigger] records@.contains(record) <==> record
                == RecordRef::Proposal(proposal_id) || exists|k: int|
                0 <= k < i + 1 && (#[trigger] candidates@[k]).record == record by {
                if before.contains(record) && record != RecordRef::Proposal(proposal_id) {
                    let k = choose|k: int| 0 <= k < i && (#[trigger] candidates@[k]).record == record;
                    assert(candidates@[k].record == record);
                }
                if record == candidates@[i as int].record {
                    assert(candidates@[i as int].record == record);
                }
            }
        }
    }
    let ghost base = records@;
    for i in 0..findings.len()
        invariant
            all == views(findings@),
            all.len() == findings@.len(),
            increasing(records@),
            forall|record: RecordRef| #[trigger]
                records@.contains(record) <==> base.contains(record) || exists|a: int, b: int|
                    0 <= a < i && 0 <= b < all[a].pins.len() && (#[trigger] all[a].pins[b]).record == record,
    {
        assert(views(findings@)[i as int] == findings@[i as int]@);
        let ghost outer = records@;
        let count: usize = findings[i].pins.len();
        for j in 0..count
            invariant
                all == views(findings@),
                all.len() == findings@.len(),
                i < findings@.len(),
                all[i as int] == findings@[i as int]@,
                count == findings@[i as int].pins@.len(),
                increasing(records@),
                forall|record: RecordRef| #[trigger]
                    records@.contains(record) <==> outer.contains(record) || exists|b: int|
                        0 <= b < j && (#[trigger] all[i as int].pins[b]).record == record,
        {
            let ghost before = records@;
            records.insert(findings[i].pins[j].record);
            proof {
                let pins = all[i as int].pins;
                assert forall|record: RecordRef| #[trigger] records@.contains(record) <==> outer.contains(record)
                    || exists|b: int| 0 <= b < j + 1 && (#[trigger] pins[b]).record == record by {
                    if before.contains(record) && !outer.contains(record) {
                        let b = choose|b: int| 0 <= b < j && (#[trigger] pins[b]).record == record;
                        assert(pins[b].record == record);
                    }
                    if record == pins[j as int].record {
                        assert(pins[j as int].record == record);
                    }
                }
            }
        }
        proof {
            assert forall|record: RecordRef| #[trigger] records@.contains(record) <==> base.contains(record)
                || exists|a: int, b: int|
                0 <= a < i + 1 && 0 <= b < all[a].pins.len() && (#[trigger] all[a].pins[b]).record == record by {
                if outer.contains(record) && !base.contains(record) {
                    let (a, b) = choose|a: int, b: int|
                        0 <= a < i && 0 <= b < all[a].pins.len() && (#[trigger] all[a].pins[b]).record == record;
                    assert(all[a].pins[b].record == record);
                }
                if records@.contains(record) && !outer.contains(record) {
                    let b = choose|b: int| 0 <= b < count && (#[trigger] all[i as int].pins[b]).record == record;
                    assert(all[i as int].pins[b].record == record);
                }
                if exists|a: int, b: int|
                    0 <= a < i + 1 && 0 <= b < all[a].pins.len() && (#[trigger] all[a].pins[b]).record == record {
                    let (a, b) = choose|a: int, b: int|
                        0 <= a < i + 1 && 0 <= b < all[a].pins.len() && (#[trigger] all[a].pins[b]).record == record;
                    if a < i {
                        assert(outer.contains(record));
                    } else {
                        assert(all[i as int].pins[b].record == record);
                    }
                }
            }
        }
    }
    let r = records.into_vec();
    proof {
        let wanted = review_dependencies(proposal_id, candidates@, all);
        assert forall|record: RecordRef| #[trigger] r@.contains(record) <==> wanted.contains(record) by {
            if wanted.contains(record) && exists|a: int, b: int|
                0 <= a < all.len() && 0 <= b < all[a].pins.len() && (#[trigger] all[a].pins[b]).record == record {
                let (a, b) = choose|a: int, b: int|
                    0 <= a < all.len() && 0 <= b < all[a].pins.len() && (#[trigger] all[a].pins[b]).record == record;
                assert(all[a].pins[b].record == record);
            }
        }
        in_order_is_unique(r@, wanted);
    }
    r
}

impl StoreModel {
    /// The first refusal among the first `n` pins of a finding.
    pub open spec fn finding_fault(
        self,
        scope: Scope,
        sources: Seq<EvidenceRevisionPin>,
        candidates: Seq<RecallCaseCandidate>,
        pins: Seq<RecordRevisionPin>,
        n: nat,
    ) -> Option<MemoryError>
        decreases n,
    {
        if n == 0 {
            None
        } else {
            match self.finding_fault(scope, sources, candidates, pins, (n - 1) as nat) {
                Some(error) => Some(error),
                None => {
                    let pin = pins[n - 1];
                    if !pin_is_known(sources, candidates, pin) {
                        Some(MemoryError::InvalidInput(InputFault::FindingPinUnknown))
                    } else {
                        match self.standing(pin.record) {
                            Err(error) => Some(error),
                            Ok((found, _, _)) => if found != scope {
                                Some(MemoryError::ScopeMismatch)
                            } else {
                                self.pin_fault(pin)
                            },
                        }
                    }
                },
            }
        }
    }

    /// The first refusal among the first `n` findings.
    pub open spec fn findings_fault(
        self,
        scope: Scope,
        sources: Seq<EvidenceRevisionPin>,
        candidates: Seq<RecallCaseCandidate>,
        findings: Seq<ProposalReviewFindingModel>,
        n: nat,
    ) -> Option<MemoryError>
        decreases n,
    {
        if n == 0 {
            None
        } else {
            match self.findings_fault(scope, sources, candidates, findings, (n - 1) as nat) {
                Some(error) => Some(error),
                None => self.finding_fault(
                    scope,
                    sources,
                    candidates,
                    findings[n - 1].pins,
                    findings[n - 1].pins.len(),
                ),
            }
        }
    }

    /// The proposal and the recall case that a review is about, if it can be recorded.
    #[verifier::opaque]
    pub open spec fn reviewable(self, review: NewProposalReviewModel) -> MemoryResult<
        (ProposalRecordModel, RecallCaseModel),
    > {
        match self.inspect_proposal(review.proposal_id) {
            None => Err(MemoryError::NotFound(RecordRef::Proposal(review.proposal_id))),
            Some(proposal) => if proposal.header.revision != review.proposal_revision {
                Err(
                    MemoryError::RevisionConflict {
                        expected: review.proposal_revision,
                        actual: proposal.header.revision,
                    },
                )
            } else if proposal.header.state != RecordState::Active || proposal.header.status
                != ProposalStatus::PendingReview || proposal.changes is None {
                invalid(InputFault::ReviewNotPending)
            } else if finding_out_of_range(review.findings, proposal.changes->Some_0.len()) {
                invalid(InputFault::FindingChangeIndex)
            } else {
                match lookup(self.recall_cases, review.recall_case_id) {
                    None => invalid(InputFault::RecallCaseMissing),
                    Some(case) => if case.revision != review.recall_case_revision {
                        Err(
                            MemoryError::RevisionConflict {
                                expected: review.recall_case_revision,
                                actual: case.revision,
                            },
                        )
                    } else if !case.scopes.contains(proposal.header.scope) {
                        Err(MemoryError::ScopeMismatch)
                    } else if review.verdict == ProposalReviewVerdict::Approve && review.findings.len() > 0 {
                        invalid(InputFault::ApproveWithFindings)
                    } else {
                        match self.findings_fault(
                            proposal.header.scope,
                            proposal.source_evidence,
                            case.candidates,
                            review.findings,
                            review.findings.len(),
                        ) {
                            Some(error) => Err(error),
                            None => Ok((proposal, case)),
                        }
                    },
                }
            },
        }
    }

    /// With a review of a proposal, which moves to its next revision.
    #[verifier::opaque]
    pub open spec fn with_review(
        self,
        next: ProposalRevisionHeader,
        review: ProposalReviewCaseHeader,
        findings: Seq<ProposalReviewFindingModel>,
        sources: Seq<RecordRef>,
    ) -> StoreModel {
        let record = RecordRef::ProposalReview(review.id);
        let listed = self.put(WriteModel::PutProposal(revision_of(next.id.0, next.revision), next)).put(
            WriteModel::PutHead(RecordRef::Proposal(next.id), next.revision),
        ).put(WriteModel::PutReview(revision_of(review.id.0, 1), review)).put(WriteModel::PutHead(record, 1)).put(
            WriteModel::DropPending(next.id),
        );
        let awaited = if awaits_adjudication(next.status) {
            listed.put(WriteModel::PutAwaiting(next.id))
        } else {
            listed
        };
        awaited.put(
            WriteModel::PutLatestReview(
                next.id,
                ProposalReviewPointer { review_case_id: review.id, revision: 1 },
            ),
        ).put(WriteModel::PutReviewPayload(review.id, ProposalReviewPayloadModel { findings })).rests_on(
            sources,
            record,
            sources.len(),
        )
    }

    /// Reviewing a proposal. The first identifier drawn is the audit event's, the second
    /// the review's.
    pub open spec fn review_proposal(
        self,
        operation: OperationContext,
        input: NewProposalReviewModel,
        request: Seq<u8>,
        fresh: FreshModel,
    ) -> MemoryResult<(StoreModel, ProposalReviewReceipt)> {
        let digest = mutation_digest_of(self.digest_key@, "review_proposal"@, operation.actor, request);
        if operation.actor == Actor::User {
            Err(MemoryError::Unauthorized)
        } else {
            match sound_review(input) {
                Err(error) => Err(error),
                Ok(review) => match self.replay(operation.id, digest) {
                    Err(error) => Err(error),
                    Ok(Some(ReceiptModel::Review(receipt))) => Ok((self, receipt)),
                    Ok(Some(_)) => corrupt(CorruptFault::ReceiptShape),
                    Ok(None) => match self.reviewable(review) {
                        Err(error) => Err(error),
                        Ok((proposal, case)) => match restated(
                            proposal.header,
                            status_after(review.verdict),
                            operation.id,
                            fresh.recorded_at_ms,
                        ) {
                            Err(error) => Err(error),
                            Ok(next) => {
                                let review_id = ProposalReviewCaseId(fresh.ids[1]);
                                let header = ProposalReviewCaseHeader {
                                    id: review_id,
                                    revision: 1,
                                    previous_revision: None,
                                    proposal_id: review.proposal_id,
                                    proposal_revision: review.proposal_revision,
                                    recall_case_id: review.recall_case_id,
                                    recall_case_revision: review.recall_case_revision,
                                    verdict: review.verdict,
                                    scope: proposal.header.scope,
                                    state: RecordState::Active,
                                    recorded_at_ms: fresh.recorded_at_ms,
                                    operation_id: operation.id,
                                };
                                let receipt = ProposalReviewReceipt {
                                    review_case_id: review_id,
                                    review_revision: 1,
                                    proposal: proposal_receipt_of(next),
                                };
                                let sources = in_order(
                                    review_dependencies(review.proposal_id, case.candidates, review.findings),
                                );
                                Ok(
                                    (
                                        self.with_review(next, header, review.findings, sources).audited(
                                            self.audit_event(
                                                fresh.ids[0],
                                                operation,
                                                AuditAction::ProposalReviewed,
                                                seq![
                                                    RecordRef::Proposal(review.proposal_id),
                                                    RecordRef::ProposalReview(review_id),
                                                ],
                                                Seq::empty(),
                                                None,
                                                fresh.recorded_at_ms,
                                            ),
                                        ).remembered(operation.id, digest, ReceiptModel::Review(receipt)),
                                        receipt,
                                    ),
                                )
                            },
                        },
                    },
                },
            }
        }
    }
}

proof fn finding_fault_persists(
    s: StoreModel,
    scope: Scope,
    sources: Seq<EvidenceRevisionPin>,
    candidates: Seq<RecallCaseCandidate>,
    pins: Seq<RecordRevisionPin>,
    n: nat,
    m: nat,
)
    requires
        n <= m,
        s.finding_fault(scope, sources, candidates, pins, n) is Some,
    ensures
        s.finding_fault(scope, sources, candidates, pins, m) == s.finding_fault(scope, sources, candidates, pins, n),
    decreases m,
{
    if n < m {
        finding_fault_persists(s, scope, sources, candidates, pins, n, (m - 1) as nat);
    }
}

proof fn findings_fault_persists(
    s: StoreModel,
    scope: Scope,
    sources: Seq<EvidenceRevisionPin>,
    candidates: Seq<RecallCaseCandidate>,
    findings: Seq<ProposalReviewFindingModel>,
    n: nat,
    m: nat,
)
    requires
        n <= m,
        s.findings_fault(scope, sources, candidates, findings, n) is Some,
    ensures
        s.findings_fault(scope, sources, candidates, findings, m) == s.findings_fault(
            scope,
            sources,
            candidates,
            findings,
            n,
        ),
    decreases m,
{
    if n < m {
        findings_fault_persists(s, scope, sources, candidates, findings, n, (m - 1) as nat);
    }
}

pub(crate) fn lists_scope(scopes: &Vec<Scope>, scope: Scope) -> (r: bool)
    ensures
        r == scopes@.contains(scope),
{
    for i in 0..scopes.len()
        invariant
            forall|j: int| 0 <= j < i ==> scopes@[j] != scope,
    {
        if scopes[i] == scope {
            return true;
        }
    }
    false
}

impl MemoryDatabase {
    fn check_finding(
        &self,
        scope: Scope,
        sources: &Vec<EvidenceRevisionPin>,
        candidates: &Vec<RecallCaseCandidate>,
        pins: &Vec<RecordRevisionPin>,
    ) -> (r: MemoryResult<()>)
        ensures
            r == (match self@.finding_fault(scope, sources@, candidates@, pins@, pins@.len()) {
                Some(error) => Err(error),
                None => Ok(()),
            }),
    {
        for i in 0..pins.len()
            invariant
                self@.finding_fault(scope, sources@, candidates@, pins@, i as nat) is None,
        {
            let pin = pins[i];
            proof {
                if self@.finding_fault(scope, sources@, candidates@, pins@, (i + 1) as nat) is Some {
                    finding_fault_persists(
                        self@,
                        scope,
                        sources@,
                        candidates@,
                        pins@,
                        (i + 1) as nat,
                        pins@.len(),
                    );
                }
            }
            if !knows_pin(sources, candidates, pin) {
                return Err(MemoryError::InvalidInput(InputFault::FindingPinUnknown));
            }
            let standing = match self.record_scope_state_revision(pin.record) {
                Ok(standing) => standing,
                Err(error) => return Err(error),
            };
            if standing.0 != scope {
                return Err(MemoryError::ScopeMismatch);
            }
            match self.require_current_pin(pin) {
                Ok(_) => {},
                Err(error) => return Err(error),
            }
        }
        Ok(())
    }

    fn check_findings(
        &self,
        scope: Scope,
        sources: &Vec<EvidenceRevisionPin>,
        candidates: &Vec<RecallCaseCandidate>,
        findings: &Vec<ProposalReviewFinding>,
    ) -> (r: MemoryResult<()>)
        ensures
            r == (match self@.findings_fault(scope, sources@, candidates@, views(findings@), findings@.len()) {
                Some(error) => Err(error),
                None => Ok(()),
            }),
    {
        let ghost all = views(findings@);
        for i in 0..findings.len()
            invariant
                all == views(findings@),
                self@.findings_fault(scope, sources@, candidates@, all, i as nat) is None,
        {
            assert(views(findings@)[i as int] == findings@[i as int]@);
            match self.check_finding(scope, sources, candidates, &findings[i].pins) {
                Ok(_) => {},
                Err(error) => {
                    proof {
                        findings_fault_persists(
                            self@,
                            scope,
                            sources@,
                            candidates@,
                            all,
                            (i + 1) as nat,
                            findings@.len(),
                        );
                    }
                    return Err(error);
                },
            }
        }
        Ok(())
    }

    fn reviewable(&self, review: &NewProposalReview) -> (r: MemoryResult<(ProposalRecord, RecallCase)>)
        ensures
            match (r, self@.reviewable(review@)) {
                (Ok(found), Ok(owed)) => found.0@ == owed.0 && found.1@ == owed.1,
                (Err(error), Err(refusal)) => error == refusal,
                _ => false,
            },
    {
        reveal(StoreModel::reviewable);
        let proposal = match self.inspect_proposal(review.proposal_id)? {
            Some(proposal) => proposal,
            None => return Err(MemoryError::NotFound(RecordRef::Proposal(review.proposal_id))),
        };
        if proposal.header.revision != review.proposal_revision {
            return Err(
                MemoryError::RevisionConflict {
                    expected: review.proposal_revision,
                    actual: proposal.header.revision,
                },
            );
        }
        let count: usize = match &proposal.changes {
            Some(changes) => {
                assert(views(changes@).len() == changes@.len());
                changes.len()
            },
            None => return Err(MemoryError::InvalidInput(InputFault::ReviewNotPending)),
        };
        if proposal.header.state != RecordState::Active || proposal.header.status != ProposalStatus::PendingReview {
            return Err(MemoryError::InvalidInput(InputFault::ReviewNotPending));
        }
        if any_finding_out_of_range(&review.findings, count) {
            return Err(MemoryError::InvalidInput(InputFault::FindingChangeIndex));
        }
        let case = match self.recall_case(review.recall_case_id) {
            Some(case) => case,
            None => return Err(MemoryError::InvalidInput(InputFault::RecallCaseMissing)),
        };
        if case.revision != review.recall_case_revision {
            return Err(
                MemoryError::RevisionConflict { expected: review.recall_case_revision, actual: case.revision },
            );
        }
        if !lists_scope(&case.scopes, proposal.header.scope) {
            return Err(MemoryError::ScopeMismatch);
        }
        assert(views(review.findings@).len() == review.findings@.len());
        if review.verdict == ProposalReviewVerdict::Approve && review.findings.len() > 0 {
            return Err(MemoryError::InvalidInput(InputFault::ApproveWithFindings));
        }
        self.check_findings(
            proposal.header.scope,
            &proposal.source_evidence,
            &case.candidates,
            &review.findings,
        )?;
        Ok((proposal, case))
    }

    fn insert_review(
        &self,
        batch: &mut Batch,
        next: ProposalRevisionHeader,
        review: ProposalReviewCaseHeader,
        findings: Vec<ProposalReviewFinding>,
        sources: &Vec<RecordRef>,
    )
        ensures
            self@.after(final(batch)@) == self@.after(old(batch)@).with_review(
                next,
                review,
                views(findings@),
                sources@,
            ),
    {
        reveal(StoreModel::with_review);
        let record = RecordRef::ProposalReview(review.id);
        batch.push(Write::PutProposal(RevisionKey { id: next.id.0, revision: next.revision }, next));
        batch.push(Write::PutHead(RecordRef::Proposal(next.id), next.revision));
        batch.push(Write::PutReview(RevisionKey { id: review.id.0, revision: 1 }, review));
        batch.push(Write::PutHead(record, 1));
        batch.push(Write::DropPending(next.id));
        if proposal_status_awaits_adjudication(next.status) {
            batch.push(Write::PutAwaiting(next.id));
        }
        batch.push(
            Write::PutLatestReview(
                next.id,
                ProposalReviewPointer { review_case_id: review.id, revision: 1 },
            ),
        );
        batch.push(Write::PutReviewPayload(review.id, ProposalReviewPayload { findings }));
        self.insert_dependencies(batch, sources, record);
    }

    /// What a review would do with the given instant and identifiers. `request` encodes
    /// the review in its normal form.
    pub fn plan_review_proposal(
        &self,
        operation: OperationContext,
        input: &NewProposalReview,
        request: &[u8],
        fresh: &Fresh,
    ) -> (r: MemoryResult<Planned<ProposalReviewReceipt>>)
        requires
            fresh.ids@.len() == 2,
        ensures
            plans(self@, r, self@.review_proposal(operation, input@, request@, fresh@)),
    {
        let review = review_request(operation.actor, input)?;
        let digest = mutation_digest(&self.digest_key, "review_proposal", operation.actor, request);
        let mut batch = Batch::new();
        match self.replayed_operation(operation.id, digest)? {
            Some(Receipt::Review(receipt)) => {
                return Ok(Planned { batch, receipt });
            },
            Some(_) => {
                return Err(MemoryError::Corrupt(CorruptFault::ReceiptShape));
            },
            None => {},
        }
        let (proposal, case) = self.reviewable(&review)?;
        let next = next_proposal_status(
            &proposal.header,
            verdict_status(review.verdict),
            operation.id,
            fresh.recorded_at_ms,
        )?;
        let review_id = ProposalReviewCaseId(fresh.ids[1]);
        let header = ProposalReviewCaseHeader {
            id: review_id,
            revision: 1,
            previous_revision: None,
            proposal_id: review.proposal_id,
            proposal_revision: review.proposal_revision,
            recall_case_id: review.recall_case_id,
            recall_case_revision: review.recall_case_revision,
            verdict: review.verdict,
            scope: proposal.header.scope,
            state: RecordState::Active,
            recorded_at_ms: fresh.recorded_at_ms,
            operation_id: operation.id,
        };
        let receipt = ProposalReviewReceipt {
            review_case_id: review_id,
            review_revision: 1,
            proposal: proposal_receipt(&next),
        };
        let sources = dependencies_of_review(review.proposal_id, &case.candidates, &review.findings);
        let subjects: Vec<RecordRef> = vec![
            RecordRef::Proposal(review.proposal_id),
            RecordRef::ProposalReview(review_id),
        ];
        assert(subjects@ =~= seq![
            RecordRef::Proposal(review.proposal_id),
            RecordRef::ProposalReview(review_id),
        ]);
        self.insert_review(&mut batch, next, header, review.findings, &sources);
        self.insert_audit(
            &mut batch,
            fresh.ids[0],
            operation,
            AuditAction::ProposalReviewed,
            subjects,
            Vec::new(),
            None,
            fresh.recorded_at_ms,
        );
        self.insert_operation(&mut batch, operation.id, digest, Receipt::Review(receipt));
        Ok(Planned { batch, receipt })
    }

    /// Records a review of a pending proposal. A review changes no semantic record, and a
    /// user decides rather than reviews.
    pub fn review_proposal(&mut self, operation: OperationContext, input: NewProposalReview, request: &[u8]) -> (r:
        MemoryResult<ProposalReviewReceipt>)
        ensures
            exists|fresh: FreshModel|
                fresh.ids.len() == 2 && #[trigger] commits(
                    old(self)@,
                    final(self)@,
                    r,
                    old(self)@.review_proposal(operation, input@, request@, fresh),
                ),
    {
        let fresh = Fresh::draw(2);
        let planned = self.plan_review_proposal(operation, &input, request, &fresh);
        let r = self.commit(planned);
        assert(commits(
            old(self)@,
            self@,
            r,
            old(self)@.review_proposal(operation, input@, request@, fresh@),
        ));
        r
    }
}

} // verus!
