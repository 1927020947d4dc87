//! Decisions on reviewed proposals.
use vstd::prelude::*;
use crate::applying::{
    Application, Applied, activation_permitted, drafted, list_mappings, map_drafts, mappings_of,
    spared_by, spared_records, validate_proposal_activation,
};
use crate::bundles::{change_ends_at, existing_pins, proposal_existing_pins};
use crate::clock::{Fresh, FreshModel};
use crate::context::OperationContext;
use crate::digest::{mutation_digest, mutation_digest_of};
use crate::fault::{CorruptFault, InputFault, MemoryError, MemoryResult, corrupt, invalid};
use crate::ids::{EvidenceId, ProposalId, Ulid};
use crate::inspect::{lookup, revision_of, shown};
use crate::keys::RevisionKey;
use crate::proposals::{proposal_receipt, proposal_receipt_of};
use crate::records::audit::{AdjudicationAudit, AuditAction, AuditEventModel};
use crate::records::evidence::{Actor, EvidenceClass, RecordRef, RecordState, Scope};
use crate::records::proposal::{
    AdjudicationAuthority, ProposalAdjudication, ProposalAdjudicationReceipt,
    ProposalAdjudicationReceiptModel, ProposalChange, ProposalChangeModel, ProposalDecision,
    ProposalEndpoint, ProposalRecord, ProposalRecordModel, ProposalReviewCase,
    ProposalReviewCaseModel, ProposalReviewFinding, ProposalReviewFindingModel,
    ProposalReviewVerdict, ProposalRevisionHeader, ProposalStatus,
};
use crate::records::recall::{
    EvidenceRevisionPin, RecallCase, RecallCaseCandidate, RecallCaseModel, RecordRevisionPin,
};
use crate::records::receipt::{Receipt, ReceiptModel};
use crate::reviews::{knows_pin, lists_scope, next_proposal_status, pin_is_known, restated};
use crate::staging::{Planned, append_records, commits, plans, records_of};
use crate::store::{Batch, MemoryDatabase, StoreModel, Write, WriteModel};
use crate::table::{Replica, Table, replicas, views};

verus! {

/// Whether an actor holds the authority that a decision claims.
pub open spec fn holds_authority(actor: Actor, authority: AdjudicationAuthority) -> bool {
    ||| actor == Actor::User && authority == AdjudicationAuthority::ExplicitUser
    ||| actor == Actor::Operator && authority == AdjudicationAuthority::ExplicitOperator
}

pub fn validate_adjudication_authority(actor: Actor, authority: AdjudicationAuthority) -> (r: MemoryResult<()>)
    ensures
        r == (if holds_authority(actor, authority) {
            Ok(())
        } else {
            Err(MemoryError::Unauthorized)
        }),
{
    let authorized = match authority {
        AdjudicationAuthority::ExplicitUser => actor == Actor::User,
        AdjudicationAuthority::ExplicitOperator => actor == Actor::Operator,
    };
    if authorized {
        Ok(())
    } else {
        Err(MemoryError::Unauthorized)
    }
}

/// Two answers taken together: the first refusal, or whether both hold.
pub open spec fn both(first: MemoryResult<bool>, second: MemoryResult<bool>) -> MemoryResult<bool> {
    match first {
        Err(error) => Err(error),
        Ok(a) => match second {
            Err(error) => Err(error),
            Ok(b) => Ok(a && b),
        },
    }
}

/// The pins of the candidates of a recall case.
pub open spec fn candidate_pins(candidates: Seq<RecallCaseCandidate>) -> Seq<RecordRevisionPin> {
    Seq::new(
        candidates.len(),
        |i: int| RecordRevisionPin { record: candidates[i].record, revision: candidates[i].revision },
    )
}

/// The pins of the first `n` findings.
pub open spec fn finding_pins(findings: Seq<ProposalReviewFindingModel>, n: nat) -> Seq<RecordRevisionPin>
    decreases n,
{
    if n == 0 {
        Seq::empty()
    } else {
        finding_pins(findings, (n - 1) as nat) + findings[n - 1].pins
    }
}

fn pins_of_candidates(candidates: &Vec<RecallCaseCandidate>) -> (r: Vec<RecordRevisionPin>)
    ensures
        r@ == candidate_pins(candidates@),
{
    let mut r: Vec<RecordRevisionPin> = Vec::new();
    for i in 0..candidates.len()
        invariant
            r@ == candidate_pins(candidates@).take(i as int),
    {
        r.push(RecordRevisionPin { record: candidates[i].record, revision: candidates[i].revision });
        assert(r@ =~= candidate_pins(candidates@).take(i + 1));
    }
    assert(r@ =~= candidate_pins(candidates@));
    r
}

fn pins_of_findings(findings: &Vec<ProposalReviewFinding>) -> (r: Vec<RecordRevisionPin>)
    ensures
        r@ == finding_pins(views(findings@), findings@.len()),
{
    let ghost all = views(findings@);
    let mut r: Vec<RecordRevisionPin> = Vec::new();
    for i in 0..findings.len()
        invariant
            all == views(findings@),
            r@ == finding_pins(all, i as nat),
    {
        assert(views(findings@)[i as int] == findings@[i as int]@);
        let ghost before = r@;
        let count: usize = findings[i].pins.len();
        for j in 0..count
            invariant
                i < findings@.len(),
                count == findings@[i as int].pins@.len(),
                r@ == before + findings@[i as int].pins@.take(j as int),
        {
            r.push(findings[i].pins[j]);
            assert(r@ =~= before + findings@[i as int].pins@.take(j + 1));
        }
        assert(findings@[i as int].pins@.take(count as int) =~= findings@[i as int].pins@);
    }
    r
}

/// The evidence that pins name, in their order.
pub open spec fn evidence_named(pins: Seq<EvidenceRevisionPin>) -> Seq<EvidenceId> {
    Seq::new(pins.len(), |i: int| pins[i].id)
}

impl StoreModel {
    /// Whether pinned evidence still stands as it was pinned, in a scope.
    pub open spec fn evidence_pin_is_current(self, pin: EvidenceRevisionPin, scope: Scope) -> MemoryResult<bool> {
        match self.inspect_evidence(pin.id) {
            Err(error) => Err(error),
            Ok(None) => Ok(false),
            Ok(Some(evidence)) => Ok(
                evidence.header.scope == scope && evidence.availability.state == RecordState::Active
                    && evidence.availability.revision == pin.revision,
            ),
        }
    }

    /// Whether a pinned record still stands as it was pinned, in a scope where one is given.
    pub open spec fn record_pin_is_current(self, pin: RecordRevisionPin, scope: Option<Scope>) -> MemoryResult<bool> {
        match self.standing(pin.record) {
            Err(MemoryError::NotFound(_)) => Ok(false),
            Err(error) => Err(error),
            Ok((found, state, revision)) => Ok(
                (scope is None || scope == Some(found)) && state == RecordState::Active && revision == pin.revision,
            ),
        }
    }

    /// Whether the first `n` evidence pins are current.
    pub open spec fn evidence_pins_current(self, pins: Seq<EvidenceRevisionPin>, scope: Scope, n: nat) -> MemoryResult<
        bool,
    >
        decreases n,
    {
        if n == 0 {
            Ok(true)
        } else {
            both(
                self.evidence_pins_current(pins, scope, (n - 1) as nat),
                self.evidence_pin_is_current(pins[n - 1], scope),
            )
        }
    }

    /// Whether the first `n` record pins are current.
    pub open spec fn record_pins_current(self, pins: Seq<RecordRevisionPin>, scope: Option<Scope>, n: nat) -> MemoryResult<
        bool,
    >
        decreases n,
    {
        if n == 0 {
            Ok(true)
        } else {
            both(
                self.record_pins_current(pins, scope, (n - 1) as nat),
                self.record_pin_is_current(pins[n - 1], scope),
            )
        }
    }

    /// Whether the first `n` pins of findings are known and current.
    pub open spec fn known_pins_current(
        self,
        sources: Seq<EvidenceRevisionPin>,
        candidates: Seq<RecallCaseCandidate>,
        pins: Seq<RecordRevisionPin>,
        scope: Scope,
        n: nat,
    ) -> MemoryResult<bool>
        decreases n,
    {
        if n == 0 {
            Ok(true)
        } else {
            both(
                self.known_pins_current(sources, candidates, pins, scope, (n - 1) as nat),
                if pin_is_known(sources, candidates, pins[n - 1]) {
                    self.record_pin_is_current(pins[n - 1], Some(scope))
                } else {
                    Ok(false)
                },
            )
        }
    }

    /// Whether everything that a proposal and its review were made on still stands.
    #[verifier::opaque]
    pub open spec fn grounds_current(
        self,
        proposal: ProposalRecordModel,
        changes: Seq<ProposalChangeModel>,
        review: ProposalReviewCaseModel,
        findings: Seq<ProposalReviewFindingModel>,
        case: RecallCaseModel,
    ) -> MemoryResult<bool> {
        let scope = proposal.header.scope;
        let sources = proposal.source_evidence;
        let pins = existing_pins(changes);
        let candidates = candidate_pins(case.candidates);
        let found = finding_pins(findings, findings.len());
        both(
            both(
                both(
                    both(
                        Ok(
                            review.header.state == RecordState::Active && case.revision
                                == review.header.recall_case_revision && case.scopes.contains(scope)
                                && review.header.scope == scope,
                        ),
                        self.evidence_pins_current(sources, scope, sources.len()),
                    ),
                    self.record_pins_current(pins, Some(scope), pins.len()),
                ),
                self.record_pins_current(candidates, None, candidates.len()),
            ),
            self.known_pins_current(sources, case.candidates, found, scope, found.len()),
        )
    }

    /// The classes of the first `n` pinned sources.
    pub open spec fn proposal_evidence_classes(self, pins: Seq<EvidenceRevisionPin>, scope: Scope, n: nat) -> MemoryResult<
        Map<EvidenceId, EvidenceClass>,
    >
        decreases n,
    {
        if n == 0 {
            Ok(Map::empty())
        } else {
            match self.proposal_evidence_classes(pins, scope, (n - 1) as nat) {
                Err(error) => Err(error),
                Ok(before) => match self.inspect_evidence(pins[n - 1].id) {
                    Err(error) => Err(error),
                    Ok(None) => Err(MemoryError::SourceUnavailable(pins[n - 1].id)),
                    Ok(Some(evidence)) => if evidence.header.scope != scope || evidence.availability.state
                        != RecordState::Active || evidence.availability.revision != pins[n - 1].revision {
                        Err(MemoryError::SourceUnavailable(pins[n - 1].id))
                    } else {
                        Ok(before.insert(pins[n - 1].id, evidence.header.class))
                    },
                },
            }
        }
    }

    /// Why a user cannot relate one of the first `n` pinned records.
    pub open spec fn user_endpoint_fault(
        self,
        changes: Seq<ProposalChangeModel>,
        pins: Seq<RecordRevisionPin>,
        n: nat,
    ) -> Option<MemoryError>
        decreases n,
    {
        if n == 0 {
            None
        } else {
            match self.user_endpoint_fault(changes, pins, (n - 1) as nat) {
                Some(error) => Some(error),
                None => match self.user_may_activate_endpoint(pins[n - 1].record) {
                    Err(error) => Some(error),
                    Ok(allowed) => if !allowed && some_change_ends_at(changes, pins[n - 1].record) {
                        Some(MemoryError::Unauthorized)
                    } else {
                        None
                    },
                },
            }
        }
    }

    /// The audit event of a decision.
    pub open spec fn decision_event(
        self,
        id: Ulid,
        operation: OperationContext,
        input: ProposalAdjudication,
        subjects: Seq<RecordRef>,
        recorded_at_ms: i64,
    ) -> AuditEventModel {
        self.audit_event(
            id,
            operation,
            AuditAction::ProposalAdjudicated,
            subjects,
            Seq::empty(),
            Some(AdjudicationAudit { decision: input.decision, authority: input.authority }),
            recorded_at_ms,
        )
    }

    /// The number of changes of a proposal whose payload is there.
    pub open spec fn change_count(self, id: ProposalId) -> nat {
        match self.inspect_proposal(id) {
            Some(proposal) => match proposal.changes {
                Some(changes) => changes.len(),
                None => 0,
            },
            None => 0,
        }
    }

    /// The reviewed proposal that a decision is about, if the decision can be taken.
    #[verifier::opaque]
    pub open spec fn adjudicable(self, input: ProposalAdjudication) -> MemoryResult<
        (ProposalRecordModel, Seq<ProposalChangeModel>),
    > {
        match self.inspect_proposal(input.proposal_id) {
            None => Err(MemoryError::NotFound(RecordRef::Proposal(input.proposal_id))),
            Some(proposal) => if proposal.header.revision != input.expected_proposal_revision {
                Err(
                    MemoryError::RevisionConflict {
                        expected: input.expected_proposal_revision,
                        actual: proposal.header.revision,
                    },
                )
            } else {
                match proposal.changes {
                    None => invalid(InputFault::ProposalPayloadGone),
                    Some(changes) => Ok((proposal, changes)),
                }
            },
        }
    }

    /// The review that a decision rests on.
    #[verifier::opaque]
    pub open spec fn deciding_review(self, input: ProposalAdjudication, proposal: ProposalRevisionHeader) -> MemoryResult<
        ProposalReviewCaseModel,
    > {
        match self.inspect_proposal_review(input.review_case_id) {
            None => Err(MemoryError::NotFound(RecordRef::ProposalReview(input.review_case_id))),
            Some(review) => if review.header.revision != input.expected_review_revision {
                Err(
                    MemoryError::RevisionConflict {
                        expected: input.expected_review_revision,
                        actual: review.header.revision,
                    },
                )
            } else if review.header.proposal_id != input.proposal_id || proposal.previous_revision != Some(
                review.header.proposal_revision,
            ) {
                invalid(InputFault::ReviewPinsOther)
            } else {
                Ok(review)
            },
        }
    }

    /// A proposal that went stale before is acknowledged.
    #[verifier::opaque]
    pub open spec fn stale_acknowledged(
        self,
        operation: OperationContext,
        input: ProposalAdjudication,
        digest: [u8; 32],
        proposal: ProposalRevisionHeader,
        audit_id: Ulid,
        recorded_at_ms: i64,
    ) -> (StoreModel, ProposalAdjudicationReceiptModel) {
        let receipt = ProposalAdjudicationReceiptModel {
            proposal: proposal_receipt_of(proposal),
            draft_mappings: Seq::empty(),
            changed_records: Seq::empty(),
        };
        (
            self.put(WriteModel::DropAwaiting(proposal.id)).audited(
                self.decision_event(
                    audit_id,
                    operation,
                    input,
                    seq![RecordRef::Proposal(proposal.id)],
                    recorded_at_ms,
                ),
            ).remembered(operation.id, digest, ReceiptModel::Adjudication(receipt)),
            receipt,
        )
    }

    /// A proposal is closed without any change: rejected, or found stale.
    #[verifier::opaque]
    pub open spec fn closed(
        self,
        operation: OperationContext,
        input: ProposalAdjudication,
        digest: [u8; 32],
        proposal: ProposalRevisionHeader,
        status: ProposalStatus,
        audit_id: Ulid,
        recorded_at_ms: i64,
    ) -> MemoryResult<(StoreModel, ProposalAdjudicationReceiptModel)> {
        match restated(proposal, status, operation.id, recorded_at_ms) {
            Err(error) => Err(error),
            Ok(next) => {
                let receipt = ProposalAdjudicationReceiptModel {
                    proposal: proposal_receipt_of(next),
                    draft_mappings: Seq::empty(),
                    changed_records: Seq::empty(),
                };
                Ok(
                    (
                        self.put(WriteModel::DropAwaiting(next.id)).put(
                            WriteModel::PutProposal(revision_of(next.id.0, next.revision), next),
                        ).put(WriteModel::PutHead(RecordRef::Proposal(next.id), next.revision)).audited(
                            self.decision_event(
                                audit_id,
                                operation,
                                input,
                                seq![RecordRef::Proposal(next.id)],
                                recorded_at_ms,
                            ),
                        ).remembered(operation.id, digest, ReceiptModel::Adjudication(receipt)),
                        receipt,
                    ),
                )
            },
        }
    }

    /// Whether an actor may have the changes of a proposal applied.
    #[verifier::opaque]
    pub open spec fn application_permitted(
        self,
        actor: Actor,
        proposal: ProposalRecordModel,
        changes: Seq<ProposalChangeModel>,
    ) -> MemoryResult<()> {
        let pins = existing_pins(changes);
        match self.proposal_evidence_classes(
            proposal.source_evidence,
            proposal.header.scope,
            proposal.source_evidence.len(),
        ) {
            Err(error) => Err(error),
            Ok(classes) => match activation_permitted(actor, changes, classes) {
                Err(error) => Err(error),
                Ok(_) => if actor != Actor::User {
                    Ok(())
                } else {
                    match self.user_endpoint_fault(changes, pins, pins.len()) {
                        Some(error) => Err(error),
                        None => Ok(()),
                    }
                },
            },
        }
    }

    /// The changes of a proposal are applied.
    #[verifier::opaque]
    pub open spec fn applied(
        self,
        operation: OperationContext,
        input: ProposalAdjudication,
        digest: [u8; 32],
        proposal: ProposalRecordModel,
        changes: Seq<ProposalChangeModel>,
        fresh: FreshModel,
    ) -> MemoryResult<(StoreModel, ProposalAdjudicationReceiptModel)> {
        let at = Application {
            scope: proposal.header.scope,
            operation_id: operation.id,
            recorded_at_ms: fresh.recorded_at_ms,
        };
        let drafts = drafted(changes, fresh.ids, changes.len());
        match self.application_permitted(operation.actor, proposal, changes) {
            Err(error) => Err(error),
            Ok(_) => match self.changes_applied(
                self.put(WriteModel::DropAwaiting(proposal.header.id)),
                changes,
                fresh.ids,
                drafts,
                evidence_named(proposal.source_evidence),
                spared_by(input.proposal_id, input.review_case_id, changes),
                at,
            ) {
                Err(error) => Err(error),
                Ok(applied) => match restated(
                    proposal.header,
                    ProposalStatus::Applied,
                    operation.id,
                    fresh.recorded_at_ms,
                ) {
                    Err(error) => Err(error),
                    Ok(next) => {
                        let receipt = ProposalAdjudicationReceiptModel {
                            proposal: proposal_receipt_of(next),
                            draft_mappings: mappings_of(drafts),
                            changed_records: applied.revisions,
                        };
                        Ok(
                            (
                                applied.store.put(
                                    WriteModel::PutProposal(revision_of(next.id.0, next.revision), next),
                                ).put(
                                    WriteModel::PutHead(RecordRef::Proposal(next.id), next.revision),
                                ).audited(
                                    self.decision_event(
                                        fresh.ids[changes.len() as int],
                                        operation,
                                        input,
                                        seq![RecordRef::Proposal(next.id)] + records_of(applied.revisions),
                                        fresh.recorded_at_ms,
                                    ),
                                ).remembered(operation.id, digest, ReceiptModel::Adjudication(receipt)),
                                receipt,
                            ),
                        )
                    },
                },
            },
        }
    }

    /// An acceptance: the changes are applied if all that they were made on still stands,
    /// and the proposal goes stale if it does not.
    #[verifier::opaque]
    pub open spec fn accepted(
        self,
        operation: OperationContext,
        input: ProposalAdjudication,
        digest: [u8; 32],
        proposal: ProposalRecordModel,
        changes: Seq<ProposalChangeModel>,
        review: ProposalReviewCaseModel,
        fresh: FreshModel,
    ) -> MemoryResult<(StoreModel, ProposalAdjudicationReceiptModel)> {
        if proposal.header.status != ProposalStatus::ReviewedApprove && proposal.header.status
            != ProposalStatus::NeedsUser {
            invalid(InputFault::AcceptanceNotPermitted)
        } else {
            match lookup(self.recall_cases, review.header.recall_case_id) {
                None => invalid(InputFault::PinnedRecallCaseGone),
                Some(case) => match review.findings {
                    None => invalid(InputFault::FindingPayloadGone),
                    Some(findings) => if review.header.verdict == ProposalReviewVerdict::Approve && findings.len()
                        > 0 {
                        invalid(InputFault::ApproveWithFindings)
                    } else {
                        match self.grounds_current(proposal, changes, review, findings, case) {
                            Err(error) => Err(error),
                            Ok(false) => self.closed(
                                operation,
                                input,
                                digest,
                                proposal.header,
                                ProposalStatus::Stale,
                                fresh.ids[changes.len() as int],
                                fresh.recorded_at_ms,
                            ),
                            Ok(true) => self.applied(operation, input, digest, proposal, changes, fresh),
                        }
                    },
                },
            }
        }
    }

    /// Deciding on a proposal. The identifiers drawn are those of the records that the
    /// changes bring, one for each change, and last that of the audit event.
    pub open spec fn adjudicate_proposal(
        self,
        operation: OperationContext,
        input: ProposalAdjudication,
        request: Seq<u8>,
        fresh: FreshModel,
    ) -> MemoryResult<(StoreModel, ProposalAdjudicationReceiptModel)> {
        let digest = mutation_digest_of(self.digest_key@, "adjudicate_proposal"@, operation.actor, request);
        if !holds_authority(operation.actor, input.authority) {
            Err(MemoryError::Unauthorized)
        } else {
            match self.replay(operation.id, digest) {
                Err(error) => Err(error),
                Ok(Some(ReceiptModel::Adjudication(receipt))) => Ok((self, receipt)),
                Ok(Some(_)) => corrupt(CorruptFault::ReceiptShape),
                Ok(None) => match self.adjudicable(input) {
                    Err(error) => Err(error),
                    Ok((proposal, changes)) => if proposal.header.status == ProposalStatus::Stale {
                        Ok(
                            self.stale_acknowledged(
                                operation,
                                input,
                                digest,
                                proposal.header,
                                fresh.ids[changes.len() as int],
                                fresh.recorded_at_ms,
                            ),
                        )
                    } else if proposal.header.state != RecordState::Active {
                        invalid(InputFault::WorkflowRecordGone)
                    } else {
                        match self.deciding_review(input, proposal.header) {
                            Err(error) => Err(error),
                            Ok(review) => if input.decision == ProposalDecision::Reject {
                                self.closed(
                                    operation,
                                    input,
                                    digest,
                                    proposal.header,
                                    ProposalStatus::Rejected,
                                    fresh.ids[changes.len() as int],
                                    fresh.recorded_at_ms,
                                )
                            } else {
                                self.accepted(operation, input, digest, proposal, changes, review, fresh)
                            },
                        }
                    },
                },
            }
        }
    }
}

/// Whether some proposed relation ends at a record.
pub open spec fn some_change_ends_at(changes: Seq<ProposalChangeModel>, record: RecordRef) -> bool {
    exists|i: int| 0 <= i < changes.len() && #[trigger] change_ends_at(changes[i], record)
}

fn any_change_ends_at(changes: &Vec<ProposalChange>, record: RecordRef) -> (r: bool)
    ensures
        r == some_change_ends_at(views(changes@), record),
{
    let ghost all = views(changes@);
    assert(all.len() == changes@.len());
    for i in 0..changes.len()
        invariant
            all == views(changes@),
            all.len() == changes@.len(),
            forall|j: int| 0 <= j < i ==> !(#[trigger] change_ends_at(all[j], record)),
    {
        assert(views(changes@)[i as int] == changes@[i as int]@);
        if let ProposalChange::CreateRelation { from, to, .. } = &changes[i] {
            let first = match from {
                ProposalEndpoint::Existing(pin) => pin.record == record,
                ProposalEndpoint::Draft(_) => false,
            };
            let second = match to {
                ProposalEndpoint::Existing(pin) => pin.record == record,
                ProposalEndpoint::Draft(_) => false,
            };
            if first || second {
                assert(change_ends_at(all[i as int], record));
                return true;
            }
        }
    }
    false
}

/// Only a user or an operator decides on proposals, each with the authority that is
/// theirs: an assistant or the system itself is refused whatever it asks.
pub proof fn only_people_adjudicate(
    s: StoreModel,
    operation: OperationContext,
    input: ProposalAdjudication,
    request: Seq<u8>,
    fresh: FreshModel,
)
    requires
        operation.actor == Actor::Assistant || operation.actor == Actor::System,
    ensures
        s.adjudicate_proposal(operation, input, request, fresh) == Err::<
            (StoreModel, ProposalAdjudicationReceiptModel),
            MemoryError,
        >(MemoryError::Unauthorized),
{
}

proof fn evidence_refusal_persists(s: StoreModel, pins: Seq<EvidenceRevisionPin>, scope: Scope, n: nat, m: nat)
    requires
        n <= m,
        s.evidence_pins_current(pins, scope, n) is Err,
    ensures
        s.evidence_pins_current(pins, scope, m) == s.evidence_pins_current(pins, scope, n),
    decreases m,
{
    if n < m {
        evidence_refusal_persists(s, pins, scope, n, (m - 1) as nat);
    }
}

proof fn records_refusal_persists(s: StoreModel, pins: Seq<RecordRevisionPin>, scope: Option<Scope>, n: nat, m: nat)
    requires
        n <= m,
        s.record_pins_current(pins, scope, n) is Err,
    ensures
        s.record_pins_current(pins, scope, m) == s.record_pins_current(pins, scope, n),
    decreases m,
{
    if n < m {
        records_refusal_persists(s, pins, scope, n, (m - 1) as nat);
    }
}

proof fn known_refusal_persists(
    s: StoreModel,
    sources: Seq<EvidenceRevisionPin>,
    candidates: Seq<RecallCaseCandidate>,
    pins: Seq<RecordRevisionPin>,
    scope: Scope,
    n: nat,
    m: nat,
)
    requires
        n <= m,
        s.known_pins_current(sources, candidates, pins, scope, n) is Err,
    ensures
        s.known_pins_current(sources, candidates, pins, scope, m) == s.known_pins_current(
            sources,
            candidates,
            pins,
            scope,
            n,
        ),
    decreases m,
{
    if n < m {
        known_refusal_persists(s, sources, candidates, pins, scope, n, (m - 1) as nat);
    }
}

proof fn classes_refusal_persists(s: StoreModel, pins: Seq<EvidenceRevisionPin>, scope: Scope, n: nat, m: nat)
    requires
        n <= m,
        s.proposal_evidence_classes(pins, scope, n) is Err,
    ensures
        s.proposal_evidence_classes(pins, scope, m) == s.proposal_evidence_classes(pins, scope, n),
    decreases m,
{
    if n < m {
        classes_refusal_persists(s, pins, scope, n, (m - 1) as nat);
    }
}

proof fn user_endpoint_fault_persists(
    s: StoreModel,
    changes: Seq<ProposalChangeModel>,
    pins: Seq<RecordRevisionPin>,
    n: nat,
    m: nat,
)
    requires
        n <= m,
        s.user_endpoint_fault(changes, pins, n) is Some,
    ensures
        s.user_endpoint_fault(changes, pins, m) == s.user_endpoint_fault(changes, pins, n),
    decreases m,
{
    if n < m {
        user_endpoint_fault_persists(s, changes, pins, n, (m - 1) as nat);
    }
}

impl MemoryDatabase {
    fn evidence_pin_is_current(&self, pin: EvidenceRevisionPin, scope: Scope) -> (r: MemoryResult<bool>)
        ensures
            r == self@.evidence_pin_is_current(pin, scope),
    {
        match self.inspect_evidence(pin.id)? {
            Some(evidence) => Ok(
                evidence.header.scope == scope && evidence.availability.state == RecordState::Active
                    && evidence.availability.revision == pin.revision,
            ),
            None => Ok(false),
        }
    }

    fn record_pin_is_current(&self, pin: RecordRevisionPin, scope: Option<Scope>) -> (r: MemoryResult<bool>)
        ensures
            r == self@.record_pin_is_current(pin, scope),
    {
        match self.record_scope_state_revision(pin.record) {
            Ok(standing) => {
                let placed = match scope {
                    Some(scope) => scope == standing.0,
                    None => true,
                };
                Ok(placed && standing.1 == RecordState::Active && standing.2 == pin.revision)
            },
            Err(MemoryError::NotFound(_)) => Ok(false),
            Err(error) => Err(error),
        }
    }

    fn evidence_pins_current(&self, pins: &Vec<EvidenceRevisionPin>, scope: Scope) -> (r: MemoryResult<bool>)
        ensures
            r == self@.evidence_pins_current(pins@, scope, pins@.len()),
    {
        let mut current = true;
        for i in 0..pins.len()
            invariant
                self@.evidence_pins_current(pins@, scope, i as nat) == Ok::<bool, MemoryError>(current),
        {
            match self.evidence_pin_is_current(pins[i], scope) {
                Ok(holds) => {
                    current = current && holds;
                },
                Err(error) => {
                    proof {
                        evidence_refusal_persists(self@, pins@, scope, (i + 1) as nat, pins@.len());
                    }
                    return Err(error);
                },
            }
        }
        Ok(current)
    }

    fn record_pins_current(&self, pins: &Vec<RecordRevisionPin>, scope: Option<Scope>) -> (r: MemoryResult<bool>)
        ensures
            r == self@.record_pins_current(pins@, scope, pins@.len()),
    {
        let mut current = true;
        for i in 0..pins.len()
            invariant
                self@.record_pins_current(pins@, scope, i as nat) == Ok::<bool, MemoryError>(current),
        {
            match self.record_pin_is_current(pins[i], scope) {
                Ok(holds) => {
                    current = current && holds;
                },
                Err(error) => {
                    proof {
                        records_refusal_persists(self@, pins@, scope, (i + 1) as nat, pins@.len());
                    }
                    return Err(error);
                },
            }
        }
        Ok(current)
    }

    fn known_pins_current(
        &self,
        sources: &Vec<EvidenceRevisionPin>,
        candidates: &Vec<RecallCaseCandidate>,
        pins: &Vec<RecordRevisionPin>,
        scope: Scope,
    ) -> (r: MemoryResult<bool>)
        ensures
            r == self@.known_pins_current(sources@, candidates@, pins@, scope, pins@.len()),
    {
        let mut current = true;
        for i in 0..pins.len()
            invariant
                self@.known_pins_current(sources@, candidates@, pins@, scope, i as nat) == Ok::<bool, MemoryError>(
                    current,
                ),
        {
            if knows_pin(sources, candidates, pins[i]) {
                match self.record_pin_is_current(pins[i], Some(scope)) {
                    Ok(holds) => {
                        current = current && holds;
                    },
                    Err(error) => {
                        proof {
                            known_refusal_persists(
                                self@,
                                sources@,
                                candidates@,
                                pins@,
                                scope,
                                (i + 1) as nat,
                                pins@.len(),
                            );
                        }
                        return Err(error);
                    },
                }
            } else {
                current = false;
            }
        }
        Ok(current)
    }

    fn grounds_current(
        &self,
        proposal: &ProposalRecord,
        changes: &Vec<ProposalChange>,
        review: &ProposalReviewCase,
        findings: &Vec<ProposalReviewFinding>,
        case: &RecallCase,
    ) -> (r: MemoryResult<bool>)
        ensures
            r == self@.grounds_current(proposal@, views(changes@), review@, views(findings@), case@),
    {
        reveal(StoreModel::grounds_current);
        let scope = proposal.header.scope;
        let standing = review.header.state == RecordState::Active && case.revision
            == review.header.recall_case_revision && lists_scope(&case.scopes, scope) && review.header.scope
            == scope;
        let sources = self.evidence_pins_current(&proposal.source_evidence, scope)?;
        let pins = proposal_existing_pins(changes);
        let records = self.record_pins_current(&pins, Some(scope))?;
        let pins = pins_of_candidates(&case.candidates);
        let candidates = self.record_pins_current(&pins, None)?;
        let pins = pins_of_findings(findings);
        assert(views(findings@).len() == findings@.len());
        let found = self.known_pins_current(&proposal.source_evidence, &case.candidates, &pins, scope)?;
        Ok(standing && sources && records && candidates && found)
    }

    fn proposal_evidence_classes(&self, pins: &Vec<EvidenceRevisionPin>, scope: Scope) -> (r: MemoryResult<
        Table<EvidenceId, EvidenceClass>,
    >)
        ensures
            shown(r) == self@.proposal_evidence_classes(pins@, scope, pins@.len()),
    {
        let mut classes: Table<EvidenceId, EvidenceClass> = Table::new();
        for i in 0..pins.len()
            invariant
                self@.proposal_evidence_classes(pins@, scope, i as nat) == Ok::<
                    Map<EvidenceId, EvidenceClass>,
                    MemoryError,
                >(classes@),
        {
            let pin = pins[i];
            proof {
                if self@.proposal_evidence_classes(pins@, scope, (i + 1) as nat) is Err {
                    classes_refusal_persists(self@, pins@, scope, (i + 1) as nat, pins@.len());
                }
            }
            let evidence = match self.inspect_evidence(pin.id) {
                Ok(Some(evidence)) => evidence,
                Ok(None) => return Err(MemoryError::SourceUnavailable(pin.id)),
                Err(error) => return Err(error),
            };
            if evidence.header.scope != scope || evidence.availability.state != RecordState::Active
                || evidence.availability.revision != pin.revision {
                return Err(MemoryError::SourceUnavailable(pin.id));
            }
            classes.insert(pin.id, evidence.header.class);
        }
        Ok(classes)
    }

    fn check_user_endpoints(&self, changes: &Vec<ProposalChange>, pins: &Vec<RecordRevisionPin>) -> (r: MemoryResult<()>)
        ensures
            r == (match self@.user_endpoint_fault(views(changes@), pins@, pins@.len()) {
                Some(error) => Err(error),
                None => Ok(()),
            }),
    {
        let ghost all = views(changes@);
        for i in 0..pins.len()
            invariant
                all == views(changes@),
                self@.user_endpoint_fault(all, pins@, i as nat) is None,
        {
            proof {
                if self@.user_endpoint_fault(all, pins@, (i + 1) as nat) is Some {
                    user_endpoint_fault_persists(self@, all, pins@, (i + 1) as nat, pins@.len());
                }
            }
            match self.user_may_activate_endpoint(pins[i].record) {
                Ok(allowed) => {
                    if !allowed && any_change_ends_at(changes, pins[i].record) {
                        return Err(MemoryError::Unauthorized);
                    }
                },
                Err(error) => return Err(error),
            }
        }
        Ok(())
    }

    fn check_application(&self, actor: Actor, proposal: &ProposalRecord, changes: &Vec<ProposalChange>) -> (r:
        MemoryResult<()>)
        ensures
            r == self@.application_permitted(actor, proposal@, views(changes@)),
    {
        reveal(StoreModel::application_permitted);
        let classes = self.proposal_evidence_classes(&proposal.source_evidence, proposal.header.scope)?;
        validate_proposal_activation(actor, changes, &classes)?;
        if actor == Actor::User {
            let pins = proposal_existing_pins(changes);
            return self.check_user_endpoints(changes, &pins);
        }
        Ok(())
    }

    fn insert_decision(
        &self,
        batch: &mut Batch,
        id: Ulid,
        operation: OperationContext,
        input: ProposalAdjudication,
        subjects: Vec<RecordRef>,
        recorded_at_ms: i64,
    )
        ensures
            self@.after(final(batch)@) == self@.after(old(batch)@).audited(
                self@.decision_event(id, operation, input, subjects@, recorded_at_ms),
            ),
    {
        self.insert_audit(
            batch,
            id,
            operation,
            AuditAction::ProposalAdjudicated,
            subjects,
            Vec::new(),
            Some(AdjudicationAudit { decision: input.decision, authority: input.authority }),
            recorded_at_ms,
        );
    }

    fn adjudicable(&self, input: ProposalAdjudication) -> (r: MemoryResult<(ProposalRecord, Vec<ProposalChange>)>)
        ensures
            match (r, self@.adjudicable(input)) {
                (Ok(found), Ok(owed)) => found.0@ == owed.0 && views(found.1@) == owed.1,
                (Err(error), Err(refusal)) => error == refusal,
                _ => false,
            },
    {
        reveal(StoreModel::adjudicable);
        let proposal = match self.inspect_proposal(input.proposal_id)? {
            Some(proposal) => proposal,
            None => return Err(MemoryError::NotFound(RecordRef::Proposal(input.proposal_id))),
        };
        if proposal.header.revision != input.expected_proposal_revision {
            return Err(
                MemoryError::RevisionConflict {
                    expected: input.expected_proposal_revision,
                    actual: proposal.header.revision,
                },
            );
        }
        let changes = match &proposal.changes {
            Some(changes) => replicas(changes),
            None => return Err(MemoryError::InvalidInput(InputFault::ProposalPayloadGone)),
        };
        Ok((proposal, changes))
    }

    fn deciding_review(&self, input: ProposalAdjudication, proposal: &ProposalRevisionHeader) -> (r: MemoryResult<
        ProposalReviewCase,
    >)
        ensures
            shown(r) == self@.deciding_review(input, *proposal),
    {
        reveal(StoreModel::deciding_review);
        let review = match self.inspect_proposal_review(input.review_case_id)? {
            Some(review) => review,
            None => return Err(MemoryError::NotFound(RecordRef::ProposalReview(input.review_case_id))),
        };
        if review.header.revision != input.expected_review_revision {
            return Err(
                MemoryError::RevisionConflict {
                    expected: input.expected_review_revision,
                    actual: review.header.revision,
                },
            );
        }
        let pinned = match proposal.previous_revision {
            Some(previous) => previous == review.header.proposal_revision,
            None => false,
        };
        if review.header.proposal_id != input.proposal_id || !pinned {
            return Err(MemoryError::InvalidInput(InputFault::ReviewPinsOther));
        }
        Ok(review)
    }

    fn plan_acknowledgement(
        &self,
        operation: OperationContext,
        input: ProposalAdjudication,
        digest: [u8; 32],
        proposal: &ProposalRevisionHeader,
        audit_id: Ulid,
        recorded_at_ms: i64,
    ) -> (r: Planned<ProposalAdjudicationReceipt>)
        ensures
            (self@.after(r.batch@), r.receipt@) == self@.stale_acknowledged(
                operation,
                input,
                digest,
                *proposal,
                audit_id,
                recorded_at_ms,
            ),
    {
        reveal(StoreModel::stale_acknowledged);
        let receipt = ProposalAdjudicationReceipt {
            proposal: proposal_receipt(proposal),
            draft_mappings: Vec::new(),
            changed_records: Vec::new(),
        };
        let mut batch = Batch::new();
        batch.push(Write::DropAwaiting(proposal.id));
        let subjects: Vec<RecordRef> = vec![RecordRef::Proposal(proposal.id)];
        assert(subjects@ =~= seq![RecordRef::Proposal(proposal.id)]);
        self.insert_decision(&mut batch, audit_id, operation, input, subjects, recorded_at_ms);
        self.insert_operation(&mut batch, operation.id, digest, Receipt::Adjudication(receipt.replica()));
        Planned { batch, receipt }
    }

    fn plan_closing(
        &self,
        operation: OperationContext,
        input: ProposalAdjudication,
        digest: [u8; 32],
        proposal: &ProposalRevisionHeader,
        status: ProposalStatus,
        audit_id: Ulid,
        recorded_at_ms: i64,
    ) -> (r: MemoryResult<Planned<ProposalAdjudicationReceipt>>)
        ensures
            plans(
                self@,
                r,
                self@.closed(operation, input, digest, *proposal, status, audit_id, recorded_at_ms),
            ),
    {
        reveal(StoreModel::closed);
        let next = next_proposal_status(proposal, status, operation.id, recorded_at_ms)?;
        let receipt = ProposalAdjudicationReceipt {
            proposal: proposal_receipt(&next),
            draft_mappings: Vec::new(),
            changed_records: Vec::new(),
        };
        let mut batch = Batch::new();
        batch.push(Write::DropAwaiting(next.id));
        batch.push(Write::PutProposal(RevisionKey { id: next.id.0, revision: next.revision }, next));
        batch.push(Write::PutHead(RecordRef::Proposal(next.id), next.revision));
        let subjects: Vec<RecordRef> = vec![RecordRef::Proposal(next.id)];
        assert(subjects@ =~= seq![RecordRef::Proposal(next.id)]);
        self.insert_decision(&mut batch, audit_id, operation, input, subjects, recorded_at_ms);
        self.insert_operation(&mut batch, operation.id, digest, Receipt::Adjudication(receipt.replica()));
        Ok(Planned { batch, receipt })
    }

    fn plan_application(
        &self,
        operation: OperationContext,
        input: ProposalAdjudication,
        digest: [u8; 32],
        proposal: &ProposalRecord,
        changes: &Vec<ProposalChange>,
        fresh: &Fresh,
    ) -> (r: MemoryResult<Planned<ProposalAdjudicationReceipt>>)
        requires
            fresh.ids@.len() == changes@.len() + 1,
        ensures
            plans(
                self@,
                r,
                self@.applied(operation, input, digest, proposal@, views(changes@), fresh@),
            ),
    {
        reveal(StoreModel::applied);
        assert(views(changes@).len() == changes@.len());
        self.check_application(operation.actor, proposal, changes)?;
        let drafts = map_drafts(changes, &fresh.ids);
        let draft_mappings = list_mappings(&drafts);
        let spared = spared_records(input.proposal_id, input.review_case_id, changes);
        let at = Application {
            scope: proposal.header.scope,
            operation_id: operation.id,
            recorded_at_ms: fresh.recorded_at_ms,
        };
        let sources = evidence_ids_of(&proposal.source_evidence);
        let mut batch = Batch::new();
        batch.push(Write::DropAwaiting(proposal.header.id));
        let applied = self.apply_changes(batch, changes, &fresh.ids, &drafts, &sources, &spared, at)?;
        let next = next_proposal_status(
            &proposal.header,
            ProposalStatus::Applied,
            operation.id,
            fresh.recorded_at_ms,
        )?;
        let Applied { mut batch, revisions, seen: _ } = applied;
        let receipt = ProposalAdjudicationReceipt {
            proposal: proposal_receipt(&next),
            draft_mappings,
            changed_records: revisions,
        };
        batch.push(Write::PutProposal(RevisionKey { id: next.id.0, revision: next.revision }, next));
        batch.push(Write::PutHead(RecordRef::Proposal(next.id), next.revision));
        let mut subjects: Vec<RecordRef> = vec![RecordRef::Proposal(next.id)];
        assert(subjects@ =~= seq![RecordRef::Proposal(next.id)]);
        append_records(&mut subjects, &receipt.changed_records);
        let last: usize = changes.len();
        self.insert_decision(&mut batch, fresh.ids[last], operation, input, subjects, fresh.recorded_at_ms);
        self.insert_operation(&mut batch, operation.id, digest, Receipt::Adjudication(receipt.replica()));
        Ok(Planned { batch, receipt })
    }

    fn plan_acceptance(
        &self,
        operation: OperationContext,
        input: ProposalAdjudication,
        digest: [u8; 32],
        proposal: &ProposalRecord,
        changes: &Vec<ProposalChange>,
        review: &ProposalReviewCase,
        fresh: &Fresh,
    ) -> (r: MemoryResult<Planned<ProposalAdjudicationReceipt>>)
        requires
            fresh.ids@.len() == changes@.len() + 1,
        ensures
            plans(
                self@,
                r,
                self@.accepted(operation, input, digest, proposal@, views(changes@), review@, fresh@),
            ),
    {
        reveal(StoreModel::accepted);
        assert(views(changes@).len() == changes@.len());
        if proposal.header.status != ProposalStatus::ReviewedApprove && proposal.header.status
            != ProposalStatus::NeedsUser {
            return Err(MemoryError::InvalidInput(InputFault::AcceptanceNotPermitted));
        }
        let case = match self.recall_case(review.header.recall_case_id) {
            Some(case) => case,
            None => return Err(MemoryError::InvalidInput(InputFault::PinnedRecallCaseGone)),
        };
        let findings = match &review.findings {
            Some(findings) => findings,
            None => return Err(MemoryError::InvalidInput(InputFault::FindingPayloadGone)),
        };
        assert(views(findings@).len() == findings@.len());
        if review.header.verdict == ProposalReviewVerdict::Approve && findings.len() > 0 {
            return Err(MemoryError::InvalidInput(InputFault::ApproveWithFindings));
        }
        let last: usize = changes.len();
        if self.grounds_current(proposal, changes, review, findings, &case)? {
            self.plan_application(operation, input, digest, proposal, changes, fresh)
        } else {
            self.plan_closing(
                operation,
                input,
                digest,
                &proposal.header,
                ProposalStatus::Stale,
                fresh.ids[last],
                fresh.recorded_at_ms,
            )
        }
    }

    /// What a decision would do with the given instant and identifiers. `request` encodes
    /// the decision.
    pub fn plan_adjudicate_proposal(
        &self,
        operation: OperationContext,
        input: ProposalAdjudication,
        request: &[u8],
        fresh: &Fresh,
    ) -> (r: MemoryResult<Planned<ProposalAdjudicationReceipt>>)
        requires
            fresh.ids@.len() == self@.change_count(input.proposal_id) + 1,
        ensures
            plans(self@, r, self@.adjudicate_proposal(operation, input, request@, fresh@)),
    {
        validate_adjudication_authority(operation.actor, input.authority)?;
        let digest = mutation_digest(&self.digest_key, "adjudicate_proposal", operation.actor, request);
        match self.replayed_operation(operation.id, digest)? {
            Some(Receipt::Adjudication(receipt)) => {
                return Ok(Planned { batch: Batch::new(), receipt });
            },
            Some(_) => {
                return Err(MemoryError::Corrupt(CorruptFault::ReceiptShape));
            },
            None => {},
        }
        let (proposal, changes) = self.adjudicable(input)?;
        proof {
            reveal(StoreModel::adjudicable);
            assert(views(changes@).len() == changes@.len());
        }
        let last: usize = changes.len();
        if proposal.header.status == ProposalStatus::Stale {
            return Ok(
                self.plan_acknowledgement(
                    operation,
                    input,
                    digest,
                    &proposal.header,
                    fresh.ids[last],
                    fresh.recorded_at_ms,
                ),
            );
        }
        if proposal.header.state != RecordState::Active {
            return Err(MemoryError::InvalidInput(InputFault::WorkflowRecordGone));
        }
        let review = self.deciding_review(input, &proposal.header)?;
        if input.decision == ProposalDecision::Reject {
            return self.plan_closing(
                operation,
                input,
                digest,
                &proposal.header,
                ProposalStatus::Rejected,
                fresh.ids[last],
                fresh.recorded_at_ms,
            );
        }
        self.plan_acceptance(operation, input, digest, &proposal, &changes, &review, fresh)
    }

    /// The number of changes of a proposal whose payload is there, for which a decision draws
    /// identifiers.
    pub fn change_count(&self, id: ProposalId) -> (r: usize)
        ensures
            r == self@.change_count(id),
    {
        match self.inspect_proposal(id) {
            Ok(Some(proposal)) => match &proposal.changes {
                Some(changes) => {
                    assert(views(changes@).len() == changes@.len());
                    changes.len()
                },
                None => 0,
            },
            _ => 0,
        }
    }

    /// Applies or rejects a reviewed proposal. An explicit decision of a user or an
    /// operator is needed: an assistant can propose and review, but never activate.
    pub fn adjudicate_proposal(
        &mut self,
        operation: OperationContext,
        input: ProposalAdjudication,
        request: &[u8],
    ) -> (r: MemoryResult<ProposalAdjudicationReceipt>)
        ensures
            exists|fresh: FreshModel|
                fresh.ids.len() == old(self)@.change_count(input.proposal_id) + 1 && #[trigger] commits(
                    old(self)@,
                    final(self)@,
                    r,
                    old(self)@.adjudicate_proposal(operation, input, request@, fresh),
                ),
    {
        let count: usize = self.change_count(input.proposal_id);
        let mut fresh = Fresh::draw(count);
        fresh.ids.push(Ulid::new());
        let planned = self.plan_adjudicate_proposal(operation, input, request, &fresh);
        let r = self.commit(planned);
        assert(commits(
            old(self)@,
            self@,
            r,
            old(self)@.adjudicate_proposal(operation, input, request@, fresh@),
        ));
        r
    }
}

fn evidence_ids_of(pins: &Vec<EvidenceRevisionPin>) -> (r: Vec<EvidenceId>)
    ensures
        r@ == evidence_named(pins@),
{
    let mut r: Vec<EvidenceId> = Vec::new();
    for i in 0..pins.len()
        invariant
            r@ == evidence_named(pins@).take(i as int),
    {
        r.push(pins[i].id);
        assert(r@ =~= evidence_named(pins@).take(i + 1));
    }
    assert(r@ =~= evidence_named(pins@));
    r
}

} // verus!
