//! Proposals: submitting bundles, and the lists that operators read.
use vstd::prelude::*;
use crate::bundles::{
    MAX_PROPOSAL_ENCODED_BYTES, dependencies_of_proposal, existing_pins,
    normalize_proposal_bundle, proposal_dependencies, proposal_existing_pins, sound_bundle,
};
use crate::clock::{Fresh, FreshModel};
use crate::context::OperationContext;
use crate::digest::{mutation_digest, mutation_digest_of, same_digest};
use crate::fault::{CorruptFault, InputFault, MemoryError, MemoryResult, corrupt, invalid};
use crate::ids::{ProposalId, ProposalSourceJobId, Ulid};
use crate::inspect::{lookup, revision_of, shown, shown_option};
use crate::keys::{DependencyKey, RevisionKey, id_of, record_id};
use crate::order::{Keyed, in_order, in_order_is_unique};
use crate::records::audit::AuditAction;
use crate::records::evidence::{RecordRef, RecordState, Scope};
use crate::records::proposal::{
    NewProposalBundle, NewProposalBundleModel, ProposalPayload, ProposalPayloadModel,
    ProposalReceipt, ProposalRecord, ProposalRecordModel, ProposalReviewCase,
    ProposalReviewCaseModel, ProposalRevisionHeader, ProposalSourceIndex, ProposalStatus,
};
use crate::records::recall::{EvidenceRevisionPin, RecordRevisionPin};
use crate::records::receipt::{Receipt, ReceiptModel};
use crate::staging::{
    Planned, awaits_adjudication, commits, plans, proposal_status_awaits_adjudication,
};
use crate::store::{Batch, MemoryDatabase, StoreModel, Write, WriteModel};

verus! {

pub const MAX_OPERATOR_LIST_LIMIT: usize = 100;

/// What is answered of a proposal.
pub open spec fn proposal_receipt_of(header: ProposalRevisionHeader) -> ProposalReceipt {
    ProposalReceipt { id: header.id, revision: header.revision, status: header.status }
}

pub fn proposal_receipt(header: &ProposalRevisionHeader) -> (r: ProposalReceipt)
    ensures
        r == proposal_receipt_of(*header),
{
    ProposalReceipt { id: header.id, revision: header.revision, status: header.status }
}

/// The greatest identifiers, the greatest first, as many as an operator is shown.
pub open spec fn greatest_first(ids: Set<ProposalId>, limit: usize) -> Seq<ProposalId> {
    let all = in_order(ids);
    let bound = if limit <= MAX_OPERATOR_LIST_LIMIT {
        limit as int
    } else {
        MAX_OPERATOR_LIST_LIMIT as int
    };
    Seq::new(
        if all.len() <= bound {
            all.len()
        } else {
            bound as nat
        },
        |i: int| all[all.len() - 1 - i],
    )
}

fn list_greatest_first(ids: &Vec<ProposalId>, limit: usize, Ghost(members): Ghost<Set<ProposalId>>) -> (r: Vec<
    ProposalId,
>)
    requires
        ids@ == in_order(members),
    ensures
        r@ == greatest_first(members, limit),
{
    let bound: usize = if limit <= MAX_OPERATOR_LIST_LIMIT {
        limit
    } else {
        MAX_OPERATOR_LIST_LIMIT
    };
    let ghost wanted = greatest_first(members, limit);
    let mut r: Vec<ProposalId> = Vec::new();
    let mut i: usize = 0;
    while i < ids.len() && i < bound
        invariant
            i <= ids@.len(),
            i <= bound,
            ids@ == in_order(members),
            wanted == greatest_first(members, limit),
            bound == (if limit <= MAX_OPERATOR_LIST_LIMIT {
                limit
            } else {
                MAX_OPERATOR_LIST_LIMIT
            }),
            r@ == wanted.take(i as int),
        decreases ids@.len() - i,
    {
        r.push(ids[ids.len() - 1 - i]);
        assert(r@ =~= wanted.take(i + 1));
        i = i + 1;
    }
    assert(r@ =~= wanted);
    r
}

impl StoreModel {
    /// The proposals that there are.
    pub open spec fn proposal_ids(self) -> Set<ProposalId> {
        Set::new(|id: ProposalId| self.heads.contains_key(RecordRef::Proposal(id)))
    }

    /// The current headers of the first `n` of some proposals.
    pub open spec fn headers_of(self, ids: Seq<ProposalId>, n: nat) -> MemoryResult<Seq<ProposalRevisionHeader>>
        decreases n,
    {
        if n == 0 {
            Ok(Seq::empty())
        } else {
            match self.headers_of(ids, (n - 1) as nat) {
                Err(error) => Err(error),
                Ok(before) => {
                    let id = ids[n - 1];
                    let revision = self.heads[RecordRef::Proposal(id)];
                    match lookup(self.proposals, revision_of(id.0, revision)) {
                        None => corrupt(CorruptFault::RevisionMissing(RecordRef::Proposal(id), revision)),
                        Some(header) => Ok(before.push(header)),
                    }
                },
            }
        }
    }

    /// The headers of the first `n` of some proposals, all of which must await review.
    pub open spec fn pending_headers(self, ids: Seq<ProposalId>, n: nat) -> MemoryResult<Seq<ProposalRevisionHeader>>
        decreases n,
    {
        if n == 0 {
            Ok(Seq::empty())
        } else {
            match self.pending_headers(ids, (n - 1) as nat) {
                Err(error) => Err(error),
                Ok(before) => match self.inspect_proposal(ids[n - 1]) {
                    None => corrupt(CorruptFault::PendingMissing(ids[n - 1])),
                    Some(proposal) => if proposal.header.state != RecordState::Active || proposal.header.status
                        != ProposalStatus::PendingReview {
                        corrupt(CorruptFault::PendingNotPending(ids[n - 1]))
                    } else {
                        Ok(before.push(proposal.header))
                    },
                },
            }
        }
    }

    /// The headers of the first `n` of some proposals, all of which must await a decision.
    pub open spec fn awaiting_headers(self, ids: Seq<ProposalId>, n: nat) -> MemoryResult<Seq<ProposalRevisionHeader>>
        decreases n,
    {
        if n == 0 {
            Ok(Seq::empty())
        } else {
            match self.awaiting_headers(ids, (n - 1) as nat) {
                Err(error) => Err(error),
                Ok(before) => match self.inspect_proposal(ids[n - 1]) {
                    None => corrupt(CorruptFault::AwaitingMissing(ids[n - 1])),
                    Some(proposal) => if proposal.header.state != RecordState::Active || !awaits_adjudication(
                        proposal.header.status,
                    ) {
                        corrupt(CorruptFault::AwaitingNotActionable(ids[n - 1]))
                    } else {
                        Ok(before.push(proposal.header))
                    },
                },
            }
        }
    }

    /// The first refusal among the first `n` evidence pins of a bundle.
    pub open spec fn source_pins_fault(self, pins: Seq<EvidenceRevisionPin>, scope: Scope, n: nat) -> Option<MemoryError>
        decreases n,
    {
        if n == 0 {
            None
        } else {
            match self.source_pins_fault(pins, scope, (n - 1) as nat) {
                Some(error) => Some(error),
                None => {
                    let pin = pins[n - 1];
                    match self.inspect_evidence(pin.id) {
                        Err(error) => Some(error),
                        Ok(None) => Some(MemoryError::SourceUnavailable(pin.id)),
                        Ok(Some(evidence)) => if evidence.availability.revision != pin.revision
                            || evidence.availability.state != RecordState::Active {
                            Some(MemoryError::SourceUnavailable(pin.id))
                        } else if evidence.header.scope != scope {
                            Some(MemoryError::ScopeMismatch)
                        } else {
                            None
                        },
                    }
                },
            }
        }
    }

    /// The first refusal among the first `n` record pins of a bundle.
    pub open spec fn record_pins_fault(self, pins: Seq<RecordRevisionPin>, scope: Scope, n: nat) -> Option<MemoryError>
        decreases n,
    {
        if n == 0 {
            None
        } else {
            match self.record_pins_fault(pins, scope, (n - 1) as nat) {
                Some(error) => Some(error),
                None => {
                    let pin = pins[n - 1];
                    match self.standing(pin.record) {
                        Err(error) => Some(error),
                        Ok((found, state, revision)) => if found != scope {
                            Some(MemoryError::ScopeMismatch)
                        } else if state != RecordState::Active || revision != pin.revision {
                            Some(MemoryError::RevisionConflict { expected: pin.revision, actual: revision })
                        } else {
                            None
                        },
                    }
                },
            }
        }
    }

    /// With a record filed as a dependent of the first `n` records.
    pub open spec fn rests_on(self, sources: Seq<RecordRef>, dependent: RecordRef, n: nat) -> StoreModel
        decreases n,
    {
        if n == 0 {
            self
        } else {
            self.rests_on(sources, dependent, (n - 1) as nat).depends(sources[n - 1], dependent)
        }
    }

    /// With a submitted proposal.
    #[verifier::opaque]
    pub open spec fn with_proposal(
        self,
        header: ProposalRevisionHeader,
        bundle: NewProposalBundleModel,
        digest: [u8; 32],
    ) -> StoreModel {
        let record = RecordRef::Proposal(header.id);
        let sources = in_order(proposal_dependencies(bundle.source_evidence, bundle.changes));
        self.put(WriteModel::PutProposal(revision_of(header.id.0, 1), header)).put(WriteModel::PutHead(record, 1)).put(
            WriteModel::PutPending(header.id),
        ).put(
            WriteModel::PutProposalSource(
                bundle.source_job_id,
                ProposalSourceIndex { proposal_id: header.id, input_digest: digest },
            ),
        ).put(
            WriteModel::PutProposalPayload(
                header.id,
                ProposalPayloadModel { source_evidence: bundle.source_evidence, changes: bundle.changes },
            ),
        ).rests_on(sources, record, sources.len())
    }

    /// Submitting a bundle. The first identifier drawn is the audit event's, the second
    /// the proposal's.
    pub open spec fn submit_proposal(
        self,
        operation: OperationContext,
        input: NewProposalBundleModel,
        request: Seq<u8>,
        fresh: FreshModel,
    ) -> MemoryResult<(StoreModel, ProposalReceipt)> {
        let digest = mutation_digest_of(self.digest_key@, "submit_proposal"@, operation.actor, request);
        match sound_bundle(input) {
            Err(error) => Err(error),
            Ok(bundle) => if request.len() > MAX_PROPOSAL_ENCODED_BYTES {
                invalid(InputFault::ProposalEncodedBytes)
            } else {
                match self.replay(operation.id, digest) {
                    Err(error) => Err(error),
                    Ok(Some(ReceiptModel::Proposal(receipt))) => Ok((self, receipt)),
                    Ok(Some(_)) => corrupt(CorruptFault::ReceiptShape),
                    Ok(None) => match lookup(self.proposal_sources, bundle.source_job_id) {
                        Some(existing) => if existing.input_digest != digest {
                            invalid(InputFault::SourceJobReused(bundle.source_job_id))
                        } else {
                            match self.inspect_proposal(existing.proposal_id) {
                                None => corrupt(CorruptFault::SourceIndexDangling),
                                Some(proposal) => {
                                    let receipt = proposal_receipt_of(proposal.header);
                                    Ok(
                                        (
                                            self.remembered(
                                                operation.id,
                                                digest,
                                                ReceiptModel::Proposal(receipt),
                                            ),
                                            receipt,
                                        ),
                                    )
                                },
                            }
                        },
                        None => self.bundle_submitted(operation, bundle, digest, fresh),
                    },
                }
            },
        }
    }

    /// Submitting a bundle of a source job that is new.
    pub open spec fn bundle_submitted(
        self,
        operation: OperationContext,
        bundle: NewProposalBundleModel,
        digest: [u8; 32],
        fresh: FreshModel,
    ) -> MemoryResult<(StoreModel, ProposalReceipt)> {
        let pins = existing_pins(bundle.changes);
        match self.source_pins_fault(bundle.source_evidence, bundle.scope, bundle.source_evidence.len()) {
            Some(error) => Err(error),
            None => match self.record_pins_fault(pins, bundle.scope, pins.len()) {
                Some(error) => Err(error),
                None => {
                    let id = ProposalId(fresh.ids[1]);
                    let header = ProposalRevisionHeader {
                        id,
                        revision: 1,
                        previous_revision: None,
                        source_job_id: bundle.source_job_id,
                        scope: bundle.scope,
                        status: ProposalStatus::PendingReview,
                        state: RecordState::Active,
                        recorded_at_ms: fresh.recorded_at_ms,
                        operation_id: operation.id,
                    };
                    let receipt = proposal_receipt_of(header);
                    Ok(
                        (
                            self.with_proposal(header, bundle, digest).audited(
                                self.audit_event(
                                    fresh.ids[0],
                                    operation,
                                    AuditAction::ProposalSubmitted,
                                    seq![RecordRef::Proposal(id)],
                                    Seq::empty(),
                                    None,
                                    fresh.recorded_at_ms,
                                ),
                            ).remembered(operation.id, digest, ReceiptModel::Proposal(receipt)),
                            receipt,
                        ),
                    )
                },
            },
        }
    }
}

proof fn headers_refusal_persists(s: StoreModel, ids: Seq<ProposalId>, n: nat, m: nat)
    requires
        n <= m,
        s.headers_of(ids, n) is Err,
    ensures
        s.headers_of(ids, m) == s.headers_of(ids, n),
    decreases m,
{
    if n < m {
        headers_refusal_persists(s, ids, n, (m - 1) as nat);
    }
}

proof fn pending_refusal_persists(s: StoreModel, ids: Seq<ProposalId>, n: nat, m: nat)
    requires
        n <= m,
        s.pending_headers(ids, n) is Err,
    ensures
        s.pending_headers(ids, m) == s.pending_headers(ids, n),
    decreases m,
{
    if n < m {
        pending_refusal_persists(s, ids, n, (m - 1) as nat);
    }
}

proof fn awaiting_refusal_persists(s: StoreModel, ids: Seq<ProposalId>, n: nat, m: nat)
    requires
        n <= m,
        s.awaiting_headers(ids, n) is Err,
    ensures
        s.awaiting_headers(ids, m) == s.awaiting_headers(ids, n),
    decreases m,
{
    if n < m {
        awaiting_refusal_persists(s, ids, n, (m - 1) as nat);
    }
}

proof fn source_pins_fault_persists(s: StoreModel, pins: Seq<EvidenceRevisionPin>, scope: Scope, n: nat, m: nat)
    requires
        n <= m,
        s.source_pins_fault(pins, scope, n) is Some,
    ensures
        s.source_pins_fault(pins, scope, m) == s.source_pins_fault(pins, scope, n),
    decreases m,
{
    if n < m {
        source_pins_fault_persists(s, pins, scope, n, (m - 1) as nat);
    }
}

proof fn record_pins_fault_persists(s: StoreModel, pins: Seq<RecordRevisionPin>, scope: Scope, n: nat, m: nat)
    requires
        n <= m,
        s.record_pins_fault(pins, scope, n) is Some,
    ensures
        s.record_pins_fault(pins, scope, m) == s.record_pins_fault(pins, scope, n),
    decreases m,
{
    if n < m {
        record_pins_fault_persists(s, pins, scope, n, (m - 1) as nat);
    }
}

/// The proposals that records are.
pub open spec fn proposals_named(records: Seq<RecordRef>) -> Seq<ProposalId> {
    Seq::new(records.len(), |i: int| ProposalId(record_id(records[i])))
}

impl MemoryDatabase {
    fn proposal_ids(&self) -> (r: Vec<ProposalId>)
        ensures
            r@ == in_order(self@.proposal_ids()),
            forall|i: int| 0 <= i < r@.len() ==> self@.heads.contains_key(RecordRef::Proposal(#[trigger] r@[i])),
    {
        let low = RecordRef::Proposal(ProposalId(Ulid(0)));
        let high = RecordRef::Proposal(ProposalId(Ulid(u128::MAX)));
        let keys = self.heads.scan(&low, &high);
        proof {
            assert forall|k: RecordRef| #[trigger] keys@.contains(k) <==> self@.heads.contains_key(k) && k is Proposal by {
                assert(keys@.contains(k) <==> self@.heads.contains_key(k) && low.rank() <= k.rank() <= high.rank());
            }
        }
        let mut r: Vec<ProposalId> = Vec::new();
        for i in 0..keys.len()
            invariant
                r@ == proposals_named(keys@.take(i as int)),
        {
            r.push(ProposalId(id_of(keys[i])));
            assert(r@ =~= proposals_named(keys@.take(i + 1)));
        }
        proof {
            assert(keys@.take(keys@.len() as int) =~= keys@);
            let members = self@.proposal_ids();
            assert forall|i: int| 0 <= i < r@.len() implies keys@[i] == RecordRef::Proposal(#[trigger] r@[i])
                && members.contains(r@[i]) by {
                assert(keys@.contains(keys@[i]));
            }
            assert forall|i: int, j: int| 0 <= i < j < r@.len() implies (#[trigger] r@[i]).rank() < (
            #[trigger] r@[j]).rank() by {
                assert(keys@[i].rank() < keys@[j].rank());
                assert(keys@[i] == RecordRef::Proposal(r@[i]));
                assert(keys@[j] == RecordRef::Proposal(r@[j]));
            }
            assert forall|id: ProposalId| #[trigger] r@.contains(id) <==> members.contains(id) by {
                if members.contains(id) {
                    assert(keys@.contains(RecordRef::Proposal(id)));
                    let i = choose|i: int| 0 <= i < keys@.len() && keys@[i] == RecordRef::Proposal(id);
                    assert(r@[i] == id);
                }
            }
            in_order_is_unique(r@, members);
        }
        r
    }

    /// The current headers of the latest proposals, the latest first. Payloads are left
    /// out.
    pub fn list_proposals(&self, limit: usize) -> (r: MemoryResult<Vec<ProposalRevisionHeader>>)
        ensures
            shown(r) == self@.headers_of(
                greatest_first(self@.proposal_ids(), limit),
                greatest_first(self@.proposal_ids(), limit).len(),
            ),
    {
        let all = self.proposal_ids();
        let ids = list_greatest_first(&all, limit, Ghost(self@.proposal_ids()));
        let mut headers: Vec<ProposalRevisionHeader> = Vec::new();
        for i in 0..ids.len()
            invariant
                all@ == in_order(self@.proposal_ids()),
                forall|j: int| 0 <= j < all@.len() ==> self@.heads.contains_key(RecordRef::Proposal(#[trigger] all@[j])),
                ids@ == greatest_first(self@.proposal_ids(), limit),
                self@.headers_of(ids@, i as nat) == Ok::<Seq<ProposalRevisionHeader>, MemoryError>(headers@),
        {
            let id = ids[i];
            proof {
                assert(ids@[i as int] == all@[all@.len() - 1 - i]);
                if self@.headers_of(ids@, (i + 1) as nat) is Err {
                    headers_refusal_persists(self@, ids@, (i + 1) as nat, ids@.len());
                }
            }
            if let Some(revision) = self.heads.get(&RecordRef::Proposal(id)) {
                match self.proposals.get(&RevisionKey { id: id.0, revision: *revision }) {
                    Some(header) => {
                        headers.push(*header);
                    },
                    None => {
                        return Err(
                            MemoryError::Corrupt(
                                CorruptFault::RevisionMissing(RecordRef::Proposal(id), *revision),
                            ),
                        );
                    },
                }
            }
        }
        Ok(headers)
    }

    /// The headers of the latest proposals that await review, the latest first.
    pub fn list_pending_proposals(&self, limit: usize) -> (r: MemoryResult<Vec<ProposalRevisionHeader>>)
        ensures
            shown(r) == self@.pending_headers(
                greatest_first(self@.pending_proposals.dom(), limit),
                greatest_first(self@.pending_proposals.dom(), limit).len(),
            ),
    {
        let all = self.pending_proposals.keys();
        let ids = list_greatest_first(&all, limit, Ghost(self@.pending_proposals.dom()));
        let mut headers: Vec<ProposalRevisionHeader> = Vec::new();
        for i in 0..ids.len()
            invariant
                ids@ == greatest_first(self@.pending_proposals.dom(), limit),
                self@.pending_headers(ids@, i as nat) == Ok::<Seq<ProposalRevisionHeader>, MemoryError>(headers@),
        {
            let id = ids[i];
            proof {
                if self@.pending_headers(ids@, (i + 1) as nat) is Err {
                    pending_refusal_persists(self@, ids@, (i + 1) as nat, ids@.len());
                }
            }
            let header = match self.inspect_proposal(id)? {
                Some(proposal) => proposal.header,
                None => return Err(MemoryError::Corrupt(CorruptFault::PendingMissing(id))),
            };
            if header.state != RecordState::Active || header.status != ProposalStatus::PendingReview {
                return Err(MemoryError::Corrupt(CorruptFault::PendingNotPending(id)));
            }
            headers.push(header);
        }
        Ok(headers)
    }

    /// The headers of the latest proposals that await a decision, the latest first.
    /// Reviews that found a proposal unsupported leave nothing to decide.
    pub fn list_awaiting_adjudication(&self, limit: usize) -> (r: MemoryResult<Vec<ProposalRevisionHeader>>)
        ensures
            shown(r) == self@.awaiting_headers(
                greatest_first(self@.awaiting_adjudication.dom(), limit),
                greatest_first(self@.awaiting_adjudication.dom(), limit).len(),
            ),
    {
        let all = self.awaiting_adjudication.keys();
        let ids = list_greatest_first(&all, limit, Ghost(self@.awaiting_adjudication.dom()));
        let mut headers: Vec<ProposalRevisionHeader> = Vec::new();
        for i in 0..ids.len()
            invariant
                ids@ == greatest_first(self@.awaiting_adjudication.dom(), limit),
                self@.awaiting_headers(ids@, i as nat) == Ok::<Seq<ProposalRevisionHeader>, MemoryError>(headers@),
        {
            let id = ids[i];
            proof {
                if self@.awaiting_headers(ids@, (i + 1) as nat) is Err {
                    awaiting_refusal_persists(self@, ids@, (i + 1) as nat, ids@.len());
                }
            }
            let header = match self.inspect_proposal(id)? {
                Some(proposal) => proposal.header,
                None => return Err(MemoryError::Corrupt(CorruptFault::AwaitingMissing(id))),
            };
            if header.state != RecordState::Active || !proposal_status_awaits_adjudication(header.status) {
                return Err(MemoryError::Corrupt(CorruptFault::AwaitingNotActionable(id)));
            }
            headers.push(header);
        }
        Ok(headers)
    }

    /// The proposal that a source job gave rise to.
    pub fn proposal_by_source_job(&self, source_job_id: ProposalSourceJobId) -> (r: MemoryResult<
        Option<ProposalRecord>,
    >)
        ensures
            shown_option(r) == Ok::<Option<ProposalRecordModel>, MemoryError>(
                match lookup(self@.proposal_sources, source_job_id) {
                    None => None,
                    Some(index) => self@.inspect_proposal(index.proposal_id),
                },
            ),
    {
        match self.proposal_sources.get(&source_job_id) {
            Some(index) => self.inspect_proposal(index.proposal_id),
            None => Ok(None),
        }
    }

    /// The latest review of a proposal.
    pub fn latest_proposal_review(&self, proposal_id: ProposalId) -> (r: MemoryResult<Option<ProposalReviewCase>>)
        ensures
            shown_option(r) == Ok::<Option<ProposalReviewCaseModel>, MemoryError>(
                match lookup(self@.latest_proposal_review, proposal_id) {
                    None => None,
                    Some(pointer) => self@.review_at(pointer.review_case_id, pointer.revision),
                },
            ),
    {
        match self.latest_proposal_review.get(&proposal_id) {
            Some(pointer) => Ok(self.inspect_proposal_review_revision(pointer.review_case_id, pointer.revision)),
            None => Ok(None),
        }
    }

    fn check_source_pins(&self, pins: &Vec<EvidenceRevisionPin>, scope: Scope) -> (r: MemoryResult<()>)
        ensures
            r == (match self@.source_pins_fault(pins@, scope, pins@.len()) {
                Some(error) => Err(error),
                None => Ok(()),
            }),
    {
        for i in 0..pins.len()
            invariant
                self@.source_pins_fault(pins@, scope, i as nat) is None,
        {
            let pin = pins[i];
            proof {
                if self@.source_pins_fault(pins@, scope, (i + 1) as nat) is Some {
                    source_pins_fault_persists(self@, pins@, scope, (i + 1) as nat, pins@.len());
                }
            }
            let evidence = match self.inspect_evidence(pin.id) {
                Ok(Some(evidence)) => evidence,
                Ok(None) => return Err(MemoryError::SourceUnavailable(pin.id)),
                Err(error) => return Err(error),
            };
            if evidence.availability.revision != pin.revision || evidence.availability.state
                != RecordState::Active {
                return Err(MemoryError::SourceUnavailable(pin.id));
            }
            if evidence.header.scope != scope {
                return Err(MemoryError::ScopeMismatch);
            }
        }
        Ok(())
    }

    fn check_record_pins(&self, pins: &Vec<RecordRevisionPin>, scope: Scope) -> (r: MemoryResult<()>)
        ensures
            r == (match self@.record_pins_fault(pins@, scope, pins@.len()) {
                Some(error) => Err(error),
                None => Ok(()),
            }),
    {
        for i in 0..pins.len()
            invariant
                self@.record_pins_fault(pins@, scope, i as nat) is None,
        {
            let pin = pins[i];
            proof {
                if self@.record_pins_fault(pins@, scope, (i + 1) as nat) is Some {
                    record_pins_fault_persists(self@, pins@, scope, (i + 1) as nat, pins@.len());
                }
            }
            let standing = match self.record_scope_state_revision(pin.record) {
                Ok(standing) => standing,
                Err(error) => return Err(error),
            };
            if standing.0 != scope {
                return Err(MemoryError::ScopeMismatch);
            }
            if standing.1 != RecordState::Active || standing.2 != pin.revision {
                return Err(
                    MemoryError::RevisionConflict { expected: pin.revision, actual: standing.2 },
                );
            }
        }
        Ok(())
    }

    pub(crate) fn insert_dependencies(&self, batch: &mut Batch, sources: &Vec<RecordRef>, dependent: RecordRef)
        ensures
            self@.after(final(batch)@) == self@.after(old(batch)@).rests_on(sources@, dependent, sources@.len()),
    {
        let ghost start = self@.after(batch@);
        for i in 0..sources.len()
            invariant
                self@.after(batch@) == start.rests_on(sources@, dependent, i as nat),
        {
            batch.push(Write::PutDependency(DependencyKey { source: sources[i], dependent }));
        }
    }

    fn insert_proposal(
        &self,
        batch: &mut Batch,
        header: ProposalRevisionHeader,
        bundle: NewProposalBundle,
        digest: [u8; 32],
    )
        ensures
            self@.after(final(batch)@) == self@.after(old(batch)@).with_proposal(header, bundle@, digest),
    {
        reveal(StoreModel::with_proposal);
        let record = RecordRef::Proposal(header.id);
        let sources = dependencies_of_proposal(&bundle.source_evidence, &bundle.changes);
        batch.push(Write::PutProposal(RevisionKey { id: header.id.0, revision: 1 }, header));
        batch.push(Write::PutHead(record, 1));
        batch.push(Write::PutPending(header.id));
        batch.push(
            Write::PutProposalSource(
                bundle.source_job_id,
                ProposalSourceIndex { proposal_id: header.id, input_digest: digest },
            ),
        );
        batch.push(
            Write::PutProposalPayload(
                header.id,
                ProposalPayload { source_evidence: bundle.source_evidence, changes: bundle.changes },
            ),
        );
        self.insert_dependencies(batch, &sources, record);
    }

    fn plan_bundle(
        &self,
        operation: OperationContext,
        bundle: NewProposalBundle,
        digest: [u8; 32],
        fresh: &Fresh,
    ) -> (r: MemoryResult<Planned<ProposalReceipt>>)
        requires
            fresh.ids@.len() == 2,
        ensures
            plans(self@, r, self@.bundle_submitted(operation, bundle@, digest, fresh@)),
    {
        self.check_source_pins(&bundle.source_evidence, bundle.scope)?;
        let pins = proposal_existing_pins(&bundle.changes);
        self.check_record_pins(&pins, bundle.scope)?;
        let id = ProposalId(fresh.ids[1]);
        let header = ProposalRevisionHeader {
            id,
            revision: 1,
            previous_revision: None,
            source_job_id: bundle.source_job_id,
            scope: bundle.scope,
            status: ProposalStatus::PendingReview,
            state: RecordState::Active,
            recorded_at_ms: fresh.recorded_at_ms,
            operation_id: operation.id,
        };
        let receipt = proposal_receipt(&header);
        let mut batch = Batch::new();
        self.insert_proposal(&mut batch, header, bundle, digest);
        let subjects: Vec<RecordRef> = vec![RecordRef::Proposal(id)];
        assert(subjects@ =~= seq![RecordRef::Proposal(id)]);
        self.insert_audit(
            &mut batch,
            fresh.ids[0],
            operation,
            AuditAction::ProposalSubmitted,
            subjects,
            Vec::new(),
            None,
            fresh.recorded_at_ms,
        );
        self.insert_operation(&mut batch, operation.id, digest, Receipt::Proposal(receipt));
        Ok(Planned { batch, receipt })
    }

    /// What submitting a bundle would do with the given instant and identifiers. `request`
    /// encodes the bundle in its normal form.
    pub fn plan_submit_proposal(
        &self,
        operation: OperationContext,
        input: &NewProposalBundle,
        request: &[u8],
        fresh: &Fresh,
    ) -> (r: MemoryResult<Planned<ProposalReceipt>>)
        requires
            fresh.ids@.len() == 2,
        ensures
            plans(self@, r, self@.submit_proposal(operation, input@, request@, fresh@)),
    {
        let bundle = normalize_proposal_bundle(input)?;
        if request.len() > MAX_PROPOSAL_ENCODED_BYTES {
            return Err(MemoryError::InvalidInput(InputFault::ProposalEncodedBytes));
        }
        let digest = mutation_digest(&self.digest_key, "submit_proposal", operation.actor, request);
        let mut batch = Batch::new();
        match self.replayed_operation(operation.id, digest)? {
            Some(Receipt::Proposal(receipt)) => {
                return Ok(Planned { batch, receipt });
            },
            Some(_) => {
                return Err(MemoryError::Corrupt(CorruptFault::ReceiptShape));
            },
            None => {},
        }
        if let Some(existing) = self.proposal_sources.get(&bundle.source_job_id) {
            if !same_digest(&existing.input_digest, &digest) {
                return Err(
                    MemoryError::InvalidInput(InputFault::SourceJobReused(bundle.source_job_id)),
                );
            }
            let receipt = match self.inspect_proposal(existing.proposal_id)? {
                Some(proposal) => proposal_receipt(&proposal.header),
                None => return Err(MemoryError::Corrupt(CorruptFault::SourceIndexDangling)),
            };
            self.insert_operation(&mut batch, operation.id, digest, Receipt::Proposal(receipt));
            return Ok(Planned { batch, receipt });
        }
        self.plan_bundle(operation, bundle, digest, fresh)
    }

    /// Submits a bundle without activating any record. A source job identifies one
    /// proposal, whatever operation submits it.
    pub fn submit_proposal(&mut self, operation: OperationContext, input: NewProposalBundle, request: &[u8]) -> (r:
        MemoryResult<ProposalReceipt>)
        ensures
            exists|fresh: FreshModel|
                fresh.ids.len() == 2 && #[trigger] commits(
                    old(self)@,
                    final(self)@,
                    r,
                    old(self)@.submit_proposal(operation, input@, request@, fresh),
                ),
    {
        let fresh = Fresh::draw(2);
        let planned = self.plan_submit_proposal(operation, &input, request, &fresh);
        let r = self.commit(planned);
        assert(commits(
            old(self)@,
            self@,
            r,
            old(self)@.submit_proposal(operation, input@, request@, fresh@),
        ));
        r
    }
}

} // verus!
