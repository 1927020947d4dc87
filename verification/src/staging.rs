//! The parts that operations are made of: state changes, index documents, audit
//! events and the memory of committed operations.
use vstd::prelude::*;
use crate::context::{OperationContext, TemporalFacts};
use crate::digest::{EXACT_DOMAIN, TERM_DOMAIN, index_digest, index_hash, same_digest};
use crate::fault::{CorruptFault, MemoryError, MemoryResult, corrupt};
use crate::ids::{AuditEventId, OperationId, ProposalId, Ulid};
use crate::inspect::{lookup, revision_of, shown_option};
use crate::keys::{AuditKey, DependencyKey, PostingKey, RevisionKey, TimeKey, id_of, record_id};
use crate::order::{Ranked, in_order, in_order_is_unique, increasing};
use crate::records::artifact::ArtifactAvailabilityRevision;
use crate::records::audit::{
    AdjudicationAudit, AuditAction, AuditEvent, AuditEventModel, AuditOutcome, DerivedRecordRef,
    LexicalDocument, LexicalDocumentModel, PurgeDependency, RecordRevision,
};
use crate::records::claim::{
    ClaimRevisionHeader, ClaimRevisionHeaderModel, EntityRevisionHeader,
    EntityRevisionHeaderModel, SemanticRelationRevisionHeader,
    SemanticRelationRevisionHeaderModel,
};
use crate::records::evidence::{EvidenceAvailabilityRevision, RecordRef, RecordState, Scope};
use crate::records::proposal::{ProposalReviewCaseHeader, ProposalRevisionHeader, ProposalStatus};
use crate::records::receipt::{Receipt, ReceiptModel, StoredOperation, StoredOperationModel};
use crate::store::{Batch, MemoryDatabase, StoreModel, Write, WriteModel};
use crate::table::{Replica, copies, views};
use crate::text::{exact_form, normalize_exact, terms, text_bytes, tokenize, utf8};

verus! {

/// The most distinct terms that are indexed of one record.
pub const MAX_INDEX_TERMS_PER_RECORD: usize = 8_192;

/// What an operation would do, and what it would answer.
pub struct Planned<R> {
    pub batch: Batch,
    pub receipt: R,
}

/// `answer` is the plan that leads from `before` to what is wanted, or the same refusal.
pub open spec fn plans<R: View>(
    before: StoreModel,
    answer: MemoryResult<Planned<R>>,
    wanted: MemoryResult<(StoreModel, R::V)>,
) -> bool {
    match (answer, wanted) {
        (Ok(planned), Ok((after, receipt))) => before.after(planned.batch@) == after && planned.receipt@ == receipt,
        (Err(error), Err(refusal)) => error == refusal,
        _ => false,
    }
}

/// The store went from `before` to what is wanted and answered so, or refused and
/// was left as it was.
pub open spec fn commits<R: View>(
    before: StoreModel,
    after: StoreModel,
    answer: MemoryResult<R>,
    wanted: MemoryResult<(StoreModel, R::V)>,
) -> bool {
    match (answer, wanted) {
        (Ok(receipt), Ok((reached, owed))) => after == reached && receipt@ == owed,
        (Err(error), Err(refusal)) => error == refusal && after == before,
        _ => false,
    }
}

/// `answer` is what is wanted of a step, with the batch extended to match, or the same refusal.
pub open spec fn steps<R>(
    before: StoreModel,
    batch: Seq<WriteModel>,
    answer: MemoryResult<R>,
    wanted: MemoryResult<(StoreModel, R)>,
) -> bool {
    match (answer, wanted) {
        (Ok(value), Ok((after, owed))) => before.after(batch) == after && value == owed,
        (Err(error), Err(refusal)) => error == refusal,
        _ => false,
    }
}

/// The digests of the terms of a text, in the order of the text.
pub open spec fn term_digests(key: Seq<u8>, text: Seq<char>) -> Seq<[u8; 32]> {
    Seq::new(terms(text).len(), |i: int| index_digest(key, TERM_DOMAIN, utf8(terms(text)[i])))
}

/// The distinct digests among the first `n`, up to the number that is indexed.
pub open spec fn indexed_digests(digests: Seq<[u8; 32]>, n: nat) -> Set<[u8; 32]>
    decreases n,
{
    if n == 0 {
        Set::empty()
    } else {
        let before = indexed_digests(digests, (n - 1) as nat);
        if before.len() >= MAX_INDEX_TERMS_PER_RECORD {
            before
        } else {
            before.insert(digests[n - 1])
        }
    }
}

/// What is indexed of a record.
pub open spec fn document_of(
    key: Seq<u8>,
    record: RecordRef,
    revision: u64,
    scope: Scope,
    temporal: TemporalFacts,
    text: Seq<char>,
) -> LexicalDocumentModel {
    let digests = term_digests(key, text);
    LexicalDocumentModel {
        record,
        revision,
        scope,
        temporal,
        term_hashes: in_order(indexed_digests(digests, digests.len())),
        exact_hash: index_digest(key, EXACT_DOMAIN, utf8(exact_form(text))),
    }
}

impl StoreModel {
    /// With a record filed under the first `n` of some term digests.
    pub open spec fn with_postings(self, record: RecordRef, hashes: Seq<[u8; 32]>, n: nat) -> StoreModel
        decreases n,
    {
        if n == 0 {
            self
        } else {
            self.with_postings(record, hashes, (n - 1) as nat).put(
                WriteModel::PutPosting(PostingKey { domain: TERM_DOMAIN, hash: hashes[n - 1], record }),
            )
        }
    }

    /// With a record no longer filed under the first `n` of some term digests.
    pub open spec fn without_postings(self, record: RecordRef, hashes: Seq<[u8; 32]>, n: nat) -> StoreModel
        decreases n,
    {
        if n == 0 {
            self
        } else {
            self.without_postings(record, hashes, (n - 1) as nat).put(
                WriteModel::DropPosting(PostingKey { domain: TERM_DOMAIN, hash: hashes[n - 1], record }),
            )
        }
    }

    /// With a record indexed by a text.
    #[verifier::opaque]
    pub open spec fn indexed(
        self,
        record: RecordRef,
        revision: u64,
        scope: Scope,
        temporal: TemporalFacts,
        text: Seq<char>,
    ) -> StoreModel {
        let document = document_of(self.digest_key@, record, revision, scope, temporal, text);
        self.put(WriteModel::PutLexicalDoc(record, document)).with_postings(
            record,
            document.term_hashes,
            document.term_hashes.len(),
        ).put(
            WriteModel::PutPosting(
                PostingKey { domain: EXACT_DOMAIN, hash: document.exact_hash, record },
            ),
        ).put(WriteModel::PutTime(TimeKey { observed_at_ms: temporal.observed_at_ms, record }))
    }

    /// With the index document that a record has in `committed` taken out again.
    #[verifier::opaque]
    pub open spec fn unindexed(self, committed: StoreModel, record: RecordRef) -> StoreModel {
        match lookup(committed.lexical_docs, record) {
            None => self,
            Some(document) => self.without_postings(
                record,
                document.term_hashes,
                document.term_hashes.len(),
            ).put(
                WriteModel::DropPosting(
                    PostingKey { domain: EXACT_DOMAIN, hash: document.exact_hash, record },
                ),
            ).put(
                WriteModel::DropTime(
                    TimeKey { observed_at_ms: document.temporal.observed_at_ms, record },
                ),
            ).put(WriteModel::DropLexicalDoc(record)),
        }
    }

    /// Without the payload of a record.
    #[verifier::opaque]
    pub open spec fn without_payload(self, record: RecordRef) -> StoreModel {
        match record {
            RecordRef::Evidence(_) => self.put(WriteModel::DropText(record)),
            RecordRef::Claim(_) => self.put(WriteModel::DropText(record)),
            RecordRef::Entity(id) => self.put(WriteModel::DropEntityPayload(id)),
            RecordRef::SemanticRelation(id) => self.put(WriteModel::DropRelationPayload(id)),
            RecordRef::Proposal(id) => self.put(WriteModel::DropProposalPayload(id)),
            RecordRef::ProposalReview(id) => self.put(WriteModel::DropReviewPayload(id)),
            RecordRef::ArtifactCollection(_) => self.put(WriteModel::DropText(record)),
            RecordRef::ArtifactSnapshot(id) => self.put(WriteModel::DropSnapshotPayload(id)).put(
                WriteModel::DropBlob(id),
            ),
            RecordRef::ArtifactPassage(_) => self.put(WriteModel::DropText(record)),
        }
    }

    /// Whether the payload of a record is there.
    #[verifier::opaque]
    pub open spec fn has_payload(self, record: RecordRef) -> bool {
        match record {
            RecordRef::Evidence(_) => self.texts.contains_key(record),
            RecordRef::Claim(_) => self.texts.contains_key(record),
            RecordRef::Entity(id) => self.entity_payloads.contains_key(id),
            RecordRef::SemanticRelation(id) => self.relation_payloads.contains_key(id),
            RecordRef::Proposal(id) => self.proposal_payloads.contains_key(id),
            RecordRef::ProposalReview(id) => self.review_payloads.contains_key(id),
            RecordRef::ArtifactCollection(_) => self.texts.contains_key(record),
            RecordRef::ArtifactSnapshot(id) => self.snapshot_payloads.contains_key(id),
            RecordRef::ArtifactPassage(_) => self.texts.contains_key(record),
        }
    }

    /// With `second` filed as a dependent of `first`.
    pub open spec fn depends(self, first: RecordRef, second: RecordRef) -> StoreModel {
        self.put(WriteModel::PutDependency(DependencyKey { source: first, dependent: second }))
    }

    /// The audit event of an operation of this store.
    pub open spec fn audit_event(
        self,
        id: Ulid,
        operation: OperationContext,
        action: AuditAction,
        subjects: Seq<RecordRef>,
        derived_subjects: Seq<DerivedRecordRef>,
        adjudication: Option<AdjudicationAudit>,
        recorded_at_ms: i64,
    ) -> AuditEventModel {
        AuditEventModel {
            id: AuditEventId(id),
            era_id: self.era_id,
            operation_id: operation.id,
            actor: operation.actor,
            action,
            subjects,
            derived_subjects,
            adjudication,
            outcome: AuditOutcome::Committed,
            recorded_at_ms,
        }
    }

    /// With an audit event recorded.
    pub open spec fn audited(self, event: AuditEventModel) -> StoreModel {
        self.put(
            WriteModel::PutAudit(AuditKey { recorded_at_ms: event.recorded_at_ms, id: event.id }, event),
        )
    }

    /// With an operation remembered by the digest of its request.
    pub open spec fn remembered(self, id: OperationId, digest: [u8; 32], receipt: ReceiptModel) -> StoreModel {
        self.put(WriteModel::PutOperation(id, StoredOperationModel { digest, receipt }))
    }

    /// What an operation that was committed before is answered: its receipt if the
    /// request is the same, a refusal if it is another.
    #[verifier::opaque]
    pub open spec fn replay(self, id: OperationId, digest: [u8; 32]) -> MemoryResult<Option<ReceiptModel>> {
        match lookup(self.operations, id) {
            None => Ok(None),
            Some(stored) => if stored.digest == digest {
                Ok(Some(stored.receipt))
            } else {
                Err(MemoryError::OperationConflict(id))
            },
        }
    }

    /// `staged` with a further revision of a record that stands at `expected_revision`
    /// in this store.
    #[verifier::opaque]
    pub open spec fn appended(
        self,
        staged: StoreModel,
        record: RecordRef,
        expected_revision: u64,
        state: RecordState,
        operation_id: OperationId,
        recorded_at_ms: i64,
    ) -> MemoryResult<(StoreModel, RecordRevision)> {
        match self.standing(record) {
            Err(error) => Err(error),
            Ok((_, _, actual)) => if actual != expected_revision {
                Err(MemoryError::RevisionConflict { expected: expected_revision, actual })
            } else if expected_revision == u64::MAX {
                corrupt(CorruptFault::RevisionOverflow)
            } else {
                let revision = (expected_revision + 1) as u64;
                match self.next_revision(staged, record, expected_revision, state, operation_id, recorded_at_ms) {
                    Err(error) => Err(error),
                    Ok(after) => Ok(
                        (after.put(WriteModel::PutHead(record, revision)), RecordRevision { record, revision, state }),
                    ),
                }
            },
        }
    }

    /// `staged` with the header of the revision after `expected_revision` of a record.
    #[verifier::opaque]
    pub open spec fn next_revision(
        self,
        staged: StoreModel,
        record: RecordRef,
        expected_revision: u64,
        state: RecordState,
        operation_id: OperationId,
        recorded_at_ms: i64,
    ) -> MemoryResult<StoreModel> {
        let revision = (expected_revision + 1) as u64;
        let key = revision_of(record_id(record), revision);
        match record {
            RecordRef::Evidence(id) => if self.evidence_availability.contains_key(
                revision_of(id.0, expected_revision),
            ) {
                Ok(
                    staged.put(
                        WriteModel::PutEvidenceAvailability(
                            key,
                            EvidenceAvailabilityRevision {
                                evidence_id: id,
                                revision,
                                state,
                                recorded_at_ms,
                                operation_id,
                            },
                        ),
                    ),
                )
            } else {
                corrupt(CorruptFault::RevisionMissing(record, expected_revision))
            },
            RecordRef::Claim(id) => match self.inspect_claim(id) {
                Err(error) => Err(error),
                Ok(None) => Err(MemoryError::NotFound(record)),
                Ok(Some(current)) => Ok(
                    staged.put(
                        WriteModel::PutClaim(
                            key,
                            ClaimRevisionHeaderModel {
                                revision,
                                previous_revision: Some(expected_revision),
                                state,
                                recorded_at_ms,
                                operation_id,
                                ..current.header
                            },
                        ),
                    ),
                ),
            },
            RecordRef::Entity(id) => match self.inspect_entity(id) {
                Err(error) => Err(error),
                Ok(None) => Err(MemoryError::NotFound(record)),
                Ok(Some(current)) => Ok(
                    staged.put(
                        WriteModel::PutEntity(
                            key,
                            EntityRevisionHeaderModel {
                                revision,
                                previous_revision: Some(expected_revision),
                                state,
                                recorded_at_ms,
                                operation_id,
                                ..current.header
                            },
                        ),
                    ),
                ),
            },
            RecordRef::SemanticRelation(id) => match self.inspect_semantic_relation(id) {
                Err(error) => Err(error),
                Ok(None) => Err(MemoryError::NotFound(record)),
                Ok(Some(current)) => Ok(
                    staged.put(
                        WriteModel::PutRelation(
                            key,
                            SemanticRelationRevisionHeaderModel {
                                revision,
                                previous_revision: Some(expected_revision),
                                state,
                                recorded_at_ms,
                                operation_id,
                                ..current.header
                            },
                        ),
                    ),
                ),
            },
            RecordRef::Proposal(id) => match self.inspect_proposal(id) {
                None => Err(MemoryError::NotFound(record)),
                Some(current) => {
                    let unlisted = staged.unlisted_proposal(id, current.header.status);
                    Ok(
                        unlisted.put(
                            WriteModel::PutProposal(
                                key,
                                ProposalRevisionHeader {
                                    revision,
                                    previous_revision: Some(expected_revision),
                                    state,
                                    status: if state == RecordState::Unsupported {
                                        ProposalStatus::Stale
                                    } else if state == RecordState::Retracted {
                                        ProposalStatus::Rejected
                                    } else {
                                        current.header.status
                                    },
                                    recorded_at_ms,
                                    operation_id,
                                    ..current.header
                                },
                            ),
                        ),
                    )
                },
            },
            RecordRef::ProposalReview(id) => match self.inspect_proposal_review(id) {
                None => Err(MemoryError::NotFound(record)),
                Some(current) => Ok(
                    staged.put(
                        WriteModel::PutReview(
                            key,
                            ProposalReviewCaseHeader {
                                revision,
                                previous_revision: Some(expected_revision),
                                state,
                                recorded_at_ms,
                                operation_id,
                                ..current.header
                            },
                        ),
                    ),
                ),
            },
            RecordRef::ArtifactCollection(id) => Ok(
                staged.put(
                    WriteModel::PutCollectionAvailability(
                        key,
                        ArtifactAvailabilityRevision { id, revision, state, recorded_at_ms, operation_id },
                    ),
                ),
            ),
            RecordRef::ArtifactSnapshot(id) => Ok(
                staged.put(
                    WriteModel::PutSnapshotAvailability(
                        key,
                        ArtifactAvailabilityRevision { id, revision, state, recorded_at_ms, operation_id },
                    ),
                ),
            ),
            RecordRef::ArtifactPassage(id) => Ok(
                staged.put(
                    WriteModel::PutPassageAvailability(
                        key,
                        ArtifactAvailabilityRevision { id, revision, state, recorded_at_ms, operation_id },
                    ),
                ),
            ),
        }
    }

    /// Without a proposal in the work lists that its status put it on.
    #[verifier::opaque]
    pub open spec fn unlisted_proposal(self, id: ProposalId, status: ProposalStatus) -> StoreModel {
        if status == ProposalStatus::PendingReview {
            self.put(WriteModel::DropPending(id))
        } else if awaits_adjudication(status) {
            self.put(WriteModel::DropAwaiting(id))
        } else {
            self
        }
    }

    /// `staged` with every listed dependent invalidated and taken out of the index.
    pub open spec fn invalidated(
        self,
        staged: StoreModel,
        dependencies: Seq<PurgeDependency>,
        n: nat,
        state: RecordState,
        operation_id: OperationId,
        recorded_at_ms: i64,
    ) -> MemoryResult<(StoreModel, Seq<RecordRevision>)>
        decreases n,
    {
        if n == 0 {
            Ok((staged, Seq::empty()))
        } else {
            match self.invalidated(staged, dependencies, (n - 1) as nat, state, operation_id, recorded_at_ms) {
                Err(error) => Err(error),
                Ok((before, revisions)) => {
                    let dependency = dependencies[n - 1];
                    match self.appended(
                        before,
                        dependency.record,
                        dependency.expected_revision,
                        state,
                        operation_id,
                        recorded_at_ms,
                    ) {
                        Err(error) => Err(error),
                        Ok((after, revision)) => Ok(
                            (after.unindexed(self, dependency.record), revisions.push(revision)),
                        ),
                    }
                },
            }
        }
    }
}

/// The records that revisions are of.
pub open spec fn records_of(revisions: Seq<RecordRevision>) -> Seq<RecordRef> {
    Seq::new(revisions.len(), |i: int| revisions[i].record)
}

/// A proposal in this status waits for a decision of the user or an operator.
pub open spec fn awaits_adjudication(status: ProposalStatus) -> bool {
    status == ProposalStatus::ReviewedApprove || status == ProposalStatus::ReviewedReject || status
        == ProposalStatus::NeedsUser
}

pub fn proposal_status_awaits_adjudication(status: ProposalStatus) -> (r: bool)
    ensures
        r == awaits_adjudication(status),
{
    match status {
        ProposalStatus::ReviewedApprove => true,
        ProposalStatus::ReviewedReject => true,
        ProposalStatus::NeedsUser => true,
        _ => false,
    }
}

/// Appends the records that revisions are of.
pub fn append_records(subjects: &mut Vec<RecordRef>, revisions: &Vec<RecordRevision>)
    ensures
        final(subjects)@ == old(subjects)@ + records_of(revisions@),
{
    let ghost start = subjects@;
    for i in 0..revisions.len()
        invariant
            subjects@ == start + records_of(revisions@.take(i as int)),
    {
        subjects.push(revisions[i].record);
        assert(subjects@ =~= start + records_of(revisions@.take(i + 1)));
    }
    assert(revisions@.take(revisions@.len() as int) =~= revisions@);
}

/// Changes leave the era and the key of a store alone.
pub proof fn changes_keep_identity(s: StoreModel, writes: Seq<WriteModel>)
    ensures
        s.after(writes).era_id == s.era_id,
        s.after(writes).digest_key == s.digest_key,
    decreases writes.len(),
{
    reveal(StoreModel::put);
    if writes.len() > 0 {
        changes_keep_identity(s, writes.drop_last());
    }
}

proof fn indexed_digests_finite(digests: Seq<[u8; 32]>, n: nat)
    ensures
        indexed_digests(digests, n).finite(),
        indexed_digests(digests, n).len() <= MAX_INDEX_TERMS_PER_RECORD,
    decreases n,
{
    if n > 0 {
        indexed_digests_finite(digests, (n - 1) as nat);
    }
}

/// Once the limit is reached, further terms change nothing.
proof fn indexed_digests_full(digests: Seq<[u8; 32]>, n: nat, m: nat)
    requires
        n <= m,
        indexed_digests(digests, n).len() >= MAX_INDEX_TERMS_PER_RECORD,
    ensures
        indexed_digests(digests, m) == indexed_digests(digests, n),
    decreases m,
{
    if n < m {
        indexed_digests_full(digests, n, (m - 1) as nat);
    }
}

impl MemoryDatabase {
    /// Carries out a plan; a refusal changes nothing.
    pub fn commit<R: View>(&mut self, planned: MemoryResult<Planned<R>>) -> (r: MemoryResult<R>)
        ensures
            forall|wanted: MemoryResult<(StoreModel, R::V)>|
                plans(old(self)@, planned, wanted) ==> #[trigger] commits(old(self)@, final(self)@, r, wanted),
    {
        match planned {
            Err(error) => Err(error),
            Ok(plan) => {
                self.apply(plan.batch);
                Ok(plan.receipt)
            },
        }
    }

    /// The distinct digests of the first terms of a text, in order.
    fn term_hashes(&self, text: &str) -> (r: Vec<[u8; 32]>)
        ensures
            r@ == in_order(indexed_digests(term_digests(self@.digest_key@, text@), terms(text@).len())),
    {
        let tokens = tokenize(text);
        let ghost digests = term_digests(self@.digest_key@, text@);
        let ghost all = terms(text@);
        let mut hashes: Ranked<[u8; 32]> = Ranked::new();
        let mut i: usize = 0;
        while i < tokens.len() && hashes.len() < MAX_INDEX_TERMS_PER_RECORD
            invariant
                i <= tokens@.len(),
                views(tokens@) == all,
                all == terms(text@),
                digests == term_digests(self@.digest_key@, text@),
                increasing(hashes@),
                forall|h: [u8; 32]| #[trigger] hashes@.contains(h) <==> indexed_digests(digests, i as nat).contains(h),
                hashes@.len() == indexed_digests(digests, i as nat).len(),
            decreases tokens@.len() - i,
        {
            let ghost before = hashes@;
            let ghost seen = indexed_digests(digests, i as nat);
            let hash = index_hash(&self.digest_key, TERM_DOMAIN, text_bytes(tokens[i].as_str()));
            proof {
                assert(views(tokens@)[i as int] == tokens@[i as int]@);
                assert(hash == digests[i as int]);
                indexed_digests_finite(digests, i as nat);
            }
            hashes.insert(hash);
            i = i + 1;
        }
        proof {
            if i < tokens@.len() {
                indexed_digests_full(digests, i as nat, tokens@.len());
            }
        }
        let r = hashes.into_vec();
        proof {
            in_order_is_unique(r@, indexed_digests(digests, tokens@.len()));
        }
        r
    }

    pub(crate) fn insert_lexical_document(
        &self,
        batch: &mut Batch,
        record: RecordRef,
        revision: u64,
        scope: Scope,
        temporal: TemporalFacts,
        text: &str,
    )
        ensures
            self@.after(final(batch)@) == self@.after(old(batch)@).indexed(record, revision, scope, temporal, text@),
    {
        reveal(StoreModel::indexed);
        let term_hashes = self.term_hashes(text);
        let exact = normalize_exact(text);
        let exact_hash = index_hash(&self.digest_key, EXACT_DOMAIN, text_bytes(exact.as_str()));
        let ghost start = self@.after(batch@);
        proof {
            changes_keep_identity(self@, batch@);
        }
        let hashes = copies(&term_hashes);
        let document = LexicalDocument { record, revision, scope, temporal, term_hashes, exact_hash };
        let ghost described = start.put(WriteModel::PutLexicalDoc(record, document@));
        batch.push(Write::PutLexicalDoc(record, document));
        for i in 0..hashes.len()
            invariant
                self@.after(batch@) == described.with_postings(record, hashes@, i as nat),
        {
            batch.push(Write::PutPosting(PostingKey { domain: TERM_DOMAIN, hash: hashes[i], record }));
        }
        batch.push(Write::PutPosting(PostingKey { domain: EXACT_DOMAIN, hash: exact_hash, record }));
        batch.push(Write::PutTime(TimeKey { observed_at_ms: temporal.observed_at_ms, record }));
    }

    pub(crate) fn remove_lexical_document(&self, batch: &mut Batch, record: RecordRef)
        ensures
            self@.after(final(batch)@) == self@.after(old(batch)@).unindexed(self@, record),
    {
        reveal(StoreModel::unindexed);
        let ghost start = self@.after(batch@);
        match self.lexical_docs.get(&record) {
            None => {},
            Some(document) => {
                for i in 0..document.term_hashes.len()
                    invariant
                        self@.after(batch@) == start.without_postings(record, document.term_hashes@, i as nat),
                {
                    batch.push(
                        Write::DropPosting(
                            PostingKey { domain: TERM_DOMAIN, hash: document.term_hashes[i], record },
                        ),
                    );
                }
                batch.push(
                    Write::DropPosting(
                        PostingKey { domain: EXACT_DOMAIN, hash: document.exact_hash, record },
                    ),
                );
                batch.push(
                    Write::DropTime(TimeKey { observed_at_ms: document.temporal.observed_at_ms, record }),
                );
                batch.push(Write::DropLexicalDoc(record));
            },
        }
    }

    pub(crate) fn remove_record_payload(&self, batch: &mut Batch, record: RecordRef)
        ensures
            self@.after(final(batch)@) == self@.after(old(batch)@).without_payload(record),
    {
        reveal(StoreModel::without_payload);
        match record {
            RecordRef::Evidence(_) => batch.push(Write::DropText(record)),
            RecordRef::Claim(_) => batch.push(Write::DropText(record)),
            RecordRef::Entity(id) => batch.push(Write::DropEntityPayload(id)),
            RecordRef::SemanticRelation(id) => batch.push(Write::DropRelationPayload(id)),
            RecordRef::Proposal(id) => batch.push(Write::DropProposalPayload(id)),
            RecordRef::ProposalReview(id) => batch.push(Write::DropReviewPayload(id)),
            RecordRef::ArtifactCollection(_) => batch.push(Write::DropText(record)),
            RecordRef::ArtifactSnapshot(id) => {
                batch.push(Write::DropSnapshotPayload(id));
                batch.push(Write::DropBlob(id));
            },
            RecordRef::ArtifactPassage(_) => batch.push(Write::DropText(record)),
        }
    }

    pub(crate) fn has_payload(&self, record: RecordRef) -> (r: bool)
        ensures
            r == self@.has_payload(record),
    {
        reveal(StoreModel::has_payload);
        match record {
            RecordRef::Evidence(_) => self.texts.contains(&record),
            RecordRef::Claim(_) => self.texts.contains(&record),
            RecordRef::Entity(id) => self.entity_payloads.contains(&id),
            RecordRef::SemanticRelation(id) => self.relation_payloads.contains(&id),
            RecordRef::Proposal(id) => self.proposal_payloads.contains(&id),
            RecordRef::ProposalReview(id) => self.review_payloads.contains(&id),
            RecordRef::ArtifactCollection(_) => self.texts.contains(&record),
            RecordRef::ArtifactSnapshot(id) => self.snapshot_payloads.contains(&id),
            RecordRef::ArtifactPassage(_) => self.texts.contains(&record),
        }
    }

    pub(crate) fn insert_audit(
        &self,
        batch: &mut Batch,
        id: Ulid,
        operation: OperationContext,
        action: AuditAction,
        subjects: Vec<RecordRef>,
        derived_subjects: Vec<DerivedRecordRef>,
        adjudication: Option<AdjudicationAudit>,
        recorded_at_ms: i64,
    )
        ensures
            self@.after(final(batch)@) == self@.after(old(batch)@).audited(
                self@.audit_event(
                    id,
                    operation,
                    action,
                    subjects@,
                    derived_subjects@,
                    adjudication,
                    recorded_at_ms,
                ),
            ),
    {
        let event = AuditEvent {
            id: AuditEventId(id),
            era_id: self.era_id,
            operation_id: operation.id,
            actor: operation.actor,
            action,
            subjects,
            derived_subjects,
            adjudication,
            outcome: AuditOutcome::Committed,
            recorded_at_ms,
        };
        batch.push(Write::PutAudit(AuditKey { recorded_at_ms, id: AuditEventId(id) }, event));
    }

    pub(crate) fn insert_operation(
        &self,
        batch: &mut Batch,
        id: OperationId,
        digest: [u8; 32],
        receipt: Receipt,
    )
        ensures
            self@.after(final(batch)@) == self@.after(old(batch)@).remembered(id, digest, receipt@),
    {
        batch.push(Write::PutOperation(id, StoredOperation { digest, receipt }));
    }

    /// What an operation that was committed before is answered.
    pub(crate) fn replayed_operation(&self, id: OperationId, digest: [u8; 32]) -> (r: MemoryResult<
        Option<Receipt>,
    >)
        ensures
            shown_option(r) == self@.replay(id, digest),
    {
        reveal(StoreModel::replay);
        match self.operations.get(&id) {
            None => Ok(None),
            Some(stored) => {
                if same_digest(&stored.digest, &digest) {
                    Ok(Some(stored.receipt.replica()))
                } else {
                    Err(MemoryError::OperationConflict(id))
                }
            },
        }
    }

    /// Appends a revision in a new state to a record that stands at `expected_revision`.
    pub(crate) fn append_state_revision(
        &self,
        batch: &mut Batch,
        record: RecordRef,
        expected_revision: u64,
        state: RecordState,
        operation_id: OperationId,
        recorded_at_ms: i64,
    ) -> (r: MemoryResult<RecordRevision>)
        ensures
            steps(
                self@,
                final(batch)@,
                r,
                self@.appended(
                    self@.after(old(batch)@),
                    record,
                    expected_revision,
                    state,
                    operation_id,
                    recorded_at_ms,
                ),
            ),
    {
        reveal(StoreModel::appended);
        reveal(StoreModel::next_revision);
        reveal(StoreModel::unlisted_proposal);
        let standing = self.record_scope_state_revision(record)?;
        if standing.2 != expected_revision {
            return Err(
                MemoryError::RevisionConflict { expected: expected_revision, actual: standing.2 },
            );
        }
        if expected_revision == u64::MAX {
            return Err(MemoryError::Corrupt(CorruptFault::RevisionOverflow));
        }
        let revision: u64 = expected_revision + 1;
        let key = RevisionKey { id: id_of(record), revision };
        match record {
            RecordRef::Evidence(id) => {
                if !self.evidence_availability.contains(&RevisionKey { id: id.0, revision: expected_revision }) {
                    return Err(
                        MemoryError::Corrupt(CorruptFault::RevisionMissing(record, expected_revision)),
                    );
                }
                batch.push(
                    Write::PutEvidenceAvailability(
                        key,
                        EvidenceAvailabilityRevision {
                            evidence_id: id,
                            revision,
                            state,
                            recorded_at_ms,
                            operation_id,
                        },
                    ),
                );
            },
            RecordRef::Claim(id) => {
                let current = match self.inspect_claim(id)? {
                    Some(current) => current,
                    None => return Err(MemoryError::NotFound(record)),
                };
                let next = ClaimRevisionHeader {
                    revision,
                    previous_revision: Some(expected_revision),
                    state,
                    recorded_at_ms,
                    operation_id,
                    ..current.header
                };
                batch.push(Write::PutClaim(key, next));
            },
            RecordRef::Entity(id) => {
                let current = match self.inspect_entity(id)? {
                    Some(current) => current,
                    None => return Err(MemoryError::NotFound(record)),
                };
                let next = EntityRevisionHeader {
                    revision,
                    previous_revision: Some(expected_revision),
                    state,
                    recorded_at_ms,
                    operation_id,
                    ..current.header
                };
                batch.push(Write::PutEntity(key, next));
            },
            RecordRef::SemanticRelation(id) => {
                let current = match self.inspect_semantic_relation(id)? {
                    Some(current) => current,
                    None => return Err(MemoryError::NotFound(record)),
                };
                let next = SemanticRelationRevisionHeader {
                    revision,
                    previous_revision: Some(expected_revision),
                    state,
                    recorded_at_ms,
                    operation_id,
                    ..current.header
                };
                batch.push(Write::PutRelation(key, next));
            },
            RecordRef::Proposal(id) => {
                let current = match self.inspect_proposal(id)? {
                    Some(current) => current,
                    None => return Err(MemoryError::NotFound(record)),
                };
                if current.header.status == ProposalStatus::PendingReview {
                    batch.push(Write::DropPending(id));
                }
                if proposal_status_awaits_adjudication(current.header.status) {
                    batch.push(Write::DropAwaiting(id));
                }
                let status = if state == RecordState::Unsupported {
                    ProposalStatus::Stale
                } else if state == RecordState::Retracted {
                    ProposalStatus::Rejected
                } else {
                    current.header.status
                };
                let next = ProposalRevisionHeader {
                    revision,
                    previous_revision: Some(expected_revision),
                    state,
                    status,
                    recorded_at_ms,
                    operation_id,
                    ..current.header
                };
                batch.push(Write::PutProposal(key, next));
            },
            RecordRef::ProposalReview(id) => {
                let current = match self.inspect_proposal_review(id)? {
                    Some(current) => current,
                    None => return Err(MemoryError::NotFound(record)),
                };
                let next = ProposalReviewCaseHeader {
                    revision,
                    previous_revision: Some(expected_revision),
                    state,
                    recorded_at_ms,
                    operation_id,
                    ..current.header
                };
                batch.push(Write::PutReview(key, next));
            },
            RecordRef::ArtifactCollection(id) => {
                batch.push(
                    Write::PutCollectionAvailability(
                        key,
                        ArtifactAvailabilityRevision { id, revision, state, recorded_at_ms, operation_id },
                    ),
                );
            },
            RecordRef::ArtifactSnapshot(id) => {
                batch.push(
                    Write::PutSnapshotAvailability(
                        key,
                        ArtifactAvailabilityRevision { id, revision, state, recorded_at_ms, operation_id },
                    ),
                );
            },
            RecordRef::ArtifactPassage(id) => {
                batch.push(
                    Write::PutPassageAvailability(
                        key,
                        ArtifactAvailabilityRevision { id, revision, state, recorded_at_ms, operation_id },
                    ),
                );
            },
        }
        batch.push(Write::PutHead(record, revision));
        Ok(RecordRevision { record, revision, state })
    }

    /// Appends a revision in a new state to each dependent, and takes it out of the index.
    pub(crate) fn invalidate_dependencies(
        &self,
        batch: &mut Batch,
        dependencies: &Vec<PurgeDependency>,
        state: RecordState,
        operation_id: OperationId,
        recorded_at_ms: i64,
    ) -> (r: MemoryResult<Vec<RecordRevision>>)
        ensures
            match (
                r,
                self@.invalidated(
                    self@.after(old(batch)@),
                    dependencies@,
                    dependencies@.len(),
                    state,
                    operation_id,
                    recorded_at_ms,
                ),
            ) {
                (Ok(revisions), Ok((after, owed))) => self@.after(final(batch)@) == after && revisions@ == owed,
                (Err(error), Err(refusal)) => error == refusal,
                _ => false,
            },
    {
        let ghost start = self@.after(batch@);
        let mut revisions: Vec<RecordRevision> = Vec::new();
        let mut i: usize = 0;
        while i < dependencies.len()
            invariant
                i <= dependencies@.len(),
                start == self@.after(old(batch)@),
                self@.invalidated(start, dependencies@, i as nat, state, operation_id, recorded_at_ms) == Ok::<
                    (StoreModel, Seq<RecordRevision>),
                    MemoryError,
                >((self@.after(batch@), revisions@)),
            decreases dependencies@.len() - i,
        {
            let dependency = dependencies[i];
            match self.append_state_revision(
                batch,
                dependency.record,
                dependency.expected_revision,
                state,
                operation_id,
                recorded_at_ms,
            ) {
                Err(error) => {
                    proof {
                        invalidated_refusal_persists(
                            self@,
                            start,
                            dependencies@,
                            (i + 1) as nat,
                            dependencies@.len(),
                            state,
                            operation_id,
                            recorded_at_ms,
                        );
                    }
                    return Err(error);
                },
                Ok(revision) => {
                    self.remove_lexical_document(batch, dependency.record);
                    revisions.push(revision);
                },
            }
            i = i + 1;
        }
        Ok(revisions)
    }
}

proof fn invalidated_refusal_persists(
    s: StoreModel,
    staged: StoreModel,
    dependencies: Seq<PurgeDependency>,
    n: nat,
    m: nat,
    state: RecordState,
    operation_id: OperationId,
    recorded_at_ms: i64,
)
    requires
        n <= m,
        s.invalidated(staged, dependencies, n, state, operation_id, recorded_at_ms) is Err,
    ensures
        s.invalidated(staged, dependencies, m, state, operation_id, recorded_at_ms) == s.invalidated(
            staged,
            dependencies,
            n,
            state,
            operation_id,
            recorded_at_ms,
        ),
    decreases m,
{
    if n < m {
        invalidated_refusal_persists(
            s,
            staged,
            dependencies,
            n,
            (m - 1) as nat,
            state,
            operation_id,
            recorded_at_ms,
        );
    }
}

} // verus!
