//! What holds of every store: what is kept carries its own name, the lists of proposals say
//! what their heads say, and what was purged has no payload.
use vstd::prelude::*;
use crate::clock::FreshModel;
use crate::context::TemporalFacts;
use crate::ids::{
    ActivationTraceId, ArtifactCollectionId, ArtifactPassageId, ArtifactSnapshotId, EraId,
    EvidenceId, OperationId, ProposalId, RecallCaseId, RecallFeedbackId, RelationSignalId,
};
use crate::inspect::{lookup, revision_of};
use crate::keys::{AuditKey, RevisionKey, record_id};
use crate::records::audit::PurgeReceiptModel;
use crate::records::evidence::{RecordRef, RecordState, Scope};
use crate::records::proposal::{ProposalRevisionHeader, ProposalStatus};
use crate::records::receipt::ReceiptModel;
use crate::staging::awaits_adjudication;
use crate::store::{StoreModel, WriteModel};

verus! {

impl StoreModel {
    /// Whether everything that is kept carries the name under which it is kept, and its
    /// revision where it has one.
    #[verifier::opaque]
    pub open spec fn names_hold(self) -> bool {
        &&& forall|id: EvidenceId| #[trigger] self.evidence.contains_key(id) ==> self.evidence[id].id == id
        &&& forall|k: RevisionKey| #[trigger]
            self.evidence_availability.contains_key(k) ==> revision_of(
                self.evidence_availability[k].evidence_id.0,
                self.evidence_availability[k].revision,
            ) == k
        &&& forall|k: RevisionKey| #[trigger]
            self.claims.contains_key(k) ==> revision_of(self.claims[k].id.0, self.claims[k].revision) == k
        &&& forall|k: RevisionKey| #[trigger]
            self.entities.contains_key(k) ==> revision_of(self.entities[k].id.0, self.entities[k].revision) == k
        &&& forall|k: RevisionKey| #[trigger]
            self.relations.contains_key(k) ==> revision_of(self.relations[k].id.0, self.relations[k].revision) == k
        &&& forall|k: RevisionKey| #[trigger]
            self.proposals.contains_key(k) ==> revision_of(self.proposals[k].id.0, self.proposals[k].revision) == k
        &&& forall|k: RevisionKey| #[trigger]
            self.proposal_reviews.contains_key(k) ==> revision_of(
                self.proposal_reviews[k].id.0,
                self.proposal_reviews[k].revision,
            ) == k
        &&& forall|id: RecallFeedbackId| #[trigger]
            self.recall_feedback.contains_key(id) ==> self.recall_feedback[id].id == id
        &&& forall|id: ArtifactCollectionId| #[trigger]
            self.artifact_collections.contains_key(id) ==> self.artifact_collections[id].id == id
        &&& forall|k: RevisionKey| #[trigger]
            self.artifact_collection_availability.contains_key(k) ==> revision_of(
                self.artifact_collection_availability[k].id.0,
                self.artifact_collection_availability[k].revision,
            ) == k
        &&& forall|id: ArtifactSnapshotId| #[trigger]
            self.artifact_snapshots.contains_key(id) ==> self.artifact_snapshots[id].id == id
        &&& forall|k: RevisionKey| #[trigger]
            self.artifact_snapshot_availability.contains_key(k) ==> revision_of(
                self.artifact_snapshot_availability[k].id.0,
                self.artifact_snapshot_availability[k].revision,
            ) == k
        &&& forall|id: ArtifactPassageId| #[trigger]
            self.artifact_passages.contains_key(id) ==> self.artifact_passages[id].id == id
        &&& forall|k: RevisionKey| #[trigger]
            self.artifact_passage_availability.contains_key(k) ==> revision_of(
                self.artifact_passage_availability[k].id.0,
                self.artifact_passage_availability[k].revision,
            ) == k
        &&& forall|id: RecallCaseId| #[trigger] self.recall_cases.contains_key(id) ==> self.recall_cases[id].id == id
        &&& forall|k: RevisionKey| #[trigger]
            self.relation_evaluators.contains_key(k) ==> revision_of(
                self.relation_evaluators[k].id.0,
                self.relation_evaluators[k].revision,
            ) == k
        &&& forall|k: RevisionKey| #[trigger]
            self.relation_profiles.contains_key(k) ==> revision_of(
                self.relation_profiles[k].id.0,
                self.relation_profiles[k].revision,
            ) == k
        &&& forall|k: RevisionKey| #[trigger]
            self.relation_signals.contains_key(k) ==> revision_of(
                self.relation_signals[k].id.0,
                self.relation_signals[k].revision,
            ) == k
        &&& forall|id: ActivationTraceId| #[trigger]
            self.activation_traces.contains_key(id) ==> self.activation_traces[id].id == id
        &&& forall|k: AuditKey| #[trigger]
            self.audit.contains_key(k) ==> self.audit[k].id == k.id && self.audit[k].recorded_at_ms
                == k.recorded_at_ms
    }

    /// The current header of a proposal.
    pub open spec fn proposal_head(self, id: ProposalId) -> Option<ProposalRevisionHeader> {
        match lookup(self.heads, RecordRef::Proposal(id)) {
            None => None,
            Some(revision) => lookup(self.proposals, revision_of(id.0, revision)),
        }
    }

    /// Whether a proposal's current revision is kept, and the lists name it just if its
    /// status says so: as pending while it is active and nothing was found of it yet, as
    /// awaiting while it is active and a decision is due.
    pub open spec fn lists_rightly(self, id: ProposalId) -> bool {
        let head = self.proposal_head(id);
        &&& self.heads.contains_key(RecordRef::Proposal(id)) ==> head is Some
        &&& self.pending_proposals.contains_key(id) == (head matches Some(header) && header.state
            == RecordState::Active && header.status == ProposalStatus::PendingReview)
        &&& self.awaiting_adjudication.contains_key(id) == (head matches Some(header) && header.state
            == RecordState::Active && awaits_adjudication(header.status))
        &&& self.pending_proposals.contains_key(id) ==> head->Some_0.previous_revision is None
    }

    /// Whether the lists of proposals are right.
    #[verifier::opaque]
    pub open spec fn lists_hold(self) -> bool {
        forall|id: ProposalId| #[trigger] self.lists_rightly(id)
    }

    /// Whether there is a record that has no payload.
    pub open spec fn is_bare(self, record: RecordRef) -> bool {
        self.heads.contains_key(record) && !self.has_payload(record)
    }

    /// Whether there is a signal that is purged and has no payload.
    pub open spec fn signal_is_bare(self, id: RelationSignalId) -> bool {
        match lookup(self.relation_signal_heads, id) {
            None => false,
            Some(revision) => !self.relation_signal_payloads.contains_key(id) && (lookup(
                self.relation_signals,
                revision_of(id.0, revision),
            ) matches Some(header) && header.state == RecordState::Purged),
        }
    }

    /// Whether there is an activation that has no payload.
    pub open spec fn trace_is_bare(self, id: ActivationTraceId) -> bool {
        self.activation_traces.contains_key(id) && !self.activation_trace_payloads.contains_key(id)
    }

    /// Whether there is an activation wherever there is a payload of one.
    #[verifier::opaque]
    pub open spec fn traces_hold(self) -> bool {
        forall|id: ActivationTraceId| #[trigger]
            self.activation_trace_payloads.contains_key(id) ==> self.activation_traces.contains_key(id)
    }

    /// Whether what a purge was answered to have purged has no payload.
    pub open spec fn purge_holds(self, id: OperationId) -> bool {
        match self.operations[id].receipt {
            ReceiptModel::Purge(receipt) => {
                &&& self.is_bare(receipt.target.record)
                &&& forall|i: int|
                    0 <= i < receipt.invalidated.len() ==> self.is_bare((#[trigger] receipt.invalidated[i]).record)
                &&& forall|i: int|
                    0 <= i < receipt.purged_relation_signals.len() ==> self.signal_is_bare(
                        (#[trigger] receipt.purged_relation_signals[i]).id,
                    )
                &&& forall|i: int|
                    0 <= i < receipt.purged_activation_traces.len() ==> self.trace_is_bare(
                        #[trigger] receipt.purged_activation_traces[i],
                    )
            },
            _ => true,
        }
    }

    /// Whether what was ever purged has no payload.
    #[verifier::opaque]
    pub open spec fn purges_hold(self) -> bool {
        forall|id: OperationId| #[trigger] self.operations.contains_key(id) ==> self.purge_holds(id)
    }

    /// What holds of every store.
    pub open spec fn is_kept(self) -> bool {
        self.names_hold() && self.lists_hold() && self.traces_hold() && self.purges_hold()
    }

    /// Whether no record, signal or activation has a drawn identifier yet.
    pub open spec fn is_new(self, fresh: FreshModel) -> bool {
        &&& forall|record: RecordRef| #[trigger]
            self.heads.contains_key(record) ==> !fresh.ids.contains(record_id(record))
        &&& forall|id: RelationSignalId| #[trigger]
            self.relation_signal_heads.contains_key(id) ==> !fresh.ids.contains(id.0)
        &&& forall|id: ActivationTraceId| #[trigger]
            self.activation_traces.contains_key(id) ==> !fresh.ids.contains(id.0)
    }
}

/// Whether nothing that has no payload gets one: no record, no purged signal, no activation.
pub open spec fn nothing_returns(before: StoreModel, after: StoreModel) -> bool {
    &&& forall|record: RecordRef| #[trigger] before.is_bare(record) ==> after.is_bare(record)
    &&& nothing_derived_returns(before, after)
}

/// Whether no purged signal and no activation that has no payload gets one.
pub open spec fn nothing_derived_returns(before: StoreModel, after: StoreModel) -> bool {
    &&& forall|id: RelationSignalId| #[trigger] before.signal_is_bare(id) ==> after.signal_is_bare(id)
    &&& forall|id: ActivationTraceId| #[trigger] before.trace_is_bare(id) ==> after.trace_is_bare(id)
}

/// Whether no proposal is listed that was not.
pub open spec fn lists_shrink(before: StoreModel, after: StoreModel) -> bool {
    &&& forall|id: ProposalId| #[trigger]
        after.pending_proposals.contains_key(id) ==> before.pending_proposals.contains_key(id)
    &&& forall|id: ProposalId| #[trigger]
        after.awaiting_adjudication.contains_key(id) ==> before.awaiting_adjudication.contains_key(id)
}

/// Whether records and activations only join.
pub open spec fn records_stay(before: StoreModel, after: StoreModel) -> bool {
    &&& forall|record: RecordRef| #[trigger] before.heads.contains_key(record) ==> after.heads.contains_key(record)
    &&& forall|id: ActivationTraceId| #[trigger]
        before.activation_traces.contains_key(id) ==> after.activation_traces.contains_key(id)
}

/// Whether no purge is remembered that was not.
pub open spec fn purges_stay(before: StoreModel, after: StoreModel) -> bool {
    forall|id: OperationId| #[trigger]
        after.operations.contains_key(id) && after.operations[id].receipt is Purge ==> before.operations.contains_key(
            id,
        ) && before.operations[id] == after.operations[id]
}

/// A way from a store: where it starts, what was listed when the lists were last changed, and
/// the proposals that are underway.
pub struct Course {
    pub start: StoreModel,
    pub lists: StoreModel,
    pub aside: Set<ProposalId>,
}

/// The way of an operation that lists no proposal.
pub open spec fn course(start: StoreModel) -> Course {
    Course { start, lists: start, aside: Set::empty() }
}

impl Course {
    /// Whether what holds of every store holds on the way, but for the proposals that are
    /// underway.
    #[verifier::opaque]
    pub open spec fn reaches(self, s: StoreModel) -> bool {
        &&& s.names_hold()
        &&& s.traces_hold()
        &&& forall|id: ProposalId| !self.aside.contains(id) ==> #[trigger] s.lists_rightly(id)
        &&& lists_shrink(self.lists, s)
        &&& nothing_returns(self.start, s)
        &&& records_stay(self.start, s)
        &&& purges_stay(self.start, s)
    }

    /// Whether a change stays on the way: it names what it keeps rightly, leaves proposals and
    /// their lists alone, gives no payload to a record or an activation that was there, leaves
    /// purged signals alone, and remembers no purge.
    pub open spec fn admits(self, s: StoreModel, write: WriteModel) -> bool {
        match write {
            WriteModel::PutEvidence(key, value) => value.id == key,
            WriteModel::PutEvidenceAvailability(key, value) => revision_of(value.evidence_id.0, value.revision) == key,
            WriteModel::PutHead(record, _) => !(record is Proposal),
            WriteModel::PutClaim(key, value) => revision_of(value.id.0, value.revision) == key,
            WriteModel::PutEntity(key, value) => revision_of(value.id.0, value.revision) == key,
            WriteModel::PutRelation(key, value) => revision_of(value.id.0, value.revision) == key,
            WriteModel::PutProposal(_, _) => false,
            WriteModel::PutPending(_) => false,
            WriteModel::DropPending(_) => false,
            WriteModel::PutAwaiting(_) => false,
            WriteModel::DropAwaiting(_) => false,
            WriteModel::PutReview(key, value) => revision_of(value.id.0, value.revision) == key,
            WriteModel::PutFeedback(key, value) => value.id == key,
            WriteModel::PutCollection(key, value) => value.id == key,
            WriteModel::PutCollectionAvailability(key, value) => revision_of(value.id.0, value.revision) == key,
            WriteModel::PutSnapshot(key, value) => value.id == key,
            WriteModel::PutSnapshotAvailability(key, value) => revision_of(value.id.0, value.revision) == key,
            WriteModel::PutPassage(key, value) => value.id == key,
            WriteModel::PutPassageAvailability(key, value) => revision_of(value.id.0, value.revision) == key,
            WriteModel::PutText(record, _) => !self.start.heads.contains_key(record),
            WriteModel::PutEntityPayload(id, _) => !self.start.heads.contains_key(RecordRef::Entity(id)),
            WriteModel::PutRelationPayload(id, _) => !self.start.heads.contains_key(RecordRef::SemanticRelation(id)),
            WriteModel::PutProposalPayload(id, _) => !self.start.heads.contains_key(RecordRef::Proposal(id)),
            WriteModel::PutReviewPayload(id, _) => !self.start.heads.contains_key(RecordRef::ProposalReview(id)),
            WriteModel::PutSnapshotPayload(id, _) => !self.start.heads.contains_key(RecordRef::ArtifactSnapshot(id)),
            WriteModel::PutRecallCase(key, value) => value.id == key,
            WriteModel::PutEvaluator(key, value) => revision_of(value.id.0, value.revision) == key,
            WriteModel::PutProfile(key, value) => revision_of(value.id.0, value.revision) == key,
            WriteModel::PutSignal(key, value) => revision_of(value.id.0, value.revision) == key
                && !self.start.signal_is_bare(value.id),
            WriteModel::PutSignalHead(id, _) => !self.start.signal_is_bare(id),
            WriteModel::PutSignalPayload(id, _) => !self.start.signal_is_bare(id),
            WriteModel::PutTrace(key, value) => value.id == key,
            WriteModel::PutTracePayload(id, _) => !self.start.activation_traces.contains_key(id)
                && s.activation_traces.contains_key(id),
            WriteModel::PutAudit(key, value) => value.id == key.id && value.recorded_at_ms == key.recorded_at_ms,
            WriteModel::PutOperation(_, stored) => !(stored.receipt is Purge),
            _ => true,
        }
    }
}

#[verifier::spinoff_prover]
proof fn names_go_on(c: Course, s: StoreModel, write: WriteModel)
    requires
        s.names_hold(),
        c.admits(s, write),
    ensures
        s.put(write).names_hold(),
{
    broadcast use crate::writing::parts_after_put;
    reveal(StoreModel::names_hold);
}

#[verifier::spinoff_prover]
proof fn lists_go_on(c: Course, s: StoreModel, write: WriteModel)
    requires
        c.admits(s, write),
    ensures
        s.put(write).proposals == s.proposals,
        s.put(write).pending_proposals == s.pending_proposals,
        s.put(write).awaiting_adjudication == s.awaiting_adjudication,
        forall|id: ProposalId| #[trigger] s.put(write).proposal_head(id) == s.proposal_head(id),
        forall|id: ProposalId|
            s.put(write).heads.contains_key(RecordRef::Proposal(id)) == #[trigger] s.heads.contains_key(
                RecordRef::Proposal(id),
            ),
        records_stay(s, s.put(write)),
        purges_stay(s, s.put(write)),
{
    broadcast use crate::writing::parts_after_put;
}

#[verifier::spinoff_prover]
proof fn payloads_go_on(c: Course, s: StoreModel, write: WriteModel, record: RecordRef)
    requires
        c.admits(s, write),
        c.start.heads.contains_key(record),
        !s.has_payload(record),
    ensures
        !s.put(write).has_payload(record),
{
    broadcast use crate::writing::parts_after_put;
    reveal(StoreModel::has_payload);
}

#[verifier::spinoff_prover]
proof fn derived_go_on(c: Course, s: StoreModel, write: WriteModel)
    requires
        c.admits(s, write),
        s.traces_hold(),
        nothing_derived_returns(c.start, s),
    ensures
        s.put(write).traces_hold(),
        nothing_derived_returns(c.start, s.put(write)),
{
    broadcast use crate::writing::parts_after_put;
    reveal(StoreModel::traces_hold);
    let after = s.put(write);
    assert forall|id: RelationSignalId| #[trigger] c.start.signal_is_bare(id) implies after.signal_is_bare(id) by {
        assert(s.signal_is_bare(id));
    }
    assert forall|id: ActivationTraceId| #[trigger] c.start.trace_is_bare(id) implies after.trace_is_bare(id) by {
        assert(s.trace_is_bare(id));
    }
}

pub broadcast proof fn puts_go_on(c: Course, s: StoreModel, write: WriteModel)
    requires
        c.reaches(s),
        c.admits(s, write),
    ensures
        #[trigger] c.reaches(s.put(write)),
{
    reveal(Course::reaches);
    names_go_on(c, s, write);
    lists_go_on(c, s, write);
    derived_go_on(c, s, write);
    let after = s.put(write);
    assert forall|id: ProposalId| !c.aside.contains(id) implies #[trigger] after.lists_rightly(id) by {
        assert(s.lists_rightly(id));
        assert(after.proposal_head(id) == s.proposal_head(id));
    }
    assert forall|record: RecordRef| #[trigger] c.start.is_bare(record) implies after.is_bare(record) by {
        assert(s.is_bare(record));
        payloads_go_on(c, s, write, record);
    }
}

/// A way begins where it starts.
pub proof fn courses_begin(s: StoreModel)
    requires
        s.is_kept(),
    ensures
        course(s).reaches(s),
{
    reveal(Course::reaches);
    reveal(StoreModel::lists_hold);
}

/// At the end of a way, what holds of every store holds again.
pub proof fn courses_end(c: Course, s: StoreModel)
    requires
        c.start.is_kept(),
        c.aside == Set::<ProposalId>::empty(),
        c.reaches(s),
    ensures
        s.is_kept(),
        nothing_returns(c.start, s),
{
    reveal(Course::reaches);
    reveal(StoreModel::lists_hold);
    reveal(StoreModel::purges_hold);
    assert forall|id: OperationId| #[trigger] s.operations.contains_key(id) implies s.purge_holds(id) by {
        if let ReceiptModel::Purge(receipt) = s.operations[id].receipt {
            assert(c.start.purge_holds(id));
            purges_go_on(c.start, s, receipt);
        }
    }
}

/// What a purge purged stays so.
pub proof fn purges_go_on(before: StoreModel, after: StoreModel, receipt: PurgeReceiptModel)
    requires
        nothing_returns(before, after),
    ensures
        before.is_bare(receipt.target.record) ==> after.is_bare(receipt.target.record),
        forall|i: int|
            before.is_bare(receipt.invalidated[i].record) ==> after.is_bare((#[trigger] receipt.invalidated[i]).record),
        forall|i: int|
            before.signal_is_bare(receipt.purged_relation_signals[i].id) ==> after.signal_is_bare(
                (#[trigger] receipt.purged_relation_signals[i]).id,
            ),
        forall|i: int|
            before.trace_is_bare(receipt.purged_activation_traces[i]) ==> after.trace_is_bare(
                #[trigger] receipt.purged_activation_traces[i],
            ),
{
}

/// What holds of every store holds of the store in which nothing was recorded yet.
pub proof fn pristine_stores_are_kept(era_id: EraId, digest_key: [u8; 32])
    ensures
        StoreModel::pristine(era_id, digest_key).is_kept(),
{
    reveal(StoreModel::names_hold);
    reveal(StoreModel::lists_hold);
    reveal(StoreModel::traces_hold);
    reveal(StoreModel::purges_hold);
}

broadcast proof fn postings_go_on(c: Course, s: StoreModel, record: RecordRef, hashes: Seq<[u8; 32]>, n: nat)
    requires
        c.reaches(s),
    ensures
        #[trigger] c.reaches(s.with_postings(record, hashes, n)),
    decreases n,
{
    broadcast use puts_go_on;

    if n > 0 {
        postings_go_on(c, s, record, hashes, (n - 1) as nat);
    }
}

broadcast proof fn withdrawn_postings_go_on(c: Course, s: StoreModel, record: RecordRef, hashes: Seq<[u8; 32]>, n: nat)
    requires
        c.reaches(s),
    ensures
        #[trigger] c.reaches(s.without_postings(record, hashes, n)),
    decreases n,
{
    broadcast use puts_go_on;

    if n > 0 {
        withdrawn_postings_go_on(c, s, record, hashes, (n - 1) as nat);
    }
}

pub broadcast proof fn indexing_goes_on(
    c: Course,
    s: StoreModel,
    record: RecordRef,
    revision: u64,
    scope: Scope,
    temporal: TemporalFacts,
    text: Seq<char>,
)
    requires
        c.reaches(s),
    ensures
        #[trigger] c.reaches(s.indexed(record, revision, scope, temporal, text)),
{
    broadcast use {puts_go_on, postings_go_on};

    reveal(StoreModel::indexed);
}

pub broadcast proof fn unindexing_goes_on(c: Course, s: StoreModel, committed: StoreModel, record: RecordRef)
    requires
        c.reaches(s),
    ensures
        #[trigger] c.reaches(s.unindexed(committed, record)),
{
    broadcast use {puts_go_on, withdrawn_postings_go_on};

    reveal(StoreModel::unindexed);
}

pub broadcast proof fn erasing_goes_on(c: Course, s: StoreModel, record: RecordRef)
    requires
        c.reaches(s),
    ensures
        #[trigger] c.reaches(s.without_payload(record)),
{
    broadcast use puts_go_on;

    reveal(StoreModel::without_payload);
}

pub broadcast proof fn support_goes_on(
    c: Course,
    s: StoreModel,
    evidence_ids: Seq<EvidenceId>,
    record: RecordRef,
    n: nat,
)
    requires
        c.reaches(s),
    ensures
        #[trigger] c.reaches(s.supported(evidence_ids, record, n)),
    decreases n,
{
    broadcast use puts_go_on;

    if n > 0 {
        support_goes_on(c, s, evidence_ids, record, (n - 1) as nat);
    }
}

pub broadcast proof fn resting_goes_on(
    c: Course,
    s: StoreModel,
    sources: Seq<RecordRef>,
    dependent: RecordRef,
    n: nat,
)
    requires
        c.reaches(s),
    ensures
        #[trigger] c.reaches(s.rests_on(sources, dependent, n)),
    decreases n,
{
    broadcast use puts_go_on;

    if n > 0 {
        resting_goes_on(c, s, sources, dependent, (n - 1) as nat);
    }
}

/// A record that gets a drawn identifier was not there.
pub proof fn drawn_is_new(s: StoreModel, fresh: FreshModel, i: int, record: RecordRef)
    requires
        s.is_new(fresh),
        0 <= i < fresh.ids.len(),
        record_id(record) == fresh.ids[i],
    ensures
        !s.heads.contains_key(record),
{
    assert(fresh.ids.contains(fresh.ids[i]));
}

#[verifier::spinoff_prover]
proof fn proposals_move(
    c: Course,
    s: StoreModel,
    id: ProposalId,
    expected_revision: u64,
    state: RecordState,
    operation_id: OperationId,
    recorded_at_ms: i64,
)
    requires
        c.start.is_kept(),
        c.reaches(s),
        lists_shrink(c.start, c.lists),
        state != RecordState::Active,
        c.start.appended(s, RecordRef::Proposal(id), expected_revision, state, operation_id, recorded_at_ms) is Ok,
    ensures
        c.reaches(
            c.start.appended(
                s,
                RecordRef::Proposal(id),
                expected_revision,
                state,
                operation_id,
                recorded_at_ms,
            )->Ok_0.0,
        ),
{
    let record = RecordRef::Proposal(id);
    let after = c.start.appended(s, record, expected_revision, state, operation_id, recorded_at_ms)->Ok_0.0;
    let header = c.start.inspect_proposal(id)->Some_0.header;
    assert(c.start.proposal_head(id) == Some(header) && header.revision == expected_revision) by {
        reveal(StoreModel::appended);
        reveal(StoreModel::standing);
        reveal(StoreModel::inspect_head);
        reveal(StoreModel::inspect_proposal);
        reveal(StoreModel::proposal_at);
    }
    assert(header.id == id) by {
        reveal(StoreModel::names_hold);
    }
    assert(c.start.lists_rightly(id)) by {
        reveal(StoreModel::lists_hold);
    }
    reveal(StoreModel::appended);
    reveal(StoreModel::next_revision);
    reveal(StoreModel::unlisted_proposal);
    reveal(Course::reaches);
    assert(after.names_hold()) by {
        broadcast use crate::writing::parts_after_put;
        reveal(StoreModel::names_hold);
    }
    assert(after.traces_hold() && nothing_derived_returns(s, after)) by {
        broadcast use crate::writing::parts_after_put;
        reveal(StoreModel::traces_hold);
    }
    assert(nothing_derived_returns(c.start, after));
    assert forall|other: ProposalId| !c.aside.contains(other) implies #[trigger] after.lists_rightly(other) by {
        broadcast use crate::writing::parts_after_put;
        assert(s.lists_rightly(other));
    }
    assert(lists_shrink(s, after) && records_stay(s, after) && purges_stay(s, after)) by {
        broadcast use crate::writing::parts_after_put;
    }
    assert(lists_shrink(c.lists, after));
    assert forall|other: RecordRef| #[trigger] c.start.is_bare(other) implies after.is_bare(other) by {
        assert(s.is_bare(other));
        broadcast use crate::writing::parts_after_put;
        reveal(StoreModel::has_payload);
    }
}

/// A record that moves on to a state in which it is not active stays on the way.
pub proof fn revisions_go_on(
    c: Course,
    s: StoreModel,
    record: RecordRef,
    expected_revision: u64,
    state: RecordState,
    operation_id: OperationId,
    recorded_at_ms: i64,
)
    requires
        c.start.is_kept(),
        c.reaches(s),
        lists_shrink(c.start, c.lists),
        state != RecordState::Active,
        c.start.appended(s, record, expected_revision, state, operation_id, recorded_at_ms) is Ok,
    ensures
        c.reaches(c.start.appended(s, record, expected_revision, state, operation_id, recorded_at_ms)->Ok_0.0),
        c.start.appended(s, record, expected_revision, state, operation_id, recorded_at_ms)->Ok_0.1.record == record,
        c.start.heads.contains_key(record),
{
    broadcast use puts_go_on;

    assert(c.start.appended(s, record, expected_revision, state, operation_id, recorded_at_ms)->Ok_0.1.record == record
        && c.start.heads.contains_key(record)) by {
        reveal(StoreModel::appended);
        standing_records_are_there(c.start, record);
    }
    if let RecordRef::Proposal(id) = record {
        proposals_move(c, s, id, expected_revision, state, operation_id, recorded_at_ms);
    } else {
        reveal(StoreModel::appended);
        reveal(StoreModel::next_revision);
        headers_name_themselves(c.start, record);
    }
}

/// What stands is there.
pub proof fn standing_records_are_there(s: StoreModel, record: RecordRef)
    requires
        s.standing(record) is Ok,
    ensures
        s.heads.contains_key(record),
{
    reveal(StoreModel::standing);
    reveal(StoreModel::inspect_head);
    reveal(StoreModel::inspect_evidence);
    reveal(StoreModel::inspect_claim);
    reveal(StoreModel::inspect_entity);
    reveal(StoreModel::inspect_semantic_relation);
    reveal(StoreModel::inspect_proposal);
    reveal(StoreModel::inspect_proposal_review);
    reveal(StoreModel::inspect_artifact_collection);
    reveal(StoreModel::inspect_artifact_snapshot);
    reveal(StoreModel::inspect_artifact_passage);
}

proof fn headers_name_themselves(s: StoreModel, record: RecordRef)
    requires
        s.names_hold(),
    ensures
        match record {
            RecordRef::Claim(id) => s.inspect_claim(id) matches Ok(Some(found)) ==> found.header.id == id,
            RecordRef::Entity(id) => s.inspect_entity(id) matches Ok(Some(found)) ==> found.header.id == id,
            RecordRef::SemanticRelation(id) => s.inspect_semantic_relation(id) matches Ok(Some(found))
                ==> found.header.id == id,
            RecordRef::ProposalReview(id) => s.inspect_proposal_review(id) matches Some(found)
                ==> found.header.id == id,
            _ => true,
        },
{
    reveal(StoreModel::names_hold);
    reveal(StoreModel::inspect_claim);
    reveal(StoreModel::claim_at);
    reveal(StoreModel::inspect_entity);
    reveal(StoreModel::entity_at);
    reveal(StoreModel::inspect_semantic_relation);
    reveal(StoreModel::relation_at);
    reveal(StoreModel::inspect_proposal_review);
    reveal(StoreModel::review_at);
}

} // verus!
