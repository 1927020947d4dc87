//! How a change of a record changes where it and the records that rest on it stand.
use vstd::prelude::*;
use crate::clock::FreshModel;
use crate::closure::closures_name_others;
use crate::context::OperationContext;
use crate::digest::mutation_digest_of;
use crate::fault::{CorruptFault, MemoryError, MemoryResult, corrupt};
use crate::ids::{ActivationTraceId, ClaimId, EvidenceId, OperationId, RelationId, Ulid};
use crate::inspect::{lookup, revision_of};
use crate::readback::{indexing_aside, support_aside};
use crate::records::audit::{
    AuditEventModel, PurgeDependency, PurgePreviewModel, PurgeReceiptModel, RecordRevision,
    RetractionReceiptModel,
};
use crate::records::claim::{
    ClaimRevisionHeaderModel, CorrectUserClaimModel, CorrectionReceiptModel,
    EntityRevisionHeaderModel, RelationKind, SemanticRelationRevisionHeaderModel,
};
use crate::records::evidence::{
    Actor, EvidenceAvailabilityRevision, EvidenceClass, EvidenceHeader, EvidenceLifecycleTruth,
    RecordRef, RecordState, Scope,
};
use crate::records::proposal::ProposalRevisionHeader;
use crate::records::receipt::ReceiptModel;
use crate::records::relation::RelationSignalPin;
use crate::store::{StoreModel, WriteModel};

verus! {

/// Whether two states of a store agree in every table that tells where records stand, but
/// for the payloads.
pub open spec fn same_standings(a: StoreModel, b: StoreModel) -> bool {
    &&& a.heads == b.heads
    &&& a.evidence == b.evidence
    &&& a.evidence_availability == b.evidence_availability
    &&& a.claims == b.claims
    &&& a.entities == b.entities
    &&& a.relations == b.relations
    &&& a.proposals == b.proposals
    &&& a.proposal_reviews == b.proposal_reviews
    &&& a.artifact_collections == b.artifact_collections
    &&& a.artifact_collection_availability == b.artifact_collection_availability
    &&& a.artifact_snapshots == b.artifact_snapshots
    &&& a.artifact_snapshot_availability == b.artifact_snapshot_availability
    &&& a.artifact_passages == b.artifact_passages
    &&& a.artifact_passage_availability == b.artifact_passage_availability
}

/// The header of a record that never changes is there in both states or in neither.
pub open spec fn same_ground(a: StoreModel, b: StoreModel) -> bool {
    a.evidence == b.evidence && a.artifact_collections == b.artifact_collections && a.artifact_snapshots
        == b.artifact_snapshots && a.artifact_passages == b.artifact_passages
}

/// Whether two states of a store agree on one record, but for its payload.
spec fn same_record(a: StoreModel, b: StoreModel, record: RecordRef) -> bool {
    &&& lookup(a.heads, record) == lookup(b.heads, record)
    &&& match record {
        RecordRef::Evidence(id) => forall|revision: u64| #[trigger]
            lookup(a.evidence_availability, revision_of(id.0, revision)) == lookup(
                b.evidence_availability,
                revision_of(id.0, revision),
            ),
        RecordRef::Claim(id) => forall|revision: u64| #[trigger]
            lookup(a.claims, revision_of(id.0, revision)) == lookup(b.claims, revision_of(id.0, revision)),
        RecordRef::Entity(id) => forall|revision: u64| #[trigger]
            lookup(a.entities, revision_of(id.0, revision)) == lookup(b.entities, revision_of(id.0, revision)),
        RecordRef::SemanticRelation(id) => forall|revision: u64| #[trigger]
            lookup(a.relations, revision_of(id.0, revision)) == lookup(b.relations, revision_of(id.0, revision)),
        RecordRef::Proposal(id) => forall|revision: u64| #[trigger]
            lookup(a.proposals, revision_of(id.0, revision)) == lookup(b.proposals, revision_of(id.0, revision)),
        RecordRef::ProposalReview(id) => forall|revision: u64| #[trigger]
            lookup(a.proposal_reviews, revision_of(id.0, revision)) == lookup(
                b.proposal_reviews,
                revision_of(id.0, revision),
            ),
        RecordRef::ArtifactCollection(id) => forall|revision: u64| #[trigger]
            lookup(a.artifact_collection_availability, revision_of(id.0, revision)) == lookup(
                b.artifact_collection_availability,
                revision_of(id.0, revision),
            ),
        RecordRef::ArtifactSnapshot(id) => forall|revision: u64| #[trigger]
            lookup(a.artifact_snapshot_availability, revision_of(id.0, revision)) == lookup(
                b.artifact_snapshot_availability,
                revision_of(id.0, revision),
            ),
        RecordRef::ArtifactPassage(id) => forall|revision: u64| #[trigger]
            lookup(a.artifact_passage_availability, revision_of(id.0, revision)) == lookup(
                b.artifact_passage_availability,
                revision_of(id.0, revision),
            ),
    }
}

/// Where a record stands, told from the tables that hold its revisions.
spec fn told(s: StoreModel, record: RecordRef) -> MemoryResult<(Scope, RecordState, u64)> {
    match record {
        RecordRef::Evidence(id) => if !s.evidence.contains_key(id) {
            Err(MemoryError::NotFound(record))
        } else {
            match lookup(s.heads, record) {
                None => corrupt(CorruptFault::HeadMissing(record)),
                Some(revision) => match lookup(s.evidence_availability, revision_of(id.0, revision)) {
                    None => corrupt(CorruptFault::RevisionMissing(record, revision)),
                    Some(found) => Ok((s.evidence[id].scope, found.state, found.revision)),
                },
            }
        },
        RecordRef::Claim(id) => match lookup(s.heads, record) {
            None => Err(MemoryError::NotFound(record)),
            Some(revision) => match lookup(s.claims, revision_of(id.0, revision)) {
                None => corrupt(CorruptFault::RevisionMissing(record, revision)),
                Some(found) => Ok((found.scope, found.state, found.revision)),
            },
        },
        RecordRef::Entity(id) => match lookup(s.heads, record) {
            None => Err(MemoryError::NotFound(record)),
            Some(revision) => match lookup(s.entities, revision_of(id.0, revision)) {
                None => corrupt(CorruptFault::RevisionMissing(record, revision)),
                Some(found) => Ok((found.scope, found.state, found.revision)),
            },
        },
        RecordRef::SemanticRelation(id) => match lookup(s.heads, record) {
            None => Err(MemoryError::NotFound(record)),
            Some(revision) => match lookup(s.relations, revision_of(id.0, revision)) {
                None => corrupt(CorruptFault::RevisionMissing(record, revision)),
                Some(found) => Ok((found.scope, found.state, found.revision)),
            },
        },
        RecordRef::Proposal(id) => match lookup(s.heads, record) {
            None => Err(MemoryError::NotFound(record)),
            Some(revision) => match lookup(s.proposals, revision_of(id.0, revision)) {
                None => Err(MemoryError::NotFound(record)),
                Some(found) => Ok((found.scope, found.state, found.revision)),
            },
        },
        RecordRef::ProposalReview(id) => match lookup(s.heads, record) {
            None => Err(MemoryError::NotFound(record)),
            Some(revision) => match lookup(s.proposal_reviews, revision_of(id.0, revision)) {
                None => Err(MemoryError::NotFound(record)),
                Some(found) => Ok((found.scope, found.state, found.revision)),
            },
        },
        RecordRef::ArtifactCollection(id) => if !s.artifact_collections.contains_key(id) {
            Err(MemoryError::NotFound(record))
        } else {
            match lookup(s.heads, record) {
                None => corrupt(CorruptFault::HeadMissing(record)),
                Some(revision) => match lookup(s.artifact_collection_availability, revision_of(id.0, revision)) {
                    None => Err(MemoryError::NotFound(record)),
                    Some(found) => Ok((s.artifact_collections[id].scope, found.state, found.revision)),
                },
            }
        },
        RecordRef::ArtifactSnapshot(id) => if !s.artifact_snapshots.contains_key(id) {
            Err(MemoryError::NotFound(record))
        } else {
            match lookup(s.heads, record) {
                None => corrupt(CorruptFault::HeadMissing(record)),
                Some(revision) => match lookup(s.artifact_snapshot_availability, revision_of(id.0, revision)) {
                    None => Err(MemoryError::NotFound(record)),
                    Some(found) => Ok((s.artifact_snapshots[id].scope, found.state, found.revision)),
                },
            }
        },
        RecordRef::ArtifactPassage(id) => if !s.artifact_passages.contains_key(id) {
            Err(MemoryError::NotFound(record))
        } else {
            match lookup(s.heads, record) {
                None => corrupt(CorruptFault::HeadMissing(record)),
                Some(revision) => match lookup(s.artifact_passage_availability, revision_of(id.0, revision)) {
                    None => Err(MemoryError::NotFound(record)),
                    Some(found) => Ok((s.artifact_passages[id].scope, found.state, found.revision)),
                },
            }
        },
    }
}

proof fn evidence_told(s: StoreModel, record: RecordRef)
    requires
        record is Evidence,
    ensures
        s.standing(record) == told(s, record),
{
    reveal(StoreModel::standing);
    reveal(StoreModel::inspect_head);
    reveal(StoreModel::inspect_evidence);
    reveal(StoreModel::evidence_at);
}

proof fn claim_told(s: StoreModel, record: RecordRef)
    requires
        record is Claim,
    ensures
        s.standing(record) == told(s, record),
{
    reveal(StoreModel::standing);
    reveal(StoreModel::inspect_head);
    reveal(StoreModel::inspect_claim);
    reveal(StoreModel::claim_at);
}

proof fn entity_told(s: StoreModel, record: RecordRef)
    requires
        record is Entity,
    ensures
        s.standing(record) == told(s, record),
{
    reveal(StoreModel::standing);
    reveal(StoreModel::inspect_head);
    reveal(StoreModel::inspect_entity);
    reveal(StoreModel::entity_at);
}

proof fn relation_told(s: StoreModel, record: RecordRef)
    requires
        record is SemanticRelation,
    ensures
        s.standing(record) == told(s, record),
{
    reveal(StoreModel::standing);
    reveal(StoreModel::inspect_head);
    reveal(StoreModel::inspect_semantic_relation);
    reveal(StoreModel::relation_at);
}

proof fn proposal_told(s: StoreModel, record: RecordRef)
    requires
        record is Proposal,
    ensures
        s.standing(record) == told(s, record),
{
    reveal(StoreModel::standing);
    reveal(StoreModel::inspect_head);
    reveal(StoreModel::inspect_proposal);
    reveal(StoreModel::proposal_at);
}

proof fn review_told(s: StoreModel, record: RecordRef)
    requires
        record is ProposalReview,
    ensures
        s.standing(record) == told(s, record),
{
    reveal(StoreModel::standing);
    reveal(StoreModel::inspect_head);
    reveal(StoreModel::inspect_proposal_review);
    reveal(StoreModel::review_at);
}

proof fn collection_told(s: StoreModel, record: RecordRef)
    requires
        record is ArtifactCollection,
    ensures
        s.standing(record) == told(s, record),
{
    reveal(StoreModel::standing);
    reveal(StoreModel::inspect_head);
    reveal(StoreModel::inspect_artifact_collection);
    reveal(StoreModel::collection_at);
}

proof fn snapshot_told(s: StoreModel, record: RecordRef)
    requires
        record is ArtifactSnapshot,
    ensures
        s.standing(record) == told(s, record),
{
    reveal(StoreModel::standing);
    reveal(StoreModel::inspect_head);
    reveal(StoreModel::inspect_artifact_snapshot);
    reveal(StoreModel::snapshot_at);
}

proof fn passage_told(s: StoreModel, record: RecordRef)
    requires
        record is ArtifactPassage,
    ensures
        s.standing(record) == told(s, record),
{
    reveal(StoreModel::standing);
    reveal(StoreModel::inspect_head);
    reveal(StoreModel::inspect_artifact_passage);
    reveal(StoreModel::passage_at);
}

proof fn standing_is_told(s: StoreModel, record: RecordRef)
    ensures
        s.standing(record) == told(s, record),
{
    match record {
        RecordRef::Evidence(_) => evidence_told(s, record),
        RecordRef::Claim(_) => claim_told(s, record),
        RecordRef::Entity(_) => entity_told(s, record),
        RecordRef::SemanticRelation(_) => relation_told(s, record),
        RecordRef::Proposal(_) => proposal_told(s, record),
        RecordRef::ProposalReview(_) => review_told(s, record),
        RecordRef::ArtifactCollection(_) => collection_told(s, record),
        RecordRef::ArtifactSnapshot(_) => snapshot_told(s, record),
        RecordRef::ArtifactPassage(_) => passage_told(s, record),
    }
}

proof fn same_record_stands(a: StoreModel, b: StoreModel, record: RecordRef)
    requires
        same_ground(a, b),
        same_record(a, b, record),
    ensures
        a.standing(record) == b.standing(record),
{
    standing_is_told(a, record);
    standing_is_told(b, record);
}

broadcast proof fn withdrawn_postings_stand(s: StoreModel, record: RecordRef, hashes: Seq<[u8; 32]>, n: nat)
    ensures
        same_standings(s, #[trigger] s.without_postings(record, hashes, n)),
    decreases n,
{
    broadcast use crate::writing::parts_after_put;
    if n > 0 {
        withdrawn_postings_stand(s, record, hashes, (n - 1) as nat);
    }
}

broadcast proof fn unindexing_stands(s: StoreModel, committed: StoreModel, record: RecordRef)
    ensures
        same_standings(s, #[trigger] s.unindexed(committed, record)),
{
    broadcast use withdrawn_postings_stand;

    broadcast use crate::writing::parts_after_put;
    reveal(StoreModel::unindexed);
}

broadcast proof fn erasing_stands(s: StoreModel, record: RecordRef)
    ensures
        same_standings(s, #[trigger] s.without_payload(record)),
{
    broadcast use crate::writing::parts_after_put;
    reveal(StoreModel::without_payload);
}

broadcast proof fn books_stand(s: StoreModel, event: AuditEventModel)
    ensures
        same_standings(s, #[trigger] s.audited(event)),
{
    broadcast use crate::writing::parts_after_put;
}

broadcast proof fn operations_stand(s: StoreModel, id: OperationId, digest: [u8; 32], receipt: ReceiptModel)
    ensures
        same_standings(s, #[trigger] s.remembered(id, digest, receipt)),
{
    broadcast use crate::writing::parts_after_put;
}

proof fn appending_touches_one(
    s: StoreModel,
    staged: StoreModel,
    record: RecordRef,
    expected_revision: u64,
    state: RecordState,
    operation_id: OperationId,
    recorded_at_ms: i64,
    other: RecordRef,
)
    requires
        s.appended(staged, record, expected_revision, state, operation_id, recorded_at_ms) is Ok,
        other != record,
    ensures
        same_ground(
            staged,
            s.appended(staged, record, expected_revision, state, operation_id, recorded_at_ms)->Ok_0.0,
        ),
        same_record(
            staged,
            s.appended(staged, record, expected_revision, state, operation_id, recorded_at_ms)->Ok_0.0,
            other,
        ),
{
    reveal(StoreModel::appended);
    reveal(StoreModel::next_revision);
    reveal(StoreModel::unlisted_proposal);
    broadcast use crate::writing::parts_after_put;
}

proof fn appended_stands(
    s: StoreModel,
    staged: StoreModel,
    record: RecordRef,
    expected_revision: u64,
    state: RecordState,
    operation_id: OperationId,
    recorded_at_ms: i64,
)
    requires
        s.appended(staged, record, expected_revision, state, operation_id, recorded_at_ms) is Ok,
        same_ground(s, staged),
    ensures
        s.standing(record) is Ok,
        s.standing(record)->Ok_0.2 == expected_revision,
        expected_revision < u64::MAX,
        s.appended(staged, record, expected_revision, state, operation_id, recorded_at_ms)->Ok_0.1
            == (RecordRevision { record, revision: (expected_revision + 1) as u64, state }),
        s.appended(
            staged,
            record,
            expected_revision,
            state,
            operation_id,
            recorded_at_ms,
        )->Ok_0.0.standing(record) == MemoryResult::Ok(
            (s.standing(record)->Ok_0.0, state, (expected_revision + 1) as u64),
        ),
{
    let after = s.appended(staged, record, expected_revision, state, operation_id, recorded_at_ms)->Ok_0.0;
    standing_is_told(s, record);
    standing_is_told(after, record);
    reveal(StoreModel::appended);
    reveal(StoreModel::next_revision);
    reveal(StoreModel::unlisted_proposal);
    broadcast use crate::writing::parts_after_put;
    match record {
        RecordRef::Claim(id) => {
            reveal(StoreModel::inspect_claim);
            reveal(StoreModel::claim_at);
        },
        RecordRef::Entity(id) => {
            reveal(StoreModel::inspect_entity);
            reveal(StoreModel::entity_at);
        },
        RecordRef::SemanticRelation(id) => {
            reveal(StoreModel::inspect_semantic_relation);
            reveal(StoreModel::relation_at);
        },
        RecordRef::Proposal(id) => {
            reveal(StoreModel::inspect_proposal);
            reveal(StoreModel::proposal_at);
        },
        RecordRef::ProposalReview(id) => {
            reveal(StoreModel::inspect_proposal_review);
            reveal(StoreModel::review_at);
        },
        _ => {},
    }
}

/// A record stands in the same place in two states that agree in those tables.
pub proof fn same_standings_stand(a: StoreModel, b: StoreModel, record: RecordRef)
    requires
        same_standings(a, b),
    ensures
        a.standing(record) == b.standing(record),
{
    standing_is_told(a, record);
    standing_is_told(b, record);
}

/// Whether a list names each record once.
pub open spec fn names_each_once(dependencies: Seq<PurgeDependency>) -> bool {
    forall|i: int, j: int| 0 <= i < j < dependencies.len() ==> dependencies[i].record != dependencies[j].record
}

/// Whether a record is among the first `n` of a list.
pub open spec fn named_within(dependencies: Seq<PurgeDependency>, n: nat, record: RecordRef) -> bool {
    exists|i: int| 0 <= i < n && (#[trigger] dependencies[i]).record == record
}

proof fn invalidated_stand(
    s: StoreModel,
    staged: StoreModel,
    dependencies: Seq<PurgeDependency>,
    n: nat,
    state: RecordState,
    operation_id: OperationId,
    recorded_at_ms: i64,
    after: StoreModel,
    revisions: Seq<RecordRevision>,
)
    requires
        s.invalidated(staged, dependencies, n, state, operation_id, recorded_at_ms) == MemoryResult::Ok(
            (after, revisions),
        ),
        n <= dependencies.len(),
        names_each_once(dependencies),
        same_ground(s, staged),
    ensures
        same_ground(s, after),
        revisions.len() == n,
        forall|i: int|
            0 <= i < n ==> #[trigger] revisions[i] == (RecordRevision {
                record: dependencies[i].record,
                revision: (dependencies[i].expected_revision + 1) as u64,
                state,
            }),
        forall|i: int|
            0 <= i < n ==> after.standing((#[trigger] dependencies[i]).record) == MemoryResult::Ok(
                (
                    s.standing(dependencies[i].record)->Ok_0.0,
                    state,
                    (dependencies[i].expected_revision + 1) as u64,
                ),
            ),
        forall|i: int| 0 <= i < n ==> s.standing((#[trigger] dependencies[i]).record) is Ok,
        forall|r: RecordRef|
            !named_within(dependencies, n, r) ==> #[trigger] after.standing(r) == staged.standing(r),
    decreases n,
{
    if n > 0 {
        let (before, done) = s.invalidated(
            staged,
            dependencies,
            (n - 1) as nat,
            state,
            operation_id,
            recorded_at_ms,
        )->Ok_0;
        invalidated_stand(
            s,
            staged,
            dependencies,
            (n - 1) as nat,
            state,
            operation_id,
            recorded_at_ms,
            before,
            done,
        );
        let dependency = dependencies[n - 1];
        let record = dependency.record;
        let expected = dependency.expected_revision;
        let moved = s.appended(before, record, expected, state, operation_id, recorded_at_ms)->Ok_0.0;
        appended_stands(s, before, record, expected, state, operation_id, recorded_at_ms);
        let other = if record == RecordRef::Evidence(EvidenceId(Ulid(0))) {
            RecordRef::Claim(ClaimId(Ulid(0)))
        } else {
            RecordRef::Evidence(EvidenceId(Ulid(0)))
        };
        appending_touches_one(s, before, record, expected, state, operation_id, recorded_at_ms, other);
        unindexing_stands(moved, s, record);
        same_standings_stand(moved, after, record);
        assert forall|r: RecordRef| r != record implies #[trigger] after.standing(r) == before.standing(r) by {
            appending_touches_one(s, before, record, expected, state, operation_id, recorded_at_ms, r);
            same_record_stands(before, moved, r);
            same_standings_stand(moved, after, r);
        }
        assert forall|i: int| 0 <= i < n implies after.standing((#[trigger] dependencies[i]).record)
            == MemoryResult::Ok(
            (
                s.standing(dependencies[i].record)->Ok_0.0,
                state,
                (dependencies[i].expected_revision + 1) as u64,
            ),
        ) by {
            if i < n - 1 {
                assert(dependencies[i].record != dependencies[n - 1].record);
            }
        }
        assert forall|r: RecordRef| !named_within(dependencies, n, r) implies #[trigger] after.standing(r)
            == staged.standing(r) by {
            assert(dependencies[n - 1].record != r);
            if named_within(dependencies, (n - 1) as nat, r) {
                let i = choose|i: int| 0 <= i < n - 1 && (#[trigger] dependencies[i]).record == r;
                assert(dependencies[i].record == r);
            }
        }
    }
}

/// Where records stand once one of them has moved and what rests on it has lost its
/// support.
pub proof fn withdrawals_reach_what_rests_on_them(
    s: StoreModel,
    record: RecordRef,
    expected_revision: u64,
    state: RecordState,
    operation_id: OperationId,
    now: i64,
    dependencies: Seq<PurgeDependency>,
    reached: StoreModel,
    revisions: Seq<RecordRevision>,
)
    requires
        s.dependencies.dom().finite(),
        s.dependency_closure(record, false) == MemoryResult::Ok(dependencies),
        s.appended(s, record, expected_revision, state, operation_id, now) is Ok,
        s.invalidated(
            s.appended(s, record, expected_revision, state, operation_id, now)->Ok_0.0.unindexed(s, record),
            dependencies,
            dependencies.len(),
            RecordState::Unsupported,
            operation_id,
            now,
        ) == MemoryResult::Ok((reached, revisions)),
    ensures
        s.standing(record) is Ok,
        s.appended(s, record, expected_revision, state, operation_id, now)->Ok_0.1 == (RecordRevision {
            record,
            revision: (expected_revision + 1) as u64,
            state,
        }),
        reached.standing(record) == MemoryResult::Ok(
            (s.standing(record)->Ok_0.0, state, (expected_revision + 1) as u64),
        ),
        revisions.len() == dependencies.len(),
        forall|i: int|
            0 <= i < dependencies.len() ==> #[trigger] revisions[i] == (RecordRevision {
                record: dependencies[i].record,
                revision: (dependencies[i].expected_revision + 1) as u64,
                state: RecordState::Unsupported,
            }),
        forall|i: int|
            0 <= i < dependencies.len() ==> reached.standing((#[trigger] dependencies[i]).record)
                == MemoryResult::Ok(
                (
                    s.standing(dependencies[i].record)->Ok_0.0,
                    RecordState::Unsupported,
                    (dependencies[i].expected_revision + 1) as u64,
                ),
            ),
        forall|i: int| 0 <= i < dependencies.len() ==> s.standing((#[trigger] dependencies[i]).record) is Ok,
        forall|r: RecordRef|
            r != record && !named_within(dependencies, dependencies.len(), r) ==> #[trigger] reached.standing(r)
                == s.standing(r),
{
    closures_name_others(s, record, false, dependencies);
    let moved = s.appended(s, record, expected_revision, state, operation_id, now)->Ok_0.0;
    let begun = moved.unindexed(s, record);
    appended_stands(s, s, record, expected_revision, state, operation_id, now);
    let other = if record == RecordRef::Evidence(EvidenceId(Ulid(0))) {
        RecordRef::Claim(ClaimId(Ulid(0)))
    } else {
        RecordRef::Evidence(EvidenceId(Ulid(0)))
    };
    appending_touches_one(s, s, record, expected_revision, state, operation_id, now, other);
    unindexing_stands(moved, s, record);
    same_standings_stand(moved, begun, record);
    invalidated_stand(
        s,
        begun,
        dependencies,
        dependencies.len(),
        RecordState::Unsupported,
        operation_id,
        now,
        reached,
        revisions,
    );
    assert(!named_within(dependencies, dependencies.len(), record));
    assert forall|r: RecordRef|
        r != record && !named_within(dependencies, dependencies.len(), r) implies #[trigger] reached.standing(r)
        == s.standing(r) by {
        appending_touches_one(s, s, record, expected_revision, state, operation_id, now, r);
        same_record_stands(s, moved, r);
        same_standings_stand(moved, begun, r);
    }
}

/// A retraction withdraws the record and leaves everything active that rests on it, near
/// or far, without support; nothing else moves.
pub proof fn retractions_reach_what_rests_on_them(
    s: StoreModel,
    operation: OperationContext,
    record: RecordRef,
    expected_revision: u64,
    request: Seq<u8>,
    fresh: FreshModel,
    after: StoreModel,
    receipt: RetractionReceiptModel,
    dependencies: Seq<PurgeDependency>,
)
    requires
        s.retract(operation, record, expected_revision, request, fresh) == MemoryResult::Ok((after, receipt)),
        !s.operations.contains_key(operation.id),
        s.dependencies.dom().finite(),
        s.dependency_closure(record, false) == MemoryResult::Ok(dependencies),
    ensures
        s.standing(record) == MemoryResult::Ok(
            (s.standing(record)->Ok_0.0, RecordState::Active, expected_revision),
        ),
        after.standing(record) == MemoryResult::Ok(
            (s.standing(record)->Ok_0.0, RecordState::Retracted, (expected_revision + 1) as u64),
        ),
        receipt.target == (RecordRevision {
            record,
            revision: (expected_revision + 1) as u64,
            state: RecordState::Retracted,
        }),
        receipt.invalidated.len() == dependencies.len(),
        forall|i: int|
            0 <= i < dependencies.len() ==> #[trigger] receipt.invalidated[i] == (RecordRevision {
                record: dependencies[i].record,
                revision: (dependencies[i].expected_revision + 1) as u64,
                state: RecordState::Unsupported,
            }),
        forall|i: int|
            0 <= i < dependencies.len() ==> after.standing((#[trigger] dependencies[i]).record) == MemoryResult::Ok(
                (
                    s.standing(dependencies[i].record)->Ok_0.0,
                    RecordState::Unsupported,
                    (dependencies[i].expected_revision + 1) as u64,
                ),
            ),
        forall|r: RecordRef|
            r != record && !named_within(dependencies, dependencies.len(), r) ==> #[trigger] after.standing(r)
                == s.standing(r),
{
    reveal(StoreModel::replay);
    let now = fresh.recorded_at_ms;
    let state = RecordState::Retracted;
    let moved = s.appended(s, record, expected_revision, state, operation.id, now)->Ok_0.0;
    let (reached, revisions) = s.invalidated(
        moved.unindexed(s, record),
        dependencies,
        dependencies.len(),
        RecordState::Unsupported,
        operation.id,
        now,
    )->Ok_0;
    withdrawals_reach_what_rests_on_them(
        s,
        record,
        expected_revision,
        state,
        operation.id,
        now,
        dependencies,
        reached,
        revisions,
    );
    assert forall|r: RecordRef| #[trigger] after.standing(r) == reached.standing(r) by {
        broadcast use {books_stand, operations_stand};

        same_standings_stand(reached, after, r);
    }
}

/// Where a dependent stands once what it rests on is purged: without support if it was
/// active, and where it stood otherwise.
pub open spec fn undermined_standing(s: StoreModel, record: RecordRef) -> MemoryResult<(Scope, RecordState, u64)> {
    match s.standing(record) {
        Ok((scope, state, revision)) => if state == RecordState::Active {
            Ok((scope, RecordState::Unsupported, (revision + 1) as u64))
        } else {
            Ok((scope, state, revision))
        },
        Err(error) => Err(error),
    }
}

proof fn dependent_purge_stands(
    s: StoreModel,
    staged: StoreModel,
    revisions: Seq<RecordRevision>,
    dependency: PurgeDependency,
    operation_id: OperationId,
    recorded_at_ms: i64,
)
    requires
        s.dependent_purged(staged, revisions, dependency, operation_id, recorded_at_ms) is Ok,
        same_ground(s, staged),
        staged.standing(dependency.record) == s.standing(dependency.record),
    ensures
        ({
            let after = s.dependent_purged(staged, revisions, dependency, operation_id, recorded_at_ms)->Ok_0.0;
            &&& same_ground(s, after)
            &&& after.standing(dependency.record) == undermined_standing(s, dependency.record)
            &&& forall|r: RecordRef| r != dependency.record ==> #[trigger] after.standing(r) == staged.standing(r)
        }),
{
    reveal(StoreModel::dependent_purged);
    let record = dependency.record;
    let expected = dependency.expected_revision;
    let after = s.dependent_purged(staged, revisions, dependency, operation_id, recorded_at_ms)->Ok_0.0;
    let active = s.standing(record)->Ok_0.1 == RecordState::Active;
    let state = RecordState::Unsupported;
    let moved = if active {
        s.appended(staged, record, expected, state, operation_id, recorded_at_ms)->Ok_0.0
    } else {
        staged
    };
    let hidden = moved.unindexed(s, record);
    unindexing_stands(moved, s, record);
    erasing_stands(hidden, record);
    if active {
        appended_stands(s, staged, record, expected, state, operation_id, recorded_at_ms);
        let other = if record == RecordRef::Evidence(EvidenceId(Ulid(0))) {
            RecordRef::Claim(ClaimId(Ulid(0)))
        } else {
            RecordRef::Evidence(EvidenceId(Ulid(0)))
        };
        appending_touches_one(s, staged, record, expected, state, operation_id, recorded_at_ms, other);
    }
    same_standings_stand(moved, after, record);
    assert forall|r: RecordRef| r != record implies #[trigger] after.standing(r) == staged.standing(r) by {
        same_standings_stand(moved, after, r);
        if active {
            appending_touches_one(s, staged, record, expected, state, operation_id, recorded_at_ms, r);
            same_record_stands(staged, moved, r);
        }
    }
}

proof fn dependents_purge_stand(
    s: StoreModel,
    staged: StoreModel,
    dependencies: Seq<PurgeDependency>,
    operation_id: OperationId,
    recorded_at_ms: i64,
    n: nat,
)
    requires
        s.dependents_purged(staged, dependencies, operation_id, recorded_at_ms, n) is Ok,
        n <= dependencies.len(),
        names_each_once(dependencies),
        same_ground(s, staged),
        forall|i: int|
            0 <= i < dependencies.len() ==> staged.standing((#[trigger] dependencies[i]).record) == s.standing(
                dependencies[i].record,
            ),
    ensures
        ({
            let after = s.dependents_purged(staged, dependencies, operation_id, recorded_at_ms, n)->Ok_0.0;
            &&& same_ground(s, after)
            &&& forall|i: int|
                0 <= i < n ==> after.standing((#[trigger] dependencies[i]).record) == undermined_standing(
                    s,
                    dependencies[i].record,
                )
            &&& forall|r: RecordRef|
                !named_within(dependencies, n, r) ==> #[trigger] after.standing(r) == staged.standing(r)
        }),
    decreases n,
{
    if n > 0 {
        dependents_purge_stand(s, staged, dependencies, operation_id, recorded_at_ms, (n - 1) as nat);
        let (before, done) = s.dependents_purged(
            staged,
            dependencies,
            operation_id,
            recorded_at_ms,
            (n - 1) as nat,
        )->Ok_0;
        let after = s.dependents_purged(staged, dependencies, operation_id, recorded_at_ms, n)->Ok_0.0;
        let dependency = dependencies[n - 1];
        assert(!named_within(dependencies, (n - 1) as nat, dependency.record));
        assert(before.standing(dependency.record) == staged.standing(dependency.record));
        dependent_purge_stands(s, before, done, dependency, operation_id, recorded_at_ms);
        assert forall|i: int| 0 <= i < n implies after.standing((#[trigger] dependencies[i]).record)
            == undermined_standing(s, dependencies[i].record) by {
            if i < n - 1 {
                assert(dependencies[i].record != dependencies[n - 1].record);
            }
        }
        assert forall|r: RecordRef| !named_within(dependencies, n, r) implies #[trigger] after.standing(r)
            == staged.standing(r) by {
            assert(dependencies[n - 1].record != r);
            if named_within(dependencies, (n - 1) as nat, r) {
                let i = choose|i: int| 0 <= i < n - 1 && (#[trigger] dependencies[i]).record == r;
                assert(dependencies[i].record == r);
            }
        }
    }
}

broadcast proof fn silenced_traces_stand(s: StoreModel, ids: Seq<ActivationTraceId>, n: nat)
    ensures
        same_standings(s, #[trigger] s.without_traces(ids, n)),
    decreases n,
{
    broadcast use crate::writing::parts_after_put;
    if n > 0 {
        silenced_traces_stand(s, ids, (n - 1) as nat);
    }
}

broadcast proof fn silencing_stands(
    s: StoreModel,
    staged: StoreModel,
    pins: Seq<RelationSignalPin>,
    n: nat,
    operation_id: OperationId,
    recorded_at_ms: i64,
)
    requires
        s.signals_purged(staged, pins, n, operation_id, recorded_at_ms) is Ok,
    ensures
        same_standings(
            staged,
            (#[trigger] s.signals_purged(staged, pins, n, operation_id, recorded_at_ms))->Ok_0.0,
        ),
    decreases n,
{
    broadcast use crate::writing::parts_after_put;
    reveal(StoreModel::signal_appended);
    if n > 0 {
        silencing_stands(s, staged, pins, (n - 1) as nat, operation_id, recorded_at_ms);
    }
}

/// A purge ends its target and leaves everything that rests on it, near or far, without
/// support; nothing else moves.
pub proof fn purges_reach_what_rests_on_them(
    s: StoreModel,
    operation: OperationContext,
    preview: PurgePreviewModel,
    request: Seq<u8>,
    now_ms: i64,
    fresh: FreshModel,
    after: StoreModel,
    receipt: PurgeReceiptModel,
)
    requires
        s.commit_purge(operation, preview, request, now_ms, fresh) == MemoryResult::Ok((after, receipt)),
        !s.operations.contains_key(operation.id),
        s.dependencies.dom().finite(),
    ensures
        s.dependency_closure(preview.target, true) == MemoryResult::Ok(preview.invalidations),
        after.standing(preview.target) == MemoryResult::Ok(
            (
                s.standing(preview.target)->Ok_0.0,
                RecordState::Purged,
                (preview.expected_revision + 1) as u64,
            ),
        ),
        forall|i: int|
            0 <= i < preview.invalidations.len() ==> after.standing((#[trigger] preview.invalidations[i]).record)
                == undermined_standing(s, preview.invalidations[i].record),
        forall|r: RecordRef|
            r != preview.target && !named_within(preview.invalidations, preview.invalidations.len(), r)
                ==> #[trigger] after.standing(r) == s.standing(r),
{
    reveal(StoreModel::replay);
    reveal(StoreModel::purged);
    reveal(StoreModel::preview_fault);
    reveal(StoreModel::purge_preview);
    let target = preview.target;
    let dependencies = preview.invalidations;
    let expected = preview.expected_revision;
    assert(s.dependency_closure(target, true) == MemoryResult::Ok(dependencies));
    closures_name_others(s, target, true, dependencies);
    let now = fresh.recorded_at_ms;
    let state = RecordState::Purged;
    let moved = s.appended(s, target, expected, state, operation.id, now)->Ok_0.0;
    let hidden = moved.unindexed(s, target);
    let begun = hidden.without_payload(target);
    appended_stands(s, s, target, expected, state, operation.id, now);
    let other = if target == RecordRef::Evidence(EvidenceId(Ulid(0))) {
        RecordRef::Claim(ClaimId(Ulid(0)))
    } else {
        RecordRef::Evidence(EvidenceId(Ulid(0)))
    };
    appending_touches_one(s, s, target, expected, state, operation.id, now, other);
    unindexing_stands(moved, s, target);
    erasing_stands(hidden, target);
    same_standings_stand(moved, begun, target);
    assert forall|r: RecordRef| r != target implies #[trigger] begun.standing(r) == s.standing(r) by {
        appending_touches_one(s, s, target, expected, state, operation.id, now, r);
        same_record_stands(s, moved, r);
        same_standings_stand(moved, begun, r);
    }
    dependents_purge_stand(s, begun, dependencies, operation.id, now, dependencies.len());
    let undermined = s.dependents_purged(begun, dependencies, operation.id, now, dependencies.len())->Ok_0.0;
    assert forall|r: RecordRef| #[trigger] after.standing(r) == undermined.standing(r) by {
        broadcast use {books_stand, operations_stand, silenced_traces_stand, silencing_stands};

        same_standings_stand(undermined, after, r);
    }
    assert(!named_within(dependencies, dependencies.len(), target));
    assert forall|r: RecordRef|
        r != target && !named_within(dependencies, dependencies.len(), r) implies #[trigger] after.standing(r)
        == s.standing(r) by {
        assert(undermined.standing(r) == begun.standing(r));
    }
}

proof fn creating_touches_new(
    s: StoreModel,
    evidence: EvidenceHeader,
    evidence_text: Seq<char>,
    claim: ClaimRevisionHeaderModel,
    proposition: Seq<char>,
    relation: SemanticRelationRevisionHeaderModel,
    record: RecordRef,
)
    requires
        record != RecordRef::Evidence(evidence.id),
        record != RecordRef::Claim(claim.id),
        record != RecordRef::SemanticRelation(relation.id),
    ensures
        s.with_evidence(evidence, evidence_text).with_claim(claim, proposition).with_relation(
            relation,
            None,
        ).standing(record) == s.standing(record),
{
    broadcast use {indexing_aside, support_aside};

    let after = s.with_evidence(evidence, evidence_text).with_claim(claim, proposition).with_relation(
        relation,
        None,
    );
    standing_is_told(s, record);
    standing_is_told(after, record);
    broadcast use crate::writing::parts_after_put;
    reveal(StoreModel::with_evidence);
    reveal(StoreModel::with_claim);
    reveal(StoreModel::with_relation);
}

/// The evidence, the replacement and the relation that a correction adds.
spec fn correction(
    operation: OperationContext,
    wanted: CorrectUserClaimModel,
    current: ClaimRevisionHeaderModel,
    fresh: FreshModel,
) -> (EvidenceHeader, ClaimRevisionHeaderModel, SemanticRelationRevisionHeaderModel) {
    let evidence_id = EvidenceId(fresh.ids[1]);
    let replacement_id = ClaimId(fresh.ids[2]);
    let now = fresh.recorded_at_ms;
    (
        EvidenceHeader {
            id: evidence_id,
            class: EvidenceClass::UserCorrection,
            captured_by: Actor::User,
            scope: current.scope,
            temporal: wanted.temporal,
            lifecycle: EvidenceLifecycleTruth::Direct,
            recorded_at_ms: now,
            operation_id: operation.id,
        },
        ClaimRevisionHeaderModel {
            id: replacement_id,
            revision: 1,
            previous_revision: None,
            domain: current.domain,
            scope: current.scope,
            temporal: wanted.temporal,
            evidence_ids: seq![evidence_id],
            state: RecordState::Active,
            recorded_at_ms: now,
            operation_id: operation.id,
        },
        SemanticRelationRevisionHeaderModel {
            id: RelationId(fresh.ids[3]),
            revision: 1,
            previous_revision: None,
            from: RecordRef::Claim(replacement_id),
            to: RecordRef::Claim(wanted.target),
            kind: RelationKind::Supersedes,
            scope: current.scope,
            evidence_ids: seq![evidence_id],
            state: RecordState::Active,
            recorded_at_ms: now,
            operation_id: operation.id,
        },
    )
}

/// A store with what a correction adds.
spec fn with_correction(
    s: StoreModel,
    operation: OperationContext,
    wanted: CorrectUserClaimModel,
    current: ClaimRevisionHeaderModel,
    fresh: FreshModel,
) -> StoreModel {
    let (evidence, replacement, supersedes) = correction(operation, wanted, current, fresh);
    s.with_evidence(evidence, wanted.evidence_text).with_claim(
        replacement,
        wanted.replacement_proposition,
    ).with_relation(supersedes, None)
}

/// Whether two states of a store agree in what records say.
spec fn same_payloads(a: StoreModel, b: StoreModel) -> bool {
    a.texts == b.texts && a.relation_payloads == b.relation_payloads
}

proof fn correction_is_made(
    s: StoreModel,
    operation: OperationContext,
    input: CorrectUserClaimModel,
    request: Seq<u8>,
    fresh: FreshModel,
    after: StoreModel,
    receipt: CorrectionReceiptModel,
    wanted: CorrectUserClaimModel,
    current: ClaimRevisionHeaderModel,
) -> (step: (StoreModel, Seq<PurgeDependency>, Seq<RecordRevision>))
    requires
        s.correct_user_claim(operation, input, request, fresh) == MemoryResult::Ok((after, receipt)),
        StoreModel::correct_request(operation.actor, input) == MemoryResult::Ok(wanted),
        s.correctable(operation.actor, input.target, input.expected_revision) == MemoryResult::Ok(current),
        !s.operations.contains_key(operation.id),
    ensures
        ({
            let target = RecordRef::Claim(input.target);
            let now = fresh.recorded_at_ms;
            let moved = s.appended(
                s,
                target,
                input.expected_revision,
                RecordState::Superseded,
                operation.id,
                now,
            );
            let (reached, dependencies, revisions) = step;
            let made = with_correction(reached, operation, wanted, current, fresh);
            let (evidence, replacement, supersedes) = correction(operation, wanted, current, fresh);
            &&& s.dependency_closure(target, false) == MemoryResult::Ok(dependencies)
            &&& moved is Ok
            &&& s.invalidated(
                moved->Ok_0.0.unindexed(s, target),
                dependencies,
                dependencies.len(),
                RecordState::Unsupported,
                operation.id,
                now,
            ) == MemoryResult::Ok((reached, revisions))
            &&& same_standings(made, after)
            &&& same_payloads(made, after)
            &&& receipt.evidence.id == evidence.id
            &&& receipt.replacement.id == replacement.id
            &&& receipt.supersedes_relation.id == supersedes.id
            &&& receipt.superseded == moved->Ok_0.1
            &&& receipt.invalidated == revisions
        }),
{
    let digest = mutation_digest_of(s.digest_key@, "correct_user_claim"@, operation.actor, request);
    assert(s.replay(operation.id, digest) == MemoryResult::Ok(None::<ReceiptModel>)) by {
        reveal(StoreModel::replay);
    }
    assert(wanted.target == input.target && wanted.expected_revision == input.expected_revision) by {
        reveal(StoreModel::correct_request);
    }
    assert(s.corrected(operation, wanted, digest, current, fresh) == MemoryResult::Ok((after, receipt)));
    let target = RecordRef::Claim(input.target);
    let now = fresh.recorded_at_ms;
    let dependencies = s.dependency_closure(target, false)->Ok_0;
    let moved = s.appended(s, target, input.expected_revision, RecordState::Superseded, operation.id, now)->Ok_0.0;
    let (reached, revisions) = s.invalidated(
        moved.unindexed(s, target),
        dependencies,
        dependencies.len(),
        RecordState::Unsupported,
        operation.id,
        now,
    )->Ok_0;
    let made = with_correction(reached, operation, wanted, current, fresh);
    assert(same_standings(made, after) && same_payloads(made, after)) by {
        broadcast use crate::writing::parts_after_put;
    }
    (reached, dependencies, revisions)
}

/// A correction supersedes the claim and leaves everything active that rests on it, near or
/// far, without support; beside the evidence, the replacement and the relation that it
/// adds, nothing else moves.
pub proof fn corrections_supersede(
    s: StoreModel,
    operation: OperationContext,
    input: CorrectUserClaimModel,
    request: Seq<u8>,
    fresh: FreshModel,
    after: StoreModel,
    receipt: CorrectionReceiptModel,
    dependencies: Seq<PurgeDependency>,
)
    requires
        s.correct_user_claim(operation, input, request, fresh) == MemoryResult::Ok((after, receipt)),
        !s.operations.contains_key(operation.id),
        s.dependencies.dom().finite(),
        s.dependency_closure(RecordRef::Claim(input.target), false) == MemoryResult::Ok(dependencies),
        !s.heads.contains_key(RecordRef::Evidence(EvidenceId(fresh.ids[1]))),
        !s.heads.contains_key(RecordRef::Claim(ClaimId(fresh.ids[2]))),
        !s.heads.contains_key(RecordRef::SemanticRelation(RelationId(fresh.ids[3]))),
    ensures
        ({
            let target = RecordRef::Claim(input.target);
            let next = (input.expected_revision + 1) as u64;
            &&& s.standing(target) == MemoryResult::Ok(
                (s.standing(target)->Ok_0.0, RecordState::Active, input.expected_revision),
            )
            &&& after.standing(target) == MemoryResult::Ok(
                (s.standing(target)->Ok_0.0, RecordState::Superseded, next),
            )
            &&& receipt.superseded == (RecordRevision {
                record: target,
                revision: next,
                state: RecordState::Superseded,
            })
            &&& receipt.invalidated.len() == dependencies.len()
            &&& forall|i: int|
                0 <= i < dependencies.len() ==> #[trigger] receipt.invalidated[i] == (RecordRevision {
                    record: dependencies[i].record,
                    revision: (dependencies[i].expected_revision + 1) as u64,
                    state: RecordState::Unsupported,
                })
            &&& forall|i: int|
                0 <= i < dependencies.len() ==> after.standing((#[trigger] dependencies[i]).record)
                    == MemoryResult::Ok(
                    (
                        s.standing(dependencies[i].record)->Ok_0.0,
                        RecordState::Unsupported,
                        (dependencies[i].expected_revision + 1) as u64,
                    ),
                )
            &&& forall|r: RecordRef|
                r != target && r != RecordRef::Evidence(receipt.evidence.id) && r != RecordRef::Claim(
                    receipt.replacement.id,
                ) && r != RecordRef::SemanticRelation(receipt.supersedes_relation.id) && !named_within(
                    dependencies,
                    dependencies.len(),
                    r,
                ) ==> #[trigger] after.standing(r) == s.standing(r)
        }),
{
    let target = RecordRef::Claim(input.target);
    let wanted = StoreModel::correct_request(operation.actor, input)->Ok_0;
    let current = s.correctable(operation.actor, input.target, input.expected_revision)->Ok_0;
    assert(s.replay(
        operation.id,
        mutation_digest_of(s.digest_key@, "correct_user_claim"@, operation.actor, request),
    ) == MemoryResult::Ok(None::<ReceiptModel>)) by {
        reveal(StoreModel::replay);
    }
    assert(wanted.target == input.target && wanted.expected_revision == input.expected_revision) by {
        reveal(StoreModel::correct_request);
    }
    let (reached, _, revisions) = correction_is_made(
        s,
        operation,
        input,
        request,
        fresh,
        after,
        receipt,
        wanted,
        current,
    );
    withdrawals_reach_what_rests_on_them(
        s,
        target,
        input.expected_revision,
        RecordState::Superseded,
        operation.id,
        fresh.recorded_at_ms,
        dependencies,
        reached,
        revisions,
    );
    standing_is_told(s, target);
    assert(s.standing(target) == MemoryResult::Ok(
        (s.standing(target)->Ok_0.0, RecordState::Active, input.expected_revision),
    )) by {
        reveal(StoreModel::correctable);
        reveal(StoreModel::inspect_claim);
        reveal(StoreModel::claim_at);
    }
    let (evidence, replacement, supersedes) = correction(operation, wanted, current, fresh);
    assert forall|r: RecordRef|
        r != RecordRef::Evidence(evidence.id) && r != RecordRef::Claim(replacement.id)
            && r != RecordRef::SemanticRelation(supersedes.id) implies #[trigger] after.standing(r)
        == reached.standing(r) by {
        creating_touches_new(
            reached,
            evidence,
            wanted.evidence_text,
            replacement,
            wanted.replacement_proposition,
            supersedes,
            r,
        );
        same_standings_stand(with_correction(reached, operation, wanted, current, fresh), after, r);
    }
    assert forall|i: int| 0 <= i < dependencies.len() implies after.standing(
        (#[trigger] dependencies[i]).record,
    ) == reached.standing(dependencies[i].record) by {
        standing_is_told(s, dependencies[i].record);
    }
}

proof fn created_read_back(
    s: StoreModel,
    evidence: EvidenceHeader,
    evidence_text: Seq<char>,
    claim: ClaimRevisionHeaderModel,
    proposition: Seq<char>,
    relation: SemanticRelationRevisionHeaderModel,
    after: StoreModel,
)
    requires
        ({
            let made = s.with_evidence(evidence, evidence_text).with_claim(claim, proposition).with_relation(
                relation,
                None,
            );
            same_standings(made, after) && same_payloads(made, after)
        }),
    ensures
        lookup(after.evidence, evidence.id) == Some(evidence),
        lookup(after.heads, RecordRef::Evidence(evidence.id)) == Some(1u64),
        lookup(after.heads, RecordRef::Claim(claim.id)) == Some(1u64),
        lookup(after.heads, RecordRef::SemanticRelation(relation.id)) == Some(1u64),
        lookup(after.evidence_availability, revision_of(evidence.id.0, 1)) == Some(
            EvidenceAvailabilityRevision {
                evidence_id: evidence.id,
                revision: 1,
                state: RecordState::Active,
                recorded_at_ms: evidence.recorded_at_ms,
                operation_id: evidence.operation_id,
            },
        ),
        lookup(after.claims, revision_of(claim.id.0, 1)) == Some(claim),
        lookup(after.relations, revision_of(relation.id.0, 1)) == Some(relation),
        lookup(after.texts, RecordRef::Evidence(evidence.id)) == Some(evidence_text),
        lookup(after.texts, RecordRef::Claim(claim.id)) == Some(proposition),
{
    broadcast use {indexing_aside, support_aside};

    broadcast use crate::writing::parts_after_put;
    reveal(StoreModel::with_evidence);
    reveal(StoreModel::with_claim);
    reveal(StoreModel::with_relation);
}

/// A correction reads back: the replacement, in the place of the claim it supersedes, and,
/// to the letter, the assertion that it rests on.
pub proof fn corrected_claims_read_back(
    s: StoreModel,
    operation: OperationContext,
    input: CorrectUserClaimModel,
    request: Seq<u8>,
    fresh: FreshModel,
    after: StoreModel,
    receipt: CorrectionReceiptModel,
    wanted: CorrectUserClaimModel,
    current: ClaimRevisionHeaderModel,
)
    requires
        s.correct_user_claim(operation, input, request, fresh) == MemoryResult::Ok((after, receipt)),
        StoreModel::correct_request(operation.actor, input) == MemoryResult::Ok(wanted),
        s.correctable(operation.actor, input.target, input.expected_revision) == MemoryResult::Ok(current),
        !s.operations.contains_key(operation.id),
    ensures
        match after.inspect_evidence(receipt.evidence.id) {
            Ok(Some(found)) => found.text == Some(input.evidence_text) && found.availability.state
                == RecordState::Active && found.header.class == EvidenceClass::UserCorrection
                && found.header.scope == current.scope && found.header.temporal == wanted.temporal,
            _ => false,
        },
        match after.inspect_claim(receipt.replacement.id) {
            Ok(Some(found)) => found.proposition == Some(wanted.replacement_proposition) && found.header.state
                == RecordState::Active && found.header.evidence_ids == seq![receipt.evidence.id]
                && found.header.domain == current.domain && found.header.scope == current.scope
                && found.header.temporal == wanted.temporal,
            _ => false,
        },
        match after.inspect_semantic_relation(receipt.supersedes_relation.id) {
            Ok(Some(found)) => found.header.from == RecordRef::Claim(receipt.replacement.id) && found.header.to
                == RecordRef::Claim(input.target) && found.header.kind == RelationKind::Supersedes
                && found.header.state == RecordState::Active,
            _ => false,
        },
{
    let (reached, _, _) = correction_is_made(
        s,
        operation,
        input,
        request,
        fresh,
        after,
        receipt,
        wanted,
        current,
    );
    let (evidence, replacement, supersedes) = correction(operation, wanted, current, fresh);
    created_read_back(
        reached,
        evidence,
        wanted.evidence_text,
        replacement,
        wanted.replacement_proposition,
        supersedes,
        after,
    );
    reveal(StoreModel::correct_request);
    reveal(StoreModel::inspect_evidence);
    reveal(StoreModel::evidence_at);
    reveal(StoreModel::inspect_claim);
    reveal(StoreModel::claim_at);
    reveal(StoreModel::inspect_semantic_relation);
    reveal(StoreModel::relation_at);
    reveal(StoreModel::text_unless_purged);
}

/// A record that moves to its next revision and leaves the index stands there, and every
/// other record stands where it stood.
pub proof fn moved_stands(
    committed: StoreModel,
    staged: StoreModel,
    record: RecordRef,
    expected_revision: u64,
    state: RecordState,
    operation_id: OperationId,
    recorded_at_ms: i64,
)
    requires
        committed.appended(staged, record, expected_revision, state, operation_id, recorded_at_ms) is Ok,
        same_ground(committed, staged),
    ensures
        ({
            let (moved, revision) = committed.appended(
                staged,
                record,
                expected_revision,
                state,
                operation_id,
                recorded_at_ms,
            )->Ok_0;
            let after = moved.unindexed(committed, record);
            &&& committed.standing(record) is Ok
            &&& revision == (RecordRevision { record, revision: (expected_revision + 1) as u64, state })
            &&& same_ground(committed, after)
            &&& after.standing(record) == MemoryResult::Ok(
                (committed.standing(record)->Ok_0.0, state, (expected_revision + 1) as u64),
            )
            &&& forall|r: RecordRef| r != record ==> #[trigger] after.standing(r) == staged.standing(r)
        }),
{
    let moved = committed.appended(staged, record, expected_revision, state, operation_id, recorded_at_ms)->Ok_0.0;
    let after = moved.unindexed(committed, record);
    appended_stands(committed, staged, record, expected_revision, state, operation_id, recorded_at_ms);
    let other = if record == RecordRef::Evidence(EvidenceId(Ulid(0))) {
        RecordRef::Claim(ClaimId(Ulid(0)))
    } else {
        RecordRef::Evidence(EvidenceId(Ulid(0)))
    };
    appending_touches_one(committed, staged, record, expected_revision, state, operation_id, recorded_at_ms, other);
    unindexing_stands(moved, committed, record);
    same_standings_stand(moved, after, record);
    assert forall|r: RecordRef| r != record implies #[trigger] after.standing(r) == staged.standing(r) by {
        appending_touches_one(committed, staged, record, expected_revision, state, operation_id, recorded_at_ms, r);
        same_record_stands(staged, moved, r);
        same_standings_stand(moved, after, r);
    }
}

/// A new claim stands as it was made, and every other record where it stood.
pub proof fn new_claim_stands(s: StoreModel, header: ClaimRevisionHeaderModel, proposition: Seq<char>)
    requires
        header.revision == 1,
    ensures
        same_ground(s, s.with_claim(header, proposition)),
        s.with_claim(header, proposition).standing(RecordRef::Claim(header.id)) == MemoryResult::Ok(
            (header.scope, header.state, 1u64),
        ),
        forall|r: RecordRef|
            r != RecordRef::Claim(header.id) ==> #[trigger] s.with_claim(header, proposition).standing(r) == s.standing(r),
{
    broadcast use {indexing_aside, support_aside};

    let after = s.with_claim(header, proposition);
    broadcast use crate::writing::parts_after_put;
    reveal(StoreModel::with_claim);
    standing_is_told(after, RecordRef::Claim(header.id));
    assert forall|r: RecordRef| r != RecordRef::Claim(header.id) implies #[trigger] after.standing(r) == s.standing(r) by {
        same_record_stands(s, after, r);
    }
}

/// A new entity stands as it was made, and every other record where it stood.
pub proof fn new_entity_stands(
    s: StoreModel,
    header: EntityRevisionHeaderModel,
    canonical_name: Seq<char>,
    aliases: Seq<Seq<char>>,
)
    requires
        header.revision == 1,
    ensures
        same_ground(s, s.with_entity(header, canonical_name, aliases)),
        s.with_entity(header, canonical_name, aliases).standing(RecordRef::Entity(header.id)) == MemoryResult::Ok(
            (header.scope, header.state, 1u64),
        ),
        forall|r: RecordRef|
            r != RecordRef::Entity(header.id) ==> #[trigger] s.with_entity(header, canonical_name, aliases).standing(r)
                == s.standing(r),
{
    broadcast use {indexing_aside, support_aside};

    let after = s.with_entity(header, canonical_name, aliases);
    broadcast use crate::writing::parts_after_put;
    reveal(StoreModel::with_entity);
    standing_is_told(after, RecordRef::Entity(header.id));
    assert forall|r: RecordRef| r != RecordRef::Entity(header.id) implies #[trigger] after.standing(r) == s.standing(r) by {
        same_record_stands(s, after, r);
    }
}

/// A new relation stands as it was made, and every other record where it stood.
pub proof fn new_relation_stands(
    s: StoreModel,
    header: SemanticRelationRevisionHeaderModel,
    qualifier: Option<Seq<char>>,
)
    requires
        header.revision == 1,
    ensures
        same_ground(s, s.with_relation(header, qualifier)),
        s.with_relation(header, qualifier).standing(RecordRef::SemanticRelation(header.id)) == MemoryResult::Ok(
            (header.scope, header.state, 1u64),
        ),
        forall|r: RecordRef|
            r != RecordRef::SemanticRelation(header.id) ==> #[trigger] s.with_relation(header, qualifier).standing(r)
                == s.standing(r),
{
    broadcast use {indexing_aside, support_aside};

    let after = s.with_relation(header, qualifier);
    broadcast use crate::writing::parts_after_put;
    reveal(StoreModel::with_relation);
    standing_is_told(after, RecordRef::SemanticRelation(header.id));
    assert forall|r: RecordRef| r != RecordRef::SemanticRelation(header.id) implies #[trigger] after.standing(r)
        == s.standing(r) by {
        same_record_stands(s, after, r);
    }
}

/// A proposal that is filed at a revision moves nothing but itself.
pub proof fn filed_proposal_stands(s: StoreModel, header: ProposalRevisionHeader)
    ensures
        ({
            let after = s.put(WriteModel::PutProposal(revision_of(header.id.0, header.revision), header)).put(
                WriteModel::PutHead(RecordRef::Proposal(header.id), header.revision),
            );
            &&& after.standing(RecordRef::Proposal(header.id)) == MemoryResult::Ok(
                (header.scope, header.state, header.revision),
            )
            &&& forall|r: RecordRef|
                r != RecordRef::Proposal(header.id) ==> #[trigger] after.standing(r) == s.standing(r)
        }),
{
    let after = s.put(WriteModel::PutProposal(revision_of(header.id.0, header.revision), header)).put(
        WriteModel::PutHead(RecordRef::Proposal(header.id), header.revision),
    );
    broadcast use crate::writing::parts_after_put;
    standing_is_told(after, RecordRef::Proposal(header.id));
    assert forall|r: RecordRef| r != RecordRef::Proposal(header.id) implies #[trigger] after.standing(r) == s.standing(r) by {
        same_record_stands(s, after, r);
    }
}

/// The audit and the memory of an operation move no record.
pub proof fn books_move_nothing(
    s: StoreModel,
    event: AuditEventModel,
    id: OperationId,
    digest: [u8; 32],
    receipt: ReceiptModel,
    record: RecordRef,
)
    ensures
        s.audited(event).remembered(id, digest, receipt).standing(record) == s.standing(record),
{
    broadcast use {books_stand, operations_stand};

    same_standings_stand(s, s.audited(event).remembered(id, digest, receipt), record);
}

} // verus!
