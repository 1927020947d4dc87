//! In which order things are listed and stored, told on what they hold.

use vstd::prelude::*;
use crate::bytes::bytes_before;
use crate::digest::before_orders_values;
use crate::ids::{
    ActivationTraceId, ArtifactCollectionId, ArtifactPassageId, ArtifactSnapshotId, AuditEventId,
    ClaimId, EntityId, EraId, EvidenceId, OperationId, ProposalDraftId, ProposalId,
    ProposalReviewCaseId, ProposalSourceJobId, RecallCaseId, RecallFeedbackId,
    RelationEvaluatorId, RelationId, RelationProfileId, RelationSignalId, Ulid,
};
use crate::keybytes::record_bytes;
use crate::keys::{
    AuditKey, DependencyKey, OrdinalKey, OwnerIndexKey, PairKey, PostingKey, RecordIndexKey,
    RevisionKey, TimeKey, digest_rank_fits, storage_rank, storage_rank_fits,
    storage_rank_is_injective,
};
use crate::order::Keyed;
use crate::records::evidence::{RecordRef, Scope};
use crate::records::recall::{EvidenceRevisionPin, RecordRevisionPin};
use crate::records::relation::{RelationDimension, RelationDimensionScore, RelationHeadWeight};

verus! {

/// Identifiers come in the order of their numbers.
pub proof fn ids_come_in_order(x: u128, y: u128)
    ensures
        Ulid(x).rank() < Ulid(y).rank() <==> x < y,
        EvidenceId(Ulid(x)).rank() < EvidenceId(Ulid(y)).rank() <==> x < y,
        ClaimId(Ulid(x)).rank() < ClaimId(Ulid(y)).rank() <==> x < y,
        EntityId(Ulid(x)).rank() < EntityId(Ulid(y)).rank() <==> x < y,
        RelationId(Ulid(x)).rank() < RelationId(Ulid(y)).rank() <==> x < y,
        ProposalId(Ulid(x)).rank() < ProposalId(Ulid(y)).rank() <==> x < y,
        ProposalDraftId(Ulid(x)).rank() < ProposalDraftId(Ulid(y)).rank() <==> x < y,
        ProposalReviewCaseId(Ulid(x)).rank() < ProposalReviewCaseId(Ulid(y)).rank() <==> x < y,
        ProposalSourceJobId(Ulid(x)).rank() < ProposalSourceJobId(Ulid(y)).rank() <==> x < y,
        RecallCaseId(Ulid(x)).rank() < RecallCaseId(Ulid(y)).rank() <==> x < y,
        RecallFeedbackId(Ulid(x)).rank() < RecallFeedbackId(Ulid(y)).rank() <==> x < y,
        AuditEventId(Ulid(x)).rank() < AuditEventId(Ulid(y)).rank() <==> x < y,
        OperationId(Ulid(x)).rank() < OperationId(Ulid(y)).rank() <==> x < y,
        EraId(Ulid(x)).rank() < EraId(Ulid(y)).rank() <==> x < y,
        ArtifactCollectionId(Ulid(x)).rank() < ArtifactCollectionId(Ulid(y)).rank() <==> x < y,
        ArtifactSnapshotId(Ulid(x)).rank() < ArtifactSnapshotId(Ulid(y)).rank() <==> x < y,
        ArtifactPassageId(Ulid(x)).rank() < ArtifactPassageId(Ulid(y)).rank() <==> x < y,
        RelationEvaluatorId(Ulid(x)).rank() < RelationEvaluatorId(Ulid(y)).rank() <==> x < y,
        RelationProfileId(Ulid(x)).rank() < RelationProfileId(Ulid(y)).rank() <==> x < y,
        RelationSignalId(Ulid(x)).rank() < RelationSignalId(Ulid(y)).rank() <==> x < y,
        ActivationTraceId(Ulid(x)).rank() < ActivationTraceId(Ulid(y)).rank() <==> x < y,
{
}

/// The place of a record's kind among the stored ones.
pub open spec fn kind_stored_at(record: RecordRef) -> int {
    match record {
        RecordRef::Evidence(_) => 1,
        RecordRef::Claim(_) => 2,
        RecordRef::SemanticRelation(_) => 3,
        RecordRef::Entity(_) => 4,
        RecordRef::Proposal(_) => 5,
        RecordRef::ProposalReview(_) => 6,
        RecordRef::ArtifactCollection(_) => 7,
        RecordRef::ArtifactSnapshot(_) => 8,
        RecordRef::ArtifactPassage(_) => 9,
    }
}

/// The number of a record among those of its kind.
pub open spec fn number_of(record: RecordRef) -> u128 {
    match record {
        RecordRef::Evidence(id) => id.0.0,
        RecordRef::Claim(id) => id.0.0,
        RecordRef::Entity(id) => id.0.0,
        RecordRef::SemanticRelation(id) => id.0.0,
        RecordRef::Proposal(id) => id.0.0,
        RecordRef::ProposalReview(id) => id.0.0,
        RecordRef::ArtifactCollection(id) => id.0.0,
        RecordRef::ArtifactSnapshot(id) => id.0.0,
        RecordRef::ArtifactPassage(id) => id.0.0,
    }
}

/// Whether a record is stored before another: by its kind and then by its number.
pub open spec fn stored_earlier(a: RecordRef, b: RecordRef) -> bool {
    kind_stored_at(a) < kind_stored_at(b) || (kind_stored_at(a) == kind_stored_at(b) && number_of(a) < number_of(b))
}

/// Records are stored by their kinds and then by their numbers, and a stored key of a
/// record starts with the byte of its kind.
pub proof fn records_are_stored_in_order(a: RecordRef, b: RecordRef)
    ensures
        storage_rank(a) < storage_rank(b) <==> stored_earlier(a, b),
        storage_rank(a) == storage_rank(b) <==> a == b,
        record_bytes(a)[0] == kind_stored_at(a),
{
    if storage_rank(a) == storage_rank(b) {
        storage_rank_is_injective(a, b);
    }
}

/// Revisions come by their records and then in their order; what is owned comes by its
/// owner and then by its number; and passages come by their snapshots and then by their
/// places.
pub proof fn numbered_keys_come_in_order(
    a: RevisionKey,
    b: RevisionKey,
    c: OwnerIndexKey,
    d: OwnerIndexKey,
    e: OrdinalKey,
    f: OrdinalKey,
)
    ensures
        a.rank() < b.rank() <==> a.id.0 < b.id.0 || (a.id == b.id && a.revision < b.revision),
        c.rank() < d.rank() <==> c.owner.0 < d.owner.0 || (c.owner == d.owner && c.id.0 < d.id.0),
        e.rank() < f.rank() <==> e.snapshot.0.0 < f.snapshot.0.0 || (e.snapshot == f.snapshot && e.ordinal
            < f.ordinal),
{
}

/// What is filed under a record comes by the record as records are stored, and then by
/// what is filed.
pub proof fn filed_keys_come_in_order(
    a: RecordIndexKey,
    b: RecordIndexKey,
    c: DependencyKey,
    d: DependencyKey,
    e: PairKey,
    f: PairKey,
)
    ensures
        a.rank() < b.rank() <==> stored_earlier(a.record, b.record) || (a.record == b.record && a.id.0 < b.id.0),
        c.rank() < d.rank() <==> stored_earlier(c.source, d.source) || (c.source == d.source && stored_earlier(
            c.dependent,
            d.dependent,
        )),
        e.rank() < f.rank() <==> e.profile.0.0 < f.profile.0.0 || (e.profile == f.profile && (stored_earlier(
            e.from,
            f.from,
        ) || (e.from == f.from && stored_earlier(e.to, f.to)))),
{
    records_are_stored_in_order(a.record, b.record);
    records_are_stored_in_order(c.source, d.source);
    records_are_stored_in_order(c.dependent, d.dependent);
    records_are_stored_in_order(e.from, f.from);
    records_are_stored_in_order(e.to, f.to);
    storage_rank_fits(c.dependent);
    storage_rank_fits(d.dependent);
    storage_rank_fits(e.from);
    storage_rank_fits(f.from);
    storage_rank_fits(e.to);
    storage_rank_fits(f.to);
}

/// What was observed comes earliest first, and what was observed together as records are
/// stored; what is posted comes by its domain, then by its digest, and then as records are
/// stored; and events come earliest first, and those of one instant by their numbers.
pub proof fn timed_keys_come_in_order(a: TimeKey, b: TimeKey, c: PostingKey, d: PostingKey, e: AuditKey, f: AuditKey)
    ensures
        a.rank() < b.rank() <==> a.observed_at_ms < b.observed_at_ms || (a.observed_at_ms == b.observed_at_ms
            && stored_earlier(a.record, b.record)),
        c.rank() < d.rank() <==> c.domain < d.domain || (c.domain == d.domain && (c.hash.rank() < d.hash.rank() || (
        c.hash.rank() == d.hash.rank() && stored_earlier(c.record, d.record)))),
        e.rank() < f.rank() <==> e.recorded_at_ms < f.recorded_at_ms || (e.recorded_at_ms == f.recorded_at_ms
            && e.id.0.0 < f.id.0.0),
{
    records_are_stored_in_order(a.record, b.record);
    records_are_stored_in_order(c.record, d.record);
    storage_rank_fits(a.record);
    storage_rank_fits(b.record);
    storage_rank_fits(c.record);
    storage_rank_fits(d.record);
    digest_rank_fits(c.hash);
    digest_rank_fits(d.hash);
}

/// Of two digests the one comes first that has the lesser byte where they first differ.
pub proof fn digests_come_in_order(a: [u8; 32], b: [u8; 32], k: int)
    requires
        0 <= k < 32,
        forall|i: int| 0 <= i < k ==> a@[i] == b@[i],
        a@[k] < b@[k],
    ensures
        a.rank() < b.rank(),
{
    assert(a@.take(k) =~= b@.take(k));
    assert(bytes_before(a@, b@));
    before_orders_values(a@, b@);
}

/// The place of a scope's kind.
pub open spec fn scope_listed_at(scope: Scope) -> (int, u128) {
    match scope {
        Scope::Personal => (0, 0),
        Scope::Workspace(id) => (1, id.0),
        Scope::Session(id) => (2, id.0),
        Scope::Artifact(id) => (3, id.0),
        Scope::System => (4, 0),
    }
}

/// Scopes are listed with the personal one first, then workspaces, sessions and artifacts,
/// each by their numbers, and the one of the system last.
pub proof fn scopes_come_in_order(a: Scope, b: Scope)
    ensures
        a.rank() < b.rank() <==> scope_listed_at(a).0 < scope_listed_at(b).0 || (scope_listed_at(a).0
            == scope_listed_at(b).0 && scope_listed_at(a).1 < scope_listed_at(b).1),
{
}

/// Pins are listed by what they pin, and then by the revision.
pub proof fn pins_come_in_order(
    a: RecordRevisionPin,
    b: RecordRevisionPin,
    c: EvidenceRevisionPin,
    d: EvidenceRevisionPin,
)
    ensures
        a.rank() < b.rank() <==> a.record.rank() < b.record.rank() || (a.record == b.record && a.revision < b.revision),
        c.rank() < d.rank() <==> c.id.0.0 < d.id.0.0 || (c.id == d.id && c.revision < d.revision),
{
    if a.record.rank() == b.record.rank() {
        RecordRef::rank_is_injective(&a.record, &b.record);
    }
}

/// What stands for a dimension in the order of dimensions.
pub open spec fn dimension_listed_at(dimension: RelationDimension) -> int {
    match dimension {
        RelationDimension::Support => 0,
        RelationDimension::Contradiction => 1,
        RelationDimension::Supersession => 2,
        RelationDimension::EntityIdentity => 3,
        RelationDimension::TemporalRelevance => 4,
        RelationDimension::TaskRelevance => 5,
    }
}

/// Weights and scores are listed by their dimensions.
pub proof fn dimensions_come_in_order(
    a: RelationHeadWeight,
    b: RelationHeadWeight,
    c: RelationDimensionScore,
    d: RelationDimensionScore,
)
    ensures
        a.dimension.rank() < b.dimension.rank() <==> dimension_listed_at(a.dimension) < dimension_listed_at(
            b.dimension,
        ),
        a.rank() < b.rank() <==> dimension_listed_at(a.dimension) < dimension_listed_at(b.dimension) || (a.dimension
            == b.dimension && a.weight_micros < b.weight_micros),
        c.rank() < d.rank() <==> dimension_listed_at(c.dimension) < dimension_listed_at(d.dimension) || (c.dimension
            == d.dimension && c.score_micros < d.score_micros),
{
}

} // verus!
