//! Keys of the stored records: their order and their byte form.
use vstd::prelude::*;
use crate::bytes::{be_of_be_value, span, span_values};
use crate::ids::{
    ArtifactPassageId, ArtifactSnapshotId, AuditEventId, EvidenceId, RelationProfileId, Ulid,
};
use crate::order::Keyed;
use crate::records::evidence::RecordRef;

verus! {

/// The number of identifiers.
pub open spec fn id_span() -> int {
    0x1_0000_0000_0000_0000_0000_0000_0000_0000int
}

/// The number of revisions, and of instants.
pub open spec fn word_span() -> int {
    0x1_0000_0000_0000_0000int
}

/// The number of record keys.
pub open spec fn record_span() -> int {
    0x100_0000_0000_0000_0000_0000_0000_0000_0000int
}

/// The number of digests.
pub open spec fn digest_span() -> int {
    0x1_0000_0000_0000_0000_0000_0000_0000_0000_0000_0000_0000_0000_0000_0000_0000_0000int
}

/// The identifier inside a record reference.
pub open spec fn record_id(record: RecordRef) -> Ulid {
    match record {
        RecordRef::Evidence(id) => id.0,
        RecordRef::Claim(id) => id.0,
        RecordRef::Entity(id) => id.0,
        RecordRef::SemanticRelation(id) => id.0,
        RecordRef::Proposal(id) => id.0,
        RecordRef::ProposalReview(id) => id.0,
        RecordRef::ArtifactCollection(id) => id.0,
        RecordRef::ArtifactSnapshot(id) => id.0,
        RecordRef::ArtifactPassage(id) => id.0,
    }
}

pub fn id_of(record: RecordRef) -> (r: Ulid)
    ensures
        r == record_id(record),
{
    match record {
        RecordRef::Evidence(id) => id.0,
        RecordRef::Claim(id) => id.0,
        RecordRef::Entity(id) => id.0,
        RecordRef::SemanticRelation(id) => id.0,
        RecordRef::Proposal(id) => id.0,
        RecordRef::ProposalReview(id) => id.0,
        RecordRef::ArtifactCollection(id) => id.0,
        RecordRef::ArtifactSnapshot(id) => id.0,
        RecordRef::ArtifactPassage(id) => id.0,
    }
}

/// The place of a record's kind in the order in which records are listed.
pub open spec fn listing_tag(record: RecordRef) -> u8 {
    match record {
        RecordRef::Evidence(_) => 0,
        RecordRef::Claim(_) => 1,
        RecordRef::Entity(_) => 2,
        RecordRef::SemanticRelation(_) => 3,
        RecordRef::Proposal(_) => 4,
        RecordRef::ProposalReview(_) => 5,
        RecordRef::ArtifactCollection(_) => 6,
        RecordRef::ArtifactSnapshot(_) => 7,
        RecordRef::ArtifactPassage(_) => 8,
    }
}

fn listing_tag_of(record: RecordRef) -> (r: u8)
    ensures
        r == listing_tag(record),
{
    match record {
        RecordRef::Evidence(_) => 0,
        RecordRef::Claim(_) => 1,
        RecordRef::Entity(_) => 2,
        RecordRef::SemanticRelation(_) => 3,
        RecordRef::Proposal(_) => 4,
        RecordRef::ProposalReview(_) => 5,
        RecordRef::ArtifactCollection(_) => 6,
        RecordRef::ArtifactSnapshot(_) => 7,
        RecordRef::ArtifactPassage(_) => 8,
    }
}

/// The byte that stands for a record's kind in a key.
pub open spec fn record_tag(record: RecordRef) -> u8 {
    match record {
        RecordRef::Evidence(_) => 0x01,
        RecordRef::Claim(_) => 0x02,
        RecordRef::SemanticRelation(_) => 0x03,
        RecordRef::Entity(_) => 0x04,
        RecordRef::Proposal(_) => 0x05,
        RecordRef::ProposalReview(_) => 0x06,
        RecordRef::ArtifactCollection(_) => 0x07,
        RecordRef::ArtifactSnapshot(_) => 0x08,
        RecordRef::ArtifactPassage(_) => 0x09,
    }
}

pub fn tag_of(record: RecordRef) -> (r: u8)
    ensures
        r == record_tag(record),
{
    match record {
        RecordRef::Evidence(_) => 0x01,
        RecordRef::Claim(_) => 0x02,
        RecordRef::SemanticRelation(_) => 0x03,
        RecordRef::Entity(_) => 0x04,
        RecordRef::Proposal(_) => 0x05,
        RecordRef::ProposalReview(_) => 0x06,
        RecordRef::ArtifactCollection(_) => 0x07,
        RecordRef::ArtifactSnapshot(_) => 0x08,
        RecordRef::ArtifactPassage(_) => 0x09,
    }
}

/// Records are listed by kind, then by identifier.
impl Keyed for RecordRef {
    open spec fn rank(&self) -> int {
        listing_tag(*self) * id_span() + record_id(*self).0
    }

    proof fn rank_is_injective(a: &Self, b: &Self) {
    }

    fn before(&self, other: &Self) -> (r: bool) {
        let a: u8 = listing_tag_of(*self);
        let b: u8 = listing_tag_of(*other);
        if a < b {
            true
        } else if b < a {
            false
        } else {
            id_of(*self).0 < id_of(*other).0
        }
    }
}

/// The place of a record in the order in which keys are stored.
pub open spec fn storage_rank(record: RecordRef) -> int {
    record_tag(record) * id_span() + record_id(record).0
}

pub proof fn storage_rank_is_injective(a: RecordRef, b: RecordRef)
    requires
        storage_rank(a) == storage_rank(b),
    ensures
        a == b,
{
}

pub proof fn storage_rank_fits(a: RecordRef)
    ensures
        0 <= storage_rank(a) < record_span(),
{
}

pub fn stored_before(a: RecordRef, b: RecordRef) -> (r: bool)
    ensures
        r == (storage_rank(a) < storage_rank(b)),
{
    let x: u8 = tag_of(a);
    let y: u8 = tag_of(b);
    if x < y {
        true
    } else if y < x {
        false
    } else {
        id_of(a).0 < id_of(b).0
    }
}

/// A number below a span, put behind another, tells the two apart.
proof fn split_is_unique(span: int, high: int, low: int, other_high: int, other_low: int)
    by (nonlinear_arith)
    requires
        0 <= low < span,
        0 <= other_low < span,
        high * span + low == other_high * span + other_low,
    ensures
        high == other_high,
        low == other_low,
{
}

/// The first record in storage order.
pub open spec fn first_record() -> RecordRef {
    RecordRef::Evidence(EvidenceId(Ulid(0)))
}

/// The last record in storage order.
pub open spec fn last_record() -> RecordRef {
    RecordRef::ArtifactPassage(ArtifactPassageId(Ulid(u128::MAX)))
}

/// A revision of the record with an identifier.
#[derive(Clone, Copy, Debug, PartialEq, Eq, Structural)]
pub struct RevisionKey {
    pub id: Ulid,
    pub revision: u64,
}

impl Keyed for RevisionKey {
    open spec fn rank(&self) -> int {
        self.id.0 * word_span() + self.revision
    }

    proof fn rank_is_injective(a: &Self, b: &Self) {
    }

    fn before(&self, other: &Self) -> (r: bool) {
        if self.id.0 < other.id.0 {
            true
        } else if other.id.0 < self.id.0 {
            false
        } else {
            self.revision < other.revision
        }
    }
}

/// A record, and a record that depends on it.
#[derive(Clone, Copy, Debug, PartialEq, Eq, Structural)]
pub struct DependencyKey {
    pub source: RecordRef,
    pub dependent: RecordRef,
}

impl Keyed for DependencyKey {
    open spec fn rank(&self) -> int {
        storage_rank(self.source) * record_span() + storage_rank(self.dependent)
    }

    proof fn rank_is_injective(a: &Self, b: &Self) {
        storage_rank_fits(a.source);
        storage_rank_fits(a.dependent);
        storage_rank_fits(b.source);
        storage_rank_fits(b.dependent);
        split_is_unique(
            record_span(),
            storage_rank(a.source),
            storage_rank(a.dependent),
            storage_rank(b.source),
            storage_rank(b.dependent),
        );
        storage_rank_is_injective(a.source, b.source);
        storage_rank_is_injective(a.dependent, b.dependent);
    }

    fn before(&self, other: &Self) -> (r: bool) {
        proof {
            storage_rank_fits(self.dependent);
            storage_rank_fits(other.dependent);
        }
        if stored_before(self.source, other.source) {
            true
        } else if stored_before(other.source, self.source) {
            false
        } else {
            stored_before(self.dependent, other.dependent)
        }
    }
}

/// A passage of a snapshot by its ordinal.
#[derive(Clone, Copy, Debug, PartialEq, Eq, Structural)]
pub struct OrdinalKey {
    pub snapshot: ArtifactSnapshotId,
    pub ordinal: u32,
}

impl Keyed for OrdinalKey {
    open spec fn rank(&self) -> int {
        self.snapshot.0.0 * 0x1_0000_0000 + self.ordinal
    }

    proof fn rank_is_injective(a: &Self, b: &Self) {
    }

    fn before(&self, other: &Self) -> (r: bool) {
        if self.snapshot.0.0 < other.snapshot.0.0 {
            true
        } else if other.snapshot.0.0 < self.snapshot.0.0 {
            false
        } else {
            self.ordinal < other.ordinal
        }
    }
}

/// A directed pair of records under one relation profile.
#[derive(Clone, Copy, Debug, PartialEq, Eq, Structural)]
pub struct PairKey {
    pub profile: RelationProfileId,
    pub from: RecordRef,
    pub to: RecordRef,
}

impl Keyed for PairKey {
    open spec fn rank(&self) -> int {
        (self.profile.0.0 * record_span() + storage_rank(self.from)) * record_span() + storage_rank(self.to)
    }

    proof fn rank_is_injective(a: &Self, b: &Self) {
        storage_rank_fits(a.from);
        storage_rank_fits(a.to);
        storage_rank_fits(b.from);
        storage_rank_fits(b.to);
        let span = record_span();
        split_is_unique(
            span,
            a.profile.0.0 * span + storage_rank(a.from),
            storage_rank(a.to),
            b.profile.0.0 * span + storage_rank(b.from),
            storage_rank(b.to),
        );
        split_is_unique(
            span,
            a.profile.0.0 as int,
            storage_rank(a.from),
            b.profile.0.0 as int,
            storage_rank(b.from),
        );
        storage_rank_is_injective(a.from, b.from);
        storage_rank_is_injective(a.to, b.to);
    }

    fn before(&self, other: &Self) -> (r: bool) {
        proof {
            storage_rank_fits(self.from);
            storage_rank_fits(self.to);
            storage_rank_fits(other.from);
            storage_rank_fits(other.to);
        }
        if self.profile.0.0 < other.profile.0.0 {
            true
        } else if other.profile.0.0 < self.profile.0.0 {
            false
        } else if stored_before(self.from, other.from) {
            true
        } else if stored_before(other.from, self.from) {
            false
        } else {
            stored_before(self.to, other.to)
        }
    }
}

/// Something derived, filed under a record that it rests on.
#[derive(Clone, Copy, Debug, PartialEq, Eq, Structural)]
pub struct RecordIndexKey {
    pub record: RecordRef,
    pub id: Ulid,
}

impl Keyed for RecordIndexKey {
    open spec fn rank(&self) -> int {
        storage_rank(self.record) * id_span() + self.id.0
    }

    proof fn rank_is_injective(a: &Self, b: &Self) {
        storage_rank_is_injective(a.record, b.record);
    }

    fn before(&self, other: &Self) -> (r: bool) {
        if stored_before(self.record, other.record) {
            true
        } else if stored_before(other.record, self.record) {
            false
        } else {
            self.id.0 < other.id.0
        }
    }
}

/// Something derived, filed under the evaluator or profile that it rests on.
#[derive(Clone, Copy, Debug, PartialEq, Eq, Structural)]
pub struct OwnerIndexKey {
    pub owner: Ulid,
    pub id: Ulid,
}

impl Keyed for OwnerIndexKey {
    open spec fn rank(&self) -> int {
        self.owner.0 * id_span() + self.id.0
    }

    proof fn rank_is_injective(a: &Self, b: &Self) {
    }

    fn before(&self, other: &Self) -> (r: bool) {
        if self.owner.0 < other.owner.0 {
            true
        } else if other.owner.0 < self.owner.0 {
            false
        } else {
            self.id.0 < other.id.0
        }
    }
}

/// A record, filed under the digest of a term or of its exact form.
#[derive(Clone, Copy, Debug, PartialEq, Eq)]
pub struct PostingKey {
    pub domain: u8,
    pub hash: [u8; 32],
    pub record: RecordRef,
}

pub proof fn digest_rank_fits(hash: [u8; 32])
    ensures
        0 <= hash.rank() < digest_span(),
{
    be_of_be_value(hash@);
    span_values();
    reveal_with_fuel(span, 33);
}

impl Keyed for PostingKey {
    open spec fn rank(&self) -> int {
        (self.domain * digest_span() + self.hash.rank()) * record_span() + storage_rank(self.record)
    }

    proof fn rank_is_injective(a: &Self, b: &Self) {
        storage_rank_fits(a.record);
        storage_rank_fits(b.record);
        digest_rank_fits(a.hash);
        digest_rank_fits(b.hash);
        <[u8; 32]>::rank_is_injective(&a.hash, &b.hash);
        storage_rank_is_injective(a.record, b.record);
    }

    fn before(&self, other: &Self) -> (r: bool) {
        proof {
            storage_rank_fits(self.record);
            storage_rank_fits(other.record);
            digest_rank_fits(self.hash);
            digest_rank_fits(other.hash);
        }
        if self.domain < other.domain {
            true
        } else if other.domain < self.domain {
            false
        } else if self.hash.before(&other.hash) {
            true
        } else if other.hash.before(&self.hash) {
            false
        } else {
            stored_before(self.record, other.record)
        }
    }
}

/// A record, filed under the instant at which it was observed.
#[derive(Clone, Copy, Debug, PartialEq, Eq, Structural)]
pub struct TimeKey {
    pub observed_at_ms: i64,
    pub record: RecordRef,
}

/// An instant counted from the earliest one.
pub open spec fn time_rank(timestamp_ms: i64) -> int {
    timestamp_ms + 0x8000_0000_0000_0000int
}

impl Keyed for TimeKey {
    open spec fn rank(&self) -> int {
        time_rank(self.observed_at_ms) * record_span() + storage_rank(self.record)
    }

    proof fn rank_is_injective(a: &Self, b: &Self) {
        storage_rank_fits(a.record);
        storage_rank_fits(b.record);
        storage_rank_is_injective(a.record, b.record);
    }

    fn before(&self, other: &Self) -> (r: bool) {
        proof {
            storage_rank_fits(self.record);
            storage_rank_fits(other.record);
        }
        if self.observed_at_ms < other.observed_at_ms {
            true
        } else if other.observed_at_ms < self.observed_at_ms {
            false
        } else {
            stored_before(self.record, other.record)
        }
    }
}

/// An audit event by when it was recorded.
#[derive(Clone, Copy, Debug, PartialEq, Eq, Structural)]
pub struct AuditKey {
    pub recorded_at_ms: i64,
    pub id: AuditEventId,
}

impl Keyed for AuditKey {
    open spec fn rank(&self) -> int {
        time_rank(self.recorded_at_ms) * id_span() + self.id.0.0
    }

    proof fn rank_is_injective(a: &Self, b: &Self) {
    }

    fn before(&self, other: &Self) -> (r: bool) {
        if self.recorded_at_ms < other.recorded_at_ms {
            true
        } else if other.recorded_at_ms < self.recorded_at_ms {
            false
        } else {
            self.id.0.0 < other.id.0.0
        }
    }
}

} // verus!
