//! The byte form of every key, and what it preserves.
use vstd::prelude::*;
use crate::bytes::{
    append_bytes, be, be_bytes, be_len, be_number, be_of_be_value, be_value, be_value_of_be,
    be_value_orders, bytes_before, parts_agree, span, span_values,
};
use crate::fault::{CorruptFault, KeyUse, MemoryError, MemoryResult, corrupt};
use crate::ids::{
    ActivationTraceId, ArtifactCollectionId, ArtifactPassageId, ArtifactSnapshotId, AuditEventId,
    ClaimId, EntityId, EvidenceId, ProposalId, ProposalReviewCaseId, RelationId,
    RelationProfileId, RelationSignalId, Ulid,
};
use crate::keys::{
    AuditKey, DependencyKey, OrdinalKey, OwnerIndexKey, PairKey, PostingKey, RecordIndexKey,
    RevisionKey, TimeKey, id_of, id_span, record_id, record_span, record_tag, storage_rank,
    storage_rank_is_injective, tag_of, time_rank,
};
use crate::order::Keyed;
use crate::records::audit::AuditEvent;
use crate::records::evidence::RecordRef;

verus! {

pub open spec fn id_bytes(id: Ulid) -> Seq<u8> {
    be(id.0 as int, 16)
}

pub fn id_key(id: Ulid) -> (r: Vec<u8>)
    ensures
        r@ == id_bytes(id),
{
    be_bytes(id.0, 16)
}

/// Reads an identifier back. Anything but sixteen bytes is refused.
pub fn ulid_from_id_key(key: &[u8]) -> (r: MemoryResult<Ulid>)
    ensures
        r == (if key@.len() == 16 {
            Ok(Ulid(be_value(key@) as u128))
        } else {
            corrupt(CorruptFault::IdKey)
        }),
{
    if key.len() != 16 {
        return Err(MemoryError::Corrupt(CorruptFault::IdKey));
    }
    Ok(Ulid(be_number(key)))
}

/// An identifier survives its byte form.
pub proof fn id_key_round_trip(id: Ulid)
    ensures
        id_bytes(id).len() == 16,
        Ulid(be_value(id_bytes(id)) as u128) == id,
{
    span_values();
    be_len(id.0 as int, 16);
    be_value_of_be(id.0 as int, 16);
}

/// Reads a revision or a head back. Anything but eight bytes is refused.
pub fn decode_u64(bytes: &[u8]) -> (r: MemoryResult<u64>)
    ensures
        r == (if bytes@.len() == 8 {
            Ok(be_value(bytes@) as u64)
        } else {
            corrupt(CorruptFault::IntegerWidth)
        }),
{
    if bytes.len() != 8 {
        return Err(MemoryError::Corrupt(CorruptFault::IntegerWidth));
    }
    proof {
        be_of_be_value(bytes@);
        span_values();
    }
    Ok(be_number(bytes) as u64)
}

pub fn encode_u64(value: u64) -> (r: Vec<u8>)
    ensures
        r@ == be(value as int, 8),
{
    be_bytes(value as u128, 8)
}

/// A number survives its byte form.
pub proof fn u64_round_trip(value: u64)
    ensures
        be(value as int, 8).len() == 8,
        be_value(be(value as int, 8)) as u64 == value,
{
    span_values();
    be_len(value as int, 8);
    be_value_of_be(value as int, 8);
}

pub open spec fn revision_bytes(id: Ulid, revision: u64) -> Seq<u8> {
    id_bytes(id) + be(revision as int, 8)
}

pub fn revision_key(id: Ulid, revision: u64) -> (r: Vec<u8>)
    ensures
        r@ == revision_bytes(id, revision),
{
    let mut key = id_key(id);
    append_bytes(&mut key, be_bytes(revision as u128, 8).as_slice());
    key
}

pub open spec fn ordinal_bytes(snapshot_id: ArtifactSnapshotId, ordinal: u32) -> Seq<u8> {
    id_bytes(snapshot_id.0) + be(ordinal as int, 4)
}

pub fn artifact_passage_ordinal_key(snapshot_id: ArtifactSnapshotId, ordinal: u32) -> (r: Vec<u8>)
    ensures
        r@ == ordinal_bytes(snapshot_id, ordinal),
{
    let mut key = id_key(snapshot_id.0);
    append_bytes(&mut key, be_bytes(ordinal as u128, 4).as_slice());
    key
}

pub open spec fn record_bytes(record: RecordRef) -> Seq<u8> {
    seq![record_tag(record)] + id_bytes(record_id(record))
}

pub fn record_key(record: RecordRef) -> (r: Vec<u8>)
    ensures
        r@ == record_bytes(record),
{
    let mut key: Vec<u8> = Vec::new();
    key.push(tag_of(record));
    append_bytes(&mut key, id_key(id_of(record)).as_slice());
    assert(key@ =~= record_bytes(record));
    key
}

/// The record that a tag and an identifier stand for.
pub open spec fn tagged_record(tag: u8, id: Ulid) -> Option<RecordRef> {
    if tag == 0x01 {
        Some(RecordRef::Evidence(EvidenceId(id)))
    } else if tag == 0x02 {
        Some(RecordRef::Claim(ClaimId(id)))
    } else if tag == 0x03 {
        Some(RecordRef::SemanticRelation(RelationId(id)))
    } else if tag == 0x04 {
        Some(RecordRef::Entity(EntityId(id)))
    } else if tag == 0x05 {
        Some(RecordRef::Proposal(ProposalId(id)))
    } else if tag == 0x06 {
        Some(RecordRef::ProposalReview(ProposalReviewCaseId(id)))
    } else if tag == 0x07 {
        Some(RecordRef::ArtifactCollection(ArtifactCollectionId(id)))
    } else if tag == 0x08 {
        Some(RecordRef::ArtifactSnapshot(ArtifactSnapshotId(id)))
    } else if tag == 0x09 {
        Some(RecordRef::ArtifactPassage(ArtifactPassageId(id)))
    } else {
        None
    }
}

/// What a byte string means as a record key.
pub open spec fn record_of_bytes(key: Seq<u8>) -> MemoryResult<RecordRef> {
    if key.len() != 17 {
        corrupt(CorruptFault::RecordKey)
    } else {
        match tagged_record(key[0], Ulid(be_value(key.skip(1)) as u128)) {
            Some(record) => Ok(record),
            None => corrupt(CorruptFault::RecordKeyTag),
        }
    }
}

pub fn record_from_key(key: &[u8]) -> (r: MemoryResult<RecordRef>)
    ensures
        r == record_of_bytes(key@),
{
    if key.len() != 17 {
        return Err(MemoryError::Corrupt(CorruptFault::RecordKey));
    }
    let digits = vstd::slice::slice_subrange(key, 1, 17);
    assert(digits@ =~= key@.skip(1));
    let id = Ulid(be_number(digits));
    let tag: u8 = key[0];
    if tag == 0x01 {
        Ok(RecordRef::Evidence(EvidenceId(id)))
    } else if tag == 0x02 {
        Ok(RecordRef::Claim(ClaimId(id)))
    } else if tag == 0x03 {
        Ok(RecordRef::SemanticRelation(RelationId(id)))
    } else if tag == 0x04 {
        Ok(RecordRef::Entity(EntityId(id)))
    } else if tag == 0x05 {
        Ok(RecordRef::Proposal(ProposalId(id)))
    } else if tag == 0x06 {
        Ok(RecordRef::ProposalReview(ProposalReviewCaseId(id)))
    } else if tag == 0x07 {
        Ok(RecordRef::ArtifactCollection(ArtifactCollectionId(id)))
    } else if tag == 0x08 {
        Ok(RecordRef::ArtifactSnapshot(ArtifactSnapshotId(id)))
    } else if tag == 0x09 {
        Ok(RecordRef::ArtifactPassage(ArtifactPassageId(id)))
    } else {
        Err(MemoryError::Corrupt(CorruptFault::RecordKeyTag))
    }
}

/// A record survives its byte form.
pub proof fn record_key_round_trip(record: RecordRef)
    ensures
        record_bytes(record).len() == 17,
        record_of_bytes(record_bytes(record)) == Ok::<RecordRef, MemoryError>(record),
{
    id_key_round_trip(record_id(record));
    assert(record_bytes(record).skip(1) =~= id_bytes(record_id(record)));
}

/// Every byte string that is read as a record is the key of that record.
pub proof fn record_key_is_canonical(key: Seq<u8>)
    requires
        record_of_bytes(key) is Ok,
    ensures
        record_bytes(record_of_bytes(key)->Ok_0) == key,
{
    be_of_be_value(key.skip(1));
    span_values();
    assert(key =~= seq![key[0]] + key.skip(1));
}

pub fn payload_key(record: RecordRef) -> (r: Vec<u8>)
    ensures
        r@ == record_bytes(record),
{
    record_key(record)
}

pub open spec fn pair_bytes(profile_id: RelationProfileId, from: RecordRef, to: RecordRef) -> Seq<u8> {
    id_bytes(profile_id.0) + record_bytes(from) + record_bytes(to)
}

pub fn relation_signal_pair_key(profile_id: RelationProfileId, from: RecordRef, to: RecordRef) -> (r: Vec<
    u8,
>)
    ensures
        r@ == pair_bytes(profile_id, from, to),
{
    let mut key = id_key(profile_id.0);
    append_bytes(&mut key, record_key(from).as_slice());
    append_bytes(&mut key, record_key(to).as_slice());
    key
}

pub open spec fn record_index_bytes(record: RecordRef, id: Ulid) -> Seq<u8> {
    record_bytes(record) + id_bytes(id)
}

pub fn relation_signal_record_index_key(record: RecordRef, signal_id: RelationSignalId) -> (r: Vec<u8>)
    ensures
        r@ == record_index_bytes(record, signal_id.0),
{
    let mut key = record_key(record);
    append_bytes(&mut key, id_key(signal_id.0).as_slice());
    key
}

pub fn activation_trace_record_index_key(record: RecordRef, trace_id: ActivationTraceId) -> (r: Vec<u8>)
    ensures
        r@ == record_index_bytes(record, trace_id.0),
{
    let mut key = record_key(record);
    append_bytes(&mut key, id_key(trace_id.0).as_slice());
    key
}

pub open spec fn owner_index_bytes(owner_id: Ulid, id: Ulid) -> Seq<u8> {
    id_bytes(owner_id) + id_bytes(id)
}

pub fn relation_signal_owner_index_key(owner_id: Ulid, signal_id: RelationSignalId) -> (r: Vec<u8>)
    ensures
        r@ == owner_index_bytes(owner_id, signal_id.0),
{
    let mut key = id_key(owner_id);
    append_bytes(&mut key, id_key(signal_id.0).as_slice());
    key
}

pub fn activation_trace_owner_index_key(owner_id: Ulid, trace_id: ActivationTraceId) -> (r: Vec<u8>)
    ensures
        r@ == owner_index_bytes(owner_id, trace_id.0),
{
    let mut key = id_key(owner_id);
    append_bytes(&mut key, id_key(trace_id.0).as_slice());
    key
}

pub open spec fn dependency_bytes(source: RecordRef, dependent: RecordRef) -> Seq<u8> {
    record_bytes(source) + record_bytes(dependent)
}

pub fn dependency_key(source: RecordRef, dependent: RecordRef) -> (r: Vec<u8>)
    ensures
        r@ == dependency_bytes(source, dependent),
{
    let mut key = record_key(source);
    append_bytes(&mut key, record_key(dependent).as_slice());
    key
}

pub open spec fn posting_bytes(domain: u8, hash: [u8; 32], record: RecordRef) -> Seq<u8> {
    seq![domain] + hash@ + record_bytes(record)
}

pub fn posting_key(domain: u8, hash: &[u8; 32], record: RecordRef) -> (r: Vec<u8>)
    ensures
        r@ == posting_bytes(domain, *hash, record),
{
    let mut key: Vec<u8> = Vec::new();
    key.push(domain);
    append_bytes(&mut key, hash.as_slice());
    append_bytes(&mut key, record_key(record).as_slice());
    assert(key@ =~= posting_bytes(domain, *hash, record));
    key
}

pub fn ordered_time(timestamp_ms: i64) -> (r: u64)
    ensures
        r == time_rank(timestamp_ms),
{
    let r = #[verifier::truncate] (timestamp_ms as u64) ^ 0x8000_0000_0000_0000u64;
    assert((timestamp_ms as u64) ^ 0x8000_0000_0000_0000u64 == timestamp_ms + 0x8000_0000_0000_0000) by (bit_vector);
    r
}

pub open spec fn time_bytes(observed_at_ms: i64, record: RecordRef) -> Seq<u8> {
    be(time_rank(observed_at_ms), 8) + record_bytes(record)
}

pub fn time_key(observed_at_ms: i64, record: RecordRef) -> (r: Vec<u8>)
    ensures
        r@ == time_bytes(observed_at_ms, record),
{
    let mut key = be_bytes(ordered_time(observed_at_ms) as u128, 8);
    append_bytes(&mut key, record_key(record).as_slice());
    key
}

pub open spec fn audit_bytes(recorded_at_ms: i64, id: AuditEventId) -> Seq<u8> {
    be(time_rank(recorded_at_ms), 8) + id_bytes(id.0)
}

pub fn audit_key(event: &AuditEvent) -> (r: Vec<u8>)
    ensures
        r@ == audit_bytes(event.recorded_at_ms, event.id),
{
    let mut key = be_bytes(ordered_time(event.recorded_at_ms) as u128, 8);
    append_bytes(&mut key, id_key(event.id.0).as_slice());
    key
}

/// The part of a key from `from` on, `n` bytes long.
fn key_part(key: &[u8], from: usize, n: usize) -> (r: &[u8])
    requires
        from + n <= key@.len(),
    ensures
        r@ == key@.subrange(from as int, from + n),
{
    let total: usize = key.len();
    assert(from + n <= total);
    vstd::slice::slice_subrange(key, from, from + n)
}

/// The identifier that stands in a key at a place.
pub open spec fn id_at(key: Seq<u8>, from: int) -> Ulid {
    Ulid(be_value(key.subrange(from, from + 16)) as u128)
}

fn id_in(key: &[u8], from: usize) -> (r: Ulid)
    requires
        from + 16 <= key@.len(),
    ensures
        r == id_at(key@, from as int),
{
    Ulid(be_number(key_part(key, from, 16)))
}

/// The record that stands in a key at a place.
pub open spec fn record_at(key: Seq<u8>, from: int) -> MemoryResult<RecordRef> {
    record_of_bytes(key.subrange(from, from + 17))
}

fn record_in(key: &[u8], from: usize) -> (r: MemoryResult<RecordRef>)
    requires
        from + 17 <= key@.len(),
    ensures
        r == record_at(key@, from as int),
{
    record_from_key(key_part(key, from, 17))
}

/// A number of eight bytes that stands in a key at a place.
pub open spec fn word_at(key: Seq<u8>, from: int) -> u64 {
    be_value(key.subrange(from, from + 8)) as u64
}

fn word_in(key: &[u8], from: usize) -> (r: u64)
    requires
        from + 8 <= key@.len(),
    ensures
        r == word_at(key@, from as int),
        r == be_value(key@.subrange(from as int, from + 8)),
{
    proof {
        be_of_be_value(key@.subrange(from as int, from + 8));
        span_values();
    }
    be_number(key_part(key, from, 8)) as u64
}

proof fn id_stands(key: Seq<u8>, from: int, id: Ulid)
    requires
        0 <= from,
        from + 16 <= key.len(),
    ensures
        key.subrange(from, from + 16) == id_bytes(id) <==> id_at(key, from) == id,
{
    let part = key.subrange(from, from + 16);
    id_key_round_trip(id);
    be_of_be_value(part);
    span_values();
}

proof fn word_stands(key: Seq<u8>, from: int, word: u64)
    requires
        0 <= from,
        from + 8 <= key.len(),
    ensures
        key.subrange(from, from + 8) == be(word as int, 8) <==> word_at(key, from) == word,
        be_value(key.subrange(from, from + 8)) == word_at(key, from),
{
    let part = key.subrange(from, from + 8);
    u64_round_trip(word);
    be_of_be_value(part);
    span_values();
}

proof fn record_stands(key: Seq<u8>, from: int, record: RecordRef)
    requires
        0 <= from,
        from + 17 <= key.len(),
    ensures
        key.subrange(from, from + 17) == record_bytes(record) <==> record_at(key, from) == MemoryResult::Ok(record),
{
    let part = key.subrange(from, from + 17);
    record_key_round_trip(record);
    if record_of_bytes(part) == MemoryResult::Ok(record) {
        record_key_is_canonical(part);
    }
}

/// What a byte string means as the key of a revision.
pub open spec fn revision_of_bytes(key: Seq<u8>) -> MemoryResult<RevisionKey> {
    if key.len() != 24 {
        corrupt(CorruptFault::IndexKey(KeyUse::Revision))
    } else {
        Ok(RevisionKey { id: id_at(key, 0), revision: word_at(key, 16) })
    }
}

/// Reads the key of a revision back.
pub fn revision_from_key(key: &[u8]) -> (r: MemoryResult<RevisionKey>)
    ensures
        r == revision_of_bytes(key@),
{
    if key.len() != 24 {
        return Err(MemoryError::Corrupt(CorruptFault::IndexKey(KeyUse::Revision)));
    }
    Ok(RevisionKey { id: id_in(key, 0), revision: word_in(key, 16) })
}

/// Just the keys of revisions are read as such, each as the revision that it is for.
pub proof fn revision_keys_read_back(key: Seq<u8>, wanted: RevisionKey)
    ensures
        revision_of_bytes(key) == MemoryResult::Ok(wanted) <==> key == revision_bytes(wanted.id, wanted.revision),
{
    id_key_round_trip(wanted.id);
    u64_round_trip(wanted.revision);
    if key.len() == 24 {
        id_stands(key, 0, wanted.id);
        word_stands(key, 16, wanted.revision);
        assert(key =~= key.subrange(0, 16) + key.subrange(16, 24));
        let whole = revision_bytes(wanted.id, wanted.revision);
        assert(whole.subrange(0, 16) =~= id_bytes(wanted.id));
        assert(whole.subrange(16, 24) =~= be(wanted.revision as int, 8));
    }
}

/// What a byte string means as the key of an owner's index.
pub open spec fn owner_index_of_bytes(key: Seq<u8>, usage: KeyUse) -> MemoryResult<OwnerIndexKey> {
    if key.len() != 32 {
        corrupt(CorruptFault::IndexKey(usage))
    } else {
        Ok(OwnerIndexKey { owner: id_at(key, 0), id: id_at(key, 16) })
    }
}

/// Reads the key of an owner's index back.
pub fn owner_index_from_key(key: &[u8], usage: KeyUse) -> (r: MemoryResult<OwnerIndexKey>)
    ensures
        r == owner_index_of_bytes(key@, usage),
{
    if key.len() != 32 {
        return Err(MemoryError::Corrupt(CorruptFault::IndexKey(usage)));
    }
    Ok(OwnerIndexKey { owner: id_in(key, 0), id: id_in(key, 16) })
}

/// Just the keys of owners' indexes are read as such, each as what it is for.
pub proof fn owner_index_keys_read_back(key: Seq<u8>, usage: KeyUse, wanted: OwnerIndexKey)
    ensures
        owner_index_of_bytes(key, usage) == MemoryResult::Ok(wanted) <==> key == owner_index_bytes(
            wanted.owner,
            wanted.id,
        ),
{
    id_key_round_trip(wanted.owner);
    id_key_round_trip(wanted.id);
    if key.len() == 32 {
        id_stands(key, 0, wanted.owner);
        id_stands(key, 16, wanted.id);
        assert(key =~= key.subrange(0, 16) + key.subrange(16, 32));
        let whole = owner_index_bytes(wanted.owner, wanted.id);
        assert(whole.subrange(0, 16) =~= id_bytes(wanted.owner));
        assert(whole.subrange(16, 32) =~= id_bytes(wanted.id));
    }
}

/// What a byte string means as the key of a record's index.
pub open spec fn record_index_of_bytes(key: Seq<u8>, usage: KeyUse) -> MemoryResult<RecordIndexKey> {
    if key.len() != 33 {
        corrupt(CorruptFault::IndexKey(usage))
    } else {
        match record_at(key, 0) {
            Ok(record) => Ok(RecordIndexKey { record, id: id_at(key, 17) }),
            Err(error) => Err(error),
        }
    }
}

/// Reads the key of a record's index back.
pub fn record_index_from_key(key: &[u8], usage: KeyUse) -> (r: MemoryResult<RecordIndexKey>)
    ensures
        r == record_index_of_bytes(key@, usage),
{
    if key.len() != 33 {
        return Err(MemoryError::Corrupt(CorruptFault::IndexKey(usage)));
    }
    match record_in(key, 0) {
        Ok(record) => Ok(RecordIndexKey { record, id: id_in(key, 17) }),
        Err(error) => Err(error),
    }
}

/// Just the keys of records' indexes are read as such, each as what it is for.
pub proof fn record_index_keys_read_back(key: Seq<u8>, usage: KeyUse, wanted: RecordIndexKey)
    ensures
        record_index_of_bytes(key, usage) == MemoryResult::Ok(wanted) <==> key == record_index_bytes(
            wanted.record,
            wanted.id,
        ),
{
    record_key_round_trip(wanted.record);
    id_key_round_trip(wanted.id);
    if key.len() == 33 {
        record_stands(key, 0, wanted.record);
        id_stands(key, 17, wanted.id);
        assert(key =~= key.subrange(0, 17) + key.subrange(17, 33));
        let whole = record_index_bytes(wanted.record, wanted.id);
        assert(whole.subrange(0, 17) =~= record_bytes(wanted.record));
        assert(whole.subrange(17, 33) =~= id_bytes(wanted.id));
    }
}

/// What a byte string means as the key of a dependency.
pub open spec fn dependency_of_bytes(key: Seq<u8>) -> MemoryResult<DependencyKey> {
    if key.len() != 34 {
        corrupt(CorruptFault::IndexKey(KeyUse::Dependency))
    } else {
        match (record_at(key, 0), record_at(key, 17)) {
            (Ok(source), Ok(dependent)) => Ok(DependencyKey { source, dependent }),
            (Err(error), _) => Err(error),
            (_, Err(error)) => Err(error),
        }
    }
}

/// Reads the key of a dependency back.
pub fn dependency_from_key(key: &[u8]) -> (r: MemoryResult<DependencyKey>)
    ensures
        r == dependency_of_bytes(key@),
{
    if key.len() != 34 {
        return Err(MemoryError::Corrupt(CorruptFault::IndexKey(KeyUse::Dependency)));
    }
    match (record_in(key, 0), record_in(key, 17)) {
        (Ok(source), Ok(dependent)) => Ok(DependencyKey { source, dependent }),
        (Err(error), _) => Err(error),
        (_, Err(error)) => Err(error),
    }
}

/// Just the keys of dependencies are read as such, each as the dependency that it is for.
pub proof fn dependency_keys_read_back(key: Seq<u8>, wanted: DependencyKey)
    ensures
        dependency_of_bytes(key) == MemoryResult::Ok(wanted) <==> key == dependency_bytes(
            wanted.source,
            wanted.dependent,
        ),
{
    record_key_round_trip(wanted.source);
    record_key_round_trip(wanted.dependent);
    if key.len() == 34 {
        record_stands(key, 0, wanted.source);
        record_stands(key, 17, wanted.dependent);
        assert(key =~= key.subrange(0, 17) + key.subrange(17, 34));
        let whole = dependency_bytes(wanted.source, wanted.dependent);
        assert(whole.subrange(0, 17) =~= record_bytes(wanted.source));
        assert(whole.subrange(17, 34) =~= record_bytes(wanted.dependent));
    }
}

/// What a byte string means as the key of a passage's place.
pub open spec fn ordinal_of_bytes(key: Seq<u8>) -> MemoryResult<OrdinalKey> {
    if key.len() != 20 {
        corrupt(CorruptFault::IndexKey(KeyUse::Ordinal))
    } else {
        Ok(
            OrdinalKey {
                snapshot: ArtifactSnapshotId(id_at(key, 0)),
                ordinal: be_value(key.subrange(16, 20)) as u32,
            },
        )
    }
}

/// Reads the key of a passage's place back.
pub fn ordinal_from_key(key: &[u8]) -> (r: MemoryResult<OrdinalKey>)
    ensures
        r == ordinal_of_bytes(key@),
{
    if key.len() != 20 {
        return Err(MemoryError::Corrupt(CorruptFault::IndexKey(KeyUse::Ordinal)));
    }
    proof {
        be_of_be_value(key@.subrange(16, 20));
        quarter_word_span();
    }
    let ordinal: u32 = be_number(key_part(key, 16, 4)) as u32;
    Ok(OrdinalKey { snapshot: ArtifactSnapshotId(id_in(key, 0)), ordinal })
}

proof fn quarter_word_span()
    ensures
        span(4) == 0x1_0000_0000,
{
    reveal_with_fuel(span, 5);
}

/// Just the keys of passages' places are read as such, each as the place that it is for.
pub proof fn ordinal_keys_read_back(key: Seq<u8>, wanted: OrdinalKey)
    ensures
        ordinal_of_bytes(key) == MemoryResult::Ok(wanted) <==> key == ordinal_bytes(wanted.snapshot, wanted.ordinal),
{
    id_key_round_trip(wanted.snapshot.0);
    quarter_word_span();
    be_len(wanted.ordinal as int, 4);
    be_value_of_be(wanted.ordinal as int, 4);
    if key.len() == 20 {
        id_stands(key, 0, wanted.snapshot.0);
        be_of_be_value(key.subrange(16, 20));
        assert(key =~= key.subrange(0, 16) + key.subrange(16, 20));
        let whole = ordinal_bytes(wanted.snapshot, wanted.ordinal);
        assert(whole.subrange(0, 16) =~= id_bytes(wanted.snapshot.0));
        assert(whole.subrange(16, 20) =~= be(wanted.ordinal as int, 4));
    }
}

/// What a byte string means as the key of a pair of records.
pub open spec fn pair_of_bytes(key: Seq<u8>) -> MemoryResult<PairKey> {
    if key.len() != 50 {
        corrupt(CorruptFault::IndexKey(KeyUse::Pair))
    } else {
        match (record_at(key, 16), record_at(key, 33)) {
            (Ok(from), Ok(to)) => Ok(PairKey { profile: RelationProfileId(id_at(key, 0)), from, to }),
            (Err(error), _) => Err(error),
            (_, Err(error)) => Err(error),
        }
    }
}

/// Reads the key of a pair of records back.
pub fn pair_from_key(key: &[u8]) -> (r: MemoryResult<PairKey>)
    ensures
        r == pair_of_bytes(key@),
{
    if key.len() != 50 {
        return Err(MemoryError::Corrupt(CorruptFault::IndexKey(KeyUse::Pair)));
    }
    match (record_in(key, 16), record_in(key, 33)) {
        (Ok(from), Ok(to)) => Ok(PairKey { profile: RelationProfileId(id_in(key, 0)), from, to }),
        (Err(error), _) => Err(error),
        (_, Err(error)) => Err(error),
    }
}

/// Just the keys of pairs are read as such, each as the pair that it is for.
pub proof fn pair_keys_read_back(key: Seq<u8>, wanted: PairKey)
    ensures
        pair_of_bytes(key) == MemoryResult::Ok(wanted) <==> key == pair_bytes(wanted.profile, wanted.from, wanted.to),
{
    id_key_round_trip(wanted.profile.0);
    record_key_round_trip(wanted.from);
    record_key_round_trip(wanted.to);
    if key.len() == 50 {
        id_stands(key, 0, wanted.profile.0);
        record_stands(key, 16, wanted.from);
        record_stands(key, 33, wanted.to);
        assert(key =~= key.subrange(0, 16) + key.subrange(16, 33) + key.subrange(33, 50));
        let whole = pair_bytes(wanted.profile, wanted.from, wanted.to);
        assert(whole.subrange(0, 16) =~= id_bytes(wanted.profile.0));
        assert(whole.subrange(16, 33) =~= record_bytes(wanted.from));
        assert(whole.subrange(33, 50) =~= record_bytes(wanted.to));
    }
}

/// What a byte string means as the key of a posting: a domain, a digest and a record.
pub open spec fn posting_of_bytes(key: Seq<u8>) -> MemoryResult<(u8, Seq<u8>, RecordRef)> {
    if key.len() != 50 {
        corrupt(CorruptFault::IndexKey(KeyUse::Posting))
    } else {
        match record_at(key, 33) {
            Ok(record) => Ok((key[0], key.subrange(1, 33), record)),
            Err(error) => Err(error),
        }
    }
}

/// Reads the key of a posting back.
pub fn posting_from_key(key: &[u8]) -> (r: MemoryResult<PostingKey>)
    ensures
        match (r, posting_of_bytes(key@)) {
            (Ok(found), Ok((domain, hash, record))) => found.domain == domain && found.hash@ == hash && found.record
                == record,
            (Err(error), Err(refusal)) => error == refusal,
            _ => false,
        },
{
    if key.len() != 50 {
        return Err(MemoryError::Corrupt(CorruptFault::IndexKey(KeyUse::Posting)));
    }
    let record = match record_in(key, 33) {
        Ok(record) => record,
        Err(error) => return Err(error),
    };
    let mut hash: [u8; 32] = [0u8; 32];
    for i in 0..32usize
        invariant
            key@.len() == 50,
            forall|j: int| 0 <= j < i ==> hash@[j] == key@[j + 1],
    {
        hash[i] = key[i + 1];
    }
    assert(hash@ =~= key@.subrange(1, 33));
    Ok(PostingKey { domain: key[0], hash, record })
}

/// Just the keys of postings are read as such, each as the posting that it is for.
pub proof fn posting_keys_read_back(key: Seq<u8>, wanted: PostingKey)
    ensures
        posting_of_bytes(key) == MemoryResult::Ok((wanted.domain, wanted.hash@, wanted.record)) <==> key
            == posting_bytes(wanted.domain, wanted.hash, wanted.record),
{
    record_key_round_trip(wanted.record);
    if key.len() == 50 {
        record_stands(key, 33, wanted.record);
        assert(key =~= seq![key[0]] + key.subrange(1, 33) + key.subrange(33, 50));
        let whole = posting_bytes(wanted.domain, wanted.hash, wanted.record);
        assert(whole[0] == wanted.domain);
        assert(whole.subrange(1, 33) =~= wanted.hash@);
        assert(whole.subrange(33, 50) =~= record_bytes(wanted.record));
    }
}

/// What a byte string means as the key of an instant.
pub open spec fn time_of_bytes(key: Seq<u8>) -> MemoryResult<TimeKey> {
    if key.len() != 25 {
        corrupt(CorruptFault::IndexKey(KeyUse::Time))
    } else {
        match record_at(key, 8) {
            Ok(record) => Ok(TimeKey { observed_at_ms: (word_at(key, 0) - 0x8000_0000_0000_0000) as i64, record }),
            Err(error) => Err(error),
        }
    }
}

/// Reads the key of an instant back.
pub fn time_from_key(key: &[u8]) -> (r: MemoryResult<TimeKey>)
    ensures
        r == time_of_bytes(key@),
{
    if key.len() != 25 {
        return Err(MemoryError::Corrupt(CorruptFault::IndexKey(KeyUse::Time)));
    }
    match record_in(key, 8) {
        Ok(record) => {
            let place: u64 = word_in(key, 0);
            let observed_at_ms: i64 = (place as i128 - 0x8000_0000_0000_0000i128) as i64;
            Ok(TimeKey { observed_at_ms, record })
        },
        Err(error) => Err(error),
    }
}

/// Just the keys of instants are read as such, each as the instant that it is for.
pub proof fn time_keys_read_back(key: Seq<u8>, wanted: TimeKey)
    ensures
        time_of_bytes(key) == MemoryResult::Ok(wanted) <==> key == time_bytes(wanted.observed_at_ms, wanted.record),
{
    let place = time_rank(wanted.observed_at_ms) as u64;
    record_key_round_trip(wanted.record);
    u64_round_trip(place);
    if key.len() == 25 {
        word_stands(key, 0, place);
        record_stands(key, 8, wanted.record);
        assert(key =~= key.subrange(0, 8) + key.subrange(8, 25));
        let whole = time_bytes(wanted.observed_at_ms, wanted.record);
        assert(whole.subrange(0, 8) =~= be(place as int, 8));
        assert(whole.subrange(8, 25) =~= record_bytes(wanted.record));
    }
}

/// What two byte strings spell when joined.
pub proof fn be_value_of_join(a: Seq<u8>, b: Seq<u8>)
    ensures
        be_value(a + b) == be_value(a) * span(b.len()) + be_value(b),
    decreases b.len(),
{
    if b.len() == 0 {
        assert(a + b =~= a);
    } else {
        let rest = b.drop_last();
        assert((a + b).drop_last() =~= a + rest);
        be_value_of_join(a, rest);
        let x = be_value(a);
        let y = span(rest.len());
        assert((x * y + be_value(rest)) * 256 + b.last() == x * (256 * y) + (be_value(rest) * 256 + b.last()))
            by (nonlinear_arith);
    }
}

proof fn id_bytes_spell(id: Ulid)
    ensures
        be_value(id_bytes(id)) == id.0,
        id_bytes(id).len() == 16,
        span(16) == id_span(),
{
    span_values();
    be_len(id.0 as int, 16);
    be_value_of_be(id.0 as int, 16);
}

proof fn span_of_records()
    ensures
        span(17) == record_span(),
{
    span_values();
}

/// A record key spells the storage rank of its record.
pub proof fn record_bytes_spell(record: RecordRef)
    ensures
        record_bytes(record).len() == 17,
        be_value(record_bytes(record)) == storage_rank(record),
{
    let tag = seq![record_tag(record)];
    id_bytes_spell(record_id(record));
    be_value_of_join(tag, id_bytes(record_id(record)));
    assert(tag.drop_last() =~= Seq::<u8>::empty());
    assert(be_value(tag) == record_tag(record)) by {
        reveal_with_fuel(be_value, 2);
    }
}

/// Record keys are distinct, and sort as their records do in storage order.
pub proof fn record_keys_sort(a: RecordRef, b: RecordRef)
    ensures
        record_bytes(a) == record_bytes(b) ==> a == b,
        storage_rank(a) < storage_rank(b) ==> bytes_before(record_bytes(a), record_bytes(b)),
{
    record_bytes_spell(a);
    record_bytes_spell(b);
    if record_bytes(a) == record_bytes(b) {
        storage_rank_is_injective(a, b);
    }
    if storage_rank(a) < storage_rank(b) {
        be_value_orders(record_bytes(a), record_bytes(b));
    }
}

/// Dependency keys are distinct, and sort by source, then by dependent.
pub proof fn dependency_keys_sort(a: DependencyKey, b: DependencyKey)
    ensures
        dependency_bytes(a.source, a.dependent) == dependency_bytes(b.source, b.dependent) ==> a == b,
        a.rank() < b.rank() ==> bytes_before(
            dependency_bytes(a.source, a.dependent),
            dependency_bytes(b.source, b.dependent),
        ),
{
    span_of_records();
    record_bytes_spell(a.source);
    record_bytes_spell(a.dependent);
    record_bytes_spell(b.source);
    record_bytes_spell(b.dependent);
    be_value_of_join(record_bytes(a.source), record_bytes(a.dependent));
    be_value_of_join(record_bytes(b.source), record_bytes(b.dependent));
    let x = dependency_bytes(a.source, a.dependent);
    let y = dependency_bytes(b.source, b.dependent);
    assert(be_value(x) == a.rank());
    assert(be_value(y) == b.rank());
    if x == y {
        DependencyKey::rank_is_injective(&a, &b);
    }
    if a.rank() < b.rank() {
        be_value_orders(x, y);
    }
}

/// Time keys are distinct, and sort by instant, then by record.
pub proof fn time_keys_sort(a: TimeKey, b: TimeKey)
    ensures
        time_bytes(a.observed_at_ms, a.record) == time_bytes(b.observed_at_ms, b.record) ==> a == b,
        a.rank() < b.rank() ==> bytes_before(
            time_bytes(a.observed_at_ms, a.record),
            time_bytes(b.observed_at_ms, b.record),
        ),
{
    span_of_records();
    span_values();
    record_bytes_spell(a.record);
    record_bytes_spell(b.record);
    let ta = be(time_rank(a.observed_at_ms), 8);
    let tb = be(time_rank(b.observed_at_ms), 8);
    be_len(time_rank(a.observed_at_ms), 8);
    be_len(time_rank(b.observed_at_ms), 8);
    be_value_of_be(time_rank(a.observed_at_ms), 8);
    be_value_of_be(time_rank(b.observed_at_ms), 8);
    be_value_of_join(ta, record_bytes(a.record));
    be_value_of_join(tb, record_bytes(b.record));
    let x = time_bytes(a.observed_at_ms, a.record);
    let y = time_bytes(b.observed_at_ms, b.record);
    assert(be_value(x) == a.rank());
    assert(be_value(y) == b.rank());
    if x == y {
        TimeKey::rank_is_injective(&a, &b);
    }
    if a.rank() < b.rank() {
        be_value_orders(x, y);
    }
}

/// Audit keys are distinct, and sort by instant, then by event.
pub proof fn audit_keys_sort(a: AuditKey, b: AuditKey)
    ensures
        audit_bytes(a.recorded_at_ms, a.id) == audit_bytes(b.recorded_at_ms, b.id) ==> a == b,
        a.rank() < b.rank() ==> bytes_before(
            audit_bytes(a.recorded_at_ms, a.id),
            audit_bytes(b.recorded_at_ms, b.id),
        ),
{
    span_values();
    id_bytes_spell(a.id.0);
    id_bytes_spell(b.id.0);
    let ta = be(time_rank(a.recorded_at_ms), 8);
    let tb = be(time_rank(b.recorded_at_ms), 8);
    be_len(time_rank(a.recorded_at_ms), 8);
    be_len(time_rank(b.recorded_at_ms), 8);
    be_value_of_be(time_rank(a.recorded_at_ms), 8);
    be_value_of_be(time_rank(b.recorded_at_ms), 8);
    be_value_of_join(ta, id_bytes(a.id.0));
    be_value_of_join(tb, id_bytes(b.id.0));
    let x = audit_bytes(a.recorded_at_ms, a.id);
    let y = audit_bytes(b.recorded_at_ms, b.id);
    assert(be_value(x) == a.rank());
    assert(be_value(y) == b.rank());
    if x == y {
        AuditKey::rank_is_injective(&a, &b);
    }
    if a.rank() < b.rank() {
        be_value_orders(x, y);
    }
}

/// Posting keys are distinct: a record is filed once under a digest in a domain.
pub proof fn posting_keys_differ(a: PostingKey, b: PostingKey)
    requires
        posting_bytes(a.domain, a.hash, a.record) == posting_bytes(b.domain, b.hash, b.record),
    ensures
        a == b,
{
    record_bytes_spell(a.record);
    record_bytes_spell(b.record);
    let x = posting_bytes(a.domain, a.hash, a.record);
    let y = posting_bytes(b.domain, b.hash, b.record);
    assert(x =~= (seq![a.domain] + a.hash@) + record_bytes(a.record));
    assert(y =~= (seq![b.domain] + b.hash@) + record_bytes(b.record));
    parts_agree(seq![a.domain] + a.hash@, seq![b.domain] + b.hash@, record_bytes(a.record), record_bytes(b.record));
    parts_agree(seq![a.domain], seq![b.domain], a.hash@, b.hash@);
    assert(seq![a.domain][0] == seq![b.domain][0]);
    assert(a.hash =~= b.hash);
    record_keys_sort(a.record, b.record);
}

/// Revision keys are distinct.
pub proof fn revision_keys_differ(a: RevisionKey, b: RevisionKey)
    requires
        revision_bytes(a.id, a.revision) == revision_bytes(b.id, b.revision),
    ensures
        a == b,
{
    id_bytes_spell(a.id);
    id_bytes_spell(b.id);
    parts_agree(id_bytes(a.id), id_bytes(b.id), be(a.revision as int, 8), be(b.revision as int, 8));
    u64_round_trip(a.revision);
    u64_round_trip(b.revision);
}

} // verus!
