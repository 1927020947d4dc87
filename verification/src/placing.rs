//! Artifacts: which snapshots can be imported, and which passages have a place in one.

use vstd::prelude::*;
use crate::artifacts::{passage_batch_fault, passage_bytes, passage_fault, passages_fault};
use crate::clock::FreshModel;
use crate::context::OperationContext;
use crate::fault::MemoryResult;
use crate::ids::ArtifactSnapshotId;
use crate::inspect::lookup;
use crate::keys::OrdinalKey;
use crate::records::artifact::{
    ArtifactCollectionHeader, ArtifactEvidenceProvenance, ArtifactRange, ArtifactSnapshotHeader,
    ArtifactSnapshotReceipt, NewArtifactCollectionModel, NewArtifactPassageModel,
    NewArtifactSnapshotModel,
};
use crate::records::evidence::{Actor, RecordState, Scope};
use crate::snapshot::Snapshot;
use crate::store::StoreModel;
use crate::text::{terms, trimmed, utf8};

verus! {

/// Whether a range is absent or has something in it.
pub open spec fn range_makes_sense(range: Option<ArtifactRange>) -> bool {
    range matches Some(inner) ==> inner.start < inner.end_exclusive
}

/// Whether a passage makes sense by itself: its text says something in at most 64
/// kibibytes and has at most 8192 terms, and its ranges have something in them.
pub open spec fn passage_makes_sense(passage: NewArtifactPassageModel) -> bool {
    &&& trimmed(passage.text).len() > 0
    &&& utf8(passage.text).len() <= 65_536
    &&& terms(passage.text).len() <= 8_192
    &&& range_makes_sense(passage.locator.byte_range)
    &&& range_makes_sense(passage.locator.page_range)
    &&& range_makes_sense(passage.locator.time_range_ms)
}

proof fn bytes_grow(passages: Seq<NewArtifactPassageModel>, i: nat, n: nat)
    requires
        i <= n,
    ensures
        passage_bytes(passages, i) <= passage_bytes(passages, n),
    decreases n,
{
    if i < n {
        bytes_grow(passages, i, (n - 1) as nat);
    }
}

/// The bytes of passages add up.
pub proof fn passage_bytes_add_up(passages: Seq<NewArtifactPassageModel>, n: nat)
    ensures
        passage_bytes(passages, 0) == 0,
        passage_bytes(passages, n + 1) == passage_bytes(passages, n) + utf8(passages[n as int].text).len(),
{
}

proof fn passages_are_checked(passages: Seq<NewArtifactPassageModel>, n: nat)
    requires
        n <= passages.len(),
    ensures
        passages_fault(passages, n) is None <==> {
            &&& forall|i: int| 0 <= i < n ==> passage_makes_sense(#[trigger] passages[i])
            &&& forall|i: int, j: int|
                0 <= i < j < n ==> (#[trigger] passages[i]).locator.ordinal < (#[trigger] passages[j]).locator.ordinal
            &&& passage_bytes(passages, n) <= 8_388_608
        },
    decreases n,
{
    if n > 0 {
        let m = (n - 1) as nat;
        passages_are_checked(passages, m);
        bytes_grow(passages, m, n);
        if passages_fault(passages, m) is None && passage_fault(passages, m as int) is None {
            assert forall|i: int, j: int| 0 <= i < j < n implies (#[trigger] passages[i]).locator.ordinal < (
            #[trigger] passages[j]).locator.ordinal by {
                if j == m {
                    if i < m - 1 {
                        assert(passages[i].locator.ordinal < passages[m - 1].locator.ordinal);
                    }
                }
            }
        }
        if m > 0 {
            assert(passages[m - 1].locator.ordinal < passages[m as int].locator.ordinal || !(forall|i: int, j: int|
                0 <= i < j < n ==> (#[trigger] passages[i]).locator.ordinal < (#[trigger] passages[j]).locator.ordinal));
        }
        if passage_makes_sense(passages[m as int]) && passage_bytes(passages, n) <= 8_388_608 && (m > 0
            ==> passages[m - 1].locator.ordinal < passages[m as int].locator.ordinal) {
            assert(passage_fault(passages, m as int) is None);
        }
    }
}

/// Passages are created one to 512 at a time, in the order of their ordinals, each of which
/// comes once, with at most eight mebibytes of text in all, if each of them makes sense.
pub proof fn passages_are_heard(passages: Seq<NewArtifactPassageModel>)
    ensures
        passage_batch_fault(passages) is None <==> {
            &&& 1 <= passages.len() <= 512
            &&& forall|i: int| 0 <= i < passages.len() ==> passage_makes_sense(#[trigger] passages[i])
            &&& forall|i: int, j: int|
                0 <= i < j < passages.len() ==> (#[trigger] passages[i]).locator.ordinal < (
                #[trigger] passages[j]).locator.ordinal
            &&& passage_bytes(passages, passages.len()) <= 8_388_608
        },
{
    passages_are_checked(passages, passages.len());
}

/// A passage has a place in a snapshot if its bytes lie within the snapshot's and no
/// passage has its ordinal there yet.
pub proof fn passages_have_their_places(
    s: StoreModel,
    snapshot: ArtifactSnapshotHeader,
    passages: Seq<NewArtifactPassageModel>,
    n: nat,
)
    requires
        n <= passages.len(),
    ensures
        s.placement_fault(snapshot, passages, n) is None <==> forall|i: int|
            0 <= i < n ==> {
                &&& (#[trigger] passages[i]).locator.byte_range matches Some(range) ==> range.end_exclusive
                    <= snapshot.byte_len
                &&& !s.artifact_passage_ordinals.contains_key(
                    OrdinalKey { snapshot: snapshot.id, ordinal: passages[i].locator.ordinal },
                )
            },
    decreases n,
{
    if n > 0 {
        passages_have_their_places(s, snapshot, passages, (n - 1) as nat);
    }
}

/// Artifacts are handled by anyone but the assistant. A collection's label says something
/// in at most a kibibyte.
pub proof fn collections_are_heard(
    s: StoreModel,
    operation: OperationContext,
    input: NewArtifactCollectionModel,
    request: Seq<u8>,
    fresh: FreshModel,
)
    requires
        !s.operations.contains_key(operation.id),
    ensures
        s.create_artifact_collection(operation, input, request, fresh) is Ok <==> {
            &&& !(operation.actor is Assistant)
            &&& trimmed(input.label).len() > 0
            &&& utf8(input.label).len() <= 1_024
        },
        s.create_artifact_collection(operation, input, request, fresh) matches Ok((after, receipt)) ==> {
            &&& lookup(after.artifact_collections, receipt.id) matches Some(header) && header.scope == Scope::Artifact(
                receipt.id.0,
            ) && header.created_by == operation.actor
            &&& receipt.availability_revision == 1
        },
{
    reveal(StoreModel::replay);
    broadcast use crate::writing::parts_after_put;
}

/// A snapshot is imported by anyone but the assistant, at a time that makes sense, with a
/// media type that says something in at most a kibibyte and one byte to 32 mebibytes, into
/// a collection that is active and at the revision that the actor saw.
pub proof fn snapshots_are_heard(s: StoreModel, actor: Actor, input: NewArtifactSnapshotModel)
    ensures
        StoreModel::snapshot_request_fault(actor, input) is None <==> {
            &&& !(actor is Assistant)
            &&& input.temporal.valid_from_ms is Some && input.temporal.valid_to_ms is Some
                ==> input.temporal.valid_from_ms->Some_0 < input.temporal.valid_to_ms->Some_0
            &&& trimmed(input.media_type).len() > 0
            &&& utf8(input.media_type).len() <= 1_024
            &&& 1 <= input.bytes.len() <= 33_554_432
        },
        s.open_collection(input.collection_id, input.expected_collection_revision) is Ok <==> (
        s.inspect_artifact_collection(input.collection_id) matches Ok(Some(collection)) && collection.availability.state
            == RecordState::Active && collection.availability.revision == input.expected_collection_revision),
        s.open_collection(input.collection_id, input.expected_collection_revision) matches Ok(header) ==> header
            == s.inspect_artifact_collection(input.collection_id)->Ok_0->Some_0.header,
{
    reveal(StoreModel::open_collection);
}

/// Passages are created in a snapshot that is active and at the revision that the actor
/// saw.
pub proof fn snapshots_are_opened(s: StoreModel, id: ArtifactSnapshotId, expected_revision: u64)
    ensures
        s.open_snapshot(id, expected_revision) is Ok <==> (s.inspect_artifact_snapshot(id) matches Ok(Some(snapshot))
            && snapshot.availability.state == RecordState::Active && snapshot.availability.revision
            == expected_revision),
        s.open_snapshot(id, expected_revision) matches Ok(header) ==> header == s.inspect_artifact_snapshot(
            id,
        )->Ok_0->Some_0.header,
{
    reveal(StoreModel::open_snapshot);
}

/// The evidence of a snapshot is traced to the snapshot and its collection.
pub proof fn snapshots_are_placed(
    s: StoreModel,
    operation: OperationContext,
    input: NewArtifactSnapshotModel,
    metadata: Seq<u8>,
    fresh: FreshModel,
    after: StoreModel,
    receipt: ArtifactSnapshotReceipt,
    collection: ArtifactCollectionHeader,
)
    requires
        s.import_artifact_snapshot(operation, input, metadata, fresh) == MemoryResult::Ok((after, receipt)),
        !s.operations.contains_key(operation.id),
        s.open_collection(input.collection_id, input.expected_collection_revision) == MemoryResult::Ok(collection),
    ensures
        lookup(after.artifact_by_evidence, receipt.evidence.id) == Some(
            ArtifactEvidenceProvenance::Snapshot {
                collection_id: input.collection_id,
                snapshot_id: receipt.id,
                byte_len: input.bytes.len() as u64,
            },
        ),
        receipt.availability_revision == 1 && receipt.evidence.availability_revision == 1,
{
    reveal(StoreModel::replay);
    broadcast use crate::writing::parts_after_put;
}

} // verus!
