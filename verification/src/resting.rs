//! What rests on what: every record is filed as a dependent of all that it rests on, so
//! that a withdrawal reaches it.

use vstd::prelude::*;
use crate::applying::entity_text;
use crate::bundles::{change_pins, pins_in, proposal_dependencies};
use crate::clock::FreshModel;
use crate::context::{OperationContext, TemporalFacts};
use crate::fault::MemoryResult;
use crate::grounds::{claims_are_heard, relations_are_heard};
use crate::ids::{ArtifactPassageId, ClaimId, EvidenceId, RelationId};
use crate::inspect::revision_of;
use crate::keys::DependencyKey;
use crate::order::{in_order, in_order_lists};
use crate::records::artifact::{
    ArtifactSnapshotHeader, ArtifactSnapshotReceipt, NewArtifactPassageModel,
    NewArtifactSnapshotModel,
};
use crate::records::audit::RelationPayloadModel;
use crate::records::claim::{
    ClaimReceipt, ClaimRevisionHeaderModel, EntityPayloadModel, EntityRevisionHeaderModel,
    NewClaimModel, NewSemanticRelationModel, RelationReceipt, SemanticRelationRevisionHeaderModel,
};
use crate::records::evidence::{
    EvidenceAvailabilityRevision, EvidenceHeader, RecordRef, RecordState, Scope,
};
use crate::records::proposal::{
    NewProposalBundleModel, ProposalChangeModel, ProposalEndpoint, ProposalPayloadModel,
    ProposalReviewCaseHeader, ProposalReviewFindingModel, ProposalReviewPayloadModel,
    ProposalReviewPointer, ProposalRevisionHeader, ProposalSourceIndex,
};
use crate::records::recall::RecallCaseCandidate;
use crate::reviews::review_dependencies;
use crate::staging::{awaits_adjudication, document_of};
use crate::store::{StoreModel, WriteModel};

verus! {

/// Whether a record is filed as a dependent of another.
pub open spec fn depends_on(s: StoreModel, dependent: RecordRef, source: RecordRef) -> bool {
    s.dependencies.contains_key(DependencyKey { source, dependent })
}

proof fn supports_are_filed(s: StoreModel, ids: Seq<EvidenceId>, record: RecordRef, n: nat)
    requires
        n <= ids.len(),
    ensures
        forall|k: DependencyKey| #[trigger]
            s.supported(ids, record, n).dependencies.contains_key(k) <==> s.dependencies.contains_key(k) || (
            k.dependent == record && exists|i: int|
                0 <= i < n && k.source == RecordRef::Evidence(#[trigger] ids[i])),
    decreases n,
{
    broadcast use crate::writing::put_dependencies;

    if n > 0 {
        let m = (n - 1) as nat;
        supports_are_filed(s, ids, record, m);
        let now = s.supported(ids, record, n);
        let before = s.supported(ids, record, m);
        let key = DependencyKey { source: RecordRef::Evidence(ids[m as int]), dependent: record };
        assert(now.dependencies == before.dependencies.insert(key, ()));
        assert forall|k: DependencyKey| #[trigger] now.dependencies.contains_key(k) <==> s.dependencies.contains_key(k)
            || (k.dependent == record && exists|i: int|
            0 <= i < n && k.source == RecordRef::Evidence(#[trigger] ids[i])) by {
            if now.dependencies.contains_key(k) && k != key {
                assert(before.dependencies.contains_key(k));
                if !s.dependencies.contains_key(k) {
                    let i = choose|i: int| 0 <= i < m && k.source == RecordRef::Evidence(#[trigger] ids[i]);
                    assert(k.source == RecordRef::Evidence(ids[i]));
                }
            }
            if k == key {
                assert(k.source == RecordRef::Evidence(ids[m as int]));
            }
            if k.dependent == record && exists|i: int|
                0 <= i < n && k.source == RecordRef::Evidence(#[trigger] ids[i]) {
                let i = choose|i: int| 0 <= i < n && k.source == RecordRef::Evidence(#[trigger] ids[i]);
                if i < m {
                    assert(before.dependencies.contains_key(k));
                } else {
                    assert(k == key);
                }
            }
        }
    }
}

proof fn rests_are_filed(s: StoreModel, sources: Seq<RecordRef>, record: RecordRef, n: nat)
    requires
        n <= sources.len(),
    ensures
        forall|k: DependencyKey| #[trigger]
            s.rests_on(sources, record, n).dependencies.contains_key(k) <==> s.dependencies.contains_key(k) || (
            k.dependent == record && exists|i: int| 0 <= i < n && k.source == #[trigger] sources[i]),
    decreases n,
{
    broadcast use crate::writing::put_dependencies;

    if n > 0 {
        let m = (n - 1) as nat;
        rests_are_filed(s, sources, record, m);
        let now = s.rests_on(sources, record, n);
        let before = s.rests_on(sources, record, m);
        let key = DependencyKey { source: sources[m as int], dependent: record };
        assert(now.dependencies == before.dependencies.insert(key, ()));
        assert forall|k: DependencyKey| #[trigger] now.dependencies.contains_key(k) <==> s.dependencies.contains_key(k)
            || (k.dependent == record && exists|i: int| 0 <= i < n && k.source == #[trigger] sources[i]) by {
            if now.dependencies.contains_key(k) && k != key {
                assert(before.dependencies.contains_key(k));
                if !s.dependencies.contains_key(k) {
                    let i = choose|i: int| 0 <= i < m && k.source == #[trigger] sources[i];
                    assert(k.source == sources[i]);
                }
            }
            if k == key {
                assert(k.source == sources[m as int]);
            }
            if k.dependent == record && exists|i: int| 0 <= i < n && k.source == #[trigger] sources[i] {
                let i = choose|i: int| 0 <= i < n && k.source == #[trigger] sources[i];
                if i < m {
                    assert(before.dependencies.contains_key(k));
                } else {
                    assert(k == key);
                }
            }
        }
    }
}

proof fn postings_file_no_dependencies(s: StoreModel, record: RecordRef, hashes: Seq<[u8; 32]>, n: nat)
    ensures
        s.with_postings(record, hashes, n).dependencies == s.dependencies,
    decreases n,
{
    broadcast use crate::writing::put_dependencies;

    if n > 0 {
        postings_file_no_dependencies(s, record, hashes, (n - 1) as nat);
    }
}

proof fn indexing_files_no_dependencies(
    s: StoreModel,
    record: RecordRef,
    revision: u64,
    scope: Scope,
    temporal: TemporalFacts,
    text: Seq<char>,
)
    ensures
        s.indexed(record, revision, scope, temporal, text).dependencies == s.dependencies,
{
    reveal(StoreModel::indexed);
    broadcast use crate::writing::put_dependencies;

    let document = document_of(s.digest_key@, record, revision, scope, temporal, text);
    postings_file_no_dependencies(
        s.put(WriteModel::PutLexicalDoc(record, document)),
        record,
        document.term_hashes,
        document.term_hashes.len(),
    );
}

broadcast proof fn evidence_files_no_dependencies(s: StoreModel, header: EvidenceHeader, text: Seq<char>)
    ensures
        (#[trigger] s.with_evidence(header, text)).dependencies == s.dependencies,
{
    reveal(StoreModel::with_evidence);
    broadcast use crate::writing::put_dependencies;

    let record = RecordRef::Evidence(header.id);
    let base = s.put(WriteModel::PutEvidence(header.id, header)).put(
        WriteModel::PutEvidenceAvailability(
            revision_of(header.id.0, 1),
            EvidenceAvailabilityRevision {
                evidence_id: header.id,
                revision: 1,
                state: RecordState::Active,
                recorded_at_ms: header.recorded_at_ms,
                operation_id: header.operation_id,
            },
        ),
    ).put(WriteModel::PutHead(record, 1)).put(WriteModel::PutText(record, text));
    indexing_files_no_dependencies(base, record, 1, header.scope, header.temporal, text);
}

/// A claim is filed as a dependent of each piece of its evidence, and of nothing else.
pub proof fn claims_rest_on_their_evidence(
    s: StoreModel,
    header: ClaimRevisionHeaderModel,
    proposition: Seq<char>,
    dependent: RecordRef,
    source: RecordRef,
)
    ensures
        depends_on(s.with_claim(header, proposition), dependent, source) <==> depends_on(s, dependent, source) || (
        dependent == RecordRef::Claim(header.id) && exists|i: int|
            0 <= i < header.evidence_ids.len() && source == RecordRef::Evidence(#[trigger] header.evidence_ids[i])),
{
    reveal(StoreModel::with_claim);
    broadcast use crate::writing::put_dependencies;

    let record = RecordRef::Claim(header.id);
    let base = s.put(WriteModel::PutClaim(revision_of(header.id.0, 1), header)).put(
        WriteModel::PutHead(record, 1),
    ).put(WriteModel::PutText(record, proposition));
    let ids = header.evidence_ids;
    supports_are_filed(base, ids, record, ids.len());
    indexing_files_no_dependencies(
        base.supported(ids, record, ids.len()),
        record,
        1,
        header.scope,
        header.temporal,
        proposition,
    );
    let key = DependencyKey { source, dependent };
    assert(base.supported(ids, record, ids.len()).dependencies.contains_key(key) <==> base.dependencies.contains_key(
        key,
    ) || (key.dependent == record && exists|i: int|
        0 <= i < ids.len() && key.source == RecordRef::Evidence(#[trigger] ids[i])));
}

/// An entity is filed as a dependent of each piece of its evidence, and of nothing else.
pub proof fn entities_rest_on_their_evidence(
    s: StoreModel,
    header: EntityRevisionHeaderModel,
    canonical_name: Seq<char>,
    aliases: Seq<Seq<char>>,
    dependent: RecordRef,
    source: RecordRef,
)
    ensures
        depends_on(s.with_entity(header, canonical_name, aliases), dependent, source) <==> depends_on(
            s,
            dependent,
            source,
        ) || (dependent == RecordRef::Entity(header.id) && exists|i: int|
            0 <= i < header.evidence_ids.len() && source == RecordRef::Evidence(#[trigger] header.evidence_ids[i])),
{
    reveal(StoreModel::with_entity);
    broadcast use crate::writing::put_dependencies;

    let record = RecordRef::Entity(header.id);
    let base = s.put(WriteModel::PutEntity(revision_of(header.id.0, 1), header)).put(
        WriteModel::PutHead(record, 1),
    ).put(WriteModel::PutEntityPayload(header.id, EntityPayloadModel { canonical_name, aliases }));
    let ids = header.evidence_ids;
    supports_are_filed(base, ids, record, ids.len());
    indexing_files_no_dependencies(
        base.supported(ids, record, ids.len()),
        record,
        1,
        header.scope,
        header.temporal,
        entity_text(canonical_name, aliases, aliases.len()),
    );
    let key = DependencyKey { source, dependent };
    assert(base.supported(ids, record, ids.len()).dependencies.contains_key(key) <==> base.dependencies.contains_key(
        key,
    ) || (key.dependent == record && exists|i: int|
        0 <= i < ids.len() && key.source == RecordRef::Evidence(#[trigger] ids[i])));
}

/// A relation is filed as a dependent of both its ends and of each piece of its evidence,
/// and of nothing else.
pub proof fn relations_rest_on_their_ends(
    s: StoreModel,
    header: SemanticRelationRevisionHeaderModel,
    qualifier: Option<Seq<char>>,
    dependent: RecordRef,
    source: RecordRef,
)
    ensures
        depends_on(s.with_relation(header, qualifier), dependent, source) <==> depends_on(s, dependent, source) || (
        dependent == RecordRef::SemanticRelation(header.id) && (source == header.from || source == header.to || exists|
            i: int,
        | 0 <= i < header.evidence_ids.len() && source == RecordRef::Evidence(#[trigger] header.evidence_ids[i]))),
{
    reveal(StoreModel::with_relation);
    broadcast use crate::writing::put_dependencies;

    let record = RecordRef::SemanticRelation(header.id);
    let base = s.put(WriteModel::PutRelation(revision_of(header.id.0, 1), header)).put(
        WriteModel::PutHead(record, 1),
    ).put(WriteModel::PutRelationPayload(header.id, RelationPayloadModel { qualifier })).depends(
        header.from,
        record,
    ).depends(header.to, record);
    let ids = header.evidence_ids;
    supports_are_filed(base, ids, record, ids.len());
    let key = DependencyKey { source, dependent };
    assert(base.supported(ids, record, ids.len()).dependencies.contains_key(key) <==> base.dependencies.contains_key(
        key,
    ) || (key.dependent == record && exists|i: int|
        0 <= i < ids.len() && key.source == RecordRef::Evidence(#[trigger] ids[i])));
}

/// A proposal is filed as a dependent of the evidence that it pins and of every record
/// that one of its changes relates, retracts or supersedes.
pub proof fn proposals_rest_on_what_they_pin(
    s: StoreModel,
    header: ProposalRevisionHeader,
    bundle: NewProposalBundleModel,
    digest: [u8; 32],
    source: RecordRef,
)
    requires
        proposal_dependencies(bundle.source_evidence, bundle.changes).finite(),
    ensures
        (exists|i: int| 0 <= i < bundle.source_evidence.len() && source == RecordRef::Evidence(
            (#[trigger] bundle.source_evidence[i]).id,
        )) ==> depends_on(s.with_proposal(header, bundle, digest), RecordRef::Proposal(header.id), source),
        (exists|i: int|
            0 <= i < bundle.changes.len() && match #[trigger] bundle.changes[i] {
                ProposalChangeModel::CreateRelation { from, to, .. } => (from matches ProposalEndpoint::Existing(pin)
                    && pin.record == source) || (to matches ProposalEndpoint::Existing(pin) && pin.record == source),
                ProposalChangeModel::Retract { target } => target.record == source,
                ProposalChangeModel::Supersede { target, .. } => target.record == source,
                _ => false,
            }) ==> depends_on(s.with_proposal(header, bundle, digest), RecordRef::Proposal(header.id), source),
{
    reveal(StoreModel::with_proposal);
    broadcast use crate::writing::put_dependencies;

    let record = RecordRef::Proposal(header.id);
    let wanted = proposal_dependencies(bundle.source_evidence, bundle.changes);
    in_order_lists(wanted);
    let sources = in_order(wanted);
    let base = s.put(WriteModel::PutProposal(revision_of(header.id.0, 1), header)).put(WriteModel::PutHead(record, 1)).put(
        WriteModel::PutPending(header.id),
    ).put(
        WriteModel::PutProposalSource(
            bundle.source_job_id,
            ProposalSourceIndex { proposal_id: header.id, input_digest: digest },
        ),
    ).put(
        WriteModel::PutProposalPayload(
            header.id,
            ProposalPayloadModel { source_evidence: bundle.source_evidence, changes: bundle.changes },
        ),
    );
    rests_are_filed(base, sources, record, sources.len());
    if wanted.contains(source) {
        assert(sources.contains(source));
        let i = sources.index_of(source);
        assert(source == sources[i]);
        assert(base.rests_on(sources, record, sources.len()).dependencies.contains_key(
            DependencyKey { source, dependent: record },
        ));
    }
    if exists|i: int|
        0 <= i < bundle.changes.len() && match #[trigger] bundle.changes[i] {
            ProposalChangeModel::CreateRelation { from, to, .. } => (from matches ProposalEndpoint::Existing(pin)
                && pin.record == source) || (to matches ProposalEndpoint::Existing(pin) && pin.record == source),
            ProposalChangeModel::Retract { target } => target.record == source,
            ProposalChangeModel::Supersede { target, .. } => target.record == source,
            _ => false,
        } {
        let i = choose|i: int|
            0 <= i < bundle.changes.len() && match #[trigger] bundle.changes[i] {
                ProposalChangeModel::CreateRelation { from, to, .. } => (from matches ProposalEndpoint::Existing(pin)
                    && pin.record == source) || (to matches ProposalEndpoint::Existing(pin) && pin.record == source),
                ProposalChangeModel::Retract { target } => target.record == source,
                ProposalChangeModel::Supersede { target, .. } => target.record == source,
                _ => false,
            };
        let pin = match bundle.changes[i] {
            ProposalChangeModel::CreateRelation { from, to, .. } => if from matches ProposalEndpoint::Existing(pin)
                && pin.record == source {
                from->Existing_0
            } else {
                to->Existing_0
            },
            ProposalChangeModel::Retract { target } => target,
            ProposalChangeModel::Supersede { target, .. } => target,
            _ => arbitrary(),
        };
        assert(pin.record == source);
        assert(change_pins(bundle.changes[i], pin));
        assert(pins_in(bundle.changes).contains(pin));
        assert(wanted.contains(source));
    }
}

/// A review is filed as a dependent of the proposal, of every candidate of the recall case
/// that it was shown, and of every record that its findings pin.
pub proof fn reviews_rest_on_what_they_were_shown(
    s: StoreModel,
    next: ProposalRevisionHeader,
    review: ProposalReviewCaseHeader,
    findings: Seq<ProposalReviewFindingModel>,
    candidates: Seq<RecallCaseCandidate>,
    source: RecordRef,
)
    requires
        review_dependencies(next.id, candidates, findings).finite(),
    ensures
        ({
            let sources = in_order(review_dependencies(next.id, candidates, findings));
            let after = s.with_review(next, review, findings, sources);
            source == RecordRef::Proposal(next.id) || (exists|i: int|
                0 <= i < candidates.len() && (#[trigger] candidates[i]).record == source) || (exists|i: int, j: int|
                0 <= i < findings.len() && 0 <= j < findings[i].pins.len() && (
                #[trigger] findings[i].pins[j]).record == source) ==> depends_on(
                after,
                RecordRef::ProposalReview(review.id),
                source,
            )
        }),
{
    reveal(StoreModel::with_review);
    broadcast use crate::writing::put_dependencies;

    let wanted = review_dependencies(next.id, candidates, findings);
    in_order_lists(wanted);
    let sources = in_order(wanted);
    let record = RecordRef::ProposalReview(review.id);
    let listed = s.put(WriteModel::PutProposal(revision_of(next.id.0, next.revision), next)).put(
        WriteModel::PutHead(RecordRef::Proposal(next.id), next.revision),
    ).put(WriteModel::PutReview(revision_of(review.id.0, 1), review)).put(WriteModel::PutHead(record, 1)).put(
        WriteModel::DropPending(next.id),
    );
    let awaited = if awaits_adjudication(next.status) {
        listed.put(WriteModel::PutAwaiting(next.id))
    } else {
        listed
    };
    let base = awaited.put(
        WriteModel::PutLatestReview(next.id, ProposalReviewPointer { review_case_id: review.id, revision: 1 }),
    ).put(WriteModel::PutReviewPayload(review.id, ProposalReviewPayloadModel { findings }));
    rests_are_filed(base, sources, record, sources.len());
    if wanted.contains(source) {
        assert(sources.contains(source));
        let i = sources.index_of(source);
        assert(source == sources[i]);
        assert(base.rests_on(sources, record, sources.len()).dependencies.contains_key(
            DependencyKey { source, dependent: record },
        ));
    }
}

/// A claim that was created rests on all of its evidence.
pub proof fn created_claims_rest_on_their_evidence(
    s: StoreModel,
    operation: OperationContext,
    input: NewClaimModel,
    request: Seq<u8>,
    fresh: FreshModel,
    after: StoreModel,
    receipt: ClaimReceipt,
    id: EvidenceId,
)
    requires
        s.create_claim(operation, input, request, fresh) == MemoryResult::Ok((after, receipt)),
        !s.operations.contains_key(operation.id),
        input.evidence_ids.contains(id),
    ensures
        depends_on(after, RecordRef::Claim(receipt.id), RecordRef::Evidence(id)),
{
    reveal(StoreModel::replay);
    broadcast use crate::writing::put_dependencies;

    claims_are_heard(operation.actor, input);
    let wanted = StoreModel::claim_request(operation.actor, input)->Ok_0;
    assert(wanted.evidence_ids.to_set().contains(id)) by {
        assert(input.evidence_ids.to_set().contains(id));
    }
    let i = wanted.evidence_ids.index_of(id);
    assert(wanted.evidence_ids[i] == id);
    let header = ClaimRevisionHeaderModel {
        id: ClaimId(fresh.ids[1]),
        revision: 1,
        previous_revision: None,
        domain: wanted.domain,
        scope: wanted.scope,
        temporal: wanted.temporal,
        evidence_ids: wanted.evidence_ids,
        state: RecordState::Active,
        recorded_at_ms: fresh.recorded_at_ms,
        operation_id: operation.id,
    };
    claims_rest_on_their_evidence(
        s,
        header,
        wanted.proposition,
        RecordRef::Claim(receipt.id),
        RecordRef::Evidence(id),
    );
    assert(RecordRef::Evidence(id) == RecordRef::Evidence(header.evidence_ids[i]));
    assert(depends_on(
        s.with_claim(header, wanted.proposition),
        RecordRef::Claim(receipt.id),
        RecordRef::Evidence(id),
    ));
}

/// A relation that was created rests on both its ends and on all of its evidence.
pub proof fn created_relations_rest_on_their_ends(
    s: StoreModel,
    operation: OperationContext,
    input: NewSemanticRelationModel,
    request: Seq<u8>,
    fresh: FreshModel,
    after: StoreModel,
    receipt: RelationReceipt,
    source: RecordRef,
)
    requires
        s.create_semantic_relation(operation, input, request, fresh) == MemoryResult::Ok((after, receipt)),
        !s.operations.contains_key(operation.id),
        source == input.from || source == input.to || (source matches RecordRef::Evidence(id)
            && input.evidence_ids.contains(id)),
    ensures
        depends_on(after, RecordRef::SemanticRelation(receipt.id), source),
{
    reveal(StoreModel::replay);
    broadcast use crate::writing::put_dependencies;

    relations_are_heard(operation.actor, input);
    let wanted = StoreModel::relation_request(operation.actor, input)->Ok_0;
    let header = SemanticRelationRevisionHeaderModel {
        id: RelationId(fresh.ids[1]),
        revision: 1,
        previous_revision: None,
        from: wanted.from,
        to: wanted.to,
        kind: wanted.kind,
        scope: wanted.scope,
        evidence_ids: wanted.evidence_ids,
        state: RecordState::Active,
        recorded_at_ms: fresh.recorded_at_ms,
        operation_id: operation.id,
    };
    if let RecordRef::Evidence(id) = source {
        if input.evidence_ids.contains(id) {
            assert(input.evidence_ids.to_set().contains(id));
            assert(wanted.evidence_ids.to_set().contains(id));
            let i = wanted.evidence_ids.index_of(id);
            assert(source == RecordRef::Evidence(header.evidence_ids[i]));
        }
    }
    relations_rest_on_their_ends(s, header, wanted.qualifier, RecordRef::SemanticRelation(receipt.id), source);
    assert(depends_on(
        s.with_relation(header, wanted.qualifier),
        RecordRef::SemanticRelation(receipt.id),
        source,
    ));
}

/// An imported snapshot rests on its collection, and the snapshot and its evidence rest on
/// each other.
pub proof fn snapshots_rest_on_their_collections(
    s: StoreModel,
    operation: OperationContext,
    input: NewArtifactSnapshotModel,
    metadata: Seq<u8>,
    fresh: FreshModel,
    after: StoreModel,
    receipt: ArtifactSnapshotReceipt,
)
    requires
        s.import_artifact_snapshot(operation, input, metadata, fresh) == MemoryResult::Ok((after, receipt)),
        !s.operations.contains_key(operation.id),
    ensures
        depends_on(
            after,
            RecordRef::ArtifactSnapshot(receipt.id),
            RecordRef::ArtifactCollection(input.collection_id),
        ),
        depends_on(after, RecordRef::Evidence(receipt.evidence.id), RecordRef::ArtifactSnapshot(receipt.id)),
        depends_on(after, RecordRef::ArtifactSnapshot(receipt.id), RecordRef::Evidence(receipt.evidence.id)),
{
    reveal(StoreModel::replay);
    broadcast use {crate::writing::put_dependencies, evidence_files_no_dependencies};
}

/// Each passage rests on its snapshot, and the passage and its evidence rest on each other.
pub proof fn passages_rest_on_their_snapshots(
    s: StoreModel,
    operation: OperationContext,
    snapshot: ArtifactSnapshotHeader,
    passages: Seq<NewArtifactPassageModel>,
    fresh: FreshModel,
    n: nat,
    i: int,
)
    requires
        0 <= i < n,
    ensures
        ({
            let after = s.with_passages(operation, snapshot, passages, fresh, n);
            let passage = RecordRef::ArtifactPassage(ArtifactPassageId(fresh.ids[2 * i + 1]));
            let evidence = RecordRef::Evidence(EvidenceId(fresh.ids[2 * i + 2]));
            &&& depends_on(after, passage, RecordRef::ArtifactSnapshot(snapshot.id))
            &&& depends_on(after, evidence, passage)
            &&& depends_on(after, passage, evidence)
        }),
    decreases n,
{
    broadcast use {crate::writing::put_dependencies, evidence_files_no_dependencies};

    let m = (n - 1) as nat;
    if i < m {
        passages_rest_on_their_snapshots(s, operation, snapshot, passages, fresh, m, i);
    }
}

} // verus!
