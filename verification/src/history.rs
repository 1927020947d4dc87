//! What later changes leave as it was.
use vstd::prelude::*;
use crate::activation::BaselinePin;
use crate::artifacts::MAX_ARTIFACT_SNAPSHOT_BYTES;
use crate::bundles::{proposal_dependencies, sound_bundle};
use crate::clock::FreshModel;
use crate::context::{OperationContext, TemporalFacts};
use crate::digest::{TERM_DOMAIN, content_digest, mutation_digest_of};
use crate::fault::MemoryResult;
use crate::ids::{ActivationTraceId, OperationId, RelationId};
use crate::inspect::{lookup, revision_of};
use crate::keys::{PostingKey, RevisionKey, TimeKey, record_id};
use crate::order::in_order;
use crate::readback::{filed_trace_aside, indexing_aside, support_aside};
use crate::records::artifact::{
    ArtifactSnapshotBlobModel, ArtifactSnapshotReceipt, NewArtifactSnapshotModel,
};
use crate::records::claim::{
    InspectedRecordModel, NewSemanticRelationModel, RelationReceipt, RememberReceipt,
    RememberUserClaimModel,
};
use crate::records::evidence::{EvidenceClass, RecordRef, RecordState, Scope};
use crate::records::proposal::{
    NewProposalBundleModel, NewProposalReviewModel, ProposalAdjudication,
    ProposalAdjudicationReceiptModel, ProposalDecision, ProposalPayloadModel, ProposalReceipt,
    ProposalReviewReceipt, ProposalRevisionHeader, ProposalSourceIndex, ProposalStatus,
};
use crate::records::receipt::ReceiptModel;
use crate::records::relation::{
    ActivationTraceHeader, ActivationTraceModel, ActivationTracePayloadModel,
    NewRelationSignalBatchModel, RelationHeadWeight, RelationSignalBatchReceiptModel,
    ShadowActivationRequestModel,
};
use crate::signals::signals_request;
use crate::staging::document_of;
use crate::store::{StoreModel, WriteModel};

verus! {

/// A claim that a user has remembered reads back, and so does, to the letter, the assertion
/// that it rests on.
pub proof fn remembered_claims_read_back(
    s: StoreModel,
    operation: OperationContext,
    input: RememberUserClaimModel,
    request: Seq<u8>,
    fresh: FreshModel,
    after: StoreModel,
    receipt: RememberReceipt,
    wanted: RememberUserClaimModel,
)
    requires
        s.remember_user_claim(operation, input, request, fresh) == MemoryResult::Ok((after, receipt)),
        StoreModel::remember_request(operation.actor, input) == MemoryResult::Ok(wanted),
        !s.operations.contains_key(operation.id),
    ensures
        match after.inspect_evidence(receipt.evidence.id) {
            Ok(Some(evidence)) => evidence.text == Some(input.evidence_text) && evidence.availability.state
                == RecordState::Active && evidence.header.class == EvidenceClass::UserAssertion
                && evidence.header.scope == wanted.scope && evidence.header.temporal == wanted.temporal,
            _ => false,
        },
        match after.inspect_claim(receipt.claim.id) {
            Ok(Some(claim)) => claim.proposition == Some(wanted.proposition) && claim.header.state
                == RecordState::Active && claim.header.revision == 1 && claim.header.evidence_ids
                == seq![receipt.evidence.id] && claim.header.domain == wanted.domain && claim.header.scope
                == wanted.scope && claim.header.temporal == wanted.temporal,
            _ => false,
        },
{
    broadcast use {indexing_aside, support_aside};

    reveal(StoreModel::remember_request);
    reveal(StoreModel::replay);
    broadcast use crate::writing::parts_after_put;
    reveal(StoreModel::with_evidence);
    reveal(StoreModel::with_claim);
    reveal(StoreModel::inspect_evidence);
    reveal(StoreModel::evidence_at);
    reveal(StoreModel::inspect_claim);
    reveal(StoreModel::claim_at);
    reveal(StoreModel::text_unless_purged);
}

/// A snapshot is materialized byte for byte as it was imported.
pub proof fn imported_snapshots_materialize(
    s: StoreModel,
    operation: OperationContext,
    input: NewArtifactSnapshotModel,
    metadata: Seq<u8>,
    fresh: FreshModel,
    after: StoreModel,
    receipt: ArtifactSnapshotReceipt,
)
    requires
        s.import_artifact_snapshot(operation, input, metadata, fresh) == MemoryResult::Ok((after, receipt)),
        !s.operations.contains_key(operation.id),
    ensures
        after.materialized(receipt.id) == MemoryResult::Ok(
            Some(
                ArtifactSnapshotBlobModel {
                    id: receipt.id,
                    media_type: input.media_type,
                    content_digest: content_digest(input.bytes),
                    bytes: input.bytes,
                },
            ),
        ),
{
    broadcast use indexing_aside;

    reveal(StoreModel::replay);
    broadcast use crate::writing::parts_after_put;
    reveal(StoreModel::with_evidence);
    reveal(StoreModel::inspect_artifact_snapshot);
    reveal(StoreModel::snapshot_at);
    reveal(StoreModel::materialized);
    assert(input.bytes.len() <= MAX_ARTIFACT_SNAPSHOT_BYTES);
}

/// A relation reads back as it was made.
pub proof fn created_relations_read_back(
    s: StoreModel,
    operation: OperationContext,
    input: NewSemanticRelationModel,
    request: Seq<u8>,
    fresh: FreshModel,
    after: StoreModel,
    receipt: RelationReceipt,
    wanted: NewSemanticRelationModel,
)
    requires
        s.create_semantic_relation(operation, input, request, fresh) == MemoryResult::Ok((after, receipt)),
        StoreModel::relation_request(operation.actor, input) == MemoryResult::Ok(wanted),
        !s.operations.contains_key(operation.id),
    ensures
        match after.inspect_semantic_relation(receipt.id) {
            Ok(Some(relation)) => relation.payload_available && relation.qualifier == wanted.qualifier
                && relation.header.from == wanted.from && relation.header.to == wanted.to && relation.header.kind
                == wanted.kind && relation.header.scope == wanted.scope && relation.header.evidence_ids
                == wanted.evidence_ids && relation.header.state == RecordState::Active
                && relation.header.revision == 1,
            _ => false,
        },
{
    broadcast use support_aside;

    reveal(StoreModel::replay);
    broadcast use crate::writing::parts_after_put;
    reveal(StoreModel::with_relation);
    reveal(StoreModel::inspect_semantic_relation);
    reveal(StoreModel::relation_at);
}

/// Whether two states of a store agree on one revision of a record, and on all payloads.
spec fn same_revision(a: StoreModel, b: StoreModel, key: RevisionKey) -> bool {
    &&& lookup(a.evidence_availability, key) == lookup(b.evidence_availability, key)
    &&& lookup(a.claims, key) == lookup(b.claims, key)
    &&& lookup(a.entities, key) == lookup(b.entities, key)
    &&& lookup(a.relations, key) == lookup(b.relations, key)
    &&& lookup(a.proposals, key) == lookup(b.proposals, key)
    &&& lookup(a.proposal_reviews, key) == lookup(b.proposal_reviews, key)
    &&& lookup(a.artifact_collection_availability, key) == lookup(b.artifact_collection_availability, key)
    &&& lookup(a.artifact_snapshot_availability, key) == lookup(b.artifact_snapshot_availability, key)
    &&& lookup(a.artifact_passage_availability, key) == lookup(b.artifact_passage_availability, key)
    &&& a.evidence == b.evidence
    &&& a.artifact_collections == b.artifact_collections
    &&& a.artifact_snapshots == b.artifact_snapshots
    &&& a.artifact_passages == b.artifact_passages
    &&& a.texts == b.texts
    &&& a.entity_payloads == b.entity_payloads
    &&& a.relation_payloads == b.relation_payloads
    &&& a.proposal_payloads == b.proposal_payloads
    &&& a.review_payloads == b.review_payloads
    &&& a.snapshot_payloads == b.snapshot_payloads
}

proof fn appending_keeps_revisions(
    s: StoreModel,
    staged: StoreModel,
    record: RecordRef,
    expected_revision: u64,
    state: RecordState,
    operation_id: OperationId,
    recorded_at_ms: i64,
    revision: u64,
)
    requires
        s.appended(staged, record, expected_revision, state, operation_id, recorded_at_ms) is Ok,
        revision != expected_revision + 1,
    ensures
        same_revision(
            staged,
            s.appended(staged, record, expected_revision, state, operation_id, recorded_at_ms)->Ok_0.0,
            revision_of(record_id(record), revision),
        ),
{
    reveal(StoreModel::appended);
    reveal(StoreModel::next_revision);
    reveal(StoreModel::unlisted_proposal);
    broadcast use crate::writing::parts_after_put;
}

/// A further revision of a record leaves its other revisions readable as they were.
pub proof fn revisions_are_appended(
    s: StoreModel,
    staged: StoreModel,
    record: RecordRef,
    expected_revision: u64,
    state: RecordState,
    operation_id: OperationId,
    recorded_at_ms: i64,
    revision: u64,
)
    requires
        s.appended(staged, record, expected_revision, state, operation_id, recorded_at_ms) is Ok,
        revision != expected_revision + 1,
    ensures
        s.appended(
            staged,
            record,
            expected_revision,
            state,
            operation_id,
            recorded_at_ms,
        )->Ok_0.0.inspect_revision(record, revision) == staged.inspect_revision(record, revision),
{
    appending_keeps_revisions(
        s,
        staged,
        record,
        expected_revision,
        state,
        operation_id,
        recorded_at_ms,
        revision,
    );
    reveal(StoreModel::inspect_revision);
    reveal(StoreModel::text_unless_purged);
    match record {
        RecordRef::Evidence(_) => {
            reveal(StoreModel::evidence_at);
        },
        RecordRef::Claim(_) => {
            reveal(StoreModel::claim_at);
        },
        RecordRef::Entity(_) => {
            reveal(StoreModel::entity_at);
        },
        RecordRef::SemanticRelation(_) => {
            reveal(StoreModel::relation_at);
        },
        RecordRef::Proposal(_) => {
            reveal(StoreModel::proposal_at);
        },
        RecordRef::ProposalReview(_) => {
            reveal(StoreModel::review_at);
        },
        RecordRef::ArtifactCollection(_) => {
            reveal(StoreModel::collection_at);
        },
        RecordRef::ArtifactSnapshot(_) => {
            reveal(StoreModel::snapshot_at);
        },
        RecordRef::ArtifactPassage(_) => {
            reveal(StoreModel::passage_at);
        },
    }
}

/// Whether a record has no entry in any index.
pub open spec fn is_unindexed(s: StoreModel, record: RecordRef) -> bool {
    &&& !s.lexical_docs.contains_key(record)
    &&& forall|k: PostingKey| #[trigger] s.lexical_postings.contains_key(k) ==> k.record != record
    &&& forall|k: TimeKey| #[trigger] s.time_index.contains_key(k) ==> k.record != record
}

/// Whether one of the first `n` hashes is that of a key.
spec fn hashed_within(hashes: Seq<[u8; 32]>, n: nat, hash: [u8; 32]) -> bool {
    exists|i: int| 0 <= i < n && #[trigger] hashes[i] == hash
}

proof fn postings_grow(s: StoreModel, record: RecordRef, hashes: Seq<[u8; 32]>, n: nat)
    ensures
        s.with_postings(record, hashes, n) == (StoreModel {
            lexical_postings: s.with_postings(record, hashes, n).lexical_postings,
            ..s
        }),
        forall|k: PostingKey| #[trigger]
            s.with_postings(record, hashes, n).lexical_postings.contains_key(k) <==> s.lexical_postings.contains_key(
                k,
            ) || (k.record == record && k.domain == TERM_DOMAIN && hashed_within(hashes, n, k.hash)),
    decreases n,
{
    reveal(StoreModel::put);
    if n > 0 {
        postings_grow(s, record, hashes, (n - 1) as nat);
        let before = s.with_postings(record, hashes, (n - 1) as nat);
        let after = s.with_postings(record, hashes, n);
        assert forall|k: PostingKey| #[trigger] after.lexical_postings.contains_key(k)
            <==> s.lexical_postings.contains_key(k) || (k.record == record && k.domain == TERM_DOMAIN
            && hashed_within(hashes, n, k.hash)) by {
            assert(after.lexical_postings.contains_key(k) <==> before.lexical_postings.contains_key(k) || k == (
            PostingKey { domain: TERM_DOMAIN, hash: hashes[n - 1], record }));
            if hashed_within(hashes, (n - 1) as nat, k.hash) {
                let i = choose|i: int| 0 <= i < n - 1 && #[trigger] hashes[i] == k.hash;
                assert(hashes[i] == k.hash);
            }
            if k.hash == hashes[n - 1] {
                assert(hashed_within(hashes, n, k.hash));
            }
        }
    }
}

proof fn postings_shrink(s: StoreModel, record: RecordRef, hashes: Seq<[u8; 32]>, n: nat)
    ensures
        s.without_postings(record, hashes, n) == (StoreModel {
            lexical_postings: s.without_postings(record, hashes, n).lexical_postings,
            ..s
        }),
        forall|k: PostingKey| #[trigger]
            s.without_postings(record, hashes, n).lexical_postings.contains_key(k)
                <==> s.lexical_postings.contains_key(k) && !(k.record == record && k.domain == TERM_DOMAIN
                && hashed_within(hashes, n, k.hash)),
    decreases n,
{
    reveal(StoreModel::put);
    if n > 0 {
        postings_shrink(s, record, hashes, (n - 1) as nat);
        let before = s.without_postings(record, hashes, (n - 1) as nat);
        let after = s.without_postings(record, hashes, n);
        assert forall|k: PostingKey| #[trigger] after.lexical_postings.contains_key(k)
            <==> s.lexical_postings.contains_key(k) && !(k.record == record && k.domain == TERM_DOMAIN
            && hashed_within(hashes, n, k.hash)) by {
            assert(after.lexical_postings.contains_key(k) <==> before.lexical_postings.contains_key(k) && k != (
            PostingKey { domain: TERM_DOMAIN, hash: hashes[n - 1], record }));
            if hashed_within(hashes, (n - 1) as nat, k.hash) {
                let i = choose|i: int| 0 <= i < n - 1 && #[trigger] hashes[i] == k.hash;
                assert(hashes[i] == k.hash);
            }
            if k.hash == hashes[n - 1] {
                assert(hashed_within(hashes, n, k.hash));
            }
        }
    }
}

/// Taking a record out of the index undoes putting it in.
pub proof fn unindexing_undoes_indexing(
    s: StoreModel,
    record: RecordRef,
    revision: u64,
    scope: Scope,
    temporal: TemporalFacts,
    text: Seq<char>,
)
    requires
        is_unindexed(s, record),
    ensures
        s.indexed(record, revision, scope, temporal, text).unindexed(
            s.indexed(record, revision, scope, temporal, text),
            record,
        ) == s,
{
    reveal(StoreModel::indexed);
    reveal(StoreModel::unindexed);
    reveal(StoreModel::put);
    let document = document_of(s.digest_key@, record, revision, scope, temporal, text);
    let hashes = document.term_hashes;
    let filed = s.put(WriteModel::PutLexicalDoc(record, document));
    postings_grow(filed, record, hashes, hashes.len());
    let indexed = s.indexed(record, revision, scope, temporal, text);
    assert(lookup(indexed.lexical_docs, record) == Some(document));
    postings_shrink(indexed, record, hashes, hashes.len());
    let after = indexed.unindexed(indexed, record);
    assert(after.lexical_docs =~= s.lexical_docs);
    assert(after.lexical_postings =~= s.lexical_postings);
    assert(after.time_index =~= s.time_index);
}

/// Of a record whose payload is gone, no revision tells more than its header, however old.
pub proof fn gone_payloads_do_not_read_at_any_revision(s: StoreModel, record: RecordRef, revision: u64)
    requires
        !s.has_payload(record),
    ensures
        match s.inspect_revision(record, revision) {
            Some(InspectedRecordModel::Evidence(found)) => found.text is None,
            Some(InspectedRecordModel::Claim(found)) => found.proposition is None,
            Some(InspectedRecordModel::Entity(found)) => found.canonical_name is None && found.aliases.len() == 0,
            Some(InspectedRecordModel::SemanticRelation(found)) => found.qualifier is None
                && !found.payload_available,
            Some(InspectedRecordModel::Proposal(found)) => found.changes is None,
            Some(InspectedRecordModel::ProposalReview(found)) => found.findings is None,
            Some(InspectedRecordModel::ArtifactCollection(found)) => found.label is None,
            Some(InspectedRecordModel::ArtifactSnapshot(found)) => found.media_type is None
                && found.content_digest is None && !found.payload_available,
            Some(InspectedRecordModel::ArtifactPassage(found)) => found.text is None,
            None => true,
        },
{
    reveal(StoreModel::has_payload);
    reveal(StoreModel::inspect_revision);
    reveal(StoreModel::text_unless_purged);
    match record {
        RecordRef::Evidence(_) => {
            reveal(StoreModel::evidence_at);
        },
        RecordRef::Claim(_) => {
            reveal(StoreModel::claim_at);
        },
        RecordRef::Entity(_) => {
            reveal(StoreModel::entity_at);
        },
        RecordRef::SemanticRelation(_) => {
            reveal(StoreModel::relation_at);
        },
        RecordRef::Proposal(_) => {
            reveal(StoreModel::proposal_at);
        },
        RecordRef::ProposalReview(_) => {
            reveal(StoreModel::review_at);
        },
        RecordRef::ArtifactCollection(_) => {
            reveal(StoreModel::collection_at);
        },
        RecordRef::ArtifactSnapshot(_) => {
            reveal(StoreModel::snapshot_at);
        },
        RecordRef::ArtifactPassage(_) => {
            reveal(StoreModel::passage_at);
        },
    }
}

/// Whether two states of a store hold the same evidence, claims, entities and relations,
/// indexed the same.
pub open spec fn same_semantics(a: StoreModel, b: StoreModel) -> bool {
    &&& a.evidence == b.evidence
    &&& a.evidence_availability == b.evidence_availability
    &&& a.claims == b.claims
    &&& a.entities == b.entities
    &&& a.relations == b.relations
    &&& a.texts == b.texts
    &&& a.entity_payloads == b.entity_payloads
    &&& a.relation_payloads == b.relation_payloads
    &&& a.lexical_docs == b.lexical_docs
    &&& a.lexical_postings == b.lexical_postings
    &&& a.time_index == b.time_index
    &&& a.recall_cases == b.recall_cases
}

broadcast proof fn resting_stays_apart(s: StoreModel, sources: Seq<RecordRef>, dependent: RecordRef, n: nat)
    ensures
        same_semantics(s, #[trigger] s.rests_on(sources, dependent, n)),
    decreases n,
{
    broadcast use crate::writing::parts_after_put;
    if n > 0 {
        resting_stays_apart(s, sources, dependent, (n - 1) as nat);
    }
}

/// Submitting a proposal activates nothing.
pub proof fn proposals_activate_nothing(
    s: StoreModel,
    operation: OperationContext,
    input: NewProposalBundleModel,
    request: Seq<u8>,
    fresh: FreshModel,
    after: StoreModel,
    receipt: ProposalReceipt,
)
    requires
        s.submit_proposal(operation, input, request, fresh) == MemoryResult::Ok((after, receipt)),
    ensures
        same_semantics(s, after),
{
    broadcast use crate::writing::parts_after_put;
    reveal(StoreModel::with_proposal);
    let digest = mutation_digest_of(s.digest_key@, "submit_proposal"@, operation.actor, request);
    let bundle = sound_bundle(input)->Ok_0;
    if s.replay(operation.id, digest) == MemoryResult::Ok(None::<ReceiptModel>) && lookup(
        s.proposal_sources,
        bundle.source_job_id,
    ) is None {
        let header = ProposalRevisionHeader {
            id: receipt.id,
            revision: 1,
            previous_revision: None,
            source_job_id: bundle.source_job_id,
            scope: bundle.scope,
            status: ProposalStatus::PendingReview,
            state: RecordState::Active,
            recorded_at_ms: fresh.recorded_at_ms,
            operation_id: operation.id,
        };
        let record = RecordRef::Proposal(receipt.id);
        let sources = in_order(proposal_dependencies(bundle.source_evidence, bundle.changes));
        let filed = s.put(WriteModel::PutProposal(revision_of(header.id.0, 1), header)).put(
            WriteModel::PutHead(record, 1),
        ).put(WriteModel::PutPending(header.id)).put(
            WriteModel::PutProposalSource(
                bundle.source_job_id,
                ProposalSourceIndex { proposal_id: header.id, input_digest: digest },
            ),
        ).put(
            WriteModel::PutProposalPayload(
                header.id,
                ProposalPayloadModel { source_evidence: bundle.source_evidence, changes: bundle.changes },
            ),
        );
        resting_stays_apart(filed, sources, record, sources.len());
        assert(same_semantics(s, filed));
    }
}

/// Reviewing a proposal activates nothing.
pub proof fn reviews_activate_nothing(
    s: StoreModel,
    operation: OperationContext,
    input: NewProposalReviewModel,
    request: Seq<u8>,
    fresh: FreshModel,
    after: StoreModel,
    receipt: ProposalReviewReceipt,
)
    requires
        s.review_proposal(operation, input, request, fresh) == MemoryResult::Ok((after, receipt)),
    ensures
        same_semantics(s, after),
{
    broadcast use resting_stays_apart;

    broadcast use crate::writing::parts_after_put;
    reveal(StoreModel::with_review);
}

/// A proposal that is turned down changes nothing that recall reads.
pub proof fn rejections_activate_nothing(
    s: StoreModel,
    operation: OperationContext,
    input: ProposalAdjudication,
    request: Seq<u8>,
    fresh: FreshModel,
    after: StoreModel,
    receipt: ProposalAdjudicationReceiptModel,
)
    requires
        s.adjudicate_proposal(operation, input, request, fresh) == MemoryResult::Ok((after, receipt)),
        input.decision == ProposalDecision::Reject,
    ensures
        same_semantics(s, after),
{
    broadcast use crate::writing::parts_after_put;
    reveal(StoreModel::stale_acknowledged);
    reveal(StoreModel::closed);
}

proof fn put_signals_are_apart(
    s: StoreModel,
    operation: OperationContext,
    wanted: NewRelationSignalBatchModel,
    heads: Seq<RelationHeadWeight>,
    fresh: FreshModel,
    n: nat,
)
    requires
        s.signals_put(operation, wanted, heads, fresh, n) is Ok,
    ensures
        same_semantics(s, s.signals_put(operation, wanted, heads, fresh, n)->Ok_0.0),
    decreases n,
{
    if n > 0 {
        put_signals_are_apart(s, operation, wanted, heads, fresh, (n - 1) as nat);
        broadcast use crate::writing::parts_after_put;
        reveal(StoreModel::signal_put);
        reveal(StoreModel::with_signal);
        reveal(StoreModel::signal_filed);
        reveal(StoreModel::signal_moved);
    }
}

/// Signals score relations between records and change none.
pub proof fn signals_activate_nothing(
    s: StoreModel,
    operation: OperationContext,
    input: NewRelationSignalBatchModel,
    request: Seq<u8>,
    fresh: FreshModel,
    after: StoreModel,
    receipt: RelationSignalBatchReceiptModel,
)
    requires
        s.put_relation_signals(operation, input, request, fresh) == MemoryResult::Ok((after, receipt)),
    ensures
        same_semantics(s, after),
{
    let digest = mutation_digest_of(s.digest_key@, "put_relation_signals"@, operation.actor, request);
    let wanted = signals_request(operation.actor, input)->Ok_0;
    if s.replay(operation.id, digest) == MemoryResult::Ok(None::<ReceiptModel>) {
        let heads = s.signal_heads(wanted.evaluator, wanted.profile)->Ok_0;
        put_signals_are_apart(s, operation, wanted, heads, fresh, wanted.signals.len());
        broadcast use crate::writing::parts_after_put;
    }
}

proof fn filed_trace_is_apart(s: StoreModel, candidates: Seq<BaselinePin>, id: ActivationTraceId, n: nat)
    ensures
        same_semantics(s, s.trace_filed(candidates, id, n)),
    decreases n,
{
    broadcast use crate::writing::parts_after_put;
    if n > 0 {
        filed_trace_is_apart(s, candidates, id, (n - 1) as nat);
    }
}

/// A shadow activation changes nothing that recall reads, and not the case that it starts
/// from.
pub proof fn activations_stay_in_the_shadow(
    s: StoreModel,
    operation: OperationContext,
    input: ShadowActivationRequestModel,
    request: Seq<u8>,
    fresh: FreshModel,
    after: StoreModel,
    trace: ActivationTraceModel,
)
    requires
        s.shadow_activate(operation, input, request, fresh) == MemoryResult::Ok((after, trace)),
    ensures
        same_semantics(s, after),
        s.heads == after.heads,
{
    broadcast use crate::writing::parts_after_put;
    reveal(StoreModel::with_trace);
    let digest = mutation_digest_of(s.digest_key@, "shadow_activate"@, operation.actor, request);
    if s.replay(operation.id, digest) == MemoryResult::Ok(None::<ReceiptModel>) {
        let candidates = s.activation_candidates(operation.actor, input)->Ok_0;
        let header = ActivationTraceHeader {
            id: trace.id,
            revision: trace.revision,
            era_id: trace.era_id,
            operation_id: trace.operation_id,
            recall_case: trace.recall_case,
            evaluator: trace.evaluator,
            profile: trace.profile,
            input_digest: trace.input_digest,
            recorded_at_ms: trace.recorded_at_ms,
        };
        let base = s.put(WriteModel::PutTrace(trace.id, header)).put(
            WriteModel::PutTracePayload(
                trace.id,
                ActivationTracePayloadModel { candidates: trace.candidates, contributions: trace.contributions },
            ),
        );
        filed_trace_is_apart(base, candidates, trace.id, candidates.len());
        filed_trace_aside(base, candidates, trace.id, candidates.len());
        assert(same_semantics(s, base));
    }
}

/// Whatever becomes of a relation, what it relates, and how, stays.
pub proof fn relation_identity_is_stable(
    s: StoreModel,
    staged: StoreModel,
    id: RelationId,
    expected_revision: u64,
    state: RecordState,
    operation_id: OperationId,
    recorded_at_ms: i64,
)
    requires
        s.appended(
            staged,
            RecordRef::SemanticRelation(id),
            expected_revision,
            state,
            operation_id,
            recorded_at_ms,
        ) is Ok,
    ensures
        ({
            let after = s.appended(
                staged,
                RecordRef::SemanticRelation(id),
                expected_revision,
                state,
                operation_id,
                recorded_at_ms,
            )->Ok_0.0;
            match (s.inspect_semantic_relation(id), after.inspect_semantic_relation(id)) {
                (Ok(Some(before)), Ok(Some(now))) => now.header.from == before.header.from && now.header.to
                    == before.header.to && now.header.kind == before.header.kind && now.header.previous_revision
                    == Some(before.header.revision) && now.header.state == state,
                _ => false,
            }
        }),
{
    reveal(StoreModel::appended);
    reveal(StoreModel::next_revision);
    reveal(StoreModel::standing);
    reveal(StoreModel::inspect_head);
    reveal(StoreModel::inspect_semantic_relation);
    reveal(StoreModel::relation_at);
    broadcast use crate::writing::parts_after_put;
}

} // verus!
