//! What accepted changes bring: the records that they propose, with all that was proposed.

use vstd::prelude::*;
use crate::adjudication::evidence_named;
use crate::applying::{Application, AppliedModel, drafted, spared_by};
use crate::clock::FreshModel;
use crate::context::OperationContext;
use crate::digest::mutation_digest_of;
use crate::enacting::are_new;
use crate::fault::MemoryResult;
use crate::ids::{ClaimId, EntityId, EvidenceId, OperationId, ProposalDraftId, RelationId, Ulid};
use crate::inspect::lookup;
use crate::keys::RevisionKey;
use crate::readback::{indexing_aside, support_aside};
use crate::records::audit::{PurgeDependency, RelationPayloadModel};
use crate::records::claim::{
    ClaimRevisionHeaderModel, EntityPayloadModel, EntityRevisionHeaderModel, RelationKind,
    SemanticRelationRevisionHeaderModel,
};
use crate::records::evidence::{RecordRef, RecordState};
use crate::records::proposal::{
    AppliedRecord, ProposalAdjudication, ProposalAdjudicationReceiptModel, ProposalChangeModel,
    ProposalEndpoint, ProposalRecordModel, ProposalStatus,
};
use crate::store::{StoreModel, WriteModel};

verus! {

/// Whether a change makes a record of a draft, under the identifier drawn for the change.
pub open spec fn makes(change: ProposalChangeModel, draft: ProposalDraftId, id: Ulid, record: RecordRef) -> bool {
    match change {
        ProposalChangeModel::CreateClaim { draft_id, .. } => draft_id == draft && record == RecordRef::Claim(
            ClaimId(id),
        ),
        ProposalChangeModel::CreateEntity { draft_id, .. } => draft_id == draft && record == RecordRef::Entity(
            EntityId(id),
        ),
        ProposalChangeModel::CreateRelation { draft_id, .. } => draft_id == draft && record
            == RecordRef::SemanticRelation(RelationId(id)),
        _ => false,
    }
}

/// Whether a record is what one of the changes makes of a draft.
pub open spec fn is_made(
    changes: Seq<ProposalChangeModel>,
    ids: Seq<Ulid>,
    draft: ProposalDraftId,
    record: RecordRef,
) -> bool {
    exists|j: int| 0 <= j < changes.len() && makes(#[trigger] changes[j], draft, ids[j], record)
}

/// Whether a record is what an end of a proposed relation names.
pub open spec fn is_end(
    changes: Seq<ProposalChangeModel>,
    ids: Seq<Ulid>,
    end: ProposalEndpoint,
    record: RecordRef,
) -> bool {
    match end {
        ProposalEndpoint::Existing(pin) => record == pin.record,
        ProposalEndpoint::Draft(draft) => is_made(changes, ids, draft, record),
    }
}

/// Whether what a change proposes is in a store: a claim, an entity or a relation as it was
/// proposed, active and at its first revision, in the scope of the proposal; and for a
/// superseded record the relation from its replacement to it, on the sources of the
/// proposal.
pub open spec fn is_brought(
    store: StoreModel,
    changes: Seq<ProposalChangeModel>,
    ids: Seq<Ulid>,
    i: int,
    sources: Seq<EvidenceId>,
    at: Application,
) -> bool {
    let id = ids[i];
    let key = RevisionKey { id, revision: 1 };
    match changes[i] {
        ProposalChangeModel::CreateClaim { domain, temporal, proposition, evidence_ids, .. } => {
            &&& lookup(store.claims, key) == Some(
                ClaimRevisionHeaderModel {
                    id: ClaimId(id),
                    revision: 1,
                    previous_revision: None,
                    domain,
                    scope: at.scope,
                    temporal,
                    evidence_ids,
                    state: RecordState::Active,
                    recorded_at_ms: at.recorded_at_ms,
                    operation_id: at.operation_id,
                },
            )
            &&& lookup(store.texts, RecordRef::Claim(ClaimId(id))) == Some(proposition)
        },
        ProposalChangeModel::CreateEntity { kind, temporal, canonical_name, aliases, evidence_ids, .. } => {
            &&& lookup(store.entities, key) == Some(
                EntityRevisionHeaderModel {
                    id: EntityId(id),
                    revision: 1,
                    previous_revision: None,
                    kind,
                    scope: at.scope,
                    temporal,
                    evidence_ids,
                    state: RecordState::Active,
                    recorded_at_ms: at.recorded_at_ms,
                    operation_id: at.operation_id,
                },
            )
            &&& lookup(store.entity_payloads, EntityId(id)) == Some(EntityPayloadModel { canonical_name, aliases })
        },
        ProposalChangeModel::CreateRelation { from, to, kind, evidence_ids, qualifier, .. } => {
            &&& store.relations.contains_key(key)
            &&& is_end(changes, ids, from, store.relations[key].from)
            &&& is_end(changes, ids, to, store.relations[key].to)
            &&& is_first(store.relations[key], id, kind, evidence_ids, at)
            &&& lookup(store.relation_payloads, RelationId(id)) == Some(RelationPayloadModel { qualifier })
        },
        ProposalChangeModel::Supersede { target, replacement } => {
            &&& store.relations.contains_key(key)
            &&& is_made(changes, ids, replacement, store.relations[key].from)
            &&& store.relations[key].to == target.record
            &&& is_first(store.relations[key], id, RelationKind::Supersedes, sources, at)
            &&& lookup(store.relation_payloads, RelationId(id)) == Some(RelationPayloadModel { qualifier: None })
        },
        ProposalChangeModel::Retract { .. } => true,
    }
}

/// Whether a relation is of a kind, rests on some evidence and is active at its first
/// revision.
pub open spec fn is_first(
    header: SemanticRelationRevisionHeaderModel,
    id: Ulid,
    kind: RelationKind,
    evidence_ids: Seq<EvidenceId>,
    at: Application,
) -> bool {
    &&& header.id == RelationId(id) && header.revision == 1 && header.previous_revision is None
    &&& header.kind == kind && header.evidence_ids == evidence_ids
    &&& header.scope == at.scope && header.state == RecordState::Active
    &&& header.recorded_at_ms == at.recorded_at_ms && header.operation_id == at.operation_id
}

/// Whether two states of a store agree on what was first filed under an identifier.
spec fn keeps(a: StoreModel, b: StoreModel, id: Ulid) -> bool {
    let key = RevisionKey { id, revision: 1 };
    &&& lookup(a.claims, key) == lookup(b.claims, key)
    &&& lookup(a.entities, key) == lookup(b.entities, key)
    &&& lookup(a.relations, key) == lookup(b.relations, key)
    &&& lookup(a.texts, RecordRef::Claim(ClaimId(id))) == lookup(b.texts, RecordRef::Claim(ClaimId(id)))
    &&& lookup(a.entity_payloads, EntityId(id)) == lookup(b.entity_payloads, EntityId(id))
    &&& lookup(a.relation_payloads, RelationId(id)) == lookup(b.relation_payloads, RelationId(id))
}

proof fn kept_is_brought(
    a: StoreModel,
    b: StoreModel,
    changes: Seq<ProposalChangeModel>,
    ids: Seq<Ulid>,
    i: int,
    sources: Seq<EvidenceId>,
    at: Application,
)
    requires
        keeps(a, b, ids[i]),
        is_brought(a, changes, ids, i, sources, at),
    ensures
        is_brought(b, changes, ids, i, sources, at),
{
}

proof fn drafts_are_made(changes: Seq<ProposalChangeModel>, ids: Seq<Ulid>, n: nat, draft: ProposalDraftId)
    requires
        n <= changes.len(),
        drafted(changes, ids, n).contains_key(draft),
    ensures
        is_made(changes, ids, draft, drafted(changes, ids, n)[draft].record()),
    decreases n,
{
    let record = drafted(changes, ids, n)[draft].record();
    let m = (n - 1) as nat;
    if makes(changes[m as int], draft, ids[m as int], record) {
    } else {
        drafts_are_made(changes, ids, m, draft);
    }
}

proof fn creating_keeps(m: AppliedModel, change: ProposalChangeModel, made: Ulid, at: Application, id: Ulid)
    requires
        made != id,
    ensures
        keeps(m.store, m.creating(change, made, at).store, id),
{
    broadcast use {indexing_aside, support_aside};

    reveal(AppliedModel::creating);
    broadcast use crate::writing::parts_after_put;
    reveal(StoreModel::with_claim);
    reveal(StoreModel::with_entity);
}

proof fn creating_brings(
    m: AppliedModel,
    changes: Seq<ProposalChangeModel>,
    ids: Seq<Ulid>,
    i: int,
    sources: Seq<EvidenceId>,
    at: Application,
)
    requires
        changes[i] is CreateClaim || changes[i] is CreateEntity,
    ensures
        is_brought(m.creating(changes[i], ids[i], at).store, changes, ids, i, sources, at),
{
    broadcast use {indexing_aside, support_aside};

    reveal(AppliedModel::creating);
    broadcast use crate::writing::parts_after_put;
    reveal(StoreModel::with_claim);
    reveal(StoreModel::with_entity);
}

proof fn created_are_brought(
    m: AppliedModel,
    changes: Seq<ProposalChangeModel>,
    ids: Seq<Ulid>,
    sources: Seq<EvidenceId>,
    at: Application,
    n: nat,
)
    requires
        n <= changes.len() <= ids.len(),
        forall|i: int, j: int| 0 <= i < j < changes.len() ==> ids[i] != ids[j],
    ensures
        forall|i: int|
            0 <= i < n && (#[trigger] changes[i] is CreateClaim || changes[i] is CreateEntity) ==> is_brought(
                m.created(changes, ids, at, n).store,
                changes,
                ids,
                i,
                sources,
                at,
            ),
    decreases n,
{
    if n > 0 {
        let k = (n - 1) as nat;
        created_are_brought(m, changes, ids, sources, at, k);
        let before = m.created(changes, ids, at, k);
        let after = m.created(changes, ids, at, n);
        assert forall|i: int|
            0 <= i < n && (#[trigger] changes[i] is CreateClaim || changes[i] is CreateEntity) implies is_brought(
            after.store,
            changes,
            ids,
            i,
            sources,
            at,
        ) by {
            if i < k {
                creating_keeps(before, changes[k as int], ids[k as int], at, ids[i]);
                kept_is_brought(before.store, after.store, changes, ids, i, sources, at);
            } else {
                creating_brings(before, changes, ids, i, sources, at);
            }
        }
    }
}

proof fn relating_keeps(
    m: AppliedModel,
    change: ProposalChangeModel,
    made: Ulid,
    drafts: Map<ProposalDraftId, AppliedRecord>,
    at: Application,
    id: Ulid,
)
    requires
        m.relating(change, made, drafts, at) is Ok,
        made != id || !(change is CreateRelation),
    ensures
        keeps(m.store, m.relating(change, made, drafts, at)->Ok_0.store, id),
{
    broadcast use support_aside;

    reveal(AppliedModel::relating);
    broadcast use crate::writing::parts_after_put;
    reveal(StoreModel::with_relation);
}

proof fn relating_brings(
    m: AppliedModel,
    changes: Seq<ProposalChangeModel>,
    ids: Seq<Ulid>,
    i: int,
    sources: Seq<EvidenceId>,
    at: Application,
)
    requires
        0 <= i < changes.len(),
        changes[i] is CreateRelation,
        m.relating(changes[i], ids[i], drafted(changes, ids, changes.len()), at) is Ok,
    ensures
        is_brought(
            m.relating(changes[i], ids[i], drafted(changes, ids, changes.len()), at)->Ok_0.store,
            changes,
            ids,
            i,
            sources,
            at,
        ),
{
    broadcast use support_aside;

    reveal(AppliedModel::relating);
    broadcast use crate::writing::parts_after_put;
    reveal(StoreModel::with_relation);
    let drafts = drafted(changes, ids, changes.len());
    match changes[i] {
        ProposalChangeModel::CreateRelation { from, to, .. } => {
            if let ProposalEndpoint::Draft(draft) = from {
                drafts_are_made(changes, ids, changes.len(), draft);
            }
            if let ProposalEndpoint::Draft(draft) = to {
                drafts_are_made(changes, ids, changes.len(), draft);
            }
        },
        _ => {},
    }
}

proof fn related_are_brought(
    m: AppliedModel,
    changes: Seq<ProposalChangeModel>,
    ids: Seq<Ulid>,
    sources: Seq<EvidenceId>,
    at: Application,
    n: nat,
)
    requires
        n <= changes.len() <= ids.len(),
        forall|i: int, j: int| 0 <= i < j < changes.len() ==> ids[i] != ids[j],
        forall|i: int|
            0 <= i < changes.len() && (#[trigger] changes[i] is CreateClaim || changes[i] is CreateEntity)
                ==> is_brought(m.store, changes, ids, i, sources, at),
        m.related(changes, ids, drafted(changes, ids, changes.len()), at, n) is Ok,
    ensures
        ({
            let after = m.related(changes, ids, drafted(changes, ids, changes.len()), at, n)->Ok_0;
            forall|i: int|
                0 <= i < changes.len() && (#[trigger] changes[i] is CreateClaim || changes[i] is CreateEntity || (
                changes[i] is CreateRelation && i < n)) ==> is_brought(after.store, changes, ids, i, sources, at)
        }),
    decreases n,
{
    let drafts = drafted(changes, ids, changes.len());
    if n > 0 {
        let k = (n - 1) as nat;
        related_are_brought(m, changes, ids, sources, at, k);
        let before = m.related(changes, ids, drafts, at, k)->Ok_0;
        let after = m.related(changes, ids, drafts, at, n)->Ok_0;
        assert(before.relating(changes[k as int], ids[k as int], drafts, at) == MemoryResult::Ok(after));
        assert forall|i: int|
            0 <= i < changes.len() && (#[trigger] changes[i] is CreateClaim || changes[i] is CreateEntity || (changes[i]
                is CreateRelation && i < n)) implies is_brought(after.store, changes, ids, i, sources, at) by {
            if i == k && changes[i] is CreateRelation {
                relating_brings(before, changes, ids, i, sources, at);
            } else {
                relating_keeps(before, changes[k as int], ids[k as int], drafts, at, ids[i]);
                kept_is_brought(before.store, after.store, changes, ids, i, sources, at);
            }
        }
    }
}

proof fn withdrawing_postings_keeps(s: StoreModel, record: RecordRef, hashes: Seq<[u8; 32]>, n: nat, id: Ulid)
    ensures
        keeps(s, s.without_postings(record, hashes, n), id),
    decreases n,
{
    broadcast use crate::writing::parts_after_put;

    if n > 0 {
        withdrawing_postings_keeps(s, record, hashes, (n - 1) as nat, id);
    }
}

proof fn unindexing_keeps(s: StoreModel, committed: StoreModel, record: RecordRef, id: Ulid)
    ensures
        keeps(s, s.unindexed(committed, record), id),
{
    reveal(StoreModel::unindexed);
    broadcast use crate::writing::parts_after_put;

    if committed.lexical_docs.contains_key(record) {
        let hashes = committed.lexical_docs[record].term_hashes;
        withdrawing_postings_keeps(s, record, hashes, hashes.len(), id);
    }
}

/// Whether no record is known under an identifier.
spec fn is_unknown(s: StoreModel, id: Ulid) -> bool {
    &&& s.standing(RecordRef::Claim(ClaimId(id))) is Err
    &&& s.standing(RecordRef::Entity(EntityId(id))) is Err
    &&& s.standing(RecordRef::SemanticRelation(RelationId(id))) is Err
}

proof fn appending_keeps(
    committed: StoreModel,
    staged: StoreModel,
    record: RecordRef,
    expected_revision: u64,
    state: RecordState,
    operation_id: OperationId,
    recorded_at_ms: i64,
    id: Ulid,
)
    requires
        committed.appended(staged, record, expected_revision, state, operation_id, recorded_at_ms) is Ok,
        is_unknown(committed, id),
    ensures
        keeps(
            staged,
            committed.appended(staged, record, expected_revision, state, operation_id, recorded_at_ms)->Ok_0.0,
            id,
        ),
{
    reveal(StoreModel::appended);
    reveal(StoreModel::next_revision);
    reveal(StoreModel::unlisted_proposal);
    broadcast use crate::writing::parts_after_put;
}

proof fn moving_keeps(
    m: AppliedModel,
    committed: StoreModel,
    record: RecordRef,
    expected_revision: u64,
    state: RecordState,
    at: Application,
    id: Ulid,
)
    requires
        m.moved(committed, record, expected_revision, state, at) is Ok,
        is_unknown(committed, id),
    ensures
        keeps(m.store, m.moved(committed, record, expected_revision, state, at)->Ok_0.store, id),
{
    reveal(AppliedModel::moved);
    appending_keeps(
        committed,
        m.store,
        record,
        expected_revision,
        state,
        at.operation_id,
        at.recorded_at_ms,
        id,
    );
    let after = committed.appended(m.store, record, expected_revision, state, at.operation_id, at.recorded_at_ms)->Ok_0.0;
    unindexing_keeps(after, committed, record, id);
}

proof fn undermining_keeps(
    m: AppliedModel,
    committed: StoreModel,
    dependencies: Seq<PurgeDependency>,
    spared: Set<RecordRef>,
    at: Application,
    n: nat,
    id: Ulid,
)
    requires
        m.undermined(committed, dependencies, spared, at, n) is Ok,
        is_unknown(committed, id),
    ensures
        keeps(m.store, m.undermined(committed, dependencies, spared, at, n)->Ok_0.store, id),
    decreases n,
{
    if n > 0 {
        undermining_keeps(m, committed, dependencies, spared, at, (n - 1) as nat, id);
        let before = m.undermined(committed, dependencies, spared, at, (n - 1) as nat)->Ok_0;
        let dependency = dependencies[n - 1];
        if !(spared.contains(dependency.record) || before.seen.contains(dependency.record)) {
            let noted = AppliedModel { seen: before.seen.insert(dependency.record), ..before };
            moving_keeps(
                noted,
                committed,
                dependency.record,
                dependency.expected_revision,
                RecordState::Unsupported,
                at,
                id,
            );
        }
    }
}

proof fn superseding_keeps(
    m: AppliedModel,
    replacement: ProposalDraftId,
    target: RecordRef,
    made: Ulid,
    drafts: Map<ProposalDraftId, AppliedRecord>,
    sources: Seq<EvidenceId>,
    at: Application,
    id: Ulid,
)
    requires
        m.superseding(replacement, target, made, drafts, sources, at) is Ok,
        made != id,
    ensures
        keeps(m.store, m.superseding(replacement, target, made, drafts, sources, at)->Ok_0.store, id),
{
    broadcast use support_aside;

    reveal(AppliedModel::superseding);
    broadcast use crate::writing::parts_after_put;
    reveal(StoreModel::with_relation);
}

proof fn mutating_keeps(
    m: AppliedModel,
    committed: StoreModel,
    change: ProposalChangeModel,
    made: Ulid,
    drafts: Map<ProposalDraftId, AppliedRecord>,
    sources: Seq<EvidenceId>,
    spared: Set<RecordRef>,
    at: Application,
    id: Ulid,
)
    requires
        m.mutating(committed, change, made, drafts, sources, spared, at) is Ok,
        is_unknown(committed, id),
        made != id || !(change is Supersede),
    ensures
        keeps(m.store, m.mutating(committed, change, made, drafts, sources, spared, at)->Ok_0.store, id),
{
    reveal(AppliedModel::mutating);
    match change {
        ProposalChangeModel::Retract { target } => {
            let dependencies = committed.dependency_closure(target.record, false)->Ok_0;
            moving_keeps(m, committed, target.record, target.revision, RecordState::Retracted, at, id);
            let after = m.moved(committed, target.record, target.revision, RecordState::Retracted, at)->Ok_0;
            undermining_keeps(after, committed, dependencies, spared, at, dependencies.len(), id);
        },
        ProposalChangeModel::Supersede { target, replacement } => {
            let dependencies = committed.dependency_closure(target.record, false)->Ok_0;
            moving_keeps(m, committed, target.record, target.revision, RecordState::Superseded, at, id);
            let moved = m.moved(committed, target.record, target.revision, RecordState::Superseded, at)->Ok_0;
            superseding_keeps(moved, replacement, target.record, made, drafts, sources, at, id);
            let after = moved.superseding(replacement, target.record, made, drafts, sources, at)->Ok_0;
            undermining_keeps(after, committed, dependencies, spared, at, dependencies.len(), id);
        },
        _ => {},
    }
}

proof fn mutating_brings(
    m: AppliedModel,
    committed: StoreModel,
    changes: Seq<ProposalChangeModel>,
    ids: Seq<Ulid>,
    i: int,
    sources: Seq<EvidenceId>,
    spared: Set<RecordRef>,
    at: Application,
)
    requires
        0 <= i < changes.len(),
        changes[i] is Supersede,
        m.mutating(committed, changes[i], ids[i], drafted(changes, ids, changes.len()), sources, spared, at) is Ok,
        is_unknown(committed, ids[i]),
    ensures
        is_brought(
            m.mutating(
                committed,
                changes[i],
                ids[i],
                drafted(changes, ids, changes.len()),
                sources,
                spared,
                at,
            )->Ok_0.store,
            changes,
            ids,
            i,
            sources,
            at,
        ),
{
    broadcast use support_aside;

    reveal(AppliedModel::mutating);
    let drafts = drafted(changes, ids, changes.len());
    match changes[i] {
        ProposalChangeModel::Supersede { target, replacement } => {
            let dependencies = committed.dependency_closure(target.record, false)->Ok_0;
            let moved = m.moved(committed, target.record, target.revision, RecordState::Superseded, at)->Ok_0;
            let after = moved.superseding(replacement, target.record, ids[i], drafts, sources, at)->Ok_0;
            assert(is_brought(after.store, changes, ids, i, sources, at)) by {
                reveal(AppliedModel::superseding);
                broadcast use crate::writing::parts_after_put;
                reveal(StoreModel::with_relation);
                drafts_are_made(changes, ids, changes.len(), replacement);
            }
            undermining_keeps(after, committed, dependencies, spared, at, dependencies.len(), ids[i]);
            let done = after.undermined(committed, dependencies, spared, at, dependencies.len())->Ok_0;
            kept_is_brought(after.store, done.store, changes, ids, i, sources, at);
        },
        _ => {},
    }
}

proof fn mutated_are_brought(
    m: AppliedModel,
    committed: StoreModel,
    changes: Seq<ProposalChangeModel>,
    ids: Seq<Ulid>,
    sources: Seq<EvidenceId>,
    spared: Set<RecordRef>,
    at: Application,
    n: nat,
)
    requires
        n <= changes.len() <= ids.len(),
        forall|i: int, j: int| 0 <= i < j < changes.len() ==> ids[i] != ids[j],
        forall|i: int| 0 <= i < changes.len() ==> is_unknown(committed, #[trigger] ids[i]),
        forall|i: int|
            0 <= i < changes.len() && !((#[trigger] changes[i]) is Supersede) ==> is_brought(
                m.store,
                changes,
                ids,
                i,
                sources,
                at,
            ),
        m.mutated(committed, changes, ids, drafted(changes, ids, changes.len()), sources, spared, at, n) is Ok,
    ensures
        ({
            let drafts = drafted(changes, ids, changes.len());
            let after = m.mutated(committed, changes, ids, drafts, sources, spared, at, n)->Ok_0;
            forall|i: int|
                0 <= i < changes.len() && (!((#[trigger] changes[i]) is Supersede) || i < n) ==> is_brought(
                    after.store,
                    changes,
                    ids,
                    i,
                    sources,
                    at,
                )
        }),
    decreases n,
{
    let drafts = drafted(changes, ids, changes.len());
    if n > 0 {
        let k = (n - 1) as nat;
        mutated_are_brought(m, committed, changes, ids, sources, spared, at, k);
        let before = m.mutated(committed, changes, ids, drafts, sources, spared, at, k)->Ok_0;
        let after = m.mutated(committed, changes, ids, drafts, sources, spared, at, n)->Ok_0;
        assert(before.mutating(committed, changes[k as int], ids[k as int], drafts, sources, spared, at)
            == MemoryResult::Ok(after));
        assert forall|i: int|
            0 <= i < changes.len() && (!((#[trigger] changes[i]) is Supersede) || i < n) implies is_brought(
            after.store,
            changes,
            ids,
            i,
            sources,
            at,
        ) by {
            assert(is_unknown(committed, ids[i]));
            if i == k && changes[i] is Supersede {
                mutating_brings(before, committed, changes, ids, i, sources, spared, at);
            } else {
                mutating_keeps(
                    before,
                    committed,
                    changes[k as int],
                    ids[k as int],
                    drafts,
                    sources,
                    spared,
                    at,
                    ids[i],
                );
                kept_is_brought(before.store, after.store, changes, ids, i, sources, at);
            }
        }
    }
}

/// Accepting a proposal brings what it proposes: every claim, entity and relation as it was
/// proposed, in the scope of the proposal, with the ends that it names; and every superseded
/// record gets a relation from its replacement to it, on the sources of the proposal.
pub proof fn accepted_proposals_bring_what_they_propose(
    s: StoreModel,
    operation: OperationContext,
    input: ProposalAdjudication,
    request: Seq<u8>,
    fresh: FreshModel,
    after: StoreModel,
    receipt: ProposalAdjudicationReceiptModel,
    proposal: ProposalRecordModel,
    changes: Seq<ProposalChangeModel>,
    i: int,
)
    requires
        s.adjudicate_proposal(operation, input, request, fresh) == MemoryResult::Ok((after, receipt)),
        !s.operations.contains_key(operation.id),
        receipt.proposal.status == ProposalStatus::Applied,
        s.inspect_proposal(input.proposal_id) == Some(proposal),
        proposal.changes == Some(changes),
        fresh.ids.len() == changes.len() + 1,
        are_new(s, fresh.ids, changes.len()),
        0 <= i < changes.len(),
    ensures
        is_brought(
            after,
            changes,
            fresh.ids,
            i,
            Seq::new(proposal.source_evidence.len(), |k: int| proposal.source_evidence[k].id),
            Application {
                scope: proposal.header.scope,
                operation_id: operation.id,
                recorded_at_ms: fresh.recorded_at_ms,
            },
        ),
{
    reveal(StoreModel::replay);
    reveal(StoreModel::adjudicable);
    reveal(StoreModel::accepted);
    reveal(StoreModel::closed);
    reveal(StoreModel::stale_acknowledged);
    let digest = mutation_digest_of(s.digest_key@, "adjudicate_proposal"@, operation.actor, request);
    assert(s.applied(operation, input, digest, proposal, changes, fresh) == MemoryResult::Ok((after, receipt)));
    applied_proposals_bring(s, operation, input, digest, proposal, changes, fresh, after, receipt, i);
}

proof fn applied_proposals_bring(
    s: StoreModel,
    operation: OperationContext,
    input: ProposalAdjudication,
    digest: [u8; 32],
    proposal: ProposalRecordModel,
    changes: Seq<ProposalChangeModel>,
    fresh: FreshModel,
    after: StoreModel,
    receipt: ProposalAdjudicationReceiptModel,
    i: int,
)
    requires
        s.applied(operation, input, digest, proposal, changes, fresh) == MemoryResult::Ok((after, receipt)),
        fresh.ids.len() == changes.len() + 1,
        are_new(s, fresh.ids, changes.len()),
        0 <= i < changes.len(),
    ensures
        is_brought(
            after,
            changes,
            fresh.ids,
            i,
            Seq::new(proposal.source_evidence.len(), |k: int| proposal.source_evidence[k].id),
            Application {
                scope: proposal.header.scope,
                operation_id: operation.id,
                recorded_at_ms: fresh.recorded_at_ms,
            },
        ),
{
    reveal(StoreModel::applied);
    reveal(StoreModel::changes_applied);
    let ids = fresh.ids;
    let at = Application {
        scope: proposal.header.scope,
        operation_id: operation.id,
        recorded_at_ms: fresh.recorded_at_ms,
    };
    let sources = evidence_named(proposal.source_evidence);
    assert(sources =~= Seq::new(proposal.source_evidence.len(), |k: int| proposal.source_evidence[k].id));
    let drafts = drafted(changes, ids, changes.len());
    let spared = spared_by(input.proposal_id, input.review_case_id, changes);
    let start = AppliedModel {
        store: s.put(WriteModel::DropAwaiting(proposal.header.id)),
        revisions: Seq::empty(),
        seen: Set::empty(),
    };
    created_are_brought(start, changes, ids, sources, at, changes.len());
    let created = start.created(changes, ids, at, changes.len());
    related_are_brought(created, changes, ids, sources, at, changes.len());
    let related = created.related(changes, ids, drafts, at, changes.len())->Ok_0;
    assert forall|k: int| 0 <= k < changes.len() implies is_unknown(s, #[trigger] ids[k]) by {}
    mutated_are_brought(related, s, changes, ids, sources, spared, at, changes.len());
    let done = related.mutated(s, changes, ids, drafts, sources, spared, at, changes.len())->Ok_0;
    assert(is_brought(done.store, changes, ids, i, sources, at)) by {
        assert(changes[i] is Supersede || !(changes[i] is Supersede));
    }
    assert(keeps(done.store, after, ids[i])) by {
        broadcast use crate::writing::parts_after_put;
    }
    kept_is_brought(done.store, after, changes, ids, i, sources, at);
}

} // verus!
