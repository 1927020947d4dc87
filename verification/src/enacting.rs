//! What an accepted proposal leaves behind.
use vstd::prelude::*;
use crate::adjudication::evidence_named;
use crate::applying::{
    Application, Applied, AppliedModel, change_mutates, change_targets, drafted, first_active,
    resolved_endpoint, spared_by,
};
use crate::bundles::{GatheringModel, gathered, pinned_evidence, sound_bundle};
use crate::clock::FreshModel;
use crate::context::OperationContext;
use crate::digest::mutation_digest_of;
use crate::fault::MemoryResult;
use crate::ids::{ClaimId, EntityId, EvidenceId, ProposalDraftId, RelationId, Ulid};
use crate::inspect::revision_of;
use crate::order::in_order;
use crate::records::audit::{PurgeDependency, RecordRevision};
use crate::records::claim::{
    ClaimRevisionHeaderModel, EntityRevisionHeaderModel, RelationKind,
    SemanticRelationRevisionHeaderModel,
};
use crate::records::evidence::{RecordRef, RecordState};
use crate::records::proposal::{
    AppliedRecord, NewProposalBundleModel, ProposalAdjudication, ProposalAdjudicationReceiptModel,
    ProposalChangeModel, ProposalRecordModel, ProposalStatus,
};
use crate::records::receipt::ReceiptModel;
use crate::reviews::restated;
use crate::staging::records_of;
use crate::standings::{
    books_move_nothing, filed_proposal_stands, moved_stands, new_claim_stands, new_entity_stands,
    new_relation_stands, same_ground, same_standings, same_standings_stand,
};
use crate::store::{StoreModel, WriteModel};

verus! {

/// Whether revisions name a record.
pub open spec fn names(revisions: Seq<RecordRevision>, record: RecordRef) -> bool {
    exists|i: int| 0 <= i < revisions.len() && (#[trigger] revisions[i]).record == record
}

/// Whether a record stands as a revision tells.
pub open spec fn stands_as(s: StoreModel, told: RecordRevision) -> bool {
    match s.standing(told.record) {
        Ok((_, state, revision)) => state == told.state && revision == told.revision,
        Err(_) => false,
    }
}

/// The claim or entity that a change brings.
pub open spec fn created_by(change: ProposalChangeModel, id: Ulid) -> Option<RecordRevision> {
    match change {
        ProposalChangeModel::CreateClaim { .. } => Some(first_active(RecordRef::Claim(ClaimId(id)))),
        ProposalChangeModel::CreateEntity { .. } => Some(first_active(RecordRef::Entity(EntityId(id)))),
        _ => None,
    }
}

/// The relation that a change brings.
pub open spec fn related_by(change: ProposalChangeModel, id: Ulid) -> Option<RecordRevision> {
    match change {
        ProposalChangeModel::CreateRelation { .. } => Some(first_active(RecordRef::SemanticRelation(RelationId(id)))),
        _ => None,
    }
}

/// The relation to its replacement that a superseded record gets.
pub open spec fn replaced_by(change: ProposalChangeModel, id: Ulid) -> Option<RecordRevision> {
    match change {
        ProposalChangeModel::Supersede { .. } => Some(first_active(RecordRef::SemanticRelation(RelationId(id)))),
        _ => None,
    }
}

/// Where a change moves the record that it is about.
pub open spec fn moved_by(change: ProposalChangeModel) -> Option<RecordRevision> {
    match change {
        ProposalChangeModel::Retract { target } => Some(
            RecordRevision {
                record: target.record,
                revision: (target.revision + 1) as u64,
                state: RecordState::Retracted,
            },
        ),
        ProposalChangeModel::Supersede { target, .. } => Some(
            RecordRevision {
                record: target.record,
                revision: (target.revision + 1) as u64,
                state: RecordState::Superseded,
            },
        ),
        _ => None,
    }
}

/// Whether no two changes are about one record.
pub open spec fn targets_differ(changes: Seq<ProposalChangeModel>) -> bool {
    forall|i: int, j: int, record: RecordRef|
        0 <= i < j < changes.len() && #[trigger] change_mutates(changes[i], record) ==> !#[trigger] change_mutates(
            changes[j],
            record,
        )
}

/// Whether identifiers differ, and no record is known under any of them.
pub open spec fn are_new(s: StoreModel, ids: Seq<Ulid>, n: nat) -> bool {
    &&& forall|i: int, j: int| 0 <= i < j < n ==> ids[i] != ids[j]
    &&& forall|i: int|
        0 <= i < n ==> s.standing(RecordRef::Claim(ClaimId(#[trigger] ids[i]))) is Err && s.standing(
            RecordRef::Entity(EntityId(ids[i])),
        ) is Err && s.standing(RecordRef::SemanticRelation(RelationId(ids[i]))) is Err
}

/// Whether what was applied so far tells the truth: the revisions that it names are where
/// records stand, each named once, and every other record stands where it stood.
spec fn tells_truly(committed: StoreModel, a: AppliedModel) -> bool {
    &&& same_ground(committed, a.store)
    &&& forall|i: int| 0 <= i < a.revisions.len() ==> stands_as(a.store, #[trigger] a.revisions[i])
    &&& forall|i: int, j: int| 0 <= i < j < a.revisions.len() ==> a.revisions[i].record != a.revisions[j].record
    &&& forall|r: RecordRef| !names(a.revisions, r) ==> #[trigger] a.store.standing(r) == committed.standing(r)
}

/// Whether a new record comes from the claims and entities of the first `c` changes, the
/// relations of the first `l` or the replacements of the first `m`.
spec fn comes_from(changes: Seq<ProposalChangeModel>, ids: Seq<Ulid>, c: nat, l: nat, m: nat, r: RecordRef) -> bool {
    ||| exists|i: int|
        0 <= i < c && (r == RecordRef::Claim(ClaimId(#[trigger] ids[i])) || r == RecordRef::Entity(EntityId(ids[i])))
    ||| exists|i: int|
        0 <= i < l && changes[i] is CreateRelation && r == RecordRef::SemanticRelation(RelationId(#[trigger] ids[i]))
    ||| exists|i: int|
        0 <= i < m && changes[i] is Supersede && r == RecordRef::SemanticRelation(RelationId(#[trigger] ids[i]))
}

/// Whether one of the first `m` changes is about a record.
spec fn aimed_at(changes: Seq<ProposalChangeModel>, m: nat, r: RecordRef) -> bool {
    exists|i: int| 0 <= i < m && change_mutates(#[trigger] changes[i], r)
}

/// What holds while changes are applied: `c` of them have brought their claims and
/// entities, `l` their relations, and `m` have moved their targets.
spec fn underway(
    committed: StoreModel,
    changes: Seq<ProposalChangeModel>,
    ids: Seq<Ulid>,
    spared: Set<RecordRef>,
    a: AppliedModel,
    c: nat,
    l: nat,
    m: nat,
) -> bool {
    &&& tells_truly(committed, a)
    &&& forall|r: RecordRef| #[trigger]
        names(a.revisions, r) ==> if committed.standing(r) is Err {
            comes_from(changes, ids, c, l, m, r)
        } else {
            a.seen.contains(r) || aimed_at(changes, m, r)
        }
    &&& forall|r: RecordRef| #[trigger] a.seen.contains(r) ==> !spared.contains(r)
}

/// Whether what the changes bring is among the revisions.
spec fn covers(
    revisions: Seq<RecordRevision>,
    changes: Seq<ProposalChangeModel>,
    ids: Seq<Ulid>,
    c: nat,
    l: nat,
    m: nat,
) -> bool {
    &&& forall|i: int|
        0 <= i < c && created_by(#[trigger] changes[i], ids[i]) is Some ==> revisions.contains(
            created_by(changes[i], ids[i])->0,
        )
    &&& forall|i: int|
        0 <= i < l && related_by(#[trigger] changes[i], ids[i]) is Some ==> revisions.contains(
            related_by(changes[i], ids[i])->0,
        )
    &&& forall|i: int|
        0 <= i < m && moved_by(#[trigger] changes[i]) is Some ==> revisions.contains(moved_by(changes[i])->0)
    &&& forall|i: int|
        0 <= i < m && replaced_by(#[trigger] changes[i], ids[i]) is Some ==> revisions.contains(
            replaced_by(changes[i], ids[i])->0,
        )
}

proof fn pushing_keeps(revisions: Seq<RecordRevision>, last: RecordRevision)
    ensures
        revisions.push(last).contains(last),
        forall|x: RecordRevision| revisions.contains(x) ==> #[trigger] revisions.push(last).contains(x),
        forall|r: RecordRef| #[trigger]
            names(revisions.push(last), r) <==> names(revisions, r) || r == last.record,
{
    let grown = revisions.push(last);
    assert(grown[revisions.len() as int] == last);
    assert forall|x: RecordRevision| revisions.contains(x) implies #[trigger] grown.contains(x) by {
        let i = choose|i: int| 0 <= i < revisions.len() && revisions[i] == x;
        assert(grown[i] == x);
    }
    assert forall|r: RecordRef| #[trigger] names(grown, r) <==> names(revisions, r) || r == last.record by {
        if names(grown, r) {
            let i = choose|i: int| 0 <= i < grown.len() && (#[trigger] grown[i]).record == r;
            if i < revisions.len() {
                assert(revisions[i].record == r);
            }
        }
        if names(revisions, r) {
            let i = choose|i: int| 0 <= i < revisions.len() && (#[trigger] revisions[i]).record == r;
            assert(grown[i].record == r);
        }
        if r == last.record {
            assert(grown[revisions.len() as int].record == r);
        }
    }
}

proof fn one_more_tells_truly(committed: StoreModel, before: AppliedModel, after: AppliedModel, told: RecordRevision)
    requires
        tells_truly(committed, before),
        after.revisions == before.revisions.push(told),
        !names(before.revisions, told.record),
        same_ground(committed, after.store),
        stands_as(after.store, told),
        forall|r: RecordRef| r != told.record ==> #[trigger] after.store.standing(r) == before.store.standing(r),
    ensures
        tells_truly(committed, after),
{
    pushing_keeps(before.revisions, told);
    assert forall|i: int| 0 <= i < after.revisions.len() implies stands_as(after.store, #[trigger] after.revisions[i]) by {
        if i < before.revisions.len() {
            assert(after.revisions[i] == before.revisions[i]);
            assert(names(before.revisions, before.revisions[i].record));
            assert(stands_as(before.store, before.revisions[i]));
        }
    }
    assert forall|i: int, j: int| 0 <= i < j < after.revisions.len() implies after.revisions[i].record
        != after.revisions[j].record by {
        assert(names(before.revisions, before.revisions[i].record));
    }
}

proof fn created_are_underway(
    committed: StoreModel,
    changes: Seq<ProposalChangeModel>,
    ids: Seq<Ulid>,
    spared: Set<RecordRef>,
    start: AppliedModel,
    at: Application,
    n: nat,
)
    requires
        n <= changes.len() <= ids.len(),
        are_new(committed, ids, changes.len()),
        underway(committed, changes, ids, spared, start, 0, 0, 0),
        start.seen == Set::<RecordRef>::empty(),
    ensures
        underway(committed, changes, ids, spared, start.created(changes, ids, at, n), n, 0, 0),
        covers(start.created(changes, ids, at, n).revisions, changes, ids, n, 0, 0),
        start.created(changes, ids, at, n).seen == Set::<RecordRef>::empty(),
    decreases n,
{
    if n > 0 {
        created_are_underway(committed, changes, ids, spared, start, at, (n - 1) as nat);
        let before = start.created(changes, ids, at, (n - 1) as nat);
        let after = start.created(changes, ids, at, n);
        let change = changes[n - 1];
        let id = ids[n - 1];
        reveal(AppliedModel::creating);
        assert forall|r: RecordRef| comes_from(changes, ids, (n - 1) as nat, 0, 0, r) implies comes_from(
            changes,
            ids,
            n,
            0,
            0,
            r,
        ) by {
            let i = choose|i: int|
                0 <= i < n - 1 && (r == RecordRef::Claim(ClaimId(#[trigger] ids[i])) || r == RecordRef::Entity(
                    EntityId(ids[i]),
                ));
            assert(0 <= i < n && (r == RecordRef::Claim(ClaimId(ids[i])) || r == RecordRef::Entity(EntityId(ids[i]))));
        }
        match created_by(change, id) {
            None => {},
            Some(told) => {
                match change {
                    ProposalChangeModel::CreateClaim { domain, temporal, proposition, evidence_ids, .. } => {
                        new_claim_stands(
                            before.store,
                            ClaimRevisionHeaderModel {
                                id: ClaimId(id),
                                revision: 1,
                                previous_revision: None,
                                domain,
                                scope: at.scope,
                                temporal,
                                evidence_ids,
                                state: RecordState::Active,
                                recorded_at_ms: at.recorded_at_ms,
                                operation_id: at.operation_id,
                            },
                            proposition,
                        );
                    },
                    ProposalChangeModel::CreateEntity { kind, temporal, canonical_name, aliases, evidence_ids, .. } => {
                        new_entity_stands(
                            before.store,
                            EntityRevisionHeaderModel {
                                id: EntityId(id),
                                revision: 1,
                                previous_revision: None,
                                kind,
                                scope: at.scope,
                                temporal,
                                evidence_ids,
                                state: RecordState::Active,
                                recorded_at_ms: at.recorded_at_ms,
                                operation_id: at.operation_id,
                            },
                            canonical_name,
                            aliases,
                        );
                    },
                    _ => {},
                }
                assert(committed.standing(told.record) is Err) by {
                    assert(ids[n - 1] == id);
                }
                assert(!names(before.revisions, told.record)) by {
                    if names(before.revisions, told.record) {
                        assert(comes_from(changes, ids, (n - 1) as nat, 0, 0, told.record));
                        let i = choose|i: int|
                            0 <= i < n - 1 && (told.record == RecordRef::Claim(ClaimId(#[trigger] ids[i]))
                                || told.record == RecordRef::Entity(EntityId(ids[i])));
                        assert(ids[i] != ids[n - 1]);
                    }
                }
                one_more_tells_truly(committed, before, after, told);
                pushing_keeps(before.revisions, told);
                assert(comes_from(changes, ids, n, 0, 0, told.record)) by {
                    assert(told.record == RecordRef::Claim(ClaimId(ids[n - 1])) || told.record == RecordRef::Entity(
                        EntityId(ids[n - 1]),
                    ));
                }
            },
        }
    }
}

proof fn related_are_underway(
    committed: StoreModel,
    changes: Seq<ProposalChangeModel>,
    ids: Seq<Ulid>,
    spared: Set<RecordRef>,
    start: AppliedModel,
    drafts: Map<ProposalDraftId, AppliedRecord>,
    at: Application,
    n: nat,
)
    requires
        n <= changes.len() <= ids.len(),
        are_new(committed, ids, changes.len()),
        underway(committed, changes, ids, spared, start, changes.len(), 0, 0),
        covers(start.revisions, changes, ids, changes.len(), 0, 0),
        start.seen == Set::<RecordRef>::empty(),
        start.related(changes, ids, drafts, at, n) is Ok,
    ensures
        underway(
            committed,
            changes,
            ids,
            spared,
            start.related(changes, ids, drafts, at, n)->Ok_0,
            changes.len(),
            n,
            0,
        ),
        covers(start.related(changes, ids, drafts, at, n)->Ok_0.revisions, changes, ids, changes.len(), n, 0),
        start.related(changes, ids, drafts, at, n)->Ok_0.seen == Set::<RecordRef>::empty(),
    decreases n,
{
    if n > 0 {
        related_are_underway(committed, changes, ids, spared, start, drafts, at, (n - 1) as nat);
        let before = start.related(changes, ids, drafts, at, (n - 1) as nat)->Ok_0;
        let after = start.related(changes, ids, drafts, at, n)->Ok_0;
        let all = changes.len();
        let id = ids[n - 1];
        reveal(AppliedModel::relating);
        assert forall|r: RecordRef| comes_from(changes, ids, all, (n - 1) as nat, 0, r) implies comes_from(
            changes,
            ids,
            all,
            n,
            0,
            r,
        ) by {
            if exists|i: int|
                0 <= i < n - 1 && changes[i] is CreateRelation && r == RecordRef::SemanticRelation(
                    RelationId(#[trigger] ids[i]),
                ) {
                let i = choose|i: int|
                    0 <= i < n - 1 && changes[i] is CreateRelation && r == RecordRef::SemanticRelation(
                        RelationId(#[trigger] ids[i]),
                    );
                assert(0 <= i < n && changes[i] is CreateRelation && r == RecordRef::SemanticRelation(
                    RelationId(ids[i]),
                ));
            }
        }
        match changes[n - 1] {
            ProposalChangeModel::CreateRelation { from, to, kind, evidence_ids, qualifier, .. } => {
                let told = related_by(changes[n - 1], id)->0;
                new_relation_stands(
                    before.store,
                    SemanticRelationRevisionHeaderModel {
                        id: RelationId(id),
                        revision: 1,
                        previous_revision: None,
                        from: resolved_endpoint(from, drafts)->Ok_0,
                        to: resolved_endpoint(to, drafts)->Ok_0,
                        kind,
                        scope: at.scope,
                        evidence_ids,
                        state: RecordState::Active,
                        recorded_at_ms: at.recorded_at_ms,
                        operation_id: at.operation_id,
                    },
                    qualifier,
                );
                assert(committed.standing(told.record) is Err) by {
                    assert(ids[n - 1] == id);
                }
                assert(!names(before.revisions, told.record)) by {
                    if names(before.revisions, told.record) {
                        assert(comes_from(changes, ids, all, (n - 1) as nat, 0, told.record));
                        let i = choose|i: int|
                            0 <= i < n - 1 && changes[i] is CreateRelation && told.record
                                == RecordRef::SemanticRelation(RelationId(#[trigger] ids[i]));
                        assert(ids[i] != ids[n - 1]);
                    }
                }
                one_more_tells_truly(committed, before, after, told);
                pushing_keeps(before.revisions, told);
                assert(comes_from(changes, ids, all, n, 0, told.record)) by {
                    assert(told.record == RecordRef::SemanticRelation(RelationId(ids[n - 1])));
                }
            },
            _ => {},
        }
    }
}

/// What is the same before and after dependents lose their support, but for the revisions
/// that are added.
spec fn undermining(
    committed: StoreModel,
    changes: Seq<ProposalChangeModel>,
    ids: Seq<Ulid>,
    spared: Set<RecordRef>,
    before: AppliedModel,
    after: AppliedModel,
    m: nat,
) -> bool {
    &&& underway(committed, changes, ids, spared, after, changes.len(), changes.len(), m)
    &&& forall|x: RecordRevision| before.revisions.contains(x) ==> #[trigger] after.revisions.contains(x)
}

proof fn undermined_are_underway(
    committed: StoreModel,
    changes: Seq<ProposalChangeModel>,
    ids: Seq<Ulid>,
    spared: Set<RecordRef>,
    start: AppliedModel,
    dependencies: Seq<PurgeDependency>,
    at: Application,
    m: nat,
    n: nat,
)
    requires
        n <= dependencies.len(),
        m <= changes.len(),
        forall|r: RecordRef| #[trigger] aimed_at(changes, changes.len(), r) ==> spared.contains(r),
        underway(committed, changes, ids, spared, start, changes.len(), changes.len(), m),
        start.undermined(committed, dependencies, spared, at, n) is Ok,
    ensures
        undermining(
            committed,
            changes,
            ids,
            spared,
            start,
            start.undermined(committed, dependencies, spared, at, n)->Ok_0,
            m,
        ),
    decreases n,
{
    if n > 0 {
        undermined_are_underway(committed, changes, ids, spared, start, dependencies, at, m, (n - 1) as nat);
        let before = start.undermined(committed, dependencies, spared, at, (n - 1) as nat)->Ok_0;
        let after = start.undermined(committed, dependencies, spared, at, n)->Ok_0;
        let dependency = dependencies[n - 1];
        let record = dependency.record;
        if !(spared.contains(record) || before.seen.contains(record)) {
            reveal(AppliedModel::moved);
            let marked = AppliedModel { seen: before.seen.insert(record), ..before };
            moved_stands(
                committed,
                marked.store,
                record,
                dependency.expected_revision,
                RecordState::Unsupported,
                at.operation_id,
                at.recorded_at_ms,
            );
            let told = RecordRevision {
                record,
                revision: (dependency.expected_revision + 1) as u64,
                state: RecordState::Unsupported,
            };
            assert(!names(before.revisions, record)) by {
                if names(before.revisions, record) {
                    assert(aimed_at(changes, m, record));
                    let i = choose|i: int| 0 <= i < m && change_mutates(#[trigger] changes[i], record);
                    assert(aimed_at(changes, changes.len(), record)) by {
                        assert(change_mutates(changes[i], record));
                    }
                }
            }
            one_more_tells_truly(committed, before, after, told);
            pushing_keeps(before.revisions, told);
            assert(after.revisions == before.revisions.push(told));
        }
    }
}

proof fn targets_are_underway(
    committed: StoreModel,
    changes: Seq<ProposalChangeModel>,
    ids: Seq<Ulid>,
    spared: Set<RecordRef>,
    before: AppliedModel,
    record: RecordRef,
    expected_revision: u64,
    state: RecordState,
    at: Application,
    m: nat,
)
    requires
        m < changes.len(),
        targets_differ(changes),
        change_mutates(changes[m as int], record),
        forall|r: RecordRef| #[trigger] aimed_at(changes, changes.len(), r) ==> spared.contains(r),
        underway(committed, changes, ids, spared, before, changes.len(), changes.len(), m),
        before.moved(committed, record, expected_revision, state, at) is Ok,
    ensures
        ({
            let after = before.moved(committed, record, expected_revision, state, at)->Ok_0;
            &&& underway(committed, changes, ids, spared, after, changes.len(), changes.len(), (m + 1) as nat)
            &&& forall|x: RecordRevision| before.revisions.contains(x) ==> #[trigger] after.revisions.contains(x)
            &&& after.revisions.contains(
                RecordRevision { record, revision: (expected_revision + 1) as u64, state },
            )
            &&& forall|r: RecordRef| #[trigger] names(after.revisions, r) <==> names(before.revisions, r) || r == record
            &&& committed.standing(record) is Ok
        }),
{
    reveal(AppliedModel::moved);
    let after = before.moved(committed, record, expected_revision, state, at)->Ok_0;
    moved_stands(committed, before.store, record, expected_revision, state, at.operation_id, at.recorded_at_ms);
    let told = RecordRevision { record, revision: (expected_revision + 1) as u64, state };
    assert(aimed_at(changes, changes.len(), record)) by {
        assert(change_mutates(changes[m as int], record));
    }
    assert(!names(before.revisions, record)) by {
        if names(before.revisions, record) {
            assert(aimed_at(changes, m, record));
            let i = choose|i: int| 0 <= i < m && change_mutates(#[trigger] changes[i], record);
            assert(change_mutates(changes[i], record));
            assert(!change_mutates(changes[m as int], record));
        }
    }
    one_more_tells_truly(committed, before, after, told);
    pushing_keeps(before.revisions, told);
    let all = changes.len();
    assert forall|r: RecordRef| #[trigger] names(after.revisions, r) implies if committed.standing(r) is Err {
        comes_from(changes, ids, all, all, (m + 1) as nat, r)
    } else {
        after.seen.contains(r) || aimed_at(changes, (m + 1) as nat, r)
    } by {
        if r == record {
            assert(change_mutates(changes[m as int], r));
        } else {
            assert(names(before.revisions, r));
            if committed.standing(r) is Err {
                later_comes_from(changes, ids, all, m, r);
            } else if aimed_at(changes, m, r) {
                let i = choose|i: int| 0 <= i < m && change_mutates(#[trigger] changes[i], r);
                assert(change_mutates(changes[i], r));
            }
        }
    }
}

proof fn later_comes_from(changes: Seq<ProposalChangeModel>, ids: Seq<Ulid>, all: nat, m: nat, r: RecordRef)
    requires
        comes_from(changes, ids, all, all, m, r),
    ensures
        comes_from(changes, ids, all, all, (m + 1) as nat, r),
{
    if exists|i: int|
        0 <= i < m && changes[i] is Supersede && r == RecordRef::SemanticRelation(RelationId(#[trigger] ids[i])) {
        let i = choose|i: int|
            0 <= i < m && changes[i] is Supersede && r == RecordRef::SemanticRelation(RelationId(#[trigger] ids[i]));
        assert(0 <= i < m + 1 && changes[i] is Supersede && r == RecordRef::SemanticRelation(RelationId(ids[i])));
    }
}

proof fn mutated_are_underway(
    committed: StoreModel,
    changes: Seq<ProposalChangeModel>,
    ids: Seq<Ulid>,
    spared: Set<RecordRef>,
    start: AppliedModel,
    drafts: Map<ProposalDraftId, AppliedRecord>,
    sources: Seq<EvidenceId>,
    at: Application,
    n: nat,
)
    requires
        n <= changes.len() <= ids.len(),
        are_new(committed, ids, changes.len()),
        targets_differ(changes),
        forall|r: RecordRef| #[trigger] aimed_at(changes, changes.len(), r) ==> spared.contains(r),
        underway(committed, changes, ids, spared, start, changes.len(), changes.len(), 0),
        covers(start.revisions, changes, ids, changes.len(), changes.len(), 0),
        start.mutated(committed, changes, ids, drafts, sources, spared, at, n) is Ok,
    ensures
        ({
            let after = start.mutated(committed, changes, ids, drafts, sources, spared, at, n)->Ok_0;
            &&& underway(committed, changes, ids, spared, after, changes.len(), changes.len(), n)
            &&& covers(after.revisions, changes, ids, changes.len(), changes.len(), n)
        }),
    decreases n,
{
    if n > 0 {
        mutated_are_underway(committed, changes, ids, spared, start, drafts, sources, at, (n - 1) as nat);
        let before = start.mutated(committed, changes, ids, drafts, sources, spared, at, (n - 1) as nat)->Ok_0;
        let after = start.mutated(committed, changes, ids, drafts, sources, spared, at, n)->Ok_0;
        let all = changes.len();
        let m = (n - 1) as nat;
        let id = ids[n - 1];
        reveal(AppliedModel::mutating);
        match changes[n - 1] {
            ProposalChangeModel::Retract { target } => {
                let dependencies = committed.dependency_closure(target.record, false)->Ok_0;
                let state = RecordState::Retracted;
                targets_are_underway(
                    committed,
                    changes,
                    ids,
                    spared,
                    before,
                    target.record,
                    target.revision,
                    state,
                    at,
                    m,
                );
                let moved = before.moved(committed, target.record, target.revision, state, at)->Ok_0;
                undermined_are_underway(
                    committed,
                    changes,
                    ids,
                    spared,
                    moved,
                    dependencies,
                    at,
                    n,
                    dependencies.len(),
                );
            },
            ProposalChangeModel::Supersede { target, replacement } => {
                let dependencies = committed.dependency_closure(target.record, false)->Ok_0;
                let state = RecordState::Superseded;
                targets_are_underway(
                    committed,
                    changes,
                    ids,
                    spared,
                    before,
                    target.record,
                    target.revision,
                    state,
                    at,
                    m,
                );
                let moved = before.moved(committed, target.record, target.revision, state, at)->Ok_0;
                reveal(AppliedModel::superseding);
                let linked = moved.superseding(replacement, target.record, id, drafts, sources, at)->Ok_0;
                let told = replaced_by(changes[n - 1], id)->0;
                new_relation_stands(
                    moved.store,
                    SemanticRelationRevisionHeaderModel {
                        id: RelationId(id),
                        revision: 1,
                        previous_revision: None,
                        from: drafts[replacement].record(),
                        to: target.record,
                        kind: RelationKind::Supersedes,
                        scope: at.scope,
                        evidence_ids: sources,
                        state: RecordState::Active,
                        recorded_at_ms: at.recorded_at_ms,
                        operation_id: at.operation_id,
                    },
                    None,
                );
                assert(committed.standing(told.record) is Err) by {
                    assert(ids[n - 1] == id);
                }
                assert(!names(moved.revisions, told.record)) by {
                    if names(moved.revisions, told.record) {
                        assert(told.record != target.record);
                        assert(names(before.revisions, told.record));
                        assert(comes_from(changes, ids, all, all, m, told.record));
                        if exists|i: int|
                            0 <= i < all && changes[i] is CreateRelation && told.record == RecordRef::SemanticRelation(
                                RelationId(#[trigger] ids[i]),
                            ) {
                            let i = choose|i: int|
                                0 <= i < all && changes[i] is CreateRelation && told.record
                                    == RecordRef::SemanticRelation(RelationId(#[trigger] ids[i]));
                            assert(i != n - 1);
                            if i < n - 1 {
                                assert(ids[i] != ids[n - 1]);
                            } else {
                                assert(ids[n - 1] != ids[i]);
                            }
                        } else {
                            let i = choose|i: int|
                                0 <= i < m && changes[i] is Supersede && told.record == RecordRef::SemanticRelation(
                                    RelationId(#[trigger] ids[i]),
                                );
                            assert(ids[i] != ids[n - 1]);
                        }
                    }
                }
                one_more_tells_truly(committed, moved, linked, told);
                pushing_keeps(moved.revisions, told);
                assert(comes_from(changes, ids, all, all, n, told.record)) by {
                    assert(told.record == RecordRef::SemanticRelation(RelationId(ids[n - 1])));
                }
                assert(underway(committed, changes, ids, spared, linked, all, all, n));
                undermined_are_underway(
                    committed,
                    changes,
                    ids,
                    spared,
                    linked,
                    dependencies,
                    at,
                    n,
                    dependencies.len(),
                );
            },
            _ => {
                assert forall|r: RecordRef| #[trigger] names(after.revisions, r) implies if committed.standing(
                    r,
                ) is Err {
                    comes_from(changes, ids, all, all, n, r)
                } else {
                    after.seen.contains(r) || aimed_at(changes, n, r)
                } by {
                    if committed.standing(r) is Err {
                        later_comes_from(changes, ids, all, m, r);
                    } else if aimed_at(changes, m, r) {
                        let i = choose|i: int| 0 <= i < m && change_mutates(#[trigger] changes[i], r);
                        assert(change_mutates(changes[i], r));
                    }
                }
            },
        }
    }
}

/// Whether what became of changes is told truly: the revisions told are where records stand,
/// and hold what each change brings and moves.
pub open spec fn take_hold(
    s: StoreModel,
    after: StoreModel,
    proposal: RecordRef,
    changes: Seq<ProposalChangeModel>,
    ids: Seq<Ulid>,
    told: Seq<RecordRevision>,
) -> bool {
    &&& forall|i: int|
        0 <= i < told.len() && (#[trigger] told[i]).record != proposal ==> stands_as(after, told[i])
    &&& forall|r: RecordRef|
        r != proposal && !names(told, r) ==> #[trigger] after.standing(r) == s.standing(r)
    &&& forall|i: int|
        0 <= i < changes.len() && created_by(#[trigger] changes[i], ids[i]) is Some ==> told.contains(
            created_by(changes[i], ids[i])->0,
        )
    &&& forall|i: int|
        0 <= i < changes.len() && related_by(#[trigger] changes[i], ids[i]) is Some ==> told.contains(
            related_by(changes[i], ids[i])->0,
        )
    &&& forall|i: int|
        0 <= i < changes.len() && moved_by(#[trigger] changes[i]) is Some ==> told.contains(moved_by(changes[i])->0)
    &&& forall|i: int|
        0 <= i < changes.len() && replaced_by(#[trigger] changes[i], ids[i]) is Some ==> told.contains(
            replaced_by(changes[i], ids[i])->0,
        )
}

proof fn applied_take_hold(
    s: StoreModel,
    operation: OperationContext,
    input: ProposalAdjudication,
    digest: [u8; 32],
    proposal: ProposalRecordModel,
    changes: Seq<ProposalChangeModel>,
    fresh: FreshModel,
    after: StoreModel,
    receipt: ProposalAdjudicationReceiptModel,
)
    requires
        s.applied(operation, input, digest, proposal, changes, fresh) == MemoryResult::Ok((after, receipt)),
        fresh.ids.len() == changes.len() + 1,
        are_new(s, fresh.ids, changes.len()),
        targets_differ(changes),
    ensures
        take_hold(
            s,
            after,
            RecordRef::Proposal(proposal.header.id),
            changes,
            fresh.ids,
            receipt.changed_records,
        ),
{
    reveal(StoreModel::applied);
    reveal(StoreModel::changes_applied);
    let ids = fresh.ids;
    let at = Application {
        scope: proposal.header.scope,
        operation_id: operation.id,
        recorded_at_ms: fresh.recorded_at_ms,
    };
    let drafts = drafted(changes, ids, changes.len());
    let sources = evidence_named(proposal.source_evidence);
    let spared = spared_by(input.proposal_id, input.review_case_id, changes);
    let staged = s.put(WriteModel::DropAwaiting(proposal.header.id));
    assert(same_standings(s, staged)) by {
        broadcast use crate::writing::parts_after_put;
    }
    let start = AppliedModel { store: staged, revisions: Seq::empty(), seen: Set::empty() };
    assert forall|r: RecordRef| #[trigger] staged.standing(r) == s.standing(r) by {
        same_standings_stand(s, staged, r);
    }
    assert(tells_truly(s, start));
    assert forall|r: RecordRef| #[trigger] aimed_at(changes, changes.len(), r) implies spared.contains(r) by {
        let i = choose|i: int| 0 <= i < changes.len() && change_mutates(#[trigger] changes[i], r);
        assert(change_mutates(changes[i], r));
        assert(change_targets(changes).contains(r));
    }
    created_are_underway(s, changes, ids, spared, start, at, changes.len());
    let created = start.created(changes, ids, at, changes.len());
    related_are_underway(s, changes, ids, spared, created, drafts, at, changes.len());
    let related = created.related(changes, ids, drafts, at, changes.len())->Ok_0;
    mutated_are_underway(s, changes, ids, spared, related, drafts, sources, at, changes.len());
    let done = related.mutated(s, changes, ids, drafts, sources, spared, at, changes.len())->Ok_0;
    let next = restated(proposal.header, ProposalStatus::Applied, operation.id, fresh.recorded_at_ms)->Ok_0;
    filed_proposal_stands(done.store, next);
    assert forall|r: RecordRef| r != RecordRef::Proposal(next.id) implies #[trigger] after.standing(r)
        == done.store.standing(r) by {
        let filed = done.store.put(WriteModel::PutProposal(revision_of(next.id.0, next.revision), next)).put(
            WriteModel::PutHead(RecordRef::Proposal(next.id), next.revision),
        );
        let event = s.decision_event(
            ids[changes.len() as int],
            operation,
            input,
            seq![RecordRef::Proposal(next.id)] + records_of(done.revisions),
            fresh.recorded_at_ms,
        );
        books_move_nothing(filed, event, operation.id, digest, ReceiptModel::Adjudication(receipt), r);
    }
    assert(next.id == proposal.header.id);
    assert forall|i: int|
        0 <= i < receipt.changed_records.len() && (#[trigger] receipt.changed_records[i]).record
            != RecordRef::Proposal(proposal.header.id) implies stands_as(after, receipt.changed_records[i]) by {
        assert(stands_as(done.store, done.revisions[i]));
    }
}

/// Accepting a proposal applies all of it: what each change brings is there, active and at
/// its first revision, what it retracts or supersedes is so, everything that moved is told
/// where it stands, and nothing else moves.
pub proof fn accepted_changes_take_hold(
    s: StoreModel,
    operation: OperationContext,
    input: ProposalAdjudication,
    request: Seq<u8>,
    fresh: FreshModel,
    after: StoreModel,
    receipt: ProposalAdjudicationReceiptModel,
    proposal: ProposalRecordModel,
    changes: Seq<ProposalChangeModel>,
)
    requires
        s.adjudicate_proposal(operation, input, request, fresh) == MemoryResult::Ok((after, receipt)),
        !s.operations.contains_key(operation.id),
        receipt.proposal.status == ProposalStatus::Applied,
        s.inspect_proposal(input.proposal_id) == Some(proposal),
        proposal.changes == Some(changes),
        fresh.ids.len() == changes.len() + 1,
        are_new(s, fresh.ids, changes.len()),
        targets_differ(changes),
    ensures
        take_hold(
            s,
            after,
            RecordRef::Proposal(proposal.header.id),
            changes,
            fresh.ids,
            receipt.changed_records,
        ),
{
    reveal(StoreModel::replay);
    reveal(StoreModel::adjudicable);
    reveal(StoreModel::accepted);
    reveal(StoreModel::closed);
    reveal(StoreModel::stale_acknowledged);
    let digest = mutation_digest_of(s.digest_key@, "adjudicate_proposal"@, operation.actor, request);
    assert(s.applied(operation, input, digest, proposal, changes, fresh) == MemoryResult::Ok((after, receipt)));
    applied_take_hold(s, operation, input, digest, proposal, changes, fresh, after, receipt);
}

proof fn gathered_aim_once(changes: Seq<ProposalChangeModel>, sources: Set<EvidenceId>, n: nat)
    requires
        n <= changes.len(),
        gathered(changes, sources, n) is Ok,
    ensures
        ({
            let gathering = gathered(changes, sources, n)->Ok_0;
            &&& targets_differ(gathering.changes)
            &&& forall|i: int, r: RecordRef|
                0 <= i < gathering.changes.len() && #[trigger] change_mutates(gathering.changes[i], r)
                    ==> gathering.targets.contains(r)
        }),
    decreases n,
{
    if n > 0 {
        gathered_aim_once(changes, sources, (n - 1) as nat);
        let before = gathered(changes, sources, (n - 1) as nat)->Ok_0;
        let after = gathered(changes, sources, n)->Ok_0;
        reveal(GatheringModel::gather);
        let last = after.changes.last();
        assert(after.changes == before.changes.push(last));
        assert forall|i: int, r: RecordRef|
            0 <= i < after.changes.len() && #[trigger] change_mutates(after.changes[i], r) implies after.targets.contains(
            r,
        ) by {
            if i < before.changes.len() {
                assert(change_mutates(before.changes[i], r));
            }
        }
        assert forall|i: int, j: int, record: RecordRef|
            0 <= i < j < after.changes.len() && #[trigger] change_mutates(
                after.changes[i],
                record,
            ) implies !#[trigger] change_mutates(after.changes[j], record) by {
            assert(change_mutates(before.changes[i], record));
            if j < before.changes.len() {
                assert(!change_mutates(before.changes[j], record));
            }
        }
    }
}

/// No two changes of a bundle that is taken are about one record.
pub proof fn bundles_aim_at_each_record_once(input: NewProposalBundleModel, bundle: NewProposalBundleModel)
    requires
        sound_bundle(input) == MemoryResult::Ok(bundle),
    ensures
        targets_differ(bundle.changes),
{
    reveal(sound_bundle);
    let sources = pinned_evidence(in_order(input.source_evidence.to_set()));
    gathered_aim_once(input.changes, sources, input.changes.len());
}

} // verus!
