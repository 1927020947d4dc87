//! What a withdrawal reaches, and what an operator is shown and may do when something is
//! purged.

use vstd::prelude::*;
use crate::clock::FreshModel;
use crate::closure::{closures_name_others, dependents_named, reached_is_least_closed};
use crate::context::OperationContext;
use crate::derived::filed_under;
use crate::fault::{MemoryError, MemoryResult, SignalIndex};
use crate::ids::{ActivationTraceId, OperationId, RelationSignalId, Ulid};
use crate::inspect::{lookup, revision_of};
use crate::keys::{DependencyKey, RecordIndexKey};
use crate::order::{in_order, in_order_lists};
use crate::purge::{dependent_pins, purge_records};
use crate::records::audit::{PurgeDependency, PurgePreviewModel, PurgeReceiptModel, RecordRevision};
use crate::records::evidence::{Actor, RecordRef, RecordState};
use crate::records::relation::RelationSignalPin;
use crate::store::StoreModel;

verus! {

/// Whether a record rests on another over a number of others: each is filed as a dependent
/// of the one before.
pub open spec fn rests_over(s: StoreModel, target: RecordRef, record: RecordRef, steps: nat) -> bool
    decreases steps,
{
    if steps == 0 {
        record == target
    } else {
        exists|between: RecordRef|
            rests_over(s, target, between, (steps - 1) as nat) && #[trigger] s.dependencies.contains_key(
                DependencyKey { source: between, dependent: record },
            )
    }
}

proof fn dependents_are_filed(s: StoreModel, source: RecordRef, dependent: RecordRef)
    requires
        s.dependencies.dom().finite(),
    ensures
        s.dependents(source).contains(dependent) <==> s.dependencies.contains_key(
            DependencyKey { source, dependent },
        ),
{
    let keys = s.dependency_keys(source);
    assert(keys.subset_of(s.dependencies.dom()));
    vstd::set_lib::lemma_len_subset(keys, s.dependencies.dom());
    in_order_lists(keys);
    let list = in_order(keys);
    let named = dependents_named(list);
    let key = DependencyKey { source, dependent };
    if named.contains(dependent) {
        let i = named.index_of(dependent);
        assert(named[i] == dependent);
        assert(list.contains(list[i]));
        assert(keys.contains(list[i]));
        assert(list[i] == key);
    }
    if s.dependencies.contains_key(key) {
        assert(keys.contains(key));
        assert(list.contains(key));
        let i = list.index_of(key);
        assert(list[i] == key);
        assert(named[i] == dependent);
    }
}

/// What is reached from a record is what rests on it, over however many others.
pub proof fn what_rests_on_it_is_reached(s: StoreModel, target: RecordRef, record: RecordRef)
    requires
        s.dependencies.dom().finite(),
    ensures
        s.reached(target).contains(record) <==> exists|steps: nat| rests_over(s, target, record, steps),
{
    let resting = Set::new(|r: RecordRef| exists|steps: nat| rests_over(s, target, r, steps));
    reached_is_least_closed(s, target, resting);
    assert(resting.contains(target)) by {
        assert(rests_over(s, target, target, 0));
    }
    assert forall|d: RecordRef, e: RecordRef|
        resting.contains(d) && #[trigger] s.dependents(d).contains(e) implies resting.contains(e) by {
        dependents_are_filed(s, d, e);
        let steps = choose|steps: nat| rests_over(s, target, d, steps);
        assert(s.dependencies.contains_key(DependencyKey { source: d, dependent: e }));
        assert(rests_over(s, target, e, steps + 1));
    }
    if s.reached(target).contains(record) {
        assert(resting.contains(record));
    }
    if exists|steps: nat| rests_over(s, target, record, steps) {
        let steps = choose|steps: nat| rests_over(s, target, record, steps);
        chains_are_reached(s, target, record, steps);
    }
}

proof fn chains_are_reached(s: StoreModel, target: RecordRef, record: RecordRef, steps: nat)
    requires
        s.dependencies.dom().finite(),
        rests_over(s, target, record, steps),
    ensures
        s.reached(target).contains(record),
    decreases steps,
{
    reached_is_least_closed(s, target, Set::empty());
    if steps > 0 {
        let between = choose|between: RecordRef|
            rests_over(s, target, between, (steps - 1) as nat) && #[trigger] s.dependencies.contains_key(
                DependencyKey { source: between, dependent: record },
            );
        chains_are_reached(s, target, between, (steps - 1) as nat);
        dependents_are_filed(s, between, record);
        assert(s.dependents(between).contains(record));
    }
}

/// What a change of a record has to reach: everything else that rests on it, over however
/// many others, and is active, and where asked for also what is not active but was not
/// purged. Each is named once, at its current revision.
pub proof fn closures_are_told(
    s: StoreModel,
    target: RecordRef,
    include_inactive: bool,
    found: Seq<PurgeDependency>,
    record: RecordRef,
)
    requires
        s.dependencies.dom().finite(),
        s.dependency_closure(target, include_inactive) == MemoryResult::Ok(found),
    ensures
        (exists|i: int| 0 <= i < found.len() && (#[trigger] found[i]).record == record) <==> {
            &&& record != target
            &&& exists|steps: nat| rests_over(s, target, record, steps)
            &&& s.standing(record) matches Ok((_, state, _)) && (state == RecordState::Active || (include_inactive
                && state != RecordState::Purged))
        },
        forall|i: int|
            0 <= i < found.len() ==> (s.standing((#[trigger] found[i]).record) matches Ok((_, _, revision))
                && found[i].expected_revision == revision),
        forall|i: int, j: int| 0 <= i < j < found.len() ==> found[i].record != found[j].record,
{
    closures_name_others(s, target, include_inactive, found);
    what_rests_on_it_is_reached(s, target, record);
    if exists|i: int| 0 <= i < found.len() && (#[trigger] found[i]).record == record {
        let i = choose|i: int| 0 <= i < found.len() && (#[trigger] found[i]).record == record;
        assert(s.affected(found[i].record, include_inactive));
        assert(s.reached(target).contains(record)) by {
            reveal(StoreModel::dependency_closure);
            let order = s.reached(target);
            let members = s.affected_among(order, include_inactive);
            what_rests_on_it_is_reached(s, target, target);
            assert(rests_over(s, target, target, 0));
            assert(order.contains(target));
            assert(members.subset_of(order.to_set())) by {
                assert forall|r: RecordRef| #[trigger] members.contains(r) implies order.to_set().contains(r) by {
                    assert(order.skip(1).contains(r));
                    let k = order.skip(1).index_of(r);
                    assert(order.skip(1)[k] == r);
                    assert(order[k + 1] == r);
                }
            }
            vstd::seq_lib::seq_to_set_is_finite(order);
            vstd::set_lib::lemma_len_subset(members, order.to_set());
            in_order_lists(members);
            let records = in_order(members);
            assert(found[i] == s.dependency_on(records[i]));
            assert(records.contains(records[i]));
            assert(members.contains(record));
        }
    }
    if record != target && (exists|steps: nat| rests_over(s, target, record, steps)) && s.affected(
        record,
        include_inactive,
    ) {
        assert(exists|i: int| 0 <= i < found.len() && (#[trigger] found[i]).record == record);
    }
}

proof fn payloads_are_counted(s: StoreModel, records: Seq<RecordRef>, n: nat)
    requires
        n <= records.len(),
    ensures
        s.record_payloads(records, n) == records.take(n as int).filter(|r: RecordRef| s.has_payload(r)).len(),
    decreases n,
{
    reveal(Seq::filter);
    if n > 0 {
        payloads_are_counted(s, records, (n - 1) as nat);
        assert(records.take(n as int).drop_last() =~= records.take(n - 1));
    } else {
        assert(records.take(0) =~= Seq::empty());
    }
}

proof fn signal_payloads_are_counted(s: StoreModel, pins: Seq<RelationSignalPin>, n: nat)
    requires
        n <= pins.len(),
    ensures
        s.signal_payloads(pins, n) == pins.take(n as int).filter(
            |p: RelationSignalPin| s.relation_signal_payloads.contains_key(p.id),
        ).len(),
    decreases n,
{
    reveal(Seq::filter);
    if n > 0 {
        signal_payloads_are_counted(s, pins, (n - 1) as nat);
        assert(pins.take(n as int).drop_last() =~= pins.take(n - 1));
    } else {
        assert(pins.take(0) =~= Seq::empty());
    }
}

proof fn trace_payloads_are_counted(s: StoreModel, ids: Seq<ActivationTraceId>, n: nat)
    requires
        n <= ids.len(),
    ensures
        s.trace_payloads(ids, n) == ids.take(n as int).filter(
            |id: ActivationTraceId| s.activation_trace_payloads.contains_key(id),
        ).len(),
    decreases n,
{
    reveal(Seq::filter);
    if n > 0 {
        trace_payloads_are_counted(s, ids, (n - 1) as nat);
        assert(ids.take(n as int).drop_last() =~= ids.take(n - 1));
    } else {
        assert(ids.take(0) =~= Seq::empty());
    }
}

/// Where the payload of a record is: texts for evidence, claims, collections and passages,
/// and a place of its own for every other kind.
pub proof fn payloads_have_their_places(s: StoreModel, record: RecordRef)
    ensures
        s.has_payload(record) <==> match record {
            RecordRef::Entity(id) => s.entity_payloads.contains_key(id),
            RecordRef::SemanticRelation(id) => s.relation_payloads.contains_key(id),
            RecordRef::Proposal(id) => s.proposal_payloads.contains_key(id),
            RecordRef::ProposalReview(id) => s.review_payloads.contains_key(id),
            RecordRef::ArtifactSnapshot(id) => s.snapshot_payloads.contains_key(id),
            _ => s.texts.contains_key(record),
        },
        !s.without_payload(record).has_payload(record),
        record matches RecordRef::ArtifactSnapshot(id) ==> !s.without_payload(record).artifact_snapshot_blobs.contains_key(id),
        forall|other: RecordRef|
            other != record ==> (#[trigger] s.without_payload(record).has_payload(other) <==> s.has_payload(other)),
{
    reveal(StoreModel::has_payload);
    reveal(StoreModel::without_payload);
    broadcast use crate::writing::parts_after_put;
}

/// What an operator is shown before a purge: the record at its current revision, unless
/// it was purged before; everything that rests on it, active or not; the signals and
/// traces made of any of these; how many payloads will be gone, one for each of them that
/// has one; and ten minutes in which to decide. Nobody else is shown anything.
pub proof fn previews_show_what_goes(s: StoreModel, actor: Actor, target: RecordRef, now_ms: i64, preview: PurgePreviewModel)
    requires
        s.preview_purge(actor, target, now_ms) == MemoryResult::Ok(preview),
    ensures
        actor is Operator,
        preview.target == target,
        preview.issued_at_ms == now_ms,
        preview.expires_at_ms == now_ms + 600_000,
        s.standing(target) matches Ok((_, state, revision)) && state != RecordState::Purged
            && preview.expected_revision == revision,
        s.dependency_closure(target, true) == MemoryResult::Ok(preview.invalidations),
        ({
            let records = seq![target] + Seq::new(
                preview.invalidations.len(),
                |i: int| preview.invalidations[i].record,
            );
            let pins = Seq::new(
                preview.relation_signal_invalidations.len(),
                |i: int| preview.relation_signal_invalidations[i].signal,
            );
            &&& s.signals_depending_on(records) == MemoryResult::Ok(pins)
            &&& preview.activation_trace_invalidations == s.traces_depending_on(records)
            &&& preview.payloads_to_make_unavailable == records.filter(|r: RecordRef| s.has_payload(r)).len()
                + pins.filter(|p: RelationSignalPin| s.relation_signal_payloads.contains_key(p.id)).len()
                + s.traces_depending_on(records).filter(
                |id: ActivationTraceId| s.activation_trace_payloads.contains_key(id),
            ).len()
        }),
{
    reveal(StoreModel::purge_preview);
    let records = purge_records(target, preview.invalidations);
    assert(records =~= seq![target] + Seq::new(
        preview.invalidations.len(),
        |i: int| preview.invalidations[i].record,
    ));
    let pins = s.signals_depending_on(records)->Ok_0;
    let traces = s.traces_depending_on(records);
    assert(pins =~= Seq::new(
        preview.relation_signal_invalidations.len(),
        |i: int| preview.relation_signal_invalidations[i].signal,
    ));
    payloads_are_counted(s, records, records.len());
    signal_payloads_are_counted(s, pins, pins.len());
    trace_payloads_are_counted(s, traces, traces.len());
    assert(records.take(records.len() as int) =~= records);
    assert(pins.take(pins.len() as int) =~= pins);
    assert(traces.take(traces.len() as int) =~= traces);
}

/// A purge is committed by an operator, within the ten minutes from when it was shown, and
/// only if it would be shown the same again.
pub proof fn purges_are_what_was_shown(s: StoreModel, preview: PurgePreviewModel, now_ms: i64)
    ensures
        s.preview_fault(preview, now_ms) is None <==> {
            &&& preview.issued_at_ms <= now_ms < preview.expires_at_ms
            &&& preview.expires_at_ms == preview.issued_at_ms + 600_000
            &&& s.preview_purge(Actor::Operator, preview.target, preview.issued_at_ms) == MemoryResult::Ok(preview)
        },
        now_ms < preview.issued_at_ms ==> s.preview_fault(preview, now_ms) == Some(
            MemoryError::PurgePreviewNotYetValid { issued_at_ms: preview.issued_at_ms, now_ms },
        ),
        preview.issued_at_ms <= now_ms && now_ms >= preview.expires_at_ms ==> s.preview_fault(preview, now_ms) == Some(
            MemoryError::PurgePreviewExpired { expires_at_ms: preview.expires_at_ms, now_ms },
        ),
{
    reveal(StoreModel::preview_fault);
}

/// What a committed purge is answered: the record at its next revision, purged; those of
/// the dependents that were active, each at its next revision, unsupported; and the
/// signals, traces and payloads that were shown.
pub proof fn purges_are_told(
    s: StoreModel,
    operation: OperationContext,
    preview: PurgePreviewModel,
    request: Seq<u8>,
    now_ms: i64,
    fresh: FreshModel,
    after: StoreModel,
    receipt: PurgeReceiptModel,
)
    requires
        s.commit_purge(operation, preview, request, now_ms, fresh) == MemoryResult::Ok((after, receipt)),
        !s.operations.contains_key(operation.id),
    ensures
        operation.actor is Operator,
        s.preview_fault(preview, now_ms) is None,
        receipt.target == (RecordRevision {
            record: preview.target,
            revision: (preview.expected_revision + 1) as u64,
            state: RecordState::Purged,
        }),
        receipt.payloads_made_unavailable == preview.payloads_to_make_unavailable,
        receipt.purged_activation_traces == preview.activation_trace_invalidations,
        receipt.purged_relation_signals.len() == preview.relation_signal_invalidations.len(),
        forall|i: int|
            0 <= i < receipt.purged_relation_signals.len() ==> (#[trigger] receipt.purged_relation_signals[i]).id
                == preview.relation_signal_invalidations[i].signal.id && receipt.purged_relation_signals[i].revision
                == preview.relation_signal_invalidations[i].signal.revision + 1,
        forall|r: RecordRevision| #[trigger]
            receipt.invalidated.contains(r) <==> exists|i: int|
                0 <= i < preview.invalidations.len() && r.record == (#[trigger] preview.invalidations[i]).record
                    && r.revision == (preview.invalidations[i].expected_revision + 1) as u64 && r.state
                    == RecordState::Unsupported && s.standing(r.record)->Ok_0.1 == RecordState::Active,
{
    reveal(StoreModel::replay);
    reveal(StoreModel::purged);
    reveal(StoreModel::appended);
    let moved = s.appended(
        s,
        preview.target,
        preview.expected_revision,
        RecordState::Purged,
        operation.id,
        fresh.recorded_at_ms,
    )->Ok_0.0;
    let start = moved.unindexed(s, preview.target).without_payload(preview.target);
    let n = preview.invalidations.len();
    let undermined = s.dependents_purged(start, preview.invalidations, operation.id, fresh.recorded_at_ms, n)->Ok_0.0;
    let pins = dependent_pins(preview.relation_signal_invalidations);
    silenced_signals_are_told(s, undermined, pins, pins.len(), operation.id, fresh.recorded_at_ms);
    assert forall|r: RecordRevision| #[trigger] receipt.invalidated.contains(r) <==> exists|i: int|
        0 <= i < preview.invalidations.len() && r.record == (#[trigger] preview.invalidations[i]).record && r.revision
            == (preview.invalidations[i].expected_revision + 1) as u64 && r.state == RecordState::Unsupported
            && s.standing(r.record)->Ok_0.1 == RecordState::Active by {
        undermined_are_told(s, start, preview.invalidations, operation.id, fresh.recorded_at_ms, n, r);
    }
}

proof fn silenced_signals_are_told(
    s: StoreModel,
    staged: StoreModel,
    pins: Seq<RelationSignalPin>,
    n: nat,
    operation_id: OperationId,
    recorded_at_ms: i64,
)
    requires
        n <= pins.len(),
    ensures
        s.signals_purged(staged, pins, n, operation_id, recorded_at_ms) matches Ok((after, done)) ==> done.len() == n
            && forall|i: int|
            0 <= i < n ==> (#[trigger] done[i]).id == pins[i].id && done[i].revision == pins[i].revision + 1,
    decreases n,
{
    reveal(StoreModel::signal_appended);
    if n > 0 {
        silenced_signals_are_told(s, staged, pins, (n - 1) as nat, operation_id, recorded_at_ms);
        match s.signals_purged(staged, pins, n, operation_id, recorded_at_ms) {
            Ok((after, done)) => {
                let before = s.signals_purged(staged, pins, (n - 1) as nat, operation_id, recorded_at_ms)->Ok_0.1;
                let staged_before = s.signals_purged(
                    staged,
                    pins,
                    (n - 1) as nat,
                    operation_id,
                    recorded_at_ms,
                )->Ok_0.0;
                let last = s.signal_appended(
                    staged_before,
                    pins[n - 1],
                    RecordState::Purged,
                    operation_id,
                    recorded_at_ms,
                );
                assert(last is Ok);
                assert(done == before.push(last->Ok_0.1));
                assert(last->Ok_0.1.id == pins[n - 1].id);
                assert(last->Ok_0.1.revision == pins[n - 1].revision + 1);
                assert forall|i: int| 0 <= i < n implies (#[trigger] done[i]).id == pins[i].id && done[i].revision
                    == pins[i].revision + 1 by {
                    if i < n - 1 {
                        assert(done[i] == before[i]);
                    }
                }
            },
            _ => {},
        }
    }
}

proof fn undermined_are_told(
    s: StoreModel,
    staged: StoreModel,
    dependencies: Seq<PurgeDependency>,
    operation_id: OperationId,
    recorded_at_ms: i64,
    n: nat,
    r: RecordRevision,
)
    requires
        n <= dependencies.len(),
        s.dependents_purged(staged, dependencies, operation_id, recorded_at_ms, n) is Ok,
    ensures
        s.dependents_purged(staged, dependencies, operation_id, recorded_at_ms, n)->Ok_0.1.contains(r) <==> exists|
            i: int,
        |
            0 <= i < n && r.record == (#[trigger] dependencies[i]).record && r.revision == (
            dependencies[i].expected_revision + 1) as u64 && r.state == RecordState::Unsupported && s.standing(
                r.record,
            )->Ok_0.1 == RecordState::Active,
    decreases n,
{
    if n > 0 {
        let m = (n - 1) as nat;
        undermined_are_told(s, staged, dependencies, operation_id, recorded_at_ms, m, r);
        reveal(StoreModel::dependent_purged);
        reveal(StoreModel::appended);
        let before = s.dependents_purged(staged, dependencies, operation_id, recorded_at_ms, m)->Ok_0.1;
        let now = s.dependents_purged(staged, dependencies, operation_id, recorded_at_ms, n)->Ok_0.1;
        let dependency = dependencies[m as int];
        let next = RecordRevision {
            record: dependency.record,
            revision: (dependency.expected_revision + 1) as u64,
            state: RecordState::Unsupported,
        };
        let was_active = s.standing(dependency.record)->Ok_0.1 == RecordState::Active;
        assert(now == (if was_active {
            before.push(next)
        } else {
            before
        }));
        if now.contains(r) {
            let k = now.index_of(r);
            assert(now[k] == r);
            if k < before.len() {
                assert(before[k] == r);
                assert(before.contains(r));
            }
        }
        if before.contains(r) {
            let k = before.index_of(r);
            assert(now[k] == r);
        }
        if was_active {
            assert(now[before.len() as int] == next);
        }
        if exists|i: int|
            0 <= i < n && r.record == (#[trigger] dependencies[i]).record && r.revision == (
            dependencies[i].expected_revision + 1) as u64 && r.state == RecordState::Unsupported && s.standing(
                r.record,
            )->Ok_0.1 == RecordState::Active {
            let i = choose|i: int|
                0 <= i < n && r.record == (#[trigger] dependencies[i]).record && r.revision == (
                dependencies[i].expected_revision + 1) as u64 && r.state == RecordState::Unsupported && s.standing(
                    r.record,
                )->Ok_0.1 == RecordState::Active;
            if i < m {
                assert(before.contains(r));
            } else {
                assert(r == next);
            }
        }
    }
}

/// Whether a signal is at a revision and was not purged.
pub open spec fn is_live_signal(s: StoreModel, pin: RelationSignalPin) -> bool {
    &&& lookup(s.relation_signal_heads, pin.id) == Some(pin.revision)
    &&& lookup(s.relation_signals, revision_of(pin.id.0, pin.revision)) matches Some(header) && header.state
        != RecordState::Purged
}

/// Which of some signals a withdrawal silences: those that were not purged before, each at
/// its current revision.
proof fn live_signals_are_told(s: StoreModel, index: SignalIndex, ids: Seq<Ulid>, n: nat, pin: RelationSignalPin)
    requires
        n <= ids.len(),
        s.live_signals(index, ids, n) is Ok,
    ensures
        s.live_signals(index, ids, n)->Ok_0.contains(pin) <==> exists|i: int|
            0 <= i < n && pin.id.0 == #[trigger] ids[i] && is_live_signal(s, pin),
    decreases n,
{
    if n > 0 {
        let m = (n - 1) as nat;
        live_signals_are_told(s, index, ids, m, pin);
        let before = s.live_signals(index, ids, m)->Ok_0;
        let now = s.live_signals(index, ids, n)->Ok_0;
        let id = RelationSignalId(ids[m as int]);
        let head = s.signal_head(index, id);
        reveal(StoreModel::signal_head);
        assert(head is Ok);
        assert(lookup(s.relation_signal_heads, id) is Some);
        let revision = lookup(s.relation_signal_heads, id)->0;
        assert(lookup(s.relation_signals, revision_of(id.0, revision)) == Some(head->Ok_0));
        let last = RelationSignalPin { id, revision };
        assert(is_live_signal(s, last) <==> head->Ok_0.state != RecordState::Purged);
        assert(is_live_signal(s, last) ==> now == before.push(last));
        assert(!is_live_signal(s, last) ==> now == before);
        if now.contains(pin) {
            let k = now.index_of(pin);
            assert(now[k] == pin);
            if k < before.len() {
                assert(before[k] == pin);
                assert(before.contains(pin));
            } else {
                assert(pin == last);
                assert(pin.id.0 == ids[m as int]);
            }
        }
        if before.contains(pin) {
            let k = before.index_of(pin);
            assert(now[k] == pin);
        }
        if exists|i: int|
            0 <= i < n && pin.id.0 == #[trigger] ids[i] && is_live_signal(s, pin) {
            let i = choose|i: int|
                0 <= i < n && pin.id.0 == #[trigger] ids[i] && is_live_signal(s, pin);
            if i < m {
                assert(pin.id.0 == ids[i]);
                assert(before.contains(pin));
            } else {
                assert(pin.id == id);
                assert(pin == last);
                assert(now[before.len() as int] == pin);
            }
        }
    }
}

/// The signals that depend on some records are those filed under one of them and not yet
/// purged, each at its current revision.
pub proof fn signals_depend_on_their_records(
    s: StoreModel,
    records: Seq<RecordRef>,
    pins: Seq<RelationSignalPin>,
    pin: RelationSignalPin,
)
    requires
        s.signals_depending_on(records) == MemoryResult::Ok(pins),
        filed_under(s.relation_signals_by_record, records).finite(),
    ensures
        pins.contains(pin) <==> {
            &&& exists|i: int|
                0 <= i < records.len() && s.relation_signals_by_record.contains_key(
                    RecordIndexKey { record: #[trigger] records[i], id: pin.id.0 },
                )
            &&& is_live_signal(s, pin)
        },
{
    let filed = filed_under(s.relation_signals_by_record, records);
    in_order_lists(filed);
    let ids = in_order(filed);
    live_signals_are_told(s, SignalIndex::Dependency, ids, ids.len(), pin);
    if pins.contains(pin) {
        let i = choose|i: int|
            0 <= i < ids.len() && pin.id.0 == #[trigger] ids[i] && is_live_signal(s, pin);
        assert(ids.contains(ids[i]));
        assert(filed.contains(pin.id.0));
    }
    if filed.contains(pin.id.0) {
        assert(ids.contains(pin.id.0));
        let i = ids.index_of(pin.id.0);
        assert(ids[i] == pin.id.0);
    }
}

} // verus!
