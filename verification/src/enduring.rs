//! That every operation keeps what holds of every store, and gives no payload back that is
//! gone.
use vstd::prelude::*;
use crate::activation::BaselinePin;
use crate::clock::FreshModel;
use crate::context::OperationContext;
use crate::derived::owned;
use crate::digest::mutation_digest_of;
use crate::fault::{MemoryResult, SignalIndex};
use crate::ids::{
    ActivationTraceId, ArtifactCollectionId, ArtifactPassageId, ArtifactSnapshotId, ClaimId,
    EvidenceId, OperationId, RelationId, Ulid,
};
use crate::inspect::revision_of;
use crate::keeping::{
    Course, course, courses_begin, courses_end, drawn_is_new, indexing_goes_on, lists_shrink,
    nothing_returns, puts_go_on, revisions_go_on, support_goes_on, unindexing_goes_on,
};
use crate::keys::OwnerIndexKey;
use crate::recall::turn_opened;
use crate::records::artifact::{
    ArtifactCollectionReceipt, ArtifactPassageBatchReceiptModel, ArtifactSnapshotHeader,
    ArtifactSnapshotReceipt, NewArtifactCollectionModel, NewArtifactPassageBatchModel,
    NewArtifactPassageModel, NewArtifactSnapshotModel,
};
use crate::records::audit::{PurgeDependency, RetractionReceiptModel};
use crate::records::claim::{
    ClaimReceipt, ClaimRevisionHeaderModel, CorrectUserClaimModel, CorrectionReceiptModel,
    EntityRevisionHeaderModel, NewClaimModel, NewSemanticRelationModel, RelationReceipt,
    RememberReceipt, RememberUserClaimModel, SemanticRelationRevisionHeaderModel,
};
use crate::records::evidence::{
    EvidenceHeader, EvidenceReceipt, NewEvidenceModel, RecordRef, RecordState,
};
use crate::records::proposal::{NewRecallFeedback, RecallFeedback};
use crate::records::recall::{BeginTurnRecallResultModel, RecallQueryModel, RecallResultModel};
use crate::records::receipt::ReceiptModel;
use crate::records::relation::{
    ActivationTraceHeader, ActivationTraceModel, DerivedDefinitionStateChange,
    NewRelationEvaluatorRevisionModel, NewRelationProfileRevisionModel,
    NewRelationSignalBatchModel, RelationEvaluatorPin, RelationEvaluatorReceipt,
    RelationEvaluatorStateReceiptModel, RelationHeadWeight, RelationProfilePin,
    RelationProfileReceipt, RelationProfileStateReceiptModel, RelationSignalBatchReceiptModel,
    RelationSignalPin, ShadowActivationRequestModel,
};
use crate::signals::signals_request;
use crate::store::{StoreModel, WriteModel};

verus! {

pub broadcast proof fn evidence_goes_on(c: Course, s: StoreModel, header: EvidenceHeader, text: Seq<char>)
    requires
        c.reaches(s),
        !c.start.heads.contains_key(RecordRef::Evidence(header.id)),
    ensures
        #[trigger] c.reaches(s.with_evidence(header, text)),
{
    broadcast use {puts_go_on, indexing_goes_on};

    reveal(StoreModel::with_evidence);
}

pub broadcast proof fn claims_go_on(c: Course, s: StoreModel, header: ClaimRevisionHeaderModel, proposition: Seq<char>)
    requires
        c.reaches(s),
        header.revision == 1,
        !c.start.heads.contains_key(RecordRef::Claim(header.id)),
    ensures
        #[trigger] c.reaches(s.with_claim(header, proposition)),
{
    broadcast use {puts_go_on, indexing_goes_on, support_goes_on};

    reveal(StoreModel::with_claim);
}

pub broadcast proof fn relations_go_on(
    c: Course,
    s: StoreModel,
    header: SemanticRelationRevisionHeaderModel,
    qualifier: Option<Seq<char>>,
)
    requires
        c.reaches(s),
        header.revision == 1,
        !c.start.heads.contains_key(RecordRef::SemanticRelation(header.id)),
    ensures
        #[trigger] c.reaches(s.with_relation(header, qualifier)),
{
    broadcast use {puts_go_on, support_goes_on};

    reveal(StoreModel::with_relation);
}

pub broadcast proof fn entities_go_on(
    c: Course,
    s: StoreModel,
    header: EntityRevisionHeaderModel,
    canonical_name: Seq<char>,
    aliases: Seq<Seq<char>>,
)
    requires
        c.reaches(s),
        header.revision == 1,
        !c.start.heads.contains_key(RecordRef::Entity(header.id)),
    ensures
        #[trigger] c.reaches(s.with_entity(header, canonical_name, aliases)),
{
    broadcast use {puts_go_on, indexing_goes_on, support_goes_on};

    reveal(StoreModel::with_entity);
}

proof fn invalidation_goes_on(
    c: Course,
    s: StoreModel,
    dependencies: Seq<PurgeDependency>,
    n: nat,
    state: RecordState,
    operation_id: OperationId,
    recorded_at_ms: i64,
)
    requires
        c.start.is_kept(),
        c.reaches(s),
        lists_shrink(c.start, c.lists),
        state != RecordState::Active,
        c.start.invalidated(s, dependencies, n, state, operation_id, recorded_at_ms) is Ok,
    ensures
        c.reaches(c.start.invalidated(s, dependencies, n, state, operation_id, recorded_at_ms)->Ok_0.0),
    decreases n,
{
    broadcast use unindexing_goes_on;

    if n > 0 {
        invalidation_goes_on(c, s, dependencies, (n - 1) as nat, state, operation_id, recorded_at_ms);
        let before = c.start.invalidated(
            s,
            dependencies,
            (n - 1) as nat,
            state,
            operation_id,
            recorded_at_ms,
        )->Ok_0.0;
        revisions_go_on(
            c,
            before,
            dependencies[n - 1].record,
            dependencies[n - 1].expected_revision,
            state,
            operation_id,
            recorded_at_ms,
        );
    }
}

pub proof fn silencing_goes_on(
    c: Course,
    s: StoreModel,
    pins: Seq<RelationSignalPin>,
    n: nat,
    operation_id: OperationId,
    recorded_at_ms: i64,
)
    requires
        c.start.is_kept(),
        c.reaches(s),
        n <= pins.len(),
        forall|i: int| 0 <= i < n ==> !c.start.signal_is_bare((#[trigger] pins[i]).id),
        c.start.signals_purged(s, pins, n, operation_id, recorded_at_ms) is Ok,
    ensures
        c.reaches(c.start.signals_purged(s, pins, n, operation_id, recorded_at_ms)->Ok_0.0),
        c.start.signals_purged(s, pins, n, operation_id, recorded_at_ms)->Ok_0.1.len() == n,
        forall|i: int|
            0 <= i < n ==> (#[trigger] c.start.signals_purged(
                s,
                pins,
                n,
                operation_id,
                recorded_at_ms,
            )->Ok_0.1[i]).id == pins[i].id,
        forall|i: int|
            0 <= i < n ==> c.start.signals_purged(
                s,
                pins,
                n,
                operation_id,
                recorded_at_ms,
            )->Ok_0.0.signal_is_bare((#[trigger] pins[i]).id),
    decreases n,
{
    broadcast use puts_go_on;

    if n > 0 {
        silencing_goes_on(c, s, pins, (n - 1) as nat, operation_id, recorded_at_ms);
        let before = c.start.signals_purged(s, pins, (n - 1) as nat, operation_id, recorded_at_ms)->Ok_0.0;
        let after = c.start.signals_purged(s, pins, n, operation_id, recorded_at_ms)->Ok_0.0;
        let pin = pins[n - 1];
        reveal(StoreModel::signal_appended);
        assert(c.start.relation_signals[revision_of(pin.id.0, pin.revision)].id == pin.id) by {
            reveal(StoreModel::names_hold);
        }
        assert(c.reaches(after));
        assert forall|i: int| 0 <= i < n implies after.signal_is_bare((#[trigger] pins[i]).id) by {
            broadcast use crate::writing::parts_after_put;
            if i < n - 1 {
                assert(before.signal_is_bare(pins[i].id));
            }
        }
    }
}

/// Signals that are not purged are not bare.
pub proof fn live_signals_are_not_bare(s: StoreModel, index: SignalIndex, ids: Seq<Ulid>, n: nat)
    requires
        s.live_signals(index, ids, n) is Ok,
    ensures
        forall|i: int|
            0 <= i < s.live_signals(index, ids, n)->Ok_0.len() ==> !s.signal_is_bare(
                (#[trigger] s.live_signals(index, ids, n)->Ok_0[i]).id,
            ),
    decreases n,
{
    if n > 0 {
        live_signals_are_not_bare(s, index, ids, (n - 1) as nat);
        reveal(StoreModel::signal_head);
    }
}

/// An activation is recorded under a new name.
broadcast proof fn traces_go_on(c: Course, s: StoreModel, trace: ActivationTraceModel, candidates: Seq<BaselinePin>)
    requires
        c.reaches(s),
        !c.start.activation_traces.contains_key(trace.id),
    ensures
        #[trigger] c.reaches(s.with_trace(trace, candidates)),
{
    broadcast use {puts_go_on, trace_filing_goes_on};

    reveal(StoreModel::with_trace);
    let header = ActivationTraceHeader {
        id: trace.id,
        revision: trace.revision,
        era_id: trace.era_id,
        operation_id: trace.operation_id,
        recall_case: trace.recall_case,
        evaluator: trace.evaluator,
        profile: trace.profile,
        input_digest: trace.input_digest,
        recorded_at_ms: trace.recorded_at_ms,
    };
    assert(s.put(WriteModel::PutTrace(trace.id, header)).activation_traces.contains_key(trace.id)) by {
        broadcast use crate::writing::parts_after_put;
    }
}

pub broadcast proof fn trace_erasing_goes_on(c: Course, s: StoreModel, ids: Seq<ActivationTraceId>, n: nat)
    requires
        c.reaches(s),
    ensures
        #[trigger] c.reaches(s.without_traces(ids, n)),
    decreases n,
{
    broadcast use puts_go_on;

    if n > 0 {
        trace_erasing_goes_on(c, s, ids, (n - 1) as nat);
    }
}

broadcast proof fn trace_filing_goes_on(
    c: Course,
    s: StoreModel,
    candidates: Seq<BaselinePin>,
    id: ActivationTraceId,
    n: nat,
)
    requires
        c.reaches(s),
    ensures
        #[trigger] c.reaches(s.trace_filed(candidates, id, n)),
    decreases n,
{
    broadcast use puts_go_on;

    if n > 0 {
        trace_filing_goes_on(c, s, candidates, id, (n - 1) as nat);
    }
}

proof fn owner_purging_goes_on(
    c: Course,
    s: StoreModel,
    change: DerivedDefinitionStateChange,
    signal_index: Map<OwnerIndexKey, ()>,
    trace_index: Map<OwnerIndexKey, ()>,
    owner: Ulid,
    operation_id: OperationId,
    recorded_at_ms: i64,
)
    requires
        c.start.is_kept(),
        c.reaches(s),
        c.start.owner_purged(s, change, signal_index, trace_index, owner, operation_id, recorded_at_ms) is Ok,
    ensures
        c.reaches(
            c.start.owner_purged(
                s,
                change,
                signal_index,
                trace_index,
                owner,
                operation_id,
                recorded_at_ms,
            )->Ok_0.0,
        ),
{
    broadcast use trace_erasing_goes_on;

    reveal(StoreModel::owner_purged);
    if change != DerivedDefinitionStateChange::Retract {
        let ids = owned(signal_index, owner);
        let pins = c.start.live_signals(SignalIndex::Owner, ids, ids.len())->Ok_0;
        live_signals_are_not_bare(c.start, SignalIndex::Owner, ids, ids.len());
        silencing_goes_on(c, s, pins, pins.len(), operation_id, recorded_at_ms);
    }
}

proof fn signals_go_on(
    c: Course,
    operation: OperationContext,
    wanted: NewRelationSignalBatchModel,
    heads: Seq<RelationHeadWeight>,
    fresh: FreshModel,
    n: nat,
)
    requires
        c.reaches(c.start),
        c.start.is_new(fresh),
        n < fresh.ids.len(),
        c.start.signals_put(operation, wanted, heads, fresh, n) is Ok,
    ensures
        c.reaches(c.start.signals_put(operation, wanted, heads, fresh, n)->Ok_0.0),
    decreases n,
{
    broadcast use puts_go_on;

    if n > 0 {
        signals_go_on(c, operation, wanted, heads, fresh, (n - 1) as nat);
        reveal(StoreModel::signal_put);
        reveal(StoreModel::with_signal);
        reveal(StoreModel::signal_filed);
        reveal(StoreModel::signal_moved);
        reveal(StoreModel::signal_slot);
        assert(fresh.ids.contains(fresh.ids[n as int]));
    }
}

proof fn passages_go_on(
    c: Course,
    operation: OperationContext,
    snapshot: ArtifactSnapshotHeader,
    passages: Seq<NewArtifactPassageModel>,
    fresh: FreshModel,
    n: nat,
)
    requires
        c.reaches(c.start),
        c.start.is_new(fresh),
        2 * n < fresh.ids.len(),
    ensures
        c.reaches(c.start.with_passages(operation, snapshot, passages, fresh, n)),
    decreases n,
{
    broadcast use {puts_go_on, evidence_goes_on};

    if n > 0 {
        passages_go_on(c, operation, snapshot, passages, fresh, (n - 1) as nat);
        drawn_is_new(
            c.start,
            fresh,
            2 * n - 1,
            RecordRef::ArtifactPassage(ArtifactPassageId(fresh.ids[2 * n - 1])),
        );
        drawn_is_new(c.start, fresh, 2 * n as int, RecordRef::Evidence(EvidenceId(fresh.ids[2 * n as int])));
    }
}

/// Capturing evidence keeps what holds of every store.
pub proof fn captures_keep(
    s: StoreModel,
    operation: OperationContext,
    input: NewEvidenceModel,
    request: Seq<u8>,
    fresh: FreshModel,
    after: StoreModel,
    receipt: EvidenceReceipt,
)
    requires
        s.is_kept(),
        s.is_new(fresh),
        fresh.ids.len() > 1,
        s.capture_evidence(operation, input, request, fresh) == MemoryResult::Ok((after, receipt)),
    ensures
        after.is_kept(),
        nothing_returns(s, after),
{
    broadcast use {puts_go_on, evidence_goes_on};

    courses_begin(s);
    drawn_is_new(s, fresh, 1, RecordRef::Evidence(EvidenceId(fresh.ids[1])));
    assert(course(s).reaches(after));
    courses_end(course(s), after);
}

/// Creating a claim keeps what holds of every store.
pub proof fn claims_keep(
    s: StoreModel,
    operation: OperationContext,
    input: NewClaimModel,
    request: Seq<u8>,
    fresh: FreshModel,
    after: StoreModel,
    receipt: ClaimReceipt,
)
    requires
        s.is_kept(),
        s.is_new(fresh),
        fresh.ids.len() > 1,
        s.create_claim(operation, input, request, fresh) == MemoryResult::Ok((after, receipt)),
    ensures
        after.is_kept(),
        nothing_returns(s, after),
{
    broadcast use {puts_go_on, claims_go_on};

    courses_begin(s);
    drawn_is_new(s, fresh, 1, RecordRef::Claim(ClaimId(fresh.ids[1])));
    assert(course(s).reaches(after));
    courses_end(course(s), after);
}

/// Remembering a claim keeps what holds of every store.
pub proof fn remembering_keeps(
    s: StoreModel,
    operation: OperationContext,
    input: RememberUserClaimModel,
    request: Seq<u8>,
    fresh: FreshModel,
    after: StoreModel,
    receipt: RememberReceipt,
)
    requires
        s.is_kept(),
        s.is_new(fresh),
        fresh.ids.len() > 2,
        s.remember_user_claim(operation, input, request, fresh) == MemoryResult::Ok((after, receipt)),
    ensures
        after.is_kept(),
        nothing_returns(s, after),
{
    broadcast use {puts_go_on, evidence_goes_on, claims_go_on};

    courses_begin(s);
    drawn_is_new(s, fresh, 1, RecordRef::Evidence(EvidenceId(fresh.ids[1])));
    drawn_is_new(s, fresh, 2, RecordRef::Claim(ClaimId(fresh.ids[2])));
    assert(course(s).reaches(after));
    courses_end(course(s), after);
}

/// Correcting a claim keeps what holds of every store.
pub proof fn corrections_keep(
    s: StoreModel,
    operation: OperationContext,
    input: CorrectUserClaimModel,
    request: Seq<u8>,
    fresh: FreshModel,
    after: StoreModel,
    receipt: CorrectionReceiptModel,
)
    requires
        s.is_kept(),
        s.is_new(fresh),
        fresh.ids.len() > 3,
        s.correct_user_claim(operation, input, request, fresh) == MemoryResult::Ok((after, receipt)),
    ensures
        after.is_kept(),
        nothing_returns(s, after),
{
    broadcast use {puts_go_on, unindexing_goes_on, evidence_goes_on, claims_go_on, relations_go_on};

    courses_begin(s);
    drawn_is_new(s, fresh, 1, RecordRef::Evidence(EvidenceId(fresh.ids[1])));
    drawn_is_new(s, fresh, 2, RecordRef::Claim(ClaimId(fresh.ids[2])));
    drawn_is_new(s, fresh, 3, RecordRef::SemanticRelation(RelationId(fresh.ids[3])));
    let now = fresh.recorded_at_ms;
    let digest = mutation_digest_of(s.digest_key@, "correct_user_claim"@, operation.actor, request);
    if s.replay(operation.id, digest) == MemoryResult::Ok(None::<ReceiptModel>) {
        let wanted = StoreModel::correct_request(operation.actor, input)->Ok_0;
        let target = RecordRef::Claim(wanted.target);
        let dependencies = s.dependency_closure(target, false)->Ok_0;
        revisions_go_on(
            course(s),
            s,
            target,
            wanted.expected_revision,
            RecordState::Superseded,
            operation.id,
            now,
        );
        let staged = s.appended(
            s,
            target,
            wanted.expected_revision,
            RecordState::Superseded,
            operation.id,
            now,
        )->Ok_0.0;
        invalidation_goes_on(
            course(s),
            staged.unindexed(s, target),
            dependencies,
            dependencies.len(),
            RecordState::Unsupported,
            operation.id,
            now,
        );
    }
    assert(course(s).reaches(after));
    courses_end(course(s), after);
}

/// Retracting a record keeps what holds of every store.
pub proof fn retractions_keep(
    s: StoreModel,
    operation: OperationContext,
    record: RecordRef,
    expected_revision: u64,
    request: Seq<u8>,
    fresh: FreshModel,
    after: StoreModel,
    receipt: RetractionReceiptModel,
)
    requires
        s.is_kept(),
        s.retract(operation, record, expected_revision, request, fresh) == MemoryResult::Ok((after, receipt)),
    ensures
        after.is_kept(),
        nothing_returns(s, after),
{
    broadcast use {puts_go_on, unindexing_goes_on};

    courses_begin(s);
    let now = fresh.recorded_at_ms;
    let digest = mutation_digest_of(s.digest_key@, "retract"@, operation.actor, request);
    if s.replay(operation.id, digest) == MemoryResult::Ok(None::<ReceiptModel>) {
        let dependencies = s.dependency_closure(record, false)->Ok_0;
        revisions_go_on(course(s), s, record, expected_revision, RecordState::Retracted, operation.id, now);
        let staged = s.appended(
            s,
            record,
            expected_revision,
            RecordState::Retracted,
            operation.id,
            now,
        )->Ok_0.0;
        invalidation_goes_on(
            course(s),
            staged.unindexed(s, record),
            dependencies,
            dependencies.len(),
            RecordState::Unsupported,
            operation.id,
            now,
        );
    }
    assert(course(s).reaches(after));
    courses_end(course(s), after);
}

/// Relating two records keeps what holds of every store.
pub proof fn relations_keep(
    s: StoreModel,
    operation: OperationContext,
    input: NewSemanticRelationModel,
    request: Seq<u8>,
    fresh: FreshModel,
    after: StoreModel,
    receipt: RelationReceipt,
)
    requires
        s.is_kept(),
        s.is_new(fresh),
        fresh.ids.len() > 1,
        s.create_semantic_relation(operation, input, request, fresh) == MemoryResult::Ok((after, receipt)),
    ensures
        after.is_kept(),
        nothing_returns(s, after),
{
    broadcast use {puts_go_on, relations_go_on};

    courses_begin(s);
    drawn_is_new(s, fresh, 1, RecordRef::SemanticRelation(RelationId(fresh.ids[1])));
    assert(course(s).reaches(after));
    courses_end(course(s), after);
}

/// Putting an evaluator keeps what holds of every store.
pub proof fn evaluators_keep(
    s: StoreModel,
    operation: OperationContext,
    input: NewRelationEvaluatorRevisionModel,
    request: Seq<u8>,
    fresh: FreshModel,
    after: StoreModel,
    receipt: RelationEvaluatorReceipt,
)
    requires
        s.is_kept(),
        s.put_relation_evaluator(operation, input, request, fresh) == MemoryResult::Ok((after, receipt)),
    ensures
        after.is_kept(),
        nothing_returns(s, after),
{
    broadcast use puts_go_on;

    courses_begin(s);
    assert(course(s).reaches(after));
    courses_end(course(s), after);
}

/// Putting a profile keeps what holds of every store.
pub proof fn profiles_keep(
    s: StoreModel,
    operation: OperationContext,
    input: NewRelationProfileRevisionModel,
    request: Seq<u8>,
    fresh: FreshModel,
    after: StoreModel,
    receipt: RelationProfileReceipt,
)
    requires
        s.is_kept(),
        s.put_relation_profile(operation, input, request, fresh) == MemoryResult::Ok((after, receipt)),
    ensures
        after.is_kept(),
        nothing_returns(s, after),
{
    broadcast use puts_go_on;

    courses_begin(s);
    assert(course(s).reaches(after));
    courses_end(course(s), after);
}

/// Closing an evaluator keeps what holds of every store.
pub proof fn evaluator_states_keep(
    s: StoreModel,
    operation: OperationContext,
    pin: RelationEvaluatorPin,
    change: DerivedDefinitionStateChange,
    request: Seq<u8>,
    fresh: FreshModel,
    after: StoreModel,
    receipt: RelationEvaluatorStateReceiptModel,
)
    requires
        s.is_kept(),
        s.set_relation_evaluator_state(operation, pin, change, request, fresh) == MemoryResult::Ok((after, receipt)),
    ensures
        after.is_kept(),
        nothing_returns(s, after),
{
    broadcast use puts_go_on;

    courses_begin(s);
    let digest = mutation_digest_of(s.digest_key@, "set_relation_evaluator_state"@, operation.actor, request);
    if s.replay(operation.id, digest) == MemoryResult::Ok(None::<ReceiptModel>) {
        reveal(StoreModel::closable_evaluator);
        reveal(StoreModel::names_hold);
        owner_purging_goes_on(
            course(s),
            s,
            change,
            s.relation_signals_by_evaluator,
            s.activation_traces_by_evaluator,
            pin.id.0,
            operation.id,
            fresh.recorded_at_ms,
        );
    }
    assert(course(s).reaches(after));
    courses_end(course(s), after);
}

/// Closing a profile keeps what holds of every store.
pub proof fn profile_states_keep(
    s: StoreModel,
    operation: OperationContext,
    pin: RelationProfilePin,
    change: DerivedDefinitionStateChange,
    request: Seq<u8>,
    fresh: FreshModel,
    after: StoreModel,
    receipt: RelationProfileStateReceiptModel,
)
    requires
        s.is_kept(),
        s.set_relation_profile_state(operation, pin, change, request, fresh) == MemoryResult::Ok((after, receipt)),
    ensures
        after.is_kept(),
        nothing_returns(s, after),
{
    broadcast use puts_go_on;

    courses_begin(s);
    let digest = mutation_digest_of(s.digest_key@, "set_relation_profile_state"@, operation.actor, request);
    if s.replay(operation.id, digest) == MemoryResult::Ok(None::<ReceiptModel>) {
        reveal(StoreModel::closable_profile);
        reveal(StoreModel::names_hold);
        owner_purging_goes_on(
            course(s),
            s,
            change,
            s.relation_signals_by_profile,
            s.activation_traces_by_profile,
            pin.id.0,
            operation.id,
            fresh.recorded_at_ms,
        );
    }
    assert(course(s).reaches(after));
    courses_end(course(s), after);
}

/// Putting signals keeps what holds of every store.
pub proof fn signals_keep(
    s: StoreModel,
    operation: OperationContext,
    input: NewRelationSignalBatchModel,
    request: Seq<u8>,
    fresh: FreshModel,
    after: StoreModel,
    receipt: RelationSignalBatchReceiptModel,
)
    requires
        s.is_kept(),
        s.is_new(fresh),
        signals_request(operation.actor, input) matches Ok(wanted) ==> wanted.signals.len() < fresh.ids.len(),
        s.put_relation_signals(operation, input, request, fresh) == MemoryResult::Ok((after, receipt)),
    ensures
        after.is_kept(),
        nothing_returns(s, after),
{
    broadcast use puts_go_on;

    courses_begin(s);
    let digest = mutation_digest_of(s.digest_key@, "put_relation_signals"@, operation.actor, request);
    if s.replay(operation.id, digest) == MemoryResult::Ok(None::<ReceiptModel>) {
        let wanted = signals_request(operation.actor, input)->Ok_0;
        let heads = s.signal_heads(wanted.evaluator, wanted.profile)->Ok_0;
        signals_go_on(course(s), operation, wanted, heads, fresh, wanted.signals.len());
    }
    assert(course(s).reaches(after));
    courses_end(course(s), after);
}

/// A shadow activation keeps what holds of every store.
pub proof fn activations_keep(
    s: StoreModel,
    operation: OperationContext,
    input: ShadowActivationRequestModel,
    request: Seq<u8>,
    fresh: FreshModel,
    after: StoreModel,
    receipt: ActivationTraceModel,
)
    requires
        s.is_kept(),
        s.is_new(fresh),
        fresh.ids.len() > 1,
        s.shadow_activate(operation, input, request, fresh) == MemoryResult::Ok((after, receipt)),
    ensures
        after.is_kept(),
        nothing_returns(s, after),
{
    broadcast use {puts_go_on, traces_go_on};

    courses_begin(s);
    assert(fresh.ids.contains(fresh.ids[1]));
    assert(course(s).reaches(after));
    courses_end(course(s), after);
}

/// Feedback keeps what holds of every store.
pub proof fn feedback_keeps(
    s: StoreModel,
    operation: OperationContext,
    input: NewRecallFeedback,
    request: Seq<u8>,
    fresh: FreshModel,
    after: StoreModel,
    receipt: RecallFeedback,
)
    requires
        s.is_kept(),
        s.record_recall_feedback(operation, input, request, fresh) == MemoryResult::Ok((after, receipt)),
    ensures
        after.is_kept(),
        nothing_returns(s, after),
{
    broadcast use puts_go_on;

    courses_begin(s);
    assert(course(s).reaches(after));
    courses_end(course(s), after);
}

/// Recalling keeps what holds of every store.
pub proof fn recalls_keep(
    s: StoreModel,
    input: RecallQueryModel,
    excluded: Option<RecordRef>,
    request: Seq<u8>,
    fresh: FreshModel,
    after: StoreModel,
    receipt: RecallResultModel,
)
    requires
        s.is_kept(),
        s.recall(input, excluded, request, fresh) == MemoryResult::Ok((after, receipt)),
    ensures
        after.is_kept(),
        nothing_returns(s, after),
{
    broadcast use puts_go_on;

    courses_begin(s);
    assert(course(s).reaches(after));
    courses_end(course(s), after);
}

/// Creating a collection keeps what holds of every store.
pub proof fn collections_keep(
    s: StoreModel,
    operation: OperationContext,
    input: NewArtifactCollectionModel,
    request: Seq<u8>,
    fresh: FreshModel,
    after: StoreModel,
    receipt: ArtifactCollectionReceipt,
)
    requires
        s.is_kept(),
        s.is_new(fresh),
        fresh.ids.len() > 1,
        s.create_artifact_collection(operation, input, request, fresh) == MemoryResult::Ok((after, receipt)),
    ensures
        after.is_kept(),
        nothing_returns(s, after),
{
    broadcast use puts_go_on;

    courses_begin(s);
    drawn_is_new(s, fresh, 1, RecordRef::ArtifactCollection(ArtifactCollectionId(fresh.ids[1])));
    assert(course(s).reaches(after));
    courses_end(course(s), after);
}

/// Importing a snapshot keeps what holds of every store.
pub proof fn imports_keep(
    s: StoreModel,
    operation: OperationContext,
    input: NewArtifactSnapshotModel,
    metadata: Seq<u8>,
    fresh: FreshModel,
    after: StoreModel,
    receipt: ArtifactSnapshotReceipt,
)
    requires
        s.is_kept(),
        s.is_new(fresh),
        fresh.ids.len() > 2,
        s.import_artifact_snapshot(operation, input, metadata, fresh) == MemoryResult::Ok((after, receipt)),
    ensures
        after.is_kept(),
        nothing_returns(s, after),
{
    broadcast use {puts_go_on, evidence_goes_on};

    courses_begin(s);
    drawn_is_new(s, fresh, 1, RecordRef::ArtifactSnapshot(ArtifactSnapshotId(fresh.ids[1])));
    drawn_is_new(s, fresh, 2, RecordRef::Evidence(EvidenceId(fresh.ids[2])));
    assert(course(s).reaches(after));
    courses_end(course(s), after);
}

/// Cutting passages keeps what holds of every store.
pub proof fn passages_keep(
    s: StoreModel,
    operation: OperationContext,
    input: NewArtifactPassageBatchModel,
    request: Seq<u8>,
    fresh: FreshModel,
    after: StoreModel,
    receipt: ArtifactPassageBatchReceiptModel,
)
    requires
        s.is_kept(),
        s.is_new(fresh),
        2 * input.passages.len() < fresh.ids.len(),
        s.create_artifact_passages(operation, input, request, fresh) == MemoryResult::Ok((after, receipt)),
    ensures
        after.is_kept(),
        nothing_returns(s, after),
{
    broadcast use puts_go_on;

    courses_begin(s);
    let found = s.open_snapshot(input.snapshot_id, input.expected_snapshot_revision)->Ok_0;
    let snapshot = ArtifactSnapshotHeader { id: input.snapshot_id, ..found };
    passages_go_on(course(s), operation, snapshot, input.passages, fresh, input.passages.len());
    assert(course(s).reaches(after));
    courses_end(course(s), after);
}

/// Opening a turn keeps what holds of every store.
pub proof fn turns_keep(
    s: StoreModel,
    after: StoreModel,
    answer: MemoryResult<BeginTurnRecallResultModel>,
    operation: OperationContext,
    evidence: NewEvidenceModel,
    evidence_request: Seq<u8>,
    query: RecallQueryModel,
    query_request: Seq<u8>,
    first: FreshModel,
    second: FreshModel,
)
    requires
        s.is_kept(),
        s.is_new(first),
        first.ids.len() > 1,
        turn_opened(s, after, answer, operation, evidence, evidence_request, query, query_request, first, second),
    ensures
        after.is_kept(),
        nothing_returns(s, after),
{
    courses_begin(s);
    courses_end(course(s), s);
    if let Ok((between, receipt)) = s.capture_evidence(operation, evidence, evidence_request, first) {
        captures_keep(s, operation, evidence, evidence_request, first, between, receipt);
        let excluded = Some(RecordRef::Evidence(receipt.id));
        if let Ok((reached, recall)) = between.recall(query, excluded, query_request, second) {
            recalls_keep(between, query, excluded, query_request, second, reached, recall);
        }
    }
}

} // verus!
