//! Relation evaluators and relation profiles.
use vstd::prelude::*;
use crate::clock::{Fresh, FreshModel};
use crate::context::OperationContext;
use crate::derived::{collect_derived_subjects, derived_subjects_of, owned, owned_ids};
use crate::digest::{mutation_digest, mutation_digest_of};
use crate::fault::{
    CorruptFault, InputFault, MemoryError, MemoryResult, SignalIndex, corrupt, invalid,
};
use crate::ids::{ActivationTraceId, OperationId, RelationEvaluatorId, RelationProfileId, Ulid};
use crate::inspect::{lookup, revision_of, shown, shown_option};
use crate::keys::{OwnerIndexKey, RevisionKey};
use crate::order::{Keyed, in_order, place, sorted_distinct};
use crate::records::audit::{AuditAction, DerivedRecordRef};
use crate::records::evidence::{Actor, RecordState, RevisionSelector};
use crate::records::receipt::{Receipt, ReceiptModel};
use crate::records::relation::{
    DerivedDefinitionStateChange, NewRelationEvaluatorRevision, NewRelationEvaluatorRevisionModel,
    NewRelationProfileRevision, NewRelationProfileRevisionModel, RelationDimension,
    RelationDimensionScore, RelationEvaluatorPin, RelationEvaluatorReceipt,
    RelationEvaluatorRecord, RelationEvaluatorRevisionHeader,
    RelationEvaluatorRevisionHeaderModel, RelationEvaluatorStateReceipt,
    RelationEvaluatorStateReceiptModel, RelationHeadWeight, RelationProfileAvailability,
    RelationProfilePin, RelationProfileReceipt, RelationProfileRecord, RelationProfileRecordModel,
    RelationProfileRevisionHeader, RelationProfileRevisionHeaderModel,
    RelationProfileStateReceipt, RelationProfileStateReceiptModel, RelationSignalPin,
};
use crate::staging::{Planned, commits, plans};
use crate::store::{Batch, MemoryDatabase, StoreModel, Write, WriteModel};
use crate::table::{Replica, Table, opt_view};

verus! {

pub const MAX_RELATION_DIMENSIONS: usize = 16;

pub const MAX_RELATION_HEADS: usize = 16;

/// One, in the fixed-point numbers of scores and weights.
pub const RELATION_FIXED_POINT_SCALE: i32 = 1_000_000;

impl RelationDimension {
    pub open spec fn place(self) -> int {
        match self {
            RelationDimension::Support => 0,
            RelationDimension::Contradiction => 1,
            RelationDimension::Supersession => 2,
            RelationDimension::EntityIdentity => 3,
            RelationDimension::TemporalRelevance => 4,
            RelationDimension::TaskRelevance => 5,
        }
    }

    fn number(self) -> (r: u8)
        ensures
            r == self.place(),
    {
        match self {
            RelationDimension::Support => 0,
            RelationDimension::Contradiction => 1,
            RelationDimension::Supersession => 2,
            RelationDimension::EntityIdentity => 3,
            RelationDimension::TemporalRelevance => 4,
            RelationDimension::TaskRelevance => 5,
        }
    }
}

impl Keyed for RelationDimension {
    open spec fn rank(&self) -> int {
        self.place()
    }

    proof fn rank_is_injective(a: &Self, b: &Self) {
    }

    fn before(&self, other: &Self) -> (r: bool) {
        self.number() < other.number()
    }
}

/// Weights are listed by dimension.
impl Keyed for RelationHeadWeight {
    open spec fn rank(&self) -> int {
        self.dimension.place() * 0x1_0000_0000 + self.weight_micros + 0x8000_0000
    }

    proof fn rank_is_injective(a: &Self, b: &Self) {
    }

    fn before(&self, other: &Self) -> (r: bool) {
        let a: u8 = self.dimension.number();
        let b: u8 = other.dimension.number();
        if a < b {
            true
        } else if b < a {
            false
        } else {
            self.weight_micros < other.weight_micros
        }
    }
}

/// Scores are listed by dimension.
impl Keyed for RelationDimensionScore {
    open spec fn rank(&self) -> int {
        self.dimension.place() * 0x1_0000_0000 + self.score_micros + 0x8000_0000
    }

    proof fn rank_is_injective(a: &Self, b: &Self) {
    }

    fn before(&self, other: &Self) -> (r: bool) {
        let a: u8 = self.dimension.number();
        let b: u8 = other.dimension.number();
        if a < b {
            true
        } else if b < a {
            false
        } else {
            self.score_micros < other.score_micros
        }
    }
}

/// Whether a fixed-point number lies between minus one and one.
pub open spec fn unit_range(micros: i32) -> bool {
    -RELATION_FIXED_POINT_SCALE <= micros <= RELATION_FIXED_POINT_SCALE
}

/// The dimensions that weights are for.
pub open spec fn head_dimensions(heads: Seq<RelationHeadWeight>) -> Seq<RelationDimension> {
    Seq::new(heads.len(), |i: int| heads[i].dimension)
}

fn dimensions_of_heads(heads: &Vec<RelationHeadWeight>) -> (r: Vec<RelationDimension>)
    ensures
        r@ == head_dimensions(heads@),
{
    let mut r: Vec<RelationDimension> = Vec::new();
    for i in 0..heads.len()
        invariant
            r@ == head_dimensions(heads@.take(i as int)),
    {
        r.push(heads[i].dimension);
        assert(r@ =~= head_dimensions(heads@.take(i + 1)));
    }
    assert(heads@.take(heads@.len() as int) =~= heads@);
    r
}

pub open spec fn weights_in_range(heads: Seq<RelationHeadWeight>) -> bool {
    forall|i: int| 0 <= i < heads.len() ==> unit_range((#[trigger] heads[i]).weight_micros)
}

fn check_weights(heads: &Vec<RelationHeadWeight>) -> (r: bool)
    ensures
        r == weights_in_range(heads@),
{
    for i in 0..heads.len()
        invariant
            forall|j: int| 0 <= j < i ==> unit_range((#[trigger] heads@[j]).weight_micros),
    {
        let weight: i32 = heads[i].weight_micros;
        if weight < -RELATION_FIXED_POINT_SCALE || weight > RELATION_FIXED_POINT_SCALE {
            assert(!unit_range(heads@[i as int].weight_micros));
            return false;
        }
    }
    true
}

/// Every weight is for one of some dimensions.
pub open spec fn heads_declared(heads: Seq<RelationHeadWeight>, dimensions: Seq<RelationDimension>) -> bool {
    forall|i: int| 0 <= i < heads.len() ==> dimensions.contains((#[trigger] heads[i]).dimension)
}

pub(crate) fn declares(dimensions: &Vec<RelationDimension>, dimension: RelationDimension) -> (r: bool)
    ensures
        r == dimensions@.contains(dimension),
{
    for i in 0..dimensions.len()
        invariant
            forall|j: int| 0 <= j < i ==> dimensions@[j] != dimension,
    {
        if dimensions[i] == dimension {
            assert(dimensions@[i as int] == dimension);
            return true;
        }
    }
    false
}

fn check_heads_declared(heads: &Vec<RelationHeadWeight>, dimensions: &Vec<RelationDimension>) -> (r: bool)
    ensures
        r == heads_declared(heads@, dimensions@),
{
    for i in 0..heads.len()
        invariant
            forall|j: int| 0 <= j < i ==> dimensions@.contains((#[trigger] heads@[j]).dimension),
    {
        if !declares(dimensions, heads[i].dimension) {
            assert(!dimensions@.contains(heads@[i as int].dimension));
            return false;
        }
    }
    true
}

/// The state that a change of a definition leads to.
pub open spec fn changed_state(change: DerivedDefinitionStateChange) -> RecordState {
    match change {
        DerivedDefinitionStateChange::Retract => RecordState::Retracted,
        DerivedDefinitionStateChange::Purge => RecordState::Purged,
    }
}

fn state_after(change: DerivedDefinitionStateChange) -> (r: RecordState)
    ensures
        r == changed_state(change),
{
    match change {
        DerivedDefinitionStateChange::Retract => RecordState::Retracted,
        DerivedDefinitionStateChange::Purge => RecordState::Purged,
    }
}

/// The revision that follows one that may not be there yet.
pub open spec fn revision_after(current: Option<u64>) -> Option<u64> {
    match current {
        None => Some(1),
        Some(revision) => if revision == u64::MAX {
            None
        } else {
            Some((revision + 1) as u64)
        },
    }
}

fn next_after(current: Option<u64>) -> (r: Option<u64>)
    ensures
        r == revision_after(current),
{
    match current {
        None => Some(1),
        Some(revision) => revision.checked_add(1),
    }
}

impl StoreModel {
    /// A request to put an evaluator in its normal form.
    #[verifier::opaque]
    pub open spec fn evaluator_request(actor: Actor, input: NewRelationEvaluatorRevisionModel) -> MemoryResult<
        NewRelationEvaluatorRevisionModel,
    > {
        let dimensions = in_order(input.dimensions.to_set());
        if actor != Actor::Operator {
            Err(MemoryError::Unauthorized)
        } else if input.schema_version == 0 {
            invalid(InputFault::EvaluatorSchemaVersion)
        } else if input.dimensions.len() == 0 || input.dimensions.len() > MAX_RELATION_DIMENSIONS {
            invalid(InputFault::EvaluatorDimensionCount)
        } else if dimensions.len() != input.dimensions.len() {
            invalid(InputFault::EvaluatorDimensionsRepeat)
        } else {
            Ok(NewRelationEvaluatorRevisionModel { dimensions, ..input })
        }
    }

    /// Why an evaluator cannot be created or revised as expected.
    #[verifier::opaque]
    pub open spec fn evaluator_conflict(self, id: RelationEvaluatorId, expected: Option<u64>) -> Option<MemoryError> {
        let current = lookup(self.relation_evaluator_heads, id);
        match (expected, current) {
            (None, None) => None,
            (None, Some(actual)) => Some(MemoryError::RevisionConflict { expected: 0, actual }),
            (Some(wanted), None) => Some(MemoryError::RevisionConflict { expected: wanted, actual: 0 }),
            (Some(wanted), Some(actual)) => if wanted != actual {
                Some(MemoryError::RevisionConflict { expected: wanted, actual })
            } else {
                match lookup(self.relation_evaluators, revision_of(id.0, actual)) {
                    None => Some(
                        MemoryError::Corrupt(CorruptFault::EvaluatorRevisionMissing(id, actual)),
                    ),
                    Some(header) => if header.state != RecordState::Active {
                        Some(MemoryError::InvalidInput(InputFault::EvaluatorNotRevisable))
                    } else {
                        None
                    },
                }
            },
        }
    }

    /// Putting an evaluator. The identifier drawn is the audit event's.
    pub open spec fn put_relation_evaluator(
        self,
        operation: OperationContext,
        input: NewRelationEvaluatorRevisionModel,
        request: Seq<u8>,
        fresh: FreshModel,
    ) -> MemoryResult<(StoreModel, RelationEvaluatorReceipt)> {
        let digest = mutation_digest_of(
            self.digest_key@,
            "put_relation_evaluator"@,
            operation.actor,
            request,
        );
        match Self::evaluator_request(operation.actor, input) {
            Err(error) => Err(error),
            Ok(wanted) => match self.replay(operation.id, digest) {
                Err(error) => Err(error),
                Ok(Some(ReceiptModel::Evaluator(receipt))) => Ok((self, receipt)),
                Ok(Some(_)) => corrupt(CorruptFault::ReceiptShape),
                Ok(None) => match self.evaluator_conflict(wanted.id, wanted.expected_revision) {
                    Some(error) => Err(error),
                    None => {
                        let current = lookup(self.relation_evaluator_heads, wanted.id);
                        match revision_after(current) {
                            None => corrupt(CorruptFault::EvaluatorRevisionOverflow),
                            Some(revision) => {
                                let receipt = RelationEvaluatorReceipt {
                                    pin: RelationEvaluatorPin { id: wanted.id, revision },
                                    state: RecordState::Active,
                                };
                                Ok(
                                    (
                                        self.put(
                                            WriteModel::PutEvaluator(
                                                revision_of(wanted.id.0, revision),
                                                RelationEvaluatorRevisionHeaderModel {
                                                    id: wanted.id,
                                                    revision,
                                                    previous_revision: current,
                                                    kind: wanted.kind,
                                                    schema_version: wanted.schema_version,
                                                    dimensions: wanted.dimensions,
                                                    provenance_digest: wanted.provenance_digest,
                                                    state: RecordState::Active,
                                                    recorded_at_ms: fresh.recorded_at_ms,
                                                    operation_id: operation.id,
                                                },
                                            ),
                                        ).put(WriteModel::PutEvaluatorHead(wanted.id, revision)).audited(
                                            self.audit_event(
                                                fresh.ids[0],
                                                operation,
                                                AuditAction::RelationEvaluatorPut,
                                                Seq::empty(),
                                                seq![DerivedRecordRef::RelationEvaluator(wanted.id)],
                                                None,
                                                fresh.recorded_at_ms,
                                            ),
                                        ).remembered(operation.id, digest, ReceiptModel::Evaluator(receipt)),
                                        receipt,
                                    ),
                                )
                            },
                        }
                    },
                },
            },
        }
    }

    /// An evaluator at its current or an exact revision.
    #[verifier::opaque]
    pub open spec fn evaluator_at(self, id: RelationEvaluatorId, selector: RevisionSelector) -> Option<
        RelationEvaluatorRevisionHeaderModel,
    > {
        match selector {
            RevisionSelector::Exact(revision) => lookup(self.relation_evaluators, revision_of(id.0, revision)),
            RevisionSelector::Head => match lookup(self.relation_evaluator_heads, id) {
                None => None,
                Some(revision) => lookup(self.relation_evaluators, revision_of(id.0, revision)),
            },
        }
    }

    /// `staged` with the signals and traces of an owner purged where the change asks for it.
    #[verifier::opaque]
    pub open spec fn owner_purged(
        self,
        staged: StoreModel,
        change: DerivedDefinitionStateChange,
        signal_index: Map<OwnerIndexKey, ()>,
        trace_index: Map<OwnerIndexKey, ()>,
        owner: Ulid,
        operation_id: OperationId,
        recorded_at_ms: i64,
    ) -> MemoryResult<(StoreModel, Seq<RelationSignalPin>, Seq<ActivationTraceId>)> {
        if change == DerivedDefinitionStateChange::Retract {
            Ok((staged, Seq::empty(), Seq::empty()))
        } else {
            let signal_ids = owned(signal_index, owner);
            match self.live_signals(SignalIndex::Owner, signal_ids, signal_ids.len()) {
                Err(error) => Err(error),
                Ok(pins) => match self.signals_purged(staged, pins, pins.len(), operation_id, recorded_at_ms) {
                    Err(error) => Err(error),
                    Ok((after, purged)) => {
                        let trace_ids = owned(trace_index, owner);
                        let traces = self.live_traces(trace_ids, trace_ids.len());
                        Ok((after.without_traces(traces, traces.len()), purged, traces))
                    },
                },
            }
        }
    }

    /// The present header of an evaluator that can be taken to another state.
    #[verifier::opaque]
    pub open spec fn closable_evaluator(self, pin: RelationEvaluatorPin, target: RecordState) -> MemoryResult<
        RelationEvaluatorRevisionHeaderModel,
    > {
        let actual = match lookup(self.relation_evaluator_heads, pin.id) {
            Some(revision) => revision,
            None => 0,
        };
        if actual != pin.revision {
            Err(MemoryError::RevisionConflict { expected: pin.revision, actual })
        } else {
            match lookup(self.relation_evaluators, revision_of(pin.id.0, pin.revision)) {
                None => corrupt(CorruptFault::EvaluatorRevisionMissing(pin.id, pin.revision)),
                Some(header) => if header.state == RecordState::Purged || header.state == target {
                    invalid(InputFault::EvaluatorTerminal)
                } else if pin.revision == u64::MAX {
                    corrupt(CorruptFault::EvaluatorRevisionOverflow)
                } else {
                    Ok(header)
                },
            }
        }
    }

    /// Retracting or purging an evaluator. The identifier drawn is the audit event's.
    pub open spec fn set_relation_evaluator_state(
        self,
        operation: OperationContext,
        pin: RelationEvaluatorPin,
        change: DerivedDefinitionStateChange,
        request: Seq<u8>,
        fresh: FreshModel,
    ) -> MemoryResult<(StoreModel, RelationEvaluatorStateReceiptModel)> {
        let digest = mutation_digest_of(
            self.digest_key@,
            "set_relation_evaluator_state"@,
            operation.actor,
            request,
        );
        let now = fresh.recorded_at_ms;
        let state = changed_state(change);
        if operation.actor != Actor::Operator {
            Err(MemoryError::Unauthorized)
        } else {
            match self.replay(operation.id, digest) {
                Err(error) => Err(error),
                Ok(Some(ReceiptModel::EvaluatorState(receipt))) => Ok((self, receipt)),
                Ok(Some(_)) => corrupt(CorruptFault::ReceiptShape),
                Ok(None) => match self.closable_evaluator(pin, state) {
                    Err(error) => Err(error),
                    Ok(header) => match self.owner_purged(
                        self,
                        change,
                        self.relation_signals_by_evaluator,
                        self.activation_traces_by_evaluator,
                        pin.id.0,
                        operation.id,
                        now,
                    ) {
                        Err(error) => Err(error),
                        Ok((staged, signals, traces)) => {
                            let revision = (pin.revision + 1) as u64;
                            let receipt = RelationEvaluatorStateReceiptModel {
                                evaluator: RelationEvaluatorReceipt {
                                    pin: RelationEvaluatorPin { id: pin.id, revision },
                                    state,
                                },
                                purged_relation_signals: signals,
                                purged_activation_traces: traces,
                            };
                            Ok(
                                (
                                    staged.put(
                                        WriteModel::PutEvaluator(
                                            revision_of(pin.id.0, revision),
                                            RelationEvaluatorRevisionHeaderModel {
                                                revision,
                                                previous_revision: Some(pin.revision),
                                                state,
                                                recorded_at_ms: now,
                                                operation_id: operation.id,
                                                ..header
                                            },
                                        ),
                                    ).put(WriteModel::PutEvaluatorHead(pin.id, revision)).audited(
                                        self.audit_event(
                                            fresh.ids[0],
                                            operation,
                                            AuditAction::RelationEvaluatorStateChanged,
                                            Seq::empty(),
                                            derived_subjects_of(
                                                DerivedRecordRef::RelationEvaluator(pin.id),
                                                signals,
                                                traces,
                                            ),
                                            None,
                                            now,
                                        ),
                                    ).remembered(operation.id, digest, ReceiptModel::EvaluatorState(receipt)),
                                    receipt,
                                ),
                            )
                        },
                    },
                },
            }
        }
    }

    /// A request to put a profile in its normal form.
    #[verifier::opaque]
    pub open spec fn profile_request(actor: Actor, input: NewRelationProfileRevisionModel) -> MemoryResult<
        NewRelationProfileRevisionModel,
    > {
        if actor != Actor::Operator {
            Err(MemoryError::Unauthorized)
        } else if input.heads.len() == 0 || input.heads.len() > MAX_RELATION_HEADS {
            invalid(InputFault::ProfileHeadCount)
        } else if in_order(head_dimensions(input.heads).to_set()).len() != input.heads.len() {
            invalid(InputFault::ProfileHeadsRepeat)
        } else if !weights_in_range(input.heads) {
            invalid(InputFault::ProfileWeightRange)
        } else {
            Ok(NewRelationProfileRevisionModel { heads: in_order(input.heads.to_set()), ..input })
        }
    }

    /// Why an evaluator pin cannot carry a profile with such weights.
    #[verifier::opaque]
    pub open spec fn profile_evaluator_fault(
        self,
        pin: RelationEvaluatorPin,
        heads: Seq<RelationHeadWeight>,
    ) -> Option<MemoryError> {
        match self.evaluator_at(pin.id, RevisionSelector::Head) {
            None => Some(MemoryError::InvalidInput(InputFault::EvaluatorMissing)),
            Some(evaluator) => if evaluator.revision != pin.revision {
                Some(
                    MemoryError::RevisionConflict { expected: pin.revision, actual: evaluator.revision },
                )
            } else if evaluator.state != RecordState::Active {
                Some(MemoryError::InvalidInput(InputFault::EvaluatorInactive))
            } else if !heads_declared(heads, evaluator.dimensions) {
                Some(MemoryError::InvalidInput(InputFault::ProfileHeadUndeclared))
            } else {
                None
            },
        }
    }

    /// Why a profile cannot be created or revised as expected.
    #[verifier::opaque]
    pub open spec fn profile_conflict(self, id: RelationProfileId, expected: Option<u64>) -> Option<MemoryError> {
        let current = lookup(self.relation_profile_heads, id);
        match (expected, current) {
            (None, None) => None,
            (None, Some(actual)) => Some(MemoryError::RevisionConflict { expected: 0, actual }),
            (Some(wanted), None) => Some(MemoryError::RevisionConflict { expected: wanted, actual: 0 }),
            (Some(wanted), Some(actual)) => if wanted != actual {
                Some(MemoryError::RevisionConflict { expected: wanted, actual })
            } else {
                match lookup(self.relation_profiles, revision_of(id.0, actual)) {
                    None => Some(MemoryError::Corrupt(CorruptFault::ProfileRevisionMissing(id, actual))),
                    Some(header) => if header.state != RecordState::Active {
                        Some(MemoryError::InvalidInput(InputFault::ProfileNotRevisable))
                    } else {
                        None
                    },
                }
            },
        }
    }

    /// Putting a profile. The identifier drawn is the audit event's.
    pub open spec fn put_relation_profile(
        self,
        operation: OperationContext,
        input: NewRelationProfileRevisionModel,
        request: Seq<u8>,
        fresh: FreshModel,
    ) -> MemoryResult<(StoreModel, RelationProfileReceipt)> {
        let digest = mutation_digest_of(self.digest_key@, "put_relation_profile"@, operation.actor, request);
        match Self::profile_request(operation.actor, input) {
            Err(error) => Err(error),
            Ok(wanted) => match self.replay(operation.id, digest) {
                Err(error) => Err(error),
                Ok(Some(ReceiptModel::Profile(receipt))) => Ok((self, receipt)),
                Ok(Some(_)) => corrupt(CorruptFault::ReceiptShape),
                Ok(None) => match self.profile_evaluator_fault(wanted.evaluator, wanted.heads) {
                    Some(error) => Err(error),
                    None => match self.profile_conflict(wanted.id, wanted.expected_revision) {
                        Some(error) => Err(error),
                        None => {
                            let current = lookup(self.relation_profile_heads, wanted.id);
                            match revision_after(current) {
                                None => corrupt(CorruptFault::ProfileRevisionOverflow),
                                Some(revision) => {
                                    let receipt = RelationProfileReceipt {
                                        pin: RelationProfilePin { id: wanted.id, revision },
                                        state: RecordState::Active,
                                        availability: RelationProfileAvailability::Available,
                                    };
                                    Ok(
                                        (
                                            self.put(
                                                WriteModel::PutProfile(
                                                    revision_of(wanted.id.0, revision),
                                                    RelationProfileRevisionHeaderModel {
                                                        id: wanted.id,
                                                        revision,
                                                        previous_revision: current,
                                                        evaluator: wanted.evaluator,
                                                        heads: wanted.heads,
                                                        provenance_digest: wanted.provenance_digest,
                                                        state: RecordState::Active,
                                                        recorded_at_ms: fresh.recorded_at_ms,
                                                        operation_id: operation.id,
                                                    },
                                                ),
                                            ).put(WriteModel::PutProfileHead(wanted.id, revision)).audited(
                                                self.audit_event(
                                                    fresh.ids[0],
                                                    operation,
                                                    AuditAction::RelationProfilePut,
                                                    Seq::empty(),
                                                    seq![DerivedRecordRef::RelationProfile(wanted.id)],
                                                    None,
                                                    fresh.recorded_at_ms,
                                                ),
                                            ).remembered(operation.id, digest, ReceiptModel::Profile(receipt)),
                                            receipt,
                                        ),
                                    )
                                },
                            }
                        },
                    },
                },
            },
        }
    }

    /// Whether a profile can be used, given where its evaluator stands.
    #[verifier::opaque]
    pub open spec fn profile_availability(self, state: RecordState, evaluator: RelationEvaluatorPin) -> RelationProfileAvailability {
        if state != RecordState::Active {
            RelationProfileAvailability::Inactive
        } else {
            match self.evaluator_at(evaluator.id, RevisionSelector::Head) {
                None => RelationProfileAvailability::UnavailableEvaluator,
                Some(header) => if header.revision != evaluator.revision || header.state
                    != RecordState::Active {
                    RelationProfileAvailability::StaleEvaluator
                } else {
                    RelationProfileAvailability::Available
                },
            }
        }
    }

    /// A profile at its current or an exact revision.
    #[verifier::opaque]
    pub open spec fn profile_at(self, id: RelationProfileId, selector: RevisionSelector) -> Option<
        RelationProfileRecordModel,
    > {
        let found = match selector {
            RevisionSelector::Exact(revision) => lookup(self.relation_profiles, revision_of(id.0, revision)),
            RevisionSelector::Head => match lookup(self.relation_profile_heads, id) {
                None => None,
                Some(revision) => lookup(self.relation_profiles, revision_of(id.0, revision)),
            },
        };
        match found {
            None => None,
            Some(header) => Some(
                RelationProfileRecordModel {
                    header,
                    availability: self.profile_availability(header.state, header.evaluator),
                },
            ),
        }
    }

    /// The present header of a profile that can be taken to another state.
    #[verifier::opaque]
    pub open spec fn closable_profile(self, pin: RelationProfilePin, target: RecordState) -> MemoryResult<
        RelationProfileRevisionHeaderModel,
    > {
        let actual = match lookup(self.relation_profile_heads, pin.id) {
            Some(revision) => revision,
            None => 0,
        };
        if actual != pin.revision {
            Err(MemoryError::RevisionConflict { expected: pin.revision, actual })
        } else {
            match lookup(self.relation_profiles, revision_of(pin.id.0, pin.revision)) {
                None => corrupt(CorruptFault::ProfileRevisionMissing(pin.id, pin.revision)),
                Some(header) => if header.state == RecordState::Purged || header.state == target {
                    invalid(InputFault::ProfileTerminal)
                } else if pin.revision == u64::MAX {
                    corrupt(CorruptFault::ProfileRevisionOverflow)
                } else {
                    Ok(header)
                },
            }
        }
    }

    /// Retracting or purging a profile. The identifier drawn is the audit event's.
    pub open spec fn set_relation_profile_state(
        self,
        operation: OperationContext,
        pin: RelationProfilePin,
        change: DerivedDefinitionStateChange,
        request: Seq<u8>,
        fresh: FreshModel,
    ) -> MemoryResult<(StoreModel, RelationProfileStateReceiptModel)> {
        let digest = mutation_digest_of(
            self.digest_key@,
            "set_relation_profile_state"@,
            operation.actor,
            request,
        );
        let now = fresh.recorded_at_ms;
        let state = changed_state(change);
        if operation.actor != Actor::Operator {
            Err(MemoryError::Unauthorized)
        } else {
            match self.replay(operation.id, digest) {
                Err(error) => Err(error),
                Ok(Some(ReceiptModel::ProfileState(receipt))) => Ok((self, receipt)),
                Ok(Some(_)) => corrupt(CorruptFault::ReceiptShape),
                Ok(None) => match self.closable_profile(pin, state) {
                    Err(error) => Err(error),
                    Ok(header) => match self.owner_purged(
                        self,
                        change,
                        self.relation_signals_by_profile,
                        self.activation_traces_by_profile,
                        pin.id.0,
                        operation.id,
                        now,
                    ) {
                        Err(error) => Err(error),
                        Ok((staged, signals, traces)) => {
                            let revision = (pin.revision + 1) as u64;
                            let receipt = RelationProfileStateReceiptModel {
                                profile: RelationProfileReceipt {
                                    pin: RelationProfilePin { id: pin.id, revision },
                                    state,
                                    availability: RelationProfileAvailability::Inactive,
                                },
                                purged_relation_signals: signals,
                                purged_activation_traces: traces,
                            };
                            Ok(
                                (
                                    staged.put(
                                        WriteModel::PutProfile(
                                            revision_of(pin.id.0, revision),
                                            RelationProfileRevisionHeaderModel {
                                                revision,
                                                previous_revision: Some(pin.revision),
                                                state,
                                                recorded_at_ms: now,
                                                operation_id: operation.id,
                                                ..header
                                            },
                                        ),
                                    ).put(WriteModel::PutProfileHead(pin.id, revision)).audited(
                                        self.audit_event(
                                            fresh.ids[0],
                                            operation,
                                            AuditAction::RelationProfileStateChanged,
                                            Seq::empty(),
                                            derived_subjects_of(
                                                DerivedRecordRef::RelationProfile(pin.id),
                                                signals,
                                                traces,
                                            ),
                                            None,
                                            now,
                                        ),
                                    ).remembered(operation.id, digest, ReceiptModel::ProfileState(receipt)),
                                    receipt,
                                ),
                            )
                        },
                    },
                },
            }
        }
    }
}

/// A request to put an evaluator in its normal form.
pub fn normalize_evaluator(actor: Actor, input: &NewRelationEvaluatorRevision) -> (r: MemoryResult<
    NewRelationEvaluatorRevision,
>)
    ensures
        shown(r) == StoreModel::evaluator_request(actor, input@),
{
    reveal(StoreModel::evaluator_request);
    if actor != Actor::Operator {
        return Err(MemoryError::Unauthorized);
    }
    if input.schema_version == 0 {
        return Err(MemoryError::InvalidInput(InputFault::EvaluatorSchemaVersion));
    }
    if input.dimensions.len() == 0 || input.dimensions.len() > MAX_RELATION_DIMENSIONS {
        return Err(MemoryError::InvalidInput(InputFault::EvaluatorDimensionCount));
    }
    let dimensions = sorted_distinct(&input.dimensions);
    if dimensions.len() != input.dimensions.len() {
        return Err(MemoryError::InvalidInput(InputFault::EvaluatorDimensionsRepeat));
    }
    Ok(
        NewRelationEvaluatorRevision {
            id: input.id,
            expected_revision: input.expected_revision,
            kind: input.kind,
            schema_version: input.schema_version,
            dimensions,
            provenance_digest: input.provenance_digest,
        },
    )
}

/// A request to put a profile in its normal form.
pub fn normalize_profile(actor: Actor, input: &NewRelationProfileRevision) -> (r: MemoryResult<
    NewRelationProfileRevision,
>)
    ensures
        shown(r) == StoreModel::profile_request(actor, input@),
{
    reveal(StoreModel::profile_request);
    if actor != Actor::Operator {
        return Err(MemoryError::Unauthorized);
    }
    if input.heads.len() == 0 || input.heads.len() > MAX_RELATION_HEADS {
        return Err(MemoryError::InvalidInput(InputFault::ProfileHeadCount));
    }
    let dimensions = dimensions_of_heads(&input.heads);
    let distinct = sorted_distinct(&dimensions);
    if distinct.len() != input.heads.len() {
        return Err(MemoryError::InvalidInput(InputFault::ProfileHeadsRepeat));
    }
    if !check_weights(&input.heads) {
        return Err(MemoryError::InvalidInput(InputFault::ProfileWeightRange));
    }
    let heads = sorted_distinct(&input.heads);
    Ok(
        NewRelationProfileRevision {
            id: input.id,
            expected_revision: input.expected_revision,
            evaluator: input.evaluator,
            heads,
            provenance_digest: input.provenance_digest,
        },
    )
}

impl MemoryDatabase {
    fn evaluator_conflict(&self, id: RelationEvaluatorId, expected: Option<u64>) -> (r: MemoryResult<()>)
        ensures
            r == (match self@.evaluator_conflict(id, expected) {
                Some(error) => Err(error),
                None => Ok(()),
            }),
    {
        reveal(StoreModel::evaluator_conflict);
        match (expected, self.relation_evaluator_heads.get(&id)) {
            (None, None) => Ok(()),
            (None, Some(actual)) => Err(MemoryError::RevisionConflict { expected: 0, actual: *actual }),
            (Some(wanted), None) => Err(MemoryError::RevisionConflict { expected: wanted, actual: 0 }),
            (Some(wanted), Some(actual)) => {
                if wanted != *actual {
                    return Err(MemoryError::RevisionConflict { expected: wanted, actual: *actual });
                }
                match self.relation_evaluators.get(&RevisionKey { id: id.0, revision: *actual }) {
                    None => Err(MemoryError::Corrupt(CorruptFault::EvaluatorRevisionMissing(id, *actual))),
                    Some(header) => {
                        if header.state != RecordState::Active {
                            Err(MemoryError::InvalidInput(InputFault::EvaluatorNotRevisable))
                        } else {
                            Ok(())
                        }
                    },
                }
            },
        }
    }

    /// What putting an evaluator would do with the given instant and identifier.
    /// `request` encodes the normal form of the input.
    pub fn plan_put_relation_evaluator(
        &self,
        operation: OperationContext,
        input: &NewRelationEvaluatorRevision,
        request: &[u8],
        fresh: &Fresh,
    ) -> (r: MemoryResult<Planned<RelationEvaluatorReceipt>>)
        requires
            fresh.ids@.len() == 1,
        ensures
            plans(self@, r, self@.put_relation_evaluator(operation, input@, request@, fresh@)),
    {
        let wanted = normalize_evaluator(operation.actor, input)?;
        let digest = mutation_digest(
            &self.digest_key,
            "put_relation_evaluator",
            operation.actor,
            request,
        );
        let mut batch = Batch::new();
        match self.replayed_operation(operation.id, digest)? {
            Some(Receipt::Evaluator(receipt)) => {
                return Ok(Planned { batch, receipt });
            },
            Some(_) => {
                return Err(MemoryError::Corrupt(CorruptFault::ReceiptShape));
            },
            None => {},
        }
        self.evaluator_conflict(wanted.id, wanted.expected_revision)?;
        let current: Option<u64> = match self.relation_evaluator_heads.get(&wanted.id) {
            Some(revision) => Some(*revision),
            None => None,
        };
        let revision: u64 = match next_after(current) {
            Some(revision) => revision,
            None => return Err(MemoryError::Corrupt(CorruptFault::EvaluatorRevisionOverflow)),
        };
        let id = wanted.id;
        let header = RelationEvaluatorRevisionHeader {
            id,
            revision,
            previous_revision: current,
            kind: wanted.kind,
            schema_version: wanted.schema_version,
            dimensions: wanted.dimensions,
            provenance_digest: wanted.provenance_digest,
            state: RecordState::Active,
            recorded_at_ms: fresh.recorded_at_ms,
            operation_id: operation.id,
        };
        let receipt = RelationEvaluatorReceipt {
            pin: RelationEvaluatorPin { id, revision },
            state: RecordState::Active,
        };
        batch.push(Write::PutEvaluator(RevisionKey { id: id.0, revision }, header));
        batch.push(Write::PutEvaluatorHead(id, revision));
        let derived: Vec<DerivedRecordRef> = vec![DerivedRecordRef::RelationEvaluator(id)];
        assert(derived@ =~= seq![DerivedRecordRef::RelationEvaluator(id)]);
        self.insert_audit(
            &mut batch,
            fresh.ids[0],
            operation,
            AuditAction::RelationEvaluatorPut,
            Vec::new(),
            derived,
            None,
            fresh.recorded_at_ms,
        );
        self.insert_operation(&mut batch, operation.id, digest, Receipt::Evaluator(receipt));
        Ok(Planned { batch, receipt })
    }

    /// Creates an evaluator, or revises it at its expected revision.
    pub fn put_relation_evaluator(
        &mut self,
        operation: OperationContext,
        input: NewRelationEvaluatorRevision,
        request: &[u8],
    ) -> (r: MemoryResult<RelationEvaluatorReceipt>)
        ensures
            exists|fresh: FreshModel|
                fresh.ids.len() == 1 && #[trigger] commits(
                    old(self)@,
                    final(self)@,
                    r,
                    old(self)@.put_relation_evaluator(operation, input@, request@, fresh),
                ),
    {
        let fresh = Fresh::draw(1);
        let planned = self.plan_put_relation_evaluator(operation, &input, request, &fresh);
        let r = self.commit(planned);
        assert(commits(
            old(self)@,
            self@,
            r,
            old(self)@.put_relation_evaluator(operation, input@, request@, fresh@),
        ));
        r
    }

    pub fn inspect_relation_evaluator(&self, id: RelationEvaluatorId, selector: RevisionSelector) -> (r:
        MemoryResult<Option<RelationEvaluatorRecord>>)
        ensures
            match r {
                Ok(Some(record)) => self@.evaluator_at(id, selector) == Some(record.header@),
                Ok(None) => self@.evaluator_at(id, selector) is None,
                Err(_) => false,
            },
    {
        Ok(self.evaluator(id, selector))
    }

    pub(crate) fn evaluator(&self, id: RelationEvaluatorId, selector: RevisionSelector) -> (r: Option<
        RelationEvaluatorRecord,
    >)
        ensures
            match r {
                Some(record) => self@.evaluator_at(id, selector) == Some(record.header@),
                None => self@.evaluator_at(id, selector) is None,
            },
    {
        reveal(StoreModel::evaluator_at);
        let revision: u64 = match selector {
            RevisionSelector::Exact(revision) => revision,
            RevisionSelector::Head => match self.relation_evaluator_heads.get(&id) {
                Some(revision) => *revision,
                None => return None,
            },
        };
        match self.relation_evaluators.get(&RevisionKey { id: id.0, revision }) {
            Some(header) => Some(RelationEvaluatorRecord { header: header.replica() }),
            None => None,
        }
    }

    fn purge_owner(
        &self,
        batch: &mut Batch,
        change: DerivedDefinitionStateChange,
        signal_index: &Table<OwnerIndexKey, ()>,
        trace_index: &Table<OwnerIndexKey, ()>,
        owner: Ulid,
        operation_id: OperationId,
        recorded_at_ms: i64,
    ) -> (r: MemoryResult<(Vec<RelationSignalPin>, Vec<ActivationTraceId>)>)
        ensures
            match (
                r,
                self@.owner_purged(
                    self@.after(old(batch)@),
                    change,
                    signal_index@,
                    trace_index@,
                    owner,
                    operation_id,
                    recorded_at_ms,
                ),
            ) {
                (Ok(done), Ok((after, signals, traces))) => self@.after(final(batch)@) == after && done.0@
                    == signals && done.1@ == traces,
                (Err(error), Err(refusal)) => error == refusal,
                _ => false,
            },
    {
        reveal(StoreModel::owner_purged);
        if change == DerivedDefinitionStateChange::Retract {
            return Ok((Vec::new(), Vec::new()));
        }
        let signal_ids = owned_ids(signal_index, owner);
        let pins = self.live_signals(SignalIndex::Owner, &signal_ids)?;
        let purged = self.purge_signals(batch, &pins, operation_id, recorded_at_ms)?;
        let trace_ids = owned_ids(trace_index, owner);
        let traces = self.live_traces(&trace_ids);
        self.drop_traces(batch, &traces);
        Ok((purged, traces))
    }

    fn closable_evaluator(&self, pin: RelationEvaluatorPin, target: RecordState) -> (r: MemoryResult<
        RelationEvaluatorRevisionHeader,
    >)
        ensures
            shown(r) == self@.closable_evaluator(pin, target),
            r is Ok ==> pin.revision < u64::MAX,
    {
        reveal(StoreModel::closable_evaluator);
        let actual: u64 = match self.relation_evaluator_heads.get(&pin.id) {
            Some(revision) => *revision,
            None => 0,
        };
        if actual != pin.revision {
            return Err(MemoryError::RevisionConflict { expected: pin.revision, actual });
        }
        match self.relation_evaluators.get(&RevisionKey { id: pin.id.0, revision: pin.revision }) {
            None => Err(
                MemoryError::Corrupt(CorruptFault::EvaluatorRevisionMissing(pin.id, pin.revision)),
            ),
            Some(header) => {
                if header.state == RecordState::Purged || header.state == target {
                    Err(MemoryError::InvalidInput(InputFault::EvaluatorTerminal))
                } else if pin.revision == u64::MAX {
                    Err(MemoryError::Corrupt(CorruptFault::EvaluatorRevisionOverflow))
                } else {
                    Ok(header.replica())
                }
            },
        }
    }

    /// What a change of an evaluator's state would do with the given instant and
    /// identifier. `request` encodes the pin and the change.
    pub fn plan_set_relation_evaluator_state(
        &self,
        operation: OperationContext,
        pin: RelationEvaluatorPin,
        change: DerivedDefinitionStateChange,
        request: &[u8],
        fresh: &Fresh,
    ) -> (r: MemoryResult<Planned<RelationEvaluatorStateReceipt>>)
        requires
            fresh.ids@.len() == 1,
        ensures
            plans(
                self@,
                r,
                self@.set_relation_evaluator_state(operation, pin, change, request@, fresh@),
            ),
    {
        if operation.actor != Actor::Operator {
            return Err(MemoryError::Unauthorized);
        }
        let digest = mutation_digest(
            &self.digest_key,
            "set_relation_evaluator_state",
            operation.actor,
            request,
        );
        let mut batch = Batch::new();
        match self.replayed_operation(operation.id, digest)? {
            Some(Receipt::EvaluatorState(receipt)) => {
                return Ok(Planned { batch, receipt });
            },
            Some(_) => {
                return Err(MemoryError::Corrupt(CorruptFault::ReceiptShape));
            },
            None => {},
        }
        let state = state_after(change);
        let now: i64 = fresh.recorded_at_ms;
        let header = self.closable_evaluator(pin, state)?;
        let purged = self.purge_owner(
            &mut batch,
            change,
            &self.relation_signals_by_evaluator,
            &self.activation_traces_by_evaluator,
            pin.id.0,
            operation.id,
            now,
        )?;
        let revision: u64 = pin.revision + 1;
        let next = RelationEvaluatorRevisionHeader {
            revision,
            previous_revision: Some(pin.revision),
            state,
            recorded_at_ms: now,
            operation_id: operation.id,
            ..header
        };
        batch.push(Write::PutEvaluator(RevisionKey { id: pin.id.0, revision }, next));
        batch.push(Write::PutEvaluatorHead(pin.id, revision));
        let derived = collect_derived_subjects(
            DerivedRecordRef::RelationEvaluator(pin.id),
            &purged.0,
            &purged.1,
        );
        let receipt = RelationEvaluatorStateReceipt {
            evaluator: RelationEvaluatorReceipt {
                pin: RelationEvaluatorPin { id: pin.id, revision },
                state,
            },
            purged_relation_signals: purged.0,
            purged_activation_traces: purged.1,
        };
        self.insert_audit(
            &mut batch,
            fresh.ids[0],
            operation,
            AuditAction::RelationEvaluatorStateChanged,
            Vec::new(),
            derived,
            None,
            now,
        );
        self.insert_operation(
            &mut batch,
            operation.id,
            digest,
            Receipt::EvaluatorState(receipt.replica()),
        );
        Ok(Planned { batch, receipt })
    }

    /// Retracts or purges an evaluator at its pinned revision. Purging takes the signals
    /// and traces that rest on it along.
    pub fn set_relation_evaluator_state(
        &mut self,
        operation: OperationContext,
        pin: RelationEvaluatorPin,
        change: DerivedDefinitionStateChange,
        request: &[u8],
    ) -> (r: MemoryResult<RelationEvaluatorStateReceipt>)
        ensures
            exists|fresh: FreshModel|
                fresh.ids.len() == 1 && #[trigger] commits(
                    old(self)@,
                    final(self)@,
                    r,
                    old(self)@.set_relation_evaluator_state(operation, pin, change, request@, fresh),
                ),
    {
        let fresh = Fresh::draw(1);
        let planned = self.plan_set_relation_evaluator_state(operation, pin, change, request, &fresh);
        let r = self.commit(planned);
        assert(commits(
            old(self)@,
            self@,
            r,
            old(self)@.set_relation_evaluator_state(operation, pin, change, request@, fresh@),
        ));
        r
    }

    fn profile_evaluator_fault(&self, pin: RelationEvaluatorPin, heads: &Vec<RelationHeadWeight>) -> (r:
        MemoryResult<()>)
        ensures
            r == (match self@.profile_evaluator_fault(pin, heads@) {
                Some(error) => Err(error),
                None => Ok(()),
            }),
    {
        reveal(StoreModel::profile_evaluator_fault);
        let evaluator = match self.evaluator(pin.id, RevisionSelector::Head) {
            Some(record) => record.header,
            None => return Err(MemoryError::InvalidInput(InputFault::EvaluatorMissing)),
        };
        if evaluator.revision != pin.revision {
            return Err(
                MemoryError::RevisionConflict { expected: pin.revision, actual: evaluator.revision },
            );
        }
        if evaluator.state != RecordState::Active {
            return Err(MemoryError::InvalidInput(InputFault::EvaluatorInactive));
        }
        if !check_heads_declared(heads, &evaluator.dimensions) {
            return Err(MemoryError::InvalidInput(InputFault::ProfileHeadUndeclared));
        }
        Ok(())
    }

    fn profile_conflict(&self, id: RelationProfileId, expected: Option<u64>) -> (r: MemoryResult<()>)
        ensures
            r == (match self@.profile_conflict(id, expected) {
                Some(error) => Err(error),
                None => Ok(()),
            }),
    {
        reveal(StoreModel::profile_conflict);
        match (expected, self.relation_profile_heads.get(&id)) {
            (None, None) => Ok(()),
            (None, Some(actual)) => Err(MemoryError::RevisionConflict { expected: 0, actual: *actual }),
            (Some(wanted), None) => Err(MemoryError::RevisionConflict { expected: wanted, actual: 0 }),
            (Some(wanted), Some(actual)) => {
                if wanted != *actual {
                    return Err(MemoryError::RevisionConflict { expected: wanted, actual: *actual });
                }
                match self.relation_profiles.get(&RevisionKey { id: id.0, revision: *actual }) {
                    None => Err(MemoryError::Corrupt(CorruptFault::ProfileRevisionMissing(id, *actual))),
                    Some(header) => {
                        if header.state != RecordState::Active {
                            Err(MemoryError::InvalidInput(InputFault::ProfileNotRevisable))
                        } else {
                            Ok(())
                        }
                    },
                }
            },
        }
    }

    /// What putting a profile would do with the given instant and identifier.
    /// `request` encodes the normal form of the input.
    pub fn plan_put_relation_profile(
        &self,
        operation: OperationContext,
        input: &NewRelationProfileRevision,
        request: &[u8],
        fresh: &Fresh,
    ) -> (r: MemoryResult<Planned<RelationProfileReceipt>>)
        requires
            fresh.ids@.len() == 1,
        ensures
            plans(self@, r, self@.put_relation_profile(operation, input@, request@, fresh@)),
    {
        let wanted = normalize_profile(operation.actor, input)?;
        let digest = mutation_digest(&self.digest_key, "put_relation_profile", operation.actor, request);
        let mut batch = Batch::new();
        match self.replayed_operation(operation.id, digest)? {
            Some(Receipt::Profile(receipt)) => {
                return Ok(Planned { batch, receipt });
            },
            Some(_) => {
                return Err(MemoryError::Corrupt(CorruptFault::ReceiptShape));
            },
            None => {},
        }
        self.profile_evaluator_fault(wanted.evaluator, &wanted.heads)?;
        self.profile_conflict(wanted.id, wanted.expected_revision)?;
        let current: Option<u64> = match self.relation_profile_heads.get(&wanted.id) {
            Some(revision) => Some(*revision),
            None => None,
        };
        let revision: u64 = match next_after(current) {
            Some(revision) => revision,
            None => return Err(MemoryError::Corrupt(CorruptFault::ProfileRevisionOverflow)),
        };
        let id = wanted.id;
        let header = RelationProfileRevisionHeader {
            id,
            revision,
            previous_revision: current,
            evaluator: wanted.evaluator,
            heads: wanted.heads,
            provenance_digest: wanted.provenance_digest,
            state: RecordState::Active,
            recorded_at_ms: fresh.recorded_at_ms,
            operation_id: operation.id,
        };
        let receipt = RelationProfileReceipt {
            pin: RelationProfilePin { id, revision },
            state: RecordState::Active,
            availability: RelationProfileAvailability::Available,
        };
        batch.push(Write::PutProfile(RevisionKey { id: id.0, revision }, header));
        batch.push(Write::PutProfileHead(id, revision));
        let derived: Vec<DerivedRecordRef> = vec![DerivedRecordRef::RelationProfile(id)];
        assert(derived@ =~= seq![DerivedRecordRef::RelationProfile(id)]);
        self.insert_audit(
            &mut batch,
            fresh.ids[0],
            operation,
            AuditAction::RelationProfilePut,
            Vec::new(),
            derived,
            None,
            fresh.recorded_at_ms,
        );
        self.insert_operation(&mut batch, operation.id, digest, Receipt::Profile(receipt));
        Ok(Planned { batch, receipt })
    }

    /// Creates a profile, or revises it at its expected revision.
    pub fn put_relation_profile(
        &mut self,
        operation: OperationContext,
        input: NewRelationProfileRevision,
        request: &[u8],
    ) -> (r: MemoryResult<RelationProfileReceipt>)
        ensures
            exists|fresh: FreshModel|
                fresh.ids.len() == 1 && #[trigger] commits(
                    old(self)@,
                    final(self)@,
                    r,
                    old(self)@.put_relation_profile(operation, input@, request@, fresh),
                ),
    {
        let fresh = Fresh::draw(1);
        let planned = self.plan_put_relation_profile(operation, &input, request, &fresh);
        let r = self.commit(planned);
        assert(commits(
            old(self)@,
            self@,
            r,
            old(self)@.put_relation_profile(operation, input@, request@, fresh@),
        ));
        r
    }

    fn relation_profile_availability(&self, state: RecordState, evaluator: RelationEvaluatorPin) -> (r:
        RelationProfileAvailability)
        ensures
            r == self@.profile_availability(state, evaluator),
    {
        reveal(StoreModel::profile_availability);
        if state != RecordState::Active {
            return RelationProfileAvailability::Inactive;
        }
        match self.evaluator(evaluator.id, RevisionSelector::Head) {
            None => RelationProfileAvailability::UnavailableEvaluator,
            Some(record) => {
                if record.header.revision != evaluator.revision || record.header.state
                    != RecordState::Active {
                    RelationProfileAvailability::StaleEvaluator
                } else {
                    RelationProfileAvailability::Available
                }
            },
        }
    }

    pub fn inspect_relation_profile(&self, id: RelationProfileId, selector: RevisionSelector) -> (r: MemoryResult<
        Option<RelationProfileRecord>,
    >)
        ensures
            shown_option(r) == MemoryResult::Ok(self@.profile_at(id, selector)),
    {
        Ok(self.profile(id, selector))
    }

    pub(crate) fn profile(&self, id: RelationProfileId, selector: RevisionSelector) -> (r: Option<
        RelationProfileRecord,
    >)
        ensures
            opt_view(r) == self@.profile_at(id, selector),
    {
        reveal(StoreModel::profile_at);
        let revision: u64 = match selector {
            RevisionSelector::Exact(revision) => revision,
            RevisionSelector::Head => match self.relation_profile_heads.get(&id) {
                Some(revision) => *revision,
                None => return None,
            },
        };
        match self.relation_profiles.get(&RevisionKey { id: id.0, revision }) {
            Some(header) => {
                let availability = self.relation_profile_availability(header.state, header.evaluator);
                Some(RelationProfileRecord { header: header.replica(), availability })
            },
            None => None,
        }
    }

    fn closable_profile(&self, pin: RelationProfilePin, target: RecordState) -> (r: MemoryResult<
        RelationProfileRevisionHeader,
    >)
        ensures
            shown(r) == self@.closable_profile(pin, target),
            r is Ok ==> pin.revision < u64::MAX,
    {
        reveal(StoreModel::closable_profile);
        let actual: u64 = match self.relation_profile_heads.get(&pin.id) {
            Some(revision) => *revision,
            None => 0,
        };
        if actual != pin.revision {
            return Err(MemoryError::RevisionConflict { expected: pin.revision, actual });
        }
        match self.relation_profiles.get(&RevisionKey { id: pin.id.0, revision: pin.revision }) {
            None => Err(MemoryError::Corrupt(CorruptFault::ProfileRevisionMissing(pin.id, pin.revision))),
            Some(header) => {
                if header.state == RecordState::Purged || header.state == target {
                    Err(MemoryError::InvalidInput(InputFault::ProfileTerminal))
                } else if pin.revision == u64::MAX {
                    Err(MemoryError::Corrupt(CorruptFault::ProfileRevisionOverflow))
                } else {
                    Ok(header.replica())
                }
            },
        }
    }

    /// What a change of a profile's state would do with the given instant and
    /// identifier. `request` encodes the pin and the change.
    pub fn plan_set_relation_profile_state(
        &self,
        operation: OperationContext,
        pin: RelationProfilePin,
        change: DerivedDefinitionStateChange,
        request: &[u8],
        fresh: &Fresh,
    ) -> (r: MemoryResult<Planned<RelationProfileStateReceipt>>)
        requires
            fresh.ids@.len() == 1,
        ensures
            plans(
                self@,
                r,
                self@.set_relation_profile_state(operation, pin, change, request@, fresh@),
            ),
    {
        if operation.actor != Actor::Operator {
            return Err(MemoryError::Unauthorized);
        }
        let digest = mutation_digest(
            &self.digest_key,
            "set_relation_profile_state",
            operation.actor,
            request,
        );
        let mut batch = Batch::new();
        match self.replayed_operation(operation.id, digest)? {
            Some(Receipt::ProfileState(receipt)) => {
                return Ok(Planned { batch, receipt });
            },
            Some(_) => {
                return Err(MemoryError::Corrupt(CorruptFault::ReceiptShape));
            },
            None => {},
        }
        let state = state_after(change);
        let now: i64 = fresh.recorded_at_ms;
        let header = self.closable_profile(pin, state)?;
        let purged = self.purge_owner(
            &mut batch,
            change,
            &self.relation_signals_by_profile,
            &self.activation_traces_by_profile,
            pin.id.0,
            operation.id,
            now,
        )?;
        let revision: u64 = pin.revision + 1;
        let next = RelationProfileRevisionHeader {
            revision,
            previous_revision: Some(pin.revision),
            state,
            recorded_at_ms: now,
            operation_id: operation.id,
            ..header
        };
        batch.push(Write::PutProfile(RevisionKey { id: pin.id.0, revision }, next));
        batch.push(Write::PutProfileHead(pin.id, revision));
        let derived = collect_derived_subjects(
            DerivedRecordRef::RelationProfile(pin.id),
            &purged.0,
            &purged.1,
        );
        let receipt = RelationProfileStateReceipt {
            profile: RelationProfileReceipt {
                pin: RelationProfilePin { id: pin.id, revision },
                state,
                availability: RelationProfileAvailability::Inactive,
            },
            purged_relation_signals: purged.0,
            purged_activation_traces: purged.1,
        };
        self.insert_audit(
            &mut batch,
            fresh.ids[0],
            operation,
            AuditAction::RelationProfileStateChanged,
            Vec::new(),
            derived,
            None,
            now,
        );
        self.insert_operation(
            &mut batch,
            operation.id,
            digest,
            Receipt::ProfileState(receipt.replica()),
        );
        Ok(Planned { batch, receipt })
    }

    /// Retracts or purges a profile at its pinned revision. Purging takes the signals
    /// and traces that rest on it along.
    pub fn set_relation_profile_state(
        &mut self,
        operation: OperationContext,
        pin: RelationProfilePin,
        change: DerivedDefinitionStateChange,
        request: &[u8],
    ) -> (r: MemoryResult<RelationProfileStateReceipt>)
        ensures
            exists|fresh: FreshModel|
                fresh.ids.len() == 1 && #[trigger] commits(
                    old(self)@,
                    final(self)@,
                    r,
                    old(self)@.set_relation_profile_state(operation, pin, change, request@, fresh),
                ),
    {
        let fresh = Fresh::draw(1);
        let planned = self.plan_set_relation_profile_state(operation, pin, change, request, &fresh);
        let r = self.commit(planned);
        assert(commits(
            old(self)@,
            self@,
            r,
            old(self)@.set_relation_profile_state(operation, pin, change, request@, fresh@),
        ));
        r
    }
}

} // verus!
