//! Relation signals: scores of directed pairs of records under a profile.
use vstd::prelude::*;
use crate::clock::{Fresh, FreshModel};
use crate::context::OperationContext;
use crate::definitions::{
    MAX_RELATION_DIMENSIONS, RELATION_FIXED_POINT_SCALE, revision_after, unit_range,
};
use crate::digest::{mutation_digest, mutation_digest_of};
use crate::fault::{
    CorruptFault, InputFault, MemoryError, MemoryResult, SignalIndex, corrupt, invalid,
};
use crate::ids::{RelationEvaluatorId, RelationProfileId, RelationSignalId, Ulid};
use crate::inspect::{lookup, revision_of, shown, shown_option};
use crate::keys::{DependencyKey, OwnerIndexKey, PairKey, RecordIndexKey, RevisionKey};
use crate::order::{Ranked, in_order, sorted_distinct};
use crate::records::audit::{AuditAction, DerivedRecordRef};
use crate::records::evidence::{Actor, RecordRef, RecordState, RevisionSelector};
use crate::records::recall::RecordRevisionPin;
use crate::records::receipt::{Receipt, ReceiptModel};
use crate::records::relation::{
    NewRelationSignal, NewRelationSignalBatch, NewRelationSignalBatchModel,
    NewRelationSignalModel, RelationDimension, RelationDimensionScore, RelationEvaluatorPin,
    RelationHeadWeight, RelationProfileAvailability, RelationProfilePin,
    RelationSignalAvailability, RelationSignalBatchReceipt, RelationSignalBatchReceiptModel,
    RelationSignalPayload, RelationSignalPayloadModel, RelationSignalPin, RelationSignalReceipt,
    RelationSignalRecord, RelationSignalRecordModel, RelationSignalRevisionHeader,
    RelationSignalStaleReason, RelationSignalUnavailableReason,
};
use crate::staging::{Planned, commits, plans, steps};
use crate::store::{Batch, MemoryDatabase, StoreModel, Write, WriteModel};
use crate::table::{Replica, copies, views};

verus! {

pub const MAX_RELATION_SIGNAL_BATCH: usize = 1_024;

/// The dimensions that scores are for.
pub open spec fn score_dimensions(scores: Seq<RelationDimensionScore>) -> Seq<RelationDimension> {
    Seq::new(scores.len(), |i: int| scores[i].dimension)
}

fn dimensions_of_scores(scores: &Vec<RelationDimensionScore>) -> (r: Vec<RelationDimension>)
    ensures
        r@ == score_dimensions(scores@),
{
    let mut r: Vec<RelationDimension> = Vec::new();
    for i in 0..scores.len()
        invariant
            r@ == score_dimensions(scores@.take(i as int)),
    {
        r.push(scores[i].dimension);
        assert(r@ =~= score_dimensions(scores@.take(i + 1)));
    }
    assert(scores@.take(scores@.len() as int) =~= scores@);
    r
}

pub open spec fn scores_in_range(scores: Seq<RelationDimensionScore>) -> bool {
    forall|i: int| 0 <= i < scores.len() ==> unit_range((#[trigger] scores[i]).score_micros)
}

fn check_scores(scores: &Vec<RelationDimensionScore>) -> (r: bool)
    ensures
        r == scores_in_range(scores@),
{
    for i in 0..scores.len()
        invariant
            forall|j: int| 0 <= j < i ==> unit_range((#[trigger] scores@[j]).score_micros),
    {
        let score: i32 = scores[i].score_micros;
        if score < -RELATION_FIXED_POINT_SCALE || score > RELATION_FIXED_POINT_SCALE {
            assert(!unit_range(scores@[i as int].score_micros));
            return false;
        }
    }
    true
}

/// Some weight is for a dimension.
pub open spec fn weighed(heads: Seq<RelationHeadWeight>, dimension: RelationDimension) -> bool {
    exists|j: int| 0 <= j < heads.len() && (#[trigger] heads[j]).dimension == dimension
}

/// Every score is for a dimension that a profile weighs.
pub open spec fn scores_enabled(scores: Seq<RelationDimensionScore>, heads: Seq<RelationHeadWeight>) -> bool {
    forall|i: int| 0 <= i < scores.len() ==> weighed(heads, (#[trigger] scores[i]).dimension)
}

fn weighs(heads: &Vec<RelationHeadWeight>, dimension: RelationDimension) -> (r: bool)
    ensures
        r == weighed(heads@, dimension),
{
    for i in 0..heads.len()
        invariant
            forall|j: int| 0 <= j < i ==> (#[trigger] heads@[j]).dimension != dimension,
    {
        if heads[i].dimension == dimension {
            assert(heads@[i as int].dimension == dimension);
            return true;
        }
    }
    false
}

fn check_scores_enabled(scores: &Vec<RelationDimensionScore>, heads: &Vec<RelationHeadWeight>) -> (r: bool)
    ensures
        r == scores_enabled(scores@, heads@),
{
    for i in 0..scores.len()
        invariant
            forall|k: int| 0 <= k < i ==> weighed(heads@, (#[trigger] scores@[k]).dimension),
    {
        if !weighs(heads, scores[i].dimension) {
            assert(!weighed(heads@, scores@[i as int].dimension));
            return false;
        }
    }
    true
}

/// The directed pair that a signal is about.
pub open spec fn signal_pair(signal: NewRelationSignalModel) -> DependencyKey {
    DependencyKey { source: signal.from.record, dependent: signal.to.record }
}

/// What is wrong with the signal at an index of a batch, if anything.
pub open spec fn signal_fault(signals: Seq<NewRelationSignalModel>, i: int) -> Option<InputFault> {
    let signal = signals[i];
    if signal.from.record == signal.to.record {
        Some(InputFault::SignalEndpointsEqual)
    } else if exists|j: int| 0 <= j < i && signal_pair(#[trigger] signals[j]) == signal_pair(signal) {
        Some(InputFault::SignalPairsRepeat)
    } else if signal.scores.len() == 0 || signal.scores.len() > MAX_RELATION_DIMENSIONS {
        Some(InputFault::SignalScoreCount)
    } else if in_order(score_dimensions(signal.scores).to_set()).len() != signal.scores.len() {
        Some(InputFault::SignalDimensionsRepeat)
    } else if !scores_in_range(signal.scores) {
        Some(InputFault::SignalScoreRange)
    } else {
        None
    }
}

/// The first fault among the first `n` signals.
pub open spec fn signals_fault(signals: Seq<NewRelationSignalModel>, n: nat) -> Option<InputFault>
    decreases n,
{
    if n == 0 {
        None
    } else {
        match signals_fault(signals, (n - 1) as nat) {
            Some(fault) => Some(fault),
            None => signal_fault(signals, n - 1),
        }
    }
}

proof fn signals_fault_persists(signals: Seq<NewRelationSignalModel>, n: nat, m: nat)
    requires
        n <= m,
        signals_fault(signals, n) is Some,
    ensures
        signals_fault(signals, m) == signals_fault(signals, n),
    decreases m,
{
    if n < m {
        signals_fault_persists(signals, n, (m - 1) as nat);
    }
}

/// A signal with its scores listed by dimension.
pub open spec fn normal_signal(signal: NewRelationSignalModel) -> NewRelationSignalModel {
    NewRelationSignalModel { scores: in_order(signal.scores.to_set()), ..signal }
}

/// A request to put signals in its normal form.
#[verifier::opaque]
pub open spec fn signals_request(actor: Actor, input: NewRelationSignalBatchModel) -> MemoryResult<
    NewRelationSignalBatchModel,
> {
    if actor != Actor::System {
        Err(MemoryError::Unauthorized)
    } else if input.signals.len() == 0 || input.signals.len() > MAX_RELATION_SIGNAL_BATCH {
        invalid(InputFault::SignalBatchSize)
    } else {
        match signals_fault(input.signals, input.signals.len()) {
            Some(fault) => invalid(fault),
            None => Ok(
                NewRelationSignalBatchModel {
                    signals: Seq::new(input.signals.len(), |i: int| normal_signal(input.signals[i])),
                    ..input
                },
            ),
        }
    }
}

fn check_signal(signals: &Vec<NewRelationSignal>, i: usize, pairs: &mut Ranked<DependencyKey>) -> (r:
    MemoryResult<()>)
    requires
        i < signals@.len(),
        forall|k: DependencyKey| #[trigger]
            old(pairs)@.contains(k) <==> exists|j: int| 0 <= j < i && signal_pair(views(signals@)[j]) == k,
    ensures
        r == (match signal_fault(views(signals@), i as int) {
            Some(fault) => invalid(fault),
            None => Ok(()),
        }),
        r is Ok ==> forall|k: DependencyKey| #[trigger]
            final(pairs)@.contains(k) <==> exists|j: int| 0 <= j < i + 1 && signal_pair(views(signals@)[j]) == k,
{
    let signal = &signals[i];
    let ghost all = views(signals@);
    assert(all[i as int] == signal@);
    if signal.from.record == signal.to.record {
        return Err(MemoryError::InvalidInput(InputFault::SignalEndpointsEqual));
    }
    let pair = DependencyKey { source: signal.from.record, dependent: signal.to.record };
    let ghost before = pairs@;
    if !pairs.insert(pair) {
        assert(before.contains(pair));
        proof {
            let j = choose|j: int| 0 <= j < i && signal_pair(all[j]) == pair;
            assert(signal_pair(all[j]) == signal_pair(all[i as int]));
        }
        return Err(MemoryError::InvalidInput(InputFault::SignalPairsRepeat));
    }
    proof {
        assert(!before.contains(pair));
        assert forall|k: DependencyKey| #[trigger] pairs@.contains(k) <==> exists|j: int|
            0 <= j < i + 1 && signal_pair(all[j]) == k by {
            assert(before.contains(k) <==> exists|j: int| 0 <= j < i && signal_pair(all[j]) == k);
            if k == pair {
                assert(signal_pair(all[i as int]) == k);
            }
        }
    }
    if signal.scores.len() == 0 || signal.scores.len() > MAX_RELATION_DIMENSIONS {
        return Err(MemoryError::InvalidInput(InputFault::SignalScoreCount));
    }
    let dimensions = dimensions_of_scores(&signal.scores);
    let distinct = sorted_distinct(&dimensions);
    if distinct.len() != signal.scores.len() {
        return Err(MemoryError::InvalidInput(InputFault::SignalDimensionsRepeat));
    }
    if !check_scores(&signal.scores) {
        return Err(MemoryError::InvalidInput(InputFault::SignalScoreRange));
    }
    Ok(())
}

/// A request to put signals in its normal form.
pub fn normalize_signals(actor: Actor, input: &NewRelationSignalBatch) -> (r: MemoryResult<
    NewRelationSignalBatch,
>)
    ensures
        shown(r) == signals_request(actor, input@),
{
    reveal(signals_request);
    if actor != Actor::System {
        return Err(MemoryError::Unauthorized);
    }
    if input.signals.len() == 0 || input.signals.len() > MAX_RELATION_SIGNAL_BATCH {
        return Err(MemoryError::InvalidInput(InputFault::SignalBatchSize));
    }
    let ghost all = views(input.signals@);
    let mut pairs: Ranked<DependencyKey> = Ranked::new();
    let mut signals: Vec<NewRelationSignal> = Vec::new();
    for i in 0..input.signals.len()
        invariant
            actor == Actor::System,
            all == views(input.signals@),
            0 < input.signals@.len() <= MAX_RELATION_SIGNAL_BATCH,
            forall|k: DependencyKey| #[trigger]
                pairs@.contains(k) <==> exists|j: int| 0 <= j < i && signal_pair(all[j]) == k,
            signals_fault(all, i as nat) is None,
            signals@.len() == i,
            forall|j: int| 0 <= j < i ==> (#[trigger] signals@[j])@ == normal_signal(all[j]),
    {
        match check_signal(&input.signals, i, &mut pairs) {
            Err(error) => {
                reveal(signals_request);
                proof {
                    signals_fault_persists(all, (i + 1) as nat, input.signals@.len());
                }
                return Err(error);
            },
            Ok(_) => {},
        }
        let signal = &input.signals[i];
        assert(all[i as int] == signal@);
        let scores = sorted_distinct(&signal.scores);
        signals.push(
            NewRelationSignal {
                from: signal.from,
                to: signal.to,
                expected_signal: signal.expected_signal,
                scores,
                provenance_digest: signal.provenance_digest,
            },
        );
    }
    assert(views(signals@) =~= Seq::new(all.len(), |i: int| normal_signal(all[i])));
    Ok(NewRelationSignalBatch { evaluator: input.evaluator, profile: input.profile, signals })
}

impl StoreModel {
    /// Why a pin is not the present, active revision of its record.
    #[verifier::opaque]
    pub open spec fn pin_fault(self, pin: RecordRevisionPin) -> Option<MemoryError> {
        match self.standing(pin.record) {
            Err(error) => Some(error),
            Ok((_, state, revision)) => if revision != pin.revision {
                Some(MemoryError::RevisionConflict { expected: pin.revision, actual: revision })
            } else if state != RecordState::Active {
                Some(MemoryError::InvalidInput(InputFault::PinnedRecordInactive))
            } else {
                None
            },
        }
    }

    /// The weights of a profile that signals can be put under.
    #[verifier::opaque]
    pub open spec fn signal_heads(self, evaluator: RelationEvaluatorPin, profile: RelationProfilePin) -> MemoryResult<
        Seq<RelationHeadWeight>,
    > {
        match self.evaluator_at(evaluator.id, RevisionSelector::Head) {
            None => invalid(InputFault::EvaluatorMissing),
            Some(current) => if current.revision != evaluator.revision {
                Err(
                    MemoryError::RevisionConflict { expected: evaluator.revision, actual: current.revision },
                )
            } else if current.state != RecordState::Active {
                invalid(InputFault::EvaluatorInactive)
            } else {
                match self.profile_at(profile.id, RevisionSelector::Head) {
                    None => invalid(InputFault::ProfileMissing),
                    Some(found) => if found.header.revision != profile.revision {
                        Err(
                            MemoryError::RevisionConflict {
                                expected: profile.revision,
                                actual: found.header.revision,
                            },
                        )
                    } else if found.availability != RelationProfileAvailability::Available
                        || found.header.evaluator != evaluator {
                        invalid(InputFault::SignalPinsStale)
                    } else {
                        Ok(found.header.heads)
                    },
                }
            },
        }
    }

    /// Under which identifier a signal is put, and what it revises: its previous revision
    /// and the evaluator that it was under.
    #[verifier::opaque]
    pub open spec fn signal_slot(
        self,
        profile: RelationProfileId,
        from: RecordRef,
        to: RecordRef,
        expected: Option<RelationSignalPin>,
        new_id: Ulid,
    ) -> MemoryResult<(RelationSignalId, Option<u64>, Option<RelationEvaluatorId>)> {
        match (lookup(self.relation_signal_pairs, PairKey { profile, from, to }), expected) {
            (None, None) => Ok((RelationSignalId(new_id), None, None)),
            (None, Some(pin)) => Err(
                MemoryError::RevisionConflict { expected: pin.revision, actual: 0 },
            ),
            (Some(id), None) => Err(
                MemoryError::RevisionConflict { expected: 0, actual: self.signal_revision(id) },
            ),
            (Some(id), Some(pin)) => if id != pin.id {
                invalid(InputFault::SignalPairOwned(id, pin.id))
            } else {
                match lookup(self.relation_signal_heads, id) {
                    None => corrupt(CorruptFault::SignalMissing(SignalIndex::Pair, id)),
                    Some(actual) => if actual != pin.revision {
                        Err(MemoryError::RevisionConflict { expected: pin.revision, actual })
                    } else {
                        match lookup(self.relation_signals, revision_of(id.0, actual)) {
                            None => corrupt(CorruptFault::SignalRevisionMissing(id, actual)),
                            Some(current) => if current.state != RecordState::Active {
                                invalid(InputFault::SignalPurged)
                            } else if current.profile.id != profile || current.from.record != from
                                || current.to.record != to {
                                corrupt(CorruptFault::SignalPairIndex)
                            } else {
                                Ok((id, Some(actual), Some(current.evaluator.id)))
                            },
                        }
                    },
                }
            },
        }
    }

    /// With a new signal filed under its pair, its records and its profile.
    #[verifier::opaque]
    pub open spec fn signal_filed(self, header: RelationSignalRevisionHeader) -> StoreModel {
        self.put(
            WriteModel::PutSignalPair(
                PairKey { profile: header.profile.id, from: header.from.record, to: header.to.record },
                header.id,
            ),
        ).put(
            WriteModel::PutSignalByRecord(
                RecordIndexKey { record: header.from.record, id: header.id.0 },
            ),
        ).put(
            WriteModel::PutSignalByRecord(RecordIndexKey { record: header.to.record, id: header.id.0 }),
        ).put(
            WriteModel::PutSignalByProfile(
                OwnerIndexKey { owner: header.profile.id.0, id: header.id.0 },
            ),
        )
    }

    /// With a signal moved from the evaluator it was under, if that is another.
    #[verifier::opaque]
    pub open spec fn signal_moved(
        self,
        header: RelationSignalRevisionHeader,
        previous_evaluator: Option<RelationEvaluatorId>,
    ) -> StoreModel {
        match previous_evaluator {
            Some(old) => if old != header.evaluator.id {
                self.put(
                    WriteModel::DropSignalByEvaluator(OwnerIndexKey { owner: old.0, id: header.id.0 }),
                )
            } else {
                self
            },
            None => self,
        }
    }

    /// With a signal written and filed.
    #[verifier::opaque]
    pub open spec fn with_signal(
        self,
        header: RelationSignalRevisionHeader,
        payload: RelationSignalPayloadModel,
        previous_evaluator: Option<RelationEvaluatorId>,
    ) -> StoreModel {
        let written = self.put(
            WriteModel::PutSignal(revision_of(header.id.0, header.revision), header),
        ).put(WriteModel::PutSignalHead(header.id, header.revision)).put(
            WriteModel::PutSignalPayload(header.id, payload),
        );
        let filed = if header.previous_revision is None {
            written.signal_filed(header)
        } else {
            written
        };
        filed.signal_moved(header, previous_evaluator).put(
            WriteModel::PutSignalByEvaluator(
                OwnerIndexKey { owner: header.evaluator.id.0, id: header.id.0 },
            ),
        )
    }

    /// `staged` with one signal put. A new one takes the given identifier.
    #[verifier::opaque]
    pub open spec fn signal_put(
        self,
        staged: StoreModel,
        operation: OperationContext,
        wanted: NewRelationSignalBatchModel,
        heads: Seq<RelationHeadWeight>,
        signal: NewRelationSignalModel,
        new_id: Ulid,
        recorded_at_ms: i64,
    ) -> MemoryResult<(StoreModel, RelationSignalReceipt)> {
        if !scores_enabled(signal.scores, heads) {
            invalid(InputFault::SignalDimensionDisabled)
        } else {
            match self.pin_fault(signal.from) {
                Some(error) => Err(error),
                None => match self.pin_fault(signal.to) {
                    Some(error) => Err(error),
                    None => match self.signal_slot(
                        wanted.profile.id,
                        signal.from.record,
                        signal.to.record,
                        signal.expected_signal,
                        new_id,
                    ) {
                        Err(error) => Err(error),
                        Ok((id, previous_revision, previous_evaluator)) => match revision_after(
                            previous_revision,
                        ) {
                            None => corrupt(CorruptFault::SignalRevisionOverflow),
                            Some(revision) => Ok(
                                (
                                    staged.with_signal(
                                        RelationSignalRevisionHeader {
                                            id,
                                            revision,
                                            previous_revision,
                                            evaluator: wanted.evaluator,
                                            profile: wanted.profile,
                                            from: signal.from,
                                            to: signal.to,
                                            state: RecordState::Active,
                                            recorded_at_ms,
                                            operation_id: operation.id,
                                        },
                                        RelationSignalPayloadModel {
                                            revision,
                                            scores: signal.scores,
                                            provenance_digest: signal.provenance_digest,
                                        },
                                        previous_evaluator,
                                    ),
                                    RelationSignalReceipt {
                                        pin: RelationSignalPin { id, revision },
                                        state: RecordState::Active,
                                    },
                                ),
                            ),
                        },
                    },
                },
            }
        }
    }

    /// With the first `n` signals put, and what they are answered. New signals take the
    /// identifiers drawn after the first.
    pub open spec fn signals_put(
        self,
        operation: OperationContext,
        wanted: NewRelationSignalBatchModel,
        heads: Seq<RelationHeadWeight>,
        fresh: FreshModel,
        n: nat,
    ) -> MemoryResult<(StoreModel, Seq<RelationSignalReceipt>)>
        decreases n,
    {
        if n == 0 {
            Ok((self, Seq::empty()))
        } else {
            match self.signals_put(operation, wanted, heads, fresh, (n - 1) as nat) {
                Err(error) => Err(error),
                Ok((before, receipts)) => match self.signal_put(
                    before,
                    operation,
                    wanted,
                    heads,
                    wanted.signals[n - 1],
                    fresh.ids[n as int],
                    fresh.recorded_at_ms,
                ) {
                    Err(error) => Err(error),
                    Ok((after, receipt)) => Ok((after, receipts.push(receipt))),
                },
            }
        }
    }

    /// Putting signals. The first identifier drawn is the audit event's.
    pub open spec fn put_relation_signals(
        self,
        operation: OperationContext,
        input: NewRelationSignalBatchModel,
        request: Seq<u8>,
        fresh: FreshModel,
    ) -> MemoryResult<(StoreModel, RelationSignalBatchReceiptModel)> {
        let digest = mutation_digest_of(self.digest_key@, "put_relation_signals"@, operation.actor, request);
        match signals_request(operation.actor, input) {
            Err(error) => Err(error),
            Ok(wanted) => match self.replay(operation.id, digest) {
                Err(error) => Err(error),
                Ok(Some(ReceiptModel::Signals(receipt))) => Ok((self, receipt)),
                Ok(Some(_)) => corrupt(CorruptFault::ReceiptShape),
                Ok(None) => match self.signal_heads(wanted.evaluator, wanted.profile) {
                    Err(error) => Err(error),
                    Ok(heads) => match self.signals_put(operation, wanted, heads, fresh, wanted.signals.len()) {
                        Err(error) => Err(error),
                        Ok((after, signals)) => {
                            let receipt = RelationSignalBatchReceiptModel { signals };
                            Ok(
                                (
                                    after.audited(
                                        self.audit_event(
                                            fresh.ids[0],
                                            operation,
                                            AuditAction::RelationSignalsPut,
                                            Seq::empty(),
                                            signal_subjects(signals),
                                            None,
                                            fresh.recorded_at_ms,
                                        ),
                                    ).remembered(operation.id, digest, ReceiptModel::Signals(receipt)),
                                    receipt,
                                ),
                            )
                        },
                    },
                },
            },
        }
    }

    /// Whether the record at one end of a signal still is what it was scored for.
    #[verifier::opaque]
    pub open spec fn source_availability(self, source: RecordRevisionPin) -> MemoryResult<RelationSignalAvailability> {
        match self.standing(source.record) {
            Err(MemoryError::NotFound(_)) => Ok(
                RelationSignalAvailability::Unavailable(RelationSignalUnavailableReason::MissingDependency),
            ),
            Err(error) => Err(error),
            Ok((_, state, revision)) => Ok(
                if state == RecordState::Purged {
                    RelationSignalAvailability::Unavailable(RelationSignalUnavailableReason::SourcePurged)
                } else if state != RecordState::Active {
                    RelationSignalAvailability::Stale(RelationSignalStaleReason::SourceInactive)
                } else if revision != source.revision {
                    RelationSignalAvailability::Stale(RelationSignalStaleReason::SourceAdvanced)
                } else {
                    RelationSignalAvailability::Available
                },
            ),
        }
    }

    /// Whether the definitions that a signal was scored under still stand.
    #[verifier::opaque]
    pub open spec fn definition_availability(
        self,
        evaluator: RelationEvaluatorPin,
        profile: RelationProfilePin,
    ) -> RelationSignalAvailability {
        match self.evaluator_at(evaluator.id, RevisionSelector::Head) {
            None => RelationSignalAvailability::Unavailable(RelationSignalUnavailableReason::MissingDependency),
            Some(current) => if current.state == RecordState::Purged {
                RelationSignalAvailability::Unavailable(RelationSignalUnavailableReason::EvaluatorPurged)
            } else if current.state != RecordState::Active {
                RelationSignalAvailability::Stale(RelationSignalStaleReason::EvaluatorInactive)
            } else if current.revision != evaluator.revision {
                RelationSignalAvailability::Stale(RelationSignalStaleReason::EvaluatorAdvanced)
            } else {
                match self.profile_at(profile.id, RevisionSelector::Head) {
                    None => RelationSignalAvailability::Unavailable(
                        RelationSignalUnavailableReason::MissingDependency,
                    ),
                    Some(found) => if found.header.state == RecordState::Purged {
                        RelationSignalAvailability::Unavailable(RelationSignalUnavailableReason::ProfilePurged)
                    } else if found.header.state != RecordState::Active {
                        RelationSignalAvailability::Stale(RelationSignalStaleReason::ProfileInactive)
                    } else if found.header.revision != profile.revision {
                        RelationSignalAvailability::Stale(RelationSignalStaleReason::ProfileAdvanced)
                    } else {
                        RelationSignalAvailability::Available
                    },
                }
            },
        }
    }

    /// Whether a signal can be used: its payload is there, its definitions stand, and its
    /// ends are what they were.
    #[verifier::opaque]
    pub open spec fn signal_availability(self, header: RelationSignalRevisionHeader, has_scores: bool) -> MemoryResult<
        RelationSignalAvailability,
    > {
        let definitions = self.definition_availability(header.evaluator, header.profile);
        if header.state == RecordState::Purged {
            Ok(RelationSignalAvailability::Unavailable(RelationSignalUnavailableReason::PayloadPurged))
        } else if !has_scores {
            Ok(
                RelationSignalAvailability::Unavailable(
                    RelationSignalUnavailableReason::HistoricalPayloadUnavailable,
                ),
            )
        } else if definitions != RelationSignalAvailability::Available {
            Ok(definitions)
        } else {
            match self.source_availability(header.from) {
                Err(error) => Err(error),
                Ok(first) => if first != RelationSignalAvailability::Available {
                    Ok(first)
                } else {
                    self.source_availability(header.to)
                },
            }
        }
    }

    /// A signal at its current or an exact revision. The scores are those of the revision
    /// asked for, or none.
    #[verifier::opaque]
    pub open spec fn inspect_relation_signal(self, id: RelationSignalId, selector: RevisionSelector) -> MemoryResult<
        Option<RelationSignalRecordModel>,
    > {
        let selected = match selector {
            RevisionSelector::Exact(revision) => Some(revision),
            RevisionSelector::Head => lookup(self.relation_signal_heads, id),
        };
        match selected {
            None => Ok(None),
            Some(revision) => match lookup(self.relation_signals, revision_of(id.0, revision)) {
                None => Ok(None),
                Some(header) => {
                    let payload = match lookup(self.relation_signal_payloads, id) {
                        Some(found) => if found.revision == revision {
                            Some(found)
                        } else {
                            None
                        },
                        None => None,
                    };
                    match self.signal_availability(header, payload is Some) {
                        Err(error) => Err(error),
                        Ok(availability) => Ok(
                            Some(
                                RelationSignalRecordModel {
                                    header,
                                    scores: match payload {
                                        Some(found) => Some(found.scores),
                                        None => None,
                                    },
                                    provenance_digest: match payload {
                                        Some(found) => Some(found.provenance_digest),
                                        None => None,
                                    },
                                    availability,
                                },
                            ),
                        ),
                    }
                },
            },
        }
    }
}

/// The signals that receipts are of.
pub open spec fn signal_subjects(receipts: Seq<RelationSignalReceipt>) -> Seq<DerivedRecordRef> {
    Seq::new(receipts.len(), |i: int| DerivedRecordRef::RelationSignal(receipts[i].pin.id))
}

proof fn signals_put_refusal_persists(
    s: StoreModel,
    operation: OperationContext,
    wanted: NewRelationSignalBatchModel,
    heads: Seq<RelationHeadWeight>,
    fresh: FreshModel,
    n: nat,
    m: nat,
)
    requires
        n <= m,
        s.signals_put(operation, wanted, heads, fresh, n) is Err,
    ensures
        s.signals_put(operation, wanted, heads, fresh, m) == s.signals_put(operation, wanted, heads, fresh, n),
    decreases m,
{
    if n < m {
        signals_put_refusal_persists(s, operation, wanted, heads, fresh, n, (m - 1) as nat);
    }
}

impl MemoryDatabase {
    /// Refuses a pin that is not the present, active revision of its record.
    pub(crate) fn require_current_pin(&self, pin: RecordRevisionPin) -> (r: MemoryResult<()>)
        ensures
            r == (match self@.pin_fault(pin) {
                Some(error) => Err(error),
                None => Ok(()),
            }),
    {
        reveal(StoreModel::pin_fault);
        let standing = self.record_scope_state_revision(pin.record)?;
        if standing.2 != pin.revision {
            return Err(MemoryError::RevisionConflict { expected: pin.revision, actual: standing.2 });
        }
        if standing.1 != RecordState::Active {
            return Err(MemoryError::InvalidInput(InputFault::PinnedRecordInactive));
        }
        Ok(())
    }

    fn signal_heads(&self, evaluator: RelationEvaluatorPin, profile: RelationProfilePin) -> (r: MemoryResult<
        Vec<RelationHeadWeight>,
    >)
        ensures
            match (r, self@.signal_heads(evaluator, profile)) {
                (Ok(heads), Ok(owed)) => heads@ == owed,
                (Err(error), Err(refusal)) => error == refusal,
                _ => false,
            },
    {
        reveal(StoreModel::signal_heads);
        let current = match self.evaluator(evaluator.id, RevisionSelector::Head) {
            Some(record) => record.header,
            None => return Err(MemoryError::InvalidInput(InputFault::EvaluatorMissing)),
        };
        if current.revision != evaluator.revision {
            return Err(
                MemoryError::RevisionConflict { expected: evaluator.revision, actual: current.revision },
            );
        }
        if current.state != RecordState::Active {
            return Err(MemoryError::InvalidInput(InputFault::EvaluatorInactive));
        }
        let found = match self.profile(profile.id, RevisionSelector::Head) {
            Some(found) => found,
            None => return Err(MemoryError::InvalidInput(InputFault::ProfileMissing)),
        };
        if found.header.revision != profile.revision {
            return Err(
                MemoryError::RevisionConflict { expected: profile.revision, actual: found.header.revision },
            );
        }
        if found.availability != RelationProfileAvailability::Available || found.header.evaluator
            != evaluator {
            return Err(MemoryError::InvalidInput(InputFault::SignalPinsStale));
        }
        Ok(found.header.heads)
    }

    fn signal_slot(
        &self,
        profile: RelationProfileId,
        from: RecordRef,
        to: RecordRef,
        expected: Option<RelationSignalPin>,
        new_id: Ulid,
    ) -> (r: MemoryResult<(RelationSignalId, Option<u64>, Option<RelationEvaluatorId>)>)
        ensures
            r == self@.signal_slot(profile, from, to, expected, new_id),
    {
        reveal(StoreModel::signal_slot);
        match (self.relation_signal_pairs.get(&PairKey { profile, from, to }), expected) {
            (None, None) => Ok((RelationSignalId(new_id), None, None)),
            (None, Some(pin)) => Err(MemoryError::RevisionConflict { expected: pin.revision, actual: 0 }),
            (Some(id), None) => {
                let actual: u64 = match self.relation_signal_heads.get(id) {
                    Some(revision) => *revision,
                    None => 0,
                };
                Err(MemoryError::RevisionConflict { expected: 0, actual })
            },
            (Some(found), Some(pin)) => {
                let id = *found;
                if id != pin.id {
                    return Err(MemoryError::InvalidInput(InputFault::SignalPairOwned(id, pin.id)));
                }
                let actual: u64 = match self.relation_signal_heads.get(&id) {
                    Some(revision) => *revision,
                    None => return Err(MemoryError::Corrupt(CorruptFault::SignalMissing(SignalIndex::Pair, id))),
                };
                if actual != pin.revision {
                    return Err(MemoryError::RevisionConflict { expected: pin.revision, actual });
                }
                let current = match self.relation_signals.get(&RevisionKey { id: id.0, revision: actual }) {
                    Some(current) => *current,
                    None => return Err(
                        MemoryError::Corrupt(CorruptFault::SignalRevisionMissing(id, actual)),
                    ),
                };
                if current.state != RecordState::Active {
                    return Err(MemoryError::InvalidInput(InputFault::SignalPurged));
                }
                if current.profile.id != profile || current.from.record != from || current.to.record != to {
                    return Err(MemoryError::Corrupt(CorruptFault::SignalPairIndex));
                }
                Ok((id, Some(actual), Some(current.evaluator.id)))
            },
        }
    }

    fn file_signal(&self, batch: &mut Batch, header: RelationSignalRevisionHeader)
        ensures
            self@.after(final(batch)@) == self@.after(old(batch)@).signal_filed(header),
    {
        reveal(StoreModel::signal_filed);
        batch.push(
            Write::PutSignalPair(
                PairKey { profile: header.profile.id, from: header.from.record, to: header.to.record },
                header.id,
            ),
        );
        batch.push(
            Write::PutSignalByRecord(RecordIndexKey { record: header.from.record, id: header.id.0 }),
        );
        batch.push(
            Write::PutSignalByRecord(RecordIndexKey { record: header.to.record, id: header.id.0 }),
        );
        batch.push(
            Write::PutSignalByProfile(OwnerIndexKey { owner: header.profile.id.0, id: header.id.0 }),
        );
    }

    fn move_signal(
        &self,
        batch: &mut Batch,
        header: RelationSignalRevisionHeader,
        previous_evaluator: Option<RelationEvaluatorId>,
    )
        ensures
            self@.after(final(batch)@) == self@.after(old(batch)@).signal_moved(header, previous_evaluator),
    {
        reveal(StoreModel::signal_moved);
        if let Some(old) = previous_evaluator {
            if old != header.evaluator.id {
                batch.push(
                    Write::DropSignalByEvaluator(OwnerIndexKey { owner: old.0, id: header.id.0 }),
                );
            }
        }
    }

    fn insert_signal(
        &self,
        batch: &mut Batch,
        header: RelationSignalRevisionHeader,
        payload: RelationSignalPayload,
        previous_evaluator: Option<RelationEvaluatorId>,
    )
        ensures
            self@.after(final(batch)@) == self@.after(old(batch)@).with_signal(
                header,
                payload@,
                previous_evaluator,
            ),
    {
        reveal(StoreModel::with_signal);
        batch.push(Write::PutSignal(RevisionKey { id: header.id.0, revision: header.revision }, header));
        batch.push(Write::PutSignalHead(header.id, header.revision));
        batch.push(Write::PutSignalPayload(header.id, payload));
        if header.previous_revision.is_none() {
            self.file_signal(batch, header);
        }
        self.move_signal(batch, header, previous_evaluator);
        batch.push(
            Write::PutSignalByEvaluator(
                OwnerIndexKey { owner: header.evaluator.id.0, id: header.id.0 },
            ),
        );
    }

    fn put_signal(
        &self,
        batch: &mut Batch,
        operation: OperationContext,
        wanted: &NewRelationSignalBatch,
        heads: &Vec<RelationHeadWeight>,
        signal: &NewRelationSignal,
        new_id: Ulid,
        recorded_at_ms: i64,
    ) -> (r: MemoryResult<RelationSignalReceipt>)
        ensures
            steps(
                self@,
                final(batch)@,
                r,
                self@.signal_put(
                    self@.after(old(batch)@),
                    operation,
                    wanted@,
                    heads@,
                    signal@,
                    new_id,
                    recorded_at_ms,
                ),
            ),
    {
        reveal(StoreModel::signal_put);
        if !check_scores_enabled(&signal.scores, heads) {
            return Err(MemoryError::InvalidInput(InputFault::SignalDimensionDisabled));
        }
        self.require_current_pin(signal.from)?;
        self.require_current_pin(signal.to)?;
        let slot = self.signal_slot(
            wanted.profile.id,
            signal.from.record,
            signal.to.record,
            signal.expected_signal,
            new_id,
        )?;
        let next: Option<u64> = match slot.1 {
            None => Some(1),
            Some(revision) => revision.checked_add(1),
        };
        let revision: u64 = match next {
            Some(revision) => revision,
            None => return Err(MemoryError::Corrupt(CorruptFault::SignalRevisionOverflow)),
        };
        let header = RelationSignalRevisionHeader {
            id: slot.0,
            revision,
            previous_revision: slot.1,
            evaluator: wanted.evaluator,
            profile: wanted.profile,
            from: signal.from,
            to: signal.to,
            state: RecordState::Active,
            recorded_at_ms,
            operation_id: operation.id,
        };
        let payload = RelationSignalPayload {
            revision,
            scores: copies(&signal.scores),
            provenance_digest: signal.provenance_digest,
        };
        self.insert_signal(batch, header, payload, slot.2);
        Ok(
            RelationSignalReceipt {
                pin: RelationSignalPin { id: slot.0, revision },
                state: RecordState::Active,
            },
        )
    }

    /// What putting signals would do with the given instant and identifiers. `request`
    /// encodes the normal form of the input.
    pub fn plan_put_relation_signals(
        &self,
        operation: OperationContext,
        input: &NewRelationSignalBatch,
        request: &[u8],
        fresh: &Fresh,
    ) -> (r: MemoryResult<Planned<RelationSignalBatchReceipt>>)
        requires
            fresh.ids@.len() == input.signals@.len() + 1,
        ensures
            plans(self@, r, self@.put_relation_signals(operation, input@, request@, fresh@)),
    {
        let wanted = normalize_signals(operation.actor, input)?;
        proof {
            reveal(signals_request);
            assert(views(wanted.signals@).len() == views(input.signals@).len());
        }
        let digest = mutation_digest(&self.digest_key, "put_relation_signals", operation.actor, request);
        let mut batch = Batch::new();
        match self.replayed_operation(operation.id, digest)? {
            Some(Receipt::Signals(receipt)) => {
                return Ok(Planned { batch, receipt });
            },
            Some(_) => {
                return Err(MemoryError::Corrupt(CorruptFault::ReceiptShape));
            },
            None => {},
        }
        let heads = self.signal_heads(wanted.evaluator, wanted.profile)?;
        let receipts = self.put_signals(&mut batch, operation, &wanted, &heads, fresh)?;
        let mut derived: Vec<DerivedRecordRef> = Vec::new();
        for i in 0..receipts.len()
            invariant
                derived@ == signal_subjects(receipts@.take(i as int)),
        {
            derived.push(DerivedRecordRef::RelationSignal(receipts[i].pin.id));
            assert(derived@ =~= signal_subjects(receipts@.take(i + 1)));
        }
        assert(receipts@.take(receipts@.len() as int) =~= receipts@);
        self.insert_audit(
            &mut batch,
            fresh.ids[0],
            operation,
            AuditAction::RelationSignalsPut,
            Vec::new(),
            derived,
            None,
            fresh.recorded_at_ms,
        );
        let receipt = RelationSignalBatchReceipt { signals: receipts };
        self.insert_operation(&mut batch, operation.id, digest, Receipt::Signals(receipt.replica()));
        Ok(Planned { batch, receipt })
    }

    fn put_signals(
        &self,
        batch: &mut Batch,
        operation: OperationContext,
        wanted: &NewRelationSignalBatch,
        heads: &Vec<RelationHeadWeight>,
        fresh: &Fresh,
    ) -> (r: MemoryResult<Vec<RelationSignalReceipt>>)
        requires
            fresh.ids@.len() == wanted.signals@.len() + 1,
            self@.after(old(batch)@) == self@,
        ensures
            match (r, self@.signals_put(operation, wanted@, heads@, fresh@, wanted@.signals.len())) {
                (Ok(receipts), Ok((after, owed))) => self@.after(final(batch)@) == after && receipts@ == owed,
                (Err(error), Err(refusal)) => error == refusal,
                _ => false,
            },
    {
        let mut receipts: Vec<RelationSignalReceipt> = Vec::new();
        let drawn: usize = fresh.ids.len();
        for i in 0..wanted.signals.len()
            invariant
                drawn == fresh.ids@.len(),
                fresh.ids@.len() == wanted.signals@.len() + 1,
                self@.signals_put(operation, wanted@, heads@, fresh@, i as nat) == Ok::<
                    (StoreModel, Seq<RelationSignalReceipt>),
                    MemoryError,
                >((self@.after(batch@), receipts@)),
        {
            assert(wanted@.signals[i as int] == wanted.signals@[i as int]@);
            match self.put_signal(
                batch,
                operation,
                wanted,
                heads,
                &wanted.signals[i],
                fresh.ids[i + 1],
                fresh.recorded_at_ms,
            ) {
                Err(error) => {
                    proof {
                        signals_put_refusal_persists(
                            self@,
                            operation,
                            wanted@,
                            heads@,
                            fresh@,
                            (i + 1) as nat,
                            wanted@.signals.len(),
                        );
                    }
                    return Err(error);
                },
                Ok(receipt) => {
                    receipts.push(receipt);
                },
            }
        }
        assert(wanted@.signals.len() == wanted.signals@.len());
        Ok(receipts)
    }

    /// Puts signals for directed pairs of records at their present revisions, each new or
    /// a revision of the one that is expected there.
    pub fn put_relation_signals(
        &mut self,
        operation: OperationContext,
        input: NewRelationSignalBatch,
        request: &[u8],
    ) -> (r: MemoryResult<RelationSignalBatchReceipt>)
        ensures
            exists|fresh: FreshModel|
                #[trigger] commits(
                    old(self)@,
                    final(self)@,
                    r,
                    old(self)@.put_relation_signals(operation, input@, request@, fresh),
                ),
    {
        let n: usize = input.signals.len();
        if n > MAX_RELATION_SIGNAL_BATCH {
            let refused: MemoryResult<RelationSignalBatchReceipt> = if operation.actor != Actor::System {
                Err(MemoryError::Unauthorized)
            } else {
                Err(MemoryError::InvalidInput(InputFault::SignalBatchSize))
            };
            proof {
                reveal(signals_request);
                let fresh = FreshModel { recorded_at_ms: 0, ids: Seq::empty() };
                assert(commits(
                    old(self)@,
                    self@,
                    refused,
                    old(self)@.put_relation_signals(operation, input@, request@, fresh),
                ));
            }
            return refused;
        }
        let fresh = Fresh::draw(n + 1);
        let planned = self.plan_put_relation_signals(operation, &input, request, &fresh);
        let r = self.commit(planned);
        assert(commits(
            old(self)@,
            self@,
            r,
            old(self)@.put_relation_signals(operation, input@, request@, fresh@),
        ));
        r
    }

    fn source_availability(&self, source: RecordRevisionPin) -> (r: MemoryResult<RelationSignalAvailability>)
        ensures
            r == self@.source_availability(source),
    {
        reveal(StoreModel::source_availability);
        match self.record_scope_state_revision(source.record) {
            Err(MemoryError::NotFound(_)) => Ok(
                RelationSignalAvailability::Unavailable(RelationSignalUnavailableReason::MissingDependency),
            ),
            Err(error) => Err(error),
            Ok(standing) => {
                if standing.1 == RecordState::Purged {
                    Ok(
                        RelationSignalAvailability::Unavailable(
                            RelationSignalUnavailableReason::SourcePurged,
                        ),
                    )
                } else if standing.1 != RecordState::Active {
                    Ok(RelationSignalAvailability::Stale(RelationSignalStaleReason::SourceInactive))
                } else if standing.2 != source.revision {
                    Ok(RelationSignalAvailability::Stale(RelationSignalStaleReason::SourceAdvanced))
                } else {
                    Ok(RelationSignalAvailability::Available)
                }
            },
        }
    }

    fn definition_availability(&self, evaluator: RelationEvaluatorPin, profile: RelationProfilePin) -> (r:
        RelationSignalAvailability)
        ensures
            r == self@.definition_availability(evaluator, profile),
    {
        reveal(StoreModel::definition_availability);
        let current = match self.evaluator(evaluator.id, RevisionSelector::Head) {
            Some(record) => record.header,
            None => return RelationSignalAvailability::Unavailable(
                RelationSignalUnavailableReason::MissingDependency,
            ),
        };
        if current.state == RecordState::Purged {
            return RelationSignalAvailability::Unavailable(
                RelationSignalUnavailableReason::EvaluatorPurged,
            );
        }
        if current.state != RecordState::Active {
            return RelationSignalAvailability::Stale(RelationSignalStaleReason::EvaluatorInactive);
        }
        if current.revision != evaluator.revision {
            return RelationSignalAvailability::Stale(RelationSignalStaleReason::EvaluatorAdvanced);
        }
        let found = match self.profile(profile.id, RevisionSelector::Head) {
            Some(found) => found,
            None => return RelationSignalAvailability::Unavailable(
                RelationSignalUnavailableReason::MissingDependency,
            ),
        };
        if found.header.state == RecordState::Purged {
            return RelationSignalAvailability::Unavailable(
                RelationSignalUnavailableReason::ProfilePurged,
            );
        }
        if found.header.state != RecordState::Active {
            return RelationSignalAvailability::Stale(RelationSignalStaleReason::ProfileInactive);
        }
        if found.header.revision != profile.revision {
            return RelationSignalAvailability::Stale(RelationSignalStaleReason::ProfileAdvanced);
        }
        RelationSignalAvailability::Available
    }

    /// Whether a signal can be used.
    pub fn relation_signal_availability(&self, header: &RelationSignalRevisionHeader, has_scores: bool) -> (r:
        MemoryResult<RelationSignalAvailability>)
        ensures
            r == self@.signal_availability(*header, has_scores),
    {
        reveal(StoreModel::signal_availability);
        if header.state == RecordState::Purged {
            return Ok(
                RelationSignalAvailability::Unavailable(RelationSignalUnavailableReason::PayloadPurged),
            );
        }
        if !has_scores {
            return Ok(
                RelationSignalAvailability::Unavailable(
                    RelationSignalUnavailableReason::HistoricalPayloadUnavailable,
                ),
            );
        }
        let definitions = self.definition_availability(header.evaluator, header.profile);
        if definitions != RelationSignalAvailability::Available {
            return Ok(definitions);
        }
        let first = self.source_availability(header.from)?;
        if first != RelationSignalAvailability::Available {
            return Ok(first);
        }
        self.source_availability(header.to)
    }

    pub fn inspect_relation_signal(&self, id: RelationSignalId, selector: RevisionSelector) -> (r: MemoryResult<
        Option<RelationSignalRecord>,
    >)
        ensures
            shown_option(r) == self@.inspect_relation_signal(id, selector),
    {
        reveal(StoreModel::inspect_relation_signal);
        let revision: u64 = match selector {
            RevisionSelector::Exact(revision) => revision,
            RevisionSelector::Head => match self.relation_signal_heads.get(&id) {
                Some(revision) => *revision,
                None => return Ok(None),
            },
        };
        let header = match self.relation_signals.get(&RevisionKey { id: id.0, revision }) {
            Some(header) => *header,
            None => return Ok(None),
        };
        let payload = match self.relation_signal_payloads.get(&id) {
            Some(found) => if found.revision == revision {
                Some(found)
            } else {
                None
            },
            None => None,
        };
        let availability = self.relation_signal_availability(&header, payload.is_some())?;
        match payload {
            Some(found) => Ok(
                Some(
                    RelationSignalRecord {
                        header,
                        scores: Some(copies(&found.scores)),
                        provenance_digest: Some(found.provenance_digest),
                        availability,
                    },
                ),
            ),
            None => Ok(
                Some(
                    RelationSignalRecord { header, scores: None, provenance_digest: None, availability },
                ),
            ),
        }
    }
}

} // verus!
