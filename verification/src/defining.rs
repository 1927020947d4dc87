//! Evaluators, profiles and the signals made under them: who defines them and how, and
//! when a signal can be relied on.

use vstd::prelude::*;
use crate::context::OperationContext;
use crate::definitions::{
    changed_state, head_dimensions, revision_after, unit_range, weights_in_range,
};
use crate::fault::{MemoryError, MemoryResult};
use crate::grounds::lists_are_as_long;
use crate::ids::{
    ActivationTraceId, OperationId, RelationEvaluatorId, RelationProfileId, RelationSignalId,
    Ulid,
};
use crate::inspect::{lookup, revision_of};
use crate::keys::{OwnerIndexKey, PairKey, RecordIndexKey};
use crate::order::in_order;
use crate::records::evidence::{Actor, RecordRef, RecordState, RevisionSelector};
use crate::records::recall::RecordRevisionPin;
use crate::records::relation::{
    DerivedDefinitionStateChange, NewRelationEvaluatorRevisionModel,
    NewRelationProfileRevisionModel, NewRelationSignalBatchModel, NewRelationSignalModel,
    RelationDimensionScore, RelationEvaluatorPin, RelationHeadWeight, RelationProfilePin,
    RelationSignalAvailability, RelationSignalPayloadModel, RelationSignalPin,
    RelationSignalReceipt, RelationSignalRevisionHeader, RelationSignalStaleReason,
    RelationSignalUnavailableReason,
};
use crate::signals::{
    score_dimensions, scores_enabled, scores_in_range, signal_fault, signal_pair, signals_fault,
    signals_request, weighed,
};
use crate::store::StoreModel;

verus! {

/// Items are all different if and only if their set is as large as their list is long.
pub proof fn distinct_items_are_counted<A>(items: Seq<A>)
    ensures
        items.to_set().finite(),
        items.to_set().len() == items.len() <==> items.no_duplicates(),
{
    vstd::seq_lib::seq_to_set_is_finite(items);
    if items.no_duplicates() {
        items.unique_seq_to_set();
    }
    if items.to_set().len() == items.len() {
        items.lemma_no_dup_set_cardinality();
    }
}

/// An evaluator is put by the operator, with a schema version that is not zero and one to
/// 16 different dimensions. It is taken up with its dimensions in order and as it was put
/// otherwise.
pub proof fn evaluators_are_heard(actor: Actor, input: NewRelationEvaluatorRevisionModel)
    ensures
        StoreModel::evaluator_request(actor, input) is Ok <==> {
            &&& actor is Operator
            &&& input.schema_version >= 1
            &&& 1 <= input.dimensions.len() <= 16
            &&& input.dimensions.no_duplicates()
        },
        StoreModel::evaluator_request(actor, input) matches Ok(wanted) ==> {
            &&& wanted.dimensions.to_set() == input.dimensions.to_set()
            &&& wanted.dimensions.len() == input.dimensions.len()
            &&& wanted == (NewRelationEvaluatorRevisionModel { dimensions: wanted.dimensions, ..input })
        },
        !(actor is Operator) ==> StoreModel::evaluator_request(actor, input) == Err::<
            NewRelationEvaluatorRevisionModel,
            MemoryError,
        >(MemoryError::Unauthorized),
{
    reveal(StoreModel::evaluator_request);
    distinct_items_are_counted(input.dimensions);
    lists_are_as_long(input.dimensions.to_set());
}

/// A definition is revised by those who saw its current revision: the first revision is
/// put where there is none, and a further one where the expected revision is the current
/// one and is active.
pub proof fn definitions_are_revised_in_turn(
    s: StoreModel,
    evaluator: RelationEvaluatorId,
    profile: RelationProfileId,
    expected: Option<u64>,
)
    ensures
        s.evaluator_conflict(evaluator, expected) is None <==> match expected {
            None => !s.relation_evaluator_heads.contains_key(evaluator),
            Some(revision) => {
                &&& s.relation_evaluator_heads.contains_key(evaluator)
                &&& s.relation_evaluator_heads[evaluator] == revision
                &&& lookup(s.relation_evaluators, revision_of(evaluator.0, revision)) matches Some(header)
                    && header.state == RecordState::Active
            },
        },
        s.profile_conflict(profile, expected) is None <==> match expected {
            None => !s.relation_profile_heads.contains_key(profile),
            Some(revision) => {
                &&& s.relation_profile_heads.contains_key(profile)
                &&& s.relation_profile_heads[profile] == revision
                &&& lookup(s.relation_profiles, revision_of(profile.0, revision)) matches Some(header) && header.state
                    == RecordState::Active
            },
        },
        expected is None ==> revision_after(expected) == Some(1u64),
        expected matches Some(revision) ==> (revision < u64::MAX ==> revision_after(expected) == Some(
            (revision + 1) as u64,
        )),
{
    reveal(StoreModel::evaluator_conflict);
    reveal(StoreModel::profile_conflict);
}

/// The dimensions that weights are for are all different.
pub open spec fn heads_differ(heads: Seq<RelationHeadWeight>) -> bool {
    forall|i: int, j: int|
        0 <= i < j < heads.len() ==> (#[trigger] heads[i]).dimension != (#[trigger] heads[j]).dimension
}

/// A profile is put by the operator, with one to 16 weights, each for another dimension
/// and between minus one and one. It is taken up with its weights in order and as it was
/// put otherwise.
pub proof fn profiles_are_heard(actor: Actor, input: NewRelationProfileRevisionModel)
    ensures
        StoreModel::profile_request(actor, input) is Ok <==> {
            &&& actor is Operator
            &&& 1 <= input.heads.len() <= 16
            &&& heads_differ(input.heads)
            &&& forall|i: int|
                0 <= i < input.heads.len() ==> -1_000_000 <= (#[trigger] input.heads[i]).weight_micros <= 1_000_000
        },
        StoreModel::profile_request(actor, input) matches Ok(wanted) ==> {
            &&& wanted.heads.to_set() == input.heads.to_set()
            &&& wanted.heads.no_duplicates()
            &&& wanted == (NewRelationProfileRevisionModel { heads: wanted.heads, ..input })
        },
{
    reveal(StoreModel::profile_request);
    let dimensions = head_dimensions(input.heads);
    distinct_items_are_counted(dimensions);
    lists_are_as_long(dimensions.to_set());
    vstd::seq_lib::seq_to_set_is_finite(input.heads);
    lists_are_as_long(input.heads.to_set());
    if heads_differ(input.heads) {
        assert(dimensions.no_duplicates()) by {
            assert forall|i: int, j: int| 0 <= i < dimensions.len() && 0 <= j < dimensions.len() && i
                != j implies dimensions[i] != dimensions[j] by {
                if i < j {
                    assert(input.heads[i].dimension != input.heads[j].dimension);
                } else {
                    assert(input.heads[j].dimension != input.heads[i].dimension);
                }
            }
        }
    } else {
        let (i, j) = choose|i: int, j: int|
            0 <= i < j < input.heads.len() && (#[trigger] input.heads[i]).dimension == (
            #[trigger] input.heads[j]).dimension;
        assert(dimensions[i] == dimensions[j]);
        assert(!dimensions.no_duplicates());
    }
    assert(weights_in_range(input.heads) <==> forall|i: int|
        0 <= i < input.heads.len() ==> -1_000_000 <= (#[trigger] input.heads[i]).weight_micros <= 1_000_000) by {
        if weights_in_range(input.heads) {
            assert forall|i: int| 0 <= i < input.heads.len() implies -1_000_000 <= (
            #[trigger] input.heads[i]).weight_micros <= 1_000_000 by {
                assert(unit_range(input.heads[i].weight_micros));
            }
        }
    }
}

/// A profile weighs what its evaluator declares: the evaluator is there, at the revision
/// that the profile names, active, and has a dimension for each weight.
pub proof fn profiles_weigh_what_is_declared(
    s: StoreModel,
    pin: RelationEvaluatorPin,
    heads: Seq<RelationHeadWeight>,
)
    ensures
        s.profile_evaluator_fault(pin, heads) is None <==> {
            &&& s.evaluator_at(pin.id, RevisionSelector::Head) matches Some(evaluator)
            &&& evaluator.revision == pin.revision && evaluator.state == RecordState::Active
            &&& forall|i: int|
                0 <= i < heads.len() ==> evaluator.dimensions.contains((#[trigger] heads[i]).dimension)
        },
{
    reveal(StoreModel::profile_evaluator_fault);
}

/// A profile is available if and only if it is active and its evaluator is still the
/// current revision and active.
pub proof fn profiles_depend_on_their_evaluators(s: StoreModel, state: RecordState, pin: RelationEvaluatorPin)
    ensures
        s.profile_availability(state, pin) is Available <==> {
            &&& state == RecordState::Active
            &&& s.evaluator_at(pin.id, RevisionSelector::Head) matches Some(evaluator)
            &&& evaluator.revision == pin.revision && evaluator.state == RecordState::Active
        },
        s.profile_availability(state, pin) is Inactive <==> state != RecordState::Active,
        s.profile_availability(state, pin) is UnavailableEvaluator <==> state == RecordState::Active
            && s.evaluator_at(pin.id, RevisionSelector::Head) is None,
{
    reveal(StoreModel::profile_availability);
}

/// What is at the head is the revision that the head names, and what is at a revision is
/// that revision, whether it is the head or not.
pub proof fn selectors_select(s: StoreModel, evaluator: RelationEvaluatorId, profile: RelationProfileId, revision: u64)
    ensures
        s.evaluator_at(evaluator, RevisionSelector::Exact(revision)) == lookup(
            s.relation_evaluators,
            revision_of(evaluator.0, revision),
        ),
        lookup(s.relation_evaluator_heads, evaluator) == Some(revision) ==> s.evaluator_at(
            evaluator,
            RevisionSelector::Head,
        ) == s.evaluator_at(evaluator, RevisionSelector::Exact(revision)),
        !s.relation_evaluator_heads.contains_key(evaluator) ==> s.evaluator_at(evaluator, RevisionSelector::Head)
            is None,
        lookup(s.relation_profile_heads, profile) == Some(revision) ==> s.profile_at(profile, RevisionSelector::Head)
            == s.profile_at(profile, RevisionSelector::Exact(revision)),
        !s.relation_profile_heads.contains_key(profile) ==> s.profile_at(profile, RevisionSelector::Head) is None,
        s.profile_at(profile, RevisionSelector::Exact(revision)) matches Some(found) ==> found.header
            == s.relation_profiles[revision_of(profile.0, revision)] && found.availability == s.profile_availability(
            found.header.state,
            found.header.evaluator,
        ),
{
    reveal(StoreModel::evaluator_at);
    reveal(StoreModel::profile_at);
}

/// A definition is closed at the revision that the operator saw, and not again: one that
/// is purged stays so, and one that is in the state already is not brought there once
/// more.
pub proof fn definitions_are_closed_once(
    s: StoreModel,
    evaluator: RelationEvaluatorPin,
    profile: RelationProfilePin,
    change: DerivedDefinitionStateChange,
)
    ensures
        s.closable_evaluator(evaluator, changed_state(change)) is Ok ==> {
            &&& lookup(s.relation_evaluator_heads, evaluator.id) == Some(evaluator.revision) || evaluator.revision
                == 0
            &&& lookup(s.relation_evaluators, revision_of(evaluator.id.0, evaluator.revision)) matches Some(header)
                && header.state != RecordState::Purged && (change is Retract ==> header.state != RecordState::Retracted)
        },
        lookup(s.relation_evaluator_heads, evaluator.id) == Some(evaluator.revision) && evaluator.revision < u64::MAX
            && s.relation_evaluators.contains_key(revision_of(evaluator.id.0, evaluator.revision)) && s.relation_evaluators[revision_of(
            evaluator.id.0,
            evaluator.revision,
        )].state == RecordState::Active ==> s.closable_evaluator(evaluator, changed_state(change)) is Ok,
        s.closable_profile(profile, changed_state(change)) is Ok ==> {
            &&& lookup(s.relation_profile_heads, profile.id) == Some(profile.revision) || profile.revision == 0
            &&& lookup(s.relation_profiles, revision_of(profile.id.0, profile.revision)) matches Some(header)
                && header.state != RecordState::Purged && (change is Retract ==> header.state != RecordState::Retracted)
        },
        lookup(s.relation_profile_heads, profile.id) == Some(profile.revision) && profile.revision < u64::MAX
            && s.relation_profiles.contains_key(revision_of(profile.id.0, profile.revision))
            && s.relation_profiles[revision_of(profile.id.0, profile.revision)].state == RecordState::Active
            ==> s.closable_profile(profile, changed_state(change)) is Ok,
        changed_state(DerivedDefinitionStateChange::Retract) == RecordState::Retracted,
        changed_state(DerivedDefinitionStateChange::Purge) == RecordState::Purged,
{
    reveal(StoreModel::closable_evaluator);
    reveal(StoreModel::closable_profile);
}

/// A retracted definition leaves the signals and traces made under it as they are; a
/// purged one silences them.
pub proof fn retractions_silence_nothing(
    s: StoreModel,
    staged: StoreModel,
    signal_index: Map<OwnerIndexKey, ()>,
    trace_index: Map<OwnerIndexKey, ()>,
    owner: Ulid,
    operation_id: OperationId,
    recorded_at_ms: i64,
)
    ensures
        s.owner_purged(
            staged,
            DerivedDefinitionStateChange::Retract,
            signal_index,
            trace_index,
            owner,
            operation_id,
            recorded_at_ms,
        ) == MemoryResult::Ok((staged, Seq::<RelationSignalPin>::empty(), Seq::<ActivationTraceId>::empty())),
{
    reveal(StoreModel::owner_purged);
}

/// Whether scores are one to 16, each for another dimension and between minus one and one.
pub open spec fn scores_make_sense(scores: Seq<RelationDimensionScore>) -> bool {
    &&& 1 <= scores.len() <= 16
    &&& forall|i: int, j: int|
        0 <= i < j < scores.len() ==> (#[trigger] scores[i]).dimension != (#[trigger] scores[j]).dimension
    &&& forall|i: int| 0 <= i < scores.len() ==> -1_000_000 <= (#[trigger] scores[i]).score_micros <= 1_000_000
}

proof fn scores_are_checked(signals: Seq<NewRelationSignalModel>, i: int)
    requires
        0 <= i < signals.len(),
    ensures
        signal_fault(signals, i) is None <==> {
            &&& signals[i].from.record != signals[i].to.record
            &&& forall|j: int|
                0 <= j < i ==> (#[trigger] signals[j]).from.record != signals[i].from.record || signals[j].to.record
                    != signals[i].to.record
            &&& scores_make_sense(signals[i].scores)
        },
{
    let scores = signals[i].scores;
    let dimensions = score_dimensions(scores);
    distinct_items_are_counted(dimensions);
    lists_are_as_long(dimensions.to_set());
    let differ = forall|a: int, b: int|
        0 <= a < b < scores.len() ==> (#[trigger] scores[a]).dimension != (#[trigger] scores[b]).dimension;
    if differ {
        assert(dimensions.no_duplicates()) by {
            assert forall|a: int, b: int| 0 <= a < dimensions.len() && 0 <= b < dimensions.len() && a
                != b implies dimensions[a] != dimensions[b] by {
                if a < b {
                    assert(scores[a].dimension != scores[b].dimension);
                } else {
                    assert(scores[b].dimension != scores[a].dimension);
                }
            }
        }
    } else {
        let (a, b) = choose|a: int, b: int|
            0 <= a < b < scores.len() && (#[trigger] scores[a]).dimension == (#[trigger] scores[b]).dimension;
        assert(dimensions[a] == dimensions[b]);
        assert(!dimensions.no_duplicates());
    }
    assert(scores_in_range(scores) <==> forall|a: int|
        0 <= a < scores.len() ==> -1_000_000 <= (#[trigger] scores[a]).score_micros <= 1_000_000) by {
        if scores_in_range(scores) {
            assert forall|a: int| 0 <= a < scores.len() implies -1_000_000 <= (#[trigger] scores[a]).score_micros
                <= 1_000_000 by {
                assert(unit_range(scores[a].score_micros));
            }
        }
    }
    let repeated = exists|j: int| 0 <= j < i && signal_pair(#[trigger] signals[j]) == signal_pair(signals[i]);
    let apart = forall|j: int|
        0 <= j < i ==> (#[trigger] signals[j]).from.record != signals[i].from.record || signals[j].to.record
            != signals[i].to.record;
    if repeated {
        let j = choose|j: int| 0 <= j < i && signal_pair(#[trigger] signals[j]) == signal_pair(signals[i]);
        assert(signals[j].from.record == signals[i].from.record);
    }
    if !apart {
        let j = choose|j: int|
            0 <= j < i && !((#[trigger] signals[j]).from.record != signals[i].from.record || signals[j].to.record
                != signals[i].to.record);
        assert(signal_pair(signals[j]) == signal_pair(signals[i]));
    }
    assert(repeated <==> !apart);
}

proof fn signals_are_checked(signals: Seq<NewRelationSignalModel>, n: nat)
    requires
        n <= signals.len(),
    ensures
        signals_fault(signals, n) is None <==> forall|i: int|
            0 <= i < n ==> signal_fault(signals, i) is None && #[trigger] signals[i] == signals[i],
    decreases n,
{
    if n > 0 {
        signals_are_checked(signals, (n - 1) as nat);
        if signals_fault(signals, n) is None {
            assert forall|i: int| 0 <= i < n implies signal_fault(signals, i) is None && #[trigger] signals[i]
                == signals[i] by {
                if i < n - 1 {
                    assert(signals[i] == signals[i]);
                }
            }
        } else {
            assert(signals[n - 1] == signals[n - 1]);
        }
    }
}

/// Signals are put by the system, one to 1024 at a time. Each leads from one record to
/// another, no two lead from the same record to the same record, and each has scores that
/// make sense. They are taken up as they were put, with the scores of each in order.
pub proof fn signals_are_heard(actor: Actor, input: NewRelationSignalBatchModel)
    ensures
        signals_request(actor, input) is Ok <==> {
            &&& actor is System
            &&& 1 <= input.signals.len() <= 1_024
            &&& forall|i: int|
                0 <= i < input.signals.len() ==> (#[trigger] input.signals[i]).from.record
                    != input.signals[i].to.record && scores_make_sense(input.signals[i].scores)
            &&& forall|i: int, j: int|
                0 <= j < i < input.signals.len() ==> (#[trigger] input.signals[j]).from.record != (
                #[trigger] input.signals[i]).from.record || input.signals[j].to.record != input.signals[i].to.record
        },
        signals_request(actor, input) matches Ok(wanted) ==> {
            &&& wanted.evaluator == input.evaluator && wanted.profile == input.profile
            &&& wanted.signals.len() == input.signals.len()
            &&& forall|i: int|
                0 <= i < input.signals.len() ==> (#[trigger] wanted.signals[i]).from == input.signals[i].from
                    && wanted.signals[i].to == input.signals[i].to && wanted.signals[i].expected_signal
                    == input.signals[i].expected_signal && wanted.signals[i].provenance_digest
                    == input.signals[i].provenance_digest && wanted.signals[i].scores == in_order(
                    input.signals[i].scores.to_set(),
                )
        },
{
    reveal(signals_request);
    let signals = input.signals;
    signals_are_checked(signals, signals.len());
    if signals_fault(signals, signals.len()) is None {
        assert forall|i: int| 0 <= i < signals.len() implies (#[trigger] signals[i]).from.record != signals[i].to.record
            && scores_make_sense(signals[i].scores) by {
            scores_are_checked(signals, i);
        }
        assert forall|i: int, j: int| 0 <= j < i < signals.len() implies (#[trigger] signals[j]).from.record != (
        #[trigger] signals[i]).from.record || signals[j].to.record != signals[i].to.record by {
            scores_are_checked(signals, i);
        }
    } else {
        let i = choose|i: int|
            0 <= i < signals.len() && !(signal_fault(signals, i) is None && #[trigger] signals[i] == signals[i]);
        scores_are_checked(signals, i);
    }
}

/// Signals are made under what is in force: the evaluator and the profile are the current
/// revisions, the evaluator is active, and the profile is available and for it. They are
/// scored in the dimensions that the profile weighs.
pub proof fn signals_are_made_under_what_is_in_force(
    s: StoreModel,
    evaluator: RelationEvaluatorPin,
    profile: RelationProfilePin,
    scores: Seq<RelationDimensionScore>,
    heads: Seq<RelationHeadWeight>,
)
    ensures
        s.signal_heads(evaluator, profile) is Ok <==> {
            &&& s.evaluator_at(evaluator.id, RevisionSelector::Head) matches Some(current)
            &&& current.revision == evaluator.revision && current.state == RecordState::Active
            &&& s.profile_at(profile.id, RevisionSelector::Head) matches Some(found)
            &&& found.header.revision == profile.revision
            &&& found.availability is Available
            &&& found.header.evaluator == evaluator
        },
        s.signal_heads(evaluator, profile) matches Ok(found) ==> found == s.profile_at(
            profile.id,
            RevisionSelector::Head,
        )->Some_0.header.heads,
        scores_enabled(scores, heads) <==> forall|i: int|
            0 <= i < scores.len() ==> exists|j: int|
                0 <= j < heads.len() && (#[trigger] heads[j]).dimension == (#[trigger] scores[i]).dimension,
{
    reveal(StoreModel::signal_heads);
    if scores_enabled(scores, heads) {
        assert forall|i: int| 0 <= i < scores.len() implies exists|j: int|
            0 <= j < heads.len() && (#[trigger] heads[j]).dimension == (#[trigger] scores[i]).dimension by {
            assert(weighed(heads, scores[i].dimension));
        }
    } else {
        let i = choose|i: int| 0 <= i < scores.len() && !weighed(heads, (#[trigger] scores[i]).dimension);
        assert(!(exists|j: int| 0 <= j < heads.len() && (#[trigger] heads[j]).dimension == scores[i].dimension));
    }
}

/// A record that a signal is put for, or an activation considers, is at the pinned
/// revision and active.
pub proof fn pins_are_current(s: StoreModel, pin: RecordRevisionPin)
    ensures
        s.pin_fault(pin) is None <==> (s.standing(pin.record) matches Ok((_, state, revision)) && state
            == RecordState::Active && revision == pin.revision),
{
    reveal(StoreModel::pin_fault);
}

/// A signal is available if and only if it was not purged and has its scores, its
/// evaluator and its profile are the current revisions and active, and both records are
/// active and at the revisions that it was made of.
pub proof fn signals_are_available_while_all_stands(
    s: StoreModel,
    header: RelationSignalRevisionHeader,
    has_scores: bool,
)
    ensures
        s.signal_availability(header, has_scores) == MemoryResult::Ok(RelationSignalAvailability::Available) <==> {
            &&& header.state != RecordState::Purged
            &&& has_scores
            &&& s.evaluator_at(header.evaluator.id, RevisionSelector::Head) matches Some(evaluator)
            &&& evaluator.state == RecordState::Active && evaluator.revision == header.evaluator.revision
            &&& s.profile_at(header.profile.id, RevisionSelector::Head) matches Some(profile)
            &&& profile.header.state == RecordState::Active && profile.header.revision == header.profile.revision
            &&& s.standing(header.from.record) matches Ok((_, from_state, from_revision))
            &&& from_state == RecordState::Active && from_revision == header.from.revision
            &&& s.standing(header.to.record) matches Ok((_, to_state, to_revision))
            &&& to_state == RecordState::Active && to_revision == header.to.revision
        },
{
    reveal(StoreModel::signal_availability);
    reveal(StoreModel::definition_availability);
    reveal(StoreModel::source_availability);
}

/// A signal that is not available says why: what was purged makes it unavailable, and
/// what was revised or withdrawn makes it stale. The signal's own payload comes first, then
/// the evaluator, then the profile, then the record that it leads from, then the one that
/// it leads to.
pub proof fn unavailable_signals_say_why(
    s: StoreModel,
    evaluator: RelationEvaluatorPin,
    profile: RelationProfilePin,
    source: RecordRevisionPin,
)
    ensures
        s.evaluator_at(evaluator.id, RevisionSelector::Head) matches Some(current) ==> (current.state
            == RecordState::Purged ==> s.definition_availability(evaluator, profile)
            == RelationSignalAvailability::Unavailable(RelationSignalUnavailableReason::EvaluatorPurged)),
        s.evaluator_at(evaluator.id, RevisionSelector::Head) matches Some(current) ==> ((current.state
            == RecordState::Retracted) ==> s.definition_availability(evaluator, profile)
            == RelationSignalAvailability::Stale(RelationSignalStaleReason::EvaluatorInactive)),
        s.evaluator_at(evaluator.id, RevisionSelector::Head) matches Some(current) ==> (current.state
            == RecordState::Active && current.revision != evaluator.revision ==> s.definition_availability(
            evaluator,
            profile,
        ) == RelationSignalAvailability::Stale(RelationSignalStaleReason::EvaluatorAdvanced)),
        s.evaluator_at(evaluator.id, RevisionSelector::Head) matches Some(current) ==> (current.state
            == RecordState::Active && current.revision == evaluator.revision ==> match s.profile_at(
            profile.id,
            RevisionSelector::Head,
        ) {
            Some(found) => if found.header.state == RecordState::Purged {
                s.definition_availability(evaluator, profile) == RelationSignalAvailability::Unavailable(
                    RelationSignalUnavailableReason::ProfilePurged,
                )
            } else if found.header.state != RecordState::Active {
                s.definition_availability(evaluator, profile) == RelationSignalAvailability::Stale(
                    RelationSignalStaleReason::ProfileInactive,
                )
            } else {
                found.header.revision != profile.revision ==> s.definition_availability(evaluator, profile)
                    == RelationSignalAvailability::Stale(RelationSignalStaleReason::ProfileAdvanced)
            },
            None => s.definition_availability(evaluator, profile) == RelationSignalAvailability::Unavailable(
                RelationSignalUnavailableReason::MissingDependency,
            ),
        }),
        s.standing(source.record) matches Ok((_, state, revision)) ==> s.source_availability(source)
            == MemoryResult::Ok(
            if state == RecordState::Active && revision == source.revision {
                RelationSignalAvailability::Available
            } else if state == RecordState::Active {
                RelationSignalAvailability::Stale(RelationSignalStaleReason::SourceAdvanced)
            } else if state == RecordState::Purged {
                RelationSignalAvailability::Unavailable(RelationSignalUnavailableReason::SourcePurged)
            } else {
                RelationSignalAvailability::Stale(RelationSignalStaleReason::SourceInactive)
            },
        ),
        s.standing(source.record) matches Err(MemoryError::NotFound(_)) ==> s.source_availability(source)
            == MemoryResult::Ok(
            RelationSignalAvailability::Unavailable(RelationSignalUnavailableReason::MissingDependency),
        ),
{
    reveal(StoreModel::definition_availability);
    reveal(StoreModel::source_availability);
}

/// A signal is revised by those who saw its current revision: a pair of records has one
/// signal under a profile, which is new if there is none and none is expected, and is the
/// expected one otherwise, as long as it was not purged.
pub proof fn pairs_have_one_signal(
    s: StoreModel,
    profile: RelationProfileId,
    from: RecordRef,
    to: RecordRef,
    expected: Option<RelationSignalPin>,
    new_id: Ulid,
)
    ensures
        s.signal_slot(profile, from, to, expected, new_id) matches Ok((id, previous, _)) ==> match expected {
            None => {
                &&& !s.relation_signal_pairs.contains_key(PairKey { profile, from, to })
                &&& id.0 == new_id && previous is None
            },
            Some(pin) => {
                &&& lookup(s.relation_signal_pairs, PairKey { profile, from, to }) == Some(pin.id)
                &&& lookup(s.relation_signal_heads, pin.id) == Some(pin.revision)
                &&& id == pin.id && previous == Some(pin.revision)
                &&& lookup(s.relation_signals, revision_of(pin.id.0, pin.revision)) matches Some(current)
                    && current.state == RecordState::Active
            },
        },
        expected is None && !s.relation_signal_pairs.contains_key(PairKey { profile, from, to }) ==> s.signal_slot(
            profile,
            from,
            to,
            expected,
            new_id,
        ) is Ok,
{
    reveal(StoreModel::signal_slot);
}

/// A signal that is put is filed as it was put: at its revision, with its scores and where
/// they come from, under the evaluator and, the first time, under the pair, both records
/// and the profile.
pub proof fn put_signals_are_filed(
    s: StoreModel,
    header: RelationSignalRevisionHeader,
    payload: RelationSignalPayloadModel,
    previous_evaluator: Option<RelationEvaluatorId>,
)
    ensures
        ({
            let after = s.with_signal(header, payload, previous_evaluator);
            &&& lookup(after.relation_signal_heads, header.id) == Some(header.revision)
            &&& lookup(after.relation_signals, revision_of(header.id.0, header.revision)) == Some(header)
            &&& lookup(after.relation_signal_payloads, header.id) == Some(payload)
            &&& after.relation_signals_by_evaluator.contains_key(
                OwnerIndexKey { owner: header.evaluator.id.0, id: header.id.0 },
            )
            &&& previous_evaluator matches Some(old) ==> (old != header.evaluator.id ==> !after.relation_signals_by_evaluator.contains_key(OwnerIndexKey { owner: old.0, id: header.id.0 }))
            &&& header.previous_revision is None ==> {
                &&& lookup(
                    after.relation_signal_pairs,
                    PairKey { profile: header.profile.id, from: header.from.record, to: header.to.record },
                ) == Some(header.id)
                &&& after.relation_signals_by_record.contains_key(
                    RecordIndexKey { record: header.from.record, id: header.id.0 },
                )
                &&& after.relation_signals_by_record.contains_key(
                    RecordIndexKey { record: header.to.record, id: header.id.0 },
                )
                &&& after.relation_signals_by_profile.contains_key(
                    OwnerIndexKey { owner: header.profile.id.0, id: header.id.0 },
                )
            }
        }),
{
    broadcast use crate::writing::parts_after_put;
    reveal(StoreModel::with_signal);
    reveal(StoreModel::signal_filed);
    reveal(StoreModel::signal_moved);
}

/// A signal is put if and only if it is scored in dimensions that the profile weighs, both
/// records are as pinned, and the pair is free or its signal is the expected one. It is
/// answered as active, at the revision after the expected one.
pub proof fn signals_are_put_in_turn(
    s: StoreModel,
    staged: StoreModel,
    operation: OperationContext,
    wanted: NewRelationSignalBatchModel,
    heads: Seq<RelationHeadWeight>,
    signal: NewRelationSignalModel,
    new_id: Ulid,
    recorded_at_ms: i64,
    after: StoreModel,
    receipt: RelationSignalReceipt,
)
    requires
        s.signal_put(staged, operation, wanted, heads, signal, new_id, recorded_at_ms) == MemoryResult::Ok(
            (after, receipt),
        ),
    ensures
        scores_enabled(signal.scores, heads),
        s.standing(signal.from.record) matches Ok((_, state, revision)) && state == RecordState::Active && revision
            == signal.from.revision,
        s.standing(signal.to.record) matches Ok((_, state, revision)) && state == RecordState::Active && revision
            == signal.to.revision,
        receipt.state == RecordState::Active,
        signal.expected_signal is None ==> receipt.pin.id.0 == new_id && receipt.pin.revision == 1,
        signal.expected_signal matches Some(pin) ==> receipt.pin.id == pin.id && receipt.pin.revision == pin.revision
            + 1,
        lookup(after.relation_signals, revision_of(receipt.pin.id.0, receipt.pin.revision)) matches Some(header) && {
            &&& header.evaluator == wanted.evaluator && header.profile == wanted.profile
            &&& header.from == signal.from && header.to == signal.to
            &&& header.state == RecordState::Active && header.revision == receipt.pin.revision
            &&& header.operation_id == operation.id && header.recorded_at_ms == recorded_at_ms
        },
        lookup(after.relation_signal_payloads, receipt.pin.id) matches Some(payload) && {
            &&& payload.scores == signal.scores && payload.provenance_digest == signal.provenance_digest
            &&& payload.revision == receipt.pin.revision
        },
{
    reveal(StoreModel::signal_put);
    pins_are_current(s, signal.from);
    pins_are_current(s, signal.to);
    pairs_have_one_signal(
        s,
        wanted.profile.id,
        signal.from.record,
        signal.to.record,
        signal.expected_signal,
        new_id,
    );
    let (id, previous_revision, previous_evaluator) = s.signal_slot(
        wanted.profile.id,
        signal.from.record,
        signal.to.record,
        signal.expected_signal,
        new_id,
    )->Ok_0;
    let revision = revision_after(previous_revision)->Some_0;
    put_signals_are_filed(
        staged,
        RelationSignalRevisionHeader {
            id,
            revision,
            previous_revision,
            evaluator: wanted.evaluator,
            profile: wanted.profile,
            from: signal.from,
            to: signal.to,
            state: RecordState::Active,
            recorded_at_ms,
            operation_id: operation.id,
        },
        RelationSignalPayloadModel {
            revision,
            scores: signal.scores,
            provenance_digest: signal.provenance_digest,
        },
        previous_evaluator,
    );
}

/// What is inspected of a signal is its revision, with its scores only while they are of
/// that revision.
pub proof fn inspected_signals_are_told(s: StoreModel, id: RelationSignalId, revision: u64)
    ensures
        s.inspect_relation_signal(id, RevisionSelector::Exact(revision)) matches Ok(Some(found)) ==> {
            &&& lookup(s.relation_signals, revision_of(id.0, revision)) == Some(found.header)
            &&& found.scores is Some <==> (lookup(s.relation_signal_payloads, id) matches Some(payload)
                && payload.revision == revision)
            &&& found.provenance_digest is Some <==> found.scores is Some
            &&& found.scores matches Some(scores) ==> scores == s.relation_signal_payloads[id].scores
                && found.provenance_digest == Some(s.relation_signal_payloads[id].provenance_digest)
            &&& s.signal_availability(found.header, found.scores is Some) == MemoryResult::Ok(found.availability)
        },
        lookup(s.relation_signal_heads, id) == Some(revision) ==> s.inspect_relation_signal(id, RevisionSelector::Head)
            == s.inspect_relation_signal(id, RevisionSelector::Exact(revision)),
{
    reveal(StoreModel::inspect_relation_signal);
}

} // verus!
