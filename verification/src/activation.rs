//! Shadow activation: what relation signals would make of a recall case.
use vstd::prelude::*;
use crate::clock::{Fresh, FreshModel};
use crate::context::OperationContext;
use crate::digest::{index_digest, index_hash, mutation_digest, mutation_digest_of};
use crate::fault::{
    CorruptFault, InputFault, MemoryError, MemoryResult, SignalIndex, corrupt, invalid,
};
use crate::ids::{ActivationTraceId, RecallCaseId};
use crate::inspect::{lookup, shown_option};
use crate::keys::{OwnerIndexKey, PairKey, RecordIndexKey, listing_tag, word_span};
use crate::order::{Keyed, in_order, increasing, lists, sorted_distinct};
use crate::records::audit::{AuditAction, DerivedRecordRef};
use crate::records::evidence::{Actor, RecordRef, RecordState, RevisionSelector};
use crate::records::recall::{RecallCase, RecallCaseCandidate, RecordRevisionPin};
use crate::records::receipt::{Receipt, ReceiptModel};
use crate::records::relation::{
    ActivationCandidateTrace, ActivationContribution, ActivationTrace, ActivationTraceHeader,
    ActivationTraceModel, ActivationTracePayload, ActivationTracePayloadModel, RelationDimension,
    RelationDimensionScore, RelationEvaluatorPin, RelationHeadWeight, RelationProfileAvailability,
    RelationProfilePin, RelationSignalAvailability, RelationSignalPin, ShadowActivationRequest,
    ShadowActivationRequestModel,
};
use crate::staging::{Planned, commits, plans};
use crate::store::{Batch, MemoryDatabase, StoreModel, Write, WriteModel};
use crate::table::{Replica, copies, opt_view};

verus! {

pub const MAX_ACTIVATION_CANDIDATES: usize = 64;

pub const ACTIVATION_DOMAIN: u8 = 0x21;

/// Pins are listed by record, then by revision.
impl Keyed for RecordRevisionPin {
    open spec fn rank(&self) -> int {
        self.record.rank() * word_span() + self.revision
    }

    proof fn rank_is_injective(a: &Self, b: &Self) {
        RecordRef::rank_is_injective(&a.record, &b.record);
    }

    fn before(&self, other: &Self) -> (r: bool) {
        if self.record.before(&other.record) {
            true
        } else if other.record.before(&self.record) {
            false
        } else {
            self.revision < other.revision
        }
    }
}

/// The number of pins.
pub open spec fn pin_span() -> int {
    0x10_0000_0000_0000_0000_0000_0000_0000_0000_0000_0000_0000_0000int
}

proof fn pin_rank_fits(pin: RecordRevisionPin)
    ensures
        0 <= pin.rank() < pin_span(),
{
    assert(listing_tag(pin.record) < 16);
}

/// A candidate with its rank in the recall case.
#[derive(Clone, Copy, Debug, PartialEq, Eq, Structural)]
pub struct BaselinePin {
    pub baseline: u32,
    pub pin: RecordRevisionPin,
}

/// Candidates are listed by their rank in the recall case, then by pin.
impl Keyed for BaselinePin {
    open spec fn rank(&self) -> int {
        self.baseline * pin_span() + self.pin.rank()
    }

    proof fn rank_is_injective(a: &Self, b: &Self) {
        pin_rank_fits(a.pin);
        pin_rank_fits(b.pin);
        RecordRevisionPin::rank_is_injective(&a.pin, &b.pin);
    }

    fn before(&self, other: &Self) -> (r: bool) {
        proof {
            pin_rank_fits(self.pin);
            pin_rank_fits(other.pin);
        }
        if self.baseline < other.baseline {
            true
        } else if other.baseline < self.baseline {
            false
        } else {
            self.pin.before(&other.pin)
        }
    }
}

/// A candidate with what it was activated by.
#[derive(Clone, Copy, Debug, PartialEq, Eq, Structural)]
pub struct ShadowPin {
    pub total: i64,
    pub candidate: BaselinePin,
}

pub open spec fn candidate_span() -> int {
    0x10_0000_0000_0000_0000_0000_0000_0000_0000_0000_0000_0000_0000_0000_0000int
}

/// The highest activation comes first; among equals, the recall case decides.
impl Keyed for ShadowPin {
    open spec fn rank(&self) -> int {
        (i64::MAX - self.total) * candidate_span() + self.candidate.rank()
    }

    proof fn rank_is_injective(a: &Self, b: &Self) {
        pin_rank_fits(a.candidate.pin);
        pin_rank_fits(b.candidate.pin);
        BaselinePin::rank_is_injective(&a.candidate, &b.candidate);
    }

    fn before(&self, other: &Self) -> (r: bool) {
        proof {
            pin_rank_fits(self.candidate.pin);
            pin_rank_fits(other.candidate.pin);
        }
        if self.total > other.total {
            true
        } else if other.total > self.total {
            false
        } else {
            self.candidate.before(&other.candidate)
        }
    }
}

/// The rank that the first `n` candidates of a recall case give a pin; the last mention
/// decides.
pub open spec fn baseline_rank(candidates: Seq<RecallCaseCandidate>, pin: RecordRevisionPin, n: nat) -> Option<u32>
    decreases n,
{
    if n == 0 {
        None
    } else if candidates[n - 1].record == pin.record && candidates[n - 1].revision == pin.revision {
        Some(candidates[n - 1].rank)
    } else {
        baseline_rank(candidates, pin, (n - 1) as nat)
    }
}

fn find_baseline(candidates: &Vec<RecallCaseCandidate>, pin: RecordRevisionPin) -> (r: Option<u32>)
    ensures
        r == baseline_rank(candidates@, pin, candidates@.len()),
{
    let mut n: usize = candidates.len();
    while n > 0
        invariant
            n <= candidates@.len(),
            baseline_rank(candidates@, pin, candidates@.len()) == baseline_rank(candidates@, pin, n as nat),
        decreases n,
    {
        let candidate = candidates[n - 1];
        if candidate.record == pin.record && candidate.revision == pin.revision {
            return Some(candidate.rank);
        }
        n = n - 1;
    }
    None
}

/// The first `n` pins with their ranks in a recall case, if it has them all.
pub open spec fn baseline_pins(
    candidates: Seq<RecallCaseCandidate>,
    pins: Seq<RecordRevisionPin>,
    n: nat,
) -> Option<Seq<BaselinePin>>
    decreases n,
{
    if n == 0 {
        Some(Seq::empty())
    } else {
        match (
            baseline_pins(candidates, pins, (n - 1) as nat),
            baseline_rank(candidates, pins[n - 1], candidates.len()),
        ) {
            (Some(before), Some(baseline)) => Some(before.push(BaselinePin { baseline, pin: pins[n - 1] })),
            _ => None,
        }
    }
}

proof fn baseline_pins_missing_persists(
    candidates: Seq<RecallCaseCandidate>,
    pins: Seq<RecordRevisionPin>,
    n: nat,
    m: nat,
)
    requires
        n <= m,
        baseline_pins(candidates, pins, n) is None,
    ensures
        baseline_pins(candidates, pins, m) is None,
    decreases m,
{
    if n < m {
        baseline_pins_missing_persists(candidates, pins, n, (m - 1) as nat);
    }
}

fn find_baselines(candidates: &Vec<RecallCaseCandidate>, pins: &Vec<RecordRevisionPin>) -> (r: Option<
    Vec<BaselinePin>,
>)
    ensures
        opt_view(r) == baseline_pins(candidates@, pins@, pins@.len()),
{
    let mut found: Vec<BaselinePin> = Vec::new();
    for i in 0..pins.len()
        invariant
            baseline_pins(candidates@, pins@, i as nat) == Some(found@),
    {
        match find_baseline(candidates, pins[i]) {
            Some(baseline) => {
                found.push(BaselinePin { baseline, pin: pins[i] });
            },
            None => {
                proof {
                    baseline_pins_missing_persists(candidates@, pins@, (i + 1) as nat, pins@.len());
                }
                return None;
            },
        }
    }
    Some(found)
}

/// The pins of candidates.
pub open spec fn pins_of(candidates: Seq<BaselinePin>) -> Seq<RecordRevisionPin> {
    Seq::new(candidates.len(), |i: int| candidates[i].pin)
}

/// The weight that the first `n` heads give a dimension; the last mention decides.
pub open spec fn weight_of(heads: Seq<RelationHeadWeight>, dimension: RelationDimension, n: nat) -> Option<i32>
    decreases n,
{
    if n == 0 {
        None
    } else if heads[n - 1].dimension == dimension {
        Some(heads[n - 1].weight_micros)
    } else {
        weight_of(heads, dimension, (n - 1) as nat)
    }
}

fn find_weight(heads: &Vec<RelationHeadWeight>, dimension: RelationDimension) -> (r: Option<i32>)
    ensures
        r == weight_of(heads@, dimension, heads@.len()),
{
    let mut n: usize = heads.len();
    while n > 0
        invariant
            n <= heads@.len(),
            weight_of(heads@, dimension, heads@.len()) == weight_of(heads@, dimension, n as nat),
        decreases n,
    {
        if heads[n - 1].dimension == dimension {
            return Some(heads[n - 1].weight_micros);
        }
        n = n - 1;
    }
    None
}

/// The weighted sum of the first `n` scores, if no partial sum leaves the range of `i64`.
pub open spec fn weighted_sum(scores: Seq<RelationDimensionScore>, heads: Seq<RelationHeadWeight>, n: nat) -> Option<int>
    decreases n,
{
    if n == 0 {
        Some(0)
    } else {
        match weighted_sum(scores, heads, (n - 1) as nat) {
            None => None,
            Some(before) => match weight_of(heads, scores[n - 1].dimension, heads.len()) {
                None => Some(before),
                Some(weight) => {
                    let after = before + scores[n - 1].score_micros * weight;
                    if i64::MIN <= after <= i64::MAX {
                        Some(after)
                    } else {
                        None
                    }
                },
            },
        }
    }
}

proof fn weighted_sum_overflow_persists(
    scores: Seq<RelationDimensionScore>,
    heads: Seq<RelationHeadWeight>,
    n: nat,
    m: nat,
)
    requires
        n <= m,
        weighted_sum(scores, heads, n) is None,
    ensures
        weighted_sum(scores, heads, m) is None,
    decreases m,
{
    if n < m {
        weighted_sum_overflow_persists(scores, heads, n, (m - 1) as nat);
    }
}

/// A fixed-point product brought back to scale, towards zero.
pub open spec fn rescaled(numerator: int) -> int {
    if numerator >= 0 {
        numerator / 1_000_000
    } else {
        -((-numerator) / 1_000_000)
    }
}

/// What scores amount to under weights, if the sum stays in range.
pub open spec fn weighted_score(scores: Seq<RelationDimensionScore>, heads: Seq<RelationHeadWeight>) -> Option<int> {
    match weighted_sum(scores, heads, scores.len()) {
        None => None,
        Some(numerator) => Some(rescaled(numerator)),
    }
}

fn weigh(scores: &Vec<RelationDimensionScore>, heads: &Vec<RelationHeadWeight>) -> (r: Option<i64>)
    ensures
        match r {
            Some(score) => weighted_score(scores@, heads@) == Some(score as int),
            None => weighted_score(scores@, heads@) is None,
        },
{
    let mut sum: i64 = 0;
    for i in 0..scores.len()
        invariant
            weighted_sum(scores@, heads@, i as nat) == Some(sum as int),
    {
        match find_weight(heads, scores[i].dimension) {
            None => {},
            Some(weight) => {
                let score: i32 = scores[i].score_micros;
                assert(-0x4000_0000_0000_0000 <= score * weight <= 0x4000_0000_0000_0000) by (nonlinear_arith)
                    requires
                        -0x8000_0000 <= score <= 0x7fff_ffff,
                        -0x8000_0000 <= weight <= 0x7fff_ffff,
                ;
                let product: i64 = score as i64 * weight as i64;
                match sum.checked_add(product) {
                    Some(next) => {
                        sum = next;
                    },
                    None => {
                        proof {
                            weighted_sum_overflow_persists(scores@, heads@, (i + 1) as nat, scores@.len());
                        }
                        return None;
                    },
                }
            },
        }
    }
    if sum >= 0 {
        let whole: u64 = sum as u64;
        Some((whole / 1_000_000) as i64)
    } else {
        let magnitude: u64 = (-(sum as i128)) as u64;
        let quotient: u64 = magnitude / 1_000_000;
        Some(-(quotient as i64))
    }
}

/// Where the targets of contributions stand.
pub struct Activated {
    pub totals: Vec<i64>,
    pub contributions: Vec<ActivationContribution>,
}

impl StoreModel {
    /// Why candidates cannot be considered together.
    pub open spec fn candidates_fault(actor: Actor, candidates: Seq<RecordRevisionPin>) -> Option<MemoryError> {
        if actor != Actor::System {
            Some(MemoryError::Unauthorized)
        } else if candidates.len() == 0 || candidates.len() > MAX_ACTIVATION_CANDIDATES {
            Some(MemoryError::InvalidInput(InputFault::ActivationCandidateCount))
        } else if in_order(candidates.to_set()).len() != candidates.len() {
            Some(MemoryError::InvalidInput(InputFault::ActivationCandidatesRepeat))
        } else {
            None
        }
    }

    /// The candidates of a request in the order of its recall case.
    #[verifier::opaque]
    pub open spec fn activation_candidates(self, actor: Actor, input: ShadowActivationRequestModel) -> MemoryResult<
        Seq<BaselinePin>,
    > {
        match Self::candidates_fault(actor, input.candidates) {
            Some(error) => Err(error),
            None => match lookup(self.recall_cases, input.recall_case.id) {
                None => invalid(InputFault::RecallCaseMissing),
                Some(case) => if case.revision != input.recall_case.revision {
                    Err(
                        MemoryError::RevisionConflict {
                            expected: input.recall_case.revision,
                            actual: case.revision,
                        },
                    )
                } else {
                    match baseline_pins(case.candidates, input.candidates, input.candidates.len()) {
                        None => invalid(InputFault::ActivationCandidateUnpinned),
                        Some(pins) => Ok(in_order(pins.to_set())),
                    }
                },
            },
        }
    }

    /// The weights that an activation uses.
    #[verifier::opaque]
    pub open spec fn activation_heads(self, evaluator: RelationEvaluatorPin, profile: RelationProfilePin) -> MemoryResult<
        Seq<RelationHeadWeight>,
    > {
        match self.evaluator_at(evaluator.id, RevisionSelector::Head) {
            None => invalid(InputFault::EvaluatorMissing),
            Some(current) => if current.revision != evaluator.revision || current.state
                != RecordState::Active {
                invalid(InputFault::ActivationEvaluatorStale)
            } else {
                match self.profile_at(profile.id, RevisionSelector::Head) {
                    None => invalid(InputFault::ProfileMissing),
                    Some(found) => if found.header.revision != profile.revision || found.availability
                        != RelationProfileAvailability::Available || found.header.evaluator != evaluator {
                        invalid(InputFault::ActivationPinsStale)
                    } else {
                        Ok(found.header.heads)
                    },
                }
            },
        }
    }

    /// The first refusal among the first `n` candidates.
    pub open spec fn candidates_pin_fault(self, candidates: Seq<BaselinePin>, n: nat) -> Option<MemoryError>
        decreases n,
    {
        if n == 0 {
            None
        } else {
            match self.candidates_pin_fault(candidates, (n - 1) as nat) {
                Some(error) => Some(error),
                None => self.pin_fault(candidates[n - 1].pin),
            }
        }
    }

    /// What one candidate contributes to another, if a usable signal joins them.
    #[verifier::opaque]
    pub open spec fn contribution(
        self,
        evaluator: RelationEvaluatorPin,
        profile: RelationProfilePin,
        heads: Seq<RelationHeadWeight>,
        from: RecordRevisionPin,
        to: RecordRevisionPin,
    ) -> MemoryResult<Option<ActivationContribution>> {
        if from == to {
            Ok(None)
        } else {
            match lookup(
                self.relation_signal_pairs,
                PairKey { profile: profile.id, from: from.record, to: to.record },
            ) {
                None => Ok(None),
                Some(id) => match self.inspect_relation_signal(id, RevisionSelector::Head) {
                    Err(error) => Err(error),
                    Ok(None) => corrupt(CorruptFault::SignalMissing(SignalIndex::Pair, id)),
                    Ok(Some(signal)) => if signal.availability != RelationSignalAvailability::Available
                        || signal.header.evaluator != evaluator || signal.header.profile != profile
                        || signal.header.from != from || signal.header.to != to {
                        Ok(None)
                    } else {
                        let scores = match signal.scores {
                            Some(found) => found,
                            None => Seq::empty(),
                        };
                        match weighted_score(scores, heads) {
                            None => invalid(InputFault::ActivationSumOverflow),
                            Some(score) => Ok(
                                Some(
                                    ActivationContribution {
                                        signal: RelationSignalPin {
                                            id: signal.header.id,
                                            revision: signal.header.revision,
                                        },
                                        from,
                                        to,
                                        weighted_score_micros: score as i64,
                                    },
                                ),
                            ),
                        }
                    },
                },
            }
        }
    }

    /// What the first `p` ordered pairs of candidates amount to: a total for each
    /// candidate, and the contributions in order.
    pub open spec fn activated(
        self,
        evaluator: RelationEvaluatorPin,
        profile: RelationProfilePin,
        heads: Seq<RelationHeadWeight>,
        candidates: Seq<BaselinePin>,
        p: nat,
    ) -> MemoryResult<(Seq<i64>, Seq<ActivationContribution>)>
        decreases p,
    {
        if p == 0 {
            Ok((Seq::new(candidates.len(), |i: int| 0i64), Seq::empty()))
        } else {
            let n = candidates.len() as int;
            let from = (p - 1) / n;
            let to = (p - 1) % n;
            match self.activated(evaluator, profile, heads, candidates, (p - 1) as nat) {
                Err(error) => Err(error),
                Ok((totals, contributions)) => match self.contribution(
                    evaluator,
                    profile,
                    heads,
                    candidates[from].pin,
                    candidates[to].pin,
                ) {
                    Err(error) => Err(error),
                    Ok(None) => Ok((totals, contributions)),
                    Ok(Some(found)) => {
                        let total = totals[to] + found.weighted_score_micros;
                        if i64::MIN <= total <= i64::MAX {
                            Ok((totals.update(to, total as i64), contributions.push(found)))
                        } else {
                            invalid(InputFault::ActivationTotalOverflow)
                        }
                    },
                },
            }
        }
    }

    /// The candidates in the order that their totals would give them.
    pub open spec fn shadow_order(candidates: Seq<BaselinePin>, totals: Seq<i64>) -> Seq<ShadowPin> {
        in_order(
            Seq::new(
                candidates.len(),
                |i: int| ShadowPin { total: totals[i], candidate: candidates[i] },
            ).to_set(),
        )
    }

    /// The candidates with where they stand before and after.
    pub open spec fn candidate_traces(candidates: Seq<BaselinePin>, totals: Seq<i64>) -> Seq<ActivationCandidateTrace> {
        Seq::new(
            candidates.len(),
            |i: int|
                ActivationCandidateTrace {
                    candidate: candidates[i].pin,
                    baseline_rank: candidates[i].baseline,
                    activation_score_micros: totals[i],
                    shadow_rank: Self::shadow_order(candidates, totals).index_of(
                        ShadowPin { total: totals[i], candidate: candidates[i] },
                    ) as u32,
                },
        )
    }

    /// With a trace filed under the first `n` of its candidates.
    pub open spec fn trace_filed(self, candidates: Seq<BaselinePin>, id: ActivationTraceId, n: nat) -> StoreModel
        decreases n,
    {
        if n == 0 {
            self
        } else {
            self.trace_filed(candidates, id, (n - 1) as nat).put(
                WriteModel::PutTraceByRecord(
                    RecordIndexKey { record: candidates[n - 1].pin.record, id: id.0 },
                ),
            )
        }
    }

    /// With a trace recorded.
    #[verifier::opaque]
    pub open spec fn with_trace(self, trace: ActivationTraceModel, candidates: Seq<BaselinePin>) -> StoreModel {
        self.put(
            WriteModel::PutTrace(
                trace.id,
                ActivationTraceHeader {
                    id: trace.id,
                    revision: trace.revision,
                    era_id: trace.era_id,
                    operation_id: trace.operation_id,
                    recall_case: trace.recall_case,
                    evaluator: trace.evaluator,
                    profile: trace.profile,
                    input_digest: trace.input_digest,
                    recorded_at_ms: trace.recorded_at_ms,
                },
            ),
        ).put(
            WriteModel::PutTracePayload(
                trace.id,
                ActivationTracePayloadModel {
                    candidates: trace.candidates,
                    contributions: trace.contributions,
                },
            ),
        ).trace_filed(candidates, trace.id, candidates.len()).put(
            WriteModel::PutTraceByEvaluator(
                OwnerIndexKey { owner: trace.evaluator.id.0, id: trace.id.0 },
            ),
        ).put(
            WriteModel::PutTraceByProfile(OwnerIndexKey { owner: trace.profile.id.0, id: trace.id.0 }),
        )
    }

    /// Recording a shadow activation. The first identifier drawn is the audit event's, the
    /// second the trace's.
    pub open spec fn shadow_activate(
        self,
        operation: OperationContext,
        input: ShadowActivationRequestModel,
        request: Seq<u8>,
        fresh: FreshModel,
    ) -> MemoryResult<(StoreModel, ActivationTraceModel)> {
        let digest = mutation_digest_of(self.digest_key@, "shadow_activate"@, operation.actor, request);
        match self.activation_candidates(operation.actor, input) {
            Err(error) => Err(error),
            Ok(candidates) => match self.replay(operation.id, digest) {
                Err(error) => Err(error),
                Ok(Some(ReceiptModel::Trace(id))) => match self.inspect_activation_trace(id) {
                    Some(trace) => Ok((self, trace)),
                    None => invalid(InputFault::TracePayloadGone),
                },
                Ok(Some(_)) => corrupt(CorruptFault::ReceiptShape),
                Ok(None) => match self.activation_heads(input.evaluator, input.profile) {
                    Err(error) => Err(error),
                    Ok(heads) => match self.candidates_pin_fault(candidates, candidates.len()) {
                        Some(error) => Err(error),
                        None => match self.activated(
                            input.evaluator,
                            input.profile,
                            heads,
                            candidates,
                            candidates.len() * candidates.len(),
                        ) {
                            Err(error) => Err(error),
                            Ok((totals, contributions)) => {
                                let trace = ActivationTraceModel {
                                    id: ActivationTraceId(fresh.ids[1]),
                                    revision: 1,
                                    era_id: self.era_id,
                                    operation_id: operation.id,
                                    recall_case: input.recall_case,
                                    evaluator: input.evaluator,
                                    profile: input.profile,
                                    input_digest: index_digest(self.digest_key@, ACTIVATION_DOMAIN, request),
                                    candidates: Self::candidate_traces(candidates, totals),
                                    contributions,
                                    recorded_at_ms: fresh.recorded_at_ms,
                                };
                                Ok(
                                    (
                                        self.with_trace(trace, candidates).audited(
                                            self.audit_event(
                                                fresh.ids[0],
                                                operation,
                                                AuditAction::ShadowActivationRecorded,
                                                Seq::empty(),
                                                seq![DerivedRecordRef::ActivationTrace(trace.id)],
                                                None,
                                                fresh.recorded_at_ms,
                                            ),
                                        ).remembered(operation.id, digest, ReceiptModel::Trace(trace.id)),
                                        trace,
                                    ),
                                )
                            },
                        },
                    },
                },
            },
        }
    }
}

/// The weighted scores of the contributions that lead to a pin, added up.
pub open spec fn received(contributions: Seq<ActivationContribution>, pin: RecordRevisionPin) -> int
    decreases contributions.len(),
{
    if contributions.len() == 0 {
        0
    } else {
        received(contributions.drop_last(), pin) + (if contributions.last().to == pin {
            contributions.last().weighted_score_micros as int
        } else {
            0
        })
    }
}

/// Every candidate's total is what the contributions that lead to it add up to.
pub proof fn totals_are_received(
    s: StoreModel,
    evaluator: RelationEvaluatorPin,
    profile: RelationProfilePin,
    heads: Seq<RelationHeadWeight>,
    candidates: Seq<BaselinePin>,
    p: nat,
)
    requires
        forall|i: int, j: int|
            0 <= i < j < candidates.len() ==> (#[trigger] candidates[i]).pin != (#[trigger] candidates[j]).pin,
        p <= candidates.len() * candidates.len(),
        s.activated(evaluator, profile, heads, candidates, p) is Ok,
    ensures
        s.activated(evaluator, profile, heads, candidates, p)->Ok_0.0.len() == candidates.len(),
        forall|i: int|
            0 <= i < candidates.len() ==> #[trigger] s.activated(
                evaluator,
                profile,
                heads,
                candidates,
                p,
            )->Ok_0.0[i] == received(
                s.activated(evaluator, profile, heads, candidates, p)->Ok_0.1,
                candidates[i].pin,
            ),
    decreases p,
{
    if p > 0 {
        totals_are_received(s, evaluator, profile, heads, candidates, (p - 1) as nat);
        let n = candidates.len() as int;
        let to = (p - 1) % n;
        assert(n > 0) by (nonlinear_arith)
            requires
                p <= n * n,
                p > 0,
                n >= 0,
        ;
        assert(0 <= to < n);
        let (totals, contributions) = s.activated(evaluator, profile, heads, candidates, (p - 1) as nat)->Ok_0;
        let (now_totals, now) = s.activated(evaluator, profile, heads, candidates, p)->Ok_0;
        if now != contributions {
            assert(now.drop_last() =~= contributions);
            reveal(StoreModel::contribution);
            assert(now.last().to == candidates[to].pin);
            assert forall|i: int| 0 <= i < n implies #[trigger] now_totals[i] == received(now, candidates[i].pin) by {
                assert(totals[i] == received(contributions, candidates[i].pin));
                if i != to {
                    if i < to {
                        assert(candidates[i].pin != candidates[to].pin);
                    } else {
                        assert(candidates[to].pin != candidates[i].pin);
                    }
                }
            }
        }
    }
}

proof fn activated_refusal_persists(
    s: StoreModel,
    evaluator: RelationEvaluatorPin,
    profile: RelationProfilePin,
    heads: Seq<RelationHeadWeight>,
    candidates: Seq<BaselinePin>,
    n: nat,
    m: nat,
)
    requires
        n <= m,
        s.activated(evaluator, profile, heads, candidates, n) is Err,
    ensures
        s.activated(evaluator, profile, heads, candidates, m) == s.activated(
            evaluator,
            profile,
            heads,
            candidates,
            n,
        ),
    decreases m,
{
    if n < m {
        activated_refusal_persists(s, evaluator, profile, heads, candidates, n, (m - 1) as nat);
    }
}

proof fn candidates_pin_fault_persists(s: StoreModel, candidates: Seq<BaselinePin>, n: nat, m: nat)
    requires
        n <= m,
        s.candidates_pin_fault(candidates, n) is Some,
    ensures
        s.candidates_pin_fault(candidates, m) == s.candidates_pin_fault(candidates, n),
    decreases m,
{
    if n < m {
        candidates_pin_fault_persists(s, candidates, n, (m - 1) as nat);
    }
}

/// Where an item stands in a list that holds it.
fn find_shadow(order: &Vec<ShadowPin>, wanted: ShadowPin) -> (r: u32)
    requires
        order@.contains(wanted),
        increasing(order@),
        order@.len() <= MAX_ACTIVATION_CANDIDATES,
    ensures
        r == order@.index_of(wanted) as u32,
{
    let mut at: usize = 0;
    while at < order.len() && order[at] != wanted
        invariant
            at <= order@.len(),
            forall|j: int| 0 <= j < at ==> order@[j] != wanted,
        decreases order@.len() - at,
    {
        at = at + 1;
    }
    proof {
        let i = choose|i: int| 0 <= i < order@.len() && order@[i] == wanted;
        assert(at <= i);
        assert(order@[at as int] == wanted);
        let k = order@.index_of(wanted);
        assert(order@[k] == wanted);
        if k < at {
            assert(order@[k] != wanted);
        }
        if at < k {
            assert(order@[at as int].rank() < order@[k].rank());
        }
    }
    at as u32
}

fn rank_candidates(candidates: &Vec<BaselinePin>, totals: &Vec<i64>) -> (r: Vec<ActivationCandidateTrace>)
    requires
        totals@.len() == candidates@.len(),
        candidates@.len() <= MAX_ACTIVATION_CANDIDATES,
    ensures
        r@ == StoreModel::candidate_traces(candidates@, totals@),
{
    let ghost all = Seq::new(
        candidates@.len(),
        |i: int| ShadowPin { total: totals@[i], candidate: candidates@[i] },
    );
    let mut shadows: Vec<ShadowPin> = Vec::new();
    for i in 0..candidates.len()
        invariant
            totals@.len() == candidates@.len(),
            all == Seq::new(
                candidates@.len(),
                |i: int| ShadowPin { total: totals@[i], candidate: candidates@[i] },
            ),
            shadows@ == all.take(i as int),
    {
        shadows.push(ShadowPin { total: totals[i], candidate: candidates[i] });
        assert(shadows@ =~= all.take(i + 1));
    }
    assert(all.take(all.len() as int) =~= all);
    let order = sorted_distinct(&shadows);
    proof {
        order@.unique_seq_to_set();
        assert(order@.to_set() =~= all.to_set());
        vstd::seq_lib::seq_to_set_is_finite(all);
        all.lemma_cardinality_of_set();
        assert(order@.no_duplicates()) by {
            assert forall|i: int, j: int| 0 <= i < order@.len() && 0 <= j < order@.len() && i != j implies order@[i]
                != order@[j] by {
                if i < j {
                    assert(order@[i].rank() < order@[j].rank());
                } else {
                    assert(order@[j].rank() < order@[i].rank());
                }
            }
        }
        order@.unique_seq_to_set();
        assert(order@.len() <= all.len());
    }
    let mut r: Vec<ActivationCandidateTrace> = Vec::new();
    for i in 0..candidates.len()
        invariant
            totals@.len() == candidates@.len(),
            candidates@.len() <= MAX_ACTIVATION_CANDIDATES,
            all == Seq::new(
                candidates@.len(),
                |i: int| ShadowPin { total: totals@[i], candidate: candidates@[i] },
            ),
            shadows@ == all,
            lists(order@, all.to_set()),
            order@ == StoreModel::shadow_order(candidates@, totals@),
            order@.len() <= all.len(),
            r@ == StoreModel::candidate_traces(candidates@, totals@).take(i as int),
    {
        let wanted = ShadowPin { total: totals[i], candidate: candidates[i] };
        proof {
            assert(all[i as int] == wanted);
            assert(all.contains(wanted));
            assert(order@.contains(wanted));
        }
        let shadow_rank: u32 = find_shadow(&order, wanted);
        r.push(
            ActivationCandidateTrace {
                candidate: candidates[i].pin,
                baseline_rank: candidates[i].baseline,
                activation_score_micros: totals[i],
                shadow_rank,
            },
        );
        assert(r@ =~= StoreModel::candidate_traces(candidates@, totals@).take(i + 1));
    }
    assert(StoreModel::candidate_traces(candidates@, totals@).take(candidates@.len() as int)
        =~= StoreModel::candidate_traces(candidates@, totals@));
    r
}

impl MemoryDatabase {
    pub fn inspect_recall_case(&self, id: RecallCaseId) -> (r: MemoryResult<Option<RecallCase>>)
        ensures
            shown_option(r) == MemoryResult::Ok(lookup(self@.recall_cases, id)),
    {
        Ok(self.recall_case(id))
    }

    pub(crate) fn recall_case(&self, id: RecallCaseId) -> (r: Option<RecallCase>)
        ensures
            opt_view(r) == lookup(self@.recall_cases, id),
    {
        match self.recall_cases.get(&id) {
            Some(case) => Some(case.replica()),
            None => None,
        }
    }

    fn activation_candidates(&self, actor: Actor, input: &ShadowActivationRequest) -> (r: MemoryResult<
        Vec<BaselinePin>,
    >)
        ensures
            match (r, self@.activation_candidates(actor, input@)) {
                (Ok(candidates), Ok(owed)) => candidates@ == owed && owed.len() <= MAX_ACTIVATION_CANDIDATES,
                (Err(error), Err(refusal)) => error == refusal,
                _ => false,
            },
    {
        reveal(StoreModel::activation_candidates);
        if actor != Actor::System {
            return Err(MemoryError::Unauthorized);
        }
        if input.candidates.len() == 0 || input.candidates.len() > MAX_ACTIVATION_CANDIDATES {
            return Err(MemoryError::InvalidInput(InputFault::ActivationCandidateCount));
        }
        let unique = sorted_distinct(&input.candidates);
        if unique.len() != input.candidates.len() {
            return Err(MemoryError::InvalidInput(InputFault::ActivationCandidatesRepeat));
        }
        let case = match self.recall_cases.get(&input.recall_case.id) {
            Some(case) => case,
            None => return Err(MemoryError::InvalidInput(InputFault::RecallCaseMissing)),
        };
        if case.revision != input.recall_case.revision {
            return Err(
                MemoryError::RevisionConflict {
                    expected: input.recall_case.revision,
                    actual: case.revision,
                },
            );
        }
        match find_baselines(&case.candidates, &input.candidates) {
            None => Err(MemoryError::InvalidInput(InputFault::ActivationCandidateUnpinned)),
            Some(found) => {
                let ordered = sorted_distinct(&found);
                proof {
                    baseline_pins_len(case.candidates@, input.candidates@, input.candidates@.len());
                    vstd::seq_lib::seq_to_set_is_finite(found@);
                    found@.lemma_cardinality_of_set();
                    assert(ordered@.to_set() =~= found@.to_set());
                    assert forall|i: int, j: int| 0 <= i < ordered@.len() && 0 <= j < ordered@.len() && i
                        != j implies ordered@[i] != ordered@[j] by {
                        if i < j {
                            assert(ordered@[i].rank() < ordered@[j].rank());
                        } else {
                            assert(ordered@[j].rank() < ordered@[i].rank());
                        }
                    }
                    ordered@.unique_seq_to_set();
                }
                Ok(ordered)
            },
        }
    }

    /// The request with its candidates in the order of the recall case, as it is encoded.
    pub fn normalize_activation(&self, actor: Actor, input: &ShadowActivationRequest) -> (r: MemoryResult<
        ShadowActivationRequest,
    >)
        ensures
            match (r, self@.activation_candidates(actor, input@)) {
                (Ok(request), Ok(candidates)) => request@ == (ShadowActivationRequestModel {
                    candidates: pins_of(candidates),
                    ..input@
                }),
                (Err(error), Err(refusal)) => error == refusal,
                _ => false,
            },
    {
        let ordered = self.activation_candidates(actor, input)?;
        let mut candidates: Vec<RecordRevisionPin> = Vec::new();
        for i in 0..ordered.len()
            invariant
                candidates@ == pins_of(ordered@.take(i as int)),
        {
            candidates.push(ordered[i].pin);
            assert(candidates@ =~= pins_of(ordered@.take(i + 1)));
        }
        assert(ordered@.take(ordered@.len() as int) =~= ordered@);
        Ok(
            ShadowActivationRequest {
                recall_case: input.recall_case,
                evaluator: input.evaluator,
                profile: input.profile,
                candidates,
            },
        )
    }

    fn activation_heads(&self, evaluator: RelationEvaluatorPin, profile: RelationProfilePin) -> (r: MemoryResult<
        Vec<RelationHeadWeight>,
    >)
        ensures
            match (r, self@.activation_heads(evaluator, profile)) {
                (Ok(heads), Ok(owed)) => heads@ == owed,
                (Err(error), Err(refusal)) => error == refusal,
                _ => false,
            },
    {
        reveal(StoreModel::activation_heads);
        let current = match self.evaluator(evaluator.id, RevisionSelector::Head) {
            Some(record) => record.header,
            None => return Err(MemoryError::InvalidInput(InputFault::EvaluatorMissing)),
        };
        if current.revision != evaluator.revision || current.state != RecordState::Active {
            return Err(MemoryError::InvalidInput(InputFault::ActivationEvaluatorStale));
        }
        let found = match self.profile(profile.id, RevisionSelector::Head) {
            Some(found) => found,
            None => return Err(MemoryError::InvalidInput(InputFault::ProfileMissing)),
        };
        if found.header.revision != profile.revision || found.availability
            != RelationProfileAvailability::Available || found.header.evaluator != evaluator {
            return Err(MemoryError::InvalidInput(InputFault::ActivationPinsStale));
        }
        Ok(found.header.heads)
    }

    fn check_candidate_pins(&self, candidates: &Vec<BaselinePin>) -> (r: MemoryResult<()>)
        ensures
            r == (match self@.candidates_pin_fault(candidates@, candidates@.len()) {
                Some(error) => Err(error),
                None => Ok(()),
            }),
    {
        for i in 0..candidates.len()
            invariant
                self@.candidates_pin_fault(candidates@, i as nat) is None,
        {
            match self.require_current_pin(candidates[i].pin) {
                Ok(_) => {},
                Err(error) => {
                    proof {
                        candidates_pin_fault_persists(self@, candidates@, (i + 1) as nat, candidates@.len());
                    }
                    return Err(error);
                },
            }
        }
        Ok(())
    }

    fn contribution(
        &self,
        evaluator: RelationEvaluatorPin,
        profile: RelationProfilePin,
        heads: &Vec<RelationHeadWeight>,
        from: RecordRevisionPin,
        to: RecordRevisionPin,
    ) -> (r: MemoryResult<Option<ActivationContribution>>)
        ensures
            r == self@.contribution(evaluator, profile, heads@, from, to),
    {
        reveal(StoreModel::contribution);
        if from == to {
            return Ok(None);
        }
        let id = match self.relation_signal_pairs.get(
            &PairKey { profile: profile.id, from: from.record, to: to.record },
        ) {
            Some(id) => *id,
            None => return Ok(None),
        };
        let signal = match self.inspect_relation_signal(id, RevisionSelector::Head)? {
            Some(signal) => signal,
            None => return Err(MemoryError::Corrupt(CorruptFault::SignalMissing(SignalIndex::Pair, id))),
        };
        if signal.availability != RelationSignalAvailability::Available || signal.header.evaluator
            != evaluator || signal.header.profile != profile || signal.header.from != from
            || signal.header.to != to {
            return Ok(None);
        }
        let pin = RelationSignalPin { id: signal.header.id, revision: signal.header.revision };
        let scores = match signal.scores {
            Some(found) => found,
            None => Vec::new(),
        };
        match weigh(&scores, heads) {
            None => Err(MemoryError::InvalidInput(InputFault::ActivationSumOverflow)),
            Some(score) => Ok(
                Some(ActivationContribution { signal: pin, from, to, weighted_score_micros: score }),
            ),
        }
    }

    fn activate(
        &self,
        evaluator: RelationEvaluatorPin,
        profile: RelationProfilePin,
        heads: &Vec<RelationHeadWeight>,
        candidates: &Vec<BaselinePin>,
    ) -> (r: MemoryResult<Activated>)
        requires
            candidates@.len() <= MAX_ACTIVATION_CANDIDATES,
        ensures
            match (
                r,
                self@.activated(evaluator, profile, heads@, candidates@, candidates@.len() * candidates@.len()),
            ) {
                (Ok(done), Ok((totals, contributions))) => done.totals@ == totals && done.contributions@
                    == contributions && totals.len() == candidates@.len(),
                (Err(error), Err(refusal)) => error == refusal,
                _ => false,
            },
    {
        let n: usize = candidates.len();
        let mut totals: Vec<i64> = Vec::new();
        for i in 0..n
            invariant
                totals@ == Seq::new(i as nat, |i: int| 0i64),
        {
            totals.push(0);
            assert(totals@ =~= Seq::new((i + 1) as nat, |i: int| 0i64));
        }
        let mut contributions: Vec<ActivationContribution> = Vec::new();
        let mut from: usize = 0;
        let ghost mut p: nat = 0;
        while from < n
            invariant
                n == candidates@.len(),
                n <= MAX_ACTIVATION_CANDIDATES,
                from <= n,
                p == from * n,
                totals@.len() == n,
                self@.activated(evaluator, profile, heads@, candidates@, p) == Ok::<
                    (Seq<i64>, Seq<ActivationContribution>),
                    MemoryError,
                >((totals@, contributions@)),
            decreases n - from,
        {
            let mut to: usize = 0;
            while to < n
                invariant
                    n == candidates@.len(),
                    n <= MAX_ACTIVATION_CANDIDATES,
                    from < n,
                    to <= n,
                    p == from * n + to,
                    totals@.len() == n,
                    self@.activated(evaluator, profile, heads@, candidates@, p) == Ok::<
                        (Seq<i64>, Seq<ActivationContribution>),
                        MemoryError,
                    >((totals@, contributions@)),
                decreases n - to,
            {
                proof {
                    assert(p / (n as nat) == from && p % (n as nat) == to) by {
                        vstd::arithmetic::div_mod::lemma_fundamental_div_mod_converse(
                            p as int,
                            n as int,
                            from as int,
                            to as int,
                        );
                    }
                    assert(p + 1 <= n * n) by (nonlinear_arith)
                        requires
                            p == from * n + to,
                            from < n,
                            to < n,
                    ;
                }
                match self.contribution(evaluator, profile, heads, candidates[from].pin, candidates[to].pin) {
                    Err(error) => {
                        proof {
                            activated_refusal_persists(
                                self@,
                                evaluator,
                                profile,
                                heads@,
                                candidates@,
                                p + 1,
                                candidates@.len() * candidates@.len(),
                            );
                        }
                        return Err(error);
                    },
                    Ok(None) => {},
                    Ok(Some(found)) => {
                        match totals[to].checked_add(found.weighted_score_micros) {
                            None => {
                                proof {
                                    activated_refusal_persists(
                                        self@,
                                        evaluator,
                                        profile,
                                        heads@,
                                        candidates@,
                                        p + 1,
                                        candidates@.len() * candidates@.len(),
                                    );
                                }
                                return Err(MemoryError::InvalidInput(InputFault::ActivationTotalOverflow));
                            },
                            Some(total) => {
                                totals.set(to, total);
                                contributions.push(found);
                            },
                        }
                    },
                }
                to = to + 1;
                proof {
                    p = p + 1;
                }
            }
            proof {
                assert((from + 1) * n == from * n + n) by (nonlinear_arith);
            }
            from = from + 1;
        }
        Ok(Activated { totals, contributions })
    }

    fn insert_trace(&self, batch: &mut Batch, trace: &ActivationTrace, candidates: &Vec<BaselinePin>)
        ensures
            self@.after(final(batch)@) == self@.after(old(batch)@).with_trace(trace@, candidates@),
    {
        reveal(StoreModel::with_trace);
        let id = trace.id;
        batch.push(
            Write::PutTrace(
                id,
                ActivationTraceHeader {
                    id,
                    revision: trace.revision,
                    era_id: trace.era_id,
                    operation_id: trace.operation_id,
                    recall_case: trace.recall_case,
                    evaluator: trace.evaluator,
                    profile: trace.profile,
                    input_digest: trace.input_digest,
                    recorded_at_ms: trace.recorded_at_ms,
                },
            ),
        );
        batch.push(
            Write::PutTracePayload(
                id,
                ActivationTracePayload {
                    candidates: copies(&trace.candidates),
                    contributions: copies(&trace.contributions),
                },
            ),
        );
        let ghost start = self@.after(batch@);
        for i in 0..candidates.len()
            invariant
                self@.after(batch@) == start.trace_filed(candidates@, id, i as nat),
        {
            batch.push(
                Write::PutTraceByRecord(RecordIndexKey { record: candidates[i].pin.record, id: id.0 }),
            );
        }
        batch.push(
            Write::PutTraceByEvaluator(OwnerIndexKey { owner: trace.evaluator.id.0, id: id.0 }),
        );
        batch.push(Write::PutTraceByProfile(OwnerIndexKey { owner: trace.profile.id.0, id: id.0 }));
    }

    /// What recording a shadow activation would do with the given instant and
    /// identifiers. `request` encodes the request with its candidates in order.
    pub fn plan_shadow_activate(
        &self,
        operation: OperationContext,
        input: &ShadowActivationRequest,
        request: &[u8],
        fresh: &Fresh,
    ) -> (r: MemoryResult<Planned<ActivationTrace>>)
        requires
            fresh.ids@.len() == 2,
        ensures
            plans(self@, r, self@.shadow_activate(operation, input@, request@, fresh@)),
    {
        let candidates = self.activation_candidates(operation.actor, input)?;
        let digest = mutation_digest(&self.digest_key, "shadow_activate", operation.actor, request);
        let mut batch = Batch::new();
        match self.replayed_operation(operation.id, digest)? {
            Some(Receipt::Trace(id)) => {
                return match self.activation_trace(id) {
                    Some(trace) => Ok(Planned { batch, receipt: trace }),
                    None => Err(MemoryError::InvalidInput(InputFault::TracePayloadGone)),
                };
            },
            Some(_) => {
                return Err(MemoryError::Corrupt(CorruptFault::ReceiptShape));
            },
            None => {},
        }
        let heads = self.activation_heads(input.evaluator, input.profile)?;
        self.check_candidate_pins(&candidates)?;
        let activated = self.activate(input.evaluator, input.profile, &heads, &candidates)?;
        let trace = ActivationTrace {
            id: ActivationTraceId(fresh.ids[1]),
            revision: 1,
            era_id: self.era_id,
            operation_id: operation.id,
            recall_case: input.recall_case,
            evaluator: input.evaluator,
            profile: input.profile,
            input_digest: index_hash(&self.digest_key, ACTIVATION_DOMAIN, request),
            candidates: rank_candidates(&candidates, &activated.totals),
            contributions: activated.contributions,
            recorded_at_ms: fresh.recorded_at_ms,
        };
        self.insert_trace(&mut batch, &trace, &candidates);
        let derived: Vec<DerivedRecordRef> = vec![DerivedRecordRef::ActivationTrace(trace.id)];
        assert(derived@ =~= seq![DerivedRecordRef::ActivationTrace(trace.id)]);
        self.insert_audit(
            &mut batch,
            fresh.ids[0],
            operation,
            AuditAction::ShadowActivationRecorded,
            Vec::new(),
            derived,
            None,
            fresh.recorded_at_ms,
        );
        self.insert_operation(&mut batch, operation.id, digest, Receipt::Trace(trace.id));
        Ok(Planned { batch, receipt: trace })
    }

    /// Records what the relation signals of a profile would make of candidates of a recall
    /// case. The recall case itself stays as it is.
    pub fn shadow_activate(
        &mut self,
        operation: OperationContext,
        input: ShadowActivationRequest,
        request: &[u8],
    ) -> (r: MemoryResult<ActivationTrace>)
        ensures
            exists|fresh: FreshModel|
                fresh.ids.len() == 2 && #[trigger] commits(
                    old(self)@,
                    final(self)@,
                    r,
                    old(self)@.shadow_activate(operation, input@, request@, fresh),
                ),
    {
        let fresh = Fresh::draw(2);
        let planned = self.plan_shadow_activate(operation, &input, request, &fresh);
        let r = self.commit(planned);
        assert(commits(
            old(self)@,
            self@,
            r,
            old(self)@.shadow_activate(operation, input@, request@, fresh@),
        ));
        r
    }
}

proof fn baseline_pins_len(candidates: Seq<RecallCaseCandidate>, pins: Seq<RecordRevisionPin>, n: nat)
    requires
        baseline_pins(candidates, pins, n) is Some,
    ensures
        baseline_pins(candidates, pins, n)->Some_0.len() == n,
    decreases n,
{
    if n > 0 {
        baseline_pins_len(candidates, pins, (n - 1) as nat);
    }
}

} // verus!
