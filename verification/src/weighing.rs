//! What a shadow activation amounts to: how scores are weighed, what leads to a
//! candidate, and how the candidates would stand.

use vstd::prelude::*;
use crate::activation::{
    BaselinePin, ShadowPin, baseline_pins, baseline_rank, candidate_span, pin_span, pins_of,
    received, rescaled, totals_are_received, weight_of, weighted_score, weighted_sum,
};
use crate::clock::FreshModel;
use crate::context::OperationContext;
use crate::fault::MemoryResult;
use crate::grounds::lists_are_as_long;
use crate::keys::{PairKey, record_span};
use crate::order::{Keyed, in_order, in_order_lists, increasing};
use crate::records::evidence::{Actor, RecordState, RevisionSelector};
use crate::records::recall::{RecallCaseCandidate, RecordRevisionPin};
use crate::records::relation::{
    ActivationContribution, ActivationTraceModel, RelationDimension, RelationDimensionScore,
    RelationEvaluatorPin, RelationHeadWeight, RelationProfileAvailability, RelationProfilePin,
    RelationSignalAvailability, RelationSignalRecordModel, ShadowActivationRequestModel,
};
use crate::store::StoreModel;

verus! {

/// A score on its own weighs in with the product of the score and the weight of its
/// dimension, and not at all if its dimension has no weight.
pub proof fn scores_weigh_in(score: RelationDimensionScore, heads: Seq<RelationHeadWeight>, at: int)
    requires
        forall|i: int, j: int| 0 <= i < j < heads.len() ==> #[trigger] heads[i].dimension != #[trigger] heads[j].dimension,
    ensures
        0 <= at < heads.len() && heads[at].dimension == score.dimension ==> weighted_sum(seq![score], heads, 1)
            == Some(score.score_micros * heads[at].weight_micros),
        (forall|i: int| 0 <= i < heads.len() ==> #[trigger] heads[i].dimension != score.dimension) ==> weighted_sum(
            seq![score],
            heads,
            1,
        ) == Some(0int),
{
    weights_are_found(heads, score.dimension, heads.len());
    assert(weighted_sum(seq![score], heads, 0) == Some(0int));
    assert(seq![score][0] == score);
    match weight_of(heads, score.dimension, heads.len()) {
        Some(weight) => {
            product_fits(score.score_micros, weight);
        },
        None => {},
    }
}

proof fn product_fits(score: i32, weight: i32)
    ensures
        i64::MIN <= score * weight <= i64::MAX,
{
    let x = score as int;
    let y = weight as int;
    assert(-0x4000_0000_0000_0000 <= x * y <= 0x4000_0000_0000_0000) by (nonlinear_arith)
        requires
            -0x8000_0000 <= x < 0x8000_0000,
            -0x8000_0000 <= y < 0x8000_0000,
    ;
}

/// The weight of a dimension is that of its head.
proof fn weights_are_found(heads: Seq<RelationHeadWeight>, dimension: RelationDimension, n: nat)
    requires
        n <= heads.len(),
    ensures
        match weight_of(heads, dimension, n) {
            Some(weight) => exists|i: int|
                0 <= i < n && (#[trigger] heads[i]).dimension == dimension && heads[i].weight_micros == weight,
            None => forall|i: int| 0 <= i < n ==> (#[trigger] heads[i]).dimension != dimension,
        },
    decreases n,
{
    if n > 0 {
        weights_are_found(heads, dimension, (n - 1) as nat);
        if heads[n - 1].dimension == dimension {
            assert(heads[n - 1].weight_micros == weight_of(heads, dimension, n)->Some_0);
        }
    }
}

/// Scores weigh in with what they weigh apart: of a list that continues another one the
/// sum is that of the first list and that of the rest, wherever all three stay in range.
pub proof fn weights_add_up(
    a: Seq<RelationDimensionScore>,
    b: Seq<RelationDimensionScore>,
    heads: Seq<RelationHeadWeight>,
)
    ensures
        weighted_sum(a + b, heads, (a + b).len()) is Some ==> weighted_sum(a, heads, a.len()) is Some,
        weighted_sum(a + b, heads, (a + b).len()) is Some && weighted_sum(b, heads, b.len()) is Some ==> weighted_sum(
            a + b,
            heads,
            (a + b).len(),
        )->Some_0 == weighted_sum(a, heads, a.len())->Some_0 + weighted_sum(b, heads, b.len())->Some_0,
    decreases b.len(),
{
    if b.len() == 0 {
        assert(a + b =~= a);
    } else {
        let rest = b.drop_last();
        weights_add_up(a, rest, heads);
        let all = a + b;
        let m = (all.len() - 1) as nat;
        assert((a + rest).len() == m);
        assert forall|i: int| 0 <= i < m implies #[trigger] all[i] == (a + rest)[i] by {}
        sums_agree(all, a + rest, heads, m);
        sums_agree(b, rest, heads, rest.len());
        assert(all[all.len() - 1] == b.last());
    }
}

/// The sum of a beginning is told by that beginning.
proof fn sums_agree(
    a: Seq<RelationDimensionScore>,
    b: Seq<RelationDimensionScore>,
    heads: Seq<RelationHeadWeight>,
    n: nat,
)
    requires
        n <= a.len(),
        n <= b.len(),
        forall|i: int| 0 <= i < n ==> #[trigger] a[i] == b[i],
    ensures
        weighted_sum(a, heads, n) == weighted_sum(b, heads, n),
    decreases n,
{
    if n > 0 {
        sums_agree(a, b, heads, (n - 1) as nat);
        assert(a[n - 1] == b[n - 1]);
    }
}

/// Scores and weights between minus one and one always weigh in: a million of them stay
/// in range.
pub proof fn sound_scores_stay_in_range(scores: Seq<RelationDimensionScore>, heads: Seq<RelationHeadWeight>, n: nat)
    requires
        n <= scores.len(),
        n <= 1_000_000,
        forall|i: int| 0 <= i < scores.len() ==> -1_000_000 <= (#[trigger] scores[i]).score_micros <= 1_000_000,
        forall|i: int| 0 <= i < heads.len() ==> -1_000_000 <= (#[trigger] heads[i]).weight_micros <= 1_000_000,
    ensures
        weighted_sum(scores, heads, n) is Some,
        -(n * 1_000_000_000_000) <= weighted_sum(scores, heads, n)->Some_0 <= n * 1_000_000_000_000,
    decreases n,
{
    if n > 0 {
        sound_scores_stay_in_range(scores, heads, (n - 1) as nat);
        weights_are_found(heads, scores[n - 1].dimension, heads.len());
        match weight_of(heads, scores[n - 1].dimension, heads.len()) {
            Some(weight) => {
                let x = scores[n - 1].score_micros as int;
                let y = weight as int;
                assert(-1_000_000_000_000 <= x * y <= 1_000_000_000_000) by (nonlinear_arith)
                    requires
                        -1_000_000 <= x <= 1_000_000,
                        -1_000_000 <= y <= 1_000_000,
                ;
            },
            None => {},
        }
    }
}

/// A product of two fixed-point numbers is brought back to scale by leaving off what is
/// beyond six places: the result is within a millionth of it, on the side of zero.
pub proof fn products_are_rescaled(numerator: int)
    ensures
        numerator >= 0 ==> rescaled(numerator) * 1_000_000 <= numerator < (rescaled(numerator) + 1) * 1_000_000,
        rescaled(-numerator) == -rescaled(numerator),
{
}

/// The weight of a signal is what its scores weigh together, brought back to scale.
pub proof fn signals_weigh_what_their_scores_weigh(scores: Seq<RelationDimensionScore>, heads: Seq<RelationHeadWeight>)
    ensures
        weighted_score(scores, heads) is Some <==> weighted_sum(scores, heads, scores.len()) is Some,
        weighted_sum(scores, heads, scores.len()) matches Some(numerator) ==> {
            let score = weighted_score(scores, heads)->Some_0;
            &&& numerator >= 0 ==> score * 1_000_000 <= numerator < (score + 1) * 1_000_000
            &&& numerator <= 0 ==> (score - 1) * 1_000_000 < numerator <= score * 1_000_000
        },
{
}

/// Whether a signal leads from one pinned record to another under a profile: it is the
/// one filed for the pair, it is available, and it was made of just these revisions.
pub open spec fn leads(
    s: StoreModel,
    evaluator: RelationEvaluatorPin,
    profile: RelationProfilePin,
    from: RecordRevisionPin,
    to: RecordRevisionPin,
    signal: RelationSignalRecordModel,
) -> bool {
    let pair = PairKey { profile: profile.id, from: from.record, to: to.record };
    &&& from != to
    &&& s.relation_signal_pairs.contains_key(pair)
    &&& s.inspect_relation_signal(s.relation_signal_pairs[pair], RevisionSelector::Head) == MemoryResult::Ok(
        Some(signal),
    )
    &&& signal.availability == RelationSignalAvailability::Available
    &&& signal.header.evaluator == evaluator && signal.header.profile == profile
    &&& signal.header.from == from && signal.header.to == to
}

/// What one candidate contributes to another is the weight of the signal that leads from
/// the one to the other, and where no signal leads there it contributes nothing.
pub proof fn contributions_come_from_signals(
    s: StoreModel,
    evaluator: RelationEvaluatorPin,
    profile: RelationProfilePin,
    heads: Seq<RelationHeadWeight>,
    from: RecordRevisionPin,
    to: RecordRevisionPin,
)
    ensures
        match s.contribution(evaluator, profile, heads, from, to) {
            Ok(Some(found)) => exists|signal: RelationSignalRecordModel|
                {
                    &&& #[trigger] leads(s, evaluator, profile, from, to, signal)
                    &&& found.from == from && found.to == to
                    &&& found.signal.id == signal.header.id && found.signal.revision == signal.header.revision
                    &&& signal.scores matches Some(scores) ==> weighted_score(scores, heads) is Some
                        && found.weighted_score_micros == weighted_score(scores, heads)->Some_0 as i64
                },
            Ok(None) => forall|signal: RelationSignalRecordModel| !#[trigger] leads(
                s,
                evaluator,
                profile,
                from,
                to,
                signal,
            ),
            Err(_) => true,
        },
        from == to ==> s.contribution(evaluator, profile, heads, from, to) == MemoryResult::Ok(
            None::<ActivationContribution>,
        ),
{
    reveal(StoreModel::contribution);
    let pair = PairKey { profile: profile.id, from: from.record, to: to.record };
    match s.contribution(evaluator, profile, heads, from, to) {
        Ok(Some(found)) => {
            let signal = s.inspect_relation_signal(s.relation_signal_pairs[pair], RevisionSelector::Head)->Ok_0->Some_0;
            assert(leads(s, evaluator, profile, from, to, signal));
        },
        _ => {},
    }
}

/// Every contribution of an activation leads from one candidate to another, and every
/// one that a pair of candidates has is among them.
proof fn pairs_contribute(
    s: StoreModel,
    evaluator: RelationEvaluatorPin,
    profile: RelationProfilePin,
    heads: Seq<RelationHeadWeight>,
    candidates: Seq<BaselinePin>,
    p: nat,
    from: int,
    to: int,
)
    requires
        p <= candidates.len() * candidates.len(),
        s.activated(evaluator, profile, heads, candidates, p) is Ok,
        0 <= from < candidates.len(),
        0 <= to < candidates.len(),
        from * candidates.len() + to < p,
    ensures
        match s.contribution(evaluator, profile, heads, candidates[from].pin, candidates[to].pin) {
            Ok(Some(found)) => s.activated(evaluator, profile, heads, candidates, p)->Ok_0.1.contains(found),
            Ok(None) => true,
            Err(_) => false,
        },
    decreases p,
{
    let n = candidates.len() as int;
    let (totals, contributions) = s.activated(evaluator, profile, heads, candidates, (p - 1) as nat)->Ok_0;
    let now = s.activated(evaluator, profile, heads, candidates, p)->Ok_0.1;
    if from * n + to < p - 1 {
        pairs_contribute(s, evaluator, profile, heads, candidates, (p - 1) as nat, from, to);
        match s.contribution(evaluator, profile, heads, candidates[from].pin, candidates[to].pin) {
            Ok(Some(found)) => {
                let k = contributions.index_of(found);
                assert(contributions[k] == found);
                assert(now[k] == found);
            },
            _ => {},
        }
    } else {
        assert(p - 1 == from * n + to);
        assert((p - 1) / n == from && (p - 1) % n == to) by {
            vstd::arithmetic::div_mod::lemma_fundamental_div_mod_converse(p - 1, n, from, to);
        }
        match s.contribution(evaluator, profile, heads, candidates[from].pin, candidates[to].pin) {
            Ok(Some(found)) => {
                assert(now == contributions.push(found));
                assert(now[contributions.len() as int] == found);
            },
            _ => {},
        }
    }
}

/// Every contribution comes from a pair of candidates.
proof fn contributions_come_from_pairs(
    s: StoreModel,
    evaluator: RelationEvaluatorPin,
    profile: RelationProfilePin,
    heads: Seq<RelationHeadWeight>,
    candidates: Seq<BaselinePin>,
    p: nat,
)
    requires
        p <= candidates.len() * candidates.len(),
        s.activated(evaluator, profile, heads, candidates, p) is Ok,
    ensures
        forall|k: int|
            0 <= k < s.activated(evaluator, profile, heads, candidates, p)->Ok_0.1.len() ==> exists|from: int, to: int|
                0 <= from < candidates.len() && 0 <= to < candidates.len() && s.contribution(
                    evaluator,
                    profile,
                    heads,
                    (#[trigger] candidates[from]).pin,
                    (#[trigger] candidates[to]).pin,
                ) == MemoryResult::Ok(Some(#[trigger] s.activated(evaluator, profile, heads, candidates, p)->Ok_0.1[k])),
    decreases p,
{
    if p > 0 {
        let n = candidates.len() as int;
        assert(n > 0) by (nonlinear_arith)
            requires
                p <= n * n,
                p > 0,
                n >= 0,
        ;
        contributions_come_from_pairs(s, evaluator, profile, heads, candidates, (p - 1) as nat);
        let from = (p - 1) / n;
        let to = (p - 1) % n;
        assert(0 <= from < n) by (nonlinear_arith)
            requires
                0 < p <= n * n,
                n > 0,
                from == (p - 1) / n,
        ;
        let contributions = s.activated(evaluator, profile, heads, candidates, (p - 1) as nat)->Ok_0.1;
        let now = s.activated(evaluator, profile, heads, candidates, p)->Ok_0.1;
        assert forall|k: int| 0 <= k < now.len() implies exists|f: int, t: int|
            0 <= f < candidates.len() && 0 <= t < candidates.len() && s.contribution(
                evaluator,
                profile,
                heads,
                (#[trigger] candidates[f]).pin,
                (#[trigger] candidates[t]).pin,
            ) == MemoryResult::Ok(Some(#[trigger] now[k])) by {
            if k < contributions.len() {
                assert(now[k] == contributions[k]);
            } else {
                assert(candidates[from].pin == candidates[from].pin && candidates[to].pin == candidates[to].pin);
                assert(s.contribution(evaluator, profile, heads, candidates[from].pin, candidates[to].pin)
                    == MemoryResult::Ok(Some(now[k])));
            }
        }
    }
}

/// The ranks of pins are those that the recall case gives them.
proof fn baselines_are_ranks(candidates: Seq<RecallCaseCandidate>, pins: Seq<RecordRevisionPin>, n: nat)
    requires
        n <= pins.len(),
    ensures
        match baseline_pins(candidates, pins, n) {
            Some(found) => {
                &&& found.len() == n
                &&& forall|i: int|
                    0 <= i < n ==> (#[trigger] found[i]).pin == pins[i] && is_ranked(
                        candidates,
                        pins[i],
                        found[i].baseline,
                    )
            },
            None => exists|i: int| 0 <= i < n && !is_pinned(candidates, #[trigger] pins[i]),
        },
    decreases n,
{
    if n > 0 {
        baselines_are_ranks(candidates, pins, (n - 1) as nat);
        rank_is_found(candidates, pins[n - 1], candidates.len());
        match (
            baseline_pins(candidates, pins, (n - 1) as nat),
            baseline_rank(candidates, pins[n - 1], candidates.len()),
        ) {
            (Some(_), None) => {
                assert(!is_pinned(candidates, pins[n - 1]));
            },
            (Some(before), Some(baseline)) => {
                let found = baseline_pins(candidates, pins, n)->Some_0;
                assert forall|i: int| 0 <= i < n implies (#[trigger] found[i]).pin == pins[i] && is_ranked(
                    candidates,
                    pins[i],
                    found[i].baseline,
                ) by {
                    if i < n - 1 {
                        assert(found[i] == before[i]);
                    }
                }
            },
            _ => {},
        }
    }
}

/// Whether a recall case has a pinned record.
pub open spec fn is_pinned(candidates: Seq<RecallCaseCandidate>, pin: RecordRevisionPin) -> bool {
    exists|k: int|
        0 <= k < candidates.len() && (#[trigger] candidates[k]).record == pin.record && candidates[k].revision
            == pin.revision
}

/// Whether a recall case gives a pinned record a rank.
pub open spec fn is_ranked(candidates: Seq<RecallCaseCandidate>, pin: RecordRevisionPin, rank: u32) -> bool {
    exists|k: int|
        0 <= k < candidates.len() && (#[trigger] candidates[k]).record == pin.record && candidates[k].revision
            == pin.revision && candidates[k].rank == rank
}

proof fn rank_is_found(candidates: Seq<RecallCaseCandidate>, pin: RecordRevisionPin, n: nat)
    requires
        n <= candidates.len(),
    ensures
        match baseline_rank(candidates, pin, n) {
            Some(rank) => is_ranked(candidates, pin, rank),
            None => forall|k: int|
                0 <= k < n ==> (#[trigger] candidates[k]).record != pin.record || candidates[k].revision
                    != pin.revision,
        },
    decreases n,
{
    if n > 0 {
        rank_is_found(candidates, pin, (n - 1) as nat);
        if candidates[n - 1].record == pin.record && candidates[n - 1].revision == pin.revision {
            assert(is_ranked(candidates, pin, candidates[n - 1].rank));
        }
    }
}

/// An activation is asked for by the system, of one to 64 different records, each at a
/// revision that the recall case has. They are taken up in the order of their ranks
/// there.
pub proof fn activations_are_heard(
    s: StoreModel,
    actor: Actor,
    input: ShadowActivationRequestModel,
)
    ensures
        s.activation_candidates(actor, input) is Ok <==> {
            &&& actor is System
            &&& 1 <= input.candidates.len() <= 64
            &&& input.candidates.no_duplicates()
            &&& s.recall_cases.contains_key(input.recall_case.id)
            &&& s.recall_cases[input.recall_case.id].revision == input.recall_case.revision
            &&& forall|i: int|
                0 <= i < input.candidates.len() ==> is_pinned(
                    s.recall_cases[input.recall_case.id].candidates,
                    #[trigger] input.candidates[i],
                )
        },
        s.activation_candidates(actor, input) matches Ok(candidates) ==> {
            &&& candidates.len() == input.candidates.len()
            &&& forall|pin: RecordRevisionPin|
                input.candidates.contains(pin) <==> #[trigger] pins_of(candidates).contains(pin)
            &&& forall|i: int|
                0 <= i < candidates.len() ==> is_ranked(
                    s.recall_cases[input.recall_case.id].candidates,
                    (#[trigger] candidates[i]).pin,
                    candidates[i].baseline,
                )
            &&& forall|i: int, j: int|
                0 <= i < j < candidates.len() ==> (#[trigger] candidates[i]).baseline <= (
                #[trigger] candidates[j]).baseline && candidates[i].pin != candidates[j].pin
        },
{
    reveal(StoreModel::activation_candidates);
    let pins = input.candidates;
    vstd::seq_lib::seq_to_set_is_finite(pins);
    lists_are_as_long(pins.to_set());
    if pins.no_duplicates() {
        pins.unique_seq_to_set();
    } else {
        assert(pins.to_set().len() != pins.len()) by {
            if pins.to_set().len() == pins.len() {
                pins.lemma_no_dup_set_cardinality();
            }
        }
    }
    if s.recall_cases.contains_key(input.recall_case.id) {
        let case = s.recall_cases[input.recall_case.id];
        baselines_are_ranks(case.candidates, pins, pins.len());
        match baseline_pins(case.candidates, pins, pins.len()) {
            Some(found) => {
                assert forall|i: int| 0 <= i < pins.len() implies is_pinned(case.candidates, #[trigger] pins[i]) by {
                    assert(found[i].pin == pins[i]);
                    assert(is_ranked(case.candidates, pins[i], found[i].baseline));
                }
                if pins.no_duplicates() {
                    vstd::seq_lib::seq_to_set_is_finite(found);
                    lists_are_as_long(found.to_set());
                    in_order_lists(found.to_set());
                    assert(found.no_duplicates()) by {
                        assert forall|i: int, j: int| 0 <= i < found.len() && 0 <= j < found.len() && i
                            != j implies found[i] != found[j] by {
                            assert(found[i].pin == pins[i] && found[j].pin == pins[j]);
                        }
                    }
                    found.unique_seq_to_set();
                    let candidates = in_order(found.to_set());
                    assert forall|i: int| 0 <= i < candidates.len() implies is_ranked(
                        case.candidates,
                        (#[trigger] candidates[i]).pin,
                        candidates[i].baseline,
                    ) by {
                        assert(candidates.contains(candidates[i]));
                        let k = found.index_of(candidates[i]);
                        assert(found[k] == candidates[i]);
                    }
                    assert forall|i: int, j: int| 0 <= i < j < candidates.len() implies (
                    #[trigger] candidates[i]).baseline <= (#[trigger] candidates[j]).baseline && candidates[i].pin
                        != candidates[j].pin by {
                        assert(candidates[i].rank() < candidates[j].rank());
                        pins_are_in_span(candidates[i].pin);
                        pins_are_in_span(candidates[j].pin);
                        assert(candidates.contains(candidates[i]) && candidates.contains(candidates[j]));
                        let k = found.index_of(candidates[i]);
                        let l = found.index_of(candidates[j]);
                        assert(found[k] == candidates[i] && found[l] == candidates[j]);
                        assert(k != l);
                        assert(pins[k] != pins[l]);
                    }
                    assert forall|pin: RecordRevisionPin| pins.contains(pin) <==> #[trigger] pins_of(
                        candidates,
                    ).contains(pin) by {
                        if pins.contains(pin) {
                            let k = pins.index_of(pin);
                            assert(found[k].pin == pin);
                            assert(found.to_set().contains(found[k]));
                            assert(candidates.contains(found[k]));
                            let i = candidates.index_of(found[k]);
                            assert(pins_of(candidates)[i] == pin);
                        }
                        if pins_of(candidates).contains(pin) {
                            let i = pins_of(candidates).index_of(pin);
                            assert(candidates[i].pin == pin);
                            assert(candidates.contains(candidates[i]));
                            let k = found.index_of(candidates[i]);
                            assert(found[k] == candidates[i]);
                            assert(pins[k] == pin);
                        }
                    }
                }
            },
            None => {
            },
        }
    }
}

proof fn pins_are_in_span(pin: RecordRevisionPin)
    ensures
        0 <= pin.rank() < pin_span(),
{
    assert(0 <= pin.record.rank() < record_span());
}

/// A list in order has a member before another if and only if it ranks before it.
proof fn places_follow_ranks<K: Keyed>(items: Seq<K>, a: K, b: K)
    requires
        increasing(items),
        items.contains(a),
        items.contains(b),
    ensures
        0 <= items.index_of(a) < items.len(),
        0 <= items.index_of(b) < items.len(),
        items.index_of(a) < items.index_of(b) <==> a.rank() < b.rank(),
{
    let i = items.index_of(a);
    let j = items.index_of(b);
    assert(items[i] == a && items[j] == b);
    if i < j {
        assert(items[i].rank() < items[j].rank());
    } else if j < i {
        assert(items[j].rank() < items[i].rank());
    }
}

/// In the shadow, candidates stand by what they received, the most first, and candidates
/// that received as much stand as they stood before.
pub proof fn more_activation_ranks_first(candidates: Seq<BaselinePin>, totals: Seq<i64>, i: int, j: int)
    requires
        totals.len() == candidates.len(),
        candidates.len() <= 64,
        increasing(candidates),
        0 <= i < candidates.len(),
        0 <= j < candidates.len(),
    ensures
        ({
            let traces = StoreModel::candidate_traces(candidates, totals);
            &&& traces.len() == candidates.len()
            &&& traces[i].candidate == candidates[i].pin && traces[i].baseline_rank == candidates[i].baseline
            &&& traces[i].activation_score_micros == totals[i]
            &&& traces[i].shadow_rank < candidates.len()
            &&& traces[i].shadow_rank < traces[j].shadow_rank <==> (totals[i] > totals[j] || (totals[i] == totals[j]
                && i < j))
        }),
{
    let all = Seq::new(candidates.len(), |k: int| ShadowPin { total: totals[k], candidate: candidates[k] });
    vstd::seq_lib::seq_to_set_is_finite(all);
    in_order_lists(all.to_set());
    lists_are_as_long(all.to_set());
    assert(all.no_duplicates()) by {
        assert forall|k: int, l: int| 0 <= k < all.len() && 0 <= l < all.len() && k != l implies all[k] != all[l] by {
            if k < l {
                assert(candidates[k].rank() < candidates[l].rank());
            } else {
                assert(candidates[l].rank() < candidates[k].rank());
            }
        }
    }
    all.unique_seq_to_set();
    let order = StoreModel::shadow_order(candidates, totals);
    assert(order == in_order(all.to_set()));
    assert(all.to_set().contains(all[i]) && all.to_set().contains(all[j]));
    assert(order.contains(all[i]) && order.contains(all[j]));
    places_follow_ranks(order, all[i], all[j]);
    pins_are_in_span(candidates[i].pin);
    pins_are_in_span(candidates[j].pin);
    if i < j {
        assert(candidates[i].rank() < candidates[j].rank());
    } else if j < i {
        assert(candidates[j].rank() < candidates[i].rank());
    }
    assert(0 <= candidates[i].rank() < candidate_span());
    assert(0 <= candidates[j].rank() < candidate_span());
}

/// The trace of an activation tells what it was made of: the candidates that were asked
/// for, each with its rank in the recall case and with the sum of what leads to it; the
/// contributions of the signals that lead from one candidate to another, all of them and
/// no others; and the places that the candidates would have, the most activated first and
/// otherwise as they stood before.
pub proof fn traces_tell_the_activation(
    s: StoreModel,
    operation: OperationContext,
    input: ShadowActivationRequestModel,
    request: Seq<u8>,
    fresh: FreshModel,
    after: StoreModel,
    trace: ActivationTraceModel,
    heads: Seq<RelationHeadWeight>,
)
    requires
        s.shadow_activate(operation, input, request, fresh) == MemoryResult::Ok((after, trace)),
        !s.operations.contains_key(operation.id),
        s.activation_heads(input.evaluator, input.profile) == MemoryResult::Ok(heads),
    ensures
        trace.recall_case == input.recall_case && trace.evaluator == input.evaluator && trace.profile
            == input.profile,
        trace.candidates.len() == input.candidates.len(),
        forall|pin: RecordRevisionPin| #[trigger]
            input.candidates.contains(pin) <==> exists|i: int|
                0 <= i < trace.candidates.len() && (#[trigger] trace.candidates[i]).candidate == pin,
        forall|i: int|
            0 <= i < trace.candidates.len() ==> (#[trigger] trace.candidates[i]).activation_score_micros == received(
                trace.contributions,
                trace.candidates[i].candidate,
            ) && is_ranked(
                s.recall_cases[input.recall_case.id].candidates,
                trace.candidates[i].candidate,
                trace.candidates[i].baseline_rank,
            ),
        forall|i: int, j: int|
            0 <= i < j < trace.candidates.len() ==> (#[trigger] trace.candidates[i]).baseline_rank <= (
            #[trigger] trace.candidates[j]).baseline_rank,
        forall|i: int, j: int|
            0 <= i < trace.candidates.len() && 0 <= j < trace.candidates.len() ==> ((
            #[trigger] trace.candidates[i]).shadow_rank < (#[trigger] trace.candidates[j]).shadow_rank <==> (
            trace.candidates[i].activation_score_micros > trace.candidates[j].activation_score_micros || (
            trace.candidates[i].activation_score_micros == trace.candidates[j].activation_score_micros && i < j))),
        forall|k: int|
            0 <= k < trace.contributions.len() ==> input.candidates.contains(
                (#[trigger] trace.contributions[k]).from,
            ) && input.candidates.contains(trace.contributions[k].to) && s.contribution(
                input.evaluator,
                input.profile,
                heads,
                trace.contributions[k].from,
                trace.contributions[k].to,
            ) == MemoryResult::Ok(Some(trace.contributions[k])),
        forall|from: RecordRevisionPin, to: RecordRevisionPin|
            input.candidates.contains(from) && input.candidates.contains(to) ==> match #[trigger] s.contribution(
                input.evaluator,
                input.profile,
                heads,
                from,
                to,
            ) {
                Ok(Some(found)) => trace.contributions.contains(found),
                Ok(None) => true,
                Err(_) => false,
            },
{
    reveal(StoreModel::replay);
    activations_are_heard(s, operation.actor, input);
    let candidates = s.activation_candidates(operation.actor, input)->Ok_0;
    let n = candidates.len();
    assert(increasing(candidates)) by {
        reveal(StoreModel::activation_candidates);
        let pins = baseline_pins(
            s.recall_cases[input.recall_case.id].candidates,
            input.candidates,
            input.candidates.len(),
        )->Some_0;
        vstd::seq_lib::seq_to_set_is_finite(pins);
        in_order_lists(pins.to_set());
    }
    let (totals, contributions) = s.activated(input.evaluator, input.profile, heads, candidates, n * n)->Ok_0;
    totals_are_received(s, input.evaluator, input.profile, heads, candidates, n * n);
    contributions_come_from_pairs(s, input.evaluator, input.profile, heads, candidates, n * n);
    assert(trace.contributions == contributions);
    assert(trace.candidates == StoreModel::candidate_traces(candidates, totals));
    assert forall|i: int, j: int| 0 <= i < n && 0 <= j < n implies ((#[trigger] trace.candidates[i]).shadow_rank < (
    #[trigger] trace.candidates[j]).shadow_rank <==> (trace.candidates[i].activation_score_micros
        > trace.candidates[j].activation_score_micros || (trace.candidates[i].activation_score_micros
        == trace.candidates[j].activation_score_micros && i < j))) by {
        more_activation_ranks_first(candidates, totals, i, j);
    }
    assert forall|i: int| 0 <= i < n implies (#[trigger] trace.candidates[i]).candidate == candidates[i].pin
        && trace.candidates[i].baseline_rank == candidates[i].baseline
        && trace.candidates[i].activation_score_micros == totals[i] by {}
    assert forall|pin: RecordRevisionPin| #[trigger] input.candidates.contains(pin) <==> exists|i: int|
        0 <= i < n && (#[trigger] trace.candidates[i]).candidate == pin by {
        if input.candidates.contains(pin) {
            assert(pins_of(candidates).contains(pin));
            let i = pins_of(candidates).index_of(pin);
            assert(trace.candidates[i].candidate == pin);
        }
        if exists|i: int| 0 <= i < n && (#[trigger] trace.candidates[i]).candidate == pin {
            let i = choose|i: int| 0 <= i < n && (#[trigger] trace.candidates[i]).candidate == pin;
            assert(pins_of(candidates)[i] == pin);
            assert(pins_of(candidates).contains(pin));
        }
    }
    assert forall|k: int| 0 <= k < contributions.len() implies input.candidates.contains(
        (#[trigger] contributions[k]).from,
    ) && input.candidates.contains(contributions[k].to) && s.contribution(
        input.evaluator,
        input.profile,
        heads,
        contributions[k].from,
        contributions[k].to,
    ) == MemoryResult::Ok(Some(contributions[k])) by {
        let (from, to) = choose|from: int, to: int|
            0 <= from < candidates.len() && 0 <= to < candidates.len() && s.contribution(
                input.evaluator,
                input.profile,
                heads,
                (#[trigger] candidates[from]).pin,
                (#[trigger] candidates[to]).pin,
            ) == MemoryResult::Ok(Some(contributions[k]));
        contributions_come_from_signals(
            s,
            input.evaluator,
            input.profile,
            heads,
            candidates[from].pin,
            candidates[to].pin,
        );
        assert(pins_of(candidates)[from] == candidates[from].pin && pins_of(candidates)[to] == candidates[to].pin);
        assert(pins_of(candidates).contains(candidates[from].pin));
        assert(pins_of(candidates).contains(candidates[to].pin));
    }
    assert forall|from: RecordRevisionPin, to: RecordRevisionPin|
        input.candidates.contains(from) && input.candidates.contains(to) implies match #[trigger] s.contribution(
        input.evaluator,
        input.profile,
        heads,
        from,
        to,
    ) {
        Ok(Some(found)) => trace.contributions.contains(found),
        Ok(None) => true,
        Err(_) => false,
    } by {
        assert(pins_of(candidates).contains(from) && pins_of(candidates).contains(to));
        let f = pins_of(candidates).index_of(from);
        let t = pins_of(candidates).index_of(to);
        let m = n as int;
        assert(f * m + t < m * m) by (nonlinear_arith)
            requires
                0 <= f < m,
                0 <= t < m,
        ;
        pairs_contribute(s, input.evaluator, input.profile, heads, candidates, n * n, f, t);
    }
}

/// Activations go by what is in force: the evaluator and the profile are the current
/// revisions, the evaluator is active, and the profile is available and for it.
pub proof fn activations_go_by_what_is_in_force(
    s: StoreModel,
    evaluator: RelationEvaluatorPin,
    profile: RelationProfilePin,
)
    ensures
        s.activation_heads(evaluator, profile) is Ok <==> {
            &&& s.evaluator_at(evaluator.id, RevisionSelector::Head) matches Some(current)
            &&& current.revision == evaluator.revision && current.state == RecordState::Active
            &&& s.profile_at(profile.id, RevisionSelector::Head) matches Some(found)
            &&& found.header.revision == profile.revision
            &&& found.availability == RelationProfileAvailability::Available
            &&& found.header.evaluator == evaluator
        },
        s.activation_heads(evaluator, profile) matches Ok(heads) ==> heads == s.profile_at(
            profile.id,
            RevisionSelector::Head,
        )->Some_0.header.heads,
{
    reveal(StoreModel::activation_heads);
}

} // verus!
