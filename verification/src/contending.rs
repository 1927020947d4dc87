//! How memories that contradict the answers are scored, which drafts are considered, and
//! which rows a search is answered with.

use vstd::prelude::*;
use crate::candidates::{ScoredNode, best_scored, conflict_scores, no_number, number_rank, opponent_scores};
use crate::ids::Ulid;
use crate::naming::ulid_read;
use crate::order::{Keyed, in_order, in_order_lists};
use crate::records::graph::{EvidenceDraftModel, RecallEvidenceModel, RecallFilterModel};
use crate::searching::{ReachedRowModel, RowPick, RowsModel, SeedRowModel, with_reached, with_seeds};
use crate::snapshot::SnapshotModel;
use crate::testifying::greater_scores_are_taken;

verus! {

/// Whether one of the first `n` pieces of evidence names a memory as contradicting it.
pub open spec fn opposes_some(evidence: Seq<RecallEvidenceModel>, n: nat, id: Ulid) -> bool {
    exists|i: int| 0 <= i < n && (#[trigger] evidence[i]).conflicts.contains(id)
}

proof fn opponents_take_scores(
    scores: Map<Ulid, u32>,
    existing: Set<Ulid>,
    conflicts: Seq<Ulid>,
    score_bits: u32,
    n: nat,
    id: Ulid,
)
    requires
        n <= conflicts.len(),
        !no_number(score_bits),
        scores.contains_key(id) ==> !no_number(scores[id]),
    ensures
        ({
            let after = opponent_scores(scores, existing, conflicts, score_bits, n);
            let named = !existing.contains(id) && exists|k: int| 0 <= k < n && #[trigger] conflicts[k] == id;
            &&& after.contains_key(id) <==> scores.contains_key(id) || named
            &&& !named && scores.contains_key(id) ==> after[id] == scores[id]
            &&& named ==> number_rank(after[id]) >= number_rank(score_bits)
            &&& after.contains_key(id) ==> !no_number(after[id])
            &&& scores.contains_key(id) ==> number_rank(after[id]) >= number_rank(scores[id])
            &&& after.contains_key(id) ==> after[id] == score_bits && named || (scores.contains_key(id) && after[id]
                == scores[id])
        }),
    decreases n,
{
    if n > 0 {
        let m = (n - 1) as nat;
        opponents_take_scores(scores, existing, conflicts, score_bits, m, id);
        let before = opponent_scores(scores, existing, conflicts, score_bits, m);
        if conflicts[m as int] == id {
            assert(exists|k: int| 0 <= k < n && #[trigger] conflicts[k] == id);
            if before.contains_key(id) {
                greater_scores_are_taken(before[id], score_bits);
            }
        } else {
            assert((exists|k: int| 0 <= k < n && #[trigger] conflicts[k] == id) <==> (exists|k: int|
                0 <= k < m && #[trigger] conflicts[k] == id));
        }
    }
}

/// A memory that contradicts answers, and is none itself, is scored like the best of those
/// that it contradicts; and no other memory is scored for contradicting.
pub proof fn opponents_score_like_what_they_contradict(
    evidence: Seq<RecallEvidenceModel>,
    existing: Set<Ulid>,
    n: nat,
    id: Ulid,
)
    requires
        n <= evidence.len(),
        forall|i: int| 0 <= i < evidence.len() ==> !no_number((#[trigger] evidence[i]).score_bits),
    ensures
        conflict_scores(evidence, existing, n).contains_key(id) <==> !existing.contains(id) && opposes_some(
            evidence,
            n,
            id,
        ),
        conflict_scores(evidence, existing, n).contains_key(id) ==> {
            let score = conflict_scores(evidence, existing, n)[id];
            &&& !no_number(score)
            &&& exists|i: int|
                0 <= i < n && (#[trigger] evidence[i]).conflicts.contains(id) && evidence[i].score_bits == score
            &&& forall|i: int|
                0 <= i < n && (#[trigger] evidence[i]).conflicts.contains(id) ==> number_rank(score) >= number_rank(
                    evidence[i].score_bits,
                )
        },
    decreases n,
{
    if n > 0 {
        let m = (n - 1) as nat;
        opponents_score_like_what_they_contradict(evidence, existing, m, id);
        let before = conflict_scores(evidence, existing, m);
        let after = conflict_scores(evidence, existing, n);
        let last = evidence[m as int];
        opponents_take_scores(before, existing, last.conflicts, last.score_bits, last.conflicts.len(), id);
        if last.conflicts.contains(id) {
            let k = last.conflicts.index_of(id);
            assert(last.conflicts[k] == id);
            assert(evidence[m as int].conflicts.contains(id));
        }
        if opposes_some(evidence, m, id) {
            let i = choose|i: int| 0 <= i < m && (#[trigger] evidence[i]).conflicts.contains(id);
            assert(evidence[i].conflicts.contains(id));
            assert(opposes_some(evidence, n, id));
        }
        if opposes_some(evidence, n, id) && !last.conflicts.contains(id) {
            let i = choose|i: int| 0 <= i < n && (#[trigger] evidence[i]).conflicts.contains(id);
            assert(i < m);
            assert(opposes_some(evidence, m, id));
        }
        if after.contains_key(id) {
            if before.contains_key(id) && after[id] == before[id] {
                let i = choose|i: int|
                    0 <= i < m && (#[trigger] evidence[i]).conflicts.contains(id) && evidence[i].score_bits
                        == before[id];
                assert(evidence[i].conflicts.contains(id) && evidence[i].score_bits == after[id]);
            } else {
                assert(after[id] == last.score_bits);
                assert(last.conflicts.contains(id));
                assert(evidence[m as int].conflicts.contains(id) && evidence[m as int].score_bits == after[id]);
            }
            assert forall|i: int| 0 <= i < n && (#[trigger] evidence[i]).conflicts.contains(id) implies number_rank(
                after[id],
            ) >= number_rank(evidence[i].score_bits) by {
                if i < m {
                    assert(opposes_some(evidence, m, id));
                    assert(before.contains_key(id));
                }
            }
        }
    }
}

proof fn places_tell(a: ScoredNode, b: ScoredNode)
    ensures
        a.rank() < b.rank() <==> number_rank(a.score_bits) > number_rank(b.score_bits) || (number_rank(a.score_bits)
            == number_rank(b.score_bits) && a.id.0 < b.id.0),
{
}

/// Of scored memories the best are taken, up to a number of them, the better one before the
/// other and of two that are as good the one with the smaller number: whatever is left out
/// comes after all that is taken.
pub proof fn better_scores_come_first(scored: Seq<ScoredNode>, limit: usize, one: ScoredNode, i: int, j: int)
    ensures
        best_scored(scored, limit).len() <= limit,
        0 <= i < best_scored(scored, limit).len() ==> scored.contains(best_scored(scored, limit)[i]),
        0 <= i < j < best_scored(scored, limit).len() ==> {
            let a = best_scored(scored, limit)[i];
            let b = best_scored(scored, limit)[j];
            number_rank(a.score_bits) > number_rank(b.score_bits) || (a.score_bits == b.score_bits && a.id.0 < b.id.0)
        },
        scored.contains(one) && best_scored(scored, limit).len() < limit ==> best_scored(scored, limit).contains(one),
        scored.contains(one) && !best_scored(scored, limit).contains(one) && 0 <= i < limit ==> {
            let a = best_scored(scored, limit)[i];
            number_rank(a.score_bits) > number_rank(one.score_bits) || (a.score_bits == one.score_bits && a.id.0
                < one.id.0)
        },
{
    let best = best_scored(scored, limit);
    let set = scored.to_set();
    vstd::seq_lib::seq_to_set_is_finite(scored);
    in_order_lists(set);
    let all = in_order(set);
    if 0 <= i < best.len() {
        assert(best[i] == all[i]);
        assert(all.contains(all[i]));
        assert(set.contains(all[i]));
    }
    if 0 <= i < j < best.len() {
        assert(best[j] == all[j]);
        assert(all[i].rank() < all[j].rank());
        places_tell(all[i], all[j]);
    }
    if scored.contains(one) {
        assert(set.contains(one));
        assert(all.contains(one));
        let at = all.index_of(one);
        assert(all[at] == one);
        if at < best.len() {
            assert(best[at] == one);
        } else if 0 <= i < limit {
            assert(best[i] == all[i]);
            assert(all[i].rank() < all[at].rank());
            places_tell(all[i], one);
        }
    }
}

/// A draft is considered if and only if its memory is there, is valid, answers the filter
/// and, where it has to be traced to something, is; and it is considered as it was drafted.
pub proof fn drafts_are_considered(
    s: SnapshotModel,
    drafts: Map<Ulid, EvidenceDraftModel>,
    filter: RecallFilterModel,
    id: Ulid,
)
    ensures
        s.considerable(drafts, filter).contains_key(id) <==> {
            &&& drafts.contains_key(id)
            &&& s.nodes.contains_key(id)
            &&& s.nodes[id].valid
            &&& filter.matches(s.nodes[id])
            &&& filter.requires_provenance(s.nodes[id]) ==> in_order(s.sources_of(id)).len() > 0
        },
        s.considerable(drafts, filter).contains_key(id) ==> s.considerable(drafts, filter)[id] == drafts[id],
{
}

/// Whether a memory is named by one of the first `n` seeds, or by what a seed that names a
/// memory leads to.
pub open spec fn named_by(seeds: Seq<SeedRowModel>, n: nat, name: Seq<char>) -> bool {
    exists|i: int| 0 <= i < n && seed_names(#[trigger] seeds[i], name)
}

/// Whether a seed names a memory, itself or by what it leads to.
pub open spec fn seed_names(seed: SeedRowModel, name: Seq<char>) -> bool {
    seed.node_id == name || (ulid_read(seed.node_id) is Ok && leads_to(seed.reached, seed.reached.len(), name))
}

/// Whether one of the first `n` memories that were reached has a name.
pub open spec fn leads_to(reached: Seq<ReachedRowModel>, n: nat, name: Seq<char>) -> bool {
    exists|k: int| 0 <= k < n && (#[trigger] reached[k]).node_id == name
}

/// Whether a row is about a seed, or about a stored memory that a seed leads to.
pub open spec fn is_sound_pick(seeds: Seq<SeedRowModel>, n: nat, pick: RowPick) -> bool {
    &&& pick.seed < n
    &&& pick.reached matches Some(at) ==> at < seeds[pick.seed as int].reached.len() && seeds[pick.seed as int].reached[
        at as int].stored && ulid_read(seeds[pick.seed as int].node_id) is Ok
}

proof fn reached_are_named(seeds: Seq<SeedRowModel>, rows: RowsModel, seed: usize, k: nat, n: nat)
    requires
        seed < n <= seeds.len() <= usize::MAX,
        k <= seeds[seed as int].reached.len() <= usize::MAX,
        ulid_read(seeds[seed as int].node_id) is Ok,
        forall|i: int| 0 <= i < rows.picks.len() ==> is_sound_pick(seeds, n, #[trigger] rows.picks[i]),
    ensures
        ({
            let after = with_reached(rows, seed, seeds[seed as int].reached, k);
            &&& forall|name: Seq<char>| #[trigger]
                after.emitted.contains(name) <==> rows.emitted.contains(name) || leads_to(
                    seeds[seed as int].reached,
                    k,
                    name,
                )
            &&& forall|i: int| 0 <= i < after.picks.len() ==> is_sound_pick(seeds, n, #[trigger] after.picks[i])
        }),
    decreases k,
{
    let reached = seeds[seed as int].reached;
    if k > 0 {
        let m = (k - 1) as nat;
        reached_are_named(seeds, rows, seed, m, n);
        let before = with_reached(rows, seed, reached, m);
        let after = with_reached(rows, seed, reached, k);
        let row = reached[m as int];
        assert forall|name: Seq<char>| #[trigger] after.emitted.contains(name) <==> rows.emitted.contains(name)
            || leads_to(reached, k, name) by {
            if row.node_id == name {
                assert(reached[m as int].node_id == name);
                assert(leads_to(reached, k, name));
            } else {
                if leads_to(reached, k, name) {
                    let j = choose|j: int| 0 <= j < k && (#[trigger] reached[j]).node_id == name;
                    assert(reached[j].node_id == name && j < m);
                    assert(leads_to(reached, m, name));
                }
                if leads_to(reached, m, name) {
                    let j = choose|j: int| 0 <= j < m && (#[trigger] reached[j]).node_id == name;
                    assert(reached[j].node_id == name);
                    assert(leads_to(reached, k, name));
                }
                assert(after.emitted.contains(name) <==> before.emitted.contains(name));
            }
        }
        assert forall|i: int| 0 <= i < after.picks.len() implies is_sound_pick(seeds, n, #[trigger] after.picks[i]) by {
            if i < before.picks.len() {
                assert(after.picks[i] == before.picks[i]);
            }
        }
    }
}

/// Every memory that seeds name, or lead to, is gone through, and no other; and a row is
/// about a seed or about a stored memory that a seed with a proper name leads to.
pub proof fn rows_miss_nothing(seeds: Seq<SeedRowModel>, n: nat)
    requires
        n <= seeds.len() <= usize::MAX,
        forall|i: int| 0 <= i < seeds.len() ==> (#[trigger] seeds[i]).reached.len() <= usize::MAX,
    ensures
        forall|name: Seq<char>| #[trigger]
            with_seeds(seeds, n).emitted.contains(name) <==> named_by(seeds, n, name),
        forall|i: int|
            0 <= i < with_seeds(seeds, n).picks.len() ==> is_sound_pick(
                seeds,
                n,
                #[trigger] with_seeds(seeds, n).picks[i],
            ),
    decreases n,
{
    if n > 0 {
        let m = (n - 1) as nat;
        rows_miss_nothing(seeds, m);
        let before = with_seeds(seeds, m);
        let after = with_seeds(seeds, n);
        let row = seeds[m as int];
        let opened = if before.emitted.contains(row.node_id) {
            before
        } else {
            RowsModel {
                picks: before.picks.push(RowPick { seed: m as usize, reached: None }),
                emitted: before.emitted.insert(row.node_id),
            }
        };
        assert forall|i: int| 0 <= i < opened.picks.len() implies is_sound_pick(seeds, n, #[trigger] opened.picks[i]) by {
            if i < before.picks.len() {
                assert(opened.picks[i] == before.picks[i]);
                assert(is_sound_pick(seeds, m, before.picks[i]));
            }
        }
        if ulid_read(row.node_id) is Ok {
            reached_are_named(seeds, opened, m as usize, row.reached.len(), n);
        }
        assert forall|name: Seq<char>| #[trigger] after.emitted.contains(name) <==> named_by(seeds, n, name) by {
            if named_by(seeds, n, name) {
                let i = choose|i: int| 0 <= i < n && seed_names(#[trigger] seeds[i], name);
                if i < m {
                    assert(seed_names(seeds[i], name));
                    assert(named_by(seeds, m, name));
                    assert(before.emitted.contains(name));
                    assert(opened.emitted.contains(name));
                } else {
                    assert(seed_names(row, name));
                }
            }
            if before.emitted.contains(name) {
                let i = choose|i: int| 0 <= i < m && seed_names(#[trigger] seeds[i], name);
                assert(seed_names(seeds[i], name));
                assert(named_by(seeds, n, name));
            }
            if seed_names(row, name) {
                assert(seed_names(seeds[m as int], name));
                assert(named_by(seeds, n, name));
            }
        }
    }
}

} // verus!
