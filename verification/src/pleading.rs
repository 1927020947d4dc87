//! What a lawyer may say of evidence, and what a verdict leaves of it.

use vstd::prelude::*;
use crate::candidates::answered_ids;
use crate::ids::Ulid;
use crate::lawyer::{
    accepted_evidence, all_among, citable, conflict_is_known, drawn, evidence_ids, lets_cite,
    list_bytes, shows_conflict, verdicts_leave_accepted_evidence,
};
use crate::records::graph::{RecallEvidenceModel, RecallStatusModel};
use crate::records::verdict::{ConflictPair, LawyerVerdictModel, ProposedChangeModel};
use crate::ruling::{RulingModel, conclusion};

verus! {

/// Whether some evidence is about a memory.
pub open spec fn is_about(evidence: Seq<RecallEvidenceModel>, id: Ulid) -> bool {
    exists|i: int| 0 <= i < evidence.len() && (#[trigger] evidence[i]).node.id == id
}

/// Whether some evidence is about a memory, is traced to it, or is contradicted by it.
pub open spec fn may_be_cited(evidence: Seq<RecallEvidenceModel>, id: Ulid) -> bool {
    exists|i: int|
        0 <= i < evidence.len() && ((#[trigger] evidence[i]).node.id == id || evidence[i].provenance.contains(id)
            || evidence[i].conflicts.contains(id))
}

/// Whether some evidence shows that two memories contradict each other, whichever of them
/// it is about.
pub open spec fn conflict_was_shown(evidence: Seq<RecallEvidenceModel>, pair: ConflictPair) -> bool {
    exists|i: int|
        0 <= i < evidence.len() && (((#[trigger] evidence[i]).node.id == pair.left && evidence[i].conflicts.contains(
            pair.right,
        )) || (evidence[i].node.id == pair.right && evidence[i].conflicts.contains(pair.left)))
}

/// A verdict is upheld if and only if it keeps to what was shown: it accepts, rejects,
/// orders and annotates nothing but candidates, cites nothing but what the evidence names,
/// and reports no conflict but one that was shown; it accepts no candidate that it rejects;
/// and it orders accepted candidates, each once.
pub proof fn verdicts_keep_to_what_was_shown(verdict: LawyerVerdictModel, evidence: Seq<RecallEvidenceModel>)
    ensures
        verdict.fault(evidence) is None <==> {
            &&& forall|i: int|
                0 <= i < verdict.accepted_candidate_ids.len() ==> is_about(
                    evidence,
                    #[trigger] verdict.accepted_candidate_ids[i],
                )
            &&& forall|i: int|
                0 <= i < verdict.rejected_candidate_ids.len() ==> is_about(
                    evidence,
                    #[trigger] verdict.rejected_candidate_ids[i],
                )
            &&& forall|i: int|
                0 <= i < verdict.final_order.len() ==> is_about(evidence, #[trigger] verdict.final_order[i])
            &&& forall|i: int|
                0 <= i < verdict.annotations.len() ==> is_about(
                    evidence,
                    (#[trigger] verdict.annotations[i]).candidate_id,
                )
            &&& forall|i: int|
                0 <= i < verdict.cited_evidence_ids.len() ==> may_be_cited(
                    evidence,
                    #[trigger] verdict.cited_evidence_ids[i],
                )
            &&& forall|i: int, j: int|
                0 <= i < verdict.annotations.len() && 0 <= j < verdict.annotations[i].evidence_ids.len()
                    ==> may_be_cited(evidence, #[trigger] verdict.annotations[i].evidence_ids[j])
            &&& forall|i: int|
                0 <= i < verdict.unresolved_conflicts.len() ==> conflict_was_shown(
                    evidence,
                    #[trigger] verdict.unresolved_conflicts[i],
                )
            &&& forall|i: int|
                0 <= i < verdict.accepted_candidate_ids.len() ==> !verdict.rejected_candidate_ids.contains(
                    #[trigger] verdict.accepted_candidate_ids[i],
                )
            &&& forall|i: int|
                0 <= i < verdict.final_order.len() ==> verdict.accepted_candidate_ids.contains(
                    #[trigger] verdict.final_order[i],
                )
            &&& verdict.final_order.no_duplicates()
        },
{
    let candidates = answered_ids(evidence);
    assert forall|id: Ulid| #[trigger] candidates.contains(id) <==> is_about(evidence, id) by {}
    let cited = citable(evidence);
    assert forall|id: Ulid| #[trigger] cited.contains(id) <==> may_be_cited(evidence, id) by {
        if cited.contains(id) {
            let i = choose|i: int| 0 <= i < evidence.len() && lets_cite(#[trigger] evidence[i], id);
            assert(evidence[i].node.id == id || evidence[i].provenance.contains(id) || evidence[i].conflicts.contains(
                id,
            ));
        }
        if may_be_cited(evidence, id) {
            let i = choose|i: int|
                0 <= i < evidence.len() && ((#[trigger] evidence[i]).node.id == id || evidence[i].provenance.contains(id)
                    || evidence[i].conflicts.contains(id));
            assert(lets_cite(evidence[i], id));
        }
    }
    assert forall|pair: ConflictPair| #[trigger] conflict_is_known(evidence, pair) <==> conflict_was_shown(
        evidence,
        pair,
    ) by {
        if conflict_is_known(evidence, pair) {
            let i = choose|i: int| 0 <= i < evidence.len() && shows_conflict(#[trigger] evidence[i], pair);
            assert((evidence[i].node.id == pair.left && evidence[i].conflicts.contains(pair.right)) || (
            evidence[i].node.id == pair.right && evidence[i].conflicts.contains(pair.left)));
        }
        if conflict_was_shown(evidence, pair) {
            let i = choose|i: int|
                0 <= i < evidence.len() && (((#[trigger] evidence[i]).node.id == pair.left
                    && evidence[i].conflicts.contains(pair.right)) || (evidence[i].node.id == pair.right
                    && evidence[i].conflicts.contains(pair.left)));
            assert(shows_conflict(evidence[i], pair));
        }
    }
    assert(verdict.keeps_to_candidates(evidence) <==> {
        &&& forall|i: int|
            0 <= i < verdict.accepted_candidate_ids.len() ==> is_about(
                evidence,
                #[trigger] verdict.accepted_candidate_ids[i],
            )
        &&& forall|i: int|
            0 <= i < verdict.rejected_candidate_ids.len() ==> is_about(
                evidence,
                #[trigger] verdict.rejected_candidate_ids[i],
            )
        &&& forall|i: int| 0 <= i < verdict.final_order.len() ==> is_about(evidence, #[trigger] verdict.final_order[i])
        &&& forall|i: int|
            0 <= i < verdict.annotations.len() ==> is_about(evidence, (#[trigger] verdict.annotations[i]).candidate_id)
    }) by {
        members_agree(verdict.accepted_candidate_ids, evidence);
        members_agree(verdict.rejected_candidate_ids, evidence);
        members_agree(verdict.final_order, evidence);
    }
    assert(verdict.keeps_to_evidence(evidence) <==> {
        &&& forall|i: int|
            0 <= i < verdict.cited_evidence_ids.len() ==> may_be_cited(
                evidence,
                #[trigger] verdict.cited_evidence_ids[i],
            )
        &&& forall|i: int, j: int|
            0 <= i < verdict.annotations.len() && 0 <= j < verdict.annotations[i].evidence_ids.len() ==> may_be_cited(
                evidence,
                #[trigger] verdict.annotations[i].evidence_ids[j],
            )
    }) by {
        if verdict.keeps_to_evidence(evidence) {
            assert forall|i: int, j: int|
                0 <= i < verdict.annotations.len() && 0 <= j
                    < verdict.annotations[i].evidence_ids.len() implies may_be_cited(
                evidence,
                #[trigger] verdict.annotations[i].evidence_ids[j],
            ) by {
                assert(all_among(verdict.annotations[i].evidence_ids, cited));
                assert(cited.contains(verdict.annotations[i].evidence_ids[j]));
            }
            assert forall|i: int| 0 <= i < verdict.cited_evidence_ids.len() implies may_be_cited(
                evidence,
                #[trigger] verdict.cited_evidence_ids[i],
            ) by {
                assert(cited.contains(verdict.cited_evidence_ids[i]));
            }
        }
    }
    assert(verdict.is_consistent() <==> {
        &&& forall|i: int|
            0 <= i < verdict.accepted_candidate_ids.len() ==> !verdict.rejected_candidate_ids.contains(
                #[trigger] verdict.accepted_candidate_ids[i],
            )
        &&& forall|i: int|
            0 <= i < verdict.final_order.len() ==> verdict.accepted_candidate_ids.contains(
                #[trigger] verdict.final_order[i],
            )
        &&& verdict.final_order.no_duplicates()
    }) by {
        let accepted = verdict.accepted_candidate_ids.to_set();
        if all_among(verdict.final_order, accepted) {
            assert forall|i: int| 0 <= i < verdict.final_order.len() implies verdict.accepted_candidate_ids.contains(
                #[trigger] verdict.final_order[i],
            ) by {
                assert(accepted.contains(verdict.final_order[i]));
            }
        } else {
            let i = choose|i: int| 0 <= i < verdict.final_order.len() && !accepted.contains(#[trigger] verdict.final_order[i]);
            assert(!verdict.accepted_candidate_ids.contains(verdict.final_order[i]));
        }
    }
}

proof fn members_agree(ids: Seq<Ulid>, evidence: Seq<RecallEvidenceModel>)
    ensures
        all_among(ids, answered_ids(evidence)) <==> forall|i: int| 0 <= i < ids.len() ==> is_about(evidence, #[trigger] ids[i]),
{
    let candidates = answered_ids(evidence);
    assert forall|id: Ulid| #[trigger] candidates.contains(id) <==> is_about(evidence, id) by {}
    if all_among(ids, candidates) {
        assert forall|i: int| 0 <= i < ids.len() implies is_about(evidence, #[trigger] ids[i]) by {
            assert(candidates.contains(ids[i]));
        }
    } else {
        let i = choose|i: int| 0 <= i < ids.len() && !candidates.contains(#[trigger] ids[i]);
        assert(!is_about(evidence, ids[i]));
    }
}

/// Whether each piece of evidence is about another memory.
pub open spec fn about_different(evidence: Seq<RecallEvidenceModel>) -> bool {
    forall|i: int, j: int|
        0 <= i < j < evidence.len() ==> (#[trigger] evidence[i]).node.id != (#[trigger] evidence[j]).node.id
}

proof fn pools_hold_accepted(evidence: Seq<RecallEvidenceModel>, accepted: Seq<Ulid>, n: nat)
    requires
        n <= evidence.len(),
        about_different(evidence),
    ensures
        forall|id: Ulid| #[trigger]
            accepted_evidence(evidence, accepted, n).contains_key(id) <==> accepted.contains(id) && exists|i: int|
                0 <= i < n && (#[trigger] evidence[i]).node.id == id,
        forall|i: int|
            0 <= i < n && accepted.contains((#[trigger] evidence[i]).node.id) ==> accepted_evidence(
                evidence,
                accepted,
                n,
            )[evidence[i].node.id] == evidence[i],
    decreases n,
{
    if n > 0 {
        let m = (n - 1) as nat;
        pools_hold_accepted(evidence, accepted, m);
        let before = accepted_evidence(evidence, accepted, m);
        let now = accepted_evidence(evidence, accepted, n);
        let last = evidence[m as int];
        assert forall|id: Ulid| #[trigger] now.contains_key(id) <==> accepted.contains(id) && exists|i: int|
            0 <= i < n && (#[trigger] evidence[i]).node.id == id by {
            if before.contains_key(id) {
                let i = choose|i: int| 0 <= i < m && (#[trigger] evidence[i]).node.id == id;
                assert(evidence[i].node.id == id);
            }
            assert(evidence[m as int].node.id == last.node.id);
            if accepted.contains(id) && exists|i: int| 0 <= i < n && (#[trigger] evidence[i]).node.id == id {
                let i = choose|i: int| 0 <= i < n && (#[trigger] evidence[i]).node.id == id;
                if i < m {
                    assert(before.contains_key(id));
                }
            }
        }
        assert forall|i: int| 0 <= i < n && accepted.contains((#[trigger] evidence[i]).node.id) implies now[evidence[i].node.id]
            == evidence[i] by {
            if i < m {
                assert(evidence[i].node.id != evidence[m as int].node.id);
            }
        }
    }
}

/// What is drawn from a pool by different memories: those that are in it, in the order in
/// which they are asked for, and what is left is the rest.
proof fn drawing_keeps_order(pool: Map<Ulid, RecallEvidenceModel>, ids: Seq<Ulid>, n: nat)
    requires
        n <= ids.len(),
        ids.no_duplicates(),
        forall|id: Ulid| #[trigger] pool.contains_key(id) ==> pool[id].node.id == id,
    ensures
        ({
            let (left, out) = drawn(pool, ids, n);
            &&& forall|id: Ulid| #[trigger]
                left.contains_key(id) <==> pool.contains_key(id) && !(exists|i: int| 0 <= i < n && #[trigger] ids[i] == id)
            &&& forall|id: Ulid| #[trigger] left.contains_key(id) ==> left[id] == pool[id]
            &&& out.len() <= n
            &&& forall|k: int|
                0 <= k < out.len() ==> {
                    &&& pool.contains_key((#[trigger] out[k]).node.id)
                    &&& out[k] == pool[out[k].node.id]
                    &&& 0 <= ids.index_of(out[k].node.id) < n
                    &&& ids[ids.index_of(out[k].node.id)] == out[k].node.id
                }
            &&& forall|k: int, l: int|
                0 <= k < l < out.len() ==> ids.index_of((#[trigger] out[k]).node.id) < ids.index_of(
                    (#[trigger] out[l]).node.id,
                )
            &&& forall|i: int|
                0 <= i < n && pool.contains_key(#[trigger] ids[i]) ==> out.contains(pool[ids[i]])
            &&& (forall|i: int| 0 <= i < n ==> pool.contains_key(#[trigger] ids[i])) ==> out.len() == n && forall|k: int|
                0 <= k < n ==> #[trigger] out[k] == pool[ids[k]]
        }),
    decreases n,
{
    if n > 0 {
        let m = (n - 1) as nat;
        drawing_keeps_order(pool, ids, m);
        let (left, out) = drawn(pool, ids, m);
        let (rest, all) = drawn(pool, ids, n);
        let last = ids[m as int];
        assert(!(exists|i: int| 0 <= i < m && #[trigger] ids[i] == last)) by {
            if exists|i: int| 0 <= i < m && #[trigger] ids[i] == last {
                let i = choose|i: int| 0 <= i < m && #[trigger] ids[i] == last;
                assert(ids[i] == ids[m as int]);
            }
        }
        assert(ids.index_of(last) == m) by {
            assert(ids[m as int] == last);
            assert(ids.contains(last));
            assert(ids[ids.index_of(last)] == last);
        }
        assert(left.contains_key(last) <==> pool.contains_key(last));
        assert forall|id: Ulid| #[trigger] rest.contains_key(id) <==> pool.contains_key(id) && !(exists|i: int|
            0 <= i < n && #[trigger] ids[i] == id) by {
            if exists|i: int| 0 <= i < n && #[trigger] ids[i] == id {
                let i = choose|i: int| 0 <= i < n && #[trigger] ids[i] == id;
                if i < m {
                    assert(ids[i] == id);
                    assert(!left.contains_key(id));
                }
            } else {
                assert(id != last) by {
                    assert(ids[m as int] == last);
                }
                assert(!(exists|i: int| 0 <= i < m && #[trigger] ids[i] == id));
            }
        }
        if pool.contains_key(last) {
            assert(all == out.push(pool[last]));
            assert(all[out.len() as int] == pool[last]);
        }
        assert forall|k: int| 0 <= k < all.len() implies {
            &&& pool.contains_key((#[trigger] all[k]).node.id)
            &&& all[k] == pool[all[k].node.id]
            &&& 0 <= ids.index_of(all[k].node.id) < n
            &&& ids[ids.index_of(all[k].node.id)] == all[k].node.id
        } by {
            if k < out.len() {
                assert(all[k] == out[k]);
            }
        }
        assert forall|k: int, l: int| 0 <= k < l < all.len() implies ids.index_of((#[trigger] all[k]).node.id)
            < ids.index_of((#[trigger] all[l]).node.id) by {
            assert(all[k] == out[k]);
            if l < out.len() {
                assert(all[l] == out[l]);
            }
        }
        assert forall|i: int| 0 <= i < n && pool.contains_key(#[trigger] ids[i]) implies all.contains(pool[ids[i]]) by {
            if i < m {
                let k = out.index_of(pool[ids[i]]);
                assert(out[k] == pool[ids[i]]);
                assert(all[k] == pool[ids[i]]);
            }
        }
        if forall|i: int| 0 <= i < n ==> pool.contains_key(#[trigger] ids[i]) {
            assert forall|i: int| 0 <= i < m implies pool.contains_key(#[trigger] ids[i]) by {}
            assert(pool.contains_key(ids[m as int]));
            assert forall|k: int| 0 <= k < n implies #[trigger] all[k] == pool[ids[k]] by {
                if k < m {
                    assert(all[k] == out[k]);
                }
            }
        }
    }
}

/// A verdict that is upheld leaves all the evidence of accepted candidates and no other:
/// first what it orders, in its order, and then the rest in the order in which it came.
pub proof fn verdicts_order_what_they_leave(verdict: LawyerVerdictModel, evidence: Seq<RecallEvidenceModel>, i: int)
    requires
        verdict.fault(evidence) is None,
        about_different(evidence),
        0 <= i < evidence.len(),
    ensures
        ({
            let left = verdict.leaves(evidence);
            let ordered = verdict.final_order.len() as int;
            &&& left.len() >= ordered
            &&& forall|k: int| 0 <= k < ordered ==> (#[trigger] left[k]).node.id == verdict.final_order[k]
            &&& left.contains(evidence[i]) <==> verdict.accepted_candidate_ids.contains(evidence[i].node.id)
            &&& forall|k: int, l: int|
                ordered <= k < l < left.len() ==> evidence_ids(evidence).index_of((#[trigger] left[k]).node.id)
                    < evidence_ids(evidence).index_of((#[trigger] left[l]).node.id)
        }),
{
    verdicts_keep_to_what_was_shown(verdict, evidence);
    let accepted = verdict.accepted_candidate_ids;
    let pool = accepted_evidence(evidence, accepted, evidence.len());
    pools_hold_accepted(evidence, accepted, evidence.len());
    assert forall|id: Ulid| #[trigger] pool.contains_key(id) implies pool[id].node.id == id by {
        let k = choose|k: int| 0 <= k < evidence.len() && (#[trigger] evidence[k]).node.id == id;
        assert(accepted.contains(evidence[k].node.id));
        assert(pool[evidence[k].node.id] == evidence[k]);
    }
    let order = verdict.final_order;
    drawing_keeps_order(pool, order, order.len());
    let (rest, first) = drawn(pool, order, order.len());
    assert forall|k: int| 0 <= k < order.len() implies pool.contains_key(#[trigger] order[k]) by {
        assert(is_about(evidence, order[k]));
        assert(accepted.contains(order[k]));
    }
    let ids = evidence_ids(evidence);
    assert(ids.no_duplicates()) by {
        assert forall|a: int, b: int| 0 <= a < ids.len() && 0 <= b < ids.len() && a != b implies ids[a] != ids[b] by {
            if a < b {
                assert(evidence[a].node.id != evidence[b].node.id);
            } else {
                assert(evidence[b].node.id != evidence[a].node.id);
            }
        }
    }
    assert forall|id: Ulid| #[trigger] rest.contains_key(id) implies rest[id].node.id == id by {
        assert(pool.contains_key(id));
    }
    drawing_keeps_order(rest, ids, ids.len());
    let second = drawn(rest, ids, ids.len()).1;
    let left = verdict.leaves(evidence);
    assert(left == first + second);
    assert forall|k: int| 0 <= k < order.len() implies (#[trigger] left[k]).node.id == order[k] by {
        assert(left[k] == first[k]);
        assert(first[k] == pool[order[k]]);
        assert(pool.contains_key(order[k]));
    }
    assert forall|k: int, l: int| order.len() <= k < l < left.len() implies ids.index_of((#[trigger] left[k]).node.id)
        < ids.index_of((#[trigger] left[l]).node.id) by {
        assert(left[k] == second[k - order.len()]);
        assert(left[l] == second[l - order.len()]);
    }
    let id = evidence[i].node.id;
    if accepted.contains(id) {
        assert(pool.contains_key(id) && pool[id] == evidence[i]);
        if order.contains(id) {
            let k = order.index_of(id);
            assert(order[k] == id);
            assert(first[k] == pool[order[k]]);
            assert(left[k] == evidence[i]);
        } else {
            assert(rest.contains_key(id)) by {
                assert(!(exists|k: int| 0 <= k < order.len() && #[trigger] order[k] == id));
            }
            assert(ids[i] == id);
            assert(second.contains(rest[ids[i]]));
            let k = second.index_of(evidence[i]);
            assert(second[k] == evidence[i]);
            assert(left[order.len() + k] == evidence[i]);
        }
    }
    if left.contains(evidence[i]) {
        let k = left.index_of(evidence[i]);
        assert(left[k] == evidence[i]);
        verdicts_leave_accepted_evidence(verdict, evidence, k);
    }
}

/// What a list of values takes up: two brackets, the values, and a comma before each but
/// the first.
pub proof fn lists_take_up_bytes(sizes: Seq<usize>, n: nat)
    requires
        n < sizes.len(),
    ensures
        list_bytes(sizes, 0) == 2,
        list_bytes(sizes, 1) == 2 + sizes[0],
        n >= 1 ==> list_bytes(sizes, n + 1) == list_bytes(sizes, n) + 1 + sizes[n as int],
{
}

/// A change that a lawyer proposes stays among memories if the memory that it changes is
/// one of them, or both ends of the relation that it adds and all that the relation cites.
pub proof fn proposed_changes_stay_among(change: ProposedChangeModel, allowed: Set<Ulid>)
    ensures
        change.stays_among(allowed) <==> match change {
            ProposedChangeModel::SetValidity { node_id, .. } => allowed.contains(node_id),
            ProposedChangeModel::SetState { node_id, .. } => allowed.contains(node_id),
            ProposedChangeModel::AddEdge { edge, .. } => allowed.contains(edge.src) && allowed.contains(edge.dst)
                && forall|i: int| 0 <= i < edge.evidence.len() ==> allowed.contains(#[trigger] edge.evidence[i]),
        },
{
}

/// What is concluded of a query: what the verdict leaves where there is one, and otherwise
/// what was found; in either case the first of it, as much as was asked for. The answer is
/// adjudicated if there is a verdict, degraded if something was passed over, and
/// deterministic if nothing was; and a lawyer that failed fails the query unless it may be
/// passed over.
pub proof fn conclusions_are_told(
    operation_id: Ulid,
    evidence: Seq<RecallEvidenceModel>,
    ruling: RulingModel,
    degraded: Seq<Seq<char>>,
    passed_over: bool,
    limit: usize,
    i: int,
)
    ensures
        ({
            let concluded = conclusion(operation_id, evidence, ruling, degraded, passed_over, limit);
            &&& concluded is Err <==> ruling is Failed && !passed_over
            &&& concluded matches Ok(answer) ==> {
                let shown = match ruling {
                    RulingModel::Ruled(verdict) => verdict.leaves(evidence),
                    _ => evidence,
                };
                &&& answer.operation_id == operation_id
                &&& answer.evidence.len() == (if shown.len() <= limit {
                    shown.len() as int
                } else {
                    limit as int
                })
                &&& 0 <= i < answer.evidence.len() ==> answer.evidence[i] == shown[i]
                &&& answer.verdict is Some <==> ruling is Ruled
                &&& ruling matches RulingModel::Ruled(verdict) ==> answer.verdict == Some(verdict)
                &&& answer.status is Adjudicated <==> ruling is Ruled
                &&& answer.status is Deterministic <==> ruling is Unasked && degraded.len() == 0
                &&& ruling matches RulingModel::Failed(reason) ==> answer.status == (RecallStatusModel::Degraded {
                    reason,
                })
            }
        }),
{
}

} // verus!
