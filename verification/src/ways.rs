//! The graph of memories: which ways lead through it, what a memory is traced to, and what
//! lies around one.

use vstd::prelude::*;
use crate::ids::Ulid;
use crate::order::{in_order, in_order_lists};
use crate::records::graph::{EdgeFactsModel, GraphPathModel, NodeFactsModel};
use crate::slices::{
    all_filed, edge_before, edge_in_same_place, edge_place, edges_of, filed, nodes_of,
};
use crate::snapshot::{SnapshotModel, causal, other_end, standstill, uncausal};
use crate::wordlist::{text_before, text_before_is_total, text_before_is_transitive};

verus! {

/// Causes are followed to their effects and not back, everything else both ways: from a
/// memory one can walk over every relation that leaves it, and over those that lead to it
/// unless they tell a cause.
pub proof fn causes_are_followed_forward(s: SnapshotModel, id: Ulid, edge: EdgeFactsModel)
    ensures
        s.walkable(id).contains(edge) <==> (s.edges_from(id).contains(edge) || (s.edges_to(id).contains(edge)
            && edge.label != "causes"@ && edge.label != "enables"@ && edge.label != "prevents"@)),
{
    let inward = s.edges_to(id);
    uncausal_are_kept(inward, inward.len(), edge);
    let kept = uncausal(inward, inward.len());
    let all = s.edges_from(id) + kept;
    if all.contains(edge) {
        let i = all.index_of(edge);
        assert(all[i] == edge);
        if i < s.edges_from(id).len() {
            assert(s.edges_from(id)[i] == edge);
        } else {
            assert(kept[i - s.edges_from(id).len()] == edge);
            assert(kept.contains(edge));
        }
    }
    if s.edges_from(id).contains(edge) {
        let i = s.edges_from(id).index_of(edge);
        assert(all[i] == edge);
    }
    if kept.contains(edge) {
        let i = kept.index_of(edge);
        assert(all[s.edges_from(id).len() + i] == edge);
    }
    assert(inward.take(inward.len() as int) =~= inward);
}

proof fn uncausal_are_kept(edges: Seq<EdgeFactsModel>, n: nat, edge: EdgeFactsModel)
    requires
        n <= edges.len(),
    ensures
        uncausal(edges, n).contains(edge) <==> (edges.take(n as int).contains(edge) && edge.label != "causes"@
            && edge.label != "enables"@ && edge.label != "prevents"@),
    decreases n,
{
    if n > 0 {
        let m = (n - 1) as nat;
        uncausal_are_kept(edges, m, edge);
        let before = uncausal(edges, m);
        let now = uncausal(edges, n);
        let first = edges.take(m as int);
        let all = edges.take(n as int);
        assert(all =~= first.push(edges[m as int]));
        if first.contains(edge) {
            let i = first.index_of(edge);
            assert(all[i] == edge);
        }
        if all.contains(edge) && edge != edges[m as int] {
            let i = all.index_of(edge);
            assert(first[i] == edge);
        }
        assert(all[m as int] == edges[m as int]);
        if now.contains(edge) && edge != edges[m as int] {
            let i = now.index_of(edge);
            assert(before[i] == edge);
        }
        if before.contains(edge) {
            let i = before.index_of(edge);
            assert(now[i] == edge);
        }
        if !causal(edges[m as int].label) {
            assert(now[before.len() as int] == edges[m as int]);
        }
    } else {
        assert(edges.take(0) =~= Seq::empty());
    }
}

/// A step of a way: over a valid relation from one memory to the other end of it, along
/// what can be followed from there, and not to an effect from before its cause.
pub open spec fn is_step(s: SnapshotModel, from: Ulid, edge: EdgeFactsModel, to: Ulid) -> bool {
    &&& edge.valid
    &&& if edge.src == from {
        edge.dst == to
    } else {
        edge.src == to
    }
    &&& s.edges_from(from).contains(edge) || s.edges_to(from).contains(edge)
    &&& edge.label == "causes"@ || edge.label == "enables"@ || edge.label == "prevents"@ ==> {
        &&& s.edges_from(from).contains(edge)
        &&& s.nodes.contains_key(edge.src) && s.nodes.contains_key(edge.dst)
        &&& s.nodes[edge.src].valid_from_ms <= s.nodes[edge.dst].valid_from_ms
    }
}

proof fn continued_ways(
    s: SnapshotModel,
    path: GraphPathModel,
    edges: Seq<EdgeFactsModel>,
    barred: Set<Ulid>,
    n: nat,
    way: GraphPathModel,
)
    requires
        n <= edges.len(),
    ensures
        s.continuations(path, edges, barred, n).contains(way) <==> exists|j: int|
            0 <= j < n && s.continues(path, #[trigger] edges[j], barred) && way == (GraphPathModel {
                nodes: path.nodes.push(other_end(edges[j], path.nodes.last())),
                edges: path.edges.push(edges[j]),
            }),
    decreases n,
{
    if n > 0 {
        let m = (n - 1) as nat;
        continued_ways(s, path, edges, barred, m, way);
        let before = s.continuations(path, edges, barred, m);
        let now = s.continuations(path, edges, barred, n);
        let next = GraphPathModel {
            nodes: path.nodes.push(other_end(edges[m as int], path.nodes.last())),
            edges: path.edges.push(edges[m as int]),
        };
        if now.contains(way) {
            let k = now.index_of(way);
            assert(now[k] == way);
            if k < before.len() {
                assert(before[k] == way);
                assert(before.contains(way));
            } else {
                assert(s.continues(path, edges[m as int], barred));
            }
        }
        if before.contains(way) {
            let k = before.index_of(way);
            assert(now[k] == way);
        }
        if s.continues(path, edges[m as int], barred) {
            assert(now[before.len() as int] == next);
            assert(now.contains(next));
        }
        if exists|j: int|
            0 <= j < n && s.continues(path, #[trigger] edges[j], barred) && way == (GraphPathModel {
                nodes: path.nodes.push(other_end(edges[j], path.nodes.last())),
                edges: path.edges.push(edges[j]),
            }) {
            let j = choose|j: int|
                0 <= j < n && s.continues(path, #[trigger] edges[j], barred) && way == (GraphPathModel {
                    nodes: path.nodes.push(other_end(edges[j], path.nodes.last())),
                    edges: path.edges.push(edges[j]),
                });
            if j < m {
                assert(s.continues(path, edges[j], barred));
                assert(before.contains(way));
            }
        }
    }
}

proof fn advanced_ways(s: SnapshotModel, paths: Seq<GraphPathModel>, barred: Set<Ulid>, n: nat, way: GraphPathModel)
    requires
        n <= paths.len(),
    ensures
        s.advanced(paths, barred, n).contains(way) <==> exists|j: int|
            0 <= j < n && s.continuations(
                #[trigger] paths[j],
                s.walkable(paths[j].nodes.last()),
                barred,
                s.walkable(paths[j].nodes.last()).len(),
            ).contains(way),
    decreases n,
{
    if n > 0 {
        let m = (n - 1) as nat;
        advanced_ways(s, paths, barred, m, way);
        let before = s.advanced(paths, barred, m);
        let last = s.continuations(
            paths[m as int],
            s.walkable(paths[m as int].nodes.last()),
            barred,
            s.walkable(paths[m as int].nodes.last()).len(),
        );
        let now = s.advanced(paths, barred, n);
        assert(now == before + last);
        if now.contains(way) {
            let k = now.index_of(way);
            assert(now[k] == way);
            if k < before.len() {
                assert(before[k] == way);
                assert(before.contains(way));
            } else {
                assert(last[k - before.len()] == way);
                assert(last.contains(way));
            }
        }
        if before.contains(way) {
            let k = before.index_of(way);
            assert(now[k] == way);
        }
        if last.contains(way) {
            let k = last.index_of(way);
            assert(now[before.len() + k] == way);
        }
        if exists|j: int|
            0 <= j < n && s.continuations(
                #[trigger] paths[j],
                s.walkable(paths[j].nodes.last()),
                barred,
                s.walkable(paths[j].nodes.last()).len(),
            ).contains(way) {
            let j = choose|j: int|
                0 <= j < n && s.continuations(
                    #[trigger] paths[j],
                    s.walkable(paths[j].nodes.last()),
                    barred,
                    s.walkable(paths[j].nodes.last()).len(),
                ).contains(way);
            if j < m {
                assert(before.contains(way));
            }
        }
    }
}

/// A way leads on from where another one ended: the ways of one step more are the ways so
/// far, each continued over one relation that can be followed from its last memory, that
/// is valid, and that leads to a valid memory which no way has reached yet.
pub proof fn ways_lead_on(s: SnapshotModel, seed: Ulid, k: nat, way: GraphPathModel)
    ensures
        s.level(seed, k + 1).contains(way) <==> exists|before: GraphPathModel, edge: EdgeFactsModel|
            {
                &&& #[trigger] s.level(seed, k).contains(before)
                &&& #[trigger] s.walkable(before.nodes.last()).contains(edge)
                &&& s.continues(before, edge, s.within(seed, k))
                &&& way == (GraphPathModel {
                    nodes: before.nodes.push(other_end(edge, before.nodes.last())),
                    edges: before.edges.push(edge),
                })
            },
{
    let paths = s.level(seed, k);
    let barred = s.within(seed, k);
    advanced_ways(s, paths, barred, paths.len(), way);
    if s.level(seed, k + 1).contains(way) {
        let j = choose|j: int|
            0 <= j < paths.len() && s.continuations(
                #[trigger] paths[j],
                s.walkable(paths[j].nodes.last()),
                barred,
                s.walkable(paths[j].nodes.last()).len(),
            ).contains(way);
        let edges = s.walkable(paths[j].nodes.last());
        continued_ways(s, paths[j], edges, barred, edges.len(), way);
        let e = choose|e: int|
            0 <= e < edges.len() && s.continues(paths[j], #[trigger] edges[e], barred) && way == (GraphPathModel {
                nodes: paths[j].nodes.push(other_end(edges[e], paths[j].nodes.last())),
                edges: paths[j].edges.push(edges[e]),
            });
        assert(paths.contains(paths[j]));
        assert(s.walkable(paths[j].nodes.last()).contains(edges[e]));
    }
    if exists|before: GraphPathModel, edge: EdgeFactsModel|
        {
            &&& #[trigger] s.level(seed, k).contains(before)
            &&& #[trigger] s.walkable(before.nodes.last()).contains(edge)
            &&& s.continues(before, edge, s.within(seed, k))
            &&& way == (GraphPathModel {
                nodes: before.nodes.push(other_end(edge, before.nodes.last())),
                edges: before.edges.push(edge),
            })
        } {
        let (before, edge) = choose|before: GraphPathModel, edge: EdgeFactsModel|
            {
                &&& #[trigger] s.level(seed, k).contains(before)
                &&& #[trigger] s.walkable(before.nodes.last()).contains(edge)
                &&& s.continues(before, edge, s.within(seed, k))
                &&& way == (GraphPathModel {
                    nodes: before.nodes.push(other_end(edge, before.nodes.last())),
                    edges: before.edges.push(edge),
                })
            };
        let j = paths.index_of(before);
        assert(paths[j] == before);
        let edges = s.walkable(before.nodes.last());
        let e = edges.index_of(edge);
        assert(edges[e] == edge);
        continued_ways(s, before, edges, barred, edges.len(), way);
        assert(s.continues(before, edges[e], barred));
        assert(s.continuations(
            paths[j],
            s.walkable(paths[j].nodes.last()),
            barred,
            s.walkable(paths[j].nodes.last()).len(),
        ).contains(way));
    }
}

/// Every way is made of steps, from each of its memories to the next one.
pub proof fn ways_are_made_of_steps(s: SnapshotModel, seed: Ulid, k: nat, way: GraphPathModel)
    requires
        s.level(seed, k).contains(way),
    ensures
        way.nodes.len() == k + 1,
        way.edges.len() == k,
        way.nodes[0] == seed,
        forall|j: int|
            0 <= j < k ==> is_step(s, way.nodes[j], #[trigger] way.edges[j], way.nodes[j + 1]),
    decreases k,
{
    if k == 0 {
        let i = s.level(seed, 0).index_of(way);
        assert(s.level(seed, 0)[i] == standstill(seed));
    } else {
        let m = (k - 1) as nat;
        ways_lead_on(s, seed, m, way);
        let (before, edge) = choose|before: GraphPathModel, edge: EdgeFactsModel|
            {
                &&& #[trigger] s.level(seed, m).contains(before)
                &&& #[trigger] s.walkable(before.nodes.last()).contains(edge)
                &&& s.continues(before, edge, s.within(seed, m))
                &&& way == (GraphPathModel {
                    nodes: before.nodes.push(other_end(edge, before.nodes.last())),
                    edges: before.edges.push(edge),
                })
            };
        ways_are_made_of_steps(s, seed, m, before);
        causes_are_followed_forward(s, before.nodes.last(), edge);
        assert forall|j: int| 0 <= j < k implies is_step(s, way.nodes[j], #[trigger] way.edges[j], way.nodes[j + 1]) by {
            if j < m {
                assert(way.edges[j] == before.edges[j]);
                assert(way.nodes[j] == before.nodes[j]);
                assert(way.nodes[j + 1] == before.nodes[j + 1]);
            } else {
                assert(way.edges[j] == edge);
                assert(way.nodes[j] == before.nodes.last());
            }
        }
    }
}

/// The ways up to a depth are those of one step, of two steps and so on, each kind behind
/// the shorter ones.
pub proof fn ways_are_listed_by_length(s: SnapshotModel, seed: Ulid, depth: nat, way: GraphPathModel)
    ensures
        s.paths(seed, depth).contains(way) <==> exists|k: nat| 1 <= k <= depth && #[trigger] s.level(seed, k).contains(way),
        depth > 0 ==> s.paths(seed, depth) == s.paths(seed, (depth - 1) as nat) + s.level(seed, depth),
        s.paths(seed, 0).len() == 0,
    decreases depth,
{
    if depth > 0 {
        let m = (depth - 1) as nat;
        ways_are_listed_by_length(s, seed, m, way);
        let before = s.paths(seed, m);
        let last = s.level(seed, depth);
        let all = s.paths(seed, depth);
        if all.contains(way) {
            let i = all.index_of(way);
            assert(all[i] == way);
            if i < before.len() {
                assert(before[i] == way);
                assert(before.contains(way));
            } else {
                assert(last[i - before.len()] == way);
                assert(s.level(seed, depth).contains(way));
            }
        }
        if before.contains(way) {
            let i = before.index_of(way);
            assert(all[i] == way);
        }
        if last.contains(way) {
            let i = last.index_of(way);
            assert(all[before.len() + i] == way);
        }
        if exists|k: nat| 1 <= k <= depth && #[trigger] s.level(seed, k).contains(way) {
            let k = choose|k: nat| 1 <= k <= depth && #[trigger] s.level(seed, k).contains(way);
            if k < depth {
                assert(before.contains(way));
            }
        }
    }
}

/// What a memory is traced to: what it was derived from, and the memories that a relation
/// of it cites, all of them valid. A derivation traces only what was derived, and to its
/// own end and what it cites; nothing is traced over a relation that is not valid or that
/// leads to no valid memory; and no memory is traced to itself but where a relation of
/// it to itself cites it.
pub proof fn memories_are_traced(s: SnapshotModel, id: Ulid, edge: EdgeFactsModel, source: Ulid)
    requires
        s.edges_from(id).contains(edge) || s.edges_to(id).contains(edge),
    ensures
        edge.valid && edge.label == "derived_from"@ && edge.src == id && edge.dst != id && s.nodes.contains_key(edge.dst)
            && s.nodes[edge.dst].valid ==> s.sources_of(id).contains(edge.dst),
        edge.valid && edge.label != "derived_from"@ && edge.src == id && s.nodes.contains_key(edge.dst)
            && s.nodes[edge.dst].valid && edge.evidence.contains(source) && source != id && s.nodes.contains_key(
            source,
        ) && s.nodes[source].valid ==> s.sources_of(id).contains(source),
        edge.valid && edge.label != "derived_from"@ && edge.dst == id && edge.src != id && s.nodes.contains_key(edge.src)
            && s.nodes[edge.src].valid && edge.evidence.contains(source) && source != id && s.nodes.contains_key(
            source,
        ) && s.nodes[source].valid ==> s.sources_of(id).contains(source),
{
    let edges = s.edges_at(id);
    let i = if s.edges_from(id).contains(edge) {
        s.edges_from(id).index_of(edge)
    } else {
        s.edges_from(id).len() + s.edges_to(id).index_of(edge)
    };
    assert(edges[i] == edge);
    if s.gives_source(edges[i], id, edge.dst) {
        assert(s.sources_of(id).contains(edge.dst));
    }
    if s.gives_source(edges[i], id, source) {
        assert(s.sources_of(id).contains(source));
    }
}

/// Nothing else is traced: a source is a valid memory, and a valid relation of the memory
/// leads to it or cites it, which is no derivation of something else.
pub proof fn traces_are_told(s: SnapshotModel, id: Ulid, source: Ulid)
    requires
        s.sources_of(id).contains(source),
    ensures
        s.nodes.contains_key(source) && s.nodes[source].valid,
        exists|edge: EdgeFactsModel|
            {
                &&& #[trigger] s.edges_at(id).contains(edge)
                &&& edge.valid
                &&& edge.label == "derived_from"@ ==> edge.src == id && edge.dst != id
                &&& edge.evidence.contains(source) || (edge.label == "derived_from"@ && edge.dst == source)
            },
{
    let edges = s.edges_at(id);
    let i = choose|i: int| 0 <= i < edges.len() && s.gives_source(#[trigger] edges[i], id, source);
    assert(s.edges_at(id).contains(edges[i]));
}

/// Contradiction is mutual: a valid relation that contradicts sets each of two valid
/// memories against the other, and nothing else does.
pub proof fn contradiction_is_mutual(s: SnapshotModel, a: Ulid, b: Ulid, edge: EdgeFactsModel)
    requires
        a != b,
        edge.src == a && edge.dst == b,
        s.edges_from(a).contains(edge),
        s.edges_to(b).contains(edge),
        s.nodes.contains_key(a) && s.nodes[a].valid,
        s.nodes.contains_key(b) && s.nodes[b].valid,
        edge.valid && edge.label == "contradicts"@,
    ensures
        s.opponents_of(a).contains(b),
        s.opponents_of(b).contains(a),
{
    reveal_strlit("contradicts");
    reveal_strlit("derived_from");
    assert("contradicts"@.len() != "derived_from"@.len());
    let i = s.edges_from(a).index_of(edge);
    assert(s.edges_at(a)[i] == edge);
    assert(s.sets_against(s.edges_at(a)[i], a, b));
    let j = s.edges_from(b).len() + s.edges_to(b).index_of(edge);
    assert(s.edges_at(b)[j] == edge);
    assert(s.sets_against(s.edges_at(b)[j], b, a));
}

/// What contradicts a memory is a valid memory at the other end of a valid relation that
/// says so.
pub proof fn opponents_are_told(s: SnapshotModel, id: Ulid, other: Ulid)
    requires
        s.opponents_of(id).contains(other),
    ensures
        s.nodes.contains_key(other) && s.nodes[other].valid,
        exists|edge: EdgeFactsModel|
            {
                &&& #[trigger] s.edges_at(id).contains(edge)
                &&& edge.valid && edge.label == "contradicts"@
                &&& (edge.src == id && edge.dst == other) || (edge.src == other && edge.src != id)
            },
{
    let edges = s.edges_at(id);
    let i = choose|i: int| 0 <= i < edges.len() && s.sets_against(#[trigger] edges[i], id, other);
    assert(s.edges_at(id).contains(edges[i]));
}

/// Whether relations are listed by their source, then by their destination, then by their
/// name, each place once.
pub open spec fn edges_are_listed(edges: Seq<EdgeFactsModel>) -> bool {
    forall|i: int, j: int| 0 <= i < j < edges.len() ==> edge_before(#[trigger] edges[i], #[trigger] edges[j])
}

proof fn edge_order(a: EdgeFactsModel, b: EdgeFactsModel, c: EdgeFactsModel)
    ensures
        edge_before(a, b) && edge_before(b, c) ==> edge_before(a, c),
        edge_before(a, b) || edge_in_same_place(a, b) || edge_before(b, a),
        edge_in_same_place(a, b) ==> (edge_before(a, c) <==> edge_before(b, c)) && (edge_before(c, a) <==> edge_before(
            c,
            b,
        )),
        !(edge_before(a, b) && edge_in_same_place(a, b)),
{
    text_before_is_total(a.label, b.label);
    if text_before(a.label, b.label) && text_before(b.label, c.label) {
        text_before_is_transitive(a.label, b.label, c.label);
    }
}

proof fn edge_places(sorted: Seq<EdgeFactsModel>, edge: EdgeFactsModel, i: nat)
    requires
        i <= sorted.len(),
        forall|k: int| 0 <= k < i ==> edge_before(#[trigger] sorted[k], edge),
    ensures
        i <= edge_place(sorted, edge, i) <= sorted.len(),
        forall|k: int| 0 <= k < edge_place(sorted, edge, i) ==> edge_before(#[trigger] sorted[k], edge),
        edge_place(sorted, edge, i) < sorted.len() ==> !edge_before(
            sorted[edge_place(sorted, edge, i) as int],
            edge,
        ),
    decreases sorted.len() - i,
{
    if i < sorted.len() && edge_before(sorted[i as int], edge) {
        edge_places(sorted, edge, i + 1);
    }
}

/// Filing a relation keeps the list in order, puts the relation in it, and leaves every
/// relation of another place where it was in the order.
pub proof fn filing_keeps_the_list(sorted: Seq<EdgeFactsModel>, edge: EdgeFactsModel)
    requires
        edges_are_listed(sorted),
    ensures
        edges_are_listed(filed(sorted, edge)),
        filed(sorted, edge).contains(edge),
        forall|other: EdgeFactsModel|
            other != edge ==> (#[trigger] filed(sorted, edge).contains(other) <==> sorted.contains(other)
                && !edge_in_same_place(other, edge)),
{
    edge_places(sorted, edge, 0);
    let at = edge_place(sorted, edge, 0) as int;
    let now = filed(sorted, edge);
    if at < sorted.len() && edge_in_same_place(sorted[at], edge) {
        assert(now[at] == edge);
        assert forall|i: int, j: int| 0 <= i < j < now.len() implies edge_before(#[trigger] now[i], #[trigger] now[j]) by {
            assert(edge_before(sorted[i], sorted[j]));
            edge_order(sorted[at], edge, sorted[i]);
            edge_order(sorted[at], edge, sorted[j]);
        }
        assert forall|other: EdgeFactsModel| other != edge implies (#[trigger] now.contains(other) <==> sorted.contains(
            other,
        ) && !edge_in_same_place(other, edge)) by {
            if now.contains(other) {
                let i = now.index_of(other);
                assert(now[i] == other);
                assert(sorted[i] == other);
                if edge_in_same_place(other, edge) {
                    edge_order(other, edge, sorted[at]);
                    if i < at {
                        assert(edge_before(sorted[i], sorted[at]));
                    } else {
                        assert(edge_before(sorted[at], sorted[i]));
                    }
                    edge_order(sorted[i], sorted[at], edge);
                    edge_order(sorted[at], sorted[i], edge);
                }
            }
            if sorted.contains(other) && !edge_in_same_place(other, edge) {
                let i = sorted.index_of(other);
                assert(sorted[i] == other);
                assert(i != at);
                assert(now[i] == other);
            }
        }
    } else {
        assert(now[at] == edge);
        if at < sorted.len() {
            edge_order(sorted[at], edge, edge);
            assert(edge_before(edge, sorted[at]));
        }
        assert forall|i: int, j: int| 0 <= i < j < now.len() implies edge_before(#[trigger] now[i], #[trigger] now[j]) by {
            if j < at {
                assert(now[i] == sorted[i] && now[j] == sorted[j]);
            } else if j == at {
                assert(now[i] == sorted[i]);
            } else if i < at {
                assert(now[i] == sorted[i] && now[j] == sorted[j - 1]);
                assert(edge_before(sorted[i], sorted[j - 1]));
            } else if i == at {
                assert(now[j] == sorted[j - 1]);
                if j - 1 > at {
                    assert(edge_before(sorted[at], sorted[j - 1]));
                    edge_order(edge, sorted[at], sorted[j - 1]);
                }
            } else {
                assert(now[i] == sorted[i - 1] && now[j] == sorted[j - 1]);
                assert(edge_before(sorted[i - 1], sorted[j - 1]));
            }
        }
        assert forall|other: EdgeFactsModel| other != edge implies (#[trigger] now.contains(other) <==> sorted.contains(
            other,
        ) && !edge_in_same_place(other, edge)) by {
            if now.contains(other) {
                let i = now.index_of(other);
                assert(now[i] == other);
                let k = if i < at {
                    i
                } else {
                    i - 1
                };
                assert(sorted[k] == other);
                edge_order(sorted[k], edge, edge);
                if k < at {
                    assert(edge_before(sorted[k], edge));
                } else if k > at {
                    assert(edge_before(sorted[at], sorted[k]));
                    edge_order(edge, sorted[at], sorted[k]);
                    edge_order(edge, sorted[k], edge);
                }
            }
            if sorted.contains(other) && !edge_in_same_place(other, edge) {
                let i = sorted.index_of(other);
                assert(sorted[i] == other);
                if i < at {
                    assert(now[i] == other);
                } else {
                    assert(now[i + 1] == other);
                }
            }
        }
    }
}

/// Which of the first `n` memories of a list are shown: those that are there and valid, in
/// the order of the list.
proof fn valid_memories_are_shown(s: SnapshotModel, ids: Seq<Ulid>, n: nat, node: NodeFactsModel)
    requires
        n <= ids.len(),
    ensures
        s.standing_nodes(ids, n).contains(node) <==> exists|i: int|
            0 <= i < n && s.nodes.contains_key(#[trigger] ids[i]) && s.nodes[ids[i]] == node && node.valid,
    decreases n,
{
    if n > 0 {
        let m = (n - 1) as nat;
        valid_memories_are_shown(s, ids, m, node);
        let before = s.standing_nodes(ids, m);
        let now = s.standing_nodes(ids, n);
        if now.contains(node) {
            let k = now.index_of(node);
            assert(now[k] == node);
            if k < before.len() {
                assert(before[k] == node);
                assert(before.contains(node));
            } else {
                assert(s.nodes.contains_key(ids[m as int]));
            }
        }
        if before.contains(node) {
            let k = before.index_of(node);
            assert(now[k] == node);
        }
        if s.nodes.contains_key(ids[m as int]) && s.nodes[ids[m as int]].valid {
            assert(now[before.len() as int] == s.nodes[ids[m as int]]);
        }
        if exists|i: int|
            0 <= i < n && s.nodes.contains_key(#[trigger] ids[i]) && s.nodes[ids[i]] == node && node.valid {
            let i = choose|i: int|
                0 <= i < n && s.nodes.contains_key(#[trigger] ids[i]) && s.nodes[ids[i]] == node && node.valid;
            if i < m {
                assert(s.nodes.contains_key(ids[i]));
                assert(before.contains(node));
            }
        }
    }
}

/// Whether a relation in the place of another one is in a list.
pub open spec fn place_is_taken(edges: Seq<EdgeFactsModel>, edge: EdgeFactsModel) -> bool {
    exists|k: int| 0 <= k < edges.len() && edge_in_same_place(#[trigger] edges[k], edge)
}

proof fn filing_all_keeps(sorted: Seq<EdgeFactsModel>, edges: Seq<EdgeFactsModel>, n: nat)
    requires
        n <= edges.len(),
        edges_are_listed(sorted),
    ensures
        edges_are_listed(all_filed(sorted, edges, n)),
        forall|e: EdgeFactsModel| #[trigger]
            all_filed(sorted, edges, n).contains(e) ==> sorted.contains(e) || edges.contains(e),
        forall|e: EdgeFactsModel| #[trigger]
            sorted.contains(e) ==> place_is_taken(all_filed(sorted, edges, n), e),
        forall|i: int|
            0 <= i < n ==> place_is_taken(all_filed(sorted, edges, n), #[trigger] edges[i]),
    decreases n,
{
    if n > 0 {
        let m = (n - 1) as nat;
        filing_all_keeps(sorted, edges, m);
        let before = all_filed(sorted, edges, m);
        let edge = edges[m as int];
        let now = filed(before, edge);
        filing_keeps_the_list(before, edge);
        assert forall|e: EdgeFactsModel| #[trigger] now.contains(e) implies sorted.contains(e) || edges.contains(e) by {
            if e == edge {
                assert(edges[m as int] == e);
            } else {
                assert(before.contains(e));
            }
        }
        assert forall|e: EdgeFactsModel| place_is_taken(before, e) implies #[trigger] place_is_taken(now, e) by {
            let k = choose|k: int| 0 <= k < before.len() && edge_in_same_place(#[trigger] before[k], e);
            same_place_stays(before, edge, k, e);
        }
        assert forall|e: EdgeFactsModel| #[trigger] sorted.contains(e) implies place_is_taken(now, e) by {
            assert(place_is_taken(before, e));
        }
        assert forall|i: int| 0 <= i < n implies place_is_taken(now, #[trigger] edges[i]) by {
            if i < m {
                assert(place_is_taken(before, edges[i]));
            } else {
                let k = now.index_of(edge);
                assert(now[k] == edge);
                assert(edge_in_same_place(now[k], edges[i]));
            }
        }
    } else {
        assert forall|e: EdgeFactsModel| #[trigger] sorted.contains(e) implies place_is_taken(sorted, e) by {
            let k = sorted.index_of(e);
            assert(sorted[k] == e);
            assert(edge_in_same_place(sorted[k], e));
        }
    }
}

proof fn same_place_stays(before: Seq<EdgeFactsModel>, edge: EdgeFactsModel, k: int, e: EdgeFactsModel)
    requires
        edges_are_listed(before),
        0 <= k < before.len(),
        edge_in_same_place(before[k], e),
    ensures
        place_is_taken(filed(before, edge), e),
{
    filing_keeps_the_list(before, edge);
    let now = filed(before, edge);
    if edge_in_same_place(before[k], edge) {
        let j = now.index_of(edge);
        assert(now[j] == edge);
        assert(edge_in_same_place(now[j], e));
    } else {
        assert(before.contains(before[k]));
        assert(before[k] != edge);
        assert(now.contains(before[k]));
        let j = now.index_of(before[k]);
        assert(now[j] == before[k]);
        assert(edge_in_same_place(now[j], e));
    }
}

proof fn edges_are_those_of_ways(paths: Seq<GraphPathModel>, n: nat)
    requires
        n <= paths.len(),
    ensures
        edges_are_listed(edges_of(paths, n)),
        forall|e: EdgeFactsModel| #[trigger]
            edges_of(paths, n).contains(e) ==> exists|p: int| 0 <= p < n && (#[trigger] paths[p]).edges.contains(e),
        forall|p: int, i: int|
            0 <= p < n && 0 <= i < paths[p].edges.len() ==> place_is_taken(edges_of(paths, n), #[trigger] paths[p].edges[i]),
    decreases n,
{
    if n > 0 {
        let m = (n - 1) as nat;
        edges_are_those_of_ways(paths, m);
        let before = edges_of(paths, m);
        let last = paths[m as int].edges;
        filing_all_keeps(before, last, last.len());
        let now = all_filed(before, last, last.len());
        assert forall|e: EdgeFactsModel| #[trigger] now.contains(e) implies exists|p: int|
            0 <= p < n && (#[trigger] paths[p]).edges.contains(e) by {
            if last.contains(e) {
                assert(paths[m as int].edges.contains(e));
            } else {
                assert(before.contains(e));
                let p = choose|p: int| 0 <= p < m && (#[trigger] paths[p]).edges.contains(e);
                assert(paths[p].edges.contains(e));
            }
        }
        assert forall|p: int, i: int| 0 <= p < n && 0 <= i < paths[p].edges.len() implies place_is_taken(
            now,
            #[trigger] paths[p].edges[i],
        ) by {
            if p < m {
                assert(place_is_taken(before, paths[p].edges[i]));
                let k = choose|k: int|
                    0 <= k < before.len() && edge_in_same_place(#[trigger] before[k], paths[p].edges[i]);
                assert(before.contains(before[k]));
                assert(place_is_taken(now, before[k]));
                let l = choose|l: int| 0 <= l < now.len() && edge_in_same_place(#[trigger] now[l], before[k]);
                assert(edge_in_same_place(now[l], paths[p].edges[i]));
            } else {
                assert(last[i] == paths[p].edges[i]);
            }
        }
    }
}

/// What lies around a memory: the memory itself and those on the ways from it, as far as
/// they are valid; and the relations that those ways are made of, each place once and in
/// order.
pub proof fn slices_show_what_lies_around(s: SnapshotModel, seed: Ulid, depth: nat, node: NodeFactsModel)
    ensures
        s.slice(seed, depth).paths == s.paths(seed, depth),
        edges_are_listed(s.slice(seed, depth).edges),
        forall|e: EdgeFactsModel| #[trigger]
            s.slice(seed, depth).edges.contains(e) ==> exists|p: int|
                0 <= p < s.paths(seed, depth).len() && (#[trigger] s.paths(seed, depth)[p]).edges.contains(e),
        forall|p: int, i: int|
            0 <= p < s.paths(seed, depth).len() && 0 <= i < s.paths(seed, depth)[p].edges.len() ==> place_is_taken(s.slice(seed, depth).edges, #[trigger] s.paths(seed, depth)[p].edges[i]),
        nodes_of(seed, s.paths(seed, depth)).finite() ==> (s.slice(seed, depth).nodes.contains(node) <==> exists|
            id: Ulid,
        |
            {
                &&& #[trigger] s.nodes.contains_key(id)
                &&& s.nodes[id] == node && node.valid
                &&& id == seed || exists|p: int|
                    0 <= p < s.paths(seed, depth).len() && (#[trigger] s.paths(seed, depth)[p]).nodes.contains(id)
            }),
{
    let paths = s.paths(seed, depth);
    edges_are_those_of_ways(paths, paths.len());
    let around = nodes_of(seed, paths);
    if around.finite() {
        in_order_lists(around);
        let ids = in_order(around);
        valid_memories_are_shown(s, ids, ids.len(), node);
        if s.slice(seed, depth).nodes.contains(node) {
            let i = choose|i: int|
                0 <= i < ids.len() && s.nodes.contains_key(#[trigger] ids[i]) && s.nodes[ids[i]] == node && node.valid;
            assert(ids.contains(ids[i]));
            assert(around.contains(ids[i]));
            assert(s.nodes.contains_key(ids[i]));
        }
        if exists|id: Ulid|
            {
                &&& #[trigger] s.nodes.contains_key(id)
                &&& s.nodes[id] == node && node.valid
                &&& id == seed || exists|p: int|
                    0 <= p < paths.len() && (#[trigger] paths[p]).nodes.contains(id)
            } {
            let id = choose|id: Ulid|
                {
                    &&& #[trigger] s.nodes.contains_key(id)
                    &&& s.nodes[id] == node && node.valid
                    &&& id == seed || exists|p: int|
                        0 <= p < paths.len() && (#[trigger] paths[p]).nodes.contains(id)
                };
            assert(around.contains(id));
            assert(ids.contains(id));
            let i = ids.index_of(id);
            assert(ids[i] == id);
            assert(s.nodes.contains_key(ids[i]));
        }
    }
}

} // verus!
