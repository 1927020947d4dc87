//! How a spread goes through a graph: breadth first, over the fewest relations.
use vstd::prelude::*;
use crate::ids::Ulid;
use crate::records::graph::EdgeFactsModel;
use crate::searching::{
    HopNode, SpreadModel, hop_ids, live_frontier, newly_reached, spreads_reach_once,
};
use crate::snapshot::other_end;

verus! {

/// Whether one of the relations at a memory leads to another.
pub open spec fn beside(graph: Map<Ulid, Seq<EdgeFactsModel>>, from: Ulid, to: Ulid) -> bool {
    exists|i: int| 0 <= i < graph[from].len() && other_end(#[trigger] graph[from][i], from) == to
}

/// Whether at most `k` relations lead from a seed to a memory.
pub open spec fn within_hops(graph: Map<Ulid, Seq<EdgeFactsModel>>, seed: Ulid, id: Ulid, k: nat) -> bool
    decreases k,
{
    if k == 0 {
        id == seed
    } else {
        within_hops(graph, seed, id, (k - 1) as nat) || exists|x: Ulid|
            within_hops(graph, seed, x, (k - 1) as nat) && #[trigger] beside(graph, x, id)
    }
}

/// Whether `k` is the least number of relations that lead from a seed to a memory.
pub open spec fn is_hop_distance(graph: Map<Ulid, Seq<EdgeFactsModel>>, seed: Ulid, id: Ulid, k: nat) -> bool {
    within_hops(graph, seed, id, k) && (k > 0 ==> !within_hops(graph, seed, id, (k - 1) as nat))
}

/// A spread on its way, and at how many relations it came to each memory.
#[verifier::ext_equal]
pub struct WalkModel {
    pub spread: SpreadModel,
    pub hop: Map<Ulid, usize>,
}

impl WalkModel {
    /// After one step more: from the memory that is next, over its relations.
    pub open spec fn stepped(self, graph: Map<Ulid, Seq<EdgeFactsModel>>) -> WalkModel {
        let live = live_frontier(self.spread.frontier, self.spread.hops);
        if live.len() == 0 {
            WalkModel { spread: SpreadModel { frontier: Seq::empty(), ..self.spread }, ..self }
        } else {
            let from = live.first();
            let edges = graph[from.id];
            let reached = newly_reached(edges, from, self.spread.visited, edges.len());
            WalkModel {
                spread: SpreadModel {
                    frontier: live.drop_first() + reached,
                    visited: self.spread.visited.union(hop_ids(reached)),
                    ..self.spread
                },
                hop: self.hop.union_prefer_right(
                    Map::new(|id: Ulid| hop_ids(reached).contains(id), |id: Ulid| (from.hop + 1) as usize),
                ),
            }
        }
    }
}

/// A spread through a graph after `n` steps.
pub open spec fn walked(graph: Map<Ulid, Seq<EdgeFactsModel>>, seed: Ulid, hops: usize, n: nat) -> WalkModel
    decreases n,
{
    if n == 0 {
        WalkModel {
            spread: SpreadModel { frontier: seq![HopNode { id: seed, hop: 0 }], visited: set![seed], hops },
            hop: map![seed => 0usize],
        }
    } else {
        walked(graph, seed, hops, (n - 1) as nat).stepped(graph)
    }
}

/// Whether a memory waits in a frontier.
spec fn waits(frontier: Seq<HopNode>, id: Ulid) -> bool {
    exists|i: int| 0 <= i < frontier.len() && (#[trigger] frontier[i]).id == id
}

/// What holds of a spread on its way.
spec fn on_its_way(graph: Map<Ulid, Seq<EdgeFactsModel>>, seed: Ulid, w: WalkModel) -> bool {
    let frontier = w.spread.frontier;
    &&& forall|id: Ulid| #[trigger] w.spread.visited.contains(id) <==> w.hop.contains_key(id)
    &&& w.hop.contains_key(seed) && w.hop[seed] == 0
    &&& forall|id: Ulid| #[trigger]
        w.hop.contains_key(id) ==> w.hop[id] <= w.spread.hops && is_hop_distance(graph, seed, id, w.hop[id] as nat)
    &&& forall|i: int|
        0 <= i < frontier.len() ==> w.hop.contains_key((#[trigger] frontier[i]).id) && w.hop[frontier[i].id]
            == frontier[i].hop
    &&& forall|i: int, j: int| 0 <= i < j < frontier.len() ==> frontier[i].hop <= frontier[j].hop
    &&& forall|i: int| 0 <= i < frontier.len() ==> (#[trigger] frontier[i]).hop <= frontier[0].hop + 1
    &&& forall|x: Ulid, y: Ulid|
        w.hop.contains_key(x) && w.hop[x] < w.spread.hops && !waits(frontier, x) && #[trigger] beside(graph, x, y)
            ==> w.hop.contains_key(y) && w.hop[y] <= w.hop[x] + 1
}

/// Everything within the hop of the first memory that waits was visited, no further away.
proof fn nearer_is_visited(graph: Map<Ulid, Seq<EdgeFactsModel>>, seed: Ulid, w: WalkModel, id: Ulid, k: nat)
    requires
        on_its_way(graph, seed, w),
        within_hops(graph, seed, id, k),
        k <= w.spread.hops,
        w.spread.frontier.len() > 0 ==> k <= w.spread.frontier[0].hop,
    ensures
        w.hop.contains_key(id),
        w.hop[id] <= k,
    decreases k,
{
    if k > 0 {
        if within_hops(graph, seed, id, (k - 1) as nat) {
            nearer_is_visited(graph, seed, w, id, (k - 1) as nat);
        } else {
            let x = choose|x: Ulid|
                within_hops(graph, seed, x, (k - 1) as nat) && #[trigger] beside(graph, x, id);
            nearer_is_visited(graph, seed, w, x, (k - 1) as nat);
            if waits(w.spread.frontier, x) {
                let i = choose|i: int| 0 <= i < w.spread.frontier.len() && (#[trigger] w.spread.frontier[i]).id == x;
                assert(w.spread.frontier[0].hop <= w.spread.frontier[i].hop);
            }
            assert(beside(graph, x, id));
        }
    }
}

proof fn live_frontier_is(graph: Map<Ulid, Seq<EdgeFactsModel>>, seed: Ulid, w: WalkModel)
    requires
        on_its_way(graph, seed, w),
    ensures
        ({
            let live = live_frontier(w.spread.frontier, w.spread.hops);
            &&& on_its_way(graph, seed, WalkModel { spread: SpreadModel { frontier: live, ..w.spread }, ..w })
            &&& live.len() > 0 ==> live.first().hop < w.spread.hops
        }),
    decreases w.spread.frontier.len(),
{
    let frontier = w.spread.frontier;
    if !(frontier.len() == 0 || frontier.first().hop < w.spread.hops) {
        let rest = frontier.drop_first();
        let next = WalkModel { spread: SpreadModel { frontier: rest, ..w.spread }, ..w };
        assert forall|i: int| 0 <= i < rest.len() implies w.hop.contains_key((#[trigger] rest[i]).id) && w.hop[rest[i].id]
            == rest[i].hop && rest[i].hop <= rest[0].hop + 1 by {
            assert(rest[i] == frontier[i + 1]);
            assert(rest[0] == frontier[1]);
            assert(frontier[0].hop <= frontier[1].hop);
        }
        assert forall|i: int, j: int| 0 <= i < j < rest.len() implies rest[i].hop <= rest[j].hop by {
            assert(frontier[i + 1].hop <= frontier[j + 1].hop);
        }
        assert forall|x: Ulid, y: Ulid|
            w.hop.contains_key(x) && w.hop[x] < w.spread.hops && !waits(rest, x) && #[trigger] beside(
                graph,
                x,
                y,
            ) implies w.hop.contains_key(y) && w.hop[y] <= w.hop[x] + 1 by {
            if waits(frontier, x) {
                let i = choose|i: int| 0 <= i < frontier.len() && (#[trigger] frontier[i]).id == x;
                if i > 0 {
                    assert(rest[i - 1].id == x);
                }
                assert(frontier[0].id == x);
                assert(w.hop[x] == frontier[0].hop);
            }
        }
        live_frontier_is(graph, seed, next);
    }
}

proof fn reached_ids(edges: Seq<EdgeFactsModel>, from: HopNode, visited: Set<Ulid>, n: nat)
    requires
        n <= edges.len(),
        from.hop < usize::MAX,
    ensures
        ({
            let reached = newly_reached(edges, from, visited, n);
            &&& forall|i: int| 0 <= i < reached.len() ==> (#[trigger] reached[i]).hop == from.hop + 1
            &&& forall|i: int|
                0 <= i < reached.len() ==> exists|k: int|
                    0 <= k < n && other_end(#[trigger] edges[k], from.id) == (#[trigger] reached[i]).id
            &&& forall|k: int|
                0 <= k < n ==> visited.contains(other_end(#[trigger] edges[k], from.id)) || hop_ids(reached).contains(
                    other_end(edges[k], from.id),
                )
        }),
    decreases n,
{
    if n > 0 {
        reached_ids(edges, from, visited, (n - 1) as nat);
        let before = newly_reached(edges, from, visited, (n - 1) as nat);
        let after = newly_reached(edges, from, visited, n);
        let next = other_end(edges[n - 1], from.id);
        assert forall|id: Ulid| hop_ids(before).contains(id) implies hop_ids(after).contains(id) by {
            let k = choose|k: int| 0 <= k < before.len() && (#[trigger] before[k]).id == id;
            assert(after[k].id == id);
        }
        if !(visited.contains(next) || hop_ids(before).contains(next)) {
            assert(after[before.len() as int].id == next);
            assert(hop_ids(after).contains(next));
        }
        assert forall|i: int| 0 <= i < after.len() implies exists|k: int|
            0 <= k < n && other_end(#[trigger] edges[k], from.id) == (#[trigger] after[i]).id by {
            if i < before.len() {
                assert(after[i] == before[i]);
                let k = choose|k: int|
                    0 <= k < n - 1 && other_end(#[trigger] edges[k], from.id) == (#[trigger] before[i]).id;
                assert(other_end(edges[k], from.id) == after[i].id);
            } else {
                assert(other_end(edges[n - 1], from.id) == after[i].id);
            }
        }
    }
}

#[verifier::spinoff_prover]
#[verifier::rlimit(40)]
proof fn stepping_keeps(graph: Map<Ulid, Seq<EdgeFactsModel>>, seed: Ulid, w: WalkModel)
    requires
        on_its_way(graph, seed, w),
    ensures
        on_its_way(graph, seed, w.stepped(graph)),
        w.stepped(graph).spread.hops == w.spread.hops,
{
    live_frontier_is(graph, seed, w);
    let live = live_frontier(w.spread.frontier, w.spread.hops);
    let waiting = WalkModel { spread: SpreadModel { frontier: live, ..w.spread }, ..w };
    let after = w.stepped(graph);
    if live.len() == 0 {
        assert(live =~= Seq::<HopNode>::empty());
    } else {
        let from = live.first();
        assert(waiting.spread.frontier[0] == from);
        let edges = graph[from.id];
        let visited = w.spread.visited;
        let reached = newly_reached(edges, from, visited, edges.len());
        let frontier = after.spread.frontier;
        let rest = live.drop_first();
        reached_ids(edges, from, visited, edges.len());
        spreads_reach_once(edges, from, visited, edges.len());
        assert forall|id: Ulid| #[trigger] hop_ids(reached).contains(id) implies !w.hop.contains_key(id) && beside(
            graph,
            from.id,
            id,
        ) && is_hop_distance(graph, seed, id, (from.hop + 1) as nat) by {
            let i = choose|i: int| 0 <= i < reached.len() && (#[trigger] reached[i]).id == id;
            assert(!visited.contains(reached[i].id));
            let k = choose|k: int|
                0 <= k < edges.len() && other_end(#[trigger] edges[k], from.id) == (#[trigger] reached[i]).id;
            assert(other_end(graph[from.id][k], from.id) == id);
            assert(beside(graph, from.id, id));
            assert(waiting.hop.contains_key(waiting.spread.frontier[0].id));
            assert(is_hop_distance(graph, seed, from.id, from.hop as nat));
            assert(within_hops(graph, seed, from.id, from.hop as nat));
            assert(within_hops(graph, seed, id, (from.hop + 1) as nat));
            if within_hops(graph, seed, id, from.hop as nat) {
                nearer_is_visited(graph, seed, waiting, id, from.hop as nat);
            }
        }
        assert forall|id: Ulid| #[trigger] after.hop.contains_key(id) implies after.hop[id] <= w.spread.hops
            && is_hop_distance(graph, seed, id, after.hop[id] as nat) by {
            if hop_ids(reached).contains(id) {
                assert(after.hop[id] == from.hop + 1);
            } else {
                assert(w.hop.contains_key(id));
            }
        }
        assert forall|i: int| 0 <= i < frontier.len() implies after.hop.contains_key((#[trigger] frontier[i]).id)
            && after.hop[frontier[i].id] == frontier[i].hop && from.hop <= frontier[i].hop <= from.hop + 1 by {
            if i < rest.len() {
                assert(frontier[i] == live[i + 1]);
                assert(live[0].hop <= live[i + 1].hop);
                assert(w.hop.contains_key(live[i + 1].id));
                assert(!hop_ids(reached).contains(frontier[i].id));
            } else {
                let k = i - rest.len();
                assert(frontier[i] == reached[k]);
                assert(hop_ids(reached).contains(reached[k].id));
            }
        }
        assert forall|i: int, j: int| 0 <= i < j < frontier.len() implies frontier[i].hop <= frontier[j].hop by {
            if j < rest.len() {
                assert(frontier[i] == live[i + 1] && frontier[j] == live[j + 1]);
            } else {
                assert(frontier[j] == reached[j - rest.len()]);
                assert(frontier[i].hop <= from.hop + 1);
            }
        }
        assert forall|x: Ulid, y: Ulid|
            after.hop.contains_key(x) && after.hop[x] < w.spread.hops && !waits(frontier, x) && #[trigger] beside(
                graph,
                x,
                y,
            ) implies after.hop.contains_key(y) && after.hop[y] <= after.hop[x] + 1 by {
            if hop_ids(reached).contains(x) {
                let k = choose|k: int| 0 <= k < reached.len() && (#[trigger] reached[k]).id == x;
                assert(frontier[rest.len() + k].id == x);
            } else {
                assert(w.hop.contains_key(x));
                if x == from.id {
                    let i = choose|i: int| 0 <= i < graph[x].len() && other_end(#[trigger] graph[x][i], x) == y;
                    assert(other_end(edges[i], from.id) == y);
                    if !hop_ids(reached).contains(y) {
                        assert(visited.contains(y));
                        assert(w.hop.contains_key(y));
                        if w.hop[y] > from.hop + 1 {
                            assert(within_hops(graph, seed, from.id, from.hop as nat));
                            assert(within_hops(graph, seed, y, (from.hop + 1) as nat));
                            within_grows(graph, seed, y, (from.hop + 1) as nat, (w.hop[y] - 1) as nat);
                        }
                    }
                } else {
                    assert(!waits(live, x)) by {
                        if waits(live, x) {
                            let i = choose|i: int| 0 <= i < live.len() && (#[trigger] live[i]).id == x;
                            assert(i > 0);
                            assert(frontier[i - 1] == live[i]);
                            assert(frontier[i - 1].id == x);
                        }
                    }
                    assert(w.hop.contains_key(y) && w.hop[y] <= w.hop[x] + 1);
                    assert(!hop_ids(reached).contains(y));
                }
            }
        }
    }
}

proof fn within_grows(graph: Map<Ulid, Seq<EdgeFactsModel>>, seed: Ulid, id: Ulid, k: nat, m: nat)
    requires
        within_hops(graph, seed, id, k),
        k <= m,
    ensures
        within_hops(graph, seed, id, m),
    decreases m,
{
    if k < m {
        within_grows(graph, seed, id, k, (m - 1) as nat);
    }
}

proof fn walks_are_on_their_way(graph: Map<Ulid, Seq<EdgeFactsModel>>, seed: Ulid, hops: usize, n: nat)
    ensures
        on_its_way(graph, seed, walked(graph, seed, hops, n)),
        walked(graph, seed, hops, n).spread.hops == hops,
    decreases n,
{
    if n == 0 {
        let start = walked(graph, seed, hops, 0);
        assert(start.spread.frontier[0].id == seed);
        assert(waits(start.spread.frontier, seed));
    } else {
        walks_are_on_their_way(graph, seed, hops, (n - 1) as nat);
        stepping_keeps(graph, seed, walked(graph, seed, hops, (n - 1) as nat));
    }
}

/// A spread comes to a memory over the fewest relations that lead to it from the seed.
pub proof fn spreads_take_the_shortest_way(
    graph: Map<Ulid, Seq<EdgeFactsModel>>,
    seed: Ulid,
    hops: usize,
    n: nat,
    id: Ulid,
)
    requires
        walked(graph, seed, hops, n).hop.contains_key(id),
    ensures
        is_hop_distance(graph, seed, id, walked(graph, seed, hops, n).hop[id] as nat),
        walked(graph, seed, hops, n).hop[id] <= hops,
{
    walks_are_on_their_way(graph, seed, hops, n);
}

/// A spread that goes on no more has come to every memory within its hops.
pub proof fn spreads_miss_nothing(
    graph: Map<Ulid, Seq<EdgeFactsModel>>,
    seed: Ulid,
    hops: usize,
    n: nat,
    id: Ulid,
    k: nat,
)
    requires
        live_frontier(walked(graph, seed, hops, n).spread.frontier, hops).len() == 0,
        within_hops(graph, seed, id, k),
        k <= hops,
    ensures
        walked(graph, seed, hops, n).hop.contains_key(id),
        walked(graph, seed, hops, n).hop[id] <= k,
{
    walks_are_on_their_way(graph, seed, hops, n);
    let w = walked(graph, seed, hops, n);
    live_frontier_is(graph, seed, w);
    let live = live_frontier(w.spread.frontier, hops);
    nearer_is_visited(graph, seed, WalkModel { spread: SpreadModel { frontier: live, ..w.spread }, ..w }, id, k);
}

} // verus!
