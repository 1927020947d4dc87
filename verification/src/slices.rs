//! Slices of the memory graph: what lies around a memory.
use vstd::prelude::*;
use crate::bytes::{Precedence, weigh_bytes};
use crate::ids::Ulid;
use crate::inspect::lookup;
use crate::lawyer::gather_ids;
use crate::order::{Ranked, in_order, in_order_is_unique, increasing, lists};
use crate::records::graph::{
    EdgeFacts, EdgeFactsModel, GraphPathModel, GraphSlice, GraphSliceModel, NodeFacts,
    NodeFactsModel,
};
use crate::snapshot::{Snapshot, SnapshotModel};
use crate::table::{Replica, views};
use crate::text::{text_bytes, utf8};
use crate::wordlist::{text_before, text_before_is_total, utf8_is_injective};

verus! {

/// Whether a relation comes before another one: by its source, then by its destination,
/// then by its name.
pub open spec fn edge_before(a: EdgeFactsModel, b: EdgeFactsModel) -> bool {
    a.src.0 < b.src.0 || (a.src == b.src && (a.dst.0 < b.dst.0 || (a.dst == b.dst && text_before(a.label, b.label))))
}

/// Whether two relations have the same source, destination and name.
pub open spec fn edge_in_same_place(a: EdgeFactsModel, b: EdgeFactsModel) -> bool {
    a.src == b.src && a.dst == b.dst && a.label == b.label
}

fn weigh_edges(a: &EdgeFacts, b: &EdgeFacts) -> (r: Precedence)
    ensures
        r is Before <==> edge_before(a@, b@),
        r is Same <==> edge_in_same_place(a@, b@),
{
    if a.src.0 < b.src.0 {
        Precedence::Before
    } else if b.src.0 < a.src.0 {
        Precedence::After
    } else if a.dst.0 < b.dst.0 {
        Precedence::Before
    } else if b.dst.0 < a.dst.0 {
        Precedence::After
    } else {
        proof {
            assert(a.src == b.src);
            assert(a.dst == b.dst);
            if utf8(a.label@) == utf8(b.label@) {
                utf8_is_injective(a.label@, b.label@);
            }
        }
        weigh_bytes(text_bytes(a.label.as_str()), text_bytes(b.label.as_str()))
    }
}

/// The place from `i` on where a relation belongs.
pub open spec fn edge_place(sorted: Seq<EdgeFactsModel>, edge: EdgeFactsModel, i: nat) -> nat
    decreases sorted.len() - i,
{
    if i >= sorted.len() || !edge_before(sorted[i as int], edge) {
        i
    } else {
        edge_place(sorted, edge, i + 1)
    }
}

/// A list of relations with one more, in the place of the one of the same name between
/// the same memories if there is one.
pub open spec fn filed(sorted: Seq<EdgeFactsModel>, edge: EdgeFactsModel) -> Seq<EdgeFactsModel> {
    let at = edge_place(sorted, edge, 0);
    if at < sorted.len() && edge_in_same_place(sorted[at as int], edge) {
        sorted.update(at as int, edge)
    } else {
        sorted.insert(at as int, edge)
    }
}

/// A list of relations with the first `n` of others.
pub open spec fn all_filed(sorted: Seq<EdgeFactsModel>, edges: Seq<EdgeFactsModel>, n: nat) -> Seq<EdgeFactsModel>
    decreases n,
{
    if n == 0 {
        sorted
    } else {
        filed(all_filed(sorted, edges, (n - 1) as nat), edges[n - 1])
    }
}

/// The relations of the first `n` ways.
pub open spec fn edges_of(paths: Seq<GraphPathModel>, n: nat) -> Seq<EdgeFactsModel>
    decreases n,
{
    if n == 0 {
        Seq::empty()
    } else {
        all_filed(edges_of(paths, (n - 1) as nat), paths[n - 1].edges, paths[n - 1].edges.len())
    }
}

/// A seed and the memories on the ways from it.
pub open spec fn nodes_of(seed: Ulid, paths: Seq<GraphPathModel>) -> Set<Ulid> {
    Set::new(
        |id: Ulid| id == seed || exists|i: int| 0 <= i < paths.len() && (#[trigger] paths[i]).nodes.contains(id),
    )
}

impl SnapshotModel {
    /// Those of the first `n` memories of a list that are valid.
    pub open spec fn standing_nodes(self, ids: Seq<Ulid>, n: nat) -> Seq<NodeFactsModel>
        decreases n,
    {
        if n == 0 {
            Seq::empty()
        } else {
            let before = self.standing_nodes(ids, (n - 1) as nat);
            match lookup(self.nodes, ids[n - 1]) {
                Some(node) => if node.valid {
                    before.push(node)
                } else {
                    before
                },
                None => before,
            }
        }
    }

    /// What lies around a seed, up to a number of steps.
    pub open spec fn slice(self, seed: Ulid, depth: nat) -> GraphSliceModel {
        let paths = self.paths(seed, depth);
        let ids = in_order(nodes_of(seed, paths));
        GraphSliceModel {
            nodes: self.standing_nodes(ids, ids.len()),
            edges: edges_of(paths, paths.len()),
            paths,
        }
    }
}

fn file_edge(sorted: &mut Vec<EdgeFacts>, edge: &EdgeFacts)
    ensures
        views(final(sorted)@) == filed(views(old(sorted)@), edge@),
{
    let ghost all = views(sorted@);
    assert(all.len() == sorted@.len());
    let mut i: usize = 0;
    while i < sorted.len()
        invariant
            i <= sorted@.len(),
            all == views(sorted@),
            all == views(old(sorted)@),
            all.len() == sorted@.len(),
            edge_place(all, edge@, i as nat) == edge_place(all, edge@, 0),
        decreases sorted@.len() - i,
    {
        assert(views(sorted@)[i as int] == sorted@[i as int]@);
        match weigh_edges(&sorted[i], edge) {
            Precedence::Before => {
                i = i + 1;
            },
            Precedence::Same => {
                proof {
                    if edge_before(all[i as int], edge@) {
                        text_before_is_total(edge@.label, edge@.label);
                    }
                }
                let copy = edge.replica();
                sorted.set(i, copy);
                assert(views(sorted@) =~= all.update(i as int, edge@));
                return;
            },
            Precedence::After => {
                let copy = edge.replica();
                sorted.insert(i, copy);
                assert(views(sorted@) =~= all.insert(i as int, edge@));
                return;
            },
        }
    }
    let copy = edge.replica();
    sorted.push(copy);
    assert(views(sorted@) =~= all.insert(all.len() as int, edge@));
}

fn file_edges(sorted: &mut Vec<EdgeFacts>, edges: &Vec<EdgeFacts>)
    ensures
        views(final(sorted)@) == all_filed(views(old(sorted)@), views(edges@), edges@.len()),
{
    let ghost all = views(edges@);
    let ghost start = views(sorted@);
    for i in 0..edges.len()
        invariant
            all == views(edges@),
            views(sorted@) == all_filed(start, all, i as nat),
    {
        assert(views(edges@)[i as int] == edges@[i as int]@);
        file_edge(sorted, &edges[i]);
    }
}

impl Snapshot {
    /// What lies around a seed, up to a number of steps: the valid memories, the relations
    /// between them and the ways that lead there.
    pub fn graph_slice(&self, seed: Ulid, depth: usize) -> (r: GraphSlice)
        ensures
            r@ == self@.slice(seed, depth as nat),
    {
        let paths = self.graph_paths(seed, depth);
        let ghost all = views(paths@);
        assert(all.len() == paths@.len());
        let mut ids: Ranked<Ulid> = Ranked::new();
        ids.insert(seed);
        let mut edges: Vec<EdgeFacts> = Vec::new();
        assert(views(edges@) =~= Seq::<EdgeFactsModel>::empty());
        for i in 0..paths.len()
            invariant
                all == views(paths@),
                all.len() == paths@.len(),
                increasing(ids@),
                views(edges@) == edges_of(all, i as nat),
                forall|id: Ulid| #[trigger]
                    ids@.contains(id) <==> id == seed || exists|k: int|
                        0 <= k < i && (#[trigger] all[k]).nodes.contains(id),
        {
            assert(views(paths@)[i as int] == paths@[i as int]@);
            let ghost before = ids@;
            gather_ids(&mut ids, &paths[i].nodes);
            file_edges(&mut edges, &paths[i].edges);
            proof {
                assert forall|id: Ulid| #[trigger] ids@.contains(id) <==> id == seed || exists|k: int|
                    0 <= k < i + 1 && (#[trigger] all[k]).nodes.contains(id) by {
                    assert(ids@.contains(id) <==> before.contains(id) || all[i as int].nodes.contains(id));
                    if before.contains(id) && id != seed {
                        let k = choose|k: int| 0 <= k < i && (#[trigger] all[k]).nodes.contains(id);
                        assert(all[k].nodes.contains(id));
                    }
                }
            }
        }
        let listed = ids.into_vec();
        proof {
            assert(lists(listed@, nodes_of(seed, all)));
            in_order_is_unique(listed@, nodes_of(seed, all));
        }
        let mut nodes: Vec<NodeFacts> = Vec::new();
        assert(views(nodes@) =~= Seq::<NodeFactsModel>::empty());
        for i in 0..listed.len()
            invariant
                views(nodes@) == self@.standing_nodes(listed@, i as nat),
        {
            if let Some(node) = self.nodes.get(&listed[i]) {
                if node.valid {
                    let ghost before = nodes@;
                    nodes.push(node.replica());
                    assert(views(nodes@) =~= views(before).push(node@));
                }
            }
        }
        GraphSlice { nodes, edges, paths }
    }
}

} // verus!
