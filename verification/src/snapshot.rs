//! A graph of memories as of one instant: the ways through it, and what supports or
//! contradicts a memory.
use vstd::prelude::*;
use crate::ids::Ulid;
use crate::inspect::lookup;
use crate::order::{Ranked, in_order, in_order_is_unique, increasing, lists};
use crate::recall::within;
use crate::records::graph::{
    EdgeFacts, EdgeFactsModel, GraphPath, GraphPathModel, NodeFacts, NodeFactsModel,
};
use crate::table::{Replica, Table, copies, opt_view, replicas, views};
use crate::wordlist::same_text;

verus! {

/// The relations at one memory.
#[derive(Debug)]
pub struct EdgeList {
    pub edges: Vec<EdgeFacts>,
}

impl View for EdgeList {
    type V = Seq<EdgeFactsModel>;

    open spec fn view(&self) -> Seq<EdgeFactsModel> {
        views(self.edges@)
    }
}

/// Memories and the relations between them, as of one instant.
pub struct Snapshot {
    pub(crate) nodes: Table<Ulid, NodeFacts>,
    pub(crate) outgoing: Table<Ulid, EdgeList>,
    pub(crate) incoming: Table<Ulid, EdgeList>,
}

/// What a [`Snapshot`] holds.
pub struct SnapshotModel {
    pub nodes: Map<Ulid, NodeFactsModel>,
    pub outgoing: Map<Ulid, Seq<EdgeFactsModel>>,
    pub incoming: Map<Ulid, Seq<EdgeFactsModel>>,
}

impl View for Snapshot {
    type V = SnapshotModel;

    open(crate) spec fn view(&self) -> SnapshotModel {
        SnapshotModel { nodes: self.nodes@, outgoing: self.outgoing@, incoming: self.incoming@ }
    }
}

/// Whether a relation holds between cause and effect.
pub open spec fn causal(label: Seq<char>) -> bool {
    label == "causes"@ || label == "enables"@ || label == "prevents"@
}

pub fn is_causal(label: &str) -> (r: bool)
    ensures
        r == causal(label@),
{
    same_text(label, "causes") || same_text(label, "enables") || same_text(label, "prevents")
}

/// The end of a relation that is not `id`.
pub open spec fn other_end(edge: EdgeFactsModel, id: Ulid) -> Ulid {
    if edge.src == id {
        edge.dst
    } else {
        edge.src
    }
}

/// The relations among the first `n` that are not causal.
pub open spec fn uncausal(edges: Seq<EdgeFactsModel>, n: nat) -> Seq<EdgeFactsModel>
    decreases n,
{
    if n == 0 {
        Seq::empty()
    } else if causal(edges[n - 1].label) {
        uncausal(edges, (n - 1) as nat)
    } else {
        uncausal(edges, (n - 1) as nat).push(edges[n - 1])
    }
}

/// The memories at which ways end.
pub open spec fn ends_of(paths: Seq<GraphPathModel>) -> Set<Ulid> {
    Set::new(|id: Ulid| exists|i: int| 0 <= i < paths.len() && (#[trigger] paths[i]).nodes.last() == id)
}

/// A way that is one memory long.
pub open spec fn standstill(seed: Ulid) -> GraphPathModel {
    GraphPathModel { nodes: seq![seed], edges: Seq::empty() }
}

impl SnapshotModel {
    /// Whether every memory is kept under its own name.
    pub open spec fn names_its_memories(self) -> bool {
        forall|id: Ulid| #[trigger] self.nodes.contains_key(id) ==> self.nodes[id].id == id
    }

    /// Whether there is a memory that is valid.
    pub open spec fn stands(self, id: Ulid) -> bool {
        match lookup(self.nodes, id) {
            Some(node) => node.valid,
            None => false,
        }
    }

    pub open spec fn edges_from(self, id: Ulid) -> Seq<EdgeFactsModel> {
        match lookup(self.outgoing, id) {
            Some(edges) => edges,
            None => Seq::empty(),
        }
    }

    pub open spec fn edges_to(self, id: Ulid) -> Seq<EdgeFactsModel> {
        match lookup(self.incoming, id) {
            Some(edges) => edges,
            None => Seq::empty(),
        }
    }

    /// The relations that can be followed from a memory: causal ones only towards their
    /// effects.
    pub open spec fn walkable(self, id: Ulid) -> Seq<EdgeFactsModel> {
        self.edges_from(id) + uncausal(self.edges_to(id), self.edges_to(id).len())
    }

    /// Whether an effect does not come before its cause.
    pub open spec fn in_time(self, edge: EdgeFactsModel) -> bool {
        match (lookup(self.nodes, edge.src), lookup(self.nodes, edge.dst)) {
            (Some(cause), Some(effect)) => cause.valid_from_ms <= effect.valid_from_ms,
            _ => false,
        }
    }

    /// Whether a way can be continued over a relation, to a memory that is not barred.
    pub open spec fn continues(self, path: GraphPathModel, edge: EdgeFactsModel, barred: Set<Ulid>) -> bool {
        let next = other_end(edge, path.nodes.last());
        &&& edge.valid
        &&& self.stands(next)
        &&& !path.nodes.contains(next)
        &&& causal(edge.label) ==> self.in_time(edge)
        &&& !barred.contains(next)
    }

    /// The continuations of a way over the first `n` relations.
    pub open spec fn continuations(
        self,
        path: GraphPathModel,
        edges: Seq<EdgeFactsModel>,
        barred: Set<Ulid>,
        n: nat,
    ) -> Seq<GraphPathModel>
        decreases n,
    {
        if n == 0 {
            Seq::empty()
        } else {
            let before = self.continuations(path, edges, barred, (n - 1) as nat);
            if self.continues(path, edges[n - 1], barred) {
                before.push(
                    GraphPathModel {
                        nodes: path.nodes.push(other_end(edges[n - 1], path.nodes.last())),
                        edges: path.edges.push(edges[n - 1]),
                    },
                )
            } else {
                before
            }
        }
    }

    /// The continuations of the first `n` ways.
    pub open spec fn advanced(self, paths: Seq<GraphPathModel>, barred: Set<Ulid>, n: nat) -> Seq<GraphPathModel>
        decreases n,
    {
        if n == 0 {
            Seq::empty()
        } else {
            let edges = self.walkable(paths[n - 1].nodes.last());
            self.advanced(paths, barred, (n - 1) as nat) + self.continuations(
                paths[n - 1],
                edges,
                barred,
                edges.len(),
            )
        }
    }

    /// The ways of `k` steps from a seed to memories that no shorter way reaches.
    pub open spec fn level(self, seed: Ulid, k: nat) -> Seq<GraphPathModel>
        decreases k, 0int,
    {
        if k == 0 {
            if self.stands(seed) {
                seq![standstill(seed)]
            } else {
                Seq::empty()
            }
        } else {
            let before = self.level(seed, (k - 1) as nat);
            self.advanced(before, self.within(seed, (k - 1) as nat), before.len())
        }
    }

    /// The memories within `k` steps of a seed.
    pub open spec fn within(self, seed: Ulid, k: nat) -> Set<Ulid>
        decreases k, 1int,
    {
        if k == 0 {
            set![seed]
        } else {
            self.within(seed, (k - 1) as nat).union(ends_of(self.level(seed, k)))
        }
    }

    /// The ways of up to `depth` steps from a seed, the shorter first.
    pub open spec fn paths(self, seed: Ulid, depth: nat) -> Seq<GraphPathModel>
        decreases depth,
    {
        if depth == 0 {
            Seq::empty()
        } else {
            self.paths(seed, (depth - 1) as nat) + self.level(seed, depth)
        }
    }

    /// Everything that a memory is related to, both ways.
    pub open spec fn edges_at(self, id: Ulid) -> Seq<EdgeFactsModel> {
        self.edges_from(id) + self.edges_to(id)
    }

    /// Whether a relation says something of a memory: it is valid, leads to a memory that
    /// is valid, and if it tells a derivation, the memory is what was derived.
    pub open spec fn speaks(self, edge: EdgeFactsModel, id: Ulid) -> bool {
        &&& edge.valid
        &&& edge.label == "derived_from"@ ==> edge.src == id && edge.dst != id
        &&& self.stands(other_end(edge, id))
    }

    /// Whether a relation gives a memory a source.
    pub open spec fn gives_source(self, edge: EdgeFactsModel, id: Ulid, source: Ulid) -> bool {
        &&& self.speaks(edge, id)
        &&& {
            ||| source == other_end(edge, id) && (edge.label == "derived_from"@ || edge.evidence.contains(source))
            ||| edge.evidence.contains(source) && source != id && self.stands(source)
        }
    }

    /// What a memory can be traced to.
    pub open spec fn sources_of(self, id: Ulid) -> Set<Ulid> {
        Set::new(
            |source: Ulid|
                exists|i: int|
                    0 <= i < self.edges_at(id).len() && self.gives_source(#[trigger] self.edges_at(id)[i], id, source),
        )
    }

    /// Whether a relation sets a memory against another.
    pub open spec fn sets_against(self, edge: EdgeFactsModel, id: Ulid, other: Ulid) -> bool {
        self.speaks(edge, id) && edge.label == "contradicts"@ && other == other_end(edge, id)
    }

    /// What a memory is contradicted by.
    pub open spec fn opponents_of(self, id: Ulid) -> Set<Ulid> {
        Set::new(
            |other: Ulid|
                exists|i: int|
                    0 <= i < self.edges_at(id).len() && self.sets_against(#[trigger] self.edges_at(id)[i], id, other),
        )
    }
}

proof fn continuations_are(
    s: SnapshotModel,
    path: GraphPathModel,
    edges: Seq<EdgeFactsModel>,
    barred: Set<Ulid>,
    n: nat,
    i: int,
) -> (j: int)
    requires
        n <= edges.len(),
        0 <= i < s.continuations(path, edges, barred, n).len(),
    ensures
        0 <= j < n,
        s.continues(path, edges[j], barred),
        s.continuations(path, edges, barred, n)[i] == (GraphPathModel {
            nodes: path.nodes.push(other_end(edges[j], path.nodes.last())),
            edges: path.edges.push(edges[j]),
        }),
    decreases n,
{
    let before = s.continuations(path, edges, barred, (n - 1) as nat);
    if i < before.len() {
        continuations_are(s, path, edges, barred, (n - 1) as nat, i)
    } else {
        n - 1
    }
}

proof fn advanced_are(s: SnapshotModel, paths: Seq<GraphPathModel>, barred: Set<Ulid>, n: nat, i: int) -> (r: (int, EdgeFactsModel))
    requires
        n <= paths.len(),
        0 <= i < s.advanced(paths, barred, n).len(),
    ensures
        0 <= r.0 < n,
        s.continues(paths[r.0], r.1, barred),
        s.advanced(paths, barred, n)[i] == (GraphPathModel {
            nodes: paths[r.0].nodes.push(other_end(r.1, paths[r.0].nodes.last())),
            edges: paths[r.0].edges.push(r.1),
        }),
    decreases n,
{
    let before = s.advanced(paths, barred, (n - 1) as nat);
    if i < before.len() {
        advanced_are(s, paths, barred, (n - 1) as nat, i)
    } else {
        let path = paths[n - 1];
        let edges = s.walkable(path.nodes.last());
        let j = continuations_are(s, path, edges, barred, edges.len(), i - before.len());
        (n - 1, edges[j])
    }
}

/// Every way of a level starts at the seed, has as many steps as the level says, meets no
/// memory twice, and leads only over memories that are valid.
pub proof fn ways_are_simple(s: SnapshotModel, seed: Ulid, k: nat, i: int)
    requires
        0 <= i < s.level(seed, k).len(),
    ensures
        s.level(seed, k)[i].nodes.len() == k + 1,
        s.level(seed, k)[i].edges.len() == k,
        s.level(seed, k)[i].nodes[0] == seed,
        s.level(seed, k)[i].nodes.no_duplicates(),
        forall|j: int| 0 <= j <= k ==> s.stands(#[trigger] s.level(seed, k)[i].nodes[j]),
    decreases k,
{
    let path = s.level(seed, k)[i];
    if k == 0 {
        assert(path == standstill(seed));
    } else {
        let before = s.level(seed, (k - 1) as nat);
        let (j, edge) = advanced_are(s, before, s.within(seed, (k - 1) as nat), before.len(), i);
        ways_are_simple(s, seed, (k - 1) as nat, j);
        let next = other_end(edge, before[j].nodes.last());
        assert(path.nodes == before[j].nodes.push(next));
        assert forall|a: int, b: int| 0 <= a < path.nodes.len() && 0 <= b < path.nodes.len() && a != b implies path.nodes[a]
            != path.nodes[b] by {
            if a == k {
                assert(before[j].nodes[b] == path.nodes[b]);
            }
            if b == k {
                assert(before[j].nodes[a] == path.nodes[a]);
            }
        }
        assert forall|a: int| 0 <= a <= k implies s.stands(#[trigger] path.nodes[a]) by {
            if a < k {
                assert(path.nodes[a] == before[j].nodes[a]);
            }
        }
    }
}

/// A way is never longer than it need be: what a level reaches, no lower level reached.
pub proof fn levels_reach_what_is_new(s: SnapshotModel, seed: Ulid, k: nat, i: int)
    requires
        k > 0,
        0 <= i < s.level(seed, k).len(),
    ensures
        !s.within(seed, (k - 1) as nat).contains(s.level(seed, k)[i].nodes.last()),
{
    let before = s.level(seed, (k - 1) as nat);
    let (j, edge) = advanced_are(s, before, s.within(seed, (k - 1) as nat), before.len(), i);
}

proof fn nothing_follows(s: SnapshotModel, seed: Ulid, k: nat, m: nat)
    requires
        k <= m,
        s.level(seed, k).len() == 0,
    ensures
        s.level(seed, m).len() == 0,
        s.paths(seed, m) == s.paths(seed, k),
    decreases m,
{
    if k < m {
        nothing_follows(s, seed, k, (m - 1) as nat);
        assert(s.advanced(s.level(seed, (m - 1) as nat), s.within(seed, (m - 1) as nat), 0).len() == 0);
        assert(s.paths(seed, m) =~= s.paths(seed, (m - 1) as nat));
    }
}

/// Whether a list names a memory.
pub fn lists_id(ids: &Vec<Ulid>, wanted: Ulid) -> (r: bool)
    ensures
        r == ids@.contains(wanted),
{
    for i in 0..ids.len()
        invariant
            forall|j: int| 0 <= j < i ==> ids@[j] != wanted,
    {
        if ids[i] == wanted {
            return true;
        }
    }
    false
}

impl Snapshot {
    pub fn new() -> (r: Self)
        ensures
            r@.nodes == Map::<Ulid, NodeFactsModel>::empty(),
            r@.outgoing == Map::<Ulid, Seq<EdgeFactsModel>>::empty(),
            r@.incoming == Map::<Ulid, Seq<EdgeFactsModel>>::empty(),
            r@.names_its_memories(),
    {
        Snapshot { nodes: Table::new(), outgoing: Table::new(), incoming: Table::new() }
    }

    /// Puts a memory into the snapshot.
    pub fn set_node(&mut self, node: NodeFacts)
        ensures
            final(self)@ == (SnapshotModel { nodes: old(self)@.nodes.insert(node.id, node@), ..old(self)@ }),
            old(self)@.names_its_memories() ==> final(self)@.names_its_memories(),
    {
        let ghost before = self@;
        let ghost added = node@;
        self.nodes.insert(node.id, node);
        proof {
            let after = self@;
            assert(after.nodes == before.nodes.insert(added.id, added));
            if before.names_its_memories() {
                assert forall|id: Ulid| #[trigger] after.nodes.contains_key(id) implies after.nodes[id].id == id by {
                    assert(id == added.id || before.nodes.contains_key(id));
                }
            }
        }
    }

    /// Puts the relations at a memory into the snapshot, in the order in which they are
    /// followed.
    pub fn set_edges(&mut self, id: Ulid, outgoing: Vec<EdgeFacts>, incoming: Vec<EdgeFacts>)
        ensures
            final(self)@ == (SnapshotModel {
                outgoing: old(self)@.outgoing.insert(id, views(outgoing@)),
                incoming: old(self)@.incoming.insert(id, views(incoming@)),
                ..old(self)@
            }),
            old(self)@.names_its_memories() ==> final(self)@.names_its_memories(),
    {
        let ghost before = self@;
        self.outgoing.insert(id, EdgeList { edges: outgoing });
        self.incoming.insert(id, EdgeList { edges: incoming });
        assert(self@.nodes == before.nodes);
    }

    pub fn node(&self, id: Ulid) -> (r: Option<NodeFacts>)
        ensures
            opt_view(r) == lookup(self@.nodes, id),
    {
        match self.nodes.get(&id) {
            Some(node) => Some(node.replica()),
            None => None,
        }
    }

    pub(crate) fn stands(&self, id: Ulid) -> (r: bool)
        ensures
            r == self@.stands(id),
    {
        match self.nodes.get(&id) {
            Some(node) => node.valid,
            None => false,
        }
    }

    fn in_time(&self, edge: &EdgeFacts) -> (r: bool)
        ensures
            r == self@.in_time(edge@),
    {
        match self.nodes.get(&edge.src) {
            Some(cause) => match self.nodes.get(&edge.dst) {
                Some(effect) => cause.valid_from_ms <= effect.valid_from_ms,
                None => false,
            },
            None => false,
        }
    }

    fn walkable(&self, id: Ulid) -> (r: Vec<EdgeFacts>)
        ensures
            views(r@) == self@.walkable(id),
    {
        let mut edges: Vec<EdgeFacts> = match self.outgoing.get(&id) {
            Some(list) => replicas(&list.edges),
            None => Vec::new(),
        };
        let ghost out = self@.edges_from(id);
        assert(views(edges@) =~= out);
        if let Some(list) = self.incoming.get(&id) {
            let ghost all = views(list.edges@);
            assert(all.len() == list.edges@.len());
            assert(out + uncausal(all, 0) =~= out);
            for i in 0..list.edges.len()
                invariant
                    all == views(list.edges@),
                    all.len() == list.edges@.len(),
                    views(edges@) == out + uncausal(all, i as nat),
            {
                assert(views(list.edges@)[i as int] == list.edges@[i as int]@);
                if !is_causal(list.edges[i].label.as_str()) {
                    let ghost before = edges@;
                    edges.push(list.edges[i].replica());
                    assert(views(edges@) =~= views(before).push(all[i as int]));
                    assert(views(edges@) =~= out + uncausal(all, (i + 1) as nat));
                }
            }
        } else {
            assert(out + uncausal(self@.edges_to(id), 0) =~= out);
        }
        edges
    }

    fn continue_path(&self, path: &GraphPath, edges: &Vec<EdgeFacts>, barred: &Ranked<Ulid>) -> (r: Vec<GraphPath>)
        requires
            path@.nodes.len() > 0,
        ensures
            views(r@) == self@.continuations(path@, views(edges@), barred@.to_set(), edges@.len()),
    {
        let ghost all = views(edges@);
        let ghost closed = barred@.to_set();
        let current: Ulid = path.nodes[path.nodes.len() - 1];
        let mut r: Vec<GraphPath> = Vec::new();
        assert(views(r@) =~= Seq::<GraphPathModel>::empty());
        for i in 0..edges.len()
            invariant
                all == views(edges@),
                closed == barred@.to_set(),
                path@.nodes.len() > 0,
                current == path@.nodes.last(),
                views(r@) == self@.continuations(path@, all, closed, i as nat),
        {
            assert(views(edges@)[i as int] == edges@[i as int]@);
            let edge = &edges[i];
            let next: Ulid = if edge.src == current {
                edge.dst
            } else {
                edge.src
            };
            if edge.valid && self.stands(next) && !lists_id(&path.nodes, next) && (!is_causal(edge.label.as_str())
                || self.in_time(edge)) && !barred.contains(&next) {
                let mut nodes = copies(&path.nodes);
                nodes.push(next);
                let mut followed = replicas(&path.edges);
                let ghost steps = followed@;
                followed.push(edge.replica());
                assert(views(followed@) =~= views(steps).push(edge@));
                let longer = GraphPath { nodes, edges: followed };
                assert(longer@ == (GraphPathModel {
                    nodes: path@.nodes.push(next),
                    edges: path@.edges.push(edge@),
                }));
                let ghost before = r@;
                r.push(longer);
                assert(views(r@) =~= views(before).push(longer@));
            }
        }
        r
    }

    fn advance(&self, paths: &Vec<GraphPath>, barred: &Ranked<Ulid>) -> (r: Vec<GraphPath>)
        requires
            forall|i: int| 0 <= i < paths@.len() ==> (#[trigger] views(paths@)[i]).nodes.len() > 0,
        ensures
            views(r@) == self@.advanced(views(paths@), barred@.to_set(), paths@.len()),
    {
        let ghost all = views(paths@);
        let ghost closed = barred@.to_set();
        assert(all.len() == paths@.len());
        let mut r: Vec<GraphPath> = Vec::new();
        assert(views(r@) =~= Seq::<GraphPathModel>::empty());
        for i in 0..paths.len()
            invariant
                all == views(paths@),
                all.len() == paths@.len(),
                closed == barred@.to_set(),
                forall|i: int| 0 <= i < paths@.len() ==> (#[trigger] all[i]).nodes.len() > 0,
                views(r@) == self@.advanced(all, closed, i as nat),
        {
            assert(views(paths@)[i as int] == paths@[i as int]@);
            let path = &paths[i];
            let edges = self.walkable(path.nodes[path.nodes.len() - 1]);
            assert(views(edges@).len() == edges@.len());
            let mut longer = self.continue_path(path, &edges, barred);
            let ghost before = r@;
            let ghost more = longer@;
            r.append(&mut longer);
            assert(views(r@) =~= views(before) + views(more)) by {
                assert(r@ == before + more);
                assert forall|k: int| 0 <= k < r@.len() implies #[trigger] views(r@)[k] == (views(before) + views(
                    more,
                ))[k] by {
                    assert(views(r@)[k] == r@[k]@);
                    if k < before.len() {
                        assert(views(before)[k] == before[k]@);
                    } else {
                        assert(views(more)[k - before.len()] == more[k - before.len()]@);
                    }
                }
            }
        }
        r
    }

    fn bar_ends(barred: &mut Ranked<Ulid>, paths: &Vec<GraphPath>)
        requires
            forall|i: int| 0 <= i < paths@.len() ==> (#[trigger] views(paths@)[i]).nodes.len() > 0,
        ensures
            final(barred)@.to_set() == old(barred)@.to_set().union(ends_of(views(paths@))),
    {
        let ghost all = views(paths@);
        assert(all.len() == paths@.len());
        let ghost start = barred@.to_set();
        for i in 0..paths.len()
            invariant
                all == views(paths@),
                all.len() == paths@.len(),
                forall|i: int| 0 <= i < paths@.len() ==> (#[trigger] all[i]).nodes.len() > 0,
                forall|id: Ulid| #[trigger]
                    barred@.contains(id) <==> start.contains(id) || exists|j: int|
                        0 <= j < i && (#[trigger] all[j]).nodes.last() == id,
        {
            assert(views(paths@)[i as int] == paths@[i as int]@);
            let path = &paths[i];
            let ghost before = barred@;
            barred.insert(path.nodes[path.nodes.len() - 1]);
            proof {
                assert forall|id: Ulid| #[trigger] barred@.contains(id) <==> start.contains(id) || exists|j: int|
                    0 <= j < i + 1 && (#[trigger] all[j]).nodes.last() == id by {
                    if before.contains(id) && !start.contains(id) {
                        let j = choose|j: int| 0 <= j < i && (#[trigger] all[j]).nodes.last() == id;
                        assert(all[j].nodes.last() == id);
                    }
                    if all[i as int].nodes.last() == id {
                        assert(barred@.contains(id));
                    }
                }
            }
        }
        assert(barred@.to_set() =~= start.union(ends_of(all)));
    }

    /// The ways of up to `depth` steps from a seed, the shorter first, each to a memory
    /// that no shorter way reaches.
    pub fn graph_paths(&self, seed: Ulid, depth: usize) -> (r: Vec<GraphPath>)
        ensures
            views(r@) == self@.paths(seed, depth as nat),
    {
        let mut paths: Vec<GraphPath> = Vec::new();
        assert(views(paths@) =~= Seq::<GraphPathModel>::empty());
        if !self.stands(seed) {
            proof {
                nothing_follows(self@, seed, 0, depth as nat);
            }
            return paths;
        }
        let first = GraphPath { nodes: vec![seed], edges: Vec::new() };
        let mut frontier: Vec<GraphPath> = Vec::new();
        frontier.push(first);
        let mut barred: Ranked<Ulid> = Ranked::new();
        barred.insert(seed);
        proof {
            assert(first.nodes@ =~= seq![seed]);
            assert(first@.edges =~= Seq::<EdgeFactsModel>::empty());
            assert(views(frontier@) =~= self@.level(seed, 0));
            assert(barred@.to_set() =~= self@.within(seed, 0));
        }
        let mut k: usize = 0;
        while k < depth && frontier.len() > 0
            invariant
                k <= depth,
                views(frontier@) == self@.level(seed, k as nat),
                barred@.to_set() == self@.within(seed, k as nat),
                views(paths@) == self@.paths(seed, k as nat),
            decreases depth - k,
        {
            proof {
                assert(views(frontier@).len() == frontier@.len());
                assert forall|i: int| 0 <= i < frontier@.len() implies (#[trigger] views(frontier@)[i]).nodes.len()
                    > 0 by {
                    ways_are_simple(self@, seed, k as nat, i);
                }
            }
            let mut next = self.advance(&frontier, &barred);
            proof {
                assert(views(next@) == self@.level(seed, (k + 1) as nat));
                assert(views(next@).len() == next@.len());
                assert forall|i: int| 0 <= i < next@.len() implies (#[trigger] views(next@)[i]).nodes.len() > 0 by {
                    ways_are_simple(self@, seed, (k + 1) as nat, i);
                }
            }
            Self::bar_ends(&mut barred, &next);
            frontier = replicas(&next);
            let ghost before = paths@;
            let ghost more = next@;
            paths.append(&mut next);
            assert(views(paths@) =~= views(before) + views(more)) by {
                assert(paths@ == before + more);
                assert forall|i: int| 0 <= i < paths@.len() implies #[trigger] views(paths@)[i] == (views(before)
                    + views(more))[i] by {
                    assert(views(paths@)[i] == paths@[i]@);
                    if i < before.len() {
                        assert(views(before)[i] == before[i]@);
                    } else {
                        assert(views(more)[i - before.len()] == more[i - before.len()]@);
                    }
                }
            }
            k = k + 1;
        }
        proof {
            if k < depth {
                assert(views(frontier@).len() == frontier@.len());
                nothing_follows(self@, seed, k as nat, depth as nat);
            }
        }
        paths
    }

    fn gather_sources(&self, found: &mut Ranked<Ulid>, edge: &EdgeFacts, id: Ulid)
        requires
            increasing(old(found)@),
        ensures
            increasing(final(found)@),
            forall|source: Ulid| #[trigger]
                final(found)@.contains(source) <==> old(found)@.contains(source) || self@.gives_source(
                    edge@,
                    id,
                    source,
                ),
    {
        let derived = same_text(edge.label.as_str(), "derived_from");
        if !edge.valid || (derived && (edge.src != id || edge.dst == id)) {
            return;
        }
        let other: Ulid = if edge.src == id {
            edge.dst
        } else {
            edge.src
        };
        if !self.stands(other) {
            return;
        }
        if derived || lists_id(&edge.evidence, other) {
            found.insert(other);
        }
        let ghost start = found@;
        for i in 0..edge.evidence.len()
            invariant
                increasing(found@),
                forall|source: Ulid| #[trigger]
                    found@.contains(source) <==> start.contains(source) || exists|j: int|
                        0 <= j < i && #[trigger] edge.evidence@[j] == source && source != id && self@.stands(source),
        {
            let ghost before = found@;
            let source = edge.evidence[i];
            if source != id && self.stands(source) {
                found.insert(source);
            }
            proof {
                assert forall|s: Ulid| #[trigger] found@.contains(s) <==> start.contains(s) || exists|j: int|
                    0 <= j < i + 1 && #[trigger] edge.evidence@[j] == s && s != id && self@.stands(s) by {
                    if before.contains(s) && !start.contains(s) {
                        let j = choose|j: int|
                            0 <= j < i && #[trigger] edge.evidence@[j] == s && s != id && self@.stands(s);
                        assert(edge.evidence@[j] == s);
                    }
                    if s == source && s != id && self@.stands(s) {
                        assert(edge.evidence@[i as int] == s);
                    }
                }
            }
        }
        proof {
            assert forall|s: Ulid| #[trigger] found@.contains(s) <==> old(found)@.contains(s) || self@.gives_source(
                edge@,
                id,
                s,
            ) by {
                if edge@.evidence.contains(s) && s != id && self@.stands(s) {
                    let j = choose|j: int| 0 <= j < edge.evidence@.len() && edge.evidence@[j] == s;
                    assert(edge.evidence@[j] == s);
                }
                if exists|j: int|
                    0 <= j < edge.evidence@.len() && #[trigger] edge.evidence@[j] == s && s != id && self@.stands(s) {
                    let j = choose|j: int|
                        0 <= j < edge.evidence@.len() && #[trigger] edge.evidence@[j] == s && s != id
                            && self@.stands(s);
                    assert(edge@.evidence.contains(s));
                }
            }
        }
    }

    fn gather_opponent(&self, found: &mut Ranked<Ulid>, edge: &EdgeFacts, id: Ulid)
        requires
            increasing(old(found)@),
        ensures
            increasing(final(found)@),
            forall|other: Ulid| #[trigger]
                final(found)@.contains(other) <==> old(found)@.contains(other) || self@.sets_against(
                    edge@,
                    id,
                    other,
                ),
    {
        proof {
            reveal_strlit("contradicts");
            reveal_strlit("derived_from");
            assert("contradicts"@[0] != "derived_from"@[0]);
        }
        if !edge.valid || !same_text(edge.label.as_str(), "contradicts") {
            return;
        }
        let other: Ulid = if edge.src == id {
            edge.dst
        } else {
            edge.src
        };
        if self.stands(other) {
            found.insert(other);
        }
    }

    fn edges_at(&self, id: Ulid) -> (r: Vec<EdgeFacts>)
        ensures
            views(r@) == self@.edges_at(id),
    {
        let mut edges: Vec<EdgeFacts> = match self.outgoing.get(&id) {
            Some(list) => replicas(&list.edges),
            None => Vec::new(),
        };
        let mut more: Vec<EdgeFacts> = match self.incoming.get(&id) {
            Some(list) => replicas(&list.edges),
            None => Vec::new(),
        };
        let ghost out = edges@;
        let ghost into = more@;
        assert(views(out) =~= self@.edges_from(id));
        assert(views(into) =~= self@.edges_to(id));
        edges.append(&mut more);
        assert(views(edges@) =~= views(out) + views(into)) by {
            assert(edges@ == out + into);
            assert forall|i: int| 0 <= i < edges@.len() implies #[trigger] views(edges@)[i] == (views(out) + views(
                into,
            ))[i] by {
                assert(views(edges@)[i] == edges@[i]@);
                if i < out.len() {
                    assert(views(out)[i] == out[i]@);
                } else {
                    assert(views(into)[i - out.len()] == into[i - out.len()]@);
                }
            }
        }
        edges
    }

    /// What a memory can be traced to and what it is contradicted by, each in order.
    pub fn provenance_and_conflicts(&self, id: Ulid) -> (r: (Vec<Ulid>, Vec<Ulid>))
        ensures
            r.0@ == in_order(self@.sources_of(id)),
            r.1@ == in_order(self@.opponents_of(id)),
            lists(r.0@, self@.sources_of(id)),
            lists(r.1@, self@.opponents_of(id)),
    {
        let edges = self.edges_at(id);
        let ghost all = self@.edges_at(id);
        assert(all.len() == edges@.len());
        let mut sources: Ranked<Ulid> = Ranked::new();
        let mut opponents: Ranked<Ulid> = Ranked::new();
        for i in 0..edges.len()
            invariant
                all == views(edges@),
                all.len() == edges@.len(),
                increasing(sources@),
                increasing(opponents@),
                forall|s: Ulid| #[trigger]
                    sources@.contains(s) <==> exists|j: int|
                        0 <= j < i && self@.gives_source(#[trigger] all[j], id, s),
                forall|s: Ulid| #[trigger]
                    opponents@.contains(s) <==> exists|j: int|
                        0 <= j < i && self@.sets_against(#[trigger] all[j], id, s),
        {
            assert(views(edges@)[i as int] == edges@[i as int]@);
            let ghost s0 = sources@;
            let ghost o0 = opponents@;
            self.gather_sources(&mut sources, &edges[i], id);
            self.gather_opponent(&mut opponents, &edges[i], id);
            proof {
                assert forall|s: Ulid| #[trigger] sources@.contains(s) <==> exists|j: int|
                    0 <= j < i + 1 && self@.gives_source(#[trigger] all[j], id, s) by {
                    if s0.contains(s) {
                        let j = choose|j: int| 0 <= j < i && self@.gives_source(#[trigger] all[j], id, s);
                        assert(self@.gives_source(all[j], id, s));
                    }
                    if self@.gives_source(all[i as int], id, s) {
                        assert(sources@.contains(s));
                    }
                }
                assert forall|s: Ulid| #[trigger] opponents@.contains(s) <==> exists|j: int|
                    0 <= j < i + 1 && self@.sets_against(#[trigger] all[j], id, s) by {
                    if o0.contains(s) {
                        let j = choose|j: int| 0 <= j < i && self@.sets_against(#[trigger] all[j], id, s);
                        assert(self@.sets_against(all[j], id, s));
                    }
                    if self@.sets_against(all[i as int], id, s) {
                        assert(opponents@.contains(s));
                    }
                }
            }
        }
        let sources = sources.into_vec();
        let opponents = opponents.into_vec();
        proof {
            assert forall|s: Ulid| #[trigger] sources@.contains(s) <==> self@.sources_of(id).contains(s) by {
            }
            assert forall|s: Ulid| #[trigger] opponents@.contains(s) <==> self@.opponents_of(id).contains(s) by {
            }
            in_order_is_unique(sources@, self@.sources_of(id));
            in_order_is_unique(opponents@, self@.opponents_of(id));
        }
        (sources, opponents)
    }
}

} // verus!
