//! Searching the memory graph: filters on hits, the spread from a hit over the relations,
//! and the rows that an expanded query answers with.
use vstd::prelude::*;
use crate::ids::Ulid;
use crate::naming::ulid_read;
use crate::order::Ranked;
use crate::records::graph::{EdgeFacts, EdgeFactsModel, MetadataEntry, MetadataEntryModel};
use crate::snapshot::{lists_id, other_end};
use crate::table::{Replica, copies, views};
use crate::wordlist::{lists_text, same_text};

verus! {

/// What a hit has to be like. Whatever is set has to hold.
#[derive(Debug, PartialEq, Eq)]
pub struct VectorFilter {
    pub kind: Option<u8>,
    /// The earliest time at which the memory was made.
    pub after_ms: Option<i64>,
    /// The latest time at which the memory was made.
    pub before_ms: Option<i64>,
    /// What the memory carries, by key.
    pub metadata: Vec<MetadataEntry>,
}

/// What a [`VectorFilter`] holds.
#[verifier::ext_equal]
pub struct VectorFilterModel {
    pub kind: Option<u8>,
    pub after_ms: Option<i64>,
    pub before_ms: Option<i64>,
    pub metadata: Seq<MetadataEntryModel>,
}

impl View for VectorFilter {
    type V = VectorFilterModel;

    open spec fn view(&self) -> VectorFilterModel {
        VectorFilterModel {
            kind: self.kind,
            after_ms: self.after_ms,
            before_ms: self.before_ms,
            metadata: views(self.metadata@),
        }
    }
}

/// The first `n` entries, with those under a key given a value.
pub open spec fn reset_entries(entries: Seq<MetadataEntryModel>, key: Seq<char>, value: Seq<char>, n: nat) -> Seq<
    MetadataEntryModel,
>
    decreases n,
{
    if n == 0 {
        Seq::empty()
    } else {
        reset_entries(entries, key, value, (n - 1) as nat).push(
            if entries[n - 1].key == key {
                MetadataEntryModel { key, value }
            } else {
                entries[n - 1]
            },
        )
    }
}

/// Whether an entry stands under a key.
pub open spec fn has_entry(entries: Seq<MetadataEntryModel>, key: Seq<char>) -> bool {
    exists|i: int| 0 <= i < entries.len() && (#[trigger] entries[i]).key == key
}

/// Whether an entry stands under a key with a value.
pub open spec fn holds_entry(entries: Seq<MetadataEntryModel>, wanted: MetadataEntryModel) -> bool {
    exists|i: int|
        0 <= i < entries.len() && (#[trigger] entries[i]).key == wanted.key && entries[i].value == wanted.value
}

impl VectorFilterModel {
    /// Whether a memory of a kind that was made at a time may be hit.
    pub open spec fn matches_meta(self, kind_u8: u8, created_at_ms: i64) -> bool {
        &&& self.kind is Some ==> self.kind == Some(kind_u8)
        &&& self.after_ms is Some ==> created_at_ms >= self.after_ms->0
        &&& self.before_ms is Some ==> created_at_ms <= self.before_ms->0
    }

    /// Whether a memory may be hit.
    pub open spec fn matches(self, kind_u8: u8, created_at_ms: i64, metadata: Seq<MetadataEntryModel>) -> bool {
        self.matches_meta(kind_u8, created_at_ms) && forall|i: int|
            0 <= i < self.metadata.len() ==> holds_entry(metadata, #[trigger] self.metadata[i])
    }
}

fn find_entry(entries: &Vec<MetadataEntry>, wanted: &MetadataEntry) -> (r: bool)
    ensures
        r == holds_entry(views(entries@), wanted@),
{
    let ghost all = views(entries@);
    assert(all.len() == entries@.len());
    for i in 0..entries.len()
        invariant
            all == views(entries@),
            all.len() == entries@.len(),
            forall|j: int| 0 <= j < i ==> !((#[trigger] all[j]).key == wanted@.key && all[j].value == wanted@.value),
    {
        assert(views(entries@)[i as int] == entries@[i as int]@);
        if same_text(entries[i].key.as_str(), wanted.key.as_str()) && same_text(
            entries[i].value.as_str(),
            wanted.value.as_str(),
        ) {
            assert(all[i as int].key == wanted@.key);
            return true;
        }
    }
    false
}

impl VectorFilter {
    /// A filter that lets everything pass.
    pub fn new() -> (r: Self)
        ensures
            r@ == (VectorFilterModel { kind: None, after_ms: None, before_ms: None, metadata: Seq::empty() }),
    {
        let r = VectorFilter { kind: None, after_ms: None, before_ms: None, metadata: Vec::new() };
        assert(r@.metadata =~= Seq::<MetadataEntryModel>::empty());
        r
    }

    pub fn kind(self, kind: u8) -> (r: Self)
        ensures
            r@ == (VectorFilterModel { kind: Some(kind), ..self@ }),
    {
        VectorFilter { kind: Some(kind), ..self }
    }

    pub fn after_ms(self, t: i64) -> (r: Self)
        ensures
            r@ == (VectorFilterModel { after_ms: Some(t), ..self@ }),
    {
        VectorFilter { after_ms: Some(t), ..self }
    }

    pub fn before_ms(self, t: i64) -> (r: Self)
        ensures
            r@ == (VectorFilterModel { before_ms: Some(t), ..self@ }),
    {
        VectorFilter { before_ms: Some(t), ..self }
    }

    /// Asks for a value under a key, in place of what was asked for under it before.
    pub fn metadata_eq(self, key: String, value: String) -> (r: Self)
        ensures
            r@ == (VectorFilterModel {
                metadata: if has_entry(self@.metadata, key@) {
                    reset_entries(self@.metadata, key@, value@, self@.metadata.len())
                } else {
                    self@.metadata.push(MetadataEntryModel { key: key@, value: value@ })
                },
                ..self@
            }),
    {
        let ghost all = self@.metadata;
        assert(all.len() == self.metadata@.len());
        let mut metadata: Vec<MetadataEntry> = Vec::new();
        let mut found = false;
        assert(views(metadata@) =~= Seq::<MetadataEntryModel>::empty());
        for i in 0..self.metadata.len()
            invariant
                all == views(self.metadata@),
                all.len() == self.metadata@.len(),
                found == exists|j: int| 0 <= j < i && (#[trigger] all[j]).key == key@,
                views(metadata@) == reset_entries(all, key@, value@, i as nat),
                !found ==> views(metadata@) == all.take(i as int),
        {
            assert(views(self.metadata@)[i as int] == self.metadata@[i as int]@);
            let ghost before = metadata@;
            let entry = if same_text(self.metadata[i].key.as_str(), key.as_str()) {
                assert(all[i as int].key == key@);
                found = true;
                MetadataEntry { key: key.clone(), value: value.clone() }
            } else {
                self.metadata[i].replica()
            };
            metadata.push(entry);
            assert(views(metadata@) =~= views(before).push(entry@));
            assert(!found ==> views(metadata@) =~= all.take(i + 1));
        }
        if !found {
            let ghost before = metadata@;
            let entry = MetadataEntry { key, value };
            metadata.push(entry);
            assert(all.take(all.len() as int) =~= all);
            assert(views(metadata@) =~= views(before).push(entry@));
        }
        VectorFilter { metadata, ..self }
    }

    /// Whether a memory of a kind that was made at a time may be hit.
    pub fn matches_meta(&self, kind_u8: u8, created_at_ms: i64) -> (r: bool)
        ensures
            r == self@.matches_meta(kind_u8, created_at_ms),
    {
        if let Some(kind) = self.kind {
            if kind_u8 != kind {
                return false;
            }
        }
        if let Some(after) = self.after_ms {
            if created_at_ms < after {
                return false;
            }
        }
        if let Some(before) = self.before_ms {
            if created_at_ms > before {
                return false;
            }
        }
        true
    }

    /// Whether a memory may be hit.
    pub fn matches(&self, kind_u8: u8, created_at_ms: i64, metadata: &Vec<MetadataEntry>) -> (r: bool)
        ensures
            r == self@.matches(kind_u8, created_at_ms, views(metadata@)),
    {
        if !self.matches_meta(kind_u8, created_at_ms) {
            return false;
        }
        let ghost all = self@.metadata;
        assert(all.len() == self.metadata@.len());
        for i in 0..self.metadata.len()
            invariant
                all == views(self.metadata@),
                all == self@.metadata,
                all.len() == self.metadata@.len(),
                forall|j: int| 0 <= j < i ==> holds_entry(views(metadata@), #[trigger] all[j]),
        {
            assert(views(self.metadata@)[i as int] == self.metadata@[i as int]@);
            if !find_entry(metadata, &self.metadata[i]) {
                assert(!holds_entry(views(metadata@), all[i as int]));
                return false;
            }
        }
        true
    }
}


/// The memories that every one of some lists names; none if there is no list.
pub fn metadata_candidate_set(found: &Vec<Vec<Ulid>>) -> (r: Vec<Ulid>)
    ensures
        found@.len() == 0 ==> r@.len() == 0,
        found@.len() > 0 ==> forall|id: Ulid| #[trigger]
            r@.contains(id) <==> forall|i: int| 0 <= i < found@.len() ==> (#[trigger] found@[i])@.contains(id),
{
    if found.len() == 0 {
        return Vec::new();
    }
    let mut allowed: Vec<Ulid> = copies(&found[0]);
    for i in 1..found.len()
        invariant
            found@.len() > 0,
            forall|id: Ulid| #[trigger]
                allowed@.contains(id) <==> forall|k: int| 0 <= k < i ==> (#[trigger] found@[k])@.contains(id),
    {
        let ghost before = allowed@;
        let list = &found[i];
        let mut kept: Vec<Ulid> = Vec::new();
        for j in 0..allowed.len()
            invariant
                forall|id: Ulid| #[trigger]
                    kept@.contains(id) <==> list@.contains(id) && exists|k: int| 0 <= k < j && allowed@[k] == id,
        {
            let ghost earlier = kept@;
            let id = allowed[j];
            if lists_id(list, id) {
                kept.push(id);
                assert(kept@[kept@.len() - 1] == id);
            }
            proof {
                assert forall|x: Ulid| #[trigger] kept@.contains(x) <==> list@.contains(x) && exists|k: int|
                    0 <= k < j + 1 && allowed@[k] == x by {
                    if earlier.contains(x) {
                        let at = choose|at: int| 0 <= at < earlier.len() && earlier[at] == x;
                        assert(kept@[at] == x);
                    }
                    if kept@.contains(x) && x != id {
                        let at = choose|at: int| 0 <= at < kept@.len() && kept@[at] == x;
                        assert(earlier[at] == x);
                        assert(earlier.contains(x));
                    }
                    if x == id {
                        assert(allowed@[j as int] == x);
                    }
                }
            }
        }
        proof {
            assert forall|id: Ulid| #[trigger] kept@.contains(id) <==> forall|k: int|
                0 <= k < i + 1 ==> (#[trigger] found@[k])@.contains(id) by {
                assert(kept@.contains(id) <==> list@.contains(id) && before.contains(id));
                if kept@.contains(id) {
                    assert forall|k: int| 0 <= k < i + 1 implies (#[trigger] found@[k])@.contains(id) by {}
                }
                if forall|k: int| 0 <= k < i + 1 ==> (#[trigger] found@[k])@.contains(id) {
                    assert(found@[i as int]@.contains(id));
                    assert(forall|k: int| 0 <= k < i ==> (#[trigger] found@[k])@.contains(id));
                }
            }
        }
        allowed = kept;
    }
    allowed
}

/// A memory that a spread came to, and over how many relations.
#[derive(Clone, Copy, Debug, PartialEq, Eq, Structural)]
pub struct HopNode {
    pub id: Ulid,
    pub hop: usize,
}

/// The spread from a hit: where it has been, and from where it goes on.
pub struct Spread {
    frontier: Vec<HopNode>,
    visited: Ranked<Ulid>,
    hops: usize,
}

/// What a [`Spread`] holds.
#[verifier::ext_equal]
pub struct SpreadModel {
    pub frontier: Seq<HopNode>,
    pub visited: Set<Ulid>,
    pub hops: usize,
}

impl View for Spread {
    type V = SpreadModel;

    closed spec fn view(&self) -> SpreadModel {
        SpreadModel { frontier: self.frontier@, visited: self.visited@.to_set(), hops: self.hops }
    }
}

/// A frontier without the memories before the first one from which the spread goes on.
pub open spec fn live_frontier(frontier: Seq<HopNode>, hops: usize) -> Seq<HopNode>
    decreases frontier.len(),
{
    if frontier.len() == 0 || frontier.first().hop < hops {
        frontier
    } else {
        live_frontier(frontier.drop_first(), hops)
    }
}

/// The memories that the first `n` relations lead to for the first time.
pub open spec fn newly_reached(edges: Seq<EdgeFactsModel>, from: HopNode, visited: Set<Ulid>, n: nat) -> Seq<HopNode>
    decreases n,
{
    if n == 0 {
        Seq::empty()
    } else {
        let before = newly_reached(edges, from, visited, (n - 1) as nat);
        let next = other_end(edges[n - 1], from.id);
        if visited.contains(next) || hop_ids(before).contains(next) {
            before
        } else {
            before.push(HopNode { id: next, hop: (from.hop + 1) as usize })
        }
    }
}

/// The memories of a list of steps.
pub open spec fn hop_ids(steps: Seq<HopNode>) -> Set<Ulid> {
    Set::new(|id: Ulid| exists|i: int| 0 <= i < steps.len() && (#[trigger] steps[i]).id == id)
}

impl Spread {
    /// Starts at a hit, to go no further than over a number of relations.
    pub fn new(seed: Ulid, hops: usize) -> (r: Self)
        ensures
            r@ == (SpreadModel { frontier: seq![HopNode { id: seed, hop: 0 }], visited: set![seed], hops }),
    {
        let mut visited: Ranked<Ulid> = Ranked::new();
        visited.insert(seed);
        let r = Spread { frontier: vec![HopNode { id: seed, hop: 0 }], visited, hops };
        assert(r@.frontier =~= seq![HopNode { id: seed, hop: 0 }]);
        assert(r@.visited =~= set![seed]);
        r
    }

    /// The memory from which the spread goes on, if it does: of those that it came to, the
    /// first.
    pub fn next(&mut self) -> (r: Option<HopNode>)
        ensures
            match r {
                Some(step) => {
                    let live = live_frontier(old(self)@.frontier, old(self)@.hops);
                    live.len() > 0 && step == live.first() && step.hop < old(self)@.hops && final(self)@ == (
                    SpreadModel { frontier: live.drop_first(), ..old(self)@ })
                },
                None => live_frontier(old(self)@.frontier, old(self)@.hops).len() == 0 && final(self)@ == (
                SpreadModel { frontier: Seq::empty(), ..old(self)@ }),
            },
    {
        let ghost start = self.frontier@;
        let ghost wanted = live_frontier(start, self.hops);
        let ghost visited = self.visited@;
        while self.frontier.len() > 0
            invariant
                live_frontier(self.frontier@, self.hops) == wanted,
                self.hops == old(self)@.hops,
                self.visited@.to_set() == old(self)@.visited,
                wanted == live_frontier(old(self)@.frontier, old(self)@.hops),
            decreases self.frontier@.len(),
        {
            let ghost before = self.frontier@;
            let step = self.frontier.remove(0);
            assert(self.frontier@ =~= before.drop_first());
            if step.hop < self.hops {
                return Some(step);
            }
        }
        assert(self.frontier@ =~= Seq::<HopNode>::empty());
        None
    }

    /// Goes over the relations at a memory; answers with what it came to for the first
    /// time.
    pub fn go(&mut self, from: HopNode, edges: &Vec<EdgeFacts>) -> (r: Vec<HopNode>)
        requires
            from.hop < old(self)@.hops,
        ensures
            r@ == newly_reached(views(edges@), from, old(self)@.visited, edges@.len()),
            final(self)@ == (SpreadModel {
                frontier: old(self)@.frontier + r@,
                visited: old(self)@.visited.union(hop_ids(r@)),
                ..old(self)@
            }),
    {
        let ghost all = views(edges@);
        let ghost start = self@;
        let mut r: Vec<HopNode> = Vec::new();
        assert(self@.frontier =~= start.frontier + r@);
        assert(self@.visited =~= start.visited.union(hop_ids(r@)));
        for i in 0..edges.len()
            invariant
                from.hop < start.hops,
                all == views(edges@),
                r@ == newly_reached(all, from, start.visited, i as nat),
                self@.frontier == start.frontier + r@,
                self@.visited == start.visited.union(hop_ids(r@)),
                self@.hops == start.hops,
        {
            assert(views(edges@)[i as int] == edges@[i as int]@);
            let next: Ulid = if edges[i].src == from.id {
                edges[i].dst
            } else {
                edges[i].src
            };
            let ghost earlier = self@;
            let ghost before = r@;
            if !self.visited.contains(&next) {
                assert(!earlier.visited.contains(next));
                let step = HopNode { id: next, hop: from.hop + 1 };
                self.visited.insert(next);
                r.push(step);
                self.frontier.push(step);
                assert(self@.frontier =~= start.frontier + r@);
                assert forall|id: Ulid| hop_ids(r@).contains(id) <==> hop_ids(before).contains(id) || id == next by {
                    if hop_ids(before).contains(id) {
                        let k = choose|k: int| 0 <= k < before.len() && (#[trigger] before[k]).id == id;
                        assert(r@[k].id == id);
                    }
                    if id == next {
                        assert(r@[r@.len() - 1].id == id);
                    }
                    if hop_ids(r@).contains(id) && id != next {
                        let k = choose|k: int| 0 <= k < r@.len() && (#[trigger] r@[k]).id == id;
                        assert(before[k].id == id);
                    }
                }
                assert(self@.visited =~= earlier.visited.insert(next)) by {
                    assert forall|id: Ulid| self@.visited.contains(id) <==> earlier.visited.insert(next).contains(
                        id,
                    ) by {
                        assert(self.visited@.contains(id) <==> earlier.visited.contains(id) || id == next);
                    }
                }
                assert forall|id: Ulid| self@.visited.contains(id) <==> start.visited.union(hop_ids(r@)).contains(
                    id,
                ) by {
                    assert(hop_ids(r@).contains(id) <==> hop_ids(before).contains(id) || id == next);
                }
                assert(self@.visited =~= start.visited.union(hop_ids(r@)));
            } else {
                assert(earlier.visited.contains(next));
            }
        }
        r
    }
}

/// A memory that a row of a query leads to.
#[derive(Debug, PartialEq, Eq)]
pub struct ReachedRow {
    pub node_id: String,
    /// Whether the memory is stored.
    pub stored: bool,
}

/// What a [`ReachedRow`] holds.
#[verifier::ext_equal]
pub struct ReachedRowModel {
    pub node_id: Seq<char>,
    pub stored: bool,
}

impl View for ReachedRow {
    type V = ReachedRowModel;

    open spec fn view(&self) -> ReachedRowModel {
        ReachedRowModel { node_id: self.node_id@, stored: self.stored }
    }
}

/// A row of a query, and the memories that it leads to.
#[derive(Debug, PartialEq, Eq)]
pub struct SeedRow {
    pub node_id: String,
    pub reached: Vec<ReachedRow>,
}

/// What a [`SeedRow`] holds.
#[verifier::ext_equal]
pub struct SeedRowModel {
    pub node_id: Seq<char>,
    pub reached: Seq<ReachedRowModel>,
}

impl View for SeedRow {
    type V = SeedRowModel;

    open spec fn view(&self) -> SeedRowModel {
        SeedRowModel { node_id: self.node_id@, reached: views(self.reached@) }
    }
}

/// A row that is answered with: a seed, or a memory that it leads to.
#[derive(Clone, Copy, Debug, PartialEq, Eq, Structural)]
pub struct RowPick {
    pub seed: usize,
    pub reached: Option<usize>,
}

/// The rows so far, and the names that they and the passed-over memories go by.
#[verifier::ext_equal]
pub struct RowsModel {
    pub picks: Seq<RowPick>,
    pub emitted: Set<Seq<char>>,
}

/// The rows after the first `n` memories that a seed leads to.
pub open spec fn with_reached(rows: RowsModel, seed: usize, reached: Seq<ReachedRowModel>, n: nat) -> RowsModel
    decreases n,
{
    if n == 0 {
        rows
    } else {
        let before = with_reached(rows, seed, reached, (n - 1) as nat);
        let row = reached[n - 1];
        if before.emitted.contains(row.node_id) {
            before
        } else {
            RowsModel {
                picks: if row.stored {
                    before.picks.push(RowPick { seed, reached: Some((n - 1) as usize) })
                } else {
                    before.picks
                },
                emitted: before.emitted.insert(row.node_id),
            }
        }
    }
}

/// The rows after the first `n` seeds. A seed that names no memory leads nowhere.
pub open spec fn with_seeds(seeds: Seq<SeedRowModel>, n: nat) -> RowsModel
    decreases n,
{
    if n == 0 {
        RowsModel { picks: Seq::empty(), emitted: Set::empty() }
    } else {
        let before = with_seeds(seeds, (n - 1) as nat);
        let row = seeds[n - 1];
        let opened = if before.emitted.contains(row.node_id) {
            before
        } else {
            RowsModel {
                picks: before.picks.push(RowPick { seed: (n - 1) as usize, reached: None }),
                emitted: before.emitted.insert(row.node_id),
            }
        };
        if ulid_read(row.node_id) is Ok {
            with_reached(opened, (n - 1) as usize, row.reached, row.reached.len())
        } else {
            opened
        }
    }
}

struct Rows {
    picks: Vec<RowPick>,
    emitted: Vec<String>,
}

impl View for Rows {
    type V = RowsModel;

    closed spec fn view(&self) -> RowsModel {
        RowsModel { picks: self.picks@, emitted: views(self.emitted@).to_set() }
    }
}

impl Rows {
    fn emit(&mut self, name: &String) -> (r: bool)
        ensures
            r == !old(self)@.emitted.contains(name@),
            final(self)@ == (RowsModel { emitted: old(self)@.emitted.insert(name@), ..old(self)@ }),
    {
        if lists_text(&self.emitted, name.as_str()) {
            assert(self@.emitted =~= self@.emitted.insert(name@));
            return false;
        }
        let ghost before = views(self.emitted@);
        self.emitted.push(name.clone());
        proof {
            let after = views(self.emitted@);
            assert(after =~= before.push(name@));
            assert forall|x: Seq<char>| after.to_set().contains(x) <==> before.to_set().insert(name@).contains(x) by {
                if before.contains(x) {
                    let i = choose|i: int| 0 <= i < before.len() && before[i] == x;
                    assert(after[i] == x);
                }
                if x == name@ {
                    assert(after[after.len() - 1] == x);
                }
                if after.contains(x) && x != name@ {
                    let i = choose|i: int| 0 <= i < after.len() && after[i] == x;
                    assert(before[i] == x);
                }
            }
            assert(after.to_set() =~= before.to_set().insert(name@));
        }
        true
    }

    fn reach(&mut self, seed: usize, reached: &Vec<ReachedRow>)
        ensures
            final(self)@ == with_reached(old(self)@, seed, views(reached@), reached@.len()),
    {
        let ghost all = views(reached@);
        let ghost start = self@;
        for i in 0..reached.len()
            invariant
                all == views(reached@),
                self@ == with_reached(start, seed, all, i as nat),
        {
            assert(views(reached@)[i as int] == reached@[i as int]@);
            let ghost before = self@;
            if self.emit(&reached[i].node_id) {
                if reached[i].stored {
                    self.picks.push(RowPick { seed, reached: Some(i) });
                }
            } else {
                assert(before.emitted.insert(all[i as int].node_id) =~= before.emitted);
            }
        }
    }
}

/// The memory that a row of a query names, if it names one.
pub fn seed_id(node_id: &str) -> (r: Option<Ulid>)
    ensures
        r == (match ulid_read(node_id@) {
            Ok(id) => Some(Ulid(id)),
            Err(_) => None,
        }),
{
    match Ulid::read(node_id) {
        Ok(id) => Some(id),
        Err(_) => None,
    }
}

/// The rows that an expanded query answers with: every seed and every stored memory that
/// one leads to, each name once.
pub fn graph_expand_query_rows_from(seeds: &Vec<SeedRow>) -> (r: Vec<RowPick>)
    ensures
        r@ == with_seeds(views(seeds@), seeds@.len()).picks,
{
    let ghost all = views(seeds@);
    let mut rows = Rows { picks: Vec::new(), emitted: Vec::new() };
    assert(rows@.emitted =~= Set::<Seq<char>>::empty());
    assert(rows@.picks =~= Seq::<RowPick>::empty());
    for i in 0..seeds.len()
        invariant
            all == views(seeds@),
            rows@ == with_seeds(all, i as nat),
    {
        assert(views(seeds@)[i as int] == seeds@[i as int]@);
        let ghost before = rows@;
        if rows.emit(&seeds[i].node_id) {
            rows.picks.push(RowPick { seed: i, reached: None });
        } else {
            assert(before.emitted.insert(all[i as int].node_id) =~= before.emitted);
        }
        if seed_id(seeds[i].node_id.as_str()).is_some() {
            rows.reach(i, &seeds[i].reached);
        }
    }
    rows.picks
}

/// A count of rows, as far as it can be counted.
pub fn countable_rows(total: u64) -> (r: usize)
    ensures
        r == (if total > usize::MAX {
            usize::MAX as int
        } else {
            total as int
        }),
{
    if total > usize::MAX as u64 {
        usize::MAX
    } else {
        total as usize
    }
}

/// A spread reaches each memory once: never one that it has visited, and none twice.
pub proof fn spreads_reach_once(edges: Seq<EdgeFactsModel>, from: HopNode, visited: Set<Ulid>, n: nat)
    ensures
        ({
            let reached = newly_reached(edges, from, visited, n);
            &&& forall|i: int| 0 <= i < reached.len() ==> !visited.contains((#[trigger] reached[i]).id)
            &&& forall|i: int, j: int| 0 <= i < j < reached.len() ==> reached[i].id != reached[j].id
        }),
    decreases n,
{
    if n > 0 {
        spreads_reach_once(edges, from, visited, (n - 1) as nat);
        let before = newly_reached(edges, from, visited, (n - 1) as nat);
        let next = other_end(edges[n - 1], from.id);
        if !hop_ids(before).contains(next) {
            assert forall|i: int| 0 <= i < before.len() implies (#[trigger] before[i]).id != next by {
                if before[i].id == next {
                    assert(hop_ids(before).contains(next));
                }
            }
        }
    }
}

/// The memory that a row is about.
pub open spec fn picked_name(seeds: Seq<SeedRowModel>, pick: RowPick) -> Seq<char> {
    match pick.reached {
        None => seeds[pick.seed as int].node_id,
        Some(at) => seeds[pick.seed as int].reached[at as int].node_id,
    }
}

/// Whether rows are about one memory each, all of them emitted.
pub open spec fn rows_are_distinct(seeds: Seq<SeedRowModel>, rows: RowsModel) -> bool {
    &&& forall|i: int|
        0 <= i < rows.picks.len() ==> rows.emitted.contains(#[trigger] picked_name(seeds, rows.picks[i]))
    &&& forall|i: int, j: int|
        0 <= i < j < rows.picks.len() ==> picked_name(seeds, rows.picks[i]) != picked_name(seeds, rows.picks[j])
}

proof fn more_rows_are_distinct(seeds: Seq<SeedRowModel>, rows: RowsModel, pick: RowPick, name: Seq<char>)
    requires
        rows_are_distinct(seeds, rows),
        name == picked_name(seeds, pick),
        !rows.emitted.contains(name),
    ensures
        rows_are_distinct(seeds, RowsModel { picks: rows.picks.push(pick), emitted: rows.emitted.insert(name) }),
{
    let after = RowsModel { picks: rows.picks.push(pick), emitted: rows.emitted.insert(name) };
    assert forall|i: int, j: int| 0 <= i < j < after.picks.len() implies picked_name(seeds, after.picks[i])
        != picked_name(seeds, after.picks[j]) by {
        assert(after.picks[i] == rows.picks[i]);
        assert(rows.emitted.contains(picked_name(seeds, rows.picks[i])));
    }
}

proof fn reached_rows_are_distinct(seeds: Seq<SeedRowModel>, rows: RowsModel, seed: usize, n: nat)
    requires
        seed < seeds.len(),
        n <= seeds[seed as int].reached.len() <= usize::MAX,
        rows_are_distinct(seeds, rows),
    ensures
        rows_are_distinct(seeds, with_reached(rows, seed, seeds[seed as int].reached, n)),
    decreases n,
{
    if n > 0 {
        reached_rows_are_distinct(seeds, rows, seed, (n - 1) as nat);
        let reached = seeds[seed as int].reached;
        let before = with_reached(rows, seed, reached, (n - 1) as nat);
        let row = reached[n - 1];
        if !before.emitted.contains(row.node_id) && row.stored {
            more_rows_are_distinct(
                seeds,
                before,
                RowPick { seed, reached: Some((n - 1) as usize) },
                row.node_id,
            );
        }
    }
}

/// Expanded rows are about each memory once.
pub proof fn rows_name_each_memory_once(seeds: Seq<SeedRowModel>, n: nat)
    requires
        n <= seeds.len() <= usize::MAX,
        forall|i: int| 0 <= i < seeds.len() ==> (#[trigger] seeds[i]).reached.len() <= usize::MAX,
    ensures
        rows_are_distinct(seeds, with_seeds(seeds, n)),
    decreases n,
{
    if n > 0 {
        rows_name_each_memory_once(seeds, (n - 1) as nat);
        let before = with_seeds(seeds, (n - 1) as nat);
        let row = seeds[n - 1];
        let seed = (n - 1) as usize;
        let pick = RowPick { seed, reached: None };
        if !before.emitted.contains(row.node_id) {
            more_rows_are_distinct(seeds, before, pick, row.node_id);
            let opened = RowsModel {
                picks: before.picks.push(pick),
                emitted: before.emitted.insert(row.node_id),
            };
            if ulid_read(row.node_id) is Ok {
                reached_rows_are_distinct(seeds, opened, seed, row.reached.len());
            }
        } else if ulid_read(row.node_id) is Ok {
            reached_rows_are_distinct(seeds, before, seed, row.reached.len());
        }
    }
}

} // verus!
