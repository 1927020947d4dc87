//! What depends on a record, directly or through other records.
use vstd::prelude::*;
use crate::fault::{MemoryError, MemoryResult};
use crate::ids::{ArtifactPassageId, EvidenceId, Ulid};
use crate::keys::{
    DependencyKey, first_record, last_record, storage_rank_fits, storage_rank_is_injective,
};
use crate::order::{Keyed, Ranked, in_order, in_order_is_unique, in_order_lists, increasing, lists};
use crate::records::audit::PurgeDependency;
use crate::records::evidence::{RecordRef, RecordState};
use crate::store::{MemoryDatabase, StoreModel};

verus! {

/// `seen`, followed by those of the first `n` items that are new to it.
pub open spec fn extended(seen: Seq<RecordRef>, items: Seq<RecordRef>, n: nat) -> Seq<RecordRef>
    decreases n,
{
    if n == 0 {
        seen
    } else {
        let before = extended(seen, items, (n - 1) as nat);
        if before.contains(items[n - 1]) {
            before
        } else {
            before.push(items[n - 1])
        }
    }
}

/// The dependents that a list of keys names.
pub open spec fn dependents_named(keys: Seq<DependencyKey>) -> Seq<RecordRef> {
    Seq::new(keys.len(), |i: int| keys[i].dependent)
}

impl StoreModel {
    /// The keys under which the direct dependents of a record are filed.
    pub open spec fn dependency_keys(self, source: RecordRef) -> Set<DependencyKey> {
        Set::new(|k: DependencyKey| self.dependencies.contains_key(k) && k.source == source)
    }

    /// The direct dependents of a record, in storage order.
    pub open spec fn dependents(self, source: RecordRef) -> Seq<RecordRef> {
        dependents_named(in_order(self.dependency_keys(source)))
    }

    /// What is known to depend on `target` once the dependents of the first `n`
    /// records found have been looked up, in the order in which they were found.
    pub open spec fn frontier(self, target: RecordRef, n: nat) -> Seq<RecordRef>
        decreases n,
    {
        if n == 0 {
            seq![target]
        } else {
            let before = self.frontier(target, (n - 1) as nat);
            if n - 1 < before.len() {
                let found = self.dependents(before[n - 1]);
                extended(before, found, found.len())
            } else {
                before
            }
        }
    }

    /// After `n` look-ups nothing is left to look up.
    pub open spec fn settled(self, target: RecordRef, n: nat) -> bool {
        self.frontier(target, n).len() <= n
    }

    /// `target` and everything that depends on it, nearest first.
    #[verifier::opaque]
    pub open spec fn reached(self, target: RecordRef) -> Seq<RecordRef> {
        self.frontier(target, choose|n: nat| self.settled(target, n))
    }

    /// The first refusal among the standings of the records after the target.
    pub open spec fn first_unresolved(self, order: Seq<RecordRef>, n: nat) -> Option<MemoryError>
        decreases n,
    {
        if n <= 1 {
            None
        } else {
            match self.first_unresolved(order, (n - 1) as nat) {
                Some(error) => Some(error),
                None => match self.standing(order[n - 1]) {
                    Err(error) => Some(error),
                    Ok(_) => None,
                },
            }
        }
    }

    /// Whether a change of the target has to reach a dependent in its present state.
    pub open spec fn affected(self, record: RecordRef, include_inactive: bool) -> bool {
        match self.standing(record) {
            Ok((_, state, _)) => state == RecordState::Active || (include_inactive && state
                != RecordState::Purged),
            Err(_) => false,
        }
    }

    /// The affected records among those found after the target.
    pub open spec fn affected_among(self, order: Seq<RecordRef>, include_inactive: bool) -> Set<RecordRef> {
        Set::new(|r: RecordRef| order.skip(1).contains(r) && self.affected(r, include_inactive))
    }

    /// A dependent at its current revision.
    pub open spec fn dependency_on(self, record: RecordRef) -> PurgeDependency {
        PurgeDependency {
            record,
            expected_revision: match self.standing(record) {
                Ok((_, _, revision)) => revision,
                Err(_) => 0,
            },
        }
    }

    /// The dependents of `target` that a change of it affects, in listing order,
    /// unless the standing of one of its dependents cannot be told.
    #[verifier::opaque]
    pub open spec fn dependency_closure(self, target: RecordRef, include_inactive: bool) -> MemoryResult<
        Seq<PurgeDependency>,
    > {
        let order = self.reached(target);
        match self.first_unresolved(order, order.len()) {
            Some(error) => Err(error),
            None => {
                let records = in_order(self.affected_among(order, include_inactive));
                Ok(Seq::new(records.len(), |i: int| self.dependency_on(records[i])))
            },
        }
    }
}

proof fn settled_persists(s: StoreModel, target: RecordRef, n: nat, m: nat)
    requires
        s.settled(target, n),
        n <= m,
    ensures
        s.frontier(target, m) == s.frontier(target, n),
    decreases m,
{
    if n < m {
        settled_persists(s, target, n, (m - 1) as nat);
    }
}

proof fn reached_is(s: StoreModel, target: RecordRef, n: nat)
    requires
        s.settled(target, n),
    ensures
        s.reached(target) == s.frontier(target, n),
{
    reveal(StoreModel::reached);
    let m = choose|m: nat| s.settled(target, m);
    if n <= m {
        settled_persists(s, target, n, m);
    } else {
        settled_persists(s, target, m, n);
    }
}

proof fn extended_members(seen: Seq<RecordRef>, items: Seq<RecordRef>, n: nat)
    requires
        n <= items.len(),
    ensures
        extended(seen, items, n).len() >= seen.len(),
        extended(seen, items, n).take(seen.len() as int) == seen,
        forall|r: RecordRef| #[trigger]
            extended(seen, items, n).contains(r) <==> seen.contains(r) || items.take(n as int).contains(r),
    decreases n,
{
    let after = extended(seen, items, n);
    if n == 0 {
        assert(items.take(0) =~= Seq::<RecordRef>::empty());
        assert(after.take(seen.len() as int) =~= seen);
        assert(forall|r: RecordRef| !#[trigger] Seq::<RecordRef>::empty().contains(r));
    } else {
        extended_members(seen, items, (n - 1) as nat);
        let before = extended(seen, items, (n - 1) as nat);
        let item = items[n - 1];
        assert(items.take(n as int) =~= items.take(n - 1).push(item));
        assert forall|r: RecordRef| #[trigger] after.contains(r) <==> seen.contains(r) || items.take(
            n as int,
        ).contains(r) by {
            broadcast use vstd::seq_lib::group_seq_properties;

            assert(items.take(n - 1).push(item).contains(r) <==> items.take(n - 1).contains(r) || r == item);
            assert(before.push(item).contains(r) <==> before.contains(r) || r == item);
        }
        assert(after.take(seen.len() as int) =~= before.take(seen.len() as int));
    }
}

proof fn frontier_members(s: StoreModel, target: RecordRef, n: nat)
    ensures
        s.frontier(target, n).contains(target),
        s.frontier(target, n).len() >= 1,
        s.frontier(target, n)[0] == target,
        forall|i: int, e: RecordRef|
            0 <= i < n && i < s.frontier(target, n).len() && #[trigger] s.dependents(
                s.frontier(target, n)[i],
            ).contains(e) ==> s.frontier(target, n).contains(e),
    decreases n,
{
    if n == 0 {
        assert(s.frontier(target, 0)[0] == target);
    } else {
        frontier_members(s, target, (n - 1) as nat);
        let before = s.frontier(target, (n - 1) as nat);
        if n - 1 < before.len() {
            let found = s.dependents(before[n - 1]);
            extended_members(before, found, found.len());
            assert(found.take(found.len() as int) =~= found);
            let now = s.frontier(target, n);
            assert forall|i: int, e: RecordRef|
                0 <= i < n && i < now.len() && #[trigger] s.dependents(now[i]).contains(e) implies now.contains(
                e,
            ) by {
                assert(now.take(before.len() as int)[i] == before[i]);
                if i < n - 1 {
                    assert(s.dependents(before[i]).contains(e));
                    assert(before.contains(e));
                }
            }
            assert(now.take(before.len() as int)[0] == before[0]);
        }
    }
}

/// Everything reached is in every collection that holds the target and is closed
/// under taking direct dependents.
proof fn frontier_is_least(s: StoreModel, target: RecordRef, n: nat, closed_set: Set<RecordRef>)
    requires
        closed_set.contains(target),
        forall|d: RecordRef, e: RecordRef|
            closed_set.contains(d) && #[trigger] s.dependents(d).contains(e) ==> closed_set.contains(e),
    ensures
        forall|r: RecordRef| #[trigger] s.frontier(target, n).contains(r) ==> closed_set.contains(r),
    decreases n,
{
    if n > 0 {
        frontier_is_least(s, target, (n - 1) as nat, closed_set);
        let before = s.frontier(target, (n - 1) as nat);
        if n - 1 < before.len() {
            let found = s.dependents(before[n - 1]);
            extended_members(before, found, found.len());
            assert(found.take(found.len() as int) =~= found);
            assert(before.contains(before[n - 1]));
        }
    }
}

proof fn extended_is_distinct(seen: Seq<RecordRef>, items: Seq<RecordRef>, n: nat)
    requires
        seen.no_duplicates(),
    ensures
        extended(seen, items, n).no_duplicates(),
    decreases n,
{
    if n > 0 {
        extended_is_distinct(seen, items, (n - 1) as nat);
        let before = extended(seen, items, (n - 1) as nat);
        if !before.contains(items[n - 1]) {
            let after = before.push(items[n - 1]);
            assert forall|i: int, j: int| 0 <= i < after.len() && 0 <= j < after.len() && i != j implies after[i]
                != after[j] by {
                if i == before.len() {
                    assert(before.contains(before[j]));
                } else if j == before.len() {
                    assert(before.contains(before[i]));
                }
            }
        }
    }
}

/// Everything that is filed as a dependent of something, and a target.
spec fn universe(s: StoreModel, target: RecordRef) -> Set<RecordRef> {
    dependents_named(in_order(s.dependencies.dom())).to_set().insert(target)
}

proof fn frontier_within(s: StoreModel, target: RecordRef, n: nat)
    requires
        s.dependencies.dom().finite(),
    ensures
        s.frontier(target, n).no_duplicates(),
        forall|r: RecordRef| #[trigger] s.frontier(target, n).contains(r) ==> universe(s, target).contains(r),
    decreases n,
{
    if n > 0 {
        frontier_within(s, target, (n - 1) as nat);
        let before = s.frontier(target, (n - 1) as nat);
        if n - 1 < before.len() {
            let source = before[n - 1];
            let found = s.dependents(source);
            extended_is_distinct(before, found, found.len());
            extended_members(before, found, found.len());
            assert(found.take(found.len() as int) =~= found);
            let keys = s.dependency_keys(source);
            let all = in_order(s.dependencies.dom());
            assert(keys.subset_of(s.dependencies.dom()));
            vstd::set_lib::lemma_set_subset_finite(s.dependencies.dom(), keys);
            in_order_lists(keys);
            in_order_lists(s.dependencies.dom());
            assert forall|r: RecordRef| found.contains(r) implies universe(s, target).contains(r) by {
                let i = choose|i: int| 0 <= i < found.len() && found[i] == r;
                let k = in_order(keys)[i];
                assert(in_order(keys).contains(k));
                assert(all.contains(k));
                let j = choose|j: int| 0 <= j < all.len() && all[j] == k;
                assert(dependents_named(all)[j] == r);
                assert(dependents_named(all).contains(r));
            }
        }
    }
}

proof fn frontier_settles(s: StoreModel, target: RecordRef)
    requires
        s.dependencies.dom().finite(),
    ensures
        exists|n: nat| s.settled(target, n),
{
    let all = universe(s, target);
    let n = all.len();
    frontier_within(s, target, n);
    let found = s.frontier(target, n);
    found.unique_seq_to_set();
    assert(found.to_set().subset_of(all)) by {
        assert forall|r: RecordRef| found.to_set().contains(r) implies all.contains(r) by {
            assert(found.contains(r));
        }
    }
    vstd::set_lib::lemma_len_subset(found.to_set(), all);
    assert(s.settled(target, n));
}

/// What is reached from a record is listed once each, the record first.
pub proof fn reached_is_distinct(s: StoreModel, target: RecordRef)
    requires
        s.dependencies.dom().finite(),
    ensures
        s.reached(target).no_duplicates(),
        s.reached(target).len() >= 1,
        s.reached(target)[0] == target,
{
    frontier_settles(s, target);
    let n = choose|n: nat| s.settled(target, n);
    reached_is(s, target, n);
    frontier_members(s, target, n);
    frontier_within(s, target, n);
}

/// What is reached from a record is the least collection that holds the record and,
/// with each member, its direct dependents: nothing that rests on the record is
/// missed, and nothing else is taken in.
pub proof fn reached_is_least_closed(s: StoreModel, target: RecordRef, closed_set: Set<RecordRef>)
    requires
        s.dependencies.dom().finite(),
    ensures
        s.reached(target).contains(target),
        forall|d: RecordRef, e: RecordRef|
            s.reached(target).contains(d) && #[trigger] s.dependents(d).contains(e) ==> s.reached(target).contains(e),
        closed_set.contains(target) && (forall|d: RecordRef, e: RecordRef|
            closed_set.contains(d) && #[trigger] s.dependents(d).contains(e) ==> closed_set.contains(e))
            ==> forall|r: RecordRef| #[trigger] s.reached(target).contains(r) ==> closed_set.contains(r),
{
    frontier_settles(s, target);
    let n = choose|n: nat| s.settled(target, n);
    reached_is(s, target, n);
    frontier_members(s, target, n);
    let all = s.reached(target);
    assert forall|d: RecordRef, e: RecordRef|
        all.contains(d) && #[trigger] s.dependents(d).contains(e) implies all.contains(e) by {
        let i = choose|i: int| 0 <= i < all.len() && all[i] == d;
        assert(s.dependents(s.frontier(target, n)[i]).contains(e));
    }
    if closed_set.contains(target) && (forall|d: RecordRef, e: RecordRef|
        closed_set.contains(d) && #[trigger] s.dependents(d).contains(e) ==> closed_set.contains(e)) {
        frontier_is_least(s, target, n, closed_set);
    }
}

/// The dependents that a change of a record affects are listed once each, and the record
/// is not among them; each stands at the revision that the list names.
pub proof fn closures_name_others(
    s: StoreModel,
    target: RecordRef,
    include_inactive: bool,
    found: Seq<PurgeDependency>,
)
    requires
        s.dependencies.dom().finite(),
        s.dependency_closure(target, include_inactive) == MemoryResult::Ok(found),
    ensures
        forall|i: int, j: int| 0 <= i < j < found.len() ==> found[i].record != found[j].record,
        forall|i: int| 0 <= i < found.len() ==> (#[trigger] found[i]).record != target,
        forall|i: int|
            0 <= i < found.len() ==> s.affected((#[trigger] found[i]).record, include_inactive) && found[i]
                == s.dependency_on(found[i].record),
        forall|r: RecordRef|
            r != target && s.reached(target).contains(r) && #[trigger] s.affected(r, include_inactive) ==> exists|
                i: int,
            | 0 <= i < found.len() && (#[trigger] found[i]).record == r,
{
    reveal(StoreModel::dependency_closure);
    reached_is_distinct(s, target);
    let order = s.reached(target);
    let members = s.affected_among(order, include_inactive);
    assert(members.subset_of(order.to_set())) by {
        assert forall|r: RecordRef| members.contains(r) implies order.to_set().contains(r) by {
            let i = choose|i: int| 0 <= i < order.skip(1).len() && order.skip(1)[i] == r;
            assert(order[i + 1] == r);
        }
    }
    vstd::set_lib::lemma_set_subset_finite(order.to_set(), members);
    in_order_lists(members);
    let records = in_order(members);
    assert forall|i: int| 0 <= i < found.len() implies (#[trigger] found[i]).record != target && s.affected(
        found[i].record,
        include_inactive,
    ) && found[i] == s.dependency_on(found[i].record) by {
        assert(records.contains(records[i]));
        let k = choose|k: int| 0 <= k < order.skip(1).len() && order.skip(1)[k] == records[i];
        assert(order[k + 1] == records[i]);
        assert(order[0] == target);
    }
    assert forall|i: int, j: int| 0 <= i < j < found.len() implies found[i].record != found[j].record by {
        assert(records[i].rank() < records[j].rank());
    }
    assert forall|r: RecordRef|
        r != target && order.contains(r) && #[trigger] s.affected(r, include_inactive) implies exists|i: int|
        0 <= i < found.len() && (#[trigger] found[i]).record == r by {
        let k = choose|k: int| 0 <= k < order.len() && order[k] == r;
        assert(order.skip(1)[k - 1] == r);
        assert(members.contains(r));
        assert(records.contains(r));
        let i = choose|i: int| 0 <= i < records.len() && records[i] == r;
        assert(found[i].record == r);
    }
}

/// The keys between the first and the last under one source are those of that source.
proof fn source_bounds(s: StoreModel, source: RecordRef, low: DependencyKey, high: DependencyKey)
    requires
        low == (DependencyKey { source, dependent: first_record() }),
        high == (DependencyKey { source, dependent: last_record() }),
    ensures
        Set::new(|k: DependencyKey| s.dependencies.contains_key(k) && low.rank() <= k.rank() <= high.rank())
            == s.dependency_keys(source),
{
    let range = Set::new(
        |k: DependencyKey| s.dependencies.contains_key(k) && low.rank() <= k.rank() <= high.rank(),
    );
    assert forall|k: DependencyKey| range.contains(k) <==> #[trigger] s.dependency_keys(source).contains(k) by {
        storage_rank_fits(k.source);
        storage_rank_fits(k.dependent);
        storage_rank_fits(source);
        if range.contains(k) {
            storage_rank_is_injective(k.source, source);
        }
    }
    assert(range =~= s.dependency_keys(source));
}

impl MemoryDatabase {
    pub(crate) fn dependents_of(&self, source: RecordRef) -> (r: Vec<RecordRef>)
        ensures
            r@ == self@.dependents(source),
            forall|i: int| 0 <= i < r@.len() ==> self@.dependencies.contains_key(
                DependencyKey { source, dependent: #[trigger] r@[i] },
            ),
    {
        let low = DependencyKey { source, dependent: RecordRef::Evidence(EvidenceId(Ulid(0))) };
        let high = DependencyKey {
            source,
            dependent: RecordRef::ArtifactPassage(ArtifactPassageId(Ulid(u128::MAX))),
        };
        let keys = self.dependencies.scan(&low, &high);
        proof {
            source_bounds(self@, source, low, high);
        }
        let mut r: Vec<RecordRef> = Vec::new();
        for i in 0..keys.len()
            invariant
                r@ == dependents_named(keys@.take(i as int)),
        {
            r.push(keys[i].dependent);
            assert(r@ =~= dependents_named(keys@.take(i + 1)));
        }
        assert(keys@.take(keys@.len() as int) =~= keys@);
        assert forall|i: int| 0 <= i < r@.len() implies self@.dependencies.contains_key(
            DependencyKey { source, dependent: #[trigger] r@[i] },
        ) by {
            assert(keys@.contains(keys@[i]));
            assert(self@.dependency_keys(source).contains(keys@[i]));
        }
        r
    }

    /// `target` and everything that depends on it, nearest first.
    fn reached(&self, target: RecordRef) -> (r: Vec<RecordRef>)
        ensures
            r@ == self@.reached(target),
            exists|n: nat| self@.settled(target, n),
    {
        let all = self.dependencies.keys();
        let ghost universe = dependents_named(all@).to_set().insert(target);
        let mut order: Vec<RecordRef> = Vec::new();
        let mut seen: Ranked<RecordRef> = Ranked::new();
        order.push(target);
        seen.insert(target);
        let mut next: usize = 0;
        proof {
            assert(order@ =~= self@.frontier(target, 0));
            assert forall|r: RecordRef| #[trigger] seen@.contains(r) <==> order@.contains(r) by {
                if r == target {
                    assert(order@[0] == r);
                }
                assert(!Seq::<RecordRef>::empty().contains(r));
            }
        }
        while next < order.len()
            invariant
                order@ == self@.frontier(target, next as nat),
                next <= order@.len(),
                order@.no_duplicates(),
                forall|r: RecordRef| #[trigger] seen@.contains(r) <==> order@.contains(r),
                universe == dependents_named(all@).to_set().insert(target),
                lists(all@, self@.dependencies.dom()),
                forall|i: int| 0 <= i < order@.len() ==> universe.contains(#[trigger] order@[i]),
            decreases universe.len() - next,
        {
            let found = self.dependents_of(order[next]);
            let ghost start = order@;
            for i in 0..found.len()
                invariant
                    start == self@.frontier(target, next as nat),
                    next < start.len(),
                    found@ == self@.dependents(start[next as int]),
                    order@ == extended(start, found@, i as nat),
                    order@.no_duplicates(),
                    forall|r: RecordRef| #[trigger] seen@.contains(r) <==> order@.contains(r),
                    universe == dependents_named(all@).to_set().insert(target),
                    lists(all@, self@.dependencies.dom()),
                    forall|j: int| 0 <= j < found@.len() ==> self@.dependencies.contains_key(
                        DependencyKey { source: start[next as int], dependent: #[trigger] found@[j] },
                    ),
                    forall|j: int| 0 <= j < order@.len() ==> universe.contains(#[trigger] order@[j]),
            {
                let item = found[i];
                let ghost before = order@;
                if seen.insert(item) {
                    order.push(item);
                    proof {
                        let k = DependencyKey { source: start[next as int], dependent: item };
                        assert(found@[i as int] == item);
                        assert(all@.contains(k));
                        let p = choose|p: int| 0 <= p < all@.len() && all@[p] == k;
                        assert(dependents_named(all@)[p] == item);
                        assert(dependents_named(all@).contains(item));
                        assert forall|r: RecordRef| #[trigger] order@.contains(r) <==> before.contains(r) || r
                            == item by {
                            if before.contains(r) {
                                let q = choose|q: int| 0 <= q < before.len() && before[q] == r;
                                assert(order@[q] == r);
                            }
                            if r == item {
                                assert(order@[before.len() as int] == r);
                            }
                        }
                    }
                }
            }
            proof {
                extended_members(start, found@, found@.len());
                order@.unique_seq_to_set();
                assert(order@.to_set().subset_of(universe)) by {
                    assert forall|r: RecordRef| order@.to_set().contains(r) implies universe.contains(r) by {
                        let q = choose|q: int| 0 <= q < order@.len() && order@[q] == r;
                        assert(universe.contains(order@[q]));
                    }
                }
                vstd::set_lib::lemma_len_subset(order@.to_set(), universe);
            }
            next = next + 1;
        }
        proof {
            assert(self@.settled(target, next as nat));
            reached_is(self@, target, next as nat);
        }
        order
    }

    /// The dependents of `target` that a change of it affects, in listing order.
    pub fn dependency_closure(&self, target: RecordRef, include_inactive: bool) -> (r: MemoryResult<
        Vec<PurgeDependency>,
    >)
        ensures
            match r {
                Ok(found) => self@.dependency_closure(target, include_inactive) == Ok::<
                    Seq<PurgeDependency>,
                    MemoryError,
                >(found@),
                Err(error) => self@.dependency_closure(target, include_inactive) == Err::<
                    Seq<PurgeDependency>,
                    MemoryError,
                >(error),
            },
    {
        reveal(StoreModel::dependency_closure);
        let order = self.reached(target);
        let ghost rest = order@.skip(1);
        let ghost wanted = self@.affected_among(order@, include_inactive);
        let mut kept: Ranked<RecordRef> = Ranked::new();
        proof {
            let n = choose|n: nat| self@.settled(target, n);
            reached_is(self@, target, n);
            frontier_members(self@, target, n);
        }
        let mut i: usize = 1;
        while i < order.len()
            invariant
                1 <= i <= order@.len(),
                rest == order@.skip(1),
                order@ == self@.reached(target),
                self@.first_unresolved(order@, i as nat) is None,
                increasing(kept@),
                forall|r: RecordRef| #[trigger]
                    kept@.contains(r) <==> rest.take(i - 1).contains(r) && self@.affected(r, include_inactive),
            decreases order@.len() - i,
        {
            let record = order[i];
            let ghost before = kept@;
            assert(self@.first_unresolved(order@, (i + 1) as nat) == (match self@.standing(order@[i as int]) {
                Err(error) => Some(error),
                Ok(_) => None::<MemoryError>,
            }));
            match self.record_scope_state_revision(record) {
                Err(error) => {
                    reveal(StoreModel::dependency_closure);
                    proof {
                        first_unresolved_persists(self@, order@, (i + 1) as nat, order@.len());
                    }
                    return Err(error);
                },
                Ok(standing) => {
                    if standing.1 == RecordState::Active || (include_inactive && standing.1
                        != RecordState::Purged) {
                        kept.insert(record);
                    }
                },
            }
            proof {
                assert(rest.take(i as int) =~= rest.take(i - 1).push(record));
                assert forall|r: RecordRef| #[trigger] kept@.contains(r) <==> rest.take(i as int).contains(r)
                    && self@.affected(r, include_inactive) by {
                    broadcast use vstd::seq_lib::group_seq_properties;

                    assert(rest.take(i - 1).push(record).contains(r) <==> rest.take(i - 1).contains(r) || r
                        == record);
                    assert(before.contains(r) <==> rest.take(i - 1).contains(r) && self@.affected(
                        r,
                        include_inactive,
                    ));
                }
            }
            i = i + 1;
        }
        proof {
            assert(rest.take(rest.len() as int) =~= rest);
        }
        let records = kept.into_vec();
        proof {
            assert forall|r: RecordRef| #[trigger] records@.contains(r) <==> wanted.contains(r) by {}
            in_order_is_unique(records@, wanted);
        }
        let mut found: Vec<PurgeDependency> = Vec::new();
        let ghost listed = Seq::new(records@.len(), |j: int| self@.dependency_on(records@[j]));
        for j in 0..records.len()
            invariant
                order@ == self@.reached(target),
                self@.first_unresolved(order@, order@.len()) is None,
                records@ == in_order(self@.affected_among(order@, include_inactive)),
                listed == Seq::new(records@.len(), |j: int| self@.dependency_on(records@[j])),
                forall|r: RecordRef| #[trigger] records@.contains(r) ==> self@.affected(r, include_inactive),
                found@ == listed.take(j as int),
        {
            let record = records[j];
            assert(records@.contains(record));
            match self.record_scope_state_revision(record) {
                Err(error) => {
                    assert(false);
                    return Err(error);
                },
                Ok(standing) => {
                    found.push(PurgeDependency { record, expected_revision: standing.2 });
                },
            }
            assert(found@ =~= listed.take(j + 1));
        }
        assert(listed.take(listed.len() as int) =~= listed);
        Ok(found)
    }
}

proof fn first_unresolved_persists(s: StoreModel, order: Seq<RecordRef>, n: nat, m: nat)
    requires
        s.first_unresolved(order, n) is Some,
        n <= m,
    ensures
        s.first_unresolved(order, m) == s.first_unresolved(order, n),
    decreases m,
{
    if n < m {
        first_unresolved_persists(s, order, n, (m - 1) as nat);
    }
}

} // verus!
