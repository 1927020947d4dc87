//! Ordered tables: finite maps whose keys can be scanned in order.
use vstd::prelude::*;
use crate::order::{Keyed, in_order, in_order_is_unique, lists, place};

verus! {

/// A value that can be reproduced without losing anything its view shows.
pub trait Replica: View + Sized {
    fn replica(&self) -> (r: Self)
        ensures
            r@ == self@,
    ;
}

/// What the entries of a list show.
pub open spec fn views<T: View>(items: Seq<T>) -> Seq<T::V> {
    Seq::new(items.len(), |i: int| items[i]@)
}

/// What an optional value shows.
pub open spec fn opt_view<T: View>(value: Option<T>) -> Option<T::V> {
    match value {
        Some(inner) => Some(inner@),
        None => None,
    }
}

/// What an optional list shows.
pub open spec fn opt_views<T: View>(value: Option<Vec<T>>) -> Option<Seq<T::V>> {
    match value {
        Some(inner) => Some(views(inner@)),
        None => None,
    }
}

pub broadcast proof fn views_of_push<T: View>(items: Seq<T>, last: T)
    ensures
        #[trigger] views(items.push(last)) == views(items).push(last@),
{
    assert(views(items.push(last)) =~= views(items).push(last@));
}

pub broadcast proof fn views_of_empty<T: View>()
    ensures
        #[trigger] views(Seq::<T>::empty()) == Seq::<T::V>::empty(),
{
    assert(views(Seq::<T>::empty()) =~= Seq::<T::V>::empty());
}

pub fn copies<T: Copy>(items: &Vec<T>) -> (r: Vec<T>)
    ensures
        r@ == items@,
{
    let mut r: Vec<T> = Vec::new();
    for i in 0..items.len()
        invariant
            r@ == items@.take(i as int),
    {
        r.push(items[i]);
        assert(items@.take(i + 1) =~= items@.take(i as int).push(items@[i as int]));
    }
    assert(items@.take(items@.len() as int) =~= items@);
    r
}

pub fn replicas<T: Replica>(items: &Vec<T>) -> (r: Vec<T>)
    ensures
        views(r@) == views(items@),
{
    let mut r: Vec<T> = Vec::new();
    for i in 0..items.len()
        invariant
            r@.len() == i,
            forall|j: int| 0 <= j < i ==> (#[trigger] r@[j])@ == items@[j]@,
    {
        r.push(items[i].replica());
    }
    assert(views(r@) =~= views(items@));
    r
}

pub fn opt_replica<T: Replica>(value: &Option<T>) -> (r: Option<T>)
    ensures
        opt_view(r) == opt_view(*value),
{
    match value {
        Some(inner) => Some(inner.replica()),
        None => None,
    }
}

pub fn opt_copies<T: Copy>(value: &Option<Vec<T>>) -> (r: Option<Vec<T>>)
    ensures
        opt_view(r) == opt_view(*value),
{
    match value {
        Some(inner) => Some(copies(inner)),
        None => None,
    }
}

pub fn opt_replicas<T: Replica>(value: &Option<Vec<T>>) -> (r: Option<Vec<T>>)
    ensures
        opt_views(r) == opt_views(*value),
{
    match value {
        Some(inner) => Some(replicas(inner)),
        None => None,
    }
}

impl Replica for String {
    fn replica(&self) -> (r: String)
        ensures
            r == *self,
    {
        self.clone()
    }
}

/// Where a key stands among the entries.
spec fn index_of<K, V>(entries: Seq<(K, V)>, k: K) -> int {
    choose|i: int| 0 <= i < entries.len() && (#[trigger] entries[i]).0 == k
}

spec fn holds_key<K, V>(entries: Seq<(K, V)>, k: K) -> bool {
    exists|i: int| 0 <= i < entries.len() && (#[trigger] entries[i]).0 == k
}

spec fn sorted_entries<K: Keyed, V>(entries: Seq<(K, V)>) -> bool {
    forall|i: int, j: int|
        0 <= i < j < entries.len() ==> (#[trigger] entries[i]).0.rank() < (#[trigger] entries[j]).0.rank()
}

/// A finite map, kept in the order of its keys.
pub struct Table<K: Keyed, V: View> {
    entries: Vec<(K, V)>,
}

impl<K: Keyed, V: View> View for Table<K, V> {
    type V = Map<K, V::V>;

    closed spec fn view(&self) -> Map<K, V::V> {
        Map::new(
            |k: K| holds_key(self.entries@, k),
            |k: K| self.entries@[index_of(self.entries@, k)].1@,
        )
    }
}

impl<K: Keyed, V: View> Table<K, V> {
    #[verifier::type_invariant]
    spec fn wf(self) -> bool {
        sorted_entries(self.entries@)
    }

    /// A table holds finitely many keys.
    pub proof fn is_finite(&self)
        ensures
            self@.dom().finite(),
    {
        let keys = Seq::new(self.entries@.len(), |i: int| self.entries@[i].0);
        vstd::seq_lib::seq_to_set_is_finite(keys);
        assert forall|k: K| self@.dom().contains(k) <==> keys.to_set().contains(k) by {
            if self@.dom().contains(k) {
                let i = choose|i: int| 0 <= i < self.entries@.len() && (#[trigger] self.entries@[i]).0 == k;
                assert(keys[i] == k);
            }
            if keys.contains(k) {
                let i = choose|i: int| 0 <= i < keys.len() && keys[i] == k;
                assert(self.entries@[i].0 == k);
            }
        }
        assert(self@.dom() =~= keys.to_set());
    }

    proof fn lookup_at(entries: Seq<(K, V)>, i: int)
        requires
            sorted_entries(entries),
            0 <= i < entries.len(),
        ensures
            holds_key(entries, entries[i].0),
            index_of(entries, entries[i].0) == i,
    {
        let j = index_of(entries, entries[i].0);
        assert(entries[j].0 == entries[i].0);
        if j < i {
            assert(entries[j].0.rank() < entries[i].0.rank());
        }
        if i < j {
            assert(entries[i].0.rank() < entries[j].0.rank());
        }
    }

    pub fn new() -> (r: Self)
        ensures
            r@ == Map::<K, V::V>::empty(),
    {
        let r = Table { entries: Vec::new() };
        assert(r@ =~= Map::<K, V::V>::empty());
        r
    }

    fn place(entries: &Vec<(K, V)>, k: &K) -> (at: usize)
        requires
            sorted_entries(entries@),
        ensures
            at <= entries@.len(),
            forall|i: int| 0 <= i < at ==> (#[trigger] entries@[i]).0.rank() < k.rank(),
            forall|i: int| at <= i < entries@.len() ==> (#[trigger] entries@[i]).0.rank() >= k.rank(),
    {
        let mut low: usize = 0;
        let mut high: usize = entries.len();
        while low < high
            invariant
                low <= high <= entries@.len(),
                sorted_entries(entries@),
                forall|i: int| 0 <= i < low ==> (#[trigger] entries@[i]).0.rank() < k.rank(),
                forall|i: int| high <= i < entries@.len() ==> (#[trigger] entries@[i]).0.rank() >= k.rank(),
            decreases high - low,
        {
            let middle: usize = low + (high - low) / 2;
            if entries[middle].0.before(k) {
                low = middle + 1;
            } else {
                high = middle;
            }
        }
        low
    }

    /// The place of `k` among the entries, if it is a key.
    fn find(entries: &Vec<(K, V)>, k: &K) -> (r: Option<usize>)
        requires
            sorted_entries(entries@),
        ensures
            match r {
                Some(at) => at < entries@.len() && entries@[at as int].0 == *k
                    && index_of(entries@, *k) == at && holds_key(entries@, *k),
                None => !holds_key(entries@, *k),
            },
    {
        let at = Self::place(entries, k);
        if at < entries.len() && !k.before(&entries[at].0) {
            proof {
                K::rank_is_injective(&entries@[at as int].0, k);
                Self::lookup_at(entries@, at as int);
            }
            Some(at)
        } else {
            proof {
                if holds_key(entries@, *k) {
                    let i = index_of(entries@, *k);
                    assert(entries@[i].0 == *k);
                    assert(i >= at);
                    if at < i {
                        assert(entries@[at as int].0.rank() < entries@[i].0.rank());
                    }
                }
            }
            None
        }
    }

    pub fn get(&self, k: &K) -> (r: Option<&V>)
        ensures
            match r {
                Some(v) => self@.contains_key(*k) && self@[*k] == v@,
                None => !self@.contains_key(*k),
            },
    {
        proof {
            use_type_invariant(self);
        }
        match Self::find(&self.entries, k) {
            Some(at) => Some(&self.entries[at].1),
            None => None,
        }
    }

    pub fn contains(&self, k: &K) -> (r: bool)
        ensures
            r == self@.contains_key(*k),
    {
        match self.get(k) {
            Some(_) => true,
            None => false,
        }
    }

    pub fn insert(&mut self, k: K, v: V)
        ensures
            final(self)@ == old(self)@.insert(k, v@),
    {
        proof {
            use_type_invariant(&*self);
        }
        let mut entries: Vec<(K, V)> = Vec::new();
        std::mem::swap(&mut entries, &mut self.entries);
        let ghost before = entries@;
        let found = Self::find(&entries, &k);
        match found {
            Some(at) => {
                entries.set(at, (k, v));
                proof {
                    assert(sorted_entries(entries@)) by {
                        assert forall|i: int, j: int| 0 <= i < j < entries@.len() implies (
                        #[trigger] entries@[i]).0.rank() < (#[trigger] entries@[j]).0.rank() by {
                            assert(entries@[i].0 == before[i].0);
                            assert(entries@[j].0 == before[j].0);
                        }
                    }
                    assert forall|x: K| holds_key(entries@, x) <==> #[trigger] holds_key(before, x) by {
                        if holds_key(before, x) {
                            let i = index_of(before, x);
                            assert(before[i].0 == x);
                            assert(entries@[i].0 == x);
                        }
                        if holds_key(entries@, x) {
                            let i = index_of(entries@, x);
                            assert(entries@[i].0 == x);
                            assert(before[i].0 == x);
                        }
                    }
                    assert forall|x: K| #[trigger] holds_key(before, x) implies index_of(entries@, x)
                        == index_of(before, x) by {
                        let i = index_of(before, x);
                        assert(before[i].0 == x);
                        assert(entries@[i].0 == x);
                        Self::lookup_at(entries@, i);
                    }
                }
            },
            None => {
                let at = Self::place(&entries, &k);
                entries.insert(at, (k, v));
                proof {
                    Self::lemma_entry_inserted(before, at as int, k, v);
                }
            },
        }
        self.entries = entries;
        proof {
            assert(self@ =~= old(self)@.insert(k, v@));
        }
    }

    proof fn lemma_entry_inserted(before: Seq<(K, V)>, at: int, k: K, v: V)
        requires
            sorted_entries(before),
            0 <= at <= before.len(),
            forall|i: int| 0 <= i < at ==> (#[trigger] before[i]).0.rank() < k.rank(),
            forall|i: int| at <= i < before.len() ==> (#[trigger] before[i]).0.rank() >= k.rank(),
            !holds_key(before, k),
        ensures
            sorted_entries(before.insert(at, (k, v))),
            forall|x: K| #[trigger] holds_key(before.insert(at, (k, v)), x) <==> holds_key(before, x) || x == k,
            before.insert(at, (k, v))[index_of(before.insert(at, (k, v)), k)].1 == v,
            forall|x: K| #[trigger] holds_key(before, x) ==> before.insert(at, (k, v))[index_of(
                before.insert(at, (k, v)),
                x,
            )] == before[index_of(before, x)],
    {
        let after = before.insert(at, (k, v));
        assert forall|i: int| at <= i < before.len() implies (#[trigger] before[i]).0.rank() > k.rank() by {
            if before[i].0.rank() == k.rank() {
                K::rank_is_injective(&before[i].0, &k);
                assert(before[i].0 == k);
            }
        }
        assert forall|i: int, j: int| 0 <= i < j < after.len() implies (#[trigger] after[i]).0.rank()
            < (#[trigger] after[j]).0.rank() by {
            if i < at && j < at {
                assert(after[i] == before[i] && after[j] == before[j]);
            } else if i < at && j > at {
                assert(after[i] == before[i] && after[j] == before[j - 1]);
            } else if i > at {
                assert(after[i] == before[i - 1] && after[j] == before[j - 1]);
            } else if i == at {
                assert(after[j] == before[j - 1]);
            } else {
                assert(after[i] == before[i]);
            }
        }
        assert(after[at].0 == k);
        Self::lookup_at(after, at);
        assert forall|x: K| #[trigger] holds_key(before, x) implies holds_key(after, x) && after[index_of(after, x)]
            == before[index_of(before, x)] by {
            let i = index_of(before, x);
            assert(before[i].0 == x);
            if i < at {
                assert(after[i] == before[i]);
                Self::lookup_at(after, i);
            } else {
                assert(after[i + 1] == before[i]);
                Self::lookup_at(after, i + 1);
            }
        }
        assert forall|x: K| #[trigger] holds_key(after, x) implies holds_key(before, x) || x == k by {
            let i = index_of(after, x);
            assert(after[i].0 == x);
            if i < at {
                assert(before[i].0 == x);
            } else if i > at {
                assert(before[i - 1].0 == x);
            }
        }
    }

    pub fn remove(&mut self, k: &K)
        ensures
            final(self)@ == old(self)@.remove(*k),
    {
        proof {
            use_type_invariant(&*self);
        }
        let mut entries: Vec<(K, V)> = Vec::new();
        std::mem::swap(&mut entries, &mut self.entries);
        let ghost before = entries@;
        let found = Self::find(&entries, k);
        if let Some(at) = found {
            entries.remove(at);
            proof {
                assert forall|x: K| #[trigger] holds_key(entries@, x) implies holds_key(before, x) && x != *k by {
                    let i = index_of(entries@, x);
                    assert(entries@[i].0 == x);
                    let j = if i < at { i } else { i + 1 };
                    assert(before[j].0 == x);
                    Self::lookup_at(before, j);
                }
                assert(sorted_entries(entries@)) by {
                    assert forall|i: int, j: int| 0 <= i < j < entries@.len() implies (
                    #[trigger] entries@[i]).0.rank() < (#[trigger] entries@[j]).0.rank() by {
                        let a = if i < at { i } else { i + 1 };
                        let b = if j < at { j } else { j + 1 };
                        assert(entries@[i] == before[a] && entries@[j] == before[b]);
                    }
                }
                assert forall|x: K| #[trigger] holds_key(before, x) && x != *k implies holds_key(entries@, x)
                    && entries@[index_of(entries@, x)] == before[index_of(before, x)] by {
                    let i = index_of(before, x);
                    assert(before[i].0 == x);
                    let j = if i < at { i } else { i - 1 };
                    assert(entries@[j] == before[i]);
                    Self::lookup_at(entries@, j);
                }
            }
        }
        self.entries = entries;
        proof {
            assert(self@ =~= old(self)@.remove(*k));
        }
    }

    /// The keys whose rank lies between those of `low` and `high`, both included.
    pub fn scan(&self, low: &K, high: &K) -> (r: Vec<K>)
        ensures
            lists(r@, Set::new(|k: K| self@.contains_key(k) && low.rank() <= k.rank() <= high.rank())),
            r@ == in_order(Set::new(|k: K| self@.contains_key(k) && low.rank() <= k.rank() <= high.rank())),
    {
        proof {
            use_type_invariant(self);
        }
        let first = Self::place(&self.entries, low);
        let mut at: usize = first;
        let mut r: Vec<K> = Vec::new();
        while at < self.entries.len() && !high.before(&self.entries[at].0)
            invariant
                first <= at <= self.entries@.len(),
                sorted_entries(self.entries@),
                r@.len() == at - first,
                forall|i: int| first <= i < at ==> (#[trigger] self.entries@[i]).0 == r@[i - first],
                forall|i: int| first <= i < at ==> (#[trigger] self.entries@[i]).0.rank() <= high.rank(),
            decreases self.entries@.len() - at,
        {
            r.push(self.entries[at].0);
            at = at + 1;
        }
        proof {
            let members = Set::new(|k: K| self@.contains_key(k) && low.rank() <= k.rank() <= high.rank());
            assert forall|i: int, j: int| 0 <= i < j < r@.len() implies (#[trigger] r@[i]).rank() < (
            #[trigger] r@[j]).rank() by {
                assert(self.entries@[first + i].0 == r@[i]);
                assert(self.entries@[first + j].0 == r@[j]);
            }
            assert forall|k: K| #[trigger] r@.contains(k) <==> members.contains(k) by {
                if r@.contains(k) {
                    let i = choose|i: int| 0 <= i < r@.len() && r@[i] == k;
                    assert(self.entries@[first + i].0 == k);
                    Self::lookup_at(self.entries@, first + i);
                }
                if members.contains(k) {
                    let i = index_of(self.entries@, k);
                    assert(holds_key(self.entries@, k));
                    assert(self.entries@[i].0 == k);
                    assert(first <= i);
                    if i >= at {
                        assert(at < self.entries@.len());
                        if at < i {
                            assert(self.entries@[at as int].0.rank() < self.entries@[i].0.rank());
                        }
                    }
                    assert(r@[i - first] == k);
                }
            }
            in_order_is_unique(r@, members);
        }
        r
    }

    /// The number of keys.
    pub fn len(&self) -> (r: usize)
        ensures
            r == self@.dom().len(),
    {
        proof {
            use_type_invariant(self);
            let keys = Seq::new(self.entries@.len(), |i: int| self.entries@[i].0);
            assert forall|i: int, j: int| 0 <= i < keys.len() && 0 <= j < keys.len() && i != j implies keys[i]
                != keys[j] by {
                if i < j {
                    assert(self.entries@[i].0.rank() < self.entries@[j].0.rank());
                } else {
                    assert(self.entries@[j].0.rank() < self.entries@[i].0.rank());
                }
            }
            keys.unique_seq_to_set();
            assert(keys.to_set() =~= self@.dom()) by {
                assert forall|k: K| #[trigger] keys.to_set().contains(k) <==> self@.dom().contains(k) by {
                    if keys.to_set().contains(k) {
                        let i = choose|i: int| 0 <= i < keys.len() && keys[i] == k;
                        assert(self.entries@[i].0 == k);
                    }
                    if self@.dom().contains(k) {
                        let i = index_of(self.entries@, k);
                        assert(holds_key(self.entries@, k));
                        assert(keys[i] == k);
                    }
                }
            }
        }
        self.entries.len()
    }

    /// All keys in order.
    pub fn keys(&self) -> (r: Vec<K>)
        ensures
            lists(r@, self@.dom()),
            r@ == in_order(self@.dom()),
    {
        proof {
            use_type_invariant(self);
        }
        let mut r: Vec<K> = Vec::new();
        for at in 0..self.entries.len()
            invariant
                sorted_entries(self.entries@),
                r@.len() == at,
                forall|i: int| 0 <= i < at ==> (#[trigger] self.entries@[i]).0 == r@[i],
        {
            r.push(self.entries[at].0);
        }
        proof {
            assert forall|i: int, j: int| 0 <= i < j < r@.len() implies (#[trigger] r@[i]).rank() < (
            #[trigger] r@[j]).rank() by {
                assert(self.entries@[i].0 == r@[i]);
                assert(self.entries@[j].0 == r@[j]);
            }
            assert forall|k: K| #[trigger] r@.contains(k) <==> self@.dom().contains(k) by {
                if r@.contains(k) {
                    let i = choose|i: int| 0 <= i < r@.len() && r@[i] == k;
                    assert(self.entries@[i].0 == k);
                    Self::lookup_at(self.entries@, i);
                }
                if self@.dom().contains(k) {
                    let i = index_of(self.entries@, k);
                    assert(holds_key(self.entries@, k));
                    assert(self.entries@[i].0 == k);
                    assert(r@[i] == k);
                }
            }
            in_order_is_unique(r@, self@.dom());
        }
        r
    }
}

} // verus!
