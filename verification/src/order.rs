//! Keys with a total order, and lists of distinct keys kept in that order.
use vstd::prelude::*;

verus! {

/// A key whose order is the order of an integer that identifies it.
pub trait Keyed: Copy + Sized {
    /// The integer by which keys are ordered.
    spec fn rank(&self) -> int;

    /// No two keys share a rank.
    proof fn rank_is_injective(a: &Self, b: &Self)
        requires
            a.rank() == b.rank(),
        ensures
            *a == *b,
    ;

    /// Whether `self` comes strictly before `other`.
    fn before(&self, other: &Self) -> (r: bool)
        ensures
            r == (self.rank() < other.rank()),
    ;
}

/// The items stand in strictly increasing order; in particular none occurs twice.
pub open spec fn increasing<K: Keyed>(items: Seq<K>) -> bool {
    forall|i: int, j: int|
        0 <= i < j < items.len() ==> (#[trigger] items[i]).rank() < (#[trigger] items[j]).rank()
}

/// `items` lists exactly the members of `members`, in increasing order.
pub open spec fn lists<K: Keyed>(items: Seq<K>, members: Set<K>) -> bool {
    &&& increasing(items)
    &&& forall|k: K| #[trigger] items.contains(k) <==> members.contains(k)
}

/// The members of a finite set in increasing order.
pub open spec fn in_order<K: Keyed>(members: Set<K>) -> Seq<K> {
    choose|items: Seq<K>| lists(items, members)
}

/// An increasing list is determined by its members.
pub proof fn increasing_lists_agree<K: Keyed>(a: Seq<K>, b: Seq<K>)
    requires
        increasing(a),
        increasing(b),
        forall|k: K| #[trigger] a.contains(k) <==> b.contains(k),
    ensures
        a == b,
    decreases a.len(),
{
    if a.len() == 0 {
        if b.len() > 0 {
            assert(b.contains(b[0]));
            assert(a.contains(b[0]));
        }
        assert(a =~= b);
    } else {
        assert(a.contains(a[0]));
        assert(b.contains(a[0]));
        assert(b.contains(b[0]));
        assert(a.contains(b[0]));
        let i = choose|i: int| 0 <= i < b.len() && b[i] == a[0];
        let j = choose|j: int| 0 <= j < a.len() && a[j] == b[0];
        assert(b[0].rank() <= a[0].rank());
        assert(a[0].rank() <= b[0].rank());
        K::rank_is_injective(&a[0], &b[0]);
        let ta = a.drop_first();
        let tb = b.drop_first();
        assert forall|k: K| #[trigger] ta.contains(k) <==> tb.contains(k) by {
            if ta.contains(k) {
                let p = choose|p: int| 0 <= p < ta.len() && ta[p] == k;
                assert(a[p + 1] == k);
                assert(a.contains(k));
                assert(b.contains(k));
                let q = choose|q: int| 0 <= q < b.len() && b[q] == k;
                assert(a[0].rank() < a[p + 1].rank());
                assert(q != 0);
                assert(tb[q - 1] == k);
            }
            if tb.contains(k) {
                let p = choose|p: int| 0 <= p < tb.len() && tb[p] == k;
                assert(b[p + 1] == k);
                assert(b.contains(k));
                assert(a.contains(k));
                let q = choose|q: int| 0 <= q < a.len() && a[q] == k;
                assert(b[0].rank() < b[p + 1].rank());
                assert(q != 0);
                assert(ta[q - 1] == k);
            }
        }
        increasing_lists_agree(ta, tb);
        assert(a =~= seq![a[0]] + ta);
        assert(b =~= seq![b[0]] + tb);
    }
}

/// A list of a set's members in increasing order is that set's `in_order`.
pub proof fn in_order_is_unique<K: Keyed>(items: Seq<K>, members: Set<K>)
    requires
        lists(items, members),
    ensures
        items == in_order(members),
{
    let other = in_order(members);
    assert(lists(other, members));
    assert forall|k: K| #[trigger] items.contains(k) <==> other.contains(k) by {
        assert(items.contains(k) <==> members.contains(k));
        assert(other.contains(k) <==> members.contains(k));
    }
    increasing_lists_agree(items, other);
}

/// Every finite set of keys can be listed in increasing order.
pub proof fn in_order_lists<K: Keyed>(members: Set<K>)
    requires
        members.finite(),
    ensures
        lists(in_order(members), members),
    decreases members.len(),
{
    if members.len() == 0 {
        let none = Seq::<K>::empty();
        assert(members =~= Set::empty());
        assert(lists(none, members));
    } else {
        let k = members.choose();
        let rest = members.remove(k);
        in_order_lists(rest);
        let items = in_order(rest);
        assert(!rest.contains(k));
        assert(!items.contains(k));
        let at = place_of(items, k.rank(), items.len());
        place_of_splits(items, k.rank(), items.len());
        lemma_insert(items, at as int, k);
        assert forall|x: K| #[trigger] items.insert(at as int, k).contains(x) <==> members.contains(x) by {
            assert(items.contains(x) <==> rest.contains(x));
        }
        assert(lists(items.insert(at as int, k), members));
    }
}

/// How many of the first `n` items come before the given rank.
spec fn place_of<K: Keyed>(items: Seq<K>, rank: int, n: nat) -> nat
    decreases n,
{
    if n == 0 {
        0
    } else if items[n - 1].rank() < rank {
        n
    } else {
        place_of(items, rank, (n - 1) as nat)
    }
}

proof fn place_of_splits<K: Keyed>(items: Seq<K>, rank: int, n: nat)
    requires
        increasing(items),
        n <= items.len(),
    ensures
        place_of(items, rank, n) <= n,
        forall|i: int| 0 <= i < place_of(items, rank, n) ==> (#[trigger] items[i]).rank() < rank,
        forall|i: int| place_of(items, rank, n) <= i < n ==> (#[trigger] items[i]).rank() >= rank,
    decreases n,
{
    if n > 0 && items[n - 1].rank() >= rank {
        place_of_splits(items, rank, (n - 1) as nat);
    }
}

/// Inserting a key at its place keeps a list increasing and adds that key alone.
pub proof fn lemma_insert<K: Keyed>(items: Seq<K>, at: int, k: K)
    requires
        increasing(items),
        0 <= at <= items.len(),
        forall|i: int| 0 <= i < at ==> (#[trigger] items[i]).rank() < k.rank(),
        forall|i: int| at <= i < items.len() ==> (#[trigger] items[i]).rank() >= k.rank(),
        !items.contains(k),
    ensures
        increasing(items.insert(at, k)),
        forall|x: K| #[trigger] items.insert(at, k).contains(x) <==> items.contains(x) || x == k,
{
    let after = items.insert(at, k);
    assert forall|i: int| at <= i < items.len() implies (#[trigger] items[i]).rank() > k.rank() by {
        if items[i].rank() == k.rank() {
            K::rank_is_injective(&items[i], &k);
            assert(items.contains(k));
        }
    }
    assert forall|i: int, j: int| 0 <= i < j < after.len() implies (#[trigger] after[i]).rank()
        < (#[trigger] after[j]).rank() by {
        if i < at && j < at {
            assert(after[i] == items[i] && after[j] == items[j]);
        } else if i < at && j > at {
            assert(after[i] == items[i] && after[j] == items[j - 1]);
        } else if i > at {
            assert(after[i] == items[i - 1] && after[j] == items[j - 1]);
        } else if i == at {
            assert(after[j] == items[j - 1]);
        } else {
            assert(after[i] == items[i]);
        }
    }
    assert forall|x: K| #[trigger] after.contains(x) <==> items.contains(x) || x == k by {
        if after.contains(x) {
            let i = choose|i: int| 0 <= i < after.len() && after[i] == x;
            if i < at {
                assert(items[i] == x);
            } else if i > at {
                assert(items[i - 1] == x);
            }
        }
        if items.contains(x) {
            let i = choose|i: int| 0 <= i < items.len() && items[i] == x;
            if i < at {
                assert(after[i] == x);
            } else {
                assert(after[i + 1] == x);
            }
        }
        if x == k {
            assert(after[at] == x);
        }
    }
}

/// The number of items of an increasing list that come before `k`.
pub fn place<K: Keyed>(items: &Vec<K>, k: &K) -> (at: usize)
    requires
        increasing(items@),
    ensures
        at <= items@.len(),
        forall|i: int| 0 <= i < at ==> (#[trigger] items@[i]).rank() < k.rank(),
        forall|i: int| at <= i < items@.len() ==> (#[trigger] items@[i]).rank() >= k.rank(),
{
    let mut low: usize = 0;
    let mut high: usize = items.len();
    while low < high
        invariant
            low <= high <= items@.len(),
            increasing(items@),
            forall|i: int| 0 <= i < low ==> (#[trigger] items@[i]).rank() < k.rank(),
            forall|i: int| high <= i < items@.len() ==> (#[trigger] items@[i]).rank() >= k.rank(),
        decreases high - low,
    {
        let middle: usize = low + (high - low) / 2;
        if items[middle].before(k) {
            low = middle + 1;
        } else {
            high = middle;
        }
    }
    low
}

/// A list of distinct keys in increasing order.
pub struct Ranked<K: Keyed> {
    items: Vec<K>,
}

impl<K: Keyed> View for Ranked<K> {
    type V = Seq<K>;

    closed spec fn view(&self) -> Seq<K> {
        self.items@
    }
}

impl<K: Keyed> Ranked<K> {
    #[verifier::type_invariant]
    spec fn wf(self) -> bool {
        increasing(self.items@)
    }

    pub fn new() -> (r: Self)
        ensures
            r@ == Seq::<K>::empty(),
    {
        Ranked { items: Vec::new() }
    }

    pub fn contains(&self, k: &K) -> (r: bool)
        ensures
            r == self@.contains(*k),
    {
        proof {
            use_type_invariant(self);
        }
        let at = place(&self.items, k);
        if at < self.items.len() && !k.before(&self.items[at]) {
            proof {
                K::rank_is_injective(&self.items@[at as int], k);
            }
            true
        } else {
            proof {
                if self.items@.contains(*k) {
                    let i = choose|i: int| 0 <= i < self.items@.len() && self.items@[i] == *k;
                    assert(i >= at);
                    assert(self.items@[at as int].rank() <= self.items@[i].rank());
                }
            }
            false
        }
    }

    /// Adds `k`; reports whether it was absent.
    pub fn insert(&mut self, k: K) -> (r: bool)
        ensures
            r == !old(self)@.contains(k),
            increasing(final(self)@),
            forall|x: K| #[trigger] final(self)@.contains(x) <==> old(self)@.contains(x) || x == k,
            final(self)@.len() == old(self)@.len() + (if r { 1int } else { 0int }),
            !r ==> final(self)@ == old(self)@,
    {
        proof {
            use_type_invariant(&*self);
        }
        if self.contains(&k) {
            return false;
        }
        let mut items: Vec<K> = Vec::new();
        std::mem::swap(&mut items, &mut self.items);
        let at = place(&items, &k);
        proof {
            lemma_insert(items@, at as int, k);
        }
        items.insert(at, k);
        self.items = items;
        true
    }

    pub fn len(&self) -> (r: usize)
        ensures
            r == self@.len(),
    {
        self.items.len()
    }

    pub fn get(&self, i: usize) -> (r: K)
        requires
            i < self@.len(),
        ensures
            r == self@[i as int],
    {
        self.items[i]
    }

    pub fn into_vec(self) -> (r: Vec<K>)
        ensures
            r@ == self@,
            increasing(r@),
    {
        proof {
            use_type_invariant(&self);
        }
        self.items
    }
}

/// The distinct items of a list in increasing order.
pub fn sorted_distinct<K: Keyed>(items: &Vec<K>) -> (r: Vec<K>)
    ensures
        lists(r@, items@.to_set()),
        r@ == in_order(items@.to_set()),
{
    let mut sorted: Ranked<K> = Ranked::new();
    for i in 0..items.len()
        invariant
            increasing(sorted@),
            forall|k: K| #[trigger] sorted@.contains(k) <==> exists|j: int| 0 <= j < i && items@[j] == k,
    {
        let ghost before = sorted@;
        sorted.insert(items[i]);
        proof {
            assert forall|k: K| #[trigger] sorted@.contains(k) <==> exists|j: int|
                0 <= j < i + 1 && items@[j] == k by {
                assert(sorted@.contains(k) <==> before.contains(k) || k == items@[i as int]);
                if before.contains(k) {
                    let j = choose|j: int| 0 <= j < i && items@[j] == k;
                    assert(0 <= j < i + 1 && items@[j] == k);
                }
            }
        }
    }
    let r = sorted.into_vec();
    proof {
        assert forall|k: K| #[trigger] r@.contains(k) <==> items@.to_set().contains(k) by {
            if r@.contains(k) {
                let j = choose|j: int| 0 <= j < items@.len() && items@[j] == k;
                assert(items@.contains(items@[j]));
            }
            if items@.contains(k) {
                let j = choose|j: int| 0 <= j < items@.len() && items@[j] == k;
                assert(0 <= j < items@.len() && items@[j] == k);
            }
        }
        in_order_is_unique(r@, items@.to_set());
    }
    r
}

} // verus!
