//! Big-endian byte strings.
use vstd::prelude::*;

verus! {

/// The last `n` base-256 digits of `x`, most significant first.
pub open spec fn be(x: int, n: nat) -> Seq<u8>
    decreases n,
{
    if n == 0 {
        Seq::empty()
    } else {
        be(x / 256, (n - 1) as nat).push((x % 256) as u8)
    }
}

/// The number whose base-256 digits are `digits`, most significant first.
pub open spec fn be_value(digits: Seq<u8>) -> int
    decreases digits.len(),
{
    if digits.len() == 0 {
        0
    } else {
        be_value(digits.drop_last()) * 256 + digits.last()
    }
}

/// 256 to the power of `n`.
pub open spec fn span(n: nat) -> int
    decreases n,
{
    if n == 0 {
        1
    } else {
        256 * span((n - 1) as nat)
    }
}

pub proof fn be_len(x: int, n: nat)
    ensures
        be(x, n).len() == n,
    decreases n,
{
    if n > 0 {
        be_len(x / 256, (n - 1) as nat);
    }
}

/// Decoding undoes encoding.
pub proof fn be_value_of_be(x: int, n: nat)
    requires
        0 <= x < span(n),
    ensures
        be_value(be(x, n)) == x,
    decreases n,
{
    if n > 0 {
        be_len(x / 256, (n - 1) as nat);
        assert(0 <= x / 256 < span((n - 1) as nat));
        be_value_of_be(x / 256, (n - 1) as nat);
        assert(be(x, n).drop_last() =~= be(x / 256, (n - 1) as nat));
    }
}

/// Encoding undoes decoding.
pub proof fn be_of_be_value(digits: Seq<u8>)
    ensures
        be(be_value(digits), digits.len()) == digits,
        0 <= be_value(digits) < span(digits.len()),
    decreases digits.len(),
{
    if digits.len() > 0 {
        let rest = digits.drop_last();
        be_of_be_value(rest);
        let last = digits.last();
        let x = be_value(digits);
        assert(x == be_value(rest) * 256 + last);
        assert(x / 256 == be_value(rest));
        assert(x % 256 == last);
        assert(span(digits.len()) == 256 * span(rest.len()));
        assert(be(x, digits.len()) =~= rest.push(last));
        assert(digits =~= rest.push(last));
    } else {
        assert(be(be_value(digits), digits.len()) =~= digits);
    }
}

/// `a` comes before `b` in the order of byte strings.
pub open spec fn bytes_before(a: Seq<u8>, b: Seq<u8>) -> bool {
    ||| exists|i: int|
        0 <= i < a.len() && i < b.len() && (#[trigger] a[i]) < b[i] && a.take(i) == b.take(i)
    ||| a.len() < b.len() && a == b.take(a.len() as int)
}

/// On strings of one length, the order of byte strings is the order of numbers.
pub proof fn be_value_orders(a: Seq<u8>, b: Seq<u8>)
    requires
        a.len() == b.len(),
        be_value(a) < be_value(b),
    ensures
        bytes_before(a, b),
    decreases a.len(),
{
    if a.len() > 0 {
        let pa = a.drop_last();
        let pb = b.drop_last();
        if be_value(pa) < be_value(pb) {
            be_value_orders(pa, pb);
            let i = choose|i: int|
                0 <= i < pa.len() && i < pb.len() && (#[trigger] pa[i]) < pb[i] && pa.take(i) == pb.take(i);
            assert(a[i] < b[i]);
            assert(a.take(i) =~= pa.take(i));
            assert(b.take(i) =~= pb.take(i));
        } else {
            assert(be_value(pa) == be_value(pb)) by {
                assert(a.last() <= 255 && b.last() >= 0);
            }
            be_of_be_value(pa);
            be_of_be_value(pb);
            assert(pa == pb);
            let i = a.len() - 1;
            assert(a.take(i) =~= pa);
            assert(b.take(i) =~= pb);
            assert(a[i] < b[i]);
        }
    }
}

/// Equal concatenations whose first parts have one length agree part by part.
pub proof fn parts_agree(a: Seq<u8>, b: Seq<u8>, x: Seq<u8>, y: Seq<u8>)
    requires
        a.len() == b.len(),
        a + x == b + y,
    ensures
        a == b,
        x == y,
{
    assert(a =~= (a + x).take(a.len() as int));
    assert(b =~= (b + y).take(b.len() as int));
    assert(x =~= (a + x).skip(a.len() as int));
    assert(y =~= (b + y).skip(b.len() as int));
}

/// The number of values of 16 base-256 digits.
pub proof fn span_values()
    ensures
        span(4) == 0x1_0000_0000,
        span(8) == 0x1_0000_0000_0000_0000,
        span(16) == 0x1_0000_0000_0000_0000_0000_0000_0000_0000int,
{
    reveal_with_fuel(span, 17);
}

pub fn be_bytes(x: u128, n: usize) -> (r: Vec<u8>)
    ensures
        r@ == be(x as int, n as nat),
    decreases n,
{
    if n == 0 {
        Vec::new()
    } else {
        let mut r = be_bytes(x / 256, n - 1);
        r.push((x % 256) as u8);
        r
    }
}

/// The number that up to sixteen digits stand for.
pub fn be_number(digits: &[u8]) -> (x: u128)
    requires
        digits@.len() <= 16,
    ensures
        x == be_value(digits@),
{
    let mut x: u128 = 0;
    proof {
        span_values();
        assert(digits@.take(0) =~= Seq::<u8>::empty());
    }
    for i in 0..digits.len()
        invariant
            digits@.len() <= 16,
            x == be_value(digits@.take(i as int)),
            span(16) == 0x1_0000_0000_0000_0000_0000_0000_0000_0000int,
    {
        proof {
            let head = digits@.take(i as int);
            let longer = digits@.take(i + 1);
            assert(longer.drop_last() =~= head);
            be_of_be_value(longer);
            span_grows((i + 1) as nat, 16);
        }
        x = x * 256 + digits[i] as u128;
    }
    assert(digits@.take(digits@.len() as int) =~= digits@);
    x
}

proof fn span_grows(m: nat, n: nat)
    requires
        m <= n,
    ensures
        1 <= span(m) <= span(n),
    decreases n,
{
    if m < n {
        span_grows(m, (n - 1) as nat);
    } else if n > 0 {
        span_grows((m - 1) as nat, (n - 1) as nat);
    }
}

/// Appends a copy of `tail`.
pub fn append_bytes(bytes: &mut Vec<u8>, tail: &[u8])
    ensures
        final(bytes)@ == old(bytes)@ + tail@,
{
    bytes.extend_from_slice(tail);
    assert(bytes@ =~= old(bytes)@ + tail@);
}

/// How two things stand to one another in an order.
#[derive(Clone, Copy, Debug, PartialEq, Eq, Structural)]
pub enum Precedence {
    Before,
    Same,
    After,
}

/// Compares two byte strings.
pub fn weigh_bytes(a: &[u8], b: &[u8]) -> (r: Precedence)
    ensures
        r is Before <==> bytes_before(a@, b@),
        r is Same <==> a@ == b@,
        r is After <==> bytes_before(b@, a@),
{
    let mut i: usize = 0;
    assert(a@.take(0) =~= b@.take(0));
    while i < a.len() && i < b.len() && a[i] == b[i]
        invariant
            i <= a@.len(),
            i <= b@.len(),
            a@.take(i as int) == b@.take(i as int),
        decreases a@.len() - i,
    {
        assert(a@.take(i + 1) =~= a@.take(i as int).push(a@[i as int]));
        assert(b@.take(i + 1) =~= b@.take(i as int).push(b@[i as int]));
        i = i + 1;
    }
    proof {
        order_decided(a@, b@, i as int);
        order_decided(b@, a@, i as int);
        if i < a@.len() && i < b@.len() {
            assert(a@[i as int] != b@[i as int]);
        } else {
            if a@.len() == b@.len() {
                assert(a@.take(i as int) =~= a@);
                assert(b@.take(i as int) =~= b@);
            }
        }
    }
    if i < a.len() && i < b.len() {
        if a[i] < b[i] {
            Precedence::Before
        } else {
            Precedence::After
        }
    } else if a.len() < b.len() {
        Precedence::Before
    } else if b.len() < a.len() {
        Precedence::After
    } else {
        Precedence::Same
    }
}

/// The first place where two byte strings part decides their order.
pub proof fn order_decided(a: Seq<u8>, b: Seq<u8>, i: int)
    requires
        0 <= i <= a.len(),
        i <= b.len(),
        a.take(i) == b.take(i),
        i == a.len() || i == b.len() || a[i] != b[i],
    ensures
        bytes_before(a, b) <==> (if i < a.len() && i < b.len() {
            a[i] < b[i]
        } else {
            a.len() < b.len()
        }),
{
    let wanted = if i < a.len() && i < b.len() {
        a[i] < b[i]
    } else {
        a.len() < b.len()
    };
    if wanted && !(i < a.len() && i < b.len()) {
        assert(a =~= b.take(a.len() as int)) by {
            assert(a.take(i) =~= a);
        }
    }
    if bytes_before(a, b) {
        if exists|k: int| 0 <= k < a.len() && k < b.len() && (#[trigger] a[k]) < b[k] && a.take(k) == b.take(k) {
            let k = choose|k: int|
                0 <= k < a.len() && k < b.len() && (#[trigger] a[k]) < b[k] && a.take(k) == b.take(k);
            if k < i {
                assert(a[k] == a.take(i)[k]);
                assert(b[k] == b.take(i)[k]);
            } else if i < k {
                assert(a.take(k)[i] == b.take(k)[i]);
            }
            assert(wanted);
        } else {
            if i < a.len() && i < b.len() {
                assert(b.take(a.len() as int)[i] == b[i]);
            }
            assert(wanted);
        }
    }
    if wanted {
        if i < a.len() && i < b.len() {
            assert(a[i] < b[i]);
        }
        assert(bytes_before(a, b));
    }
}

/// One of two byte strings comes first, unless they are the same.
pub proof fn bytes_before_is_total(a: Seq<u8>, b: Seq<u8>)
    ensures
        bytes_before(a, b) || a == b || bytes_before(b, a),
        !(bytes_before(a, b) && bytes_before(b, a)),
        a == b ==> !bytes_before(a, b),
{
    assert(a.take(0) =~= b.take(0));
    let i = first_parting(a, b, 0);
    order_decided(a, b, i);
    order_decided(b, a, i);
    if i == a.len() && i == b.len() {
        assert(a.take(i) =~= a);
        assert(b.take(i) =~= b);
    }
}

/// The order of byte strings is transitive.
pub proof fn bytes_before_is_transitive(a: Seq<u8>, b: Seq<u8>, c: Seq<u8>)
    requires
        bytes_before(a, b),
        bytes_before(b, c),
    ensures
        bytes_before(a, c),
{
    assert(a.take(0) =~= b.take(0));
    assert(b.take(0) =~= c.take(0));
    let i = first_parting(a, b, 0);
    let j = first_parting(b, c, 0);
    order_decided(a, b, i);
    order_decided(b, c, j);
    let k = if i < j { i } else { j };
    assert(a.take(k) =~= c.take(k)) by {
        assert forall|p: int| 0 <= p < k implies a[p] == c[p] by {
            assert(a.take(i)[p] == b.take(i)[p]);
            assert(b.take(j)[p] == c.take(j)[p]);
        }
    }
    if i < j {
        if i < b.len() {
            assert(b.take(j)[i] == c.take(j)[i]);
        }
    } else if j < i {
        if j < b.len() {
            assert(a.take(i)[j] == b.take(i)[j]);
        }
    }
    order_decided(a, c, k);
}

proof fn first_parting(a: Seq<u8>, b: Seq<u8>, from: int) -> (i: int)
    requires
        0 <= from <= a.len(),
        from <= b.len(),
        a.take(from) == b.take(from),
    ensures
        0 <= i <= a.len(),
        i <= b.len(),
        a.take(i) == b.take(i),
        i == a.len() || i == b.len() || a[i] != b[i],
    decreases a.len() - from,
{
    if from == a.len() || from == b.len() || a[from] != b[from] {
        from
    } else {
        assert(a.take(from + 1) =~= a.take(from).push(a[from]));
        assert(b.take(from + 1) =~= b.take(from).push(b[from]));
        first_parting(a, b, from + 1)
    }
}

} // verus!
