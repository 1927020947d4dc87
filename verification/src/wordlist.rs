//! Lists of distinct texts in the order of their UTF-8 forms.
use vstd::prelude::*;
use crate::bytes::{
    Precedence, bytes_before, bytes_before_is_total, bytes_before_is_transitive, weigh_bytes,
};
use crate::table::views;
use crate::text::{text_bytes, utf8};

verus! {

/// `a` comes before `b` in the order of texts.
pub open spec fn text_before(a: Seq<char>, b: Seq<char>) -> bool {
    bytes_before(utf8(a), utf8(b))
}

/// Texts with one UTF-8 form are one text.
pub proof fn utf8_is_injective(a: Seq<char>, b: Seq<char>)
    ensures
        utf8(a) == utf8(b) <==> a == b,
{
    reveal(utf8);
    vstd::utf8::encode_utf8_decode_utf8(a);
    vstd::utf8::encode_utf8_decode_utf8(b);
}

/// One of two texts comes first, unless they are the same.
pub proof fn text_before_is_total(a: Seq<char>, b: Seq<char>)
    ensures
        text_before(a, b) || a == b || text_before(b, a),
        !(text_before(a, b) && text_before(b, a)),
        a == b ==> !text_before(a, b),
{
    utf8_is_injective(a, b);
    bytes_before_is_total(utf8(a), utf8(b));
}

pub proof fn text_before_is_transitive(a: Seq<char>, b: Seq<char>, c: Seq<char>)
    requires
        text_before(a, b),
        text_before(b, c),
    ensures
        text_before(a, c),
{
    bytes_before_is_transitive(utf8(a), utf8(b), utf8(c));
}

/// A text entered into a list of texts, in front of the first that it comes before,
/// unless it is met on the way.
pub open spec fn entered(sorted: Seq<Seq<char>>, text: Seq<char>) -> Seq<Seq<char>>
    decreases sorted.len(),
{
    if sorted.len() == 0 {
        seq![text]
    } else if sorted[0] == text {
        sorted
    } else if text_before(text, sorted[0]) {
        seq![text] + sorted
    } else {
        seq![sorted[0]] + entered(sorted.skip(1), text)
    }
}

/// Texts are in order, each but once.
pub open spec fn texts_in_order(sorted: Seq<Seq<char>>) -> bool {
    forall|i: int, j: int| 0 <= i < j < sorted.len() ==> text_before(#[trigger] sorted[i], #[trigger] sorted[j])
}

pub proof fn entered_is_in_order(sorted: Seq<Seq<char>>, text: Seq<char>)
    requires
        texts_in_order(sorted),
    ensures
        texts_in_order(entered(sorted, text)),
        forall|t: Seq<char>| #[trigger]
            entered(sorted, text).contains(t) <==> sorted.contains(t) || t == text,
        sorted.len() <= entered(sorted, text).len() <= sorted.len() + 1,
    decreases sorted.len(),
{
    let r = entered(sorted, text);
    if sorted.len() == 0 {
        assert(r =~= seq![text]);
        assert(r[0] == text);
        assert forall|t: Seq<char>| #[trigger] r.contains(t) <==> sorted.contains(t) || t == text by {
        }
    } else if sorted[0] == text {
        assert(sorted.contains(text));
    } else if text_before(text, sorted[0]) {
        assert forall|i: int, j: int| 0 <= i < j < r.len() implies text_before(
            #[trigger] r[i],
            #[trigger] r[j],
        ) by {
            assert(r[j] == sorted[j - 1]);
            if i == 0 {
                if j > 1 {
                    assert(text_before(sorted[0], sorted[j - 1]));
                    text_before_is_transitive(text, sorted[0], sorted[j - 1]);
                }
            } else {
                assert(r[i] == sorted[i - 1]);
            }
        }
        assert forall|t: Seq<char>| #[trigger] r.contains(t) <==> sorted.contains(t) || t == text by {
            if sorted.contains(t) {
                let i = choose|i: int| 0 <= i < sorted.len() && sorted[i] == t;
                assert(r[i + 1] == t);
            }
            if t == text {
                assert(r[0] == t);
            }
            if r.contains(t) {
                let i = choose|i: int| 0 <= i < r.len() && r[i] == t;
                if i > 0 {
                    assert(sorted[i - 1] == t);
                }
            }
        }
    } else {
        let rest = sorted.skip(1);
        assert forall|i: int, j: int| 0 <= i < j < rest.len() implies text_before(
            #[trigger] rest[i],
            #[trigger] rest[j],
        ) by {
            assert(rest[i] == sorted[i + 1] && rest[j] == sorted[j + 1]);
        }
        entered_is_in_order(rest, text);
        let tail = entered(rest, text);
        text_before_is_total(text, sorted[0]);
        assert forall|i: int, j: int| 0 <= i < j < r.len() implies text_before(
            #[trigger] r[i],
            #[trigger] r[j],
        ) by {
            assert(r[j] == tail[j - 1]);
            if i == 0 {
                assert(tail.contains(tail[j - 1]));
                if tail[j - 1] != text {
                    let k = choose|k: int| 0 <= k < rest.len() && rest[k] == tail[j - 1];
                    assert(rest[k] == sorted[k + 1]);
                    assert(text_before(sorted[0], sorted[k + 1]));
                }
            } else {
                assert(r[i] == tail[i - 1]);
            }
        }
        assert forall|t: Seq<char>| #[trigger] r.contains(t) <==> sorted.contains(t) || t == text by {
            if sorted.contains(t) {
                let i = choose|i: int| 0 <= i < sorted.len() && sorted[i] == t;
                if i == 0 {
                    assert(r[0] == t);
                } else {
                    assert(rest[i - 1] == t);
                    assert(tail.contains(t));
                    let k = choose|k: int| 0 <= k < tail.len() && tail[k] == t;
                    assert(r[k + 1] == t);
                }
            }
            if t == text {
                assert(tail.contains(t));
                let k = choose|k: int| 0 <= k < tail.len() && tail[k] == t;
                assert(r[k + 1] == t);
            }
            if r.contains(t) {
                let i = choose|i: int| 0 <= i < r.len() && r[i] == t;
                if i == 0 {
                    assert(sorted[0] == t);
                } else {
                    assert(tail[i - 1] == t);
                    assert(tail.contains(t));
                    if t != text {
                        let k = choose|k: int| 0 <= k < rest.len() && rest[k] == t;
                        assert(sorted[k + 1] == t);
                    }
                }
            }
        }
    }
}

pub proof fn entered_grows(sorted: Seq<Seq<char>>, text: Seq<char>)
    ensures
        sorted.len() <= entered(sorted, text).len(),
        !sorted.contains(text) ==> entered(sorted, text).len() == sorted.len() + 1,
    decreases sorted.len(),
{
    if sorted.len() > 0 && sorted[0] != text && !text_before(text, sorted[0]) {
        entered_grows(sorted.skip(1), text);
        if sorted.skip(1).contains(text) {
            let k = choose|k: int| 0 <= k < sorted.skip(1).len() && sorted.skip(1)[k] == text;
            assert(sorted[k + 1] == text);
        }
    } else if sorted.len() > 0 && sorted[0] == text {
        assert(sorted.contains(text));
    }
}

pub proof fn entered_passes(sorted: Seq<Seq<char>>, text: Seq<char>, at: int)
    requires
        0 <= at <= sorted.len(),
        forall|j: int| 0 <= j < at ==> (#[trigger] sorted[j]) != text && !text_before(text, sorted[j]),
    ensures
        entered(sorted, text) == sorted.take(at) + entered(sorted.skip(at), text),
    decreases at,
{
    if at == 0 {
        assert(sorted.skip(0) =~= sorted);
        assert(sorted.take(0) + entered(sorted, text) =~= entered(sorted, text));
    } else {
        let rest = sorted.skip(1);
        assert forall|j: int| 0 <= j < at - 1 implies (#[trigger] rest[j]) != text && !text_before(text, rest[j]) by {
            assert(rest[j] == sorted[j + 1]);
        }
        entered_passes(rest, text, at - 1);
        assert(sorted[0] != text && !text_before(text, sorted[0]));
        assert(rest.skip(at - 1) =~= sorted.skip(at));
        assert(seq![sorted[0]] + (rest.take(at - 1) + entered(sorted.skip(at), text)) =~= sorted.take(at) + entered(
            sorted.skip(at),
            text,
        ));
    }
}

/// Whether two texts are the same.
pub fn same_text(a: &str, b: &str) -> (r: bool)
    ensures
        r == (a@ == b@),
{
    proof {
        utf8_is_injective(a@, b@);
    }
    match weigh_bytes(text_bytes(a), text_bytes(b)) {
        Precedence::Same => true,
        _ => false,
    }
}

/// Whether a list holds a text.
pub fn lists_text(texts: &Vec<String>, wanted: &str) -> (r: bool)
    ensures
        r == views(texts@).contains(wanted@),
{
    let ghost all = views(texts@);
    assert(all.len() == texts@.len());
    for i in 0..texts.len()
        invariant
            all == views(texts@),
            all.len() == texts@.len(),
            forall|j: int| 0 <= j < i ==> all[j] != wanted@,
    {
        assert(views(texts@)[i as int] == texts@[i as int]@);
        if same_text(texts[i].as_str(), wanted) {
            assert(all[i as int] == wanted@);
            return true;
        }
    }
    false
}

/// Enters a text into a list of texts, unless it is there.
pub fn enter_text(sorted: &mut Vec<String>, text: String)
    ensures
        views(final(sorted)@) == entered(views(old(sorted)@), text@),
        final(sorted)@.len() <= old(sorted)@.len() + 1,
{
    let ghost before = views(sorted@);
    let ghost wanted = text@;
    assert(before.len() == sorted@.len());
    let mut at: usize = 0;
    while at < sorted.len()
        invariant
            at <= sorted@.len(),
            sorted@ == old(sorted)@,
            before == views(sorted@),
            before.len() == sorted@.len(),
            wanted == text@,
            forall|j: int| 0 <= j < at ==> (#[trigger] before[j]) != wanted && !text_before(wanted, before[j]),
        ensures
            at == sorted@.len() || text_before(wanted, before[at as int]),
        decreases sorted@.len() - at,
    {
        proof {
            assert(views(sorted@)[at as int] == sorted@[at as int]@);
            utf8_is_injective(wanted, before[at as int]);
            text_before_is_total(wanted, before[at as int]);
        }
        match weigh_bytes(text_bytes(text.as_str()), text_bytes(sorted[at].as_str())) {
            Precedence::Before => {
                break;
            },
            Precedence::Same => {
                proof {
                    entered_passes(before, wanted, at as int);
                    assert(before.skip(at as int)[0] == before[at as int]);
                    assert(before.take(at as int) + before.skip(at as int) =~= before);
                }
                return;
            },
            Precedence::After => {
                at = at + 1;
            },
        }
    }
    proof {
        entered_passes(before, wanted, at as int);
        if at < sorted@.len() {
            assert(before.skip(at as int)[0] == before[at as int]);
            text_before_is_total(wanted, before[at as int]);
        }
    }
    sorted.insert(at, text);
    assert(views(sorted@) =~= before.take(at as int) + seq![wanted] + before.skip(at as int)) by {
        assert forall|i: int| 0 <= i < views(sorted@).len() implies #[trigger] views(sorted@)[i] == (before.take(
            at as int,
        ) + seq![wanted] + before.skip(at as int))[i] by {
            assert(views(sorted@)[i] == sorted@[i]@);
            if i < at {
                assert(before[i] == old(sorted)@[i]@);
            } else if i > at {
                assert(before[i - 1] == old(sorted)@[i - 1]@);
            }
        }
    }
    assert(before.take(at as int) + (seq![wanted] + before.skip(at as int)) =~= before.take(at as int)
        + seq![wanted] + before.skip(at as int));
    assert(at == before.len() ==> before.take(at as int) + seq![wanted] =~= before.take(at as int) + seq![wanted]
        + before.skip(at as int));
}

} // verus!
