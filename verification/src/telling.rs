//! How numbers are told in messages, and how requests are told apart.

use vstd::prelude::*;
use vstd::utf8::{is_ascii_chars, is_ascii_chars_encode_utf8};
use crate::digest::{actor_tag_of, actor_text, mutation_frame};
use crate::message::{decimal_text, digit};
use crate::records::evidence::Actor;
use crate::text::utf8;

verus! {

/// The number that decimal digits spell.
pub open spec fn decimal_value(text: Seq<char>) -> int
    decreases text.len(),
{
    if text.len() == 0 {
        0
    } else {
        decimal_value(text.drop_last()) * 10 + (text.last() as int - '0' as int)
    }
}

/// A number is told by its decimal digits: they spell it, and there are no more of them
/// than it takes.
pub proof fn numbers_are_told_in_digits(value: u64)
    ensures
        decimal_value(decimal_text(value)) == value,
        decimal_text(value).len() > 0,
        forall|i: int| 0 <= i < decimal_text(value).len() ==> '0' <= #[trigger] decimal_text(value)[i] <= '9',
        decimal_text(value)[0] == '0' ==> value == 0,
        value == 0 ==> decimal_text(value).len() == 1,
    decreases value,
{
    let last = value % 10;
    assert(digit(last) as int == '0' as int + last) by {
        assert(digit(0) == '0');
        assert(digit(1) == '1');
        assert(digit(2) == '2');
        assert(digit(3) == '3');
        assert(digit(4) == '4');
        assert(digit(5) == '5');
        assert(digit(6) == '6');
        assert(digit(7) == '7');
        assert(digit(8) == '8');
        assert(digit(9) == '9');
    }
    let text = decimal_text(value);
    if value < 10 {
        assert(text =~= seq![digit(value)]);
        assert(text.drop_last() =~= Seq::<char>::empty());
        assert(decimal_value(text.drop_last()) == 0);
        assert(text.last() == digit(last));
    } else {
        numbers_are_told_in_digits(value / 10);
        let before = decimal_text(value / 10);
        assert(text == before.push(digit(last)));
        assert(text.drop_last() =~= before);
        assert forall|i: int| 0 <= i < text.len() implies '0' <= #[trigger] text[i] <= '9' by {
            if i < before.len() {
                assert(text[i] == before[i]);
            }
        }
    }
}

proof fn actor_words_differ_in_length(actor: Actor)
    ensures
        utf8(actor_text(actor)).len() == (match actor {
            Actor::User => 4int,
            Actor::System => 6int,
            Actor::Operator => 8int,
            Actor::Assistant => 9int,
        }),
{
    reveal(utf8);
    reveal_strlit("User");
    reveal_strlit("Assistant");
    reveal_strlit("System");
    reveal_strlit("Operator");
    let word = actor_text(actor);
    assert(is_ascii_chars(word));
    is_ascii_chars_encode_utf8(word);
}

/// A retry is told from another request: the same mutation asked for by another actor, or
/// with another request, is put differently.
pub proof fn requests_are_told_apart(mutation: Seq<char>, a: Actor, b: Actor, x: Seq<u8>, y: Seq<u8>)
    ensures
        mutation_frame(mutation, a, x) == mutation_frame(mutation, b, x) ==> a == b,
        mutation_frame(mutation, a, x) == mutation_frame(mutation, a, y) ==> x == y,
        actor_tag_of(a) == actor_tag_of(b) ==> a == b,
{
    actor_words_differ_in_length(a);
    actor_words_differ_in_length(b);
    let one = mutation_frame(mutation, a, x);
    if one == mutation_frame(mutation, b, x) {
        assert(one.len() == mutation_frame(mutation, b, x).len());
    }
    let front = utf8("{\"mutation\":\""@) + utf8(mutation) + utf8("\",\"actor\":\""@) + utf8(actor_text(a)) + utf8(
        "\",\"input\":"@,
    );
    let other = mutation_frame(mutation, a, y);
    if one == other {
        let n = front.len() as int;
        assert(one.len() == front.len() + x.len() + utf8("}"@).len());
        assert(other.len() == front.len() + y.len() + utf8("}"@).len());
        assert(x =~= one.subrange(n, n + x.len()));
        assert(y =~= other.subrange(n, n + y.len()));
    }
}

} // verus!
