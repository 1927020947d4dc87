//! Digests: what is hashed, under which key, and how digests are ordered.
use vstd::prelude::*;
use crate::bytes::{
    append_bytes, be, be_bytes, be_len, be_of_be_value, be_value, be_value_of_be, be_value_orders,
    bytes_before, parts_agree, span_values,
};
use crate::order::Keyed;
use crate::records::evidence::Actor;
use crate::text::{text_bytes, utf8};

verus! {

/// What `blake3::keyed_hash` returns for a key and an input.
pub uninterp spec fn keyed_digest(key: Seq<u8>, input: Seq<u8>) -> [u8; 32];

/// Calls `blake3::keyed_hash` and names the bytes of the hash that it returns.
#[verifier::external_body]
fn keyed_hash(key: &[u8; 32], input: &[u8]) -> (r: [u8; 32])
    ensures
        r == keyed_digest(key@, input@),
{
    *blake3::keyed_hash(key, input).as_bytes()
}

/// What `blake3::hash` returns for an input.
pub uninterp spec fn content_digest(input: Seq<u8>) -> [u8; 32];

/// Calls `blake3::hash` and names the bytes of the hash that it returns.
#[verifier::external_body]
pub(crate) fn content_hash(input: &[u8]) -> (r: [u8; 32])
    ensures
        r == content_digest(input@),
{
    *blake3::hash(input).as_bytes()
}

/// Two byte strings that differ first in one place are ordered one way only.
proof fn before_is_asymmetric(a: Seq<u8>, b: Seq<u8>)
    requires
        a.len() == b.len(),
        bytes_before(a, b),
    ensures
        !bytes_before(b, a),
        a != b,
{
    let i = choose|i: int|
        0 <= i < a.len() && i < b.len() && (#[trigger] a[i]) < b[i] && a.take(i) == b.take(i);
    if bytes_before(b, a) {
        let j = choose|j: int|
            0 <= j < b.len() && j < a.len() && (#[trigger] b[j]) < a[j] && b.take(j) == a.take(j);
        if i < j {
            assert(a.take(j)[i] == b.take(j)[i]);
        } else if j < i {
            assert(a.take(i)[j] == b.take(i)[j]);
        }
    }
}

/// The order of byte strings of one length is the order of the numbers they spell.
pub proof fn before_orders_values(a: Seq<u8>, b: Seq<u8>)
    requires
        a.len() == b.len(),
        bytes_before(a, b),
    ensures
        be_value(a) < be_value(b),
{
    before_is_asymmetric(a, b);
    if be_value(b) < be_value(a) {
        be_value_orders(b, a);
    } else if be_value(a) == be_value(b) {
        be_of_be_value(a);
        be_of_be_value(b);
    }
}

impl Keyed for [u8; 32] {
    open spec fn rank(&self) -> int {
        be_value(self@)
    }

    proof fn rank_is_injective(a: &Self, b: &Self) {
        be_of_be_value(a@);
        be_of_be_value(b@);
        assert(a@ =~= b@);
        assert(*a =~= *b);
    }

    fn before(&self, other: &Self) -> (r: bool) {
        let mut i: usize = 0;
        while i < 32
            invariant
                i <= 32,
                self@.take(i as int) == other@.take(i as int),
            decreases 32 - i,
        {
            if self[i] < other[i] {
                proof {
                    assert(self@[i as int] < other@[i as int]);
                    before_orders_values(self@, other@);
                }
                return true;
            }
            if self[i] > other[i] {
                proof {
                    assert(other@[i as int] < self@[i as int]);
                    before_orders_values(other@, self@);
                }
                return false;
            }
            assert(self@.take(i + 1) =~= self@.take(i as int).push(self@[i as int]));
            assert(other@.take(i + 1) =~= other@.take(i as int).push(other@[i as int]));
            i = i + 1;
        }
        assert(self@.take(32) =~= self@);
        assert(other@.take(32) =~= other@);
        false
    }
}

pub fn same_digest(a: &[u8; 32], b: &[u8; 32]) -> (r: bool)
    ensures
        r == (*a == *b),
{
    if a.before(b) || b.before(a) {
        false
    } else {
        proof {
            <[u8; 32]>::rank_is_injective(a, b);
        }
        true
    }
}

/// What separates the uses of one key from each other.
pub const TERM_DOMAIN: u8 = 0x01;

pub const EXACT_DOMAIN: u8 = 0x02;

pub const QUERY_DOMAIN: u8 = 0x03;

pub const PURGE_DOMAIN: u8 = 0x04;

pub const SOURCE_EVENT_DOMAIN: u8 = 0x05;

pub const FINGERPRINT_DOMAIN: u8 = 0x20;

/// The digest of a value within one domain of a store's key.
pub open spec fn index_digest(key: Seq<u8>, domain: u8, value: Seq<u8>) -> [u8; 32] {
    keyed_digest(key, seq![domain] + value)
}

pub fn index_hash(key: &[u8; 32], domain: u8, value: &[u8]) -> (r: [u8; 32])
    ensures
        r == index_digest(key@, domain, value@),
{
    let mut input: Vec<u8> = Vec::new();
    input.push(domain);
    append_bytes(&mut input, value);
    assert(input@ =~= seq![domain] + value@);
    keyed_hash(key, input.as_slice())
}

/// The word for an actor.
pub open spec fn actor_text(actor: Actor) -> Seq<char> {
    match actor {
        Actor::User => "User"@,
        Actor::Assistant => "Assistant"@,
        Actor::System => "System"@,
        Actor::Operator => "Operator"@,
    }
}

fn actor_name(actor: Actor) -> (r: &'static str)
    ensures
        r@ == actor_text(actor),
{
    match actor {
        Actor::User => "User",
        Actor::Assistant => "Assistant",
        Actor::System => "System",
        Actor::Operator => "Operator",
    }
}

/// The object with the members `mutation`, `actor` and `input` whose last member
/// is the encoded request.
pub open spec fn mutation_frame(mutation: Seq<char>, actor: Actor, request: Seq<u8>) -> Seq<u8> {
    utf8("{\"mutation\":\""@) + utf8(mutation) + utf8("\",\"actor\":\""@) + utf8(actor_text(actor)) + utf8(
        "\",\"input\":"@,
    ) + request + utf8("}"@)
}

/// The digest by which a retried mutation is recognised.
pub open spec fn mutation_digest_of(
    key: Seq<u8>,
    mutation: Seq<char>,
    actor: Actor,
    request: Seq<u8>,
) -> [u8; 32] {
    keyed_digest(key, mutation_frame(mutation, actor, request))
}

pub fn mutation_digest(key: &[u8; 32], mutation: &str, actor: Actor, request: &[u8]) -> (r: [u8; 32])
    ensures
        r == mutation_digest_of(key@, mutation@, actor, request@),
{
    let mut frame: Vec<u8> = Vec::new();
    append_bytes(&mut frame, text_bytes("{\"mutation\":\""));
    append_bytes(&mut frame, text_bytes(mutation));
    append_bytes(&mut frame, text_bytes("\",\"actor\":\""));
    append_bytes(&mut frame, text_bytes(actor_name(actor)));
    append_bytes(&mut frame, text_bytes("\",\"input\":"));
    append_bytes(&mut frame, request);
    append_bytes(&mut frame, text_bytes("}"));
    assert(frame@ =~= mutation_frame(mutation@, actor, request@));
    keyed_hash(key, frame.as_slice())
}

/// The byte for an actor.
pub open spec fn actor_tag_of(actor: Actor) -> u8 {
    match actor {
        Actor::User => 0x01,
        Actor::Assistant => 0x02,
        Actor::System => 0x03,
        Actor::Operator => 0x04,
    }
}

pub fn actor_tag(actor: Actor) -> (r: u8)
    ensures
        r == actor_tag_of(actor),
{
    match actor {
        Actor::User => 0x01,
        Actor::Assistant => 0x02,
        Actor::System => 0x03,
        Actor::Operator => 0x04,
    }
}

/// A value behind its length.
pub open spec fn framed(value: Seq<u8>) -> Seq<u8> {
    be(value.len() as int, 8) + value
}

pub fn append_framed(bytes: &mut Vec<u8>, value: &[u8])
    ensures
        final(bytes)@ == old(bytes)@ + framed(value@),
{
    let length = be_bytes(value.len() as u128, 8);
    append_bytes(bytes, length.as_slice());
    append_bytes(bytes, value);
    assert(bytes@ =~= old(bytes)@ + framed(value@));
}

/// The digest by which a retried import of a snapshot is recognised. The bytes of
/// the snapshot stand beside the encoded description, not in it.
pub open spec fn snapshot_mutation_digest_of(
    key: Seq<u8>,
    actor: Actor,
    metadata: Seq<u8>,
    content: Seq<u8>,
) -> [u8; 32] {
    keyed_digest(
        key,
        framed(utf8("import_artifact_snapshot"@)) + framed(seq![actor_tag_of(actor)]) + framed(metadata)
            + framed(content),
    )
}

pub fn artifact_snapshot_mutation_digest(
    key: &[u8; 32],
    actor: Actor,
    metadata: &[u8],
    content: &[u8],
) -> (r: [u8; 32])
    ensures
        r == snapshot_mutation_digest_of(key@, actor, metadata@, content@),
{
    let mut frame: Vec<u8> = Vec::new();
    let mut tag: Vec<u8> = Vec::new();
    tag.push(actor_tag(actor));
    append_framed(&mut frame, text_bytes("import_artifact_snapshot"));
    append_framed(&mut frame, tag.as_slice());
    append_framed(&mut frame, metadata);
    append_framed(&mut frame, content);
    proof {
        assert(tag@ =~= seq![actor_tag_of(actor)]);
        assert(frame@ =~= framed(utf8("import_artifact_snapshot"@)) + framed(seq![actor_tag_of(actor)])
            + framed(metadata@) + framed(content@));
    }
    keyed_hash(key, frame.as_slice())
}

/// Values behind their lengths can be told apart again: what follows one does not
/// reach into it.
pub proof fn frames_are_unambiguous(a: Seq<u8>, b: Seq<u8>, x: Seq<u8>, y: Seq<u8>)
    requires
        framed(a) + x == framed(b) + y,
        a.len() <= u64::MAX,
        b.len() <= u64::MAX,
    ensures
        a == b,
        x == y,
{
    be_len(a.len() as int, 8);
    be_len(b.len() as int, 8);
    span_values();
    be_value_of_be(a.len() as int, 8);
    be_value_of_be(b.len() as int, 8);
    assert(framed(a) + x =~= be(a.len() as int, 8) + (a + x));
    assert(framed(b) + y =~= be(b.len() as int, 8) + (b + y));
    parts_agree(be(a.len() as int, 8), be(b.len() as int, 8), a + x, b + y);
    parts_agree(a, b, x, y);
}

} // verus!
