//! The byte form by which the token of a purge preview seals what the preview says.
use vstd::prelude::*;
use crate::bytes::{
    append_bytes, be, be_bytes, be_len, be_value_of_be, parts_agree, span, span_values,
};
use crate::ids::{ActivationTraceId, EraId, Ulid};
use crate::keybytes::{
    id_bytes, id_key, id_key_round_trip, ordered_time, record_bytes, record_key,
    record_key_round_trip,
};
use crate::keys::time_rank;
use crate::records::audit::{
    PurgeDependency, PurgePreview, PurgePreviewModel, RelationSignalPurgeDependency,
};
use crate::records::evidence::RecordRef;

verus! {

/// The byte form of a list of dependents: each marked, the end unmarked.
pub open spec fn dependents_frame(items: Seq<PurgeDependency>) -> Seq<u8>
    decreases items.len(),
{
    if items.len() == 0 {
        seq![0u8]
    } else {
        seq![1u8] + record_bytes(items[0].record) + be(items[0].expected_revision as int, 8) + dependents_frame(
            items.skip(1),
        )
    }
}

/// The byte form of a list of signals: each marked, the end unmarked.
pub open spec fn signals_frame(items: Seq<RelationSignalPurgeDependency>) -> Seq<u8>
    decreases items.len(),
{
    if items.len() == 0 {
        seq![0u8]
    } else {
        seq![1u8] + id_bytes(items[0].signal.id.0) + be(items[0].signal.revision as int, 8) + signals_frame(
            items.skip(1),
        )
    }
}

/// The byte form of a list of traces: each marked, the end unmarked.
pub open spec fn traces_frame(items: Seq<ActivationTraceId>) -> Seq<u8>
    decreases items.len(),
{
    if items.len() == 0 {
        seq![0u8]
    } else {
        seq![1u8] + id_bytes(items[0].0) + traces_frame(items.skip(1))
    }
}

/// The byte form of the parts of a preview that have a fixed size.
pub open spec fn purge_head(era_id: EraId, preview: PurgePreviewModel) -> Seq<u8> {
    id_bytes(era_id.0) + record_bytes(preview.target) + be(preview.expected_revision as int, 8) + be(
        preview.payloads_to_make_unavailable as int,
        4,
    ) + be(time_rank(preview.issued_at_ms), 8) + be(time_rank(preview.expires_at_ms), 8)
}

/// The byte form of a preview, but for its token.
#[verifier::opaque]
pub open spec fn purge_frame(era_id: EraId, preview: PurgePreviewModel) -> Seq<u8> {
    purge_head(era_id, preview) + dependents_frame(preview.invalidations) + signals_frame(
        preview.relation_signal_invalidations,
    ) + traces_frame(preview.activation_trace_invalidations)
}

proof fn numbers_agree(x: int, y: int, n: nat)
    requires
        0 <= x < span(n),
        0 <= y < span(n),
        be(x, n) == be(y, n),
    ensures
        x == y,
{
    be_value_of_be(x, n);
    be_value_of_be(y, n);
}

proof fn ids_agree(a: Ulid, b: Ulid)
    requires
        id_bytes(a) == id_bytes(b),
    ensures
        a == b,
{
    id_key_round_trip(a);
    id_key_round_trip(b);
}

proof fn records_agree(a: RecordRef, b: RecordRef)
    requires
        record_bytes(a) == record_bytes(b),
    ensures
        a == b,
{
    record_key_round_trip(a);
    record_key_round_trip(b);
}

proof fn dependents_agree(a: Seq<PurgeDependency>, b: Seq<PurgeDependency>, x: Seq<u8>, y: Seq<u8>)
    requires
        dependents_frame(a) + x == dependents_frame(b) + y,
    ensures
        a == b,
        x == y,
    decreases a.len() + b.len(),
{
    assert(dependents_frame(a)[0] == (dependents_frame(a) + x)[0]);
    assert(dependents_frame(b)[0] == (dependents_frame(b) + y)[0]);
    assert(dependents_frame(a)[0] == (if a.len() == 0 { 0u8 } else { 1u8 }));
    assert(dependents_frame(b)[0] == (if b.len() == 0 { 0u8 } else { 1u8 }));
    if a.len() == 0 || b.len() == 0 {
        assert(a =~= b);
        parts_agree(seq![0u8], seq![0u8], x, y);
    } else {
        span_values();
        let p = seq![1u8] + record_bytes(a[0].record) + be(a[0].expected_revision as int, 8);
        let q = seq![1u8] + record_bytes(b[0].record) + be(b[0].expected_revision as int, 8);
        record_key_round_trip(a[0].record);
        record_key_round_trip(b[0].record);
        be_len(a[0].expected_revision as int, 8);
        be_len(b[0].expected_revision as int, 8);
        assert(dependents_frame(a) + x =~= p + (dependents_frame(a.skip(1)) + x));
        assert(dependents_frame(b) + y =~= q + (dependents_frame(b.skip(1)) + y));
        parts_agree(p, q, dependents_frame(a.skip(1)) + x, dependents_frame(b.skip(1)) + y);
        parts_agree(
            seq![1u8] + record_bytes(a[0].record),
            seq![1u8] + record_bytes(b[0].record),
            be(a[0].expected_revision as int, 8),
            be(b[0].expected_revision as int, 8),
        );
        parts_agree(seq![1u8], seq![1u8], record_bytes(a[0].record), record_bytes(b[0].record));
        records_agree(a[0].record, b[0].record);
        numbers_agree(a[0].expected_revision as int, b[0].expected_revision as int, 8);
        dependents_agree(a.skip(1), b.skip(1), x, y);
        assert(a =~= seq![a[0]] + a.skip(1));
        assert(b =~= seq![b[0]] + b.skip(1));
    }
}

proof fn signals_agree(
    a: Seq<RelationSignalPurgeDependency>,
    b: Seq<RelationSignalPurgeDependency>,
    x: Seq<u8>,
    y: Seq<u8>,
)
    requires
        signals_frame(a) + x == signals_frame(b) + y,
    ensures
        a == b,
        x == y,
    decreases a.len() + b.len(),
{
    assert(signals_frame(a)[0] == (signals_frame(a) + x)[0]);
    assert(signals_frame(b)[0] == (signals_frame(b) + y)[0]);
    assert(signals_frame(a)[0] == (if a.len() == 0 { 0u8 } else { 1u8 }));
    assert(signals_frame(b)[0] == (if b.len() == 0 { 0u8 } else { 1u8 }));
    if a.len() == 0 || b.len() == 0 {
        assert(a =~= b);
        parts_agree(seq![0u8], seq![0u8], x, y);
    } else {
        span_values();
        let p = seq![1u8] + id_bytes(a[0].signal.id.0) + be(a[0].signal.revision as int, 8);
        let q = seq![1u8] + id_bytes(b[0].signal.id.0) + be(b[0].signal.revision as int, 8);
        id_key_round_trip(a[0].signal.id.0);
        id_key_round_trip(b[0].signal.id.0);
        be_len(a[0].signal.revision as int, 8);
        be_len(b[0].signal.revision as int, 8);
        assert(signals_frame(a) + x =~= p + (signals_frame(a.skip(1)) + x));
        assert(signals_frame(b) + y =~= q + (signals_frame(b.skip(1)) + y));
        parts_agree(p, q, signals_frame(a.skip(1)) + x, signals_frame(b.skip(1)) + y);
        parts_agree(
            seq![1u8] + id_bytes(a[0].signal.id.0),
            seq![1u8] + id_bytes(b[0].signal.id.0),
            be(a[0].signal.revision as int, 8),
            be(b[0].signal.revision as int, 8),
        );
        parts_agree(seq![1u8], seq![1u8], id_bytes(a[0].signal.id.0), id_bytes(b[0].signal.id.0));
        ids_agree(a[0].signal.id.0, b[0].signal.id.0);
        numbers_agree(a[0].signal.revision as int, b[0].signal.revision as int, 8);
        signals_agree(a.skip(1), b.skip(1), x, y);
        assert(a =~= seq![a[0]] + a.skip(1));
        assert(b =~= seq![b[0]] + b.skip(1));
    }
}

proof fn traces_agree(a: Seq<ActivationTraceId>, b: Seq<ActivationTraceId>)
    requires
        traces_frame(a) == traces_frame(b),
    ensures
        a == b,
    decreases a.len() + b.len(),
{
    assert(traces_frame(a)[0] == (if a.len() == 0 { 0u8 } else { 1u8 }));
    assert(traces_frame(b)[0] == (if b.len() == 0 { 0u8 } else { 1u8 }));
    if a.len() == 0 || b.len() == 0 {
        assert(a =~= b);
    } else {
        id_key_round_trip(a[0].0);
        id_key_round_trip(b[0].0);
        parts_agree(
            seq![1u8] + id_bytes(a[0].0),
            seq![1u8] + id_bytes(b[0].0),
            traces_frame(a.skip(1)),
            traces_frame(b.skip(1)),
        );
        parts_agree(seq![1u8], seq![1u8], id_bytes(a[0].0), id_bytes(b[0].0));
        ids_agree(a[0].0, b[0].0);
        traces_agree(a.skip(1), b.skip(1));
        assert(a =~= seq![a[0]] + a.skip(1));
        assert(b =~= seq![b[0]] + b.skip(1));
    }
}

proof fn heads_agree(a: EraId, p: PurgePreviewModel, b: EraId, q: PurgePreviewModel)
    requires
        purge_head(a, p) == purge_head(b, q),
    ensures
        a == b,
        p.target == q.target,
        p.expected_revision == q.expected_revision,
        p.payloads_to_make_unavailable == q.payloads_to_make_unavailable,
        p.issued_at_ms == q.issued_at_ms,
        p.expires_at_ms == q.expires_at_ms,
{
    span_values();
    head_len(a, p);
    head_len(b, q);
    let (a1, b1) = (id_bytes(a.0), id_bytes(b.0));
    let (a2, b2) = (record_bytes(p.target), record_bytes(q.target));
    let (a3, b3) = (be(p.expected_revision as int, 8), be(q.expected_revision as int, 8));
    let (a4, b4) = (
        be(p.payloads_to_make_unavailable as int, 4),
        be(q.payloads_to_make_unavailable as int, 4),
    );
    let (a5, b5) = (be(time_rank(p.issued_at_ms), 8), be(time_rank(q.issued_at_ms), 8));
    let (a6, b6) = (be(time_rank(p.expires_at_ms), 8), be(time_rank(q.expires_at_ms), 8));
    parts_agree(a1 + a2 + a3 + a4 + a5, b1 + b2 + b3 + b4 + b5, a6, b6);
    parts_agree(a1 + a2 + a3 + a4, b1 + b2 + b3 + b4, a5, b5);
    parts_agree(a1 + a2 + a3, b1 + b2 + b3, a4, b4);
    parts_agree(a1 + a2, b1 + b2, a3, b3);
    parts_agree(a1, b1, a2, b2);
    ids_agree(a.0, b.0);
    records_agree(p.target, q.target);
    numbers_agree(p.expected_revision as int, q.expected_revision as int, 8);
    numbers_agree(p.payloads_to_make_unavailable as int, q.payloads_to_make_unavailable as int, 4);
    numbers_agree(time_rank(p.issued_at_ms), time_rank(q.issued_at_ms), 8);
    numbers_agree(time_rank(p.expires_at_ms), time_rank(q.expires_at_ms), 8);
}

proof fn head_len(a: EraId, p: PurgePreviewModel)
    ensures
        id_bytes(a.0).len() == 16,
        record_bytes(p.target).len() == 17,
        be(p.expected_revision as int, 8).len() == 8,
        be(p.payloads_to_make_unavailable as int, 4).len() == 4,
        be(time_rank(p.issued_at_ms), 8).len() == 8,
        be(time_rank(p.expires_at_ms), 8).len() == 8,
        purge_head(a, p).len() == 61,
{
    id_key_round_trip(a.0);
    record_key_round_trip(p.target);
    be_len(p.expected_revision as int, 8);
    be_len(p.payloads_to_make_unavailable as int, 4);
    be_len(time_rank(p.issued_at_ms), 8);
    be_len(time_rank(p.expires_at_ms), 8);
}

/// What a token seals is one preview of one era: byte forms that agree come from previews
/// that agree in everything but their tokens.
pub proof fn purge_frames_are_unambiguous(a: EraId, p: PurgePreviewModel, b: EraId, q: PurgePreviewModel)
    requires
        purge_frame(a, p) == purge_frame(b, q),
    ensures
        a == b,
        p == (PurgePreviewModel { token: p.token, ..q }),
{
    reveal(purge_frame);
    head_len(a, p);
    head_len(b, q);
    let x = signals_frame(p.relation_signal_invalidations) + traces_frame(p.activation_trace_invalidations);
    let y = signals_frame(q.relation_signal_invalidations) + traces_frame(q.activation_trace_invalidations);
    assert(purge_frame(a, p) =~= purge_head(a, p) + (dependents_frame(p.invalidations) + x));
    assert(purge_frame(b, q) =~= purge_head(b, q) + (dependents_frame(q.invalidations) + y));
    parts_agree(
        purge_head(a, p),
        purge_head(b, q),
        dependents_frame(p.invalidations) + x,
        dependents_frame(q.invalidations) + y,
    );
    heads_agree(a, p, b, q);
    dependents_agree(p.invalidations, q.invalidations, x, y);
    signals_agree(
        p.relation_signal_invalidations,
        q.relation_signal_invalidations,
        traces_frame(p.activation_trace_invalidations),
        traces_frame(q.activation_trace_invalidations),
    );
    traces_agree(p.activation_trace_invalidations, q.activation_trace_invalidations);
}

fn append_dependents(bytes: &mut Vec<u8>, items: &Vec<PurgeDependency>)
    ensures
        final(bytes)@ == old(bytes)@ + dependents_frame(items@),
{
    let ghost start = bytes@;
    assert(items@.skip(0) =~= items@);
    for i in 0..items.len()
        invariant
            start + dependents_frame(items@) == bytes@ + dependents_frame(items@.skip(i as int)),
    {
        let ghost before = bytes@;
        bytes.push(1);
        append_bytes(bytes, record_key(items[i].record).as_slice());
        append_bytes(bytes, be_bytes(items[i].expected_revision as u128, 8).as_slice());
        proof {
            let rest = items@.skip(i as int);
            assert(rest[0] == items@[i as int]);
            assert(rest.skip(1) =~= items@.skip(i + 1));
            assert(bytes@ + dependents_frame(items@.skip(i + 1)) =~= before + dependents_frame(rest));
        }
    }
    bytes.push(0);
    assert(bytes@ =~= start + dependents_frame(items@)) by {
        assert(dependents_frame(items@.skip(items@.len() as int)) =~= seq![0u8]);
    }
}

fn append_signals(bytes: &mut Vec<u8>, items: &Vec<RelationSignalPurgeDependency>)
    ensures
        final(bytes)@ == old(bytes)@ + signals_frame(items@),
{
    let ghost start = bytes@;
    assert(items@.skip(0) =~= items@);
    for i in 0..items.len()
        invariant
            start + signals_frame(items@) == bytes@ + signals_frame(items@.skip(i as int)),
    {
        let ghost before = bytes@;
        bytes.push(1);
        append_bytes(bytes, id_key(items[i].signal.id.0).as_slice());
        append_bytes(bytes, be_bytes(items[i].signal.revision as u128, 8).as_slice());
        proof {
            let rest = items@.skip(i as int);
            assert(rest[0] == items@[i as int]);
            assert(rest.skip(1) =~= items@.skip(i + 1));
            assert(bytes@ + signals_frame(items@.skip(i + 1)) =~= before + signals_frame(rest));
        }
    }
    bytes.push(0);
    assert(bytes@ =~= start + signals_frame(items@)) by {
        assert(signals_frame(items@.skip(items@.len() as int)) =~= seq![0u8]);
    }
}

fn append_traces(bytes: &mut Vec<u8>, items: &Vec<ActivationTraceId>)
    ensures
        final(bytes)@ == old(bytes)@ + traces_frame(items@),
{
    let ghost start = bytes@;
    assert(items@.skip(0) =~= items@);
    for i in 0..items.len()
        invariant
            start + traces_frame(items@) == bytes@ + traces_frame(items@.skip(i as int)),
    {
        let ghost before = bytes@;
        bytes.push(1);
        append_bytes(bytes, id_key(items[i].0).as_slice());
        proof {
            let rest = items@.skip(i as int);
            assert(rest[0] == items@[i as int]);
            assert(rest.skip(1) =~= items@.skip(i + 1));
            assert(bytes@ + traces_frame(items@.skip(i + 1)) =~= before + traces_frame(rest));
        }
    }
    bytes.push(0);
    assert(bytes@ =~= start + traces_frame(items@)) by {
        assert(traces_frame(items@.skip(items@.len() as int)) =~= seq![0u8]);
    }
}

/// Spells out a preview, but for its token.
pub fn purge_token_input(era_id: EraId, preview: &PurgePreview) -> (r: Vec<u8>)
    ensures
        r@ == purge_frame(era_id, preview@),
{
    reveal(purge_frame);
    let mut bytes: Vec<u8> = id_key(era_id.0);
    append_bytes(&mut bytes, record_key(preview.target).as_slice());
    append_bytes(&mut bytes, be_bytes(preview.expected_revision as u128, 8).as_slice());
    append_bytes(&mut bytes, be_bytes(preview.payloads_to_make_unavailable as u128, 4).as_slice());
    append_bytes(&mut bytes, be_bytes(ordered_time(preview.issued_at_ms) as u128, 8).as_slice());
    append_bytes(&mut bytes, be_bytes(ordered_time(preview.expires_at_ms) as u128, 8).as_slice());
    append_dependents(&mut bytes, &preview.invalidations);
    append_signals(&mut bytes, &preview.relation_signal_invalidations);
    append_traces(&mut bytes, &preview.activation_trace_invalidations);
    bytes
}

} // verus!
