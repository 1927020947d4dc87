//! What memories testify to: which of them answer a query, with which score, and what is
//! said for each.

use vstd::prelude::*;
use crate::candidates::{
    ScoredNode, drafted_of, greater_score, no_number, number_rank, placed, placed_are,
    placed_is_finite, with_lexical, with_paths, with_vectors,
};
use crate::embedding::{covers, has_value};
use crate::ids::Ulid;
use crate::inspect::lookup;
use crate::order::{Keyed, in_order, in_order_lists};
use crate::records::graph::{
    EvidenceDraftModel, GraphPathModel, LexicalHitModel, NodeFactsModel, RecallEvidenceModel,
    RecallFilterModel, VectorEvidenceModel, VectorHit,
};
use crate::snapshot::SnapshotModel;

verus! {

/// Numbers of single precision stand in the order of their values: positive ones by their
/// bits, negative ones the other way round and before all others.
pub proof fn numbers_stand_in_order(a: u32, b: u32)
    ensures
        a < 0x8000_0000 && b < 0x8000_0000 ==> (number_rank(a) < number_rank(b) <==> a < b),
        a >= 0x8000_0000 && b >= 0x8000_0000 ==> (number_rank(a) < number_rank(b) <==> a > b),
        a >= 0x8000_0000 && b < 0x8000_0000 ==> number_rank(a) < number_rank(b),
        number_rank(a) == number_rank(b) ==> a == b,
{
}

/// Of two scores the greater one is taken, and of a score and something that is no number
/// the score.
pub proof fn greater_scores_are_taken(a: u32, b: u32)
    ensures
        greater_score(a, b) == a || greater_score(a, b) == b,
        !no_number(a) && !no_number(b) ==> number_rank(greater_score(a, b)) >= number_rank(a) && number_rank(
            greater_score(a, b),
        ) >= number_rank(b),
        no_number(a) && !no_number(b) ==> greater_score(a, b) == b,
        !no_number(a) && no_number(b) ==> greater_score(a, b) == a,
        no_number(a) <==> (0x7f80_0000 < a < 0x8000_0000 || a > 0xff80_0000),
{
}

/// A memory answers a filter if it is of one of the kinds that are asked for, where any
/// are, and carries everything that is asked for.
pub proof fn filters_ask_for_all(filter: RecallFilterModel, node: NodeFactsModel)
    ensures
        filter.matches(node) <==> {
            &&& filter.kinds.len() > 0 ==> exists|k: int| 0 <= k < filter.kinds.len() && filter.kinds[k] == node.kind
            &&& covers(node.metadata, filter.metadata)
        },
{
    let wanted = filter.metadata;
    assert forall|i: int| 0 <= i < wanted.len() implies RecallFilterModel::carries(
        node,
        (#[trigger] wanted[i]).key,
        wanted[i].value,
    ) == has_value(node.metadata, wanted[i].key, wanted[i].value) by {
        let entry = wanted[i];
        if RecallFilterModel::carries(node, entry.key, entry.value) {
            let j = choose|j: int|
                0 <= j < node.metadata.len() && (#[trigger] node.metadata[j]).key == entry.key && node.metadata[j].value
                    == entry.value;
            assert(node.metadata[j].key == entry.key);
        }
        if has_value(node.metadata, entry.key, entry.value) {
            let j = choose|j: int|
                0 <= j < node.metadata.len() && (#[trigger] node.metadata[j]).key == entry.key && node.metadata[j].value
                    == entry.value;
            assert(node.metadata[j].key == entry.key);
        }
    }
    if filter.matches(node) {
        assert forall|i: int| 0 <= i < wanted.len() implies has_value(
            node.metadata,
            (#[trigger] wanted[i]).key,
            wanted[i].value,
        ) by {
            assert(RecallFilterModel::carries(node, wanted[i].key, wanted[i].value));
        }
        if filter.kinds.len() > 0 {
            let k = filter.kinds.index_of(node.kind);
            assert(filter.kinds[k] == node.kind);
        }
    }
    if covers(node.metadata, wanted) {
        assert forall|i: int| 0 <= i < wanted.len() implies RecallFilterModel::carries(
            node,
            (#[trigger] wanted[i]).key,
            wanted[i].value,
        ) by {
            assert(has_value(node.metadata, wanted[i].key, wanted[i].value));
        }
    }
}

/// Where only what is verified is wanted, a memory is answered with if it is verified or
/// carries a key that stands for trust; and a fact that carries none has to be traced to
/// something to be considered. A memory is verified if it is no fact or is traced to
/// something.
pub proof fn trust_is_earned(
    s: SnapshotModel,
    filter: RecallFilterModel,
    node: NodeFactsModel,
    id: Ulid,
    score_bits: u32,
    draft: EvidenceDraftModel,
    verified: bool,
)
    ensures
        ({
            let trusted = exists|i: int, j: int|
                0 <= i < filter.allow_unverified_metadata_keys.len() && 0 <= j < node.metadata.len() && (
                #[trigger] node.metadata[j]).key == #[trigger] filter.allow_unverified_metadata_keys[i];
            &&& filter.accepts_trust(node, verified) <==> (!filter.require_verified || verified || trusted)
            &&& filter.requires_provenance(node) <==> (filter.require_verified && node.fact && !trusted)
        }),
        s.evidence_of(node, id, score_bits, draft).verified <==> (!node.fact || in_order(s.sources_of(id)).len() > 0),
        s.is_candidate(id, filter) <==> (s.nodes.contains_key(id) && s.nodes[id].valid && filter.matches(s.nodes[id])
            && (filter.requires_provenance(s.nodes[id]) ==> in_order(s.sources_of(id)).len() > 0)),
{
    let trusted = exists|i: int, j: int|
        0 <= i < filter.allow_unverified_metadata_keys.len() && 0 <= j < node.metadata.len() && (
        #[trigger] node.metadata[j]).key == #[trigger] filter.allow_unverified_metadata_keys[i];
    assert(filter.allows_unverified(node) <==> trusted) by {
        if filter.allows_unverified(node) {
            let i = choose|i: int|
                0 <= i < filter.allow_unverified_metadata_keys.len() && RecallFilterModel::carries_key(
                    node,
                    #[trigger] filter.allow_unverified_metadata_keys[i],
                );
            let j = choose|j: int|
                0 <= j < node.metadata.len() && (#[trigger] node.metadata[j]).key
                    == filter.allow_unverified_metadata_keys[i];
            assert(node.metadata[j].key == filter.allow_unverified_metadata_keys[i]);
        }
        if trusted {
            let (i, j) = choose|i: int, j: int|
                0 <= i < filter.allow_unverified_metadata_keys.len() && 0 <= j < node.metadata.len() && (
                #[trigger] node.metadata[j]).key == #[trigger] filter.allow_unverified_metadata_keys[i];
            assert(RecallFilterModel::carries_key(node, filter.allow_unverified_metadata_keys[i]));
        }
    }
}

/// What is said of a memory that answers: the memory, its score, what its draft gathered,
/// what it is traced to and what contradicts it.
pub proof fn evidence_says_what_was_gathered(
    s: SnapshotModel,
    node: NodeFactsModel,
    id: Ulid,
    score_bits: u32,
    draft: EvidenceDraftModel,
)
    ensures
        ({
            let said = s.evidence_of(node, id, score_bits, draft);
            &&& said.node == node && said.score_bits == score_bits
            &&& said.lexical_score_bits == draft.lexical_score_bits && said.lexical_rank == draft.lexical_rank
            &&& said.lexical_terms == draft.lexical_terms && said.vectors == draft.vectors
            &&& said.graph_paths == draft.graph_paths
            &&& said.provenance == in_order(s.sources_of(id)) && said.conflicts == in_order(s.opponents_of(id))
        }),
{
}

proof fn those_that_answer(
    s: SnapshotModel,
    ids: Seq<Ulid>,
    drafts: Map<Ulid, EvidenceDraftModel>,
    scores: Map<Ulid, u32>,
    filter: RecallFilterModel,
    n: nat,
    item: RecallEvidenceModel,
)
    requires
        n <= ids.len(),
    ensures
        s.answering(ids, drafts, scores, filter, n).contains(item) <==> exists|i: int|
            0 <= i < n && s.nodes.contains_key(#[trigger] ids[i]) && s.nodes[ids[i]].valid && filter.matches(
                s.nodes[ids[i]],
            ) && item == s.evidence_of(
                s.nodes[ids[i]],
                ids[i],
                SnapshotModel::score_of(scores, ids[i]),
                drafted_of(drafts, ids[i]),
            ),
    decreases n,
{
    if n > 0 {
        let m = (n - 1) as nat;
        those_that_answer(s, ids, drafts, scores, filter, m, item);
        let before = s.answering(ids, drafts, scores, filter, m);
        let now = s.answering(ids, drafts, scores, filter, n);
        let id = ids[m as int];
        if now.contains(item) {
            let k = now.index_of(item);
            assert(now[k] == item);
            if k < before.len() {
                assert(before[k] == item);
                assert(before.contains(item));
            } else {
                assert(s.nodes.contains_key(ids[m as int]));
            }
        }
        if before.contains(item) {
            let k = before.index_of(item);
            assert(now[k] == item);
        }
        if s.nodes.contains_key(id) && s.nodes[id].valid && filter.matches(s.nodes[id]) {
            assert(now[before.len() as int] == s.evidence_of(
                s.nodes[id],
                id,
                SnapshotModel::score_of(scores, id),
                drafted_of(drafts, id),
            ));
        }
        if exists|i: int|
            0 <= i < n && s.nodes.contains_key(#[trigger] ids[i]) && s.nodes[ids[i]].valid && filter.matches(
                s.nodes[ids[i]],
            ) && item == s.evidence_of(
                s.nodes[ids[i]],
                ids[i],
                SnapshotModel::score_of(scores, ids[i]),
                drafted_of(drafts, ids[i]),
            ) {
            let i = choose|i: int|
                0 <= i < n && s.nodes.contains_key(#[trigger] ids[i]) && s.nodes[ids[i]].valid && filter.matches(
                    s.nodes[ids[i]],
                ) && item == s.evidence_of(
                    s.nodes[ids[i]],
                    ids[i],
                    SnapshotModel::score_of(scores, ids[i]),
                    drafted_of(drafts, ids[i]),
                );
            if i < m {
                assert(s.nodes.contains_key(ids[i]));
                assert(before.contains(item));
            } else {
                assert(now.contains(item));
            }
        }
    }
}

proof fn trusted_are_placed(evidence: Seq<RecallEvidenceModel>, filter: RecallFilterModel, n: nat, k: int)
    requires
        0 <= k < n <= evidence.len(),
        filter.accepts_trust(evidence[k].node, evidence[k].verified),
    ensures
        placed(evidence, filter, n).contains_key(
            ScoredNode { score_bits: evidence[k].score_bits, id: evidence[k].node.id },
        ),
    decreases n,
{
    if k < n - 1 {
        trusted_are_placed(evidence, filter, (n - 1) as nat, k);
    }
}

/// Nothing better is left out: a memory that was drafted, is valid, matches and may be
/// trusted is answered with at its score, unless there is no room and everything in the
/// answer comes before it.
pub proof fn better_evidence_is_not_left_out(
    s: SnapshotModel,
    drafts: Map<Ulid, EvidenceDraftModel>,
    scores: Map<Ulid, u32>,
    filter: RecallFilterModel,
    limit: usize,
    id: Ulid,
)
    requires
        s.names_its_memories(),
        drafts.dom().finite(),
        drafts.contains_key(id),
        s.nodes.contains_key(id) && s.nodes[id].valid && filter.matches(s.nodes[id]),
        filter.accepts_trust(
            s.nodes[id],
            s.evidence_of(s.nodes[id], id, SnapshotModel::score_of(scores, id), drafted_of(drafts, id)).verified,
        ),
    ensures
        ({
            let answer = s.deterministic_recall(drafts, scores, filter, limit);
            let score = if scores.contains_key(id) {
                scores[id]
            } else {
                0
            };
            (exists|i: int|
                0 <= i < answer.len() && (#[trigger] answer[i]).node.id == id && answer[i].score_bits == score) || (
            answer.len() == limit && forall|i: int|
                0 <= i < answer.len() ==> number_rank((#[trigger] answer[i]).score_bits) >= number_rank(score))
        }),
{
    reveal(SnapshotModel::deterministic_recall);
    let evidence = s.gathered_evidence(drafts, scores, filter);
    let found = placed(evidence, filter, evidence.len());
    placed_is_finite(evidence, filter, evidence.len());
    in_order_lists(found.dom());
    let places = in_order(found.dom());
    in_order_lists(drafts.dom());
    let ids = in_order(drafts.dom());
    let first = s.answering(ids, drafts, scores, filter, ids.len());
    let score = SnapshotModel::score_of(scores, id);
    let item = s.evidence_of(s.nodes[id], id, score, drafted_of(drafts, id));
    assert(ids.contains(id));
    let at = ids.index_of(id);
    assert(ids[at] == id);
    those_that_answer(s, ids, drafts, scores, filter, ids.len(), item);
    assert(s.nodes.contains_key(ids[at]));
    assert(first.contains(item));
    let k = first.index_of(item);
    assert(first[k] == item);
    assert(evidence[k] == item);
    assert(item.node.id == id);
    trusted_are_placed(evidence, filter, evidence.len(), k);
    let place = ScoredNode { score_bits: score, id };
    assert(found.dom().contains(place));
    assert(places.contains(place));
    let p = places.index_of(place);
    assert(places[p] == place);
    placed_are(evidence, filter, evidence.len(), place);
    let answer = s.deterministic_recall(drafts, scores, filter, limit);
    if p < answer.len() {
        assert(answer[p] == found[place]);
    } else {
        assert forall|i: int| 0 <= i < answer.len() implies number_rank((#[trigger] answer[i]).score_bits)
            >= number_rank(score) by {
            assert(places.contains(places[i]));
            placed_are(evidence, filter, evidence.len(), places[i]);
            assert(answer[i] == found[places[i]]);
            assert(places[i].rank() < places[p].rank());
        }
    }
}

/// The hits of a search by words are drafted with their score, their place from one on and
/// the terms they were met by, and leave everything else that was drafted as it was.
pub proof fn word_hits_are_drafted(
    drafts: Map<Ulid, EvidenceDraftModel>,
    hits: Seq<LexicalHitModel>,
    n: nat,
    i: int,
    other: Ulid,
)
    requires
        0 <= i < n <= hits.len(),
        forall|a: int, b: int| 0 <= a < b < hits.len() ==> (#[trigger] hits[a]).node_id != (#[trigger] hits[b]).node_id,
        forall|a: int| 0 <= a < hits.len() ==> (#[trigger] hits[a]).node_id != other,
        hits.len() <= usize::MAX,
    ensures
        ({
            let now = with_lexical(drafts, hits, n);
            let draft = now[hits[i].node_id];
            &&& now.contains_key(hits[i].node_id)
            &&& draft.lexical_score_bits == Some(hits[i].score_bits)
            &&& draft.lexical_rank == Some((i + 1) as usize)
            &&& draft.lexical_terms == hits[i].terms
            &&& draft.vectors == drafted_of(drafts, hits[i].node_id).vectors
            &&& draft.graph_paths == drafted_of(drafts, hits[i].node_id).graph_paths
            &&& lookup(now, other) == lookup(drafts, other)
        }),
    decreases n,
{
    untouched_by_words(drafts, hits, n, other);
    if i < n - 1 {
        assert forall|a: int| 0 <= a < hits.len() implies (#[trigger] hits[a]).node_id != other by {}
        word_hits_are_drafted(drafts, hits, (n - 1) as nat, i, other);
        assert(hits[i].node_id != hits[n - 1].node_id);
    } else {
        earlier_words_do_not_touch(drafts, hits, (n - 1) as nat, i);
    }
}

proof fn untouched_by_words(
    drafts: Map<Ulid, EvidenceDraftModel>,
    hits: Seq<LexicalHitModel>,
    n: nat,
    other: Ulid,
)
    requires
        n <= hits.len(),
        forall|a: int| 0 <= a < hits.len() ==> (#[trigger] hits[a]).node_id != other,
    ensures
        lookup(with_lexical(drafts, hits, n), other) == lookup(drafts, other),
    decreases n,
{
    if n > 0 {
        untouched_by_words(drafts, hits, (n - 1) as nat, other);
        assert(hits[n - 1].node_id != other);
    }
}

proof fn earlier_words_do_not_touch(
    drafts: Map<Ulid, EvidenceDraftModel>,
    hits: Seq<LexicalHitModel>,
    n: nat,
    i: int,
)
    requires
        0 <= n <= i < hits.len(),
        forall|a: int, b: int| 0 <= a < b < hits.len() ==> (#[trigger] hits[a]).node_id != (#[trigger] hits[b]).node_id,
    ensures
        lookup(with_lexical(drafts, hits, n), hits[i].node_id) == lookup(drafts, hits[i].node_id),
    decreases n,
{
    if n > 0 {
        earlier_words_do_not_touch(drafts, hits, (n - 1) as nat, i);
        assert(hits[n - 1].node_id != hits[i].node_id);
    }
}

/// A hit of a search by meaning is drafted behind those before it, with the profile and
/// the model it was found by, its place from one on and how similar it is. A way is drafted
/// at the memory that it leads to, behind those before it.
pub proof fn further_hits_are_drafted(
    drafts: Map<Ulid, EvidenceDraftModel>,
    profile_id: Seq<char>,
    model: Seq<char>,
    hits: Seq<VectorHit>,
    paths: Seq<GraphPathModel>,
    n: nat,
)
    ensures
        n < hits.len() ==> {
            let before = with_vectors(drafts, profile_id, model, hits, n);
            let id = hits[n as int].node_id;
            with_vectors(drafts, profile_id, model, hits, n + 1) == before.insert(
                id,
                EvidenceDraftModel {
                    vectors: drafted_of(before, id).vectors.push(
                        VectorEvidenceModel {
                            profile_id,
                            model,
                            rank: (n + 1) as usize,
                            similarity_bits: hits[n as int].similarity_bits,
                        },
                    ),
                    ..drafted_of(before, id)
                },
            )
        },
        n < paths.len() && paths[n as int].nodes.len() > 0 ==> {
            let before = with_paths(drafts, paths, n);
            let id = paths[n as int].nodes.last();
            with_paths(drafts, paths, n + 1) == before.insert(
                id,
                EvidenceDraftModel {
                    graph_paths: drafted_of(before, id).graph_paths.push(paths[n as int]),
                    ..drafted_of(before, id)
                },
            )
        },
        with_vectors(drafts, profile_id, model, hits, 0) == drafts,
        with_paths(drafts, paths, 0) == drafts,
{
}

} // verus!
