//! Deterministic recall: which memories are considered, and in what order they answer.
//! Scores are weighed outside; here they are bit patterns, ordered as numbers are.
use vstd::prelude::*;
use crate::ids::Ulid;
use crate::inspect::lookup;
use crate::keys::id_span;
use crate::lawyer::candidate_ids;
use crate::order::{Keyed, Ranked, in_order, in_order_lists, increasing, lists, sorted_distinct};
use crate::records::graph::{
    EvidenceDraft, EvidenceDraftModel, GraphPath, GraphPathModel, LexicalHit, LexicalHitModel,
    NodeFacts, NodeFactsModel, RecallEvidence, RecallEvidenceModel, RecallFilter,
    RecallFilterModel, VectorEvidence, VectorEvidenceModel, VectorHit, VectorHits,
    VectorHitsModel,
};
use crate::snapshot::{Snapshot, SnapshotModel};
use crate::table::{Replica, Table, opt_view, replicas, views};
use crate::wordlist::same_text;

verus! {

/// Where a number of single precision stands, by its bits: negative numbers count down.
pub open spec fn number_rank(bits: u32) -> int {
    if bits < 0x8000_0000 {
        bits as int
    } else {
        -1 - (bits - 0x8000_0000)
    }
}

/// Whether bits stand for no number.
pub open spec fn no_number(bits: u32) -> bool {
    bits % 0x8000_0000 > 0x7f80_0000
}

/// The greater of two scores; one that is no number yields to the other.
pub open spec fn greater_score(a: u32, b: u32) -> u32 {
    if no_number(a) {
        b
    } else if no_number(b) || number_rank(a) >= number_rank(b) {
        a
    } else {
        b
    }
}

fn number_rank_of(bits: u32) -> (r: i64)
    ensures
        r == number_rank(bits),
{
    if bits < 0x8000_0000 {
        bits as i64
    } else {
        -1 - (bits - 0x8000_0000) as i64
    }
}

fn max_score(a: u32, b: u32) -> (r: u32)
    ensures
        r == greater_score(a, b),
{
    if a % 0x8000_0000 > 0x7f80_0000 {
        b
    } else if b % 0x8000_0000 > 0x7f80_0000 || number_rank_of(a) >= number_rank_of(b) {
        a
    } else {
        b
    }
}

/// A memory with its score. The highest score comes first; among equals, the memory decides.
#[derive(Clone, Copy, Debug, PartialEq, Eq, Structural)]
pub struct ScoredNode {
    pub score_bits: u32,
    pub id: Ulid,
}

impl Keyed for ScoredNode {
    open spec fn rank(&self) -> int {
        (0x8000_0000int - number_rank(self.score_bits)) * id_span() + self.id.0
    }

    proof fn rank_is_injective(a: &Self, b: &Self) {
        assert(number_rank(a.score_bits) == number_rank(b.score_bits));
    }

    fn before(&self, other: &Self) -> (r: bool) {
        let a: i64 = number_rank_of(self.score_bits);
        let b: i64 = number_rank_of(other.score_bits);
        if a > b {
            true
        } else if b > a {
            false
        } else {
            self.id.0 < other.id.0
        }
    }
}

/// The best scored memories, the best first.
pub open spec fn best_scored(scored: Seq<ScoredNode>, limit: usize) -> Seq<ScoredNode> {
    let all = in_order(scored.to_set());
    if all.len() <= limit {
        all
    } else {
        all.take(limit as int)
    }
}

/// Lists the best scored memories, the best first.
pub fn rank_seeds(scored: &Vec<ScoredNode>, limit: usize) -> (r: Vec<ScoredNode>)
    ensures
        r@ == best_scored(scored@, limit),
{
    let all = sorted_distinct(scored);
    let mut r: Vec<ScoredNode> = Vec::new();
    let mut i: usize = 0;
    while i < all.len() && i < limit
        invariant
            i <= all@.len(),
            i <= limit,
            r@ == all@.take(i as int),
        decreases all@.len() - i,
    {
        r.push(all[i]);
        assert(r@ =~= all@.take(i + 1));
        i = i + 1;
    }
    assert(all@.take(all@.len() as int) =~= all@);
    r
}

impl RecallFilterModel {
    /// Whether a memory carries a key with a value.
    pub open spec fn carries(node: NodeFactsModel, key: Seq<char>, value: Seq<char>) -> bool {
        exists|j: int|
            0 <= j < node.metadata.len() && (#[trigger] node.metadata[j]).key == key && node.metadata[j].value == value
    }

    /// Whether a memory carries a key.
    pub open spec fn carries_key(node: NodeFactsModel, key: Seq<char>) -> bool {
        exists|j: int| 0 <= j < node.metadata.len() && (#[trigger] node.metadata[j]).key == key
    }

    /// Whether a memory is of a kind that is asked for and carries everything that is
    /// asked for.
    pub open spec fn matches(self, node: NodeFactsModel) -> bool {
        &&& self.kinds.len() == 0 || self.kinds.contains(node.kind)
        &&& forall|i: int|
            0 <= i < self.metadata.len() ==> Self::carries(
                node,
                (#[trigger] self.metadata[i]).key,
                self.metadata[i].value,
            )
    }

    /// Whether a memory is trusted without provenance.
    pub open spec fn allows_unverified(self, node: NodeFactsModel) -> bool {
        exists|i: int|
            0 <= i < self.allow_unverified_metadata_keys.len() && Self::carries_key(
                node,
                #[trigger] self.allow_unverified_metadata_keys[i],
            )
    }

    /// Whether a memory needs provenance to be considered.
    pub open spec fn requires_provenance(self, node: NodeFactsModel) -> bool {
        self.require_verified && node.fact && !self.allows_unverified(node)
    }

    /// Whether a memory may be answered with, verified or not.
    pub open spec fn accepts_trust(self, node: NodeFactsModel, verified: bool) -> bool {
        !self.require_verified || verified || self.allows_unverified(node)
    }
}

fn carries(node: &NodeFacts, key: &str, value: &str) -> (r: bool)
    ensures
        r == RecallFilterModel::carries(node@, key@, value@),
{
    let ghost all = node@.metadata;
    assert(all.len() == node.metadata@.len());
    for i in 0..node.metadata.len()
        invariant
            all == views(node.metadata@),
            all == node@.metadata,
            all.len() == node.metadata@.len(),
            forall|j: int| 0 <= j < i ==> !((#[trigger] all[j]).key == key@ && all[j].value == value@),
    {
        assert(views(node.metadata@)[i as int] == node.metadata@[i as int]@);
        if same_text(node.metadata[i].key.as_str(), key) && same_text(node.metadata[i].value.as_str(), value) {
            assert(all[i as int].key == key@);
            return true;
        }
    }
    false
}

fn carries_key(node: &NodeFacts, key: &str) -> (r: bool)
    ensures
        r == RecallFilterModel::carries_key(node@, key@),
{
    let ghost all = node@.metadata;
    assert(all.len() == node.metadata@.len());
    for i in 0..node.metadata.len()
        invariant
            all == views(node.metadata@),
            all == node@.metadata,
            all.len() == node.metadata@.len(),
            forall|j: int| 0 <= j < i ==> (#[trigger] all[j]).key != key@,
    {
        assert(views(node.metadata@)[i as int] == node.metadata@[i as int]@);
        if same_text(node.metadata[i].key.as_str(), key) {
            assert(all[i as int].key == key@);
            return true;
        }
    }
    false
}

impl RecallFilter {
    pub fn matches(&self, node: &NodeFacts) -> (r: bool)
        ensures
            r == self@.matches(node@),
    {
        if self.kinds.len() > 0 {
            let mut found = false;
            for i in 0..self.kinds.len()
                invariant
                    found == exists|j: int| 0 <= j < i && self.kinds@[j] == node.kind,
            {
                if self.kinds[i] == node.kind {
                    found = true;
                }
            }
            if !found {
                return false;
            }
        }
        let ghost all = self@.metadata;
        assert(all.len() == self.metadata@.len());
        for i in 0..self.metadata.len()
            invariant
                self.kinds@.len() == 0 || self.kinds@.contains(node.kind),
                all == views(self.metadata@),
                all == self@.metadata,
                all.len() == self.metadata@.len(),
                forall|j: int|
                    0 <= j < i ==> RecallFilterModel::carries(node@, (#[trigger] all[j]).key, all[j].value),
        {
            assert(views(self.metadata@)[i as int] == self.metadata@[i as int]@);
            if !carries(node, self.metadata[i].key.as_str(), self.metadata[i].value.as_str()) {
                assert(!RecallFilterModel::carries(node@, all[i as int].key, all[i as int].value));
                return false;
            }
        }
        true
    }

    pub fn allows_unverified(&self, node: &NodeFacts) -> (r: bool)
        ensures
            r == self@.allows_unverified(node@),
    {
        let ghost all = self@.allow_unverified_metadata_keys;
        assert(all.len() == self.allow_unverified_metadata_keys@.len());
        for i in 0..self.allow_unverified_metadata_keys.len()
            invariant
                all == views(self.allow_unverified_metadata_keys@),
                all == self@.allow_unverified_metadata_keys,
                all.len() == self.allow_unverified_metadata_keys@.len(),
                forall|j: int| 0 <= j < i ==> !RecallFilterModel::carries_key(node@, #[trigger] all[j]),
        {
            assert(views(self.allow_unverified_metadata_keys@)[i as int]
                == self.allow_unverified_metadata_keys@[i as int]@);
            if carries_key(node, self.allow_unverified_metadata_keys[i].as_str()) {
                assert(RecallFilterModel::carries_key(node@, all[i as int]));
                return true;
            }
        }
        false
    }

    pub fn requires_provenance(&self, node: &NodeFacts) -> (r: bool)
        ensures
            r == self@.requires_provenance(node@),
    {
        self.require_verified && node.fact && !self.allows_unverified(node)
    }

    pub fn accepts_trust(&self, evidence: &RecallEvidence) -> (r: bool)
        ensures
            r == self@.accepts_trust(evidence@.node, evidence@.verified),
    {
        !self.require_verified || evidence.verified || self.allows_unverified(&evidence.node)
    }
}

pub open spec fn no_evidence() -> EvidenceDraftModel {
    EvidenceDraftModel {
        lexical_score_bits: None,
        lexical_rank: None,
        lexical_terms: Seq::empty(),
        vectors: Seq::empty(),
        graph_paths: Seq::empty(),
    }
}

/// What is drafted of a memory so far.
pub open spec fn drafted_of(drafts: Map<Ulid, EvidenceDraftModel>, id: Ulid) -> EvidenceDraftModel {
    match lookup(drafts, id) {
        Some(draft) => draft,
        None => no_evidence(),
    }
}

/// Drafts with the first `n` lexical hits.
pub open spec fn with_lexical(drafts: Map<Ulid, EvidenceDraftModel>, hits: Seq<LexicalHitModel>, n: nat) -> Map<
    Ulid,
    EvidenceDraftModel,
>
    decreases n,
{
    if n == 0 {
        drafts
    } else {
        let before = with_lexical(drafts, hits, (n - 1) as nat);
        let hit = hits[n - 1];
        before.insert(
            hit.node_id,
            EvidenceDraftModel {
                lexical_score_bits: Some(hit.score_bits),
                lexical_rank: Some(n as usize),
                lexical_terms: hit.terms,
                ..drafted_of(before, hit.node_id)
            },
        )
    }
}

/// Drafts with the first `n` hits of a profile.
pub open spec fn with_vectors(
    drafts: Map<Ulid, EvidenceDraftModel>,
    profile_id: Seq<char>,
    model: Seq<char>,
    hits: Seq<VectorHit>,
    n: nat,
) -> Map<Ulid, EvidenceDraftModel>
    decreases n,
{
    if n == 0 {
        drafts
    } else {
        let before = with_vectors(drafts, profile_id, model, hits, (n - 1) as nat);
        let hit = hits[n - 1];
        let draft = drafted_of(before, hit.node_id);
        before.insert(
            hit.node_id,
            EvidenceDraftModel {
                vectors: draft.vectors.push(
                    VectorEvidenceModel {
                        profile_id,
                        model,
                        rank: n as usize,
                        similarity_bits: hit.similarity_bits,
                    },
                ),
                ..draft
            },
        )
    }
}

/// Drafts with the hits of the first `n` profiles.
pub open spec fn with_profiles(drafts: Map<Ulid, EvidenceDraftModel>, found: Seq<VectorHitsModel>, n: nat) -> Map<
    Ulid,
    EvidenceDraftModel,
>
    decreases n,
{
    if n == 0 {
        drafts
    } else {
        with_vectors(
            with_profiles(drafts, found, (n - 1) as nat),
            found[n - 1].profile_id,
            found[n - 1].model,
            found[n - 1].hits,
            found[n - 1].hits.len(),
        )
    }
}

/// Drafts with the first `n` ways, each at the memory that it leads to.
pub open spec fn with_paths(drafts: Map<Ulid, EvidenceDraftModel>, paths: Seq<GraphPathModel>, n: nat) -> Map<
    Ulid,
    EvidenceDraftModel,
>
    decreases n,
{
    if n == 0 {
        drafts
    } else {
        let before = with_paths(drafts, paths, (n - 1) as nat);
        let path = paths[n - 1];
        if path.nodes.len() == 0 {
            before
        } else {
            let draft = drafted_of(before, path.nodes.last());
            before.insert(
                path.nodes.last(),
                EvidenceDraftModel { graph_paths: draft.graph_paths.push(path), ..draft },
            )
        }
    }
}

/// What is gathered about memories while a query is answered.
pub struct Drafts {
    pub(crate) drafts: Table<Ulid, EvidenceDraft>,
}

impl View for Drafts {
    type V = Map<Ulid, EvidenceDraftModel>;

    open(crate) spec fn view(&self) -> Map<Ulid, EvidenceDraftModel> {
        self.drafts@
    }
}

impl Drafts {
    pub fn new() -> (r: Self)
        ensures
            r@ == Map::<Ulid, EvidenceDraftModel>::empty(),
    {
        Drafts { drafts: Table::new() }
    }

    fn of(&self, id: Ulid) -> (r: EvidenceDraft)
        ensures
            r@ == drafted_of(self@, id),
    {
        match self.drafts.get(&id) {
            Some(draft) => draft.replica(),
            None => {
                let r = EvidenceDraft {
                    lexical_score_bits: None,
                    lexical_rank: None,
                    lexical_terms: Vec::new(),
                    vectors: Vec::new(),
                    graph_paths: Vec::new(),
                };
                assert(r@ =~= no_evidence());
                r
            },
        }
    }

    /// The memories about which something was gathered, in order.
    pub fn ids(&self) -> (r: Vec<Ulid>)
        ensures
            r@ == in_order(self@.dom()),
    {
        self.drafts.keys()
    }

    /// What was gathered about a memory.
    pub fn get(&self, id: Ulid) -> (r: Option<EvidenceDraft>)
        ensures
            opt_view(r) == lookup(self@, id),
    {
        match self.drafts.get(&id) {
            Some(draft) => Some(draft.replica()),
            None => None,
        }
    }

    /// Takes in the memories that the words of the query were found in, the best first.
    pub fn add_lexical(&mut self, hits: &Vec<LexicalHit>)
        ensures
            final(self)@ == with_lexical(old(self)@, views(hits@), hits@.len()),
    {
        let ghost all = views(hits@);
        let ghost start = self@;
        let count: usize = hits.len();
        for i in 0..count
            invariant
                count == hits@.len(),
                all == views(hits@),
                self@ == with_lexical(start, all, i as nat),
        {
            assert(views(hits@)[i as int] == hits@[i as int]@);
            let draft = self.of(hits[i].node_id);
            let next = EvidenceDraft {
                lexical_score_bits: Some(hits[i].score_bits),
                lexical_rank: Some(i + 1),
                lexical_terms: replicas(&hits[i].terms),
                ..draft
            };
            self.drafts.insert(hits[i].node_id, next);
        }
    }

    fn add_profile(&mut self, found: &VectorHits)
        ensures
            final(self)@ == with_vectors(
                old(self)@,
                found@.profile_id,
                found@.model,
                found@.hits,
                found@.hits.len(),
            ),
    {
        let ghost start = self@;
        let count: usize = found.hits.len();
        for i in 0..count
            invariant
                count == found.hits@.len(),
                self@ == with_vectors(start, found@.profile_id, found@.model, found@.hits, i as nat),
        {
            let hit = found.hits[i];
            let draft = self.of(hit.node_id);
            let evidence = VectorEvidence {
                profile_id: found.profile_id.clone(),
                model: found.model.clone(),
                rank: i + 1,
                similarity_bits: hit.similarity_bits,
            };
            let mut vectors = replicas(&draft.vectors);
            let ghost before = vectors@;
            vectors.push(evidence);
            assert(views(vectors@) =~= views(before).push(evidence@));
            self.drafts.insert(hit.node_id, EvidenceDraft { vectors, ..draft });
        }
    }

    /// Takes in the memories near the query, profile by profile.
    pub fn add_vectors(&mut self, found: &Vec<VectorHits>)
        ensures
            final(self)@ == with_profiles(old(self)@, views(found@), found@.len()),
    {
        let ghost all = views(found@);
        let ghost start = self@;
        for i in 0..found.len()
            invariant
                all == views(found@),
                self@ == with_profiles(start, all, i as nat),
        {
            assert(views(found@)[i as int] == found@[i as int]@);
            self.add_profile(&found[i]);
        }
    }

    /// Takes in ways from a seed.
    pub fn add_paths(&mut self, paths: &Vec<GraphPath>)
        ensures
            final(self)@ == with_paths(old(self)@, views(paths@), paths@.len()),
    {
        let ghost all = views(paths@);
        let ghost start = self@;
        for i in 0..paths.len()
            invariant
                all == views(paths@),
                self@ == with_paths(start, all, i as nat),
        {
            assert(views(paths@)[i as int] == paths@[i as int]@);
            if paths[i].nodes.len() > 0 {
                let end: Ulid = paths[i].nodes[paths[i].nodes.len() - 1];
                let draft = self.of(end);
                let mut graph_paths = replicas(&draft.graph_paths);
                let ghost before = graph_paths@;
                graph_paths.push(paths[i].replica());
                assert(views(graph_paths@) =~= views(before).push(all[i as int]));
                self.drafts.insert(end, EvidenceDraft { graph_paths, ..draft });
            }
        }
    }
}

impl SnapshotModel {
    /// Whether a memory may be considered for a query.
    pub open spec fn is_candidate(self, id: Ulid, filter: RecallFilterModel) -> bool {
        match lookup(self.nodes, id) {
            None => false,
            Some(node) => node.valid && filter.matches(node) && (filter.requires_provenance(node)
                ==> in_order(self.sources_of(id)).len() > 0),
        }
    }

    /// The drafts of memories that may be considered.
    pub open spec fn considerable(self, drafts: Map<Ulid, EvidenceDraftModel>, filter: RecallFilterModel) -> Map<
        Ulid,
        EvidenceDraftModel,
    > {
        drafts.restrict(Set::new(|id: Ulid| drafts.contains_key(id) && self.is_candidate(id, filter)))
    }

    /// What can be said of a memory that answers, whatever spoke for it.
    pub open spec fn evidence_of(
        self,
        node: NodeFactsModel,
        id: Ulid,
        score_bits: u32,
        draft: EvidenceDraftModel,
    ) -> RecallEvidenceModel {
        let provenance = in_order(self.sources_of(id));
        RecallEvidenceModel {
            node,
            score_bits,
            lexical_score_bits: draft.lexical_score_bits,
            lexical_rank: draft.lexical_rank,
            lexical_terms: draft.lexical_terms,
            vectors: draft.vectors,
            graph_paths: draft.graph_paths,
            provenance,
            conflicts: in_order(self.opponents_of(id)),
            verified: !node.fact || provenance.len() > 0,
        }
    }

    /// The score that a memory was given.
    pub open spec fn score_of(scores: Map<Ulid, u32>, id: Ulid) -> u32 {
        match lookup(scores, id) {
            Some(bits) => bits,
            None => 0,
        }
    }

    /// The evidence of the first `n` drafted memories that are valid and match.
    pub open spec fn answering(
        self,
        ids: Seq<Ulid>,
        drafts: Map<Ulid, EvidenceDraftModel>,
        scores: Map<Ulid, u32>,
        filter: RecallFilterModel,
        n: nat,
    ) -> Seq<RecallEvidenceModel>
        decreases n,
    {
        if n == 0 {
            Seq::empty()
        } else {
            let before = self.answering(ids, drafts, scores, filter, (n - 1) as nat);
            let id = ids[n - 1];
            match lookup(self.nodes, id) {
                None => before,
                Some(node) => if node.valid && filter.matches(node) {
                    before.push(self.evidence_of(node, id, Self::score_of(scores, id), drafted_of(drafts, id)))
                } else {
                    before
                },
            }
        }
    }
}

/// The memories that evidence is about.
pub open spec fn answered_ids(evidence: Seq<RecallEvidenceModel>) -> Set<Ulid> {
    Set::new(|id: Ulid| exists|i: int| 0 <= i < evidence.len() && (#[trigger] evidence[i]).node.id == id)
}

/// The scores of the first `n` opponents of a memory that are not answered with.
pub open spec fn opponent_scores(
    scores: Map<Ulid, u32>,
    existing: Set<Ulid>,
    conflicts: Seq<Ulid>,
    score_bits: u32,
    n: nat,
) -> Map<Ulid, u32>
    decreases n,
{
    if n == 0 {
        scores
    } else {
        let before = opponent_scores(scores, existing, conflicts, score_bits, (n - 1) as nat);
        let id = conflicts[n - 1];
        if existing.contains(id) {
            before
        } else {
            match lookup(before, id) {
                Some(known) => before.insert(id, greater_score(known, score_bits)),
                None => before.insert(id, score_bits),
            }
        }
    }
}

/// The scores of the opponents of the first `n` pieces of evidence: each takes the
/// greatest score of those that it contradicts.
pub open spec fn conflict_scores(evidence: Seq<RecallEvidenceModel>, existing: Set<Ulid>, n: nat) -> Map<Ulid, u32>
    decreases n,
{
    if n == 0 {
        Map::empty()
    } else {
        opponent_scores(
            conflict_scores(evidence, existing, (n - 1) as nat),
            existing,
            evidence[n - 1].conflicts,
            evidence[n - 1].score_bits,
            evidence[n - 1].conflicts.len(),
        )
    }
}

/// The trusted evidence among the first `n` pieces, by its place.
pub open spec fn placed(evidence: Seq<RecallEvidenceModel>, filter: RecallFilterModel, n: nat) -> Map<
    ScoredNode,
    RecallEvidenceModel,
>
    decreases n,
{
    if n == 0 {
        Map::empty()
    } else {
        let before = placed(evidence, filter, (n - 1) as nat);
        let item = evidence[n - 1];
        if filter.accepts_trust(item.node, item.verified) {
            before.insert(ScoredNode { score_bits: item.score_bits, id: item.node.id }, item)
        } else {
            before
        }
    }
}

/// Evidence in the order of its places, cut off at a limit.
pub open spec fn best_placed(found: Map<ScoredNode, RecallEvidenceModel>, limit: usize) -> Seq<RecallEvidenceModel> {
    let places = in_order(found.dom());
    Seq::new(
        if places.len() <= limit {
            places.len()
        } else {
            limit as nat
        },
        |i: int| found[places[i]],
    )
}

impl SnapshotModel {
    /// The evidence that answers, before it is put in order: what was drafted, and what
    /// contradicts it.
    pub open spec fn gathered_evidence(
        self,
        drafts: Map<Ulid, EvidenceDraftModel>,
        scores: Map<Ulid, u32>,
        filter: RecallFilterModel,
    ) -> Seq<RecallEvidenceModel> {
        let ids = in_order(drafts.dom());
        let evidence = self.answering(ids, drafts, scores, filter, ids.len());
        let opposed = conflict_scores(evidence, answered_ids(evidence), evidence.len());
        let opponents = in_order(opposed.dom());
        evidence + self.answering(opponents, Map::empty(), opposed, filter, opponents.len())
    }

    /// The evidence that answers a query.
    #[verifier::opaque]
    pub open spec fn deterministic_recall(
        self,
        drafts: Map<Ulid, EvidenceDraftModel>,
        scores: Map<Ulid, u32>,
        filter: RecallFilterModel,
        limit: usize,
    ) -> Seq<RecallEvidenceModel> {
        let evidence = self.gathered_evidence(drafts, scores, filter);
        best_placed(placed(evidence, filter, evidence.len()), limit)
    }
}

/// The scores that memories were given.
pub struct Scores {
    pub(crate) scores: Table<Ulid, Bits>,
}

/// The bits of a number.
#[derive(Clone, Copy, Debug, PartialEq, Eq, Structural)]
pub struct Bits(pub u32);

impl View for Bits {
    type V = u32;

    open spec fn view(&self) -> u32 {
        self.0
    }
}

impl View for Scores {
    type V = Map<Ulid, u32>;

    open(crate) spec fn view(&self) -> Map<Ulid, u32> {
        self.scores@
    }
}

impl Scores {
    pub fn new() -> (r: Self)
        ensures
            r@ == Map::<Ulid, u32>::empty(),
    {
        Scores { scores: Table::new() }
    }

    pub fn set(&mut self, id: Ulid, score_bits: u32)
        ensures
            final(self)@ == old(self)@.insert(id, score_bits),
    {
        self.scores.insert(id, Bits(score_bits));
    }

    fn of(&self, id: Ulid) -> (r: u32)
        ensures
            r == SnapshotModel::score_of(self@, id),
    {
        match self.scores.get(&id) {
            Some(bits) => bits.0,
            None => 0,
        }
    }
}

impl Snapshot {
    /// Whether a memory may be considered for a query. `current` tells whether its
    /// projection is the one that a profile needs, where there is one.
    pub fn recall_candidate_matches(&self, id: Ulid, filter: &RecallFilter, current: Option<bool>) -> (r: bool)
        ensures
            r == (self@.is_candidate(id, filter@) && current != Some(false)),
    {
        match self.nodes.get(&id) {
            None => false,
            Some(node) => {
                if !node.valid || !filter.matches(node) {
                    return false;
                }
                if filter.requires_provenance(node) {
                    let (provenance, _) = self.provenance_and_conflicts(id);
                    if provenance.len() == 0 {
                        return false;
                    }
                }
                match current {
                    Some(holds) => holds,
                    None => true,
                }
            },
        }
    }

    /// Leaves out what was gathered about memories that may not be considered.
    pub fn retain_candidates(&self, drafts: &mut Drafts, filter: &RecallFilter)
        ensures
            final(drafts)@ == self@.considerable(old(drafts)@, filter@),
    {
        let ids = drafts.drafts.keys();
        let ghost start = drafts@;
        proof {
            let kept = Set::new(
                |id: Ulid|
                    start.contains_key(id) && (self@.is_candidate(id, filter@) || exists|j: int|
                        0 <= j < ids@.len() && #[trigger] ids@[j] == id),
            );
            assert forall|id: Ulid| start.contains_key(id) implies #[trigger] kept.contains(id) by {
                assert(ids@.to_set().contains(id));
            }
            assert(drafts@ =~= start.restrict(kept));
        }
        for i in 0..ids.len()
            invariant
                ids@ == in_order(start.dom()),
                lists(ids@, start.dom()),
                drafts@ == start.restrict(
                    Set::new(
                        |id: Ulid|
                            start.contains_key(id) && (self@.is_candidate(id, filter@) || exists|j: int|
                                i <= j < ids@.len() && #[trigger] ids@[j] == id),
                    ),
                ),
        {
            let id = ids[i];
            if !self.recall_candidate_matches(id, filter, None) {
                drafts.drafts.remove(&id);
            }
            proof {
                let kept = Set::new(
                    |id: Ulid|
                        start.contains_key(id) && (self@.is_candidate(id, filter@) || exists|j: int|
                            i + 1 <= j < ids@.len() && #[trigger] ids@[j] == id),
                );
                let before = Set::new(
                    |id: Ulid|
                        start.contains_key(id) && (self@.is_candidate(id, filter@) || exists|j: int|
                            i <= j < ids@.len() && #[trigger] ids@[j] == id),
                );
                assert(ids@.contains(id));
                assert forall|k: Ulid| #[trigger] kept.contains(k) <==> before.contains(k) && (k != id
                    || self@.is_candidate(id, filter@)) by {
                    if before.contains(k) && k != id && !self@.is_candidate(k, filter@) {
                        let j = choose|j: int| i <= j < ids@.len() && #[trigger] ids@[j] == k;
                        assert(ids@[j] == k);
                    }
                    if kept.contains(k) && k == id && !self@.is_candidate(k, filter@) {
                        let j = choose|j: int| i + 1 <= j < ids@.len() && #[trigger] ids@[j] == k;
                        assert(ids@[i as int].rank() < ids@[j].rank());
                    }
                }
                assert(drafts@ =~= start.restrict(kept));
            }
        }
        assert(drafts@ =~= self@.considerable(start, filter@));
    }

    fn evidence_of(&self, node: &NodeFacts, id: Ulid, score_bits: u32, draft: EvidenceDraft) -> (r: RecallEvidence)
        ensures
            r@ == self@.evidence_of(node@, id, score_bits, draft@),
    {
        let (provenance, conflicts) = self.provenance_and_conflicts(id);
        let verified = !node.fact || provenance.len() > 0;
        RecallEvidence {
            node: node.replica(),
            score_bits,
            lexical_score_bits: draft.lexical_score_bits,
            lexical_rank: draft.lexical_rank,
            lexical_terms: draft.lexical_terms,
            vectors: draft.vectors,
            graph_paths: draft.graph_paths,
            provenance,
            conflicts,
            verified,
        }
    }

    fn answer(&self, evidence: &mut Vec<RecallEvidence>, ids: &Vec<Ulid>, drafts: &Drafts, scores: &Scores, filter: &RecallFilter)
        ensures
            views(final(evidence)@) == views(old(evidence)@) + self@.answering(
                ids@,
                drafts@,
                scores@,
                filter@,
                ids@.len(),
            ),
    {
        let ghost start = views(evidence@);
        assert(start + Seq::<RecallEvidenceModel>::empty() =~= start);
        for i in 0..ids.len()
            invariant
                views(evidence@) == start + self@.answering(ids@, drafts@, scores@, filter@, i as nat),
        {
            let id = ids[i];
            if let Some(node) = self.nodes.get(&id) {
                if node.valid && filter.matches(node) {
                    let item = self.evidence_of(node, id, scores.of(id), drafts.of(id));
                    let ghost before = evidence@;
                    let ghost answered = self@.answering(ids@, drafts@, scores@, filter@, i as nat);
                    evidence.push(item);
                    assert(views(evidence@) =~= views(before).push(item@));
                    assert((start + answered).push(item@) =~= start + answered.push(item@));
                }
            }
        }
    }

    fn score_opponents(scores: &mut Scores, existing: &Ranked<Ulid>, conflicts: &Vec<Ulid>, score_bits: u32)
        ensures
            final(scores)@ == opponent_scores(
                old(scores)@,
                existing@.to_set(),
                conflicts@,
                score_bits,
                conflicts@.len(),
            ),
    {
        let ghost start = scores@;
        let ghost known = existing@.to_set();
        for i in 0..conflicts.len()
            invariant
                known == existing@.to_set(),
                scores@ == opponent_scores(start, known, conflicts@, score_bits, i as nat),
        {
            let id = conflicts[i];
            if !existing.contains(&id) {
                let given: Option<u32> = match scores.scores.get(&id) {
                    Some(bits) => Some(bits.0),
                    None => None,
                };
                match given {
                    Some(bits) => {
                        scores.set(id, max_score(bits, score_bits));
                    },
                    None => {
                        scores.set(id, score_bits);
                    },
                }
            }
        }
    }

    fn conflict_scores(evidence: &Vec<RecallEvidence>, existing: &Ranked<Ulid>) -> (r: Scores)
        ensures
            r@ == conflict_scores(views(evidence@), existing@.to_set(), evidence@.len()),
    {
        let ghost all = views(evidence@);
        let ghost known = existing@.to_set();
        let mut scores = Scores::new();
        for i in 0..evidence.len()
            invariant
                all == views(evidence@),
                known == existing@.to_set(),
                scores@ == conflict_scores(all, known, i as nat),
        {
            assert(views(evidence@)[i as int] == evidence@[i as int]@);
            Self::score_opponents(&mut scores, existing, &evidence[i].conflicts, evidence[i].score_bits);
        }
        scores
    }

    /// The evidence that answers a query, the best first: what was drafted of memories
    /// that are valid and match, together with what contradicts them.
    pub fn deterministic_recall(&self, drafts: &Drafts, scores: &Scores, filter: &RecallFilter, limit: usize) -> (r: Vec<
        RecallEvidence,
    >)
        ensures
            views(r@) == self@.deterministic_recall(drafts@, scores@, filter@, limit),
    {
        reveal(SnapshotModel::deterministic_recall);
        let ids = drafts.drafts.keys();
        let mut evidence: Vec<RecallEvidence> = Vec::new();
        self.answer(&mut evidence, &ids, drafts, scores, filter);
        let ghost answered = self@.answering(ids@, drafts@, scores@, filter@, ids@.len());
        assert(views(evidence@) =~= answered);
        assert(answered.len() == evidence@.len());
        let existing = candidate_ids(&evidence);
        let opposed = Self::conflict_scores(&evidence, &existing);
        let opponents = opposed.scores.keys();
        let nothing = Drafts::new();
        self.answer(&mut evidence, &opponents, &nothing, &opposed, filter);
        let ghost all = self@.gathered_evidence(drafts@, scores@, filter@);
        assert(views(evidence@) == all);
        assert(all.len() == evidence@.len());
        let mut found: Table<ScoredNode, RecallEvidence> = Table::new();
        for i in 0..evidence.len()
            invariant
                all == views(evidence@),
                all.len() == evidence@.len(),
                found@ == placed(all, filter@, i as nat),
        {
            assert(views(evidence@)[i as int] == evidence@[i as int]@);
            if filter.accepts_trust(&evidence[i]) {
                found.insert(
                    ScoredNode { score_bits: evidence[i].score_bits, id: evidence[i].node.id },
                    evidence[i].replica(),
                );
            }
        }
        let places = found.keys();
        let ghost wanted = best_placed(found@, limit);
        let mut r: Vec<RecallEvidence> = Vec::new();
        assert(views(r@) =~= wanted.take(0));
        let mut i: usize = 0;
        while i < places.len() && i < limit
            invariant
                i <= places@.len(),
                i <= limit,
                lists(places@, found@.dom()),
                places@ == in_order(found@.dom()),
                wanted == best_placed(found@, limit),
                views(r@) == wanted.take(i as int),
            decreases places@.len() - i,
        {
            assert(places@.contains(places@[i as int]));
            if let Some(item) = found.get(&places[i]) {
                let ghost before = r@;
                r.push(item.replica());
                assert(views(r@) =~= views(before).push(item@));
                assert(views(r@) =~= wanted.take(i + 1));
            }
            i = i + 1;
        }
        assert(wanted.take(i as int) =~= wanted);
        r
    }
}

pub proof fn placed_are(evidence: Seq<RecallEvidenceModel>, filter: RecallFilterModel, n: nat, place: ScoredNode)
    requires
        placed(evidence, filter, n).contains_key(place),
        n <= evidence.len(),
    ensures
        exists|i: int| 0 <= i < n && placed(evidence, filter, n)[place] == #[trigger] evidence[i],
        filter.accepts_trust(
            placed(evidence, filter, n)[place].node,
            placed(evidence, filter, n)[place].verified,
        ),
        place.score_bits == placed(evidence, filter, n)[place].score_bits,
        place.id == placed(evidence, filter, n)[place].node.id,
    decreases n,
{
    if n > 0 {
        let item = evidence[n - 1];
        let here = ScoredNode { score_bits: item.score_bits, id: item.node.id };
        if filter.accepts_trust(item.node, item.verified) && place == here {
            assert(placed(evidence, filter, n)[place] == evidence[n - 1]);
        } else {
            placed_are(evidence, filter, (n - 1) as nat, place);
        }
    }
}

pub proof fn placed_is_finite(evidence: Seq<RecallEvidenceModel>, filter: RecallFilterModel, n: nat)
    ensures
        placed(evidence, filter, n).dom().finite(),
    decreases n,
{
    if n > 0 {
        placed_is_finite(evidence, filter, (n - 1) as nat);
    }
}

proof fn answering_are(
    s: SnapshotModel,
    ids: Seq<Ulid>,
    drafts: Map<Ulid, EvidenceDraftModel>,
    scores: Map<Ulid, u32>,
    filter: RecallFilterModel,
    n: nat,
    i: int,
) -> (k: int)
    requires
        s.names_its_memories(),
        0 <= i < s.answering(ids, drafts, scores, filter, n).len(),
    ensures
        0 <= k < n,
        s.is_answer(s.answering(ids, drafts, scores, filter, n)[i], filter),
        s.answering(ids, drafts, scores, filter, n)[i].node.id == ids[k],
    decreases n,
{
    let before = s.answering(ids, drafts, scores, filter, (n - 1) as nat);
    if i < before.len() {
        answering_are(s, ids, drafts, scores, filter, (n - 1) as nat, i)
    } else {
        n - 1
    }
}

proof fn answering_once(
    s: SnapshotModel,
    ids: Seq<Ulid>,
    drafts: Map<Ulid, EvidenceDraftModel>,
    scores: Map<Ulid, u32>,
    filter: RecallFilterModel,
    n: nat,
)
    requires
        s.names_its_memories(),
        increasing(ids),
        n <= ids.len(),
    ensures
        each_once(s.answering(ids, drafts, scores, filter, n)),
    decreases n,
{
    if n > 0 {
        let before = s.answering(ids, drafts, scores, filter, (n - 1) as nat);
        let all = s.answering(ids, drafts, scores, filter, n);
        answering_once(s, ids, drafts, scores, filter, (n - 1) as nat);
        assert forall|i: int, j: int| 0 <= i < j < all.len() implies (#[trigger] all[i]).node.id != (
        #[trigger] all[j]).node.id by {
            let k = answering_are(s, ids, drafts, scores, filter, (n - 1) as nat, i);
            if j == before.len() {
                assert(ids[k].rank() < ids[n - 1].rank());
            }
        }
    }
}

/// Whether no two pieces of evidence are about one memory.
spec fn each_once(evidence: Seq<RecallEvidenceModel>) -> bool {
    forall|i: int, j: int|
        0 <= i < j < evidence.len() ==> (#[trigger] evidence[i]).node.id != (#[trigger] evidence[j]).node.id
}

proof fn opponents_are_new(
    scores: Map<Ulid, u32>,
    existing: Set<Ulid>,
    conflicts: Seq<Ulid>,
    score_bits: u32,
    n: nat,
)
    requires
        scores.dom().finite(),
        scores.dom().disjoint(existing),
    ensures
        opponent_scores(scores, existing, conflicts, score_bits, n).dom().finite(),
        opponent_scores(scores, existing, conflicts, score_bits, n).dom().disjoint(existing),
    decreases n,
{
    if n > 0 {
        opponents_are_new(scores, existing, conflicts, score_bits, (n - 1) as nat);
    }
}

proof fn conflicts_are_new(evidence: Seq<RecallEvidenceModel>, existing: Set<Ulid>, n: nat)
    ensures
        conflict_scores(evidence, existing, n).dom().finite(),
        conflict_scores(evidence, existing, n).dom().disjoint(existing),
    decreases n,
{
    if n > 0 {
        conflicts_are_new(evidence, existing, (n - 1) as nat);
        opponents_are_new(
            conflict_scores(evidence, existing, (n - 1) as nat),
            existing,
            evidence[n - 1].conflicts,
            evidence[n - 1].score_bits,
            evidence[n - 1].conflicts.len(),
        );
    }
}

proof fn gathered_are(
    s: SnapshotModel,
    drafts: Map<Ulid, EvidenceDraftModel>,
    scores: Map<Ulid, u32>,
    filter: RecallFilterModel,
)
    requires
        s.names_its_memories(),
        drafts.dom().finite(),
    ensures
        each_once(s.gathered_evidence(drafts, scores, filter)),
        forall|i: int|
            0 <= i < s.gathered_evidence(drafts, scores, filter).len() ==> s.is_answer(
                #[trigger] s.gathered_evidence(drafts, scores, filter)[i],
                filter,
            ),
{
    let ids = in_order(drafts.dom());
    let first = s.answering(ids, drafts, scores, filter, ids.len());
    let opposed = conflict_scores(first, answered_ids(first), first.len());
    let opponents = in_order(opposed.dom());
    let second = s.answering(opponents, Map::empty(), opposed, filter, opponents.len());
    let all = s.gathered_evidence(drafts, scores, filter);
    in_order_lists(drafts.dom());
    conflicts_are_new(first, answered_ids(first), first.len());
    in_order_lists(opposed.dom());
    answering_once(s, ids, drafts, scores, filter, ids.len());
    answering_once(s, opponents, Map::empty(), opposed, filter, opponents.len());
    assert forall|i: int| 0 <= i < all.len() implies s.is_answer(#[trigger] all[i], filter) by {
        if i < first.len() {
            let _ = answering_are(s, ids, drafts, scores, filter, ids.len(), i);
        } else {
            let _ = answering_are(s, opponents, Map::empty(), opposed, filter, opponents.len(), i - first.len());
        }
    }
    assert forall|i: int, j: int| 0 <= i < j < all.len() implies (#[trigger] all[i]).node.id != (
    #[trigger] all[j]).node.id by {
        if j < first.len() {
            assert(all[i] == first[i] && all[j] == first[j]);
        } else {
            assert(all[j] == second[j - first.len()]);
            if i < first.len() {
                let k = answering_are(s, opponents, Map::empty(), opposed, filter, opponents.len(), j - first.len());
                assert(opponents.contains(opponents[k]));
                assert(opposed.dom().contains(opponents[k]));
                assert(all[i] == first[i]);
                assert(answered_ids(first).contains(first[i].node.id));
            } else {
                assert(all[i] == second[i - first.len()]);
            }
        }
    }
}

impl SnapshotModel {
    /// Whether evidence tells of a memory of the snapshot what the snapshot holds of it, and
    /// the memory is valid and matches.
    pub open spec fn is_answer(self, item: RecallEvidenceModel, filter: RecallFilterModel) -> bool {
        &&& lookup(self.nodes, item.node.id) == Some(item.node)
        &&& item.node.valid
        &&& filter.matches(item.node)
        &&& item.provenance == in_order(self.sources_of(item.node.id))
        &&& item.conflicts == in_order(self.opponents_of(item.node.id))
        &&& item.verified == (!item.node.fact || item.provenance.len() > 0)
    }
}

/// Whatever answers a query is a memory of the snapshot, valid, matching and trusted, with
/// its sources and opponents; it is verified if it is no fact or has a source. No more
/// answers than were asked for, and no memory answers twice. A better score comes first, and
/// among equals the memory decides.
pub proof fn answers_are_sound(
    s: SnapshotModel,
    drafts: Map<Ulid, EvidenceDraftModel>,
    scores: Map<Ulid, u32>,
    filter: RecallFilterModel,
    limit: usize,
    i: int,
)
    requires
        s.names_its_memories(),
        drafts.dom().finite(),
        0 <= i < s.deterministic_recall(drafts, scores, filter, limit).len(),
    ensures
        s.deterministic_recall(drafts, scores, filter, limit).len() <= limit,
        s.is_answer(s.deterministic_recall(drafts, scores, filter, limit)[i], filter),
        filter.accepts_trust(
            s.deterministic_recall(drafts, scores, filter, limit)[i].node,
            s.deterministic_recall(drafts, scores, filter, limit)[i].verified,
        ),
        forall|j: int|
            0 <= j < i ==> comes_before(
                #[trigger] s.deterministic_recall(drafts, scores, filter, limit)[j],
                s.deterministic_recall(drafts, scores, filter, limit)[i],
            ),
{
    reveal(SnapshotModel::deterministic_recall);
    let evidence = s.gathered_evidence(drafts, scores, filter);
    let found = placed(evidence, filter, evidence.len());
    placed_is_finite(evidence, filter, evidence.len());
    in_order_lists(found.dom());
    gathered_are(s, drafts, scores, filter);
    let places = in_order(found.dom());
    assert(places.contains(places[i]));
    placed_are(evidence, filter, evidence.len(), places[i]);
    let k = choose|k: int| 0 <= k < evidence.len() && found[places[i]] == #[trigger] evidence[k];
    assert forall|j: int| 0 <= j < i implies comes_before(
        #[trigger] s.deterministic_recall(drafts, scores, filter, limit)[j],
        s.deterministic_recall(drafts, scores, filter, limit)[i],
    ) by {
        assert(places.contains(places[j]));
        placed_are(evidence, filter, evidence.len(), places[j]);
        assert(places[j].rank() < places[i].rank());
        let m = choose|m: int| 0 <= m < evidence.len() && found[places[j]] == #[trigger] evidence[m];
        if evidence[m].node.id == evidence[k].node.id {
            assert(m == k);
            assert(places[j] == places[i]);
        }
    }
}

/// Whether one answer comes before another, about another memory: its score is better, or as
/// good and its memory is the smaller one.
pub open spec fn comes_before(first: RecallEvidenceModel, second: RecallEvidenceModel) -> bool {
    &&& first.node.id != second.node.id
    &&& number_rank(first.score_bits) >= number_rank(second.score_bits)
    &&& number_rank(first.score_bits) == number_rank(second.score_bits) ==> first.node.id.0 < second.node.id.0
}

} // verus!
