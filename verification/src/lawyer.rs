//! Verdicts on recalled evidence: what a verdict may speak of, and what is left of the
//! evidence afterwards.
use vstd::prelude::*;
use crate::candidates::answered_ids;
use crate::ids::Ulid;
use crate::order::{Ranked, increasing};
use crate::records::graph::{GraphPath, GraphPathModel, RecallEvidence, RecallEvidenceModel};
use crate::records::verdict::{
    ChangeProposal, ChangeProposalModel, ChangeProposalStatus, ConflictPair, LawyerVerdict,
    LawyerVerdictModel, ProposedChange, ProposedChangeModel,
};
use crate::snapshot::lists_id;
use crate::table::{Replica, Table, replicas, views};

verus! {

/// The most candidates that are laid before a lawyer.
pub const MAX_LAWYER_CANDIDATES: usize = 50;

/// The most bytes of evidence that are laid before a lawyer.
pub const MAX_LAWYER_BYTES: usize = 131_072;

/// Why a verdict is refused.
#[derive(Clone, Copy, Debug, PartialEq, Eq, Structural)]
pub enum VerdictFault {
    /// A candidate outside the evidence set is referenced.
    Candidate,
    /// Evidence outside the evidence set is cited.
    Evidence,
    /// A conflict outside the evidence set is reported.
    Conflict,
    /// The candidate sets contradict one another.
    CandidateSets,
    /// A proposal references memory outside the evidence set.
    Proposal,
}

/// Whether a piece of evidence lets a memory be cited.
pub open spec fn lets_cite(item: RecallEvidenceModel, id: Ulid) -> bool {
    item.node.id == id || item.provenance.contains(id) || item.conflicts.contains(id)
}

/// The memories that evidence lets be cited.
pub open spec fn citable(evidence: Seq<RecallEvidenceModel>) -> Set<Ulid> {
    Set::new(|id: Ulid| exists|i: int| 0 <= i < evidence.len() && lets_cite(#[trigger] evidence[i], id))
}

/// Whether a way runs through a memory or rests on it.
pub open spec fn way_mentions(path: GraphPathModel, id: Ulid) -> bool {
    path.nodes.contains(id) || exists|e: int|
        0 <= e < path.edges.len() && (#[trigger] path.edges[e]).evidence.contains(id)
}

/// Whether a piece of evidence mentions a memory.
pub open spec fn mentions(item: RecallEvidenceModel, id: Ulid) -> bool {
    lets_cite(item, id) || exists|p: int|
        0 <= p < item.graph_paths.len() && way_mentions(#[trigger] item.graph_paths[p], id)
}

/// The memories that evidence mentions.
pub open spec fn mentioned(evidence: Seq<RecallEvidenceModel>) -> Set<Ulid> {
    Set::new(|id: Ulid| exists|i: int| 0 <= i < evidence.len() && mentions(#[trigger] evidence[i], id))
}

/// Whether a piece of evidence shows that two memories contradict each other.
pub open spec fn shows_conflict(item: RecallEvidenceModel, pair: ConflictPair) -> bool {
    (item.node.id == pair.left && item.conflicts.contains(pair.right)) || (item.node.id == pair.right
        && item.conflicts.contains(pair.left))
}

/// Whether some evidence shows a conflict.
pub open spec fn conflict_is_known(evidence: Seq<RecallEvidenceModel>, pair: ConflictPair) -> bool {
    exists|i: int| 0 <= i < evidence.len() && shows_conflict(#[trigger] evidence[i], pair)
}

/// Whether all memories of a list are in a set.
pub open spec fn all_among(ids: Seq<Ulid>, allowed: Set<Ulid>) -> bool {
    forall|i: int| 0 <= i < ids.len() ==> allowed.contains(#[trigger] ids[i])
}

impl LawyerVerdictModel {
    /// Whether the verdict speaks of candidates only.
    pub open spec fn keeps_to_candidates(self, evidence: Seq<RecallEvidenceModel>) -> bool {
        let candidates = answered_ids(evidence);
        &&& all_among(self.accepted_candidate_ids, candidates)
        &&& all_among(self.rejected_candidate_ids, candidates)
        &&& all_among(self.final_order, candidates)
        &&& forall|i: int|
            0 <= i < self.annotations.len() ==> candidates.contains((#[trigger] self.annotations[i]).candidate_id)
    }

    /// Whether the verdict cites nothing but what it was shown.
    pub open spec fn keeps_to_evidence(self, evidence: Seq<RecallEvidenceModel>) -> bool {
        let cited = citable(evidence);
        &&& all_among(self.cited_evidence_ids, cited)
        &&& forall|i: int|
            0 <= i < self.annotations.len() ==> all_among((#[trigger] self.annotations[i]).evidence_ids, cited)
    }

    /// Whether the verdict reports only conflicts that it was shown.
    pub open spec fn keeps_to_conflicts(self, evidence: Seq<RecallEvidenceModel>) -> bool {
        forall|i: int|
            0 <= i < self.unresolved_conflicts.len() ==> conflict_is_known(
                evidence,
                #[trigger] self.unresolved_conflicts[i],
            )
    }

    /// Whether no candidate is accepted and rejected, and the order lists accepted
    /// candidates, each once.
    pub open spec fn is_consistent(self) -> bool {
        &&& forall|i: int|
            0 <= i < self.accepted_candidate_ids.len() ==> !self.rejected_candidate_ids.contains(
                #[trigger] self.accepted_candidate_ids[i],
            )
        &&& all_among(self.final_order, self.accepted_candidate_ids.to_set())
        &&& self.final_order.no_duplicates()
    }

    /// What is wrong with the verdict.
    pub open spec fn fault(self, evidence: Seq<RecallEvidenceModel>) -> Option<VerdictFault> {
        if !self.keeps_to_candidates(evidence) {
            Some(VerdictFault::Candidate)
        } else if !self.keeps_to_evidence(evidence) {
            Some(VerdictFault::Evidence)
        } else if !self.keeps_to_conflicts(evidence) {
            Some(VerdictFault::Conflict)
        } else if !self.is_consistent() {
            Some(VerdictFault::CandidateSets)
        } else {
            None
        }
    }
}

impl ProposedChangeModel {
    /// Whether the change touches nothing outside a set of memories.
    pub open spec fn stays_among(self, allowed: Set<Ulid>) -> bool {
        match self {
            ProposedChangeModel::SetValidity { node_id, .. } => allowed.contains(node_id),
            ProposedChangeModel::SetState { node_id, .. } => allowed.contains(node_id),
            ProposedChangeModel::AddEdge { edge, .. } => allowed.contains(edge.src) && allowed.contains(edge.dst)
                && all_among(edge.evidence, allowed),
        }
    }
}

impl ChangeProposalModel {
    /// Whether no change of the proposal touches anything outside a set of memories.
    pub open spec fn stays_among(self, allowed: Set<Ulid>) -> bool {
        forall|i: int| 0 <= i < self.changes.len() ==> (#[trigger] self.changes[i]).stays_among(allowed)
    }
}

/// The members of a set that is kept as a list.
pub open spec fn members(set: &Ranked<Ulid>) -> Set<Ulid> {
    set@.to_set()
}

/// Adds a list of memories to a set.
pub fn gather_ids(set: &mut Ranked<Ulid>, ids: &Vec<Ulid>)
    ensures
        increasing(old(set)@) ==> increasing(final(set)@),
        forall|id: Ulid| #[trigger] final(set)@.contains(id) <==> old(set)@.contains(id) || ids@.contains(id),
{
    let ghost start = set@;
    for i in 0..ids.len()
        invariant
            increasing(start) ==> increasing(set@),
            forall|id: Ulid| #[trigger]
                set@.contains(id) <==> start.contains(id) || ids@.take(i as int).contains(id),
    {
        let ghost before = set@;
        set.insert(ids[i]);
        proof {
            let now = ids@.take(i + 1);
            assert(now =~= ids@.take(i as int).push(ids@[i as int]));
            assert forall|id: Ulid| #[trigger] set@.contains(id) <==> start.contains(id) || now.contains(id) by {
                if ids@.take(i as int).contains(id) {
                    let k = choose|k: int| 0 <= k < i && ids@.take(i as int)[k] == id;
                    assert(now[k] == id);
                }
                if id == ids@[i as int] {
                    assert(now[i as int] == id);
                }
                if now.contains(id) && id != ids@[i as int] {
                    let k = choose|k: int| 0 <= k < i + 1 && now[k] == id;
                    assert(ids@.take(i as int)[k] == id);
                }
            }
        }
    }
    assert(ids@.take(ids@.len() as int) =~= ids@);
}

fn are_among(ids: &Vec<Ulid>, allowed: &Ranked<Ulid>) -> (r: bool)
    ensures
        r == all_among(ids@, members(allowed)),
{
    for i in 0..ids.len()
        invariant
            forall|j: int| 0 <= j < i ==> members(allowed).contains(#[trigger] ids@[j]),
    {
        if !allowed.contains(&ids[i]) {
            assert(!members(allowed).contains(ids@[i as int]));
            return false;
        }
    }
    true
}

/// The memories that evidence is about.
pub fn candidate_ids(evidence: &Vec<RecallEvidence>) -> (r: Ranked<Ulid>)
    ensures
        members(&r) == answered_ids(views(evidence@)),
{
    let ghost all = views(evidence@);
    assert(all.len() == evidence@.len());
    let mut r: Ranked<Ulid> = Ranked::new();
    for i in 0..evidence.len()
        invariant
            all == views(evidence@),
            all.len() == evidence@.len(),
            forall|id: Ulid| #[trigger]
                r@.contains(id) <==> exists|j: int| 0 <= j < i && (#[trigger] all[j]).node.id == id,
    {
        assert(views(evidence@)[i as int] == evidence@[i as int]@);
        let ghost before = r@;
        r.insert(evidence[i].node.id);
        proof {
            assert forall|id: Ulid| #[trigger] r@.contains(id) <==> exists|j: int|
                0 <= j < i + 1 && (#[trigger] all[j]).node.id == id by {
                if before.contains(id) {
                    let j = choose|j: int| 0 <= j < i && (#[trigger] all[j]).node.id == id;
                    assert(all[j].node.id == id);
                }
                if all[i as int].node.id == id {
                    assert(r@.contains(id));
                }
            }
        }
    }
    assert(members(&r) =~= answered_ids(all));
    r
}

fn citable_ids(evidence: &Vec<RecallEvidence>) -> (r: Ranked<Ulid>)
    ensures
        members(&r) == citable(views(evidence@)),
{
    let ghost all = views(evidence@);
    assert(all.len() == evidence@.len());
    let mut r: Ranked<Ulid> = Ranked::new();
    for i in 0..evidence.len()
        invariant
            all == views(evidence@),
            all.len() == evidence@.len(),
            forall|id: Ulid| #[trigger]
                r@.contains(id) <==> exists|j: int| 0 <= j < i && lets_cite(#[trigger] all[j], id),
    {
        assert(views(evidence@)[i as int] == evidence@[i as int]@);
        let ghost before = r@;
        r.insert(evidence[i].node.id);
        gather_ids(&mut r, &evidence[i].provenance);
        gather_ids(&mut r, &evidence[i].conflicts);
        proof {
            assert forall|id: Ulid| #[trigger] r@.contains(id) <==> exists|j: int|
                0 <= j < i + 1 && lets_cite(#[trigger] all[j], id) by {
                assert(r@.contains(id) <==> before.contains(id) || lets_cite(all[i as int], id));
                if before.contains(id) {
                    let j = choose|j: int| 0 <= j < i && lets_cite(#[trigger] all[j], id);
                    assert(lets_cite(all[j], id));
                }
            }
        }
    }
    assert(members(&r) =~= citable(all));
    r
}

fn gather_way(set: &mut Ranked<Ulid>, path: &GraphPath)
    ensures
        forall|id: Ulid| #[trigger] final(set)@.contains(id) <==> old(set)@.contains(id) || way_mentions(path@, id),
{
    let ghost start = set@;
    let ghost all = path@.edges;
    assert(all.len() == path.edges@.len());
    gather_ids(set, &path.nodes);
    let ghost begun = set@;
    for i in 0..path.edges.len()
        invariant
            all == views(path.edges@),
            all.len() == path.edges@.len(),
            forall|id: Ulid| #[trigger]
                set@.contains(id) <==> begun.contains(id) || exists|j: int|
                    0 <= j < i && (#[trigger] all[j]).evidence.contains(id),
    {
        assert(views(path.edges@)[i as int] == path.edges@[i as int]@);
        let ghost before = set@;
        gather_ids(set, &path.edges[i].evidence);
        proof {
            assert forall|id: Ulid| #[trigger] set@.contains(id) <==> begun.contains(id) || exists|j: int|
                0 <= j < i + 1 && (#[trigger] all[j]).evidence.contains(id) by {
                assert(set@.contains(id) <==> before.contains(id) || all[i as int].evidence.contains(id));
                if before.contains(id) && !begun.contains(id) {
                    let j = choose|j: int| 0 <= j < i && (#[trigger] all[j]).evidence.contains(id);
                    assert(all[j].evidence.contains(id));
                }
            }
        }
    }
    assert forall|id: Ulid| #[trigger] set@.contains(id) <==> start.contains(id) || way_mentions(path@, id) by {
        assert(begun.contains(id) <==> start.contains(id) || path@.nodes.contains(id));
    }
}

fn gather_ways(set: &mut Ranked<Ulid>, paths: &Vec<GraphPath>)
    ensures
        forall|id: Ulid| #[trigger]
            final(set)@.contains(id) <==> old(set)@.contains(id) || exists|p: int|
                0 <= p < views(paths@).len() && way_mentions(#[trigger] views(paths@)[p], id),
{
    let ghost all = views(paths@);
    let ghost start = set@;
    assert(all.len() == paths@.len());
    for p in 0..paths.len()
        invariant
            all == views(paths@),
            all.len() == paths@.len(),
            forall|id: Ulid| #[trigger]
                set@.contains(id) <==> start.contains(id) || exists|q: int|
                    0 <= q < p && way_mentions(#[trigger] all[q], id),
    {
        assert(views(paths@)[p as int] == paths@[p as int]@);
        let ghost walked = set@;
        gather_way(set, &paths[p]);
        proof {
            assert forall|id: Ulid| #[trigger] set@.contains(id) <==> start.contains(id) || exists|q: int|
                0 <= q < p + 1 && way_mentions(#[trigger] all[q], id) by {
                assert(set@.contains(id) <==> walked.contains(id) || way_mentions(all[p as int], id));
                if walked.contains(id) && !start.contains(id) {
                    let q = choose|q: int| 0 <= q < p && way_mentions(#[trigger] all[q], id);
                    assert(way_mentions(all[q], id));
                }
            }
        }
    }
}

/// The memories that evidence mentions: what a proposal may touch.
pub fn allowed_evidence_ids(evidence: &Vec<RecallEvidence>) -> (r: Ranked<Ulid>)
    ensures
        members(&r) == mentioned(views(evidence@)),
{
    let ghost all = views(evidence@);
    assert(all.len() == evidence@.len());
    let mut r: Ranked<Ulid> = Ranked::new();
    for i in 0..evidence.len()
        invariant
            all == views(evidence@),
            all.len() == evidence@.len(),
            forall|id: Ulid| #[trigger]
                r@.contains(id) <==> exists|j: int| 0 <= j < i && mentions(#[trigger] all[j], id),
    {
        assert(views(evidence@)[i as int] == evidence@[i as int]@);
        let ghost before = r@;
        r.insert(evidence[i].node.id);
        gather_ids(&mut r, &evidence[i].provenance);
        gather_ids(&mut r, &evidence[i].conflicts);
        let ghost begun = r@;
        gather_ways(&mut r, &evidence[i].graph_paths);
        proof {
            assert forall|id: Ulid| #[trigger] r@.contains(id) <==> exists|j: int|
                0 <= j < i + 1 && mentions(#[trigger] all[j], id) by {
                assert(begun.contains(id) <==> before.contains(id) || lets_cite(all[i as int], id));
                assert(all[i as int].graph_paths == views(evidence@[i as int].graph_paths@));
                assert(r@.contains(id) <==> before.contains(id) || mentions(all[i as int], id));
                if before.contains(id) {
                    let j = choose|j: int| 0 <= j < i && mentions(#[trigger] all[j], id);
                    assert(mentions(all[j], id));
                }
            }
        }
    }
    assert(members(&r) =~= mentioned(all));
    r
}

/// Whether evidence shows a conflict, in whichever order the two memories are named.
fn knows_conflict(evidence: &Vec<RecallEvidence>, pair: ConflictPair) -> (r: bool)
    ensures
        r == conflict_is_known(views(evidence@), pair),
{
    let ghost all = views(evidence@);
    assert(all.len() == evidence@.len());
    for i in 0..evidence.len()
        invariant
            all == views(evidence@),
            all.len() == evidence@.len(),
            forall|j: int| 0 <= j < i ==> !shows_conflict(#[trigger] all[j], pair),
    {
        assert(views(evidence@)[i as int] == evidence@[i as int]@);
        let id: Ulid = evidence[i].node.id;
        if (id == pair.left && lists_id(&evidence[i].conflicts, pair.right)) || (id == pair.right && lists_id(
            &evidence[i].conflicts,
            pair.left,
        )) {
            assert(shows_conflict(all[i as int], pair));
            return true;
        }
    }
    false
}

impl LawyerVerdict {
    fn keeps_to_candidates(&self, evidence: &Vec<RecallEvidence>) -> (r: bool)
        ensures
            r == self@.keeps_to_candidates(views(evidence@)),
    {
        let candidates = candidate_ids(evidence);
        if !are_among(&self.accepted_candidate_ids, &candidates) || !are_among(
            &self.rejected_candidate_ids,
            &candidates,
        ) || !are_among(&self.final_order, &candidates) {
            return false;
        }
        let ghost all = self@.annotations;
        assert(all.len() == self.annotations@.len());
        for i in 0..self.annotations.len()
            invariant
                all == views(self.annotations@),
                all == self@.annotations,
                all.len() == self.annotations@.len(),
                members(&candidates) == answered_ids(views(evidence@)),
                forall|j: int| 0 <= j < i ==> members(&candidates).contains((#[trigger] all[j]).candidate_id),
        {
            assert(views(self.annotations@)[i as int] == self.annotations@[i as int]@);
            if !candidates.contains(&self.annotations[i].candidate_id) {
                assert(!members(&candidates).contains(all[i as int].candidate_id));
                return false;
            }
        }
        true
    }

    fn keeps_to_evidence(&self, evidence: &Vec<RecallEvidence>) -> (r: bool)
        ensures
            r == self@.keeps_to_evidence(views(evidence@)),
    {
        let cited = citable_ids(evidence);
        if !are_among(&self.cited_evidence_ids, &cited) {
            return false;
        }
        let ghost all = self@.annotations;
        assert(all.len() == self.annotations@.len());
        for i in 0..self.annotations.len()
            invariant
                all == views(self.annotations@),
                all == self@.annotations,
                all.len() == self.annotations@.len(),
                members(&cited) == citable(views(evidence@)),
                forall|j: int| 0 <= j < i ==> all_among((#[trigger] all[j]).evidence_ids, members(&cited)),
        {
            assert(views(self.annotations@)[i as int] == self.annotations@[i as int]@);
            if !are_among(&self.annotations[i].evidence_ids, &cited) {
                assert(!all_among(all[i as int].evidence_ids, members(&cited)));
                return false;
            }
        }
        true
    }

    fn keeps_to_conflicts(&self, evidence: &Vec<RecallEvidence>) -> (r: bool)
        ensures
            r == self@.keeps_to_conflicts(views(evidence@)),
    {
        for i in 0..self.unresolved_conflicts.len()
            invariant
                forall|j: int|
                    0 <= j < i ==> conflict_is_known(views(evidence@), #[trigger] self.unresolved_conflicts@[j]),
        {
            if !knows_conflict(evidence, self.unresolved_conflicts[i]) {
                assert(!conflict_is_known(views(evidence@), self@.unresolved_conflicts[i as int]));
                return false;
            }
        }
        true
    }

    fn is_consistent(&self) -> (r: bool)
        ensures
            r == self@.is_consistent(),
    {
        for i in 0..self.accepted_candidate_ids.len()
            invariant
                forall|j: int|
                    0 <= j < i ==> !self.rejected_candidate_ids@.contains(#[trigger] self.accepted_candidate_ids@[j]),
        {
            if lists_id(&self.rejected_candidate_ids, self.accepted_candidate_ids[i]) {
                assert(self@.rejected_candidate_ids.contains(self@.accepted_candidate_ids[i as int]));
                return false;
            }
        }
        let mut seen: Ranked<Ulid> = Ranked::new();
        for i in 0..self.final_order.len()
            invariant
                forall|j: int|
                    0 <= j < i ==> self.accepted_candidate_ids@.to_set().contains(#[trigger] self.final_order@[j]),
                forall|id: Ulid| #[trigger]
                    seen@.contains(id) <==> exists|j: int| 0 <= j < i && #[trigger] self.final_order@[j] == id,
                forall|j: int, k: int| 0 <= j < k < i ==> self.final_order@[j] != self.final_order@[k],
        {
            let id = self.final_order[i];
            if !lists_id(&self.accepted_candidate_ids, id) {
                assert(!self@.accepted_candidate_ids.to_set().contains(self@.final_order[i as int]));
                return false;
            }
            let ghost before = seen@;
            if !seen.insert(id) {
                proof {
                    assert(before.contains(id));
                    let j = choose|j: int| 0 <= j < i && #[trigger] self.final_order@[j] == id;
                    assert(self@.final_order[j] == self@.final_order[i as int]);
                }
                return false;
            }
            proof {
                assert forall|other: Ulid| #[trigger] seen@.contains(other) <==> exists|j: int|
                    0 <= j < i + 1 && #[trigger] self.final_order@[j] == other by {
                    if before.contains(other) {
                        let j = choose|j: int| 0 <= j < i && #[trigger] self.final_order@[j] == other;
                        assert(self.final_order@[j] == other);
                    }
                    if other == id {
                        assert(self.final_order@[i as int] == other);
                    }
                }
                assert(!before.contains(id));
                assert forall|j: int, k: int| 0 <= j < k < i + 1 implies self.final_order@[j]
                    != self.final_order@[k] by {
                    if k == i && self.final_order@[j] == id {
                        assert(before.contains(id));
                    }
                }
            }
        }
        true
    }
}

/// Checks that a verdict speaks of nothing but the evidence that it was given, and does
/// not contradict itself.
pub fn validate_verdict(verdict: &LawyerVerdict, evidence: &Vec<RecallEvidence>) -> (r: Result<(), VerdictFault>)
    ensures
        match r {
            Ok(_) => verdict@.fault(views(evidence@)) is None,
            Err(fault) => verdict@.fault(views(evidence@)) == Some(fault),
        },
{
    if !verdict.keeps_to_candidates(evidence) {
        return Err(VerdictFault::Candidate);
    }
    if !verdict.keeps_to_evidence(evidence) {
        return Err(VerdictFault::Evidence);
    }
    if !verdict.keeps_to_conflicts(evidence) {
        return Err(VerdictFault::Conflict);
    }
    if !verdict.is_consistent() {
        return Err(VerdictFault::CandidateSets);
    }
    Ok(())
}

impl ProposedChange {
    fn stays_among(&self, allowed: &Ranked<Ulid>) -> (r: bool)
        ensures
            r == self@.stays_among(members(allowed)),
    {
        match self {
            ProposedChange::SetValidity { node_id, .. } => allowed.contains(node_id),
            ProposedChange::SetState { node_id, .. } => allowed.contains(node_id),
            ProposedChange::AddEdge { edge, .. } => allowed.contains(&edge.src) && allowed.contains(&edge.dst)
                && are_among(&edge.evidence, allowed),
        }
    }
}

/// Checks that a proposal touches nothing but the memories that the evidence mentions.
pub fn validate_proposal_scope(proposal: &ChangeProposal, allowed: &Ranked<Ulid>) -> (r: Result<(), VerdictFault>)
    ensures
        match r {
            Ok(_) => proposal@.stays_among(members(allowed)),
            Err(fault) => fault == VerdictFault::Proposal && !proposal@.stays_among(members(allowed)),
        },
{
    let ghost all = proposal@.changes;
    assert(all.len() == proposal.changes@.len());
    for i in 0..proposal.changes.len()
        invariant
            all == views(proposal.changes@),
            all == proposal@.changes,
            all.len() == proposal.changes@.len(),
            forall|j: int| 0 <= j < i ==> (#[trigger] all[j]).stays_among(members(allowed)),
    {
        assert(views(proposal.changes@)[i as int] == proposal.changes@[i as int]@);
        if !proposal.changes[i].stays_among(allowed) {
            assert(!all[i as int].stays_among(members(allowed)));
            return Err(VerdictFault::Proposal);
        }
    }
    Ok(())
}

/// The evidence of accepted candidates among the first `n` pieces, by candidate.
pub open spec fn accepted_evidence(evidence: Seq<RecallEvidenceModel>, accepted: Seq<Ulid>, n: nat) -> Map<
    Ulid,
    RecallEvidenceModel,
>
    decreases n,
{
    if n == 0 {
        Map::empty()
    } else {
        let before = accepted_evidence(evidence, accepted, (n - 1) as nat);
        if accepted.contains(evidence[n - 1].node.id) {
            before.insert(evidence[n - 1].node.id, evidence[n - 1])
        } else {
            before
        }
    }
}

/// What is left of a pool, and what was drawn from it, after the first `n` memories of a
/// list were drawn.
pub open spec fn drawn(pool: Map<Ulid, RecallEvidenceModel>, ids: Seq<Ulid>, n: nat) -> (
    Map<Ulid, RecallEvidenceModel>,
    Seq<RecallEvidenceModel>,
)
    decreases n,
{
    if n == 0 {
        (pool, Seq::empty())
    } else {
        let (left, out) = drawn(pool, ids, (n - 1) as nat);
        if left.contains_key(ids[n - 1]) {
            (left.remove(ids[n - 1]), out.push(left[ids[n - 1]]))
        } else {
            (left, out)
        }
    }
}

/// The memories that evidence is about, in its order.
pub open spec fn evidence_ids(evidence: Seq<RecallEvidenceModel>) -> Seq<Ulid> {
    Seq::new(evidence.len(), |i: int| evidence[i].node.id)
}

impl LawyerVerdictModel {
    /// The evidence that a verdict leaves: accepted candidates, those that it orders
    /// first, and the others as they came.
    pub open spec fn leaves(self, evidence: Seq<RecallEvidenceModel>) -> Seq<RecallEvidenceModel> {
        let pool = accepted_evidence(evidence, self.accepted_candidate_ids, evidence.len());
        let (left, first) = drawn(pool, self.final_order, self.final_order.len());
        first + drawn(left, evidence_ids(evidence), evidence.len()).1
    }
}

fn draw_evidence(pool: &mut Table<Ulid, RecallEvidence>, out: &mut Vec<RecallEvidence>, ids: &Vec<Ulid>)
    ensures
        final(pool)@ == drawn(old(pool)@, ids@, ids@.len()).0,
        views(final(out)@) == views(old(out)@) + drawn(old(pool)@, ids@, ids@.len()).1,
{
    let ghost start = pool@;
    let ghost begun = views(out@);
    assert(begun + Seq::<RecallEvidenceModel>::empty() =~= begun);
    for i in 0..ids.len()
        invariant
            pool@ == drawn(start, ids@, i as nat).0,
            views(out@) == begun + drawn(start, ids@, i as nat).1,
    {
        let found: Option<RecallEvidence> = match pool.get(&ids[i]) {
            Some(item) => Some(item.replica()),
            None => None,
        };
        if let Some(item) = found {
            let ghost before = out@;
            let ghost taken = drawn(start, ids@, i as nat).1;
            out.push(item);
            pool.remove(&ids[i]);
            assert(views(out@) =~= views(before).push(item@));
            assert((begun + taken).push(item@) =~= begun + taken.push(item@));
        }
    }
}

/// The evidence that a verdict leaves.
pub fn ruled_evidence(verdict: &LawyerVerdict, evidence: &Vec<RecallEvidence>) -> (r: Vec<RecallEvidence>)
    ensures
        views(r@) == verdict@.leaves(views(evidence@)),
{
    let ghost all = views(evidence@);
    assert(all.len() == evidence@.len());
    let mut pool: Table<Ulid, RecallEvidence> = Table::new();
    let mut ids: Vec<Ulid> = Vec::new();
    for i in 0..evidence.len()
        invariant
            all == views(evidence@),
            all.len() == evidence@.len(),
            pool@ == accepted_evidence(all, verdict.accepted_candidate_ids@, i as nat),
            ids@ == evidence_ids(all).take(i as int),
    {
        assert(views(evidence@)[i as int] == evidence@[i as int]@);
        let id: Ulid = evidence[i].node.id;
        if lists_id(&verdict.accepted_candidate_ids, id) {
            pool.insert(id, evidence[i].replica());
        }
        ids.push(id);
        assert(ids@ =~= evidence_ids(all).take(i + 1));
    }
    assert(ids@ =~= evidence_ids(all));
    let mut out: Vec<RecallEvidence> = Vec::new();
    draw_evidence(&mut pool, &mut out, &verdict.final_order);
    let ghost first = views(out@);
    draw_evidence(&mut pool, &mut out, &ids);
    proof {
        let start = accepted_evidence(all, verdict@.accepted_candidate_ids, all.len());
        let none = Seq::<RecallEvidenceModel>::empty();
        assert(first =~= drawn(start, verdict@.final_order, verdict@.final_order.len()).1);
    }
    out
}

/// The bytes that a list of values takes up: brackets, the values and the commas between
/// them.
pub open spec fn list_bytes(sizes: Seq<usize>, n: nat) -> int
    decreases n,
{
    if n == 0 {
        2
    } else if n == 1 {
        2 + sizes[0]
    } else {
        list_bytes(sizes, (n - 1) as nat) + sizes[n - 1] + 1
    }
}

/// How many candidates, given by the bytes that each takes up, are laid before a lawyer:
/// as many as fit, from the first one on.
pub fn bounded_evidence_payload(sizes: &Vec<usize>, evidence_limit: usize) -> (r: usize)
    ensures
        r <= sizes@.len(),
        r <= evidence_limit,
        r <= MAX_LAWYER_CANDIDATES,
        r > 0 ==> list_bytes(sizes@, r as nat) <= MAX_LAWYER_BYTES,
        r == sizes@.len() || r == evidence_limit || r == MAX_LAWYER_CANDIDATES || list_bytes(sizes@, (r + 1) as nat)
            > MAX_LAWYER_BYTES,
{
    let mut kept: usize = 0;
    let mut bytes: usize = 2;
    while kept < sizes.len() && kept < evidence_limit && kept < MAX_LAWYER_CANDIDATES
        invariant
            kept <= sizes@.len(),
            kept <= evidence_limit,
            kept <= MAX_LAWYER_CANDIDATES,
            bytes == list_bytes(sizes@, kept as nat),
            bytes <= MAX_LAWYER_BYTES,
        decreases sizes@.len() - kept,
    {
        let room: usize = MAX_LAWYER_BYTES - bytes;
        if sizes[kept] > room || (kept > 0 && sizes[kept] == room) {
            return kept;
        }
        bytes = bytes + sizes[kept];
        if kept > 0 {
            bytes = bytes + 1;
        }
        kept = kept + 1;
    }
    kept
}

/// A proposal of a verdict as it is kept: pending, under a name of its own, with where
/// and when it came up.
pub fn admitted_proposal(proposal: &ChangeProposal, id: Ulid, operation_id: Ulid, now_ms: i64) -> (r: ChangeProposal)
    ensures
        r@ == (ChangeProposalModel {
            id,
            status: ChangeProposalStatus::Pending,
            source_operation: Some(operation_id),
            created_at_ms: now_ms,
            applied_at_ms: None,
            next_change: 0,
            ..proposal@
        }),
{
    ChangeProposal {
        id,
        reason: proposal.reason.clone(),
        changes: replicas(&proposal.changes),
        status: ChangeProposalStatus::Pending,
        source_operation: Some(operation_id),
        created_at_ms: now_ms,
        applied_at_ms: None,
        next_change: 0,
    }
}

proof fn pool_is_accepted(evidence: Seq<RecallEvidenceModel>, accepted: Seq<Ulid>, n: nat, id: Ulid)
    requires
        n <= evidence.len(),
        accepted_evidence(evidence, accepted, n).contains_key(id),
    ensures
        accepted.contains(id),
        accepted_evidence(evidence, accepted, n)[id].node.id == id,
        evidence.contains(accepted_evidence(evidence, accepted, n)[id]),
    decreases n,
{
    if n > 0 {
        if accepted.contains(evidence[n - 1].node.id) && id == evidence[n - 1].node.id {
            assert(evidence.contains(evidence[n - 1]));
        } else {
            pool_is_accepted(evidence, accepted, (n - 1) as nat, id);
        }
    }
}

spec fn in_pool(pool: Map<Ulid, RecallEvidenceModel>, item: RecallEvidenceModel) -> bool {
    exists|id: Ulid| #[trigger] pool.contains_key(id) && pool[id] == item
}

proof fn drawn_are_from_pool(pool: Map<Ulid, RecallEvidenceModel>, ids: Seq<Ulid>, n: nat)
    ensures
        drawn(pool, ids, n).0.submap_of(pool),
        forall|i: int| 0 <= i < drawn(pool, ids, n).1.len() ==> in_pool(pool, #[trigger] drawn(pool, ids, n).1[i]),
    decreases n,
{
    if n > 0 {
        drawn_are_from_pool(pool, ids, (n - 1) as nat);
        let (left, out) = drawn(pool, ids, (n - 1) as nat);
        if left.contains_key(ids[n - 1]) {
            assert(pool.contains_key(ids[n - 1]));
            assert(in_pool(pool, left[ids[n - 1]]));
            assert forall|i: int| 0 <= i < drawn(pool, ids, n).1.len() implies in_pool(
                pool,
                #[trigger] drawn(pool, ids, n).1[i],
            ) by {
                if i < out.len() {
                    assert(drawn(pool, ids, n).1[i] == out[i]);
                }
            }
        }
    }
}

/// A verdict leaves nothing but evidence that it was given and whose candidate it accepts.
pub proof fn verdicts_leave_accepted_evidence(
    verdict: LawyerVerdictModel,
    evidence: Seq<RecallEvidenceModel>,
    i: int,
)
    requires
        0 <= i < verdict.leaves(evidence).len(),
    ensures
        evidence.contains(verdict.leaves(evidence)[i]),
        verdict.accepted_candidate_ids.contains(verdict.leaves(evidence)[i].node.id),
{
    let accepted = verdict.accepted_candidate_ids;
    let pool = accepted_evidence(evidence, accepted, evidence.len());
    let (left, first) = drawn(pool, verdict.final_order, verdict.final_order.len());
    drawn_are_from_pool(pool, verdict.final_order, verdict.final_order.len());
    drawn_are_from_pool(left, evidence_ids(evidence), evidence.len());
    let rest = drawn(left, evidence_ids(evidence), evidence.len()).1;
    let item = verdict.leaves(evidence)[i];
    if i < first.len() {
        assert(item == first[i]);
    } else {
        assert(item == rest[i - first.len()]);
    }
    if i >= first.len() {
        let from = choose|from: Ulid| #[trigger] left.contains_key(from) && left[from] == item;
        assert(pool.contains_key(from));
    }
    assert(in_pool(pool, item));
    let id = choose|id: Ulid| #[trigger] pool.contains_key(id) && pool[id] == item;
    pool_is_accepted(evidence, accepted, evidence.len(), id);
}

} // verus!
