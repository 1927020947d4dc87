//! Proposed changes of the memory graph: when one may be made, and how one that was begun
//! is carried on.
use vstd::prelude::*;
use crate::applying::Applied;
use crate::ids::Ulid;
use crate::inspect::lookup;
use crate::records::graph::{EdgeFacts, EdgeFactsModel};
use crate::records::verdict::{
    ChangeProposal, ChangeProposalModel, ChangeProposalStatus, ProposedChange,
    ProposedChangeModel, StateMark,
};
use crate::snapshot::{Snapshot, SnapshotModel};
use crate::store::Write;
use crate::table::{Replica, opt_view, views};
use crate::wordlist::same_text;

verus! {

/// The names of the relations that may be proposed.
pub open spec fn proposable(label: Seq<char>) -> bool {
    label == "contains"@ || label == "derived_from"@ || label == "causes"@ || label == "enables"@ || label
        == "prevents"@ || label == "contradicts"@ || label == "supersedes"@
}

/// Why a change is not made.
#[derive(Clone, Copy, Debug, PartialEq, Eq, Structural)]
pub enum ChangeFault {
    /// The memory is not there.
    NotFound,
    /// The memory was revised since the change was proposed.
    StaleRevision { node_id: Ulid, expected: u64, found: u64 },
    /// The proposed validity ends before it begins.
    ValidityInterval,
    /// Relations of that name are not proposed.
    Relation,
    /// A memory cannot be derived from itself.
    SelfDerivation,
    /// The weight is not between zero and one.
    RelationWeight,
    /// The validity of the relation ends before it begins.
    EdgeInterval,
    /// The same relation is proposed twice.
    DuplicateEdge { change: usize },
    /// The relation is already there.
    ExistingEdge { change: usize },
    /// The relation rests on a memory that is not there.
    MissingEvidence { node_id: Ulid },
    /// The proposal can no longer be applied.
    NotApplicable,
    /// The proposal is not being applied.
    NotApplying,
    /// The proposal counts more changes as made than it has.
    Cursor { next_change: usize, changes: usize },
    /// The proposal is not pending.
    NotPending,
    /// The memory stands neither before nor after the change.
    ResumeConflict { node_id: Ulid, before: u64, after: u64, found: u64 },
    /// The relation changed while the proposal was being applied.
    EdgeChanged,
    /// The source of the relation was revised while the proposal was being applied.
    SourceRevision { node_id: Ulid, expected: u64, found: u64 },
    /// The destination of the relation was revised while the proposal was being applied.
    DestinationRevision { node_id: Ulid, expected: u64, found: u64 },
}

/// What a change reads of a memory and sets in it.
#[derive(Clone, Copy, Debug, PartialEq, Eq, Structural)]
pub struct NodeStanding {
    pub revision: u64,
    pub valid_from_ms: Option<i64>,
    pub valid_to_ms: Option<i64>,
    pub state: StateMark,
}

/// What is left to do for a change of a memory.
#[derive(Clone, Copy, Debug, PartialEq, Eq, Structural)]
pub enum NodeStep {
    /// The change is made; only the indexes may lag behind.
    Settled,
    /// The memory is written so, as its next revision.
    Write(NodeStanding),
}

/// What is left to do for a new relation.
#[derive(Clone, Copy, Debug, PartialEq, Eq, Structural)]
pub enum EdgeStep {
    Settled,
    Add,
}

/// Whether a span of time ends before it begins, where both ends are given.
pub open spec fn ends_early(from: Option<i64>, to: Option<i64>) -> bool {
    match (from, to) {
        (Some(from), Some(to)) => from >= to,
        _ => false,
    }
}

fn span_ends_early(from: Option<i64>, to: Option<i64>) -> (r: bool)
    ensures
        r == ends_early(from, to),
{
    match (from, to) {
        (Some(from), Some(to)) => from >= to,
        _ => false,
    }
}

/// Whether bits stand for a number between zero and one.
pub open spec fn unit_weight(bits: u32) -> bool {
    bits <= 0x3f80_0000 || bits == 0x8000_0000
}

/// What speaks against a relation as such.
pub open spec fn relation_fault(edge: EdgeFactsModel) -> Option<ChangeFault> {
    if !proposable(edge.label) {
        Some(ChangeFault::Relation)
    } else if edge.label == "derived_from"@ && edge.src == edge.dst {
        Some(ChangeFault::SelfDerivation)
    } else if !unit_weight(edge.weight_bits) {
        Some(ChangeFault::RelationWeight)
    } else if ends_early(edge.valid_from_ms, edge.valid_to_ms) {
        Some(ChangeFault::EdgeInterval)
    } else {
        None
    }
}

/// Checks a relation as such.
pub fn validate_relation(edge: &EdgeFacts) -> (r: Result<(), ChangeFault>)
    ensures
        match r {
            Ok(_) => relation_fault(edge@) is None,
            Err(fault) => relation_fault(edge@) == Some(fault),
        },
{
    let label = edge.label.as_str();
    let derived = same_text(label, "derived_from");
    if !(derived || same_text(label, "contains") || same_text(label, "causes") || same_text(label, "enables")
        || same_text(label, "prevents") || same_text(label, "contradicts") || same_text(label, "supersedes")) {
        return Err(ChangeFault::Relation);
    }
    if derived && edge.src == edge.dst {
        return Err(ChangeFault::SelfDerivation);
    }
    if !(edge.weight_bits <= 0x3f80_0000 || edge.weight_bits == 0x8000_0000) {
        return Err(ChangeFault::RelationWeight);
    }
    if span_ends_early(edge.valid_from_ms, edge.valid_to_ms) {
        return Err(ChangeFault::EdgeInterval);
    }
    Ok(())
}

/// A new relation as it is kept: at its first revision at least, and valid from when it
/// was made unless it says otherwise.
pub open spec fn new_edge(edge: EdgeFactsModel) -> EdgeFactsModel {
    EdgeFactsModel {
        revision: if edge.revision == 0 {
            1
        } else {
            edge.revision
        },
        valid_from_ms: if edge.valid_from_ms is None {
            Some(edge.created_at_ms)
        } else {
            edge.valid_from_ms
        },
        ..edge
    }
}

pub fn normalized_new_edge(edge: EdgeFacts) -> (r: EdgeFacts)
    ensures
        r@ == new_edge(edge@),
{
    let revision: u64 = if edge.revision == 0 {
        1
    } else {
        edge.revision
    };
    let valid_from_ms: Option<i64> = match edge.valid_from_ms {
        None => Some(edge.created_at_ms),
        Some(from) => Some(from),
    };
    EdgeFacts { revision, valid_from_ms, ..edge }
}

/// Whether two relations are the same but for whether they hold at the moment.
pub open spec fn same_edge(a: EdgeFactsModel, b: EdgeFactsModel) -> bool {
    a == EdgeFactsModel { valid: a.valid, ..b }
}

fn same_ids(a: &Vec<Ulid>, b: &Vec<Ulid>) -> (r: bool)
    ensures
        r == (a@ == b@),
{
    if a.len() != b.len() {
        return false;
    }
    for i in 0..a.len()
        invariant
            a@.len() == b@.len(),
            forall|j: int| 0 <= j < i ==> a@[j] == b@[j],
    {
        if a[i] != b[i] {
            assert(a@[i as int] != b@[i as int]);
            return false;
        }
    }
    assert(a@ =~= b@);
    true
}

fn same_time(a: Option<i64>, b: Option<i64>) -> (r: bool)
    ensures
        r == (a == b),
{
    match (a, b) {
        (Some(a), Some(b)) => a == b,
        (None, None) => true,
        _ => false,
    }
}

pub fn same_proposal_edge(current: &EdgeFacts, expected: &EdgeFacts) -> (r: bool)
    ensures
        r == same_edge(current@, expected@),
{
    let r = current.src == expected.src && current.dst == expected.dst && same_text(
        current.label.as_str(),
        expected.label.as_str(),
    ) && current.weight_bits == expected.weight_bits && current.created_at_ms == expected.created_at_ms && same_text(
        current.metadata.as_str(),
        expected.metadata.as_str(),
    ) && current.revision == expected.revision && same_time(current.valid_from_ms, expected.valid_from_ms)
        && same_time(current.valid_to_ms, expected.valid_to_ms) && same_ids(&current.evidence, &expected.evidence);
    r
}

/// How many of the first `n` changes revise a memory.
pub open spec fn prior_changes(changes: Seq<ProposedChangeModel>, node_id: Ulid, n: nat) -> nat
    decreases n,
{
    if n == 0 {
        0
    } else {
        prior_changes(changes, node_id, (n - 1) as nat) + match changes[n - 1] {
            ProposedChangeModel::SetValidity { node_id: id, .. } => if id == node_id {
                1nat
            } else {
                0nat
            },
            ProposedChangeModel::SetState { node_id: id, .. } => if id == node_id {
                1nat
            } else {
                0nat
            },
            ProposedChangeModel::AddEdge { .. } => 0nat,
        }
    }
}

fn prior_node_changes(changes: &Vec<ProposedChange>, index: usize, node_id: Ulid) -> (r: u64)
    requires
        index <= changes@.len(),
    ensures
        r == prior_changes(views(changes@), node_id, index as nat),
{
    let ghost all = views(changes@);
    assert(all.len() == changes@.len());
    let mut count: u64 = 0;
    for i in 0..index
        invariant
            index <= changes@.len(),
            all == views(changes@),
            count == prior_changes(all, node_id, i as nat),
            count <= i,
    {
        assert(views(changes@)[i as int] == changes@[i as int]@);
        match &changes[i] {
            ProposedChange::SetValidity { node_id: id, .. } => {
                if *id == node_id {
                    count = count + 1;
                }
            },
            ProposedChange::SetState { node_id: id, .. } => {
                if *id == node_id {
                    count = count + 1;
                }
            },
            ProposedChange::AddEdge { .. } => {},
        }
    }
    count
}

/// A revision counted on; the last one stays.
pub open spec fn counted_on(revision: u64, by: int) -> u64 {
    if revision + by > u64::MAX {
        u64::MAX
    } else {
        (revision + by) as u64
    }
}

/// What is left to do for a change of a memory, as it stands.
pub open spec fn node_step(
    changes: Seq<ProposedChangeModel>,
    index: nat,
    standing: Option<NodeStanding>,
    now_ms: i64,
) -> Result<NodeStep, ChangeFault> {
    match (changes[index as int], standing) {
        (_, None) => Err(ChangeFault::NotFound),
        (
            ProposedChangeModel::SetValidity { node_id, expected_revision, valid_from_ms, valid_to_ms },
            Some(node),
        ) => {
            let before = counted_on(expected_revision, prior_changes(changes, node_id, index) as int);
            let after = counted_on(before, 1);
            if node.revision == after && node.valid_from_ms == valid_from_ms && node.valid_to_ms == valid_to_ms {
                Ok(NodeStep::Settled)
            } else if node.revision != before {
                Err(ChangeFault::ResumeConflict { node_id, before, after, found: node.revision })
            } else {
                Ok(NodeStep::Write(NodeStanding { valid_from_ms, valid_to_ms, ..node }))
            }
        },
        (ProposedChangeModel::SetState { node_id, expected_revision, state }, Some(node)) => {
            let before = counted_on(expected_revision, prior_changes(changes, node_id, index) as int);
            let after = counted_on(before, 1);
            if node.revision == after && node.state == state && (state.terminal ==> node.valid_to_ms is Some) {
                Ok(NodeStep::Settled)
            } else if node.revision != before {
                Err(ChangeFault::ResumeConflict { node_id, before, after, found: node.revision })
            } else {
                Ok(
                    NodeStep::Write(
                        NodeStanding {
                            state,
                            valid_to_ms: if state.terminal && node.valid_to_ms is None {
                                Some(now_ms)
                            } else {
                                node.valid_to_ms
                            },
                            ..node
                        },
                    ),
                )
            }
        },
        (ProposedChangeModel::AddEdge { .. }, Some(_)) => Ok(NodeStep::Settled),
    }
}

/// Decides what is left to do for a change of a memory, as it stands.
pub fn decide_node_change(
    changes: &Vec<ProposedChange>,
    index: usize,
    standing: Option<NodeStanding>,
    now_ms: i64,
) -> (r: Result<NodeStep, ChangeFault>)
    requires
        index < changes@.len(),
    ensures
        r == node_step(views(changes@), index as nat, standing, now_ms),
{
    assert(views(changes@)[index as int] == changes@[index as int]@);
    let node: NodeStanding = match standing {
        None => {
            return Err(ChangeFault::NotFound);
        },
        Some(node) => node,
    };
    match &changes[index] {
        ProposedChange::SetValidity { node_id, expected_revision, valid_from_ms, valid_to_ms } => {
            let before: u64 = expected_revision.saturating_add(prior_node_changes(changes, index, *node_id));
            let after: u64 = before.saturating_add(1);
            if node.revision == after && same_time(node.valid_from_ms, *valid_from_ms) && same_time(
                node.valid_to_ms,
                *valid_to_ms,
            ) {
                return Ok(NodeStep::Settled);
            }
            if node.revision != before {
                return Err(
                    ChangeFault::ResumeConflict { node_id: *node_id, before, after, found: node.revision },
                );
            }
            Ok(
                NodeStep::Write(
                    NodeStanding { valid_from_ms: *valid_from_ms, valid_to_ms: *valid_to_ms, ..node },
                ),
            )
        },
        ProposedChange::SetState { node_id, expected_revision, state } => {
            let before: u64 = expected_revision.saturating_add(prior_node_changes(changes, index, *node_id));
            let after: u64 = before.saturating_add(1);
            if node.revision == after && node.state == *state && (!state.terminal || node.valid_to_ms.is_some()) {
                return Ok(NodeStep::Settled);
            }
            if node.revision != before {
                return Err(
                    ChangeFault::ResumeConflict { node_id: *node_id, before, after, found: node.revision },
                );
            }
            let valid_to_ms: Option<i64> = if state.terminal && node.valid_to_ms.is_none() {
                Some(now_ms)
            } else {
                node.valid_to_ms
            };
            Ok(NodeStep::Write(NodeStanding { state: *state, valid_to_ms, ..node }))
        },
        ProposedChange::AddEdge { .. } => Ok(NodeStep::Settled),
    }
}

/// What is left to do for a new relation, by what is found in its place and by the
/// revisions of its two ends.
pub open spec fn edge_step(
    changes: Seq<ProposedChangeModel>,
    index: nat,
    current: Option<EdgeFactsModel>,
    source_revision: Option<u64>,
    destination_revision: Option<u64>,
) -> Result<EdgeStep, ChangeFault> {
    match changes[index as int] {
        ProposedChangeModel::AddEdge { edge, expected_src_revision, expected_dst_revision } => match current {
            Some(found) => if same_edge(found, new_edge(edge)) {
                Ok(EdgeStep::Settled)
            } else {
                Err(ChangeFault::EdgeChanged)
            },
            None => {
                let source = counted_on(expected_src_revision, prior_changes(changes, edge.src, index) as int);
                let destination = counted_on(expected_dst_revision, prior_changes(changes, edge.dst, index) as int);
                if source_revision is None {
                    Err(ChangeFault::NotFound)
                } else if source_revision != Some(source) {
                    Err(
                        ChangeFault::SourceRevision {
                            node_id: edge.src,
                            expected: source,
                            found: source_revision->0,
                        },
                    )
                } else if destination_revision is None {
                    Err(ChangeFault::NotFound)
                } else if destination_revision != Some(destination) {
                    Err(
                        ChangeFault::DestinationRevision {
                            node_id: edge.dst,
                            expected: destination,
                            found: destination_revision->0,
                        },
                    )
                } else {
                    Ok(EdgeStep::Add)
                }
            },
        },
        _ => Ok(EdgeStep::Settled),
    }
}

/// Decides what is left to do for a new relation.
pub fn decide_edge_change(
    changes: &Vec<ProposedChange>,
    index: usize,
    current: &Option<EdgeFacts>,
    source_revision: Option<u64>,
    destination_revision: Option<u64>,
) -> (r: Result<EdgeStep, ChangeFault>)
    requires
        index < changes@.len(),
    ensures
        r == edge_step(views(changes@), index as nat, opt_view(*current), source_revision, destination_revision),
{
    assert(views(changes@)[index as int] == changes@[index as int]@);
    match &changes[index] {
        ProposedChange::AddEdge { edge, expected_src_revision, expected_dst_revision } => {
            if let Some(found) = current {
                let expected = normalized_new_edge(edge.replica());
                if same_proposal_edge(found, &expected) {
                    return Ok(EdgeStep::Settled);
                }
                return Err(ChangeFault::EdgeChanged);
            }
            let source: u64 = expected_src_revision.saturating_add(prior_node_changes(changes, index, edge.src));
            match source_revision {
                None => {
                    return Err(ChangeFault::NotFound);
                },
                Some(found) => {
                    if found != source {
                        return Err(ChangeFault::SourceRevision { node_id: edge.src, expected: source, found });
                    }
                },
            }
            let destination: u64 = expected_dst_revision.saturating_add(
                prior_node_changes(changes, index, edge.dst),
            );
            match destination_revision {
                None => {
                    return Err(ChangeFault::NotFound);
                },
                Some(found) => {
                    if found != destination {
                        return Err(
                            ChangeFault::DestinationRevision { node_id: edge.dst, expected: destination, found },
                        );
                    }
                },
            }
            Ok(EdgeStep::Add)
        },
        _ => Ok(EdgeStep::Settled),
    }
}

/// The first of the first `n` relations that leads to a memory under a name.
pub open spec fn first_edge(edges: Seq<EdgeFactsModel>, dst: Ulid, label: Seq<char>, n: nat) -> Option<EdgeFactsModel>
    decreases n,
{
    if n == 0 {
        None
    } else {
        match first_edge(edges, dst, label, (n - 1) as nat) {
            Some(edge) => Some(edge),
            None => if edges[n - 1].dst == dst && edges[n - 1].label == label {
                Some(edges[n - 1])
            } else {
                None
            },
        }
    }
}

proof fn first_edge_persists(edges: Seq<EdgeFactsModel>, dst: Ulid, label: Seq<char>, n: nat, m: nat)
    requires
        n <= m,
        first_edge(edges, dst, label, n) is Some,
    ensures
        first_edge(edges, dst, label, m) == first_edge(edges, dst, label, n),
    decreases m - n,
{
    if n < m {
        first_edge_persists(edges, dst, label, n, (m - 1) as nat);
    }
}

impl SnapshotModel {
    /// The relation that is already there in the place of a proposed one.
    pub open spec fn edge_in_place(self, edge: EdgeFactsModel) -> Option<EdgeFactsModel> {
        let edges = self.edges_from(edge.src);
        first_edge(edges, edge.dst, edge.label, edges.len())
    }

    /// What speaks against changing a memory at a revision.
    pub open spec fn revision_fault(self, id: Ulid, expected: u64) -> Option<ChangeFault> {
        match lookup(self.nodes, id) {
            None => Some(ChangeFault::NotFound),
            Some(node) => if node.revision != expected {
                Some(ChangeFault::StaleRevision { node_id: id, expected, found: node.revision })
            } else {
                None
            },
        }
    }

    /// The first of the first `n` memories of a list that is not there.
    pub open spec fn missing_evidence(self, ids: Seq<Ulid>, n: nat) -> Option<ChangeFault>
        decreases n,
    {
        if n == 0 {
            None
        } else {
            match self.missing_evidence(ids, (n - 1) as nat) {
                Some(fault) => Some(fault),
                None => if lookup(self.nodes, ids[n - 1]) is None {
                    Some(ChangeFault::MissingEvidence { node_id: ids[n - 1] })
                } else {
                    None
                },
            }
        }
    }

    /// What speaks against a change, given those before it.
    pub open spec fn change_fault(self, changes: Seq<ProposedChangeModel>, i: nat) -> Option<ChangeFault> {
        match changes[i as int] {
            ProposedChangeModel::SetValidity { node_id, expected_revision, valid_from_ms, valid_to_ms } => {
                if ends_early(valid_from_ms, valid_to_ms) {
                    Some(ChangeFault::ValidityInterval)
                } else {
                    self.revision_fault(node_id, expected_revision)
                }
            },
            ProposedChangeModel::SetState { node_id, expected_revision, .. } => self.revision_fault(
                node_id,
                expected_revision,
            ),
            ProposedChangeModel::AddEdge { edge, expected_src_revision, expected_dst_revision } => {
                if self.revision_fault(edge.src, expected_src_revision) is Some {
                    self.revision_fault(edge.src, expected_src_revision)
                } else if self.revision_fault(edge.dst, expected_dst_revision) is Some {
                    self.revision_fault(edge.dst, expected_dst_revision)
                } else if relation_fault(edge) is Some {
                    relation_fault(edge)
                } else if exists|j: int| 0 <= j < i && adds_in_place(#[trigger] changes[j], edge) {
                    Some(ChangeFault::DuplicateEdge { change: i as usize })
                } else if self.edge_in_place(edge) is Some {
                    Some(ChangeFault::ExistingEdge { change: i as usize })
                } else {
                    self.missing_evidence(edge.evidence, edge.evidence.len())
                }
            },
        }
    }

    /// What speaks against the first `n` changes of a proposal.
    pub open spec fn changes_fault(self, changes: Seq<ProposedChangeModel>, n: nat) -> Option<ChangeFault>
        decreases n,
    {
        if n == 0 {
            None
        } else {
            match self.changes_fault(changes, (n - 1) as nat) {
                Some(fault) => Some(fault),
                None => self.change_fault(changes, (n - 1) as nat),
            }
        }
    }

    /// What speaks against a proposal.
    pub open spec fn proposal_fault(self, proposal: ChangeProposalModel) -> Option<ChangeFault> {
        self.changes_fault(proposal.changes, proposal.changes.len())
    }
}

/// Whether a change adds a relation in the place of a given one.
pub open spec fn adds_in_place(change: ProposedChangeModel, edge: EdgeFactsModel) -> bool {
    match change {
        ProposedChangeModel::AddEdge { edge: other, .. } => other.src == edge.src && other.dst == edge.dst
            && other.label == edge.label,
        _ => false,
    }
}

proof fn changes_fault_persists(s: SnapshotModel, changes: Seq<ProposedChangeModel>, n: nat, m: nat)
    requires
        n <= m,
        s.changes_fault(changes, n) is Some,
    ensures
        s.changes_fault(changes, m) == s.changes_fault(changes, n),
    decreases m - n,
{
    if n < m {
        changes_fault_persists(s, changes, n, (m - 1) as nat);
    }
}

proof fn missing_evidence_persists(s: SnapshotModel, ids: Seq<Ulid>, n: nat, m: nat)
    requires
        n <= m,
        s.missing_evidence(ids, n) is Some,
    ensures
        s.missing_evidence(ids, m) == s.missing_evidence(ids, n),
    decreases m - n,
{
    if n < m {
        missing_evidence_persists(s, ids, n, (m - 1) as nat);
    }
}

impl Snapshot {
    /// The relation that is already there in the place of a proposed one.
    pub fn proposal_edge(&self, expected: &EdgeFacts) -> (r: Option<EdgeFacts>)
        ensures
            opt_view(r) == self@.edge_in_place(expected@),
    {
        match self.outgoing.get(&expected.src) {
            None => None,
            Some(list) => {
                let ghost all = views(list.edges@);
                assert(all.len() == list.edges@.len());
                for i in 0..list.edges.len()
                    invariant
                        all == views(list.edges@),
                        all == self@.edges_from(expected.src),
                        all.len() == list.edges@.len(),
                        first_edge(all, expected@.dst, expected@.label, i as nat) is None,
                {
                    assert(views(list.edges@)[i as int] == list.edges@[i as int]@);
                    if list.edges[i].dst == expected.dst && same_text(
                        list.edges[i].label.as_str(),
                        expected.label.as_str(),
                    ) {
                        proof {
                            first_edge_persists(all, expected@.dst, expected@.label, (i + 1) as nat, all.len());
                        }
                        return Some(list.edges[i].replica());
                    }
                }
                None
            },
        }
    }

    fn require_revision(&self, id: Ulid, expected: u64) -> (r: Result<(), ChangeFault>)
        ensures
            match r {
                Ok(_) => self@.revision_fault(id, expected) is None,
                Err(fault) => self@.revision_fault(id, expected) == Some(fault),
            },
    {
        match self.nodes.get(&id) {
            None => Err(ChangeFault::NotFound),
            Some(node) => {
                if node.revision != expected {
                    Err(ChangeFault::StaleRevision { node_id: id, expected, found: node.revision })
                } else {
                    Ok(())
                }
            },
        }
    }

    fn require_evidence(&self, ids: &Vec<Ulid>) -> (r: Result<(), ChangeFault>)
        ensures
            match r {
                Ok(_) => self@.missing_evidence(ids@, ids@.len()) is None,
                Err(fault) => self@.missing_evidence(ids@, ids@.len()) == Some(fault),
            },
    {
        for i in 0..ids.len()
            invariant
                self@.missing_evidence(ids@, i as nat) is None,
        {
            if !self.nodes.contains(&ids[i]) {
                proof {
                    missing_evidence_persists(self@, ids@, (i + 1) as nat, ids@.len());
                }
                return Err(ChangeFault::MissingEvidence { node_id: ids[i] });
            }
        }
        Ok(())
    }

    fn adds_again(changes: &Vec<ProposedChange>, index: usize, edge: &EdgeFacts) -> (r: bool)
        requires
            index <= changes@.len(),
        ensures
            r == exists|j: int| 0 <= j < index && adds_in_place(#[trigger] views(changes@)[j], edge@),
    {
        let ghost all = views(changes@);
        for j in 0..index
            invariant
                index <= changes@.len(),
                all == views(changes@),
                forall|k: int| 0 <= k < j ==> !adds_in_place(#[trigger] all[k], edge@),
        {
            assert(views(changes@)[j as int] == changes@[j as int]@);
            if let ProposedChange::AddEdge { edge: other, .. } = &changes[j] {
                if other.src == edge.src && other.dst == edge.dst && same_text(
                    other.label.as_str(),
                    edge.label.as_str(),
                ) {
                    assert(adds_in_place(all[j as int], edge@));
                    return true;
                }
            }
        }
        false
    }

    fn validate_change(&self, changes: &Vec<ProposedChange>, index: usize) -> (r: Result<(), ChangeFault>)
        requires
            index < changes@.len(),
        ensures
            match r {
                Ok(_) => self@.change_fault(views(changes@), index as nat) is None,
                Err(fault) => self@.change_fault(views(changes@), index as nat) == Some(fault),
            },
    {
        assert(views(changes@)[index as int] == changes@[index as int]@);
        match &changes[index] {
            ProposedChange::SetValidity { node_id, expected_revision, valid_from_ms, valid_to_ms } => {
                if span_ends_early(*valid_from_ms, *valid_to_ms) {
                    return Err(ChangeFault::ValidityInterval);
                }
                self.require_revision(*node_id, *expected_revision)
            },
            ProposedChange::SetState { node_id, expected_revision, .. } => self.require_revision(
                *node_id,
                *expected_revision,
            ),
            ProposedChange::AddEdge { edge, expected_src_revision, expected_dst_revision } => {
                self.require_revision(edge.src, *expected_src_revision)?;
                self.require_revision(edge.dst, *expected_dst_revision)?;
                validate_relation(edge)?;
                if Self::adds_again(changes, index, edge) {
                    return Err(ChangeFault::DuplicateEdge { change: index });
                }
                if self.proposal_edge(edge).is_some() {
                    return Err(ChangeFault::ExistingEdge { change: index });
                }
                self.require_evidence(&edge.evidence)
            },
        }
    }

    /// Checks that a proposal can be applied to the memory graph as it is.
    pub fn validate_proposal(&self, proposal: &ChangeProposal) -> (r: Result<(), ChangeFault>)
        ensures
            match r {
                Ok(_) => self@.proposal_fault(proposal@) is None,
                Err(fault) => self@.proposal_fault(proposal@) == Some(fault),
            },
    {
        let ghost all = proposal@.changes;
        assert(all.len() == proposal.changes@.len());
        for i in 0..proposal.changes.len()
            invariant
                all == views(proposal.changes@),
                all == proposal@.changes,
                all.len() == proposal.changes@.len(),
                self@.changes_fault(all, i as nat) is None,
        {
            match self.validate_change(&proposal.changes, i) {
                Ok(_) => {},
                Err(fault) => {
                    proof {
                        changes_fault_persists(self@, all, (i + 1) as nat, all.len());
                    }
                    return Err(fault);
                },
            }
        }
        Ok(())
    }
}

impl ChangeProposalModel {
    /// The proposal once it is taken up: a pending one is taken up if nothing speaks
    /// against it, and is stale otherwise; one that is being applied goes on.
    pub open spec fn taken_up(self, s: SnapshotModel) -> (ChangeProposalModel, Option<ChangeFault>) {
        match self.status {
            ChangeProposalStatus::Pending => if s.proposal_fault(self) is Some {
                (ChangeProposalModel { status: ChangeProposalStatus::Stale, ..self }, s.proposal_fault(self))
            } else {
                (
                    ChangeProposalModel { status: ChangeProposalStatus::Applying, next_change: 0, ..self },
                    None,
                )
            },
            ChangeProposalStatus::Applying => (self, None),
            _ => (self, Some(ChangeFault::NotApplicable)),
        }
    }

    /// The next change to make, if any is left.
    pub open spec fn next(self) -> Result<Option<usize>, ChangeFault> {
        if self.status != ChangeProposalStatus::Applying {
            Err(ChangeFault::NotApplying)
        } else if self.next_change > self.changes.len() {
            Err(ChangeFault::Cursor { next_change: self.next_change, changes: self.changes.len() as usize })
        } else if self.next_change == self.changes.len() {
            Ok(None)
        } else {
            Ok(Some(self.next_change))
        }
    }
}

impl ChangeProposal {
    /// Takes a proposal up for being applied.
    pub fn take_up(&mut self, graph: &Snapshot) -> (r: Result<(), ChangeFault>)
        ensures
            final(self)@ == old(self)@.taken_up(graph@).0,
            match r {
                Ok(_) => old(self)@.taken_up(graph@).1 is None,
                Err(fault) => old(self)@.taken_up(graph@).1 == Some(fault),
            },
    {
        match self.status {
            ChangeProposalStatus::Pending => {
                match graph.validate_proposal(self) {
                    Err(fault) => {
                        self.status = ChangeProposalStatus::Stale;
                        Err(fault)
                    },
                    Ok(_) => {
                        self.status = ChangeProposalStatus::Applying;
                        self.next_change = 0;
                        Ok(())
                    },
                }
            },
            ChangeProposalStatus::Applying => Ok(()),
            _ => Err(ChangeFault::NotApplicable),
        }
    }

    /// The next change to make, if any is left.
    pub fn next(&self) -> (r: Result<Option<usize>, ChangeFault>)
        ensures
            r == self@.next(),
    {
        assert(self@.changes.len() == self.changes@.len());
        if self.status != ChangeProposalStatus::Applying {
            return Err(ChangeFault::NotApplying);
        }
        if self.next_change > self.changes.len() {
            return Err(ChangeFault::Cursor { next_change: self.next_change, changes: self.changes.len() });
        }
        if self.next_change == self.changes.len() {
            Ok(None)
        } else {
            Ok(Some(self.next_change))
        }
    }

    /// Counts the next change as made.
    pub fn made(&mut self)
        requires
            old(self)@.next() is Ok,
            old(self)@.next()->Ok_0 is Some,
        ensures
            final(self)@ == (ChangeProposalModel {
                next_change: (old(self)@.next_change + 1) as usize,
                ..old(self)@
            }),
    {
        assert(self@.changes.len() == self.changes@.len());
        let count: usize = self.changes.len();
        assert(self.next_change < count);
        self.next_change = self.next_change + 1;
    }

    /// Closes a proposal whose changes are all made.
    pub fn close(&mut self, now_ms: i64)
        requires
            old(self)@.next() == Ok::<Option<usize>, ChangeFault>(None),
        ensures
            final(self)@ == (ChangeProposalModel {
                status: ChangeProposalStatus::Applied,
                applied_at_ms: Some(now_ms),
                ..old(self)@
            }),
    {
        self.status = ChangeProposalStatus::Applied;
        self.applied_at_ms = Some(now_ms);
    }

    /// Turns a pending proposal down.
    pub fn turn_down(&mut self) -> (r: Result<(), ChangeFault>)
        ensures
            match r {
                Ok(_) => old(self)@.status == ChangeProposalStatus::Pending && final(self)@ == (
                ChangeProposalModel { status: ChangeProposalStatus::Rejected, ..old(self)@ }),
                Err(fault) => fault == ChangeFault::NotPending && old(self)@.status != ChangeProposalStatus::Pending
                    && final(self)@ == old(self)@,
            },
    {
        if self.status != ChangeProposalStatus::Pending {
            return Err(ChangeFault::NotPending);
        }
        self.status = ChangeProposalStatus::Rejected;
        Ok(())
    }
}

/// A change is made once: after what it writes has become the next revision, nothing is
/// left to do for it, however often it is taken up again.
pub proof fn changes_are_made_once(
    changes: Seq<ProposedChangeModel>,
    index: nat,
    node: NodeStanding,
    now_ms: i64,
    later_ms: i64,
    written: NodeStanding,
)
    requires
        index < changes.len(),
        node_step(changes, index, Some(node), now_ms) == Ok::<NodeStep, ChangeFault>(NodeStep::Write(written)),
        written.revision < u64::MAX,
    ensures
        node_step(
            changes,
            index,
            Some(NodeStanding { revision: (written.revision + 1) as u64, ..written }),
            later_ms,
        ) == Ok::<NodeStep, ChangeFault>(NodeStep::Settled),
{
}

/// A relation is added once: where it already stands in its place, nothing is left to do.
pub proof fn relations_are_added_once(
    changes: Seq<ProposedChangeModel>,
    index: nat,
    edge: EdgeFactsModel,
    expected_src_revision: u64,
    expected_dst_revision: u64,
    valid: bool,
    source_revision: Option<u64>,
    destination_revision: Option<u64>,
)
    requires
        index < changes.len(),
        changes[index as int] == (ProposedChangeModel::AddEdge {
            edge,
            expected_src_revision,
            expected_dst_revision,
        }),
    ensures
        edge_step(
            changes,
            index,
            Some(EdgeFactsModel { valid, ..new_edge(edge) }),
            source_revision,
            destination_revision,
        ) == Ok::<EdgeStep, ChangeFault>(EdgeStep::Settled),
{
}

} // verus!
