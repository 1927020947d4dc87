//! Applying the changes of a proposal one after another: a proposal that nothing speaks
//! against is applied to its end, and what others change meanwhile is noticed.

use vstd::prelude::*;
use crate::changes::{
    ChangeFault, EdgeStep, NodeStanding, NodeStep, adds_in_place, edge_step, first_edge, new_edge,
    node_step, prior_changes,
};
use crate::ids::Ulid;
use crate::records::graph::EdgeFactsModel;
use crate::records::verdict::{ChangeProposalModel, ProposedChangeModel};
use crate::snapshot::SnapshotModel;
use crate::store::Write;

verus! {

/// Where the memories stand after the first `n` changes, if nobody else changes them:
/// each change of a memory's validity or state makes one more revision of it, with what
/// the change says, and a state that ends a memory ends its validity where it was open.
pub open spec fn carried_out(
    start: Map<Ulid, NodeStanding>,
    changes: Seq<ProposedChangeModel>,
    times: Seq<i64>,
    n: nat,
) -> Map<Ulid, NodeStanding>
    decreases n,
{
    if n == 0 {
        start
    } else {
        let before = carried_out(start, changes, times, (n - 1) as nat);
        match changes[n - 1] {
            ProposedChangeModel::SetValidity { node_id, valid_from_ms, valid_to_ms, .. } => before.insert(
                node_id,
                NodeStanding {
                    revision: (before[node_id].revision + 1) as u64,
                    valid_from_ms,
                    valid_to_ms,
                    state: before[node_id].state,
                },
            ),
            ProposedChangeModel::SetState { node_id, state, .. } => before.insert(
                node_id,
                NodeStanding {
                    revision: (before[node_id].revision + 1) as u64,
                    valid_from_ms: before[node_id].valid_from_ms,
                    valid_to_ms: if state.terminal && before[node_id].valid_to_ms is None {
                        Some(times[n - 1])
                    } else {
                        before[node_id].valid_to_ms
                    },
                    state,
                },
            ),
            ProposedChangeModel::AddEdge { .. } => before,
        }
    }
}

/// Whether memories stand in a graph at the revisions that are given.
pub open spec fn stands_in(start: Map<Ulid, NodeStanding>, s: SnapshotModel) -> bool {
    forall|id: Ulid| #[trigger]
        s.nodes.contains_key(id) ==> start.contains_key(id) && start[id].revision == s.nodes[id].revision
}

/// A memory has been revised as often as changes were made to it.
proof fn revisions_are_counted(
    start: Map<Ulid, NodeStanding>,
    changes: Seq<ProposedChangeModel>,
    times: Seq<i64>,
    id: Ulid,
    n: nat,
)
    requires
        n <= changes.len(),
        start.contains_key(id),
        start[id].revision + changes.len() <= u64::MAX,
    ensures
        carried_out(start, changes, times, n).contains_key(id),
        carried_out(start, changes, times, n)[id].revision == start[id].revision + prior_changes(changes, id, n),
        prior_changes(changes, id, n) <= n,
    decreases n,
{
    if n > 0 {
        revisions_are_counted(start, changes, times, id, (n - 1) as nat);
    }
}

/// A fault of a change is a fault of all the changes up to it.
proof fn faultless_so_far(s: SnapshotModel, changes: Seq<ProposedChangeModel>, i: nat, n: nat)
    requires
        i < n <= changes.len(),
        s.changes_fault(changes, n) is None,
    ensures
        s.change_fault(changes, i) is None,
    decreases n,
{
    if i < n - 1 {
        faultless_so_far(s, changes, i, (n - 1) as nat);
    }
}

/// A proposal that nothing speaks against is applied to its end, as long as nobody else
/// changes the memories: each change finds its memory where the changes before left it,
/// is written as it says, and leaves the memory where the next one expects it. A new
/// relation finds its two ends so too, and is added.
pub proof fn sound_proposals_are_carried_out(
    s: SnapshotModel,
    proposal: ChangeProposalModel,
    start: Map<Ulid, NodeStanding>,
    times: Seq<i64>,
    i: nat,
)
    requires
        s.proposal_fault(proposal) is None,
        stands_in(start, s),
        forall|id: Ulid| #[trigger] start.contains_key(id) ==> start[id].revision + proposal.changes.len() <= u64::MAX,
        i < proposal.changes.len(),
        i < times.len(),
    ensures
        ({
            let changes = proposal.changes;
            let before = carried_out(start, changes, times, i);
            let after = carried_out(start, changes, times, i + 1);
            match changes[i as int] {
                ProposedChangeModel::SetValidity { node_id, .. } => {
                    &&& before.contains_key(node_id)
                    &&& node_step(changes, i, Some(before[node_id]), times[i as int]) matches Ok(NodeStep::Write(written))
                    &&& after[node_id] == (NodeStanding { revision: (written.revision + 1) as u64, ..written })
                    &&& written.revision == before[node_id].revision
                },
                ProposedChangeModel::SetState { node_id, .. } => {
                    &&& before.contains_key(node_id)
                    &&& node_step(changes, i, Some(before[node_id]), times[i as int]) matches Ok(NodeStep::Write(written))
                    &&& after[node_id] == (NodeStanding { revision: (written.revision + 1) as u64, ..written })
                    &&& written.revision == before[node_id].revision
                },
                ProposedChangeModel::AddEdge { edge, .. } => {
                    &&& before.contains_key(edge.src) && before.contains_key(edge.dst)
                    &&& edge_step(
                        changes,
                        i,
                        None,
                        Some(before[edge.src].revision),
                        Some(before[edge.dst].revision),
                    ) == Ok::<EdgeStep, ChangeFault>(EdgeStep::Add)
                },
            }
        }),
{
    let changes = proposal.changes;
    faultless_so_far(s, changes, i, changes.len());
    match changes[i as int] {
        ProposedChangeModel::SetValidity { node_id, expected_revision, .. } => {
            assert(s.nodes.contains_key(node_id));
            revisions_are_counted(start, changes, times, node_id, i);
        },
        ProposedChangeModel::SetState { node_id, expected_revision, .. } => {
            assert(s.nodes.contains_key(node_id));
            revisions_are_counted(start, changes, times, node_id, i);
        },
        ProposedChangeModel::AddEdge { edge, .. } => {
            assert(s.nodes.contains_key(edge.src) && s.nodes.contains_key(edge.dst));
            revisions_are_counted(start, changes, times, edge.src, i);
            revisions_are_counted(start, changes, times, edge.dst, i);
        },
    }
}

/// A change that was made before an interruption is not made again: the memory is found
/// as the change left it, and nothing is written.
pub proof fn carried_out_changes_are_settled(
    s: SnapshotModel,
    proposal: ChangeProposalModel,
    start: Map<Ulid, NodeStanding>,
    times: Seq<i64>,
    i: nat,
    now_ms: i64,
)
    requires
        s.proposal_fault(proposal) is None,
        stands_in(start, s),
        forall|id: Ulid| #[trigger] start.contains_key(id) ==> start[id].revision + proposal.changes.len() <= u64::MAX,
        i < proposal.changes.len(),
        i < times.len(),
    ensures
        ({
            let changes = proposal.changes;
            let after = carried_out(start, changes, times, i + 1);
            match changes[i as int] {
                ProposedChangeModel::SetValidity { node_id, .. } => node_step(
                    changes,
                    i,
                    Some(after[node_id]),
                    now_ms,
                ) == Ok::<NodeStep, ChangeFault>(NodeStep::Settled),
                ProposedChangeModel::SetState { node_id, .. } => node_step(
                    changes,
                    i,
                    Some(after[node_id]),
                    now_ms,
                ) == Ok::<NodeStep, ChangeFault>(NodeStep::Settled),
                ProposedChangeModel::AddEdge { .. } => true,
            }
        }),
{
    let changes = proposal.changes;
    sound_proposals_are_carried_out(s, proposal, start, times, i);
    faultless_so_far(s, changes, i, changes.len());
    match changes[i as int] {
        ProposedChangeModel::SetValidity { node_id, .. } => {
            revisions_are_counted(start, changes, times, node_id, i);
            revisions_are_counted(start, changes, times, node_id, i + 1);
        },
        ProposedChangeModel::SetState { node_id, .. } => {
            revisions_are_counted(start, changes, times, node_id, i);
            revisions_are_counted(start, changes, times, node_id, i + 1);
        },
        _ => {},
    }
}

/// What others change meanwhile is noticed: a change that finds its memory at any
/// revision but the one it expects and the one it makes is a conflict, and a relation is
/// not added where an end is at another revision than it expects.
pub proof fn interference_is_noticed(
    s: SnapshotModel,
    proposal: ChangeProposalModel,
    start: Map<Ulid, NodeStanding>,
    times: Seq<i64>,
    i: nat,
    found: NodeStanding,
    src_revision: u64,
    dst_revision: u64,
    now_ms: i64,
)
    requires
        s.proposal_fault(proposal) is None,
        stands_in(start, s),
        forall|id: Ulid| #[trigger] start.contains_key(id) ==> start[id].revision + proposal.changes.len() <= u64::MAX,
        i < proposal.changes.len(),
        i < times.len(),
    ensures
        ({
            let changes = proposal.changes;
            let before = carried_out(start, changes, times, i);
            match changes[i as int] {
                ProposedChangeModel::SetValidity { node_id, .. } => found.revision != before[node_id].revision
                    && found.revision != before[node_id].revision + 1 ==> node_step(changes, i, Some(found), now_ms)
                    == Err::<NodeStep, ChangeFault>(
                    ChangeFault::ResumeConflict {
                        node_id,
                        before: before[node_id].revision,
                        after: (before[node_id].revision + 1) as u64,
                        found: found.revision,
                    },
                ),
                ProposedChangeModel::SetState { node_id, .. } => found.revision != before[node_id].revision
                    && found.revision != before[node_id].revision + 1 ==> node_step(changes, i, Some(found), now_ms)
                    == Err::<NodeStep, ChangeFault>(
                    ChangeFault::ResumeConflict {
                        node_id,
                        before: before[node_id].revision,
                        after: (before[node_id].revision + 1) as u64,
                        found: found.revision,
                    },
                ),
                ProposedChangeModel::AddEdge { edge, .. } => edge_step(
                    changes,
                    i,
                    None,
                    Some(src_revision),
                    Some(dst_revision),
                ) is Ok <==> src_revision == before[edge.src].revision && dst_revision == before[edge.dst].revision,
            }
        }),
{
    let changes = proposal.changes;
    faultless_so_far(s, changes, i, changes.len());
    match changes[i as int] {
        ProposedChangeModel::SetValidity { node_id, .. } => {
            assert(s.nodes.contains_key(node_id));
            revisions_are_counted(start, changes, times, node_id, i);
        },
        ProposedChangeModel::SetState { node_id, .. } => {
            assert(s.nodes.contains_key(node_id));
            revisions_are_counted(start, changes, times, node_id, i);
        },
        ProposedChangeModel::AddEdge { edge, .. } => {
            assert(s.nodes.contains_key(edge.src) && s.nodes.contains_key(edge.dst));
            revisions_are_counted(start, changes, times, edge.src, i);
            revisions_are_counted(start, changes, times, edge.dst, i);
        },
    }
}

/// Whether a change can be made to a graph: it finds every memory that it speaks of at
/// the revision that it expects, and it makes sense. An interval has an instant in it. A
/// relation has one of the names that may be proposed, a weight between zero and one, is
/// no derivation of a memory from itself, rests on memories that are there, and is not
/// there already.
pub open spec fn change_is_sound(s: SnapshotModel, changes: Seq<ProposedChangeModel>, i: int) -> bool {
    match changes[i] {
        ProposedChangeModel::SetValidity { node_id, expected_revision, valid_from_ms, valid_to_ms } => {
            &&& s.nodes.contains_key(node_id) && s.nodes[node_id].revision == expected_revision
            &&& valid_from_ms is Some && valid_to_ms is Some ==> valid_from_ms->Some_0 < valid_to_ms->Some_0
        },
        ProposedChangeModel::SetState { node_id, expected_revision, .. } => s.nodes.contains_key(node_id)
            && s.nodes[node_id].revision == expected_revision,
        ProposedChangeModel::AddEdge { edge, expected_src_revision, expected_dst_revision } => {
            &&& s.nodes.contains_key(edge.src) && s.nodes[edge.src].revision == expected_src_revision
            &&& s.nodes.contains_key(edge.dst) && s.nodes[edge.dst].revision == expected_dst_revision
            &&& edge.label == "contains"@ || edge.label == "derived_from"@ || edge.label == "causes"@ || edge.label
                == "enables"@ || edge.label == "prevents"@ || edge.label == "contradicts"@ || edge.label
                == "supersedes"@
            &&& edge.label == "derived_from"@ ==> edge.src != edge.dst
            &&& edge.weight_bits <= 0x3f80_0000 || edge.weight_bits == 0x8000_0000
            &&& edge.valid_from_ms is Some && edge.valid_to_ms is Some ==> edge.valid_from_ms->Some_0
                < edge.valid_to_ms->Some_0
            &&& forall|k: int| 0 <= k < edge.evidence.len() ==> s.nodes.contains_key(#[trigger] edge.evidence[k])
            &&& forall|k: int|
                0 <= k < s.edges_from(edge.src).len() ==> !((#[trigger] s.edges_from(edge.src)[k]).dst == edge.dst
                    && s.edges_from(edge.src)[k].label == edge.label)
            &&& forall|j: int|
                0 <= j < i ==> !((#[trigger] changes[j]) matches ProposedChangeModel::AddEdge { edge: other, .. }
                    && other.src == edge.src && other.dst == edge.dst && other.label == edge.label)
        },
    }
}

/// Nothing speaks against a proposal if and only if all its changes can be made.
pub proof fn sound_proposals_have_sound_changes(s: SnapshotModel, proposal: ChangeProposalModel)
    ensures
        s.proposal_fault(proposal) is None <==> forall|i: int|
            0 <= i < proposal.changes.len() ==> #[trigger] change_is_sound(s, proposal.changes, i),
{
    first_changes_are_sound(s, proposal.changes, proposal.changes.len());
}

proof fn first_changes_are_sound(s: SnapshotModel, changes: Seq<ProposedChangeModel>, n: nat)
    requires
        n <= changes.len(),
    ensures
        s.changes_fault(changes, n) is None <==> forall|i: int|
            0 <= i < n ==> #[trigger] change_is_sound(s, changes, i),
    decreases n,
{
    if n > 0 {
        let m = (n - 1) as nat;
        first_changes_are_sound(s, changes, m);
        assert(s.change_fault(changes, m) is None <==> change_is_sound(s, changes, m as int)) by {
            match changes[m as int] {
                ProposedChangeModel::AddEdge { edge, .. } => {
                    evidence_is_there(s, edge.evidence, edge.evidence.len());
                    place_is_free(s.edges_from(edge.src), edge.dst, edge.label, s.edges_from(edge.src).len());
                    assert((exists|j: int| 0 <= j < m && adds_in_place(#[trigger] changes[j], edge)) <==> !(forall|j: int|
                        0 <= j < m ==> !((#[trigger] changes[j]) matches ProposedChangeModel::AddEdge { edge: other, .. }
                            && other.src == edge.src && other.dst == edge.dst && other.label == edge.label)));
                },
                _ => {},
            }
        }
    }
}

proof fn evidence_is_there(s: SnapshotModel, ids: Seq<Ulid>, n: nat)
    requires
        n <= ids.len(),
    ensures
        s.missing_evidence(ids, n) is None <==> forall|k: int|
            0 <= k < n ==> s.nodes.contains_key(#[trigger] ids[k]),
    decreases n,
{
    if n > 0 {
        evidence_is_there(s, ids, (n - 1) as nat);
    }
}

proof fn place_is_free(edges: Seq<EdgeFactsModel>, dst: Ulid, label: Seq<char>, n: nat)
    requires
        n <= edges.len(),
    ensures
        first_edge(edges, dst, label, n) is None <==> forall|k: int|
            0 <= k < n ==> !((#[trigger] edges[k]).dst == dst && edges[k].label == label),
        first_edge(edges, dst, label, n) matches Some(edge) ==> edge.dst == dst && edge.label == label,
    decreases n,
{
    if n > 0 {
        place_is_free(edges, dst, label, (n - 1) as nat);
    }
}

/// A pending proposal is taken up from its first change if and only if all its changes
/// can be made, and is stale otherwise; one that is being applied goes on where it was;
/// any other is refused and stays as it is.
pub proof fn proposals_are_taken_up(s: SnapshotModel, proposal: ChangeProposalModel)
    ensures
        ({
            let (next, fault) = proposal.taken_up(s);
            let sound = forall|i: int|
                0 <= i < proposal.changes.len() ==> #[trigger] change_is_sound(s, proposal.changes, i);
            &&& next.changes == proposal.changes
            &&& proposal.status is Pending && sound ==> next.status is Applying && next.next_change == 0 && fault
                is None
            &&& proposal.status is Pending && !sound ==> next.status is Stale && next.next_change
                == proposal.next_change && fault is Some
            &&& proposal.status is Applying ==> next == proposal && fault is None
            &&& !(proposal.status is Pending || proposal.status is Applying) ==> next == proposal && fault is Some
        }),
{
    sound_proposals_have_sound_changes(s, proposal);
}

/// The next change of a proposal that is being applied is the one that its cursor is at,
/// and none is left once the cursor is past the last.
pub proof fn cursors_lead_to_the_end(proposal: ChangeProposalModel)
    ensures
        proposal.next() matches Ok(Some(at)) ==> at == proposal.next_change && at < proposal.changes.len(),
        proposal.next() == Ok::<Option<usize>, ChangeFault>(None) <==> (proposal.status is Applying
            && proposal.next_change == proposal.changes.len()),
        proposal.next() is Err <==> (!(proposal.status is Applying) || proposal.next_change > proposal.changes.len()),
{
}

/// A new relation is kept as it was proposed, at its first revision if it gives none,
/// and from when it was made if it does not say since when it holds.
pub proof fn new_relations_begin(edge: EdgeFactsModel)
    ensures
        ({
            let kept = new_edge(edge);
            &&& kept.src == edge.src && kept.dst == edge.dst && kept.label == edge.label
            &&& kept.weight_bits == edge.weight_bits && kept.evidence == edge.evidence
            &&& kept.valid_to_ms == edge.valid_to_ms && kept.created_at_ms == edge.created_at_ms
            &&& kept.revision >= 1 && (edge.revision >= 1 ==> kept.revision == edge.revision) && kept.revision
                <= edge.revision + 1
            &&& kept.valid_from_ms is Some
            &&& edge.valid_from_ms is Some ==> kept.valid_from_ms == edge.valid_from_ms
            &&& edge.valid_from_ms is None ==> kept.valid_from_ms == Some(edge.created_at_ms)
        }),
{
}

} // verus!
