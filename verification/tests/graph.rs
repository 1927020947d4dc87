//! Memories in a graph: how they are walked, weighed, ruled on and changed.
use mmdb::asking::{RecallFault, RecallRequest};
use mmdb::candidates::{Drafts, ScoredNode, Scores, rank_seeds};
use mmdb::changes::{
    ChangeFault, EdgeStep, NodeStanding, NodeStep, decide_edge_change, decide_node_change,
    normalized_new_edge, same_proposal_edge, validate_relation,
};
use mmdb::ids::Ulid;
use mmdb::lawyer::{
    MAX_LAWYER_BYTES, MAX_LAWYER_CANDIDATES, VerdictFault, admitted_proposal,
    allowed_evidence_ids, bounded_evidence_payload, ruled_evidence, validate_proposal_scope,
    validate_verdict,
};
use mmdb::records::graph::{
    EdgeFacts, GraphPath, LexicalHit, MetadataEntry, NodeFacts, RecallEvidence, RecallFilter,
    RecallStatus, VectorHit, VectorHits,
};
use mmdb::records::verdict::{
    CausalAnnotation, ChangeProposal, ChangeProposalStatus, ConflictPair, LawyerVerdict,
    ProposedChange, StateMark,
};
use mmdb::ruling::{Ruling, conclude};
use mmdb::searching::{
    HopNode, ReachedRow, RowPick, SeedRow, Spread, VectorFilter, countable_rows,
    graph_expand_query_rows_from, metadata_candidate_set, seed_id,
};
use mmdb::snapshot::{Snapshot, is_causal};

fn id(n: u128) -> Ulid {
    Ulid(n)
}

fn node(n: u128) -> NodeFacts {
    NodeFacts {
        id: id(n),
        kind: 1,
        fact: false,
        valid: true,
        valid_from_ms: 0,
        revision: 1,
        metadata: Vec::new(),
    }
}

fn edge(src: u128, label: &str, dst: u128) -> EdgeFacts {
    EdgeFacts {
        src: id(src),
        dst: id(dst),
        label: label.to_string(),
        weight_bits: 1.0f32.to_bits(),
        created_at_ms: 5,
        metadata: "{}".to_string(),
        revision: 1,
        valid_from_ms: None,
        valid_to_ms: None,
        evidence: Vec::new(),
        valid: true,
    }
}

fn graph(nodes: Vec<NodeFacts>, edges: Vec<EdgeFacts>) -> Snapshot {
    let mut graph = Snapshot::new();
    let ids: Vec<Ulid> = nodes.iter().map(|node| node.id).collect();
    for node in nodes {
        graph.set_node(node);
    }
    for id in ids {
        let outgoing = edges.iter().filter(|edge| edge.src == id).cloned().collect();
        let incoming = edges.iter().filter(|edge| edge.dst == id).cloned().collect();
        graph.set_edges(id, outgoing, incoming);
    }
    graph
}

fn everything() -> RecallFilter {
    RecallFilter {
        kinds: Vec::new(),
        metadata: Vec::new(),
        require_verified: false,
        allow_unverified_metadata_keys: Vec::new(),
    }
}

fn entry(key: &str, value: &str) -> MetadataEntry {
    MetadataEntry { key: key.to_string(), value: value.to_string() }
}

fn evidence(n: u128) -> RecallEvidence {
    RecallEvidence {
        node: node(n),
        score_bits: 0,
        lexical_score_bits: None,
        lexical_rank: None,
        lexical_terms: Vec::new(),
        vectors: Vec::new(),
        graph_paths: Vec::new(),
        provenance: Vec::new(),
        conflicts: Vec::new(),
        verified: false,
    }
}

fn ends(paths: &[GraphPath]) -> Vec<u128> {
    paths.iter().map(|path| path.nodes[path.nodes.len() - 1].0).collect()
}

#[test]
fn only_causes_point_one_way() {
    assert!(is_causal("causes"));
    assert!(is_causal("enables"));
    assert!(is_causal("prevents"));
    assert!(!is_causal("contains"));
    let graph = graph(
        vec![node(1), node(2), node(3)],
        vec![edge(1, "causes", 2), edge(3, "contains", 1)],
    );
    assert_eq!(ends(&graph.graph_paths(id(1), 1)), vec![2, 3]);
    assert_eq!(ends(&graph.graph_paths(id(2), 1)), Vec::<u128>::new());
    assert_eq!(ends(&graph.graph_paths(id(3), 2)), vec![1, 2]);
}

#[test]
fn ways_stop_at_what_does_not_hold() {
    let mut gone = node(2);
    gone.valid = false;
    let mut early = node(3);
    early.valid_from_ms = -1;
    let mut ended = edge(1, "contains", 4);
    ended.valid = false;
    let graph = graph(
        vec![node(1), gone, early, node(4), node(5)],
        vec![edge(1, "contains", 2), edge(1, "causes", 3), ended, edge(1, "enables", 5)],
    );
    assert_eq!(ends(&graph.graph_paths(id(1), 3)), vec![5]);
    assert_eq!(graph.graph_paths(id(1), 0).len(), 0);
    assert_eq!(graph.graph_paths(id(2), 3).len(), 0);
    assert_eq!(graph.graph_paths(id(9), 3).len(), 0);
    assert_eq!(graph.node(id(2)).map(|node| node.valid), Some(false));
    assert_eq!(graph.node(id(9)), None);
}

#[test]
fn the_shortest_ways_win_and_none_turns_back() {
    let graph = graph(
        vec![node(1), node(2), node(3), node(4)],
        vec![
            edge(1, "contains", 2),
            edge(2, "contains", 3),
            edge(1, "contains", 3),
            edge(3, "contains", 4),
            edge(2, "contains", 4),
        ],
    );
    let paths = graph.graph_paths(id(1), 3);
    assert_eq!(ends(&paths), vec![2, 3, 4, 4]);
    for path in &paths {
        let mut seen = path.nodes.clone();
        seen.sort();
        seen.dedup();
        assert_eq!(seen.len(), path.nodes.len());
        assert_eq!(path.edges.len() + 1, path.nodes.len());
    }
    assert_eq!(paths[2].nodes, vec![id(1), id(2), id(4)]);
    assert_eq!(paths[3].nodes, vec![id(1), id(3), id(4)]);
}

#[test]
fn slices_list_each_relation_once_in_order() {
    let graph = graph(
        vec![node(1), node(2), node(3)],
        vec![edge(2, "contains", 3), edge(1, "contains", 2)],
    );
    let slice = graph.graph_slice(id(1), 2);
    assert_eq!(slice.nodes, vec![node(1), node(2), node(3)]);
    assert_eq!(slice.edges, vec![edge(1, "contains", 2), edge(2, "contains", 3)]);
    assert_eq!(slice.paths.len(), 2);
    let alone = graph.graph_slice(id(1), 0);
    assert_eq!(alone.nodes, vec![node(1)]);
    assert_eq!(alone.edges.len(), 0);
}

#[test]
fn provenance_follows_derivation_and_evidence() {
    let mut supported = edge(1, "contains", 4);
    supported.evidence = vec![id(1), id(5), id(4), id(9)];
    let graph = graph(
        vec![node(1), node(2), node(3), node(4), node(5)],
        vec![
            edge(1, "derived_from", 2),
            edge(3, "derived_from", 1),
            edge(3, "contradicts", 1),
            supported,
        ],
    );
    let (provenance, conflicts) = graph.provenance_and_conflicts(id(1));
    assert_eq!(provenance, vec![id(2), id(4), id(5)]);
    assert_eq!(conflicts, vec![id(3)]);
    assert_eq!(graph.provenance_and_conflicts(id(3)), (vec![id(1)], vec![id(1)]));
}

#[test]
fn the_best_seeds_come_first() {
    let scored = vec![
        ScoredNode { score_bits: 0.5f32.to_bits(), id: id(3) },
        ScoredNode { score_bits: (-1.0f32).to_bits(), id: id(1) },
        ScoredNode { score_bits: 0.5f32.to_bits(), id: id(2) },
        ScoredNode { score_bits: 2.0f32.to_bits(), id: id(4) },
    ];
    let ranked: Vec<u128> = rank_seeds(&scored, 3).iter().map(|node| node.id.0).collect();
    assert_eq!(ranked, vec![4, 2, 3]);
    assert_eq!(rank_seeds(&scored, 9).len(), 4);
    assert_eq!(rank_seeds(&scored, 0).len(), 0);
}

#[test]
fn filters_ask_for_kinds_keys_and_trust() {
    let mut tagged = node(1);
    tagged.metadata = vec![entry("topic", "rust")];
    tagged.fact = true;
    let mut filter = everything();
    assert!(filter.matches(&tagged));
    filter.kinds = vec![2];
    assert!(!filter.matches(&tagged));
    filter.kinds = vec![2, 1];
    filter.metadata = vec![entry("topic", "rust")];
    assert!(filter.matches(&tagged));
    filter.metadata = vec![entry("topic", "go")];
    assert!(!filter.matches(&tagged));
    assert!(!filter.requires_provenance(&tagged));
    filter.require_verified = true;
    assert!(filter.requires_provenance(&tagged));
    assert!(!filter.allows_unverified(&tagged));
    let mut found = evidence(1);
    found.node = tagged.clone();
    assert!(!filter.accepts_trust(&found));
    found.verified = true;
    assert!(filter.accepts_trust(&found));
    found.verified = false;
    filter.allow_unverified_metadata_keys = vec!["topic".to_string()];
    assert!(filter.allows_unverified(&tagged));
    assert!(!filter.requires_provenance(&tagged));
    assert!(filter.accepts_trust(&found));
}

#[test]
fn drafts_gather_what_was_found_of_a_memory() {
    let mut drafts = Drafts::new();
    drafts.add_lexical(&vec![
        LexicalHit { node_id: id(7), score_bits: 9, terms: vec!["one".to_string()] },
        LexicalHit { node_id: id(3), score_bits: 8, terms: Vec::new() },
    ]);
    drafts.add_vectors(&vec![VectorHits {
        profile_id: "p".to_string(),
        model: "m".to_string(),
        hits: vec![
            VectorHit { node_id: id(5), similarity_bits: 1 },
            VectorHit { node_id: id(7), similarity_bits: 2 },
        ],
    }]);
    drafts.add_paths(&vec![
        GraphPath { nodes: vec![id(7), id(9)], edges: vec![edge(7, "contains", 9)] },
        GraphPath { nodes: Vec::new(), edges: Vec::new() },
    ]);
    assert_eq!(drafts.ids(), vec![id(3), id(5), id(7), id(9)]);
    let draft = drafts.get(id(7)).unwrap();
    assert_eq!(draft.lexical_score_bits, Some(9));
    assert_eq!(draft.lexical_rank, Some(1));
    assert_eq!(draft.lexical_terms, vec!["one".to_string()]);
    assert_eq!(draft.vectors.len(), 1);
    assert_eq!(draft.vectors[0].rank, 2);
    assert_eq!(draft.vectors[0].similarity_bits, 2);
    assert_eq!(drafts.get(id(9)).unwrap().graph_paths.len(), 1);
    assert!(drafts.get(id(1)).is_none());
}

#[test]
fn recall_answers_with_valid_memories_best_first() {
    let mut gone = node(4);
    gone.valid = false;
    let graph = graph(
        vec![node(1), node(2), node(3), gone],
        vec![edge(2, "derived_from", 1), edge(3, "contradicts", 2)],
    );
    let mut drafts = Drafts::new();
    let hit = |n: u128| LexicalHit { node_id: id(n), score_bits: 0, terms: Vec::new() };
    drafts.add_lexical(&vec![hit(1), hit(2), hit(3), hit(4), hit(5)]);
    let mut scores = Scores::new();
    scores.set(id(1), 0.25f32.to_bits());
    scores.set(id(2), 0.75f32.to_bits());
    scores.set(id(3), 0.75f32.to_bits());
    scores.set(id(4), 1.0f32.to_bits());
    let mut kept = drafts;
    graph.retain_candidates(&mut kept, &everything());
    assert_eq!(kept.ids(), vec![id(1), id(2), id(3)]);
    let answer = graph.deterministic_recall(&kept, &scores, &everything(), 2);
    let order: Vec<u128> = answer.iter().map(|item| item.node.id.0).collect();
    assert_eq!(order, vec![2, 3]);
    assert_eq!(answer[0].provenance, vec![id(1)]);
    assert_eq!(answer[0].conflicts, vec![id(3)]);
    assert_eq!(answer[0].score_bits, 0.75f32.to_bits());
}

#[test]
fn recall_with_trust_needs_provenance_of_facts() {
    let mut told = node(1);
    told.fact = true;
    let mut traced = node(2);
    traced.fact = true;
    let graph = graph(vec![told, traced, node(3)], vec![edge(2, "derived_from", 3)]);
    let mut filter = everything();
    filter.require_verified = true;
    assert!(!graph.recall_candidate_matches(id(1), &filter, None));
    assert!(graph.recall_candidate_matches(id(2), &filter, None));
    assert!(graph.recall_candidate_matches(id(1), &everything(), None));
    assert!(!graph.recall_candidate_matches(id(9), &everything(), None));
}

fn verdict(accepted: Vec<Ulid>, rejected: Vec<Ulid>, order: Vec<Ulid>) -> LawyerVerdict {
    LawyerVerdict {
        accepted_candidate_ids: accepted,
        rejected_candidate_ids: rejected,
        final_order: order,
        annotations: Vec::new(),
        cited_evidence_ids: Vec::new(),
        unresolved_conflicts: Vec::new(),
        proposals: Vec::new(),
    }
}

#[test]
fn verdicts_keep_to_what_they_were_shown() {
    let mut first = evidence(1);
    first.provenance = vec![id(7)];
    first.conflicts = vec![id(2)];
    let shown = vec![first, evidence(2)];
    let sound = verdict(vec![id(1)], vec![id(2)], vec![id(1)]);
    assert_eq!(validate_verdict(&sound, &shown), Ok(()));

    let stranger = verdict(vec![id(3)], Vec::new(), Vec::new());
    assert_eq!(validate_verdict(&stranger, &shown), Err(VerdictFault::Candidate));

    let mut annotated = sound.clone();
    annotated.annotations =
        vec![CausalAnnotation { candidate_id: id(1), note: "why".to_string(), evidence_ids: vec![id(7)] }];
    annotated.cited_evidence_ids = vec![id(2), id(7)];
    assert_eq!(validate_verdict(&annotated, &shown), Ok(()));
    annotated.cited_evidence_ids = vec![id(8)];
    assert_eq!(validate_verdict(&annotated, &shown), Err(VerdictFault::Evidence));

    let mut disputed = sound.clone();
    disputed.unresolved_conflicts = vec![ConflictPair { left: id(2), right: id(1) }];
    assert_eq!(validate_verdict(&disputed, &shown), Ok(()));
    disputed.unresolved_conflicts = vec![ConflictPair { left: id(1), right: id(7) }];
    assert_eq!(validate_verdict(&disputed, &shown), Err(VerdictFault::Conflict));

    let both = verdict(vec![id(1)], vec![id(1)], Vec::new());
    assert_eq!(validate_verdict(&both, &shown), Err(VerdictFault::CandidateSets));
    let twice = verdict(vec![id(1)], Vec::new(), vec![id(1), id(1)]);
    assert_eq!(validate_verdict(&twice, &shown), Err(VerdictFault::CandidateSets));
    let unaccepted = verdict(vec![id(1)], vec![id(2)], vec![id(2)]);
    assert_eq!(validate_verdict(&unaccepted, &shown), Err(VerdictFault::CandidateSets));
}

#[test]
fn verdicts_leave_accepted_evidence_in_their_order() {
    let shown = vec![evidence(1), evidence(2), evidence(3), evidence(4)];
    let ruling = verdict(vec![id(1), id(2), id(4)], vec![id(3)], vec![id(4)]);
    let left: Vec<u128> = ruled_evidence(&ruling, &shown).iter().map(|item| item.node.id.0).collect();
    assert_eq!(left, vec![4, 1, 2]);
}

fn proposal(changes: Vec<ProposedChange>) -> ChangeProposal {
    ChangeProposal {
        id: id(100),
        reason: "because".to_string(),
        changes,
        status: ChangeProposalStatus::Pending,
        source_operation: None,
        created_at_ms: 1,
        applied_at_ms: None,
        next_change: 0,
    }
}

fn adding(edge: EdgeFacts) -> ProposedChange {
    ProposedChange::AddEdge { edge, expected_src_revision: 1, expected_dst_revision: 1 }
}

fn validity(n: u128, revision: u64, from: i64, to: i64) -> ProposedChange {
    ProposedChange::SetValidity {
        node_id: id(n),
        expected_revision: revision,
        valid_from_ms: Some(from),
        valid_to_ms: Some(to),
    }
}

fn marking(n: u128, revision: u64, code: u8, terminal: bool) -> ProposedChange {
    ProposedChange::SetState {
        node_id: id(n),
        expected_revision: revision,
        state: StateMark { code, terminal },
    }
}

#[test]
fn proposals_stay_among_what_was_mentioned() {
    let mut shown = evidence(1);
    shown.provenance = vec![id(2)];
    let mut held = edge(1, "contains", 3);
    held.evidence = vec![id(4)];
    shown.graph_paths = vec![GraphPath { nodes: vec![id(1), id(3)], edges: vec![held] }];
    let allowed = allowed_evidence_ids(&vec![shown]);
    assert_eq!(validate_proposal_scope(&proposal(vec![validity(4, 1, 0, 1)]), &allowed), Ok(()));
    assert_eq!(validate_proposal_scope(&proposal(vec![adding(edge(2, "causes", 3))]), &allowed), Ok(()));
    assert_eq!(
        validate_proposal_scope(&proposal(vec![marking(5, 1, 0, false)]), &allowed),
        Err(VerdictFault::Proposal)
    );
    let mut resting = edge(2, "causes", 3);
    resting.evidence = vec![id(6)];
    assert_eq!(
        validate_proposal_scope(&proposal(vec![adding(resting)]), &allowed),
        Err(VerdictFault::Proposal)
    );
}

#[test]
fn admitted_proposals_are_pending_and_untouched() {
    let mut offered = proposal(vec![validity(1, 1, 0, 1)]);
    offered.status = ChangeProposalStatus::Applied;
    offered.applied_at_ms = Some(3);
    offered.next_change = 1;
    let admitted = admitted_proposal(&offered, id(200), id(300), 77);
    assert_eq!(admitted.id, id(200));
    assert_eq!(admitted.status, ChangeProposalStatus::Pending);
    assert_eq!(admitted.source_operation, Some(id(300)));
    assert_eq!(admitted.created_at_ms, 77);
    assert_eq!(admitted.applied_at_ms, None);
    assert_eq!(admitted.next_change, 0);
    assert_eq!(admitted.changes, offered.changes);
    assert_eq!(admitted.reason, offered.reason);
}

#[test]
fn lawyers_see_no_more_than_fits() {
    assert_eq!(bounded_evidence_payload(&vec![10, 10, 10], 2), 2);
    assert_eq!(bounded_evidence_payload(&vec![10; 80], 100), MAX_LAWYER_CANDIDATES);
    assert_eq!(bounded_evidence_payload(&vec![MAX_LAWYER_BYTES - 2], 5), 1);
    assert_eq!(bounded_evidence_payload(&vec![MAX_LAWYER_BYTES - 1], 5), 0);
    assert_eq!(bounded_evidence_payload(&vec![MAX_LAWYER_BYTES - 12, 9], 5), 2);
    assert_eq!(bounded_evidence_payload(&vec![MAX_LAWYER_BYTES - 12, 10], 5), 1);
}

#[test]
fn relations_are_checked_as_such() {
    assert_eq!(validate_relation(&edge(1, "supersedes", 2)), Ok(()));
    assert_eq!(validate_relation(&edge(1, "likes", 2)), Err(ChangeFault::Relation));
    assert_eq!(validate_relation(&edge(1, "derived_from", 1)), Err(ChangeFault::SelfDerivation));
    for weight in [1.5f32, -0.5, f32::NAN, f32::INFINITY] {
        let mut heavy = edge(1, "causes", 2);
        heavy.weight_bits = weight.to_bits();
        assert_eq!(validate_relation(&heavy), Err(ChangeFault::RelationWeight));
    }
    for weight in [0.0f32, -0.0, 0.5, 1.0] {
        let mut light = edge(1, "causes", 2);
        light.weight_bits = weight.to_bits();
        assert_eq!(validate_relation(&light), Ok(()));
    }
    let mut ended = edge(1, "causes", 2);
    ended.valid_from_ms = Some(4);
    ended.valid_to_ms = Some(4);
    assert_eq!(validate_relation(&ended), Err(ChangeFault::EdgeInterval));
}

#[test]
fn proposals_are_checked_change_by_change() {
    let graph = graph(vec![node(1), node(2)], vec![edge(1, "contains", 2)]);
    let fault = |changes: Vec<ProposedChange>| graph.validate_proposal(&proposal(changes));
    assert_eq!(fault(vec![validity(1, 1, 0, 1), marking(1, 1, 3, true)]), Ok(()));
    assert_eq!(fault(vec![validity(1, 1, 4, 4)]), Err(ChangeFault::ValidityInterval));
    assert_eq!(fault(vec![marking(9, 1, 3, true)]), Err(ChangeFault::NotFound));
    assert_eq!(
        fault(vec![marking(1, 2, 3, true)]),
        Err(ChangeFault::StaleRevision { node_id: id(1), expected: 2, found: 1 })
    );
    assert_eq!(
        fault(vec![validity(1, 1, 0, 1), adding(edge(1, "contains", 2))]),
        Err(ChangeFault::ExistingEdge { change: 1 })
    );
    assert_eq!(
        fault(vec![adding(edge(2, "causes", 1)), adding(edge(2, "causes", 1))]),
        Err(ChangeFault::DuplicateEdge { change: 1 })
    );
    let mut resting = edge(2, "causes", 1);
    resting.evidence = vec![id(1), id(8)];
    assert_eq!(fault(vec![adding(resting)]), Err(ChangeFault::MissingEvidence { node_id: id(8) }));
    assert_eq!(graph.proposal_edge(&edge(1, "contains", 2)), Some(edge(1, "contains", 2)));
    assert_eq!(graph.proposal_edge(&edge(2, "contains", 1)), None);
}

#[test]
fn node_changes_are_made_once() {
    let changes = vec![validity(1, 4, 10, 20), marking(1, 4, 7, true)];
    let before = NodeStanding {
        revision: 4,
        valid_from_ms: None,
        valid_to_ms: None,
        state: StateMark { code: 0, terminal: false },
    };
    let step = decide_node_change(&changes, 0, Some(before), 99);
    let written = NodeStanding { valid_from_ms: Some(10), valid_to_ms: Some(20), ..before };
    assert_eq!(step, Ok(NodeStep::Write(written)));
    let after = NodeStanding { revision: 5, ..written };
    assert_eq!(decide_node_change(&changes, 0, Some(after), 99), Ok(NodeStep::Settled));
    let marked = NodeStanding { state: StateMark { code: 7, terminal: true }, ..after };
    assert_eq!(decide_node_change(&changes, 1, Some(after), 99), Ok(NodeStep::Write(marked)));
    let closed = NodeStanding { revision: 6, ..marked };
    assert_eq!(decide_node_change(&changes, 1, Some(closed), 99), Ok(NodeStep::Settled));
    assert_eq!(
        decide_node_change(&changes, 1, Some(NodeStanding { revision: 9, ..closed }), 99),
        Err(ChangeFault::ResumeConflict { node_id: id(1), before: 5, after: 6, found: 9 })
    );
    assert_eq!(decide_node_change(&changes, 0, None, 99), Err(ChangeFault::NotFound));
}

#[test]
fn a_terminal_state_ends_the_validity() {
    let changes = vec![marking(1, 1, 7, true)];
    let open = NodeStanding {
        revision: 1,
        valid_from_ms: None,
        valid_to_ms: None,
        state: StateMark { code: 0, terminal: false },
    };
    let ended = NodeStanding { valid_to_ms: Some(99), state: StateMark { code: 7, terminal: true }, ..open };
    assert_eq!(decide_node_change(&changes, 0, Some(open), 99), Ok(NodeStep::Write(ended)));
}

#[test]
fn relations_are_added_once_and_normalized() {
    let mut offered = edge(1, "causes", 2);
    offered.revision = 0;
    let stored = normalized_new_edge(offered.clone());
    assert_eq!(stored.revision, 1);
    assert_eq!(stored.valid_from_ms, Some(5));
    let mut dated = offered.clone();
    dated.valid_from_ms = Some(3);
    dated.revision = 8;
    assert_eq!(normalized_new_edge(dated.clone()), dated);

    let changes = vec![validity(1, 1, 0, 1), adding(offered.clone())];
    assert_eq!(decide_edge_change(&changes, 1, &None, Some(2), Some(1)), Ok(EdgeStep::Add));
    let mut found = stored.clone();
    found.valid = false;
    assert!(same_proposal_edge(&found, &stored));
    assert_eq!(decide_edge_change(&changes, 1, &Some(found), None, None), Ok(EdgeStep::Settled));
    assert_eq!(decide_edge_change(&changes, 1, &Some(offered), None, None), Err(ChangeFault::EdgeChanged));
    assert_eq!(
        decide_edge_change(&changes, 1, &None, Some(1), Some(1)),
        Err(ChangeFault::SourceRevision { node_id: id(1), expected: 2, found: 1 })
    );
    assert_eq!(
        decide_edge_change(&changes, 1, &None, Some(2), Some(3)),
        Err(ChangeFault::DestinationRevision { node_id: id(2), expected: 1, found: 3 })
    );
    assert_eq!(decide_edge_change(&changes, 1, &None, None, Some(1)), Err(ChangeFault::NotFound));
}

#[test]
fn proposals_are_applied_change_by_change() {
    let graph = graph(vec![node(1)], Vec::new());
    let mut offered = proposal(vec![validity(1, 1, 0, 1), marking(1, 1, 2, false)]);
    assert_eq!(offered.next(), Err(ChangeFault::NotApplying));
    assert_eq!(offered.take_up(&graph), Ok(()));
    assert_eq!(offered.status, ChangeProposalStatus::Applying);
    assert_eq!(offered.next(), Ok(Some(0)));
    offered.made();
    assert_eq!(offered.next(), Ok(Some(1)));
    assert_eq!(offered.take_up(&graph), Ok(()));
    offered.made();
    assert_eq!(offered.next(), Ok(None));
    offered.close(55);
    assert_eq!(offered.status, ChangeProposalStatus::Applied);
    assert_eq!(offered.applied_at_ms, Some(55));
    assert_eq!(offered.take_up(&graph), Err(ChangeFault::NotApplicable));
    assert_eq!(offered.turn_down(), Err(ChangeFault::NotPending));

    let mut stale = proposal(vec![validity(1, 9, 0, 1)]);
    assert_eq!(
        stale.take_up(&graph),
        Err(ChangeFault::StaleRevision { node_id: id(1), expected: 9, found: 1 })
    );
    assert_eq!(stale.status, ChangeProposalStatus::Stale);

    let mut rejected = proposal(Vec::new());
    assert_eq!(rejected.turn_down(), Ok(()));
    assert_eq!(rejected.status, ChangeProposalStatus::Rejected);

    let mut lost = proposal(Vec::new());
    lost.status = ChangeProposalStatus::Applying;
    lost.next_change = 2;
    assert_eq!(lost.next(), Err(ChangeFault::Cursor { next_change: 2, changes: 0 }));
}

#[test]
fn vector_filters_bound_kind_time_and_metadata() {
    let filter = VectorFilter::new().kind(3).after_ms(10).before_ms(20);
    assert!(filter.matches_meta(3, 10));
    assert!(filter.matches_meta(3, 20));
    assert!(!filter.matches_meta(3, 9));
    assert!(!filter.matches_meta(3, 21));
    assert!(!filter.matches_meta(4, 15));
    let tagged = filter
        .metadata_eq("topic".to_string(), "go".to_string())
        .metadata_eq("topic".to_string(), "rust".to_string());
    assert_eq!(tagged.metadata, vec![entry("topic", "rust")]);
    assert!(tagged.matches(3, 15, &vec![entry("other", "x"), entry("topic", "rust")]));
    assert!(!tagged.matches(3, 15, &vec![entry("topic", "go")]));
    assert!(VectorFilter::new().matches(9, i64::MIN, &Vec::new()));
}

#[test]
fn metadata_candidates_meet_every_condition() {
    let found = vec![vec![id(3), id(1), id(2)], vec![id(2), id(3), id(9)], vec![id(3), id(2)]];
    assert_eq!(metadata_candidate_set(&found), vec![id(3), id(2)]);
    assert_eq!(metadata_candidate_set(&vec![vec![id(1)], vec![id(2)]]), Vec::<Ulid>::new());
}

#[test]
fn a_spread_visits_each_memory_once() {
    let mut spread = Spread::new(id(1), 2);
    let from = spread.next().unwrap();
    assert_eq!(from, HopNode { id: id(1), hop: 0 });
    let reached = spread.go(from, &vec![edge(1, "contains", 2), edge(3, "contains", 1), edge(1, "causes", 2)]);
    assert_eq!(reached, vec![HopNode { id: id(2), hop: 1 }, HopNode { id: id(3), hop: 1 }]);
    let next = spread.next().unwrap();
    assert_eq!(next, HopNode { id: id(2), hop: 1 });
    assert_eq!(
        spread.go(next, &vec![edge(2, "contains", 1), edge(2, "contains", 4)]),
        vec![HopNode { id: id(4), hop: 2 }]
    );
    let next = spread.next().unwrap();
    assert_eq!(next, HopNode { id: id(3), hop: 1 });
    assert_eq!(spread.go(next, &vec![edge(3, "contains", 4)]), Vec::new());
    assert_eq!(spread.next(), None);
}

#[test]
fn a_spread_takes_the_shortest_way() {
    // 1 leads to 2 and 3, 3 to 4, 4 to 2 and 5, 2 to 5.
    let around = |node: u128| match node {
        1 => vec![edge(1, "contains", 2), edge(1, "contains", 3)],
        2 => vec![edge(2, "contains", 5)],
        3 => vec![edge(3, "contains", 4)],
        4 => vec![edge(4, "contains", 2), edge(4, "contains", 5)],
        _ => Vec::new(),
    };
    let mut spread = Spread::new(id(1), 3);
    let mut reached = Vec::new();
    while let Some(from) = spread.next() {
        reached.extend(spread.go(from, &around(from.id.0)));
    }
    assert_eq!(
        reached,
        vec![
            HopNode { id: id(2), hop: 1 },
            HopNode { id: id(3), hop: 1 },
            HopNode { id: id(5), hop: 2 },
            HopNode { id: id(4), hop: 2 },
        ]
    );
}

#[test]
fn expanded_rows_name_each_memory_once() {
    let row = |n: u128, stored: bool| ReachedRow { node_id: id(n).text(), stored };
    let rows = graph_expand_query_rows_from(&vec![
        SeedRow { node_id: id(1).text(), reached: vec![row(2, true), row(3, false), row(2, true)] },
        SeedRow { node_id: id(2).text(), reached: vec![row(3, true), row(4, true)] },
    ]);
    assert_eq!(
        rows,
        vec![
            RowPick { seed: 0, reached: None },
            RowPick { seed: 0, reached: Some(0) },
            RowPick { seed: 1, reached: Some(1) },
        ]
    );
    assert_eq!(countable_rows(7), 7);
}

#[test]
fn a_recall_ends_as_its_lawyer_did() {
    let found = vec![evidence(1), evidence(2), evidence(3)];
    let none: Vec<String> = Vec::new();
    let plain = conclude(id(9), &found, Ruling::Unasked, &none, true, 2).unwrap();
    assert_eq!(plain.evidence, vec![evidence(1), evidence(2)]);
    assert_eq!(plain.status, RecallStatus::Deterministic);
    assert_eq!(plain.operation_id, id(9));

    let reasons = vec!["slow".to_string(), "lost".to_string()];
    let degraded = conclude(id(9), &found, Ruling::Unasked, &reasons, true, 5).unwrap();
    assert_eq!(degraded.evidence.len(), 3);
    assert_eq!(degraded.status, RecallStatus::Degraded { reason: "slow; lost".to_string() });

    let ruling = verdict(vec![id(2), id(3)], vec![id(1)], vec![id(3)]);
    let ruled = conclude(id(9), &found, Ruling::Ruled(ruling.clone()), &reasons, true, 5).unwrap();
    assert_eq!(ruled.evidence, vec![evidence(3), evidence(2)]);
    assert_eq!(ruled.verdict, Some(ruling));
    assert_eq!(ruled.status, RecallStatus::Adjudicated);

    let failed = || Ruling::Failed("away".to_string());
    let passed = conclude(id(9), &found, failed(), &none, true, 1).unwrap();
    assert_eq!(passed.evidence, vec![evidence(1)]);
    assert_eq!(passed.verdict, None);
    assert_eq!(passed.status, RecallStatus::Degraded { reason: "away".to_string() });
    assert_eq!(conclude(id(9), &found, failed(), &none, false, 1), Err("away".to_string()));
}

#[test]
fn questions_are_checked_before_anything_is_sought() {
    let mut request = RecallRequest::new("fox".to_string());
    assert_eq!(request.limit, 10);
    assert_eq!(request.candidate_limit, 50);
    assert_eq!(request.graph_depth, 1);
    assert!(request.lexical);
    assert!(request.as_of_ms > 0);
    assert_eq!(request.start(), Ok(true));
    assert_eq!(request.considered(), 50);
    request.limit = 70;
    assert_eq!(request.considered(), 70);
    for least in [0.0f32, -0.0, 0.5, 1.0] {
        request.min_vector_similarity_bits = Some(least.to_bits());
        assert_eq!(request.start(), Ok(true));
    }
    for least in [-0.5f32, 1.5, f32::NAN, f32::INFINITY] {
        request.min_vector_similarity_bits = Some(least.to_bits());
        assert_eq!(request.start(), Err(RecallFault::Similarity));
    }
    request.min_vector_similarity_bits = None;
    request.candidate_limit = 0;
    assert_eq!(request.start(), Ok(false));
    assert_eq!(request.clone(), request);
}

#[test]
fn a_row_that_names_no_memory_leads_nowhere() {
    let row = |n: u128| ReachedRow { node_id: id(n).text(), stored: true };
    let rows = graph_expand_query_rows_from(&vec![
        SeedRow { node_id: "no memory".to_string(), reached: vec![row(2)] },
        SeedRow { node_id: id(1).text().to_lowercase(), reached: vec![row(3)] },
    ]);
    assert_eq!(
        rows,
        vec![
            RowPick { seed: 0, reached: None },
            RowPick { seed: 1, reached: None },
            RowPick { seed: 1, reached: Some(0) },
        ]
    );
    assert_eq!(seed_id("no memory"), None);
    assert_eq!(seed_id(&id(77).text()), Some(id(77)));
}
