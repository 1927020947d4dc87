//! Verdicts of a lawyer agent and the changes that they propose.
use vstd::prelude::*;
use crate::applying::Applied;
use crate::ids::Ulid;
use crate::records::graph::{
    EdgeFacts, EdgeFactsModel, RecallEvidence, RecallEvidenceModel, RecallStatus,
    RecallStatusModel,
};
use crate::table::{Replica, copies, opt_replica, opt_view, replicas, views};

verus! {

#[derive(Debug, PartialEq, Eq)]
pub struct CausalAnnotation {
    pub candidate_id: Ulid,
    pub note: String,
    pub evidence_ids: Vec<Ulid>,
}

/// What a [`CausalAnnotation`] holds.
#[verifier::ext_equal]
pub struct CausalAnnotationModel {
    pub candidate_id: Ulid,
    pub note: Seq<char>,
    pub evidence_ids: Seq<Ulid>,
}

impl View for CausalAnnotation {
    type V = CausalAnnotationModel;

    open spec fn view(&self) -> CausalAnnotationModel {
        CausalAnnotationModel {
            candidate_id: self.candidate_id,
            note: self.note@,
            evidence_ids: self.evidence_ids@,
        }
    }
}

impl Replica for CausalAnnotation {
    fn replica(&self) -> (r: Self) {
        CausalAnnotation {
            candidate_id: self.candidate_id,
            note: self.note.clone(),
            evidence_ids: copies(&self.evidence_ids),
        }
    }
}

impl Clone for CausalAnnotation {
    fn clone(&self) -> (r: Self)
        ensures
            r@ == self@,
    {
        self.replica()
    }
}

#[derive(Clone, Copy, Debug, PartialEq, Eq, Structural)]
pub struct ConflictPair {
    pub left: Ulid,
    pub right: Ulid,
}

impl View for ConflictPair {
    type V = ConflictPair;

    open spec fn view(&self) -> ConflictPair {
        *self
    }
}

#[derive(Clone, Copy, Debug, PartialEq, Eq, Structural)]
pub enum ChangeProposalStatus {
    Pending,
    Applying,
    Applied,
    Rejected,
    Stale,
}

impl View for ChangeProposalStatus {
    type V = ChangeProposalStatus;

    open spec fn view(&self) -> ChangeProposalStatus {
        *self
    }
}

/// The state of a memory by its code, and whether the state ends the memory's validity.
#[derive(Clone, Copy, Debug, PartialEq, Eq, Structural)]
pub struct StateMark {
    pub code: u8,
    pub terminal: bool,
}

impl View for StateMark {
    type V = StateMark;

    open spec fn view(&self) -> StateMark {
        *self
    }
}

#[derive(Debug, PartialEq, Eq)]
pub enum ProposedChange {
    SetValidity {
        node_id: Ulid,
        expected_revision: u64,
        valid_from_ms: Option<i64>,
        valid_to_ms: Option<i64>,
    },
    SetState {
        node_id: Ulid,
        expected_revision: u64,
        state: StateMark,
    },
    AddEdge {
        edge: EdgeFacts,
        expected_src_revision: u64,
        expected_dst_revision: u64,
    },
}

/// What a [`ProposedChange`] holds.
#[verifier::ext_equal]
pub enum ProposedChangeModel {
    SetValidity { node_id: Ulid, expected_revision: u64, valid_from_ms: Option<i64>, valid_to_ms: Option<i64> },
    SetState { node_id: Ulid, expected_revision: u64, state: StateMark },
    AddEdge { edge: EdgeFactsModel, expected_src_revision: u64, expected_dst_revision: u64 },
}

impl View for ProposedChange {
    type V = ProposedChangeModel;

    open spec fn view(&self) -> ProposedChangeModel {
        match *self {
            ProposedChange::SetValidity { node_id, expected_revision, valid_from_ms, valid_to_ms } => ProposedChangeModel::SetValidity {
                node_id,
                expected_revision,
                valid_from_ms,
                valid_to_ms,
            },
            ProposedChange::SetState { node_id, expected_revision, state } => ProposedChangeModel::SetState {
                node_id,
                expected_revision,
                state,
            },
            ProposedChange::AddEdge { edge, expected_src_revision, expected_dst_revision } => ProposedChangeModel::AddEdge {
                edge: edge@,
                expected_src_revision,
                expected_dst_revision,
            },
        }
    }
}

impl Replica for ProposedChange {
    fn replica(&self) -> (r: Self) {
        match self {
            ProposedChange::SetValidity { node_id, expected_revision, valid_from_ms, valid_to_ms } => ProposedChange::SetValidity {
                node_id: *node_id,
                expected_revision: *expected_revision,
                valid_from_ms: *valid_from_ms,
                valid_to_ms: *valid_to_ms,
            },
            ProposedChange::SetState { node_id, expected_revision, state } => ProposedChange::SetState {
                node_id: *node_id,
                expected_revision: *expected_revision,
                state: *state,
            },
            ProposedChange::AddEdge { edge, expected_src_revision, expected_dst_revision } => ProposedChange::AddEdge {
                edge: edge.replica(),
                expected_src_revision: *expected_src_revision,
                expected_dst_revision: *expected_dst_revision,
            },
        }
    }
}

impl Clone for ProposedChange {
    fn clone(&self) -> (r: Self)
        ensures
            r@ == self@,
    {
        self.replica()
    }
}

#[derive(Debug, PartialEq, Eq)]
pub struct ChangeProposal {
    pub id: Ulid,
    pub reason: String,
    pub changes: Vec<ProposedChange>,
    pub status: ChangeProposalStatus,
    pub source_operation: Option<Ulid>,
    pub created_at_ms: i64,
    pub applied_at_ms: Option<i64>,
    /// Number of changes durably applied. `Applying` proposals resume at this
    /// cursor after an interrupted process or retry.
    pub next_change: usize,
}

/// What a [`ChangeProposal`] holds.
#[verifier::ext_equal]
pub struct ChangeProposalModel {
    pub id: Ulid,
    pub reason: Seq<char>,
    pub changes: Seq<ProposedChangeModel>,
    pub status: ChangeProposalStatus,
    pub source_operation: Option<Ulid>,
    pub created_at_ms: i64,
    pub applied_at_ms: Option<i64>,
    pub next_change: usize,
}

impl View for ChangeProposal {
    type V = ChangeProposalModel;

    open spec fn view(&self) -> ChangeProposalModel {
        ChangeProposalModel {
            id: self.id,
            reason: self.reason@,
            changes: views(self.changes@),
            status: self.status,
            source_operation: self.source_operation,
            created_at_ms: self.created_at_ms,
            applied_at_ms: self.applied_at_ms,
            next_change: self.next_change,
        }
    }
}

impl Replica for ChangeProposal {
    fn replica(&self) -> (r: Self) {
        ChangeProposal {
            id: self.id,
            reason: self.reason.clone(),
            changes: replicas(&self.changes),
            status: self.status,
            source_operation: self.source_operation,
            created_at_ms: self.created_at_ms,
            applied_at_ms: self.applied_at_ms,
            next_change: self.next_change,
        }
    }
}

impl Clone for ChangeProposal {
    fn clone(&self) -> (r: Self)
        ensures
            r@ == self@,
    {
        self.replica()
    }
}

#[derive(Debug, PartialEq, Eq)]
pub struct LawyerVerdict {
    pub accepted_candidate_ids: Vec<Ulid>,
    pub rejected_candidate_ids: Vec<Ulid>,
    pub final_order: Vec<Ulid>,
    pub annotations: Vec<CausalAnnotation>,
    pub cited_evidence_ids: Vec<Ulid>,
    pub unresolved_conflicts: Vec<ConflictPair>,
    pub proposals: Vec<ChangeProposal>,
}

/// What a [`LawyerVerdict`] holds.
#[verifier::ext_equal]
pub struct LawyerVerdictModel {
    pub accepted_candidate_ids: Seq<Ulid>,
    pub rejected_candidate_ids: Seq<Ulid>,
    pub final_order: Seq<Ulid>,
    pub annotations: Seq<CausalAnnotationModel>,
    pub cited_evidence_ids: Seq<Ulid>,
    pub unresolved_conflicts: Seq<ConflictPair>,
    pub proposals: Seq<ChangeProposalModel>,
}

impl View for LawyerVerdict {
    type V = LawyerVerdictModel;

    open spec fn view(&self) -> LawyerVerdictModel {
        LawyerVerdictModel {
            accepted_candidate_ids: self.accepted_candidate_ids@,
            rejected_candidate_ids: self.rejected_candidate_ids@,
            final_order: self.final_order@,
            annotations: views(self.annotations@),
            cited_evidence_ids: self.cited_evidence_ids@,
            unresolved_conflicts: self.unresolved_conflicts@,
            proposals: views(self.proposals@),
        }
    }
}

impl Replica for LawyerVerdict {
    fn replica(&self) -> (r: Self) {
        LawyerVerdict {
            accepted_candidate_ids: copies(&self.accepted_candidate_ids),
            rejected_candidate_ids: copies(&self.rejected_candidate_ids),
            final_order: copies(&self.final_order),
            annotations: replicas(&self.annotations),
            cited_evidence_ids: copies(&self.cited_evidence_ids),
            unresolved_conflicts: copies(&self.unresolved_conflicts),
            proposals: replicas(&self.proposals),
        }
    }
}

impl Clone for LawyerVerdict {
    fn clone(&self) -> (r: Self)
        ensures
            r@ == self@,
    {
        self.replica()
    }
}

#[derive(Debug, PartialEq, Eq)]
pub struct AdjudicatedRecall {
    pub operation_id: Ulid,
    pub evidence: Vec<RecallEvidence>,
    pub verdict: Option<LawyerVerdict>,
    pub status: RecallStatus,
}

/// What a [`AdjudicatedRecall`] holds.
#[verifier::ext_equal]
pub struct AdjudicatedRecallModel {
    pub operation_id: Ulid,
    pub evidence: Seq<RecallEvidenceModel>,
    pub verdict: Option<LawyerVerdictModel>,
    pub status: RecallStatusModel,
}

impl View for AdjudicatedRecall {
    type V = AdjudicatedRecallModel;

    open spec fn view(&self) -> AdjudicatedRecallModel {
        AdjudicatedRecallModel {
            operation_id: self.operation_id,
            evidence: views(self.evidence@),
            verdict: opt_view(self.verdict),
            status: self.status@,
        }
    }
}

impl Replica for AdjudicatedRecall {
    fn replica(&self) -> (r: Self) {
        AdjudicatedRecall {
            operation_id: self.operation_id,
            evidence: replicas(&self.evidence),
            verdict: opt_replica(&self.verdict),
            status: self.status.replica(),
        }
    }
}

impl Clone for AdjudicatedRecall {
    fn clone(&self) -> (r: Self)
        ensures
            r@ == self@,
    {
        self.replica()
    }
}

} // verus!
