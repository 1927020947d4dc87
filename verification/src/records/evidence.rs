//! Records of evidence, and who and what they concern.
use vstd::prelude::*;
use crate::context::TemporalFacts;
use crate::ids::{
    ArtifactCollectionId, ArtifactPassageId, ArtifactSnapshotId, ClaimId, EntityId, EvidenceId,
    OperationId, ProposalId, ProposalReviewCaseId, RelationId, Ulid,
};
use crate::table::{Replica, opt_replica, opt_view};

verus! {

#[derive(Clone, Copy, Debug, PartialEq, Eq, Structural)]
pub enum Actor {
    User,
    Assistant,
    System,
    Operator,
}

impl View for Actor {
    type V = Actor;

    open spec fn view(&self) -> Actor {
        *self
    }
}

#[derive(Clone, Copy, Debug, PartialEq, Eq, Structural)]
pub enum Scope {
    Personal,
    Workspace(Ulid),
    Session(Ulid),
    Artifact(Ulid),
    System,
}

impl View for Scope {
    type V = Scope;

    open spec fn view(&self) -> Scope {
        *self
    }
}

#[derive(Clone, Copy, Debug, PartialEq, Eq, Structural)]
pub enum RecordState {
    Active,
    Retracted,
    Superseded,
    Unsupported,
    Purged,
}

impl View for RecordState {
    type V = RecordState;

    open spec fn view(&self) -> RecordState {
        *self
    }
}

#[derive(Clone, Copy, Debug, PartialEq, Eq, PartialOrd, Ord, Hash, Structural)]
pub enum RecordRef {
    Evidence(EvidenceId),
    Claim(ClaimId),
    Entity(EntityId),
    SemanticRelation(RelationId),
    Proposal(ProposalId),
    ProposalReview(ProposalReviewCaseId),
    ArtifactCollection(ArtifactCollectionId),
    ArtifactSnapshot(ArtifactSnapshotId),
    ArtifactPassage(ArtifactPassageId),
}

impl View for RecordRef {
    type V = RecordRef;

    open spec fn view(&self) -> RecordRef {
        *self
    }
}

#[derive(Clone, Copy, Debug, PartialEq, Eq, Structural)]
pub enum RevisionSelector {
    Head,
    Exact(u64),
}

impl View for RevisionSelector {
    type V = RevisionSelector;

    open spec fn view(&self) -> RevisionSelector {
        *self
    }
}

#[derive(Clone, Copy, Debug, PartialEq, Eq, Structural)]
pub enum EvidenceClass {
    UserAssertion,
    UserCorrection,
    ImportedSource,
    ToolObservation,
    ActionOutcome,
    AssistantCommitment,
    AssistantUtterance,
    SystemObservation,
    ArtifactSnapshot,
    ArtifactPassage,
}

impl View for EvidenceClass {
    type V = EvidenceClass;

    open spec fn view(&self) -> EvidenceClass {
        *self
    }
}

#[derive(Clone, Copy, Debug, PartialEq, Eq, Structural)]
pub enum TerminalTurnStatus {
    Completed,
    Failed,
    Cancelled,
    Interrupted,
}

impl View for TerminalTurnStatus {
    type V = TerminalTurnStatus;

    open spec fn view(&self) -> TerminalTurnStatus {
        *self
    }
}

#[derive(Debug, PartialEq, Eq)]
pub enum EvidenceLifecycle {
    Direct,
    TerminalTurn {
        /// Opaque caller-owned event or run identifier. It is intentionally
        /// not parsed as a storage-native ID.
        source_event_id: String,
        status: TerminalTurnStatus,
    },
}

/// What a [`EvidenceLifecycle`] holds.
#[verifier::ext_equal]
pub enum EvidenceLifecycleModel {
    Direct,
    TerminalTurn { source_event_id: Seq<char>, status: TerminalTurnStatus },
}

impl View for EvidenceLifecycle {
    type V = EvidenceLifecycleModel;

    open spec fn view(&self) -> EvidenceLifecycleModel {
        match *self {
            EvidenceLifecycle::Direct => EvidenceLifecycleModel::Direct,
            EvidenceLifecycle::TerminalTurn { source_event_id, status } => EvidenceLifecycleModel::TerminalTurn {
                source_event_id: source_event_id@,
                status,
            },
        }
    }
}

impl Replica for EvidenceLifecycle {
    fn replica(&self) -> (r: Self) {
        match self {
            EvidenceLifecycle::Direct => EvidenceLifecycle::Direct,
            EvidenceLifecycle::TerminalTurn { source_event_id, status } => EvidenceLifecycle::TerminalTurn {
                source_event_id: source_event_id.clone(),
                status: *status,
            },
        }
    }
}

impl Clone for EvidenceLifecycle {
    fn clone(&self) -> (r: Self)
        ensures
            r@ == self@,
    {
        self.replica()
    }
}

/// Content-free lifecycle truth persisted in evidence headers and citations.
/// Caller-owned terminal identifiers are replaced by a store-keyed digest at
/// the ingestion boundary.
#[derive(Clone, Copy, Debug, PartialEq, Eq)]
pub enum EvidenceLifecycleTruth {
    Direct,
    TerminalTurn {
        source_event_digest: [u8; 32],
        status: TerminalTurnStatus,
    },
}

impl View for EvidenceLifecycleTruth {
    type V = EvidenceLifecycleTruth;

    open spec fn view(&self) -> EvidenceLifecycleTruth {
        *self
    }
}

#[derive(Clone, Copy, Debug, PartialEq, Eq, Structural)]
pub enum ClaimDomain {
    UserProfile,
    UserPreference,
    UserNote,
    ExternalFact,
    WorkspaceFact,
    SessionContext,
    ArtifactContent,
    SystemFact,
    AssistantCommitment,
}

impl View for ClaimDomain {
    type V = ClaimDomain;

    open spec fn view(&self) -> ClaimDomain {
        *self
    }
}

#[derive(Debug, PartialEq, Eq)]
pub struct NewEvidence {
    pub class: EvidenceClass,
    pub scope: Scope,
    pub temporal: TemporalFacts,
    pub lifecycle: EvidenceLifecycle,
    pub text: String,
}

/// What a [`NewEvidence`] holds.
#[verifier::ext_equal]
pub struct NewEvidenceModel {
    pub class: EvidenceClass,
    pub scope: Scope,
    pub temporal: TemporalFacts,
    pub lifecycle: EvidenceLifecycleModel,
    pub text: Seq<char>,
}

impl View for NewEvidence {
    type V = NewEvidenceModel;

    open spec fn view(&self) -> NewEvidenceModel {
        NewEvidenceModel {
            class: self.class,
            scope: self.scope,
            temporal: self.temporal,
            lifecycle: self.lifecycle@,
            text: self.text@,
        }
    }
}

impl Replica for NewEvidence {
    fn replica(&self) -> (r: Self) {
        NewEvidence {
            class: self.class,
            scope: self.scope,
            temporal: self.temporal,
            lifecycle: self.lifecycle.replica(),
            text: self.text.clone(),
        }
    }
}

impl Clone for NewEvidence {
    fn clone(&self) -> (r: Self)
        ensures
            r@ == self@,
    {
        self.replica()
    }
}

#[derive(Clone, Copy, Debug, PartialEq, Eq)]
pub struct EvidenceHeader {
    pub id: EvidenceId,
    pub class: EvidenceClass,
    pub captured_by: Actor,
    pub scope: Scope,
    pub temporal: TemporalFacts,
    pub lifecycle: EvidenceLifecycleTruth,
    pub recorded_at_ms: i64,
    pub operation_id: OperationId,
}

impl View for EvidenceHeader {
    type V = EvidenceHeader;

    open spec fn view(&self) -> EvidenceHeader {
        *self
    }
}

#[derive(Clone, Copy, Debug, PartialEq, Eq, Structural)]
pub struct EvidenceAvailabilityRevision {
    pub evidence_id: EvidenceId,
    pub revision: u64,
    pub state: RecordState,
    pub recorded_at_ms: i64,
    pub operation_id: OperationId,
}

impl View for EvidenceAvailabilityRevision {
    type V = EvidenceAvailabilityRevision;

    open spec fn view(&self) -> EvidenceAvailabilityRevision {
        *self
    }
}

#[derive(Debug, PartialEq, Eq)]
pub struct EvidenceRecord {
    pub header: EvidenceHeader,
    pub availability: EvidenceAvailabilityRevision,
    /// `None` means that the separately stored erasable payload is unavailable.
    pub text: Option<String>,
}

/// What a [`EvidenceRecord`] holds.
#[verifier::ext_equal]
pub struct EvidenceRecordModel {
    pub header: EvidenceHeader,
    pub availability: EvidenceAvailabilityRevision,
    pub text: Option<Seq<char>>,
}

impl View for EvidenceRecord {
    type V = EvidenceRecordModel;

    open spec fn view(&self) -> EvidenceRecordModel {
        EvidenceRecordModel {
            header: self.header,
            availability: self.availability,
            text: opt_view(self.text),
        }
    }
}

impl Replica for EvidenceRecord {
    fn replica(&self) -> (r: Self) {
        EvidenceRecord {
            header: self.header,
            availability: self.availability,
            text: opt_replica(&self.text),
        }
    }
}

impl Clone for EvidenceRecord {
    fn clone(&self) -> (r: Self)
        ensures
            r@ == self@,
    {
        self.replica()
    }
}

#[derive(Clone, Copy, Debug, PartialEq, Eq, Structural)]
pub struct EvidenceReceipt {
    pub id: EvidenceId,
    pub availability_revision: u64,
}

impl View for EvidenceReceipt {
    type V = EvidenceReceipt;

    open spec fn view(&self) -> EvidenceReceipt {
        *self
    }
}

} // verus!
