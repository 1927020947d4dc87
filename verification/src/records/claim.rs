//! Claims, entities and semantic relations.
use vstd::prelude::*;
use crate::context::TemporalFacts;
use crate::ids::{ClaimId, EntityId, EvidenceId, OperationId, RelationId};
use crate::records::artifact::{
    ArtifactCollectionRecord, ArtifactCollectionRecordModel, ArtifactPassageRecord,
    ArtifactPassageRecordModel, ArtifactSnapshotRecord, ArtifactSnapshotRecordModel,
};
use crate::records::audit::RecordRevision;
use crate::records::evidence::{
    ClaimDomain, EvidenceReceipt, EvidenceRecord, EvidenceRecordModel, RecordRef, RecordState,
    Scope,
};
use crate::records::proposal::{
    ProposalRecord, ProposalRecordModel, ProposalReviewCase, ProposalReviewCaseModel,
};
use crate::table::{Replica, copies, opt_replica, opt_view, replicas, views};

verus! {

#[derive(Debug, PartialEq, Eq)]
pub struct NewClaim {
    pub domain: ClaimDomain,
    pub scope: Scope,
    pub temporal: TemporalFacts,
    pub proposition: String,
    pub evidence_ids: Vec<EvidenceId>,
}

/// What a [`NewClaim`] holds.
#[verifier::ext_equal]
pub struct NewClaimModel {
    pub domain: ClaimDomain,
    pub scope: Scope,
    pub temporal: TemporalFacts,
    pub proposition: Seq<char>,
    pub evidence_ids: Seq<EvidenceId>,
}

impl View for NewClaim {
    type V = NewClaimModel;

    open spec fn view(&self) -> NewClaimModel {
        NewClaimModel {
            domain: self.domain,
            scope: self.scope,
            temporal: self.temporal,
            proposition: self.proposition@,
            evidence_ids: self.evidence_ids@,
        }
    }
}

impl Replica for NewClaim {
    fn replica(&self) -> (r: Self) {
        NewClaim {
            domain: self.domain,
            scope: self.scope,
            temporal: self.temporal,
            proposition: self.proposition.clone(),
            evidence_ids: copies(&self.evidence_ids),
        }
    }
}

impl Clone for NewClaim {
    fn clone(&self) -> (r: Self)
        ensures
            r@ == self@,
    {
        self.replica()
    }
}

#[derive(Debug, PartialEq, Eq)]
pub struct RememberUserClaim {
    pub domain: ClaimDomain,
    pub scope: Scope,
    pub temporal: TemporalFacts,
    /// The user's original assertion, retained as immutable evidence.
    pub evidence_text: String,
    /// The durable proposition derived from that assertion.
    pub proposition: String,
}

/// What a [`RememberUserClaim`] holds.
#[verifier::ext_equal]
pub struct RememberUserClaimModel {
    pub domain: ClaimDomain,
    pub scope: Scope,
    pub temporal: TemporalFacts,
    pub evidence_text: Seq<char>,
    pub proposition: Seq<char>,
}

impl View for RememberUserClaim {
    type V = RememberUserClaimModel;

    open spec fn view(&self) -> RememberUserClaimModel {
        RememberUserClaimModel {
            domain: self.domain,
            scope: self.scope,
            temporal: self.temporal,
            evidence_text: self.evidence_text@,
            proposition: self.proposition@,
        }
    }
}

impl Replica for RememberUserClaim {
    fn replica(&self) -> (r: Self) {
        RememberUserClaim {
            domain: self.domain,
            scope: self.scope,
            temporal: self.temporal,
            evidence_text: self.evidence_text.clone(),
            proposition: self.proposition.clone(),
        }
    }
}

impl Clone for RememberUserClaim {
    fn clone(&self) -> (r: Self)
        ensures
            r@ == self@,
    {
        self.replica()
    }
}

#[derive(Debug, PartialEq, Eq)]
pub struct CorrectUserClaim {
    pub target: ClaimId,
    pub expected_revision: u64,
    pub temporal: TemporalFacts,
    /// The user's original correction, retained as immutable evidence.
    pub evidence_text: String,
    pub replacement_proposition: String,
}

/// What a [`CorrectUserClaim`] holds.
#[verifier::ext_equal]
pub struct CorrectUserClaimModel {
    pub target: ClaimId,
    pub expected_revision: u64,
    pub temporal: TemporalFacts,
    pub evidence_text: Seq<char>,
    pub replacement_proposition: Seq<char>,
}

impl View for CorrectUserClaim {
    type V = CorrectUserClaimModel;

    open spec fn view(&self) -> CorrectUserClaimModel {
        CorrectUserClaimModel {
            target: self.target,
            expected_revision: self.expected_revision,
            temporal: self.temporal,
            evidence_text: self.evidence_text@,
            replacement_proposition: self.replacement_proposition@,
        }
    }
}

impl Replica for CorrectUserClaim {
    fn replica(&self) -> (r: Self) {
        CorrectUserClaim {
            target: self.target,
            expected_revision: self.expected_revision,
            temporal: self.temporal,
            evidence_text: self.evidence_text.clone(),
            replacement_proposition: self.replacement_proposition.clone(),
        }
    }
}

impl Clone for CorrectUserClaim {
    fn clone(&self) -> (r: Self)
        ensures
            r@ == self@,
    {
        self.replica()
    }
}

#[derive(Debug, PartialEq, Eq)]
pub struct ClaimRevisionHeader {
    pub id: ClaimId,
    pub revision: u64,
    pub previous_revision: Option<u64>,
    pub domain: ClaimDomain,
    pub scope: Scope,
    pub temporal: TemporalFacts,
    pub evidence_ids: Vec<EvidenceId>,
    pub state: RecordState,
    pub recorded_at_ms: i64,
    pub operation_id: OperationId,
}

/// What a [`ClaimRevisionHeader`] holds.
#[verifier::ext_equal]
pub struct ClaimRevisionHeaderModel {
    pub id: ClaimId,
    pub revision: u64,
    pub previous_revision: Option<u64>,
    pub domain: ClaimDomain,
    pub scope: Scope,
    pub temporal: TemporalFacts,
    pub evidence_ids: Seq<EvidenceId>,
    pub state: RecordState,
    pub recorded_at_ms: i64,
    pub operation_id: OperationId,
}

impl View for ClaimRevisionHeader {
    type V = ClaimRevisionHeaderModel;

    open spec fn view(&self) -> ClaimRevisionHeaderModel {
        ClaimRevisionHeaderModel {
            id: self.id,
            revision: self.revision,
            previous_revision: self.previous_revision,
            domain: self.domain,
            scope: self.scope,
            temporal: self.temporal,
            evidence_ids: self.evidence_ids@,
            state: self.state,
            recorded_at_ms: self.recorded_at_ms,
            operation_id: self.operation_id,
        }
    }
}

impl Replica for ClaimRevisionHeader {
    fn replica(&self) -> (r: Self) {
        ClaimRevisionHeader {
            id: self.id,
            revision: self.revision,
            previous_revision: self.previous_revision,
            domain: self.domain,
            scope: self.scope,
            temporal: self.temporal,
            evidence_ids: copies(&self.evidence_ids),
            state: self.state,
            recorded_at_ms: self.recorded_at_ms,
            operation_id: self.operation_id,
        }
    }
}

impl Clone for ClaimRevisionHeader {
    fn clone(&self) -> (r: Self)
        ensures
            r@ == self@,
    {
        self.replica()
    }
}

#[derive(Debug, PartialEq, Eq)]
pub struct ClaimRecord {
    pub header: ClaimRevisionHeader,
    /// Purge removes this separately stored payload without rewriting history.
    pub proposition: Option<String>,
}

/// What a [`ClaimRecord`] holds.
#[verifier::ext_equal]
pub struct ClaimRecordModel {
    pub header: ClaimRevisionHeaderModel,
    pub proposition: Option<Seq<char>>,
}

impl View for ClaimRecord {
    type V = ClaimRecordModel;

    open spec fn view(&self) -> ClaimRecordModel {
        ClaimRecordModel {
            header: self.header@,
            proposition: opt_view(self.proposition),
        }
    }
}

impl Replica for ClaimRecord {
    fn replica(&self) -> (r: Self) {
        ClaimRecord {
            header: self.header.replica(),
            proposition: opt_replica(&self.proposition),
        }
    }
}

impl Clone for ClaimRecord {
    fn clone(&self) -> (r: Self)
        ensures
            r@ == self@,
    {
        self.replica()
    }
}

#[derive(Clone, Copy, Debug, PartialEq, Eq, Structural)]
pub struct ClaimReceipt {
    pub id: ClaimId,
    pub revision: u64,
    pub state: RecordState,
}

impl View for ClaimReceipt {
    type V = ClaimReceipt;

    open spec fn view(&self) -> ClaimReceipt {
        *self
    }
}

#[derive(Clone, Copy, Debug, PartialEq, Eq, Structural)]
pub struct RememberReceipt {
    pub evidence: EvidenceReceipt,
    pub claim: ClaimReceipt,
}

impl View for RememberReceipt {
    type V = RememberReceipt;

    open spec fn view(&self) -> RememberReceipt {
        *self
    }
}

#[derive(Debug, PartialEq, Eq)]
pub struct CorrectionReceipt {
    pub evidence: EvidenceReceipt,
    pub superseded: RecordRevision,
    pub replacement: ClaimReceipt,
    pub supersedes_relation: RelationReceipt,
    pub invalidated: Vec<RecordRevision>,
}

/// What a [`CorrectionReceipt`] holds.
#[verifier::ext_equal]
pub struct CorrectionReceiptModel {
    pub evidence: EvidenceReceipt,
    pub superseded: RecordRevision,
    pub replacement: ClaimReceipt,
    pub supersedes_relation: RelationReceipt,
    pub invalidated: Seq<RecordRevision>,
}

impl View for CorrectionReceipt {
    type V = CorrectionReceiptModel;

    open spec fn view(&self) -> CorrectionReceiptModel {
        CorrectionReceiptModel {
            evidence: self.evidence,
            superseded: self.superseded,
            replacement: self.replacement,
            supersedes_relation: self.supersedes_relation,
            invalidated: self.invalidated@,
        }
    }
}

impl Replica for CorrectionReceipt {
    fn replica(&self) -> (r: Self) {
        CorrectionReceipt {
            evidence: self.evidence,
            superseded: self.superseded,
            replacement: self.replacement,
            supersedes_relation: self.supersedes_relation,
            invalidated: copies(&self.invalidated),
        }
    }
}

impl Clone for CorrectionReceipt {
    fn clone(&self) -> (r: Self)
        ensures
            r@ == self@,
    {
        self.replica()
    }
}

#[derive(Clone, Copy, Debug, PartialEq, Eq, Structural)]
pub enum EntityKind {
    Person,
    Organization,
    Place,
    Work,
    Concept,
    Artifact,
    Event,
    Other,
}

impl View for EntityKind {
    type V = EntityKind;

    open spec fn view(&self) -> EntityKind {
        *self
    }
}

#[derive(Debug, PartialEq, Eq)]
pub struct EntityRevisionHeader {
    pub id: EntityId,
    pub revision: u64,
    pub previous_revision: Option<u64>,
    pub kind: EntityKind,
    pub scope: Scope,
    pub temporal: TemporalFacts,
    pub evidence_ids: Vec<EvidenceId>,
    pub state: RecordState,
    pub recorded_at_ms: i64,
    pub operation_id: OperationId,
}

/// What a [`EntityRevisionHeader`] holds.
#[verifier::ext_equal]
pub struct EntityRevisionHeaderModel {
    pub id: EntityId,
    pub revision: u64,
    pub previous_revision: Option<u64>,
    pub kind: EntityKind,
    pub scope: Scope,
    pub temporal: TemporalFacts,
    pub evidence_ids: Seq<EvidenceId>,
    pub state: RecordState,
    pub recorded_at_ms: i64,
    pub operation_id: OperationId,
}

impl View for EntityRevisionHeader {
    type V = EntityRevisionHeaderModel;

    open spec fn view(&self) -> EntityRevisionHeaderModel {
        EntityRevisionHeaderModel {
            id: self.id,
            revision: self.revision,
            previous_revision: self.previous_revision,
            kind: self.kind,
            scope: self.scope,
            temporal: self.temporal,
            evidence_ids: self.evidence_ids@,
            state: self.state,
            recorded_at_ms: self.recorded_at_ms,
            operation_id: self.operation_id,
        }
    }
}

impl Replica for EntityRevisionHeader {
    fn replica(&self) -> (r: Self) {
        EntityRevisionHeader {
            id: self.id,
            revision: self.revision,
            previous_revision: self.previous_revision,
            kind: self.kind,
            scope: self.scope,
            temporal: self.temporal,
            evidence_ids: copies(&self.evidence_ids),
            state: self.state,
            recorded_at_ms: self.recorded_at_ms,
            operation_id: self.operation_id,
        }
    }
}

impl Clone for EntityRevisionHeader {
    fn clone(&self) -> (r: Self)
        ensures
            r@ == self@,
    {
        self.replica()
    }
}

#[derive(Debug, PartialEq, Eq)]
pub struct EntityPayload {
    pub canonical_name: String,
    pub aliases: Vec<String>,
}

/// What a [`EntityPayload`] holds.
#[verifier::ext_equal]
pub struct EntityPayloadModel {
    pub canonical_name: Seq<char>,
    pub aliases: Seq<Seq<char>>,
}

impl View for EntityPayload {
    type V = EntityPayloadModel;

    open spec fn view(&self) -> EntityPayloadModel {
        EntityPayloadModel {
            canonical_name: self.canonical_name@,
            aliases: views(self.aliases@),
        }
    }
}

impl Replica for EntityPayload {
    fn replica(&self) -> (r: Self) {
        EntityPayload {
            canonical_name: self.canonical_name.clone(),
            aliases: replicas(&self.aliases),
        }
    }
}

impl Clone for EntityPayload {
    fn clone(&self) -> (r: Self)
        ensures
            r@ == self@,
    {
        self.replica()
    }
}

#[derive(Debug, PartialEq, Eq)]
pub struct EntityRecord {
    pub header: EntityRevisionHeader,
    pub canonical_name: Option<String>,
    pub aliases: Vec<String>,
}

/// What a [`EntityRecord`] holds.
#[verifier::ext_equal]
pub struct EntityRecordModel {
    pub header: EntityRevisionHeaderModel,
    pub canonical_name: Option<Seq<char>>,
    pub aliases: Seq<Seq<char>>,
}

impl View for EntityRecord {
    type V = EntityRecordModel;

    open spec fn view(&self) -> EntityRecordModel {
        EntityRecordModel {
            header: self.header@,
            canonical_name: opt_view(self.canonical_name),
            aliases: views(self.aliases@),
        }
    }
}

impl Replica for EntityRecord {
    fn replica(&self) -> (r: Self) {
        EntityRecord {
            header: self.header.replica(),
            canonical_name: opt_replica(&self.canonical_name),
            aliases: replicas(&self.aliases),
        }
    }
}

impl Clone for EntityRecord {
    fn clone(&self) -> (r: Self)
        ensures
            r@ == self@,
    {
        self.replica()
    }
}

#[derive(Clone, Copy, Debug, PartialEq, Eq, Structural)]
pub struct EntityReceipt {
    pub id: EntityId,
    pub revision: u64,
    pub state: RecordState,
}

impl View for EntityReceipt {
    type V = EntityReceipt;

    open spec fn view(&self) -> EntityReceipt {
        *self
    }
}

#[derive(Clone, Copy, Debug, PartialEq, Eq, Structural)]
pub enum RelationKind {
    Supports,
    Contradicts,
    Supersedes,
    About,
    RefersTo,
    DerivedFrom,
    CanonicalizesTo,
}

impl View for RelationKind {
    type V = RelationKind;

    open spec fn view(&self) -> RelationKind {
        *self
    }
}

#[derive(Debug, PartialEq, Eq)]
pub struct NewSemanticRelation {
    pub from: RecordRef,
    pub to: RecordRef,
    pub kind: RelationKind,
    pub scope: Scope,
    pub evidence_ids: Vec<EvidenceId>,
    pub qualifier: Option<String>,
}

/// What a [`NewSemanticRelation`] holds.
#[verifier::ext_equal]
pub struct NewSemanticRelationModel {
    pub from: RecordRef,
    pub to: RecordRef,
    pub kind: RelationKind,
    pub scope: Scope,
    pub evidence_ids: Seq<EvidenceId>,
    pub qualifier: Option<Seq<char>>,
}

impl View for NewSemanticRelation {
    type V = NewSemanticRelationModel;

    open spec fn view(&self) -> NewSemanticRelationModel {
        NewSemanticRelationModel {
            from: self.from,
            to: self.to,
            kind: self.kind,
            scope: self.scope,
            evidence_ids: self.evidence_ids@,
            qualifier: opt_view(self.qualifier),
        }
    }
}

impl Replica for NewSemanticRelation {
    fn replica(&self) -> (r: Self) {
        NewSemanticRelation {
            from: self.from,
            to: self.to,
            kind: self.kind,
            scope: self.scope,
            evidence_ids: copies(&self.evidence_ids),
            qualifier: opt_replica(&self.qualifier),
        }
    }
}

impl Clone for NewSemanticRelation {
    fn clone(&self) -> (r: Self)
        ensures
            r@ == self@,
    {
        self.replica()
    }
}

#[derive(Debug, PartialEq, Eq)]
pub struct SemanticRelationRevisionHeader {
    pub id: RelationId,
    pub revision: u64,
    pub previous_revision: Option<u64>,
    /// These three identity fields never change for a `RelationId`.
    pub from: RecordRef,
    pub to: RecordRef,
    pub kind: RelationKind,
    pub scope: Scope,
    pub evidence_ids: Vec<EvidenceId>,
    pub state: RecordState,
    pub recorded_at_ms: i64,
    pub operation_id: OperationId,
}

/// What a [`SemanticRelationRevisionHeader`] holds.
#[verifier::ext_equal]
pub struct SemanticRelationRevisionHeaderModel {
    pub id: RelationId,
    pub revision: u64,
    pub previous_revision: Option<u64>,
    pub from: RecordRef,
    pub to: RecordRef,
    pub kind: RelationKind,
    pub scope: Scope,
    pub evidence_ids: Seq<EvidenceId>,
    pub state: RecordState,
    pub recorded_at_ms: i64,
    pub operation_id: OperationId,
}

impl View for SemanticRelationRevisionHeader {
    type V = SemanticRelationRevisionHeaderModel;

    open spec fn view(&self) -> SemanticRelationRevisionHeaderModel {
        SemanticRelationRevisionHeaderModel {
            id: self.id,
            revision: self.revision,
            previous_revision: self.previous_revision,
            from: self.from,
            to: self.to,
            kind: self.kind,
            scope: self.scope,
            evidence_ids: self.evidence_ids@,
            state: self.state,
            recorded_at_ms: self.recorded_at_ms,
            operation_id: self.operation_id,
        }
    }
}

impl Replica for SemanticRelationRevisionHeader {
    fn replica(&self) -> (r: Self) {
        SemanticRelationRevisionHeader {
            id: self.id,
            revision: self.revision,
            previous_revision: self.previous_revision,
            from: self.from,
            to: self.to,
            kind: self.kind,
            scope: self.scope,
            evidence_ids: copies(&self.evidence_ids),
            state: self.state,
            recorded_at_ms: self.recorded_at_ms,
            operation_id: self.operation_id,
        }
    }
}

impl Clone for SemanticRelationRevisionHeader {
    fn clone(&self) -> (r: Self)
        ensures
            r@ == self@,
    {
        self.replica()
    }
}

#[derive(Debug, PartialEq, Eq)]
pub struct SemanticRelationRecord {
    pub header: SemanticRelationRevisionHeader,
    pub qualifier: Option<String>,
    pub payload_available: bool,
}

/// What a [`SemanticRelationRecord`] holds.
#[verifier::ext_equal]
pub struct SemanticRelationRecordModel {
    pub header: SemanticRelationRevisionHeaderModel,
    pub qualifier: Option<Seq<char>>,
    pub payload_available: bool,
}

impl View for SemanticRelationRecord {
    type V = SemanticRelationRecordModel;

    open spec fn view(&self) -> SemanticRelationRecordModel {
        SemanticRelationRecordModel {
            header: self.header@,
            qualifier: opt_view(self.qualifier),
            payload_available: self.payload_available,
        }
    }
}

impl Replica for SemanticRelationRecord {
    fn replica(&self) -> (r: Self) {
        SemanticRelationRecord {
            header: self.header.replica(),
            qualifier: opt_replica(&self.qualifier),
            payload_available: self.payload_available,
        }
    }
}

impl Clone for SemanticRelationRecord {
    fn clone(&self) -> (r: Self)
        ensures
            r@ == self@,
    {
        self.replica()
    }
}

#[derive(Debug, PartialEq, Eq)]
pub enum InspectedRecord {
    Evidence(EvidenceRecord),
    Claim(ClaimRecord),
    Entity(EntityRecord),
    SemanticRelation(SemanticRelationRecord),
    Proposal(ProposalRecord),
    ProposalReview(ProposalReviewCase),
    ArtifactCollection(ArtifactCollectionRecord),
    ArtifactSnapshot(ArtifactSnapshotRecord),
    ArtifactPassage(ArtifactPassageRecord),
}

/// What a [`InspectedRecord`] holds.
#[verifier::ext_equal]
pub enum InspectedRecordModel {
    Evidence(EvidenceRecordModel),
    Claim(ClaimRecordModel),
    Entity(EntityRecordModel),
    SemanticRelation(SemanticRelationRecordModel),
    Proposal(ProposalRecordModel),
    ProposalReview(ProposalReviewCaseModel),
    ArtifactCollection(ArtifactCollectionRecordModel),
    ArtifactSnapshot(ArtifactSnapshotRecordModel),
    ArtifactPassage(ArtifactPassageRecordModel),
}

impl View for InspectedRecord {
    type V = InspectedRecordModel;

    open spec fn view(&self) -> InspectedRecordModel {
        match *self {
            InspectedRecord::Evidence(inner) => InspectedRecordModel::Evidence(inner@),
            InspectedRecord::Claim(inner) => InspectedRecordModel::Claim(inner@),
            InspectedRecord::Entity(inner) => InspectedRecordModel::Entity(inner@),
            InspectedRecord::SemanticRelation(inner) => InspectedRecordModel::SemanticRelation(inner@),
            InspectedRecord::Proposal(inner) => InspectedRecordModel::Proposal(inner@),
            InspectedRecord::ProposalReview(inner) => InspectedRecordModel::ProposalReview(inner@),
            InspectedRecord::ArtifactCollection(inner) => InspectedRecordModel::ArtifactCollection(inner@),
            InspectedRecord::ArtifactSnapshot(inner) => InspectedRecordModel::ArtifactSnapshot(inner@),
            InspectedRecord::ArtifactPassage(inner) => InspectedRecordModel::ArtifactPassage(inner@),
        }
    }
}

impl Replica for InspectedRecord {
    fn replica(&self) -> (r: Self) {
        match self {
            InspectedRecord::Evidence(inner) => InspectedRecord::Evidence(inner.replica()),
            InspectedRecord::Claim(inner) => InspectedRecord::Claim(inner.replica()),
            InspectedRecord::Entity(inner) => InspectedRecord::Entity(inner.replica()),
            InspectedRecord::SemanticRelation(inner) => InspectedRecord::SemanticRelation(inner.replica()),
            InspectedRecord::Proposal(inner) => InspectedRecord::Proposal(inner.replica()),
            InspectedRecord::ProposalReview(inner) => InspectedRecord::ProposalReview(inner.replica()),
            InspectedRecord::ArtifactCollection(inner) => InspectedRecord::ArtifactCollection(inner.replica()),
            InspectedRecord::ArtifactSnapshot(inner) => InspectedRecord::ArtifactSnapshot(inner.replica()),
            InspectedRecord::ArtifactPassage(inner) => InspectedRecord::ArtifactPassage(inner.replica()),
        }
    }
}

impl Clone for InspectedRecord {
    fn clone(&self) -> (r: Self)
        ensures
            r@ == self@,
    {
        self.replica()
    }
}

#[derive(Clone, Copy, Debug, PartialEq, Eq, Structural)]
pub struct RelationReceipt {
    pub id: RelationId,
    pub revision: u64,
    pub state: RecordState,
}

impl View for RelationReceipt {
    type V = RelationReceipt;

    open spec fn view(&self) -> RelationReceipt {
        *self
    }
}

} // verus!
