//! Why an operation is refused.
use vstd::prelude::*;
use crate::ids::{
    ArtifactSnapshotId, EvidenceId, OperationId, ProposalId, ProposalSourceJobId,
    RelationEvaluatorId, RelationProfileId, RelationSignalId,
};
use crate::records::claim::RelationKind;
use crate::records::evidence::{ClaimDomain, EvidenceClass, RecordRef};

verus! {

/// The text that a fault is about.
#[derive(Clone, Copy, Debug, PartialEq, Eq, Structural)]
pub enum TextField {
    EvidenceText,
    ClaimProposition,
    ReplacementProposition,
    RelationQualifier,
    ArtifactLabel,
    ArtifactMediaType,
    ArtifactPassageText,
    EntityCanonicalName,
    EntityAlias,
}

/// What is wrong with a request.
#[derive(Clone, Copy, Debug, PartialEq, Eq, Structural)]
pub enum InputFault {
    EmptyText(TextField),
    TextTooLong(TextField, usize),
    PassageOrdinalTaken(ArtifactSnapshotId, u32),
    SourceJobReused(ProposalSourceJobId),
    SignalPairOwned(RelationSignalId, RelationSignalId),
    EndpointMismatch(RelationKind),
    ValidTimeInterval,
    FingerprintDomain,
    FingerprintInput,
    SourceEventId,
    SnapshotBytes,
    PassageBeyondSnapshot,
    InactiveRetraction,
    AssertionDomain,
    InactiveCorrection,
    CorrectionDomain,
    ClaimWithoutEvidence,
    ClaimSources,
    RelationEndpointsEqual,
    RelationOnRelation,
    RelationEndpointUnsupported,
    RelationWithoutEvidence,
    RelationSources,
    RelationEndpointInactive,
    SupersedesKinds,
    EvaluatorSchemaVersion,
    EvaluatorDimensionCount,
    EvaluatorDimensionsRepeat,
    EvaluatorNotRevisable,
    EvaluatorTerminal,
    EvaluatorMissing,
    EvaluatorInactive,
    ProfileHeadCount,
    ProfileHeadsRepeat,
    ProfileWeightRange,
    ProfileHeadUndeclared,
    ProfileNotRevisable,
    ProfileTerminal,
    ProfileMissing,
    SignalBatchSize,
    SignalEndpointsEqual,
    SignalPairsRepeat,
    SignalScoreCount,
    SignalDimensionsRepeat,
    SignalScoreRange,
    SignalPinsStale,
    SignalDimensionDisabled,
    SignalPurged,
    ActivationCandidateCount,
    ActivationCandidatesRepeat,
    RecallCaseMissing,
    ActivationCandidateUnpinned,
    TracePayloadGone,
    ActivationEvaluatorStale,
    ActivationPinsStale,
    ActivationSumOverflow,
    ActivationTotalOverflow,
    RecallWithoutScope,
    RecallScopeCount,
    ObservedTimeInterval,
    RecallQueryBytes,
    RecallWithoutCue,
    ReviewNotPending,
    FindingChangeIndex,
    ApproveWithFindings,
    FindingPinUnknown,
    ProposalPayloadGone,
    WorkflowRecordGone,
    ReviewPinsOther,
    AcceptanceNotPermitted,
    PinnedRecallCaseGone,
    FindingPayloadGone,
    ReplacementUnresolved,
    FeedbackWithCandidate,
    FeedbackWithoutCandidate,
    FeedbackCandidateUnpinned,
    AlreadyPurged,
    PurgePayloadCount,
    PinnedRecordInactive,
    ArtifactParentInactive,
    EndpointKinds,
    DraftEndpointKinds,
    DraftUnresolved,
    ProposedEvidenceUnpinned,
    ProposedWithoutEvidence,
    ProposedSources,
    ProposedEvidencePin,
    ProposalWithoutEvidence,
    ProposalSources,
    ProposalChangeCount,
    EntityAliasCount,
    ProposalAliasCount,
    ProposedEndpointsEqual,
    MutationTargetRepeats,
    DraftIdsRepeat,
    WorkflowTarget,
    ReplacementKind,
    MutatesOwnSource,
    MutatesEndpoint,
    DependencyEdgeCount,
    ProposalEncodedBytes,
    ReviewFindingCount,
    FindingPinCount,
    PassageBatchSize,
    PassageBatchBytes,
    PassageOrdinals,
    PassageTerms,
    ByteRange,
    PageRange,
    TimeRange,
    ArtifactEvidenceClass,
    CaptureLifecycle,
}

/// An index that leads to signals.
#[derive(Clone, Copy, Debug, PartialEq, Eq, Structural)]
pub enum SignalIndex {
    Pair,
    Dependency,
    Owner,
}

/// What is wrong with the stored records.
/// What is wrong with a text that should name an identifier.
#[derive(Clone, Copy, Debug, PartialEq, Eq, Structural)]
pub enum UlidFault {
    Length,
    Letter,
}

/// What a stored key is for.
#[derive(Clone, Copy, Debug, PartialEq, Eq, Structural)]
pub enum KeyUse {
    Revision,
    Ordinal,
    Pair,
    SignalRecord,
    SignalOwner,
    TraceRecord,
    TraceOwner,
    Dependency,
    Posting,
    Time,
}

#[derive(Clone, Copy, Debug, PartialEq, Eq, Structural)]
pub enum CorruptFault {
    RevisionMissing(RecordRef, u64),
    HeadMissing(RecordRef),
    SnapshotBlobMissing(ArtifactSnapshotId),
    SnapshotBlobMismatch(ArtifactSnapshotId),
    SignalMissing(SignalIndex, RelationSignalId),
    SignalHeadMissing(RelationSignalId),
    SignalRevisionMissing(RelationSignalId, u64),
    EvaluatorRevisionMissing(RelationEvaluatorId, u64),
    ProfileRevisionMissing(RelationProfileId, u64),
    PendingMissing(ProposalId),
    PendingNotPending(ProposalId),
    AwaitingMissing(ProposalId),
    AwaitingNotActionable(ProposalId),
    RevisionOverflow,
    ProposalRevisionOverflow,
    SignalRevisionOverflow,
    ProfileRevisionOverflow,
    EvaluatorRevisionOverflow,
    PreviewTimeOverflow,
    IntegerWidth,
    IdKey,
    RecordKey,
    RecordKeyTag,
    IndexKey(KeyUse),
    EraNotUlid(UlidFault),
    MetadataMissing,
    SourceIndexDangling,
    SignalPairIndex,
    ReceiptShape,
}

/// Why an operation is refused.
#[derive(Clone, Debug, PartialEq, Eq)]
pub enum MemoryError {
    Corrupt(CorruptFault),
    StoreEraMismatch { outer: String, internal: String },
    NotFound(RecordRef),
    OperationConflict(OperationId),
    RevisionConflict { expected: u64, actual: u64 },
    InadmissibleSource { evidence_id: EvidenceId, class: EvidenceClass, domain: ClaimDomain },
    SourceUnavailable(EvidenceId),
    ScopeMismatch,
    Unauthorized,
    InvalidInput(InputFault),
    StalePurgePreview,
    PurgePreviewNotYetValid { issued_at_ms: i64, now_ms: i64 },
    PurgePreviewExpired { expires_at_ms: i64, now_ms: i64 },
}

pub type MemoryResult<T> = Result<T, MemoryError>;

/// The refusal of a malformed request.
pub open spec fn invalid<T>(fault: InputFault) -> Result<T, MemoryError> {
    Err(MemoryError::InvalidInput(fault))
}

/// The refusal to go on over malformed records.
pub open spec fn corrupt<T>(fault: CorruptFault) -> Result<T, MemoryError> {
    Err(MemoryError::Corrupt(fault))
}

impl TextField {
    pub fn name(self) -> (r: &'static str)
        ensures
            r@ == self.name_text(),
    {
        match self {
            TextField::EvidenceText => "evidence text",
            TextField::ClaimProposition => "claim proposition",
            TextField::ReplacementProposition => "replacement proposition",
            TextField::RelationQualifier => "relation qualifier",
            TextField::ArtifactLabel => "artifact label",
            TextField::ArtifactMediaType => "artifact media type",
            TextField::ArtifactPassageText => "artifact passage text",
            TextField::EntityCanonicalName => "entity canonical name",
            TextField::EntityAlias => "entity alias",
        }
    }

    /// The words for a field.
    pub open spec fn name_text(self) -> Seq<char> {
        match self {
            TextField::EvidenceText => "evidence text"@,
            TextField::ClaimProposition => "claim proposition"@,
            TextField::ReplacementProposition => "replacement proposition"@,
            TextField::RelationQualifier => "relation qualifier"@,
            TextField::ArtifactLabel => "artifact label"@,
            TextField::ArtifactMediaType => "artifact media type"@,
            TextField::ArtifactPassageText => "artifact passage text"@,
            TextField::EntityCanonicalName => "entity canonical name"@,
            TextField::EntityAlias => "entity alias"@,
        }
    }
}

} // verus!
