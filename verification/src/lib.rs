//! Native memory records: what they are, how they are ordered, and how they change.

pub mod activation;
pub mod adjudication;
pub mod answering;
pub mod applying;
pub mod artifacts;
pub mod asking;
pub mod books;
pub mod breadth;
pub mod bringing;
pub mod bundles;
pub mod bundling;
pub mod bytes;
pub mod candidates;
pub mod changes;
pub mod citations;
pub mod claims;
pub mod clock;
pub mod closure;
pub mod contending;
pub mod context;
pub mod damage;
pub mod deciding;
pub mod defining;
pub mod definitions;
pub mod derived;
pub mod digest;
pub mod embedding;
pub mod enacting;
pub mod enduring;
pub mod evidence;
pub mod fault;
pub mod feedback;
pub mod finding;
pub mod finite;
pub mod grounds;
pub mod history;
pub mod ids;
pub mod inspect;
pub mod inspecting;
pub mod keeping;
pub mod keybytes;
pub mod keys;
pub mod lawyer;
pub mod matching;
pub mod message;
pub mod metadata;
pub mod naming;
pub mod normal;
pub mod order;
pub mod ordering;
pub mod permitting;
pub mod placing;
pub mod pleading;
pub mod proceeding;
pub mod profiles;
pub mod projecting;
pub mod proposals;
pub mod purge;
pub mod readback;
pub mod recall;
pub mod recording;
pub mod records;
pub mod relations;
pub mod resting;
pub mod resuming;
pub mod reviews;
pub mod rules;
pub mod ruling;
pub mod seal;
pub mod searching;
pub mod showing;
pub mod signals;
pub mod slices;
pub mod snapshot;
pub mod staging;
pub mod standings;
pub mod store;
pub mod submitting;
pub mod table;
pub mod telling;
pub mod testifying;
pub mod text;
pub mod trails;
pub mod ways;
pub mod weighing;
pub mod withdrawing;
pub mod wording;
pub mod wordlist;
pub mod workflow;
pub mod writing;

pub use activation::MAX_ACTIVATION_CANDIDATES;
pub use artifacts::{
    MAX_ARTIFACT_LABEL_BYTES, MAX_ARTIFACT_MEDIA_TYPE_BYTES, MAX_ARTIFACT_PASSAGE_BATCH,
    MAX_ARTIFACT_PASSAGE_BATCH_BYTES, MAX_ARTIFACT_SNAPSHOT_BYTES,
};
pub use asking::{RecallFault, RecallRequest};
pub use bundles::{
    MAX_ENTITY_ALIASES, MAX_PROPOSAL_ALIASES, MAX_PROPOSAL_CHANGES, MAX_PROPOSAL_DEPENDENCY_EDGES,
    MAX_PROPOSAL_ENCODED_BYTES,
};
pub use changes::ChangeFault;
pub use clock::Fresh;
pub use context::{OperationContext, TemporalFacts};
pub use definitions::{MAX_RELATION_DIMENSIONS, MAX_RELATION_HEADS, RELATION_FIXED_POINT_SCALE};
pub use digest::PURGE_DOMAIN;
pub use evidence::{MAX_OPERATIONAL_FINGERPRINT_DOMAIN_BYTES, MAX_OPERATIONAL_FINGERPRINT_INPUT_BYTES};
pub use fault::{CorruptFault, InputFault, KeyUse, MemoryError, MemoryResult, SignalIndex, UlidFault};
pub use ids::{
    ActivationTraceId, ArtifactCollectionId, ArtifactPassageId, ArtifactSnapshotId, AuditEventId, ClaimId,
    EntityId, EraId, EvidenceId, OperationId, ProposalDraftId, ProposalId, ProposalReviewCaseId,
    ProposalSourceJobId, RecallCaseId, RecallFeedbackId, RelationEvaluatorId, RelationId,
    RelationProfileId, RelationSignalId, Ulid,
};
pub use lawyer::{MAX_LAWYER_BYTES, MAX_LAWYER_CANDIDATES, VerdictFault};
pub use metadata::{MEMORY_STORE_FORMAT_ID, NativeMetadata, settle_metadata, store_era};
pub use profiles::{MAX_TURN_THRESHOLD, ProfileFault};
pub use proposals::MAX_OPERATOR_LIST_LIMIT;
pub use purge::PURGE_PREVIEW_TTL_MS;
pub use recall::{
    MAX_RECALL_CANDIDATES, MAX_RECALL_LIMIT, MAX_RECALL_QUERY_BYTES, MAX_RECALL_SCOPES, MAX_RECALL_TERMS,
};
pub use records::artifact::{
    ArtifactAvailabilityRevision, ArtifactCollectionHeader, ArtifactCollectionReceipt,
    ArtifactCollectionRecord, ArtifactEvidenceProvenance, ArtifactLocator, ArtifactPassageBatchReceipt,
    ArtifactPassageHeader, ArtifactPassageReceipt, ArtifactPassageRecord, ArtifactRange,
    ArtifactSnapshotBlob, ArtifactSnapshotHeader, ArtifactSnapshotReceipt, ArtifactSnapshotRecord,
    NewArtifactCollection, NewArtifactPassage, NewArtifactPassageBatch, NewArtifactSnapshot,
};
pub use records::audit::{
    AdjudicationAudit, AuditAction, AuditEvent, AuditOutcome, DerivedRecordRef, PurgeDependency,
    PurgePreview, PurgeReceipt, RecordRevision, RelationSignalPurgeDependency, RetractionReceipt,
};
pub use records::claim::{
    ClaimReceipt, ClaimRecord, ClaimRevisionHeader, CorrectUserClaim, CorrectionReceipt, EntityKind,
    EntityReceipt, EntityRecord, EntityRevisionHeader, InspectedRecord, NewClaim, NewSemanticRelation,
    RelationKind, RelationReceipt, RememberReceipt, RememberUserClaim, SemanticRelationRecord,
    SemanticRelationRevisionHeader,
};
pub use records::evidence::{
    Actor, ClaimDomain, EvidenceAvailabilityRevision, EvidenceClass, EvidenceHeader, EvidenceLifecycle,
    EvidenceLifecycleTruth, EvidenceReceipt, EvidenceRecord, NewEvidence, RecordRef, RecordState,
    RevisionSelector, Scope, TerminalTurnStatus,
};
pub use records::graph::{
    EdgeFacts, GraphPath, GraphSlice, MetadataEntry, NodeFacts, RecallEvidence, RecallFilter,
    RecallStatus, VectorEvidence,
};
pub use records::profile::{
    AgentRole, DreamProfile, EmbeddingDistance, EmbeddingProfile, LawyerFailureMode, LawyerProfile,
    MemoryProfile, ProjectionState, ProjectionStatus, SupportedContent,
};
pub use records::proposal::{
    AdjudicationAuthority, AppliedRecord, DraftMapping, NewProposalBundle, NewProposalReview,
    NewRecallFeedback, ProposalAdjudication, ProposalAdjudicationReceipt, ProposalChange,
    ProposalDecision, ProposalEndpoint, ProposalReceipt, ProposalRecord, ProposalReviewCase,
    ProposalReviewCaseHeader, ProposalReviewFinding, ProposalReviewReceipt, ProposalReviewVerdict,
    ProposalRevisionHeader, ProposalStatus, RecallFeedback, RecallFeedbackKind, ReviewFindingCode,
};
pub use records::recall::{
    BeginTurnRecallResult, EvidenceRevisionPin, RecallCase, RecallCaseCandidate, RecallCitation,
    RecallEvidenceCitation, RecallQuery, RecallResult, RecordRevisionPin,
};
pub use records::relation::{
    ActivationCandidateTrace, ActivationContribution, ActivationTrace, DerivedDefinitionStateChange,
    NewRelationEvaluatorRevision, NewRelationProfileRevision, NewRelationSignal, NewRelationSignalBatch,
    RecallCasePin, RelationDimension, RelationDimensionScore, RelationEvaluatorKind, RelationEvaluatorPin,
    RelationEvaluatorReceipt, RelationEvaluatorRecord, RelationEvaluatorRevisionHeader,
    RelationEvaluatorStateReceipt, RelationHeadWeight, RelationProfileAvailability, RelationProfilePin,
    RelationProfileReceipt, RelationProfileRecord, RelationProfileRevisionHeader,
    RelationProfileStateReceipt, RelationSignalAvailability, RelationSignalBatchReceipt,
    RelationSignalPin, RelationSignalReceipt, RelationSignalRecord, RelationSignalRevisionHeader,
    RelationSignalStaleReason, RelationSignalUnavailableReason, ShadowActivationRequest,
};
pub use records::verdict::{
    AdjudicatedRecall, CausalAnnotation, ChangeProposal, ChangeProposalStatus, LawyerVerdict,
    ProposedChange,
};
pub use reviews::{MAX_REVIEW_FINDINGS, MAX_REVIEW_PINS_PER_FINDING};
pub use rules::{MAX_EVIDENCE_SOURCES, MAX_EVIDENCE_TEXT_BYTES, MAX_SOURCE_EVENT_ID_BYTES, MAX_TEXT_BYTES};
pub use ruling::{Ruling, conclude};
pub use searching::VectorFilter;
pub use signals::MAX_RELATION_SIGNAL_BATCH;
pub use snapshot::Snapshot;
pub use staging::{MAX_INDEX_TERMS_PER_RECORD, Planned};
pub use store::{Batch, MemoryDatabase, Write};
pub use text::MAX_TERM_LETTERS;
