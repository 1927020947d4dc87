//! Relation evaluators, profiles, signals and shadow activation.
use vstd::prelude::*;
use crate::ids::{
    ActivationTraceId, EraId, OperationId, RecallCaseId, RelationEvaluatorId, RelationProfileId,
    RelationSignalId,
};
use crate::records::evidence::RecordState;
use crate::records::recall::RecordRevisionPin;
use crate::table::{Replica, copies, opt_copies, opt_view, replicas, views};

verus! {

#[derive(Clone, Copy, Debug, PartialEq, Eq, Structural)]
pub struct RelationEvaluatorPin {
    pub id: RelationEvaluatorId,
    pub revision: u64,
}

impl View for RelationEvaluatorPin {
    type V = RelationEvaluatorPin;

    open spec fn view(&self) -> RelationEvaluatorPin {
        *self
    }
}

#[derive(Clone, Copy, Debug, PartialEq, Eq, Structural)]
pub enum RelationDimension {
    Support,
    Contradiction,
    Supersession,
    EntityIdentity,
    TemporalRelevance,
    TaskRelevance,
}

impl View for RelationDimension {
    type V = RelationDimension;

    open spec fn view(&self) -> RelationDimension {
        *self
    }
}

#[derive(Clone, Copy, Debug, PartialEq, Eq, Structural)]
pub enum RelationEvaluatorKind {
    DeterministicRules,
    ExternalProjection,
    OfflineLearnedProjection,
}

impl View for RelationEvaluatorKind {
    type V = RelationEvaluatorKind;

    open spec fn view(&self) -> RelationEvaluatorKind {
        *self
    }
}

#[derive(Debug, PartialEq, Eq)]
pub struct NewRelationEvaluatorRevision {
    pub id: RelationEvaluatorId,
    /// `None` creates the ID; `Some` performs a compare-and-swap revision.
    pub expected_revision: Option<u64>,
    pub kind: RelationEvaluatorKind,
    pub schema_version: u32,
    pub dimensions: Vec<RelationDimension>,
    /// Opaque provenance for the exact evaluator artifact/ruleset. It is never
    /// interpreted, fetched, loaded, or executed by mmdb.
    pub provenance_digest: [u8; 32],
}

/// What a [`NewRelationEvaluatorRevision`] holds.
#[verifier::ext_equal]
pub struct NewRelationEvaluatorRevisionModel {
    pub id: RelationEvaluatorId,
    pub expected_revision: Option<u64>,
    pub kind: RelationEvaluatorKind,
    pub schema_version: u32,
    pub dimensions: Seq<RelationDimension>,
    pub provenance_digest: [u8; 32],
}

impl View for NewRelationEvaluatorRevision {
    type V = NewRelationEvaluatorRevisionModel;

    open spec fn view(&self) -> NewRelationEvaluatorRevisionModel {
        NewRelationEvaluatorRevisionModel {
            id: self.id,
            expected_revision: self.expected_revision,
            kind: self.kind,
            schema_version: self.schema_version,
            dimensions: self.dimensions@,
            provenance_digest: self.provenance_digest,
        }
    }
}

impl Replica for NewRelationEvaluatorRevision {
    fn replica(&self) -> (r: Self) {
        NewRelationEvaluatorRevision {
            id: self.id,
            expected_revision: self.expected_revision,
            kind: self.kind,
            schema_version: self.schema_version,
            dimensions: copies(&self.dimensions),
            provenance_digest: self.provenance_digest,
        }
    }
}

impl Clone for NewRelationEvaluatorRevision {
    fn clone(&self) -> (r: Self)
        ensures
            r@ == self@,
    {
        self.replica()
    }
}

#[derive(Debug, PartialEq, Eq)]
pub struct RelationEvaluatorRevisionHeader {
    pub id: RelationEvaluatorId,
    pub revision: u64,
    pub previous_revision: Option<u64>,
    pub kind: RelationEvaluatorKind,
    pub schema_version: u32,
    pub dimensions: Vec<RelationDimension>,
    pub provenance_digest: [u8; 32],
    pub state: RecordState,
    pub recorded_at_ms: i64,
    pub operation_id: OperationId,
}

/// What a [`RelationEvaluatorRevisionHeader`] holds.
#[verifier::ext_equal]
pub struct RelationEvaluatorRevisionHeaderModel {
    pub id: RelationEvaluatorId,
    pub revision: u64,
    pub previous_revision: Option<u64>,
    pub kind: RelationEvaluatorKind,
    pub schema_version: u32,
    pub dimensions: Seq<RelationDimension>,
    pub provenance_digest: [u8; 32],
    pub state: RecordState,
    pub recorded_at_ms: i64,
    pub operation_id: OperationId,
}

impl View for RelationEvaluatorRevisionHeader {
    type V = RelationEvaluatorRevisionHeaderModel;

    open spec fn view(&self) -> RelationEvaluatorRevisionHeaderModel {
        RelationEvaluatorRevisionHeaderModel {
            id: self.id,
            revision: self.revision,
            previous_revision: self.previous_revision,
            kind: self.kind,
            schema_version: self.schema_version,
            dimensions: self.dimensions@,
            provenance_digest: self.provenance_digest,
            state: self.state,
            recorded_at_ms: self.recorded_at_ms,
            operation_id: self.operation_id,
        }
    }
}

impl Replica for RelationEvaluatorRevisionHeader {
    fn replica(&self) -> (r: Self) {
        RelationEvaluatorRevisionHeader {
            id: self.id,
            revision: self.revision,
            previous_revision: self.previous_revision,
            kind: self.kind,
            schema_version: self.schema_version,
            dimensions: copies(&self.dimensions),
            provenance_digest: self.provenance_digest,
            state: self.state,
            recorded_at_ms: self.recorded_at_ms,
            operation_id: self.operation_id,
        }
    }
}

impl Clone for RelationEvaluatorRevisionHeader {
    fn clone(&self) -> (r: Self)
        ensures
            r@ == self@,
    {
        self.replica()
    }
}

#[derive(Debug, PartialEq, Eq)]
pub struct RelationEvaluatorRecord {
    pub header: RelationEvaluatorRevisionHeader,
}

/// What a [`RelationEvaluatorRecord`] holds.
#[verifier::ext_equal]
pub struct RelationEvaluatorRecordModel {
    pub header: RelationEvaluatorRevisionHeaderModel,
}

impl View for RelationEvaluatorRecord {
    type V = RelationEvaluatorRecordModel;

    open spec fn view(&self) -> RelationEvaluatorRecordModel {
        RelationEvaluatorRecordModel {
            header: self.header@,
        }
    }
}

impl Replica for RelationEvaluatorRecord {
    fn replica(&self) -> (r: Self) {
        RelationEvaluatorRecord {
            header: self.header.replica(),
        }
    }
}

impl Clone for RelationEvaluatorRecord {
    fn clone(&self) -> (r: Self)
        ensures
            r@ == self@,
    {
        self.replica()
    }
}

#[derive(Clone, Copy, Debug, PartialEq, Eq, Structural)]
pub struct RelationEvaluatorReceipt {
    pub pin: RelationEvaluatorPin,
    pub state: RecordState,
}

impl View for RelationEvaluatorReceipt {
    type V = RelationEvaluatorReceipt;

    open spec fn view(&self) -> RelationEvaluatorReceipt {
        *self
    }
}

#[derive(Clone, Copy, Debug, PartialEq, Eq, Structural)]
pub struct RelationProfilePin {
    pub id: RelationProfileId,
    pub revision: u64,
}

impl View for RelationProfilePin {
    type V = RelationProfilePin;

    open spec fn view(&self) -> RelationProfilePin {
        *self
    }
}

#[derive(Clone, Copy, Debug, PartialEq, Eq, Structural)]
pub struct RelationHeadWeight {
    pub dimension: RelationDimension,
    /// Signed fixed-point weight using [`RELATION_FIXED_POINT_SCALE`].
    pub weight_micros: i32,
}

impl View for RelationHeadWeight {
    type V = RelationHeadWeight;

    open spec fn view(&self) -> RelationHeadWeight {
        *self
    }
}

#[derive(Debug, PartialEq, Eq)]
pub struct NewRelationProfileRevision {
    pub id: RelationProfileId,
    pub expected_revision: Option<u64>,
    pub evaluator: RelationEvaluatorPin,
    pub heads: Vec<RelationHeadWeight>,
    pub provenance_digest: [u8; 32],
}

/// What a [`NewRelationProfileRevision`] holds.
#[verifier::ext_equal]
pub struct NewRelationProfileRevisionModel {
    pub id: RelationProfileId,
    pub expected_revision: Option<u64>,
    pub evaluator: RelationEvaluatorPin,
    pub heads: Seq<RelationHeadWeight>,
    pub provenance_digest: [u8; 32],
}

impl View for NewRelationProfileRevision {
    type V = NewRelationProfileRevisionModel;

    open spec fn view(&self) -> NewRelationProfileRevisionModel {
        NewRelationProfileRevisionModel {
            id: self.id,
            expected_revision: self.expected_revision,
            evaluator: self.evaluator,
            heads: self.heads@,
            provenance_digest: self.provenance_digest,
        }
    }
}

impl Replica for NewRelationProfileRevision {
    fn replica(&self) -> (r: Self) {
        NewRelationProfileRevision {
            id: self.id,
            expected_revision: self.expected_revision,
            evaluator: self.evaluator,
            heads: copies(&self.heads),
            provenance_digest: self.provenance_digest,
        }
    }
}

impl Clone for NewRelationProfileRevision {
    fn clone(&self) -> (r: Self)
        ensures
            r@ == self@,
    {
        self.replica()
    }
}

#[derive(Debug, PartialEq, Eq)]
pub struct RelationProfileRevisionHeader {
    pub id: RelationProfileId,
    pub revision: u64,
    pub previous_revision: Option<u64>,
    pub evaluator: RelationEvaluatorPin,
    pub heads: Vec<RelationHeadWeight>,
    pub provenance_digest: [u8; 32],
    pub state: RecordState,
    pub recorded_at_ms: i64,
    pub operation_id: OperationId,
}

/// What a [`RelationProfileRevisionHeader`] holds.
#[verifier::ext_equal]
pub struct RelationProfileRevisionHeaderModel {
    pub id: RelationProfileId,
    pub revision: u64,
    pub previous_revision: Option<u64>,
    pub evaluator: RelationEvaluatorPin,
    pub heads: Seq<RelationHeadWeight>,
    pub provenance_digest: [u8; 32],
    pub state: RecordState,
    pub recorded_at_ms: i64,
    pub operation_id: OperationId,
}

impl View for RelationProfileRevisionHeader {
    type V = RelationProfileRevisionHeaderModel;

    open spec fn view(&self) -> RelationProfileRevisionHeaderModel {
        RelationProfileRevisionHeaderModel {
            id: self.id,
            revision: self.revision,
            previous_revision: self.previous_revision,
            evaluator: self.evaluator,
            heads: self.heads@,
            provenance_digest: self.provenance_digest,
            state: self.state,
            recorded_at_ms: self.recorded_at_ms,
            operation_id: self.operation_id,
        }
    }
}

impl Replica for RelationProfileRevisionHeader {
    fn replica(&self) -> (r: Self) {
        RelationProfileRevisionHeader {
            id: self.id,
            revision: self.revision,
            previous_revision: self.previous_revision,
            evaluator: self.evaluator,
            heads: copies(&self.heads),
            provenance_digest: self.provenance_digest,
            state: self.state,
            recorded_at_ms: self.recorded_at_ms,
            operation_id: self.operation_id,
        }
    }
}

impl Clone for RelationProfileRevisionHeader {
    fn clone(&self) -> (r: Self)
        ensures
            r@ == self@,
    {
        self.replica()
    }
}

#[derive(Clone, Copy, Debug, PartialEq, Eq, Structural)]
pub enum RelationProfileAvailability {
    Available,
    StaleEvaluator,
    Inactive,
    UnavailableEvaluator,
}

impl View for RelationProfileAvailability {
    type V = RelationProfileAvailability;

    open spec fn view(&self) -> RelationProfileAvailability {
        *self
    }
}

#[derive(Debug, PartialEq, Eq)]
pub struct RelationProfileRecord {
    pub header: RelationProfileRevisionHeader,
    pub availability: RelationProfileAvailability,
}

/// What a [`RelationProfileRecord`] holds.
#[verifier::ext_equal]
pub struct RelationProfileRecordModel {
    pub header: RelationProfileRevisionHeaderModel,
    pub availability: RelationProfileAvailability,
}

impl View for RelationProfileRecord {
    type V = RelationProfileRecordModel;

    open spec fn view(&self) -> RelationProfileRecordModel {
        RelationProfileRecordModel {
            header: self.header@,
            availability: self.availability,
        }
    }
}

impl Replica for RelationProfileRecord {
    fn replica(&self) -> (r: Self) {
        RelationProfileRecord {
            header: self.header.replica(),
            availability: self.availability,
        }
    }
}

impl Clone for RelationProfileRecord {
    fn clone(&self) -> (r: Self)
        ensures
            r@ == self@,
    {
        self.replica()
    }
}

#[derive(Clone, Copy, Debug, PartialEq, Eq, Structural)]
pub struct RelationProfileReceipt {
    pub pin: RelationProfilePin,
    pub state: RecordState,
    pub availability: RelationProfileAvailability,
}

impl View for RelationProfileReceipt {
    type V = RelationProfileReceipt;

    open spec fn view(&self) -> RelationProfileReceipt {
        *self
    }
}

#[derive(Clone, Copy, Debug, PartialEq, Eq, Structural)]
pub struct RelationSignalPin {
    pub id: RelationSignalId,
    pub revision: u64,
}

impl View for RelationSignalPin {
    type V = RelationSignalPin;

    open spec fn view(&self) -> RelationSignalPin {
        *self
    }
}

#[derive(Clone, Copy, Debug, PartialEq, Eq, Structural)]
pub struct RelationDimensionScore {
    pub dimension: RelationDimension,
    /// Signed fixed-point score using [`RELATION_FIXED_POINT_SCALE`].
    pub score_micros: i32,
}

impl View for RelationDimensionScore {
    type V = RelationDimensionScore;

    open spec fn view(&self) -> RelationDimensionScore {
        *self
    }
}

#[derive(Debug, PartialEq, Eq)]
pub struct NewRelationSignal {
    pub from: RecordRevisionPin,
    pub to: RecordRevisionPin,
    pub expected_signal: Option<RelationSignalPin>,
    pub scores: Vec<RelationDimensionScore>,
    /// Opaque producer/run provenance. It is erased with the score payload.
    pub provenance_digest: [u8; 32],
}

/// What a [`NewRelationSignal`] holds.
#[verifier::ext_equal]
pub struct NewRelationSignalModel {
    pub from: RecordRevisionPin,
    pub to: RecordRevisionPin,
    pub expected_signal: Option<RelationSignalPin>,
    pub scores: Seq<RelationDimensionScore>,
    pub provenance_digest: [u8; 32],
}

impl View for NewRelationSignal {
    type V = NewRelationSignalModel;

    open spec fn view(&self) -> NewRelationSignalModel {
        NewRelationSignalModel {
            from: self.from,
            to: self.to,
            expected_signal: self.expected_signal,
            scores: self.scores@,
            provenance_digest: self.provenance_digest,
        }
    }
}

impl Replica for NewRelationSignal {
    fn replica(&self) -> (r: Self) {
        NewRelationSignal {
            from: self.from,
            to: self.to,
            expected_signal: self.expected_signal,
            scores: copies(&self.scores),
            provenance_digest: self.provenance_digest,
        }
    }
}

impl Clone for NewRelationSignal {
    fn clone(&self) -> (r: Self)
        ensures
            r@ == self@,
    {
        self.replica()
    }
}

#[derive(Debug, PartialEq, Eq)]
pub struct NewRelationSignalBatch {
    pub evaluator: RelationEvaluatorPin,
    pub profile: RelationProfilePin,
    pub signals: Vec<NewRelationSignal>,
}

/// What a [`NewRelationSignalBatch`] holds.
#[verifier::ext_equal]
pub struct NewRelationSignalBatchModel {
    pub evaluator: RelationEvaluatorPin,
    pub profile: RelationProfilePin,
    pub signals: Seq<NewRelationSignalModel>,
}

impl View for NewRelationSignalBatch {
    type V = NewRelationSignalBatchModel;

    open spec fn view(&self) -> NewRelationSignalBatchModel {
        NewRelationSignalBatchModel {
            evaluator: self.evaluator,
            profile: self.profile,
            signals: views(self.signals@),
        }
    }
}

impl Replica for NewRelationSignalBatch {
    fn replica(&self) -> (r: Self) {
        NewRelationSignalBatch {
            evaluator: self.evaluator,
            profile: self.profile,
            signals: replicas(&self.signals),
        }
    }
}

impl Clone for NewRelationSignalBatch {
    fn clone(&self) -> (r: Self)
        ensures
            r@ == self@,
    {
        self.replica()
    }
}

#[derive(Clone, Copy, Debug, PartialEq, Eq, Structural)]
pub struct RelationSignalRevisionHeader {
    pub id: RelationSignalId,
    pub revision: u64,
    pub previous_revision: Option<u64>,
    pub evaluator: RelationEvaluatorPin,
    pub profile: RelationProfilePin,
    pub from: RecordRevisionPin,
    pub to: RecordRevisionPin,
    pub state: RecordState,
    pub recorded_at_ms: i64,
    pub operation_id: OperationId,
}

impl View for RelationSignalRevisionHeader {
    type V = RelationSignalRevisionHeader;

    open spec fn view(&self) -> RelationSignalRevisionHeader {
        *self
    }
}

#[derive(Debug, PartialEq, Eq)]
pub struct RelationSignalPayload {
    pub revision: u64,
    pub scores: Vec<RelationDimensionScore>,
    pub provenance_digest: [u8; 32],
}

/// What a [`RelationSignalPayload`] holds.
#[verifier::ext_equal]
pub struct RelationSignalPayloadModel {
    pub revision: u64,
    pub scores: Seq<RelationDimensionScore>,
    pub provenance_digest: [u8; 32],
}

impl View for RelationSignalPayload {
    type V = RelationSignalPayloadModel;

    open spec fn view(&self) -> RelationSignalPayloadModel {
        RelationSignalPayloadModel {
            revision: self.revision,
            scores: self.scores@,
            provenance_digest: self.provenance_digest,
        }
    }
}

impl Replica for RelationSignalPayload {
    fn replica(&self) -> (r: Self) {
        RelationSignalPayload {
            revision: self.revision,
            scores: copies(&self.scores),
            provenance_digest: self.provenance_digest,
        }
    }
}

impl Clone for RelationSignalPayload {
    fn clone(&self) -> (r: Self)
        ensures
            r@ == self@,
    {
        self.replica()
    }
}

#[derive(Clone, Copy, Debug, PartialEq, Eq, Structural)]
pub enum RelationSignalStaleReason {
    EvaluatorAdvanced,
    EvaluatorInactive,
    ProfileAdvanced,
    ProfileInactive,
    SourceAdvanced,
    SourceInactive,
}

impl View for RelationSignalStaleReason {
    type V = RelationSignalStaleReason;

    open spec fn view(&self) -> RelationSignalStaleReason {
        *self
    }
}

#[derive(Clone, Copy, Debug, PartialEq, Eq, Structural)]
pub enum RelationSignalUnavailableReason {
    PayloadPurged,
    HistoricalPayloadUnavailable,
    EvaluatorPurged,
    ProfilePurged,
    SourcePurged,
    MissingDependency,
}

impl View for RelationSignalUnavailableReason {
    type V = RelationSignalUnavailableReason;

    open spec fn view(&self) -> RelationSignalUnavailableReason {
        *self
    }
}

#[derive(Clone, Copy, Debug, PartialEq, Eq, Structural)]
pub enum RelationSignalAvailability {
    Available,
    Stale(RelationSignalStaleReason),
    Unavailable(RelationSignalUnavailableReason),
}

impl View for RelationSignalAvailability {
    type V = RelationSignalAvailability;

    open spec fn view(&self) -> RelationSignalAvailability {
        *self
    }
}

#[derive(Debug, PartialEq, Eq)]
pub struct RelationSignalRecord {
    pub header: RelationSignalRevisionHeader,
    pub scores: Option<Vec<RelationDimensionScore>>,
    pub provenance_digest: Option<[u8; 32]>,
    pub availability: RelationSignalAvailability,
}

/// What a [`RelationSignalRecord`] holds.
#[verifier::ext_equal]
pub struct RelationSignalRecordModel {
    pub header: RelationSignalRevisionHeader,
    pub scores: Option<Seq<RelationDimensionScore>>,
    pub provenance_digest: Option<[u8; 32]>,
    pub availability: RelationSignalAvailability,
}

impl View for RelationSignalRecord {
    type V = RelationSignalRecordModel;

    open spec fn view(&self) -> RelationSignalRecordModel {
        RelationSignalRecordModel {
            header: self.header,
            scores: opt_view(self.scores),
            provenance_digest: self.provenance_digest,
            availability: self.availability,
        }
    }
}

impl Replica for RelationSignalRecord {
    fn replica(&self) -> (r: Self) {
        RelationSignalRecord {
            header: self.header,
            scores: opt_copies(&self.scores),
            provenance_digest: self.provenance_digest,
            availability: self.availability,
        }
    }
}

impl Clone for RelationSignalRecord {
    fn clone(&self) -> (r: Self)
        ensures
            r@ == self@,
    {
        self.replica()
    }
}

#[derive(Clone, Copy, Debug, PartialEq, Eq, Structural)]
pub struct RelationSignalReceipt {
    pub pin: RelationSignalPin,
    pub state: RecordState,
}

impl View for RelationSignalReceipt {
    type V = RelationSignalReceipt;

    open spec fn view(&self) -> RelationSignalReceipt {
        *self
    }
}

#[derive(Debug, PartialEq, Eq)]
pub struct RelationSignalBatchReceipt {
    pub signals: Vec<RelationSignalReceipt>,
}

/// What a [`RelationSignalBatchReceipt`] holds.
#[verifier::ext_equal]
pub struct RelationSignalBatchReceiptModel {
    pub signals: Seq<RelationSignalReceipt>,
}

impl View for RelationSignalBatchReceipt {
    type V = RelationSignalBatchReceiptModel;

    open spec fn view(&self) -> RelationSignalBatchReceiptModel {
        RelationSignalBatchReceiptModel {
            signals: self.signals@,
        }
    }
}

impl Replica for RelationSignalBatchReceipt {
    fn replica(&self) -> (r: Self) {
        RelationSignalBatchReceipt {
            signals: copies(&self.signals),
        }
    }
}

impl Clone for RelationSignalBatchReceipt {
    fn clone(&self) -> (r: Self)
        ensures
            r@ == self@,
    {
        self.replica()
    }
}

#[derive(Clone, Copy, Debug, PartialEq, Eq, Structural)]
pub enum DerivedDefinitionStateChange {
    Retract,
    Purge,
}

impl View for DerivedDefinitionStateChange {
    type V = DerivedDefinitionStateChange;

    open spec fn view(&self) -> DerivedDefinitionStateChange {
        *self
    }
}

#[derive(Debug, PartialEq, Eq)]
pub struct RelationEvaluatorStateReceipt {
    pub evaluator: RelationEvaluatorReceipt,
    pub purged_relation_signals: Vec<RelationSignalPin>,
    pub purged_activation_traces: Vec<ActivationTraceId>,
}

/// What a [`RelationEvaluatorStateReceipt`] holds.
#[verifier::ext_equal]
pub struct RelationEvaluatorStateReceiptModel {
    pub evaluator: RelationEvaluatorReceipt,
    pub purged_relation_signals: Seq<RelationSignalPin>,
    pub purged_activation_traces: Seq<ActivationTraceId>,
}

impl View for RelationEvaluatorStateReceipt {
    type V = RelationEvaluatorStateReceiptModel;

    open spec fn view(&self) -> RelationEvaluatorStateReceiptModel {
        RelationEvaluatorStateReceiptModel {
            evaluator: self.evaluator,
            purged_relation_signals: self.purged_relation_signals@,
            purged_activation_traces: self.purged_activation_traces@,
        }
    }
}

impl Replica for RelationEvaluatorStateReceipt {
    fn replica(&self) -> (r: Self) {
        RelationEvaluatorStateReceipt {
            evaluator: self.evaluator,
            purged_relation_signals: copies(&self.purged_relation_signals),
            purged_activation_traces: copies(&self.purged_activation_traces),
        }
    }
}

impl Clone for RelationEvaluatorStateReceipt {
    fn clone(&self) -> (r: Self)
        ensures
            r@ == self@,
    {
        self.replica()
    }
}

#[derive(Debug, PartialEq, Eq)]
pub struct RelationProfileStateReceipt {
    pub profile: RelationProfileReceipt,
    pub purged_relation_signals: Vec<RelationSignalPin>,
    pub purged_activation_traces: Vec<ActivationTraceId>,
}

/// What a [`RelationProfileStateReceipt`] holds.
#[verifier::ext_equal]
pub struct RelationProfileStateReceiptModel {
    pub profile: RelationProfileReceipt,
    pub purged_relation_signals: Seq<RelationSignalPin>,
    pub purged_activation_traces: Seq<ActivationTraceId>,
}

impl View for RelationProfileStateReceipt {
    type V = RelationProfileStateReceiptModel;

    open spec fn view(&self) -> RelationProfileStateReceiptModel {
        RelationProfileStateReceiptModel {
            profile: self.profile,
            purged_relation_signals: self.purged_relation_signals@,
            purged_activation_traces: self.purged_activation_traces@,
        }
    }
}

impl Replica for RelationProfileStateReceipt {
    fn replica(&self) -> (r: Self) {
        RelationProfileStateReceipt {
            profile: self.profile,
            purged_relation_signals: copies(&self.purged_relation_signals),
            purged_activation_traces: copies(&self.purged_activation_traces),
        }
    }
}

impl Clone for RelationProfileStateReceipt {
    fn clone(&self) -> (r: Self)
        ensures
            r@ == self@,
    {
        self.replica()
    }
}

#[derive(Clone, Copy, Debug, PartialEq, Eq, Structural)]
pub struct RecallCasePin {
    pub id: RecallCaseId,
    pub revision: u64,
}

impl View for RecallCasePin {
    type V = RecallCasePin;

    open spec fn view(&self) -> RecallCasePin {
        *self
    }
}

#[derive(Debug, PartialEq, Eq)]
pub struct ShadowActivationRequest {
    pub recall_case: RecallCasePin,
    pub evaluator: RelationEvaluatorPin,
    pub profile: RelationProfilePin,
    pub candidates: Vec<RecordRevisionPin>,
}

/// What a [`ShadowActivationRequest`] holds.
#[verifier::ext_equal]
pub struct ShadowActivationRequestModel {
    pub recall_case: RecallCasePin,
    pub evaluator: RelationEvaluatorPin,
    pub profile: RelationProfilePin,
    pub candidates: Seq<RecordRevisionPin>,
}

impl View for ShadowActivationRequest {
    type V = ShadowActivationRequestModel;

    open spec fn view(&self) -> ShadowActivationRequestModel {
        ShadowActivationRequestModel {
            recall_case: self.recall_case,
            evaluator: self.evaluator,
            profile: self.profile,
            candidates: self.candidates@,
        }
    }
}

impl Replica for ShadowActivationRequest {
    fn replica(&self) -> (r: Self) {
        ShadowActivationRequest {
            recall_case: self.recall_case,
            evaluator: self.evaluator,
            profile: self.profile,
            candidates: copies(&self.candidates),
        }
    }
}

impl Clone for ShadowActivationRequest {
    fn clone(&self) -> (r: Self)
        ensures
            r@ == self@,
    {
        self.replica()
    }
}

#[derive(Clone, Copy, Debug, PartialEq, Eq, Structural)]
pub struct ActivationContribution {
    pub signal: RelationSignalPin,
    pub from: RecordRevisionPin,
    pub to: RecordRevisionPin,
    pub weighted_score_micros: i64,
}

impl View for ActivationContribution {
    type V = ActivationContribution;

    open spec fn view(&self) -> ActivationContribution {
        *self
    }
}

#[derive(Clone, Copy, Debug, PartialEq, Eq, Structural)]
pub struct ActivationCandidateTrace {
    pub candidate: RecordRevisionPin,
    pub baseline_rank: u32,
    pub activation_score_micros: i64,
    pub shadow_rank: u32,
}

impl View for ActivationCandidateTrace {
    type V = ActivationCandidateTrace;

    open spec fn view(&self) -> ActivationCandidateTrace {
        *self
    }
}

/// Query-local structural shadow output. It contains no query text, excerpts,
/// terms, or free-form rationale and never replaces the pinned recall case.
#[derive(Debug, PartialEq, Eq)]
pub struct ActivationTrace {
    pub id: ActivationTraceId,
    pub revision: u64,
    pub era_id: EraId,
    pub operation_id: OperationId,
    pub recall_case: RecallCasePin,
    pub evaluator: RelationEvaluatorPin,
    pub profile: RelationProfilePin,
    pub input_digest: [u8; 32],
    pub candidates: Vec<ActivationCandidateTrace>,
    pub contributions: Vec<ActivationContribution>,
    pub recorded_at_ms: i64,
}

/// What a [`ActivationTrace`] holds.
#[verifier::ext_equal]
pub struct ActivationTraceModel {
    pub id: ActivationTraceId,
    pub revision: u64,
    pub era_id: EraId,
    pub operation_id: OperationId,
    pub recall_case: RecallCasePin,
    pub evaluator: RelationEvaluatorPin,
    pub profile: RelationProfilePin,
    pub input_digest: [u8; 32],
    pub candidates: Seq<ActivationCandidateTrace>,
    pub contributions: Seq<ActivationContribution>,
    pub recorded_at_ms: i64,
}

impl View for ActivationTrace {
    type V = ActivationTraceModel;

    open spec fn view(&self) -> ActivationTraceModel {
        ActivationTraceModel {
            id: self.id,
            revision: self.revision,
            era_id: self.era_id,
            operation_id: self.operation_id,
            recall_case: self.recall_case,
            evaluator: self.evaluator,
            profile: self.profile,
            input_digest: self.input_digest,
            candidates: self.candidates@,
            contributions: self.contributions@,
            recorded_at_ms: self.recorded_at_ms,
        }
    }
}

impl Replica for ActivationTrace {
    fn replica(&self) -> (r: Self) {
        ActivationTrace {
            id: self.id,
            revision: self.revision,
            era_id: self.era_id,
            operation_id: self.operation_id,
            recall_case: self.recall_case,
            evaluator: self.evaluator,
            profile: self.profile,
            input_digest: self.input_digest,
            candidates: copies(&self.candidates),
            contributions: copies(&self.contributions),
            recorded_at_ms: self.recorded_at_ms,
        }
    }
}

impl Clone for ActivationTrace {
    fn clone(&self) -> (r: Self)
        ensures
            r@ == self@,
    {
        self.replica()
    }
}

#[derive(Clone, Copy, Debug, PartialEq, Eq)]
pub struct ActivationTraceHeader {
    pub id: ActivationTraceId,
    pub revision: u64,
    pub era_id: EraId,
    pub operation_id: OperationId,
    pub recall_case: RecallCasePin,
    pub evaluator: RelationEvaluatorPin,
    pub profile: RelationProfilePin,
    pub input_digest: [u8; 32],
    pub recorded_at_ms: i64,
}

impl View for ActivationTraceHeader {
    type V = ActivationTraceHeader;

    open spec fn view(&self) -> ActivationTraceHeader {
        *self
    }
}

#[derive(Debug, PartialEq, Eq)]
pub struct ActivationTracePayload {
    pub candidates: Vec<ActivationCandidateTrace>,
    pub contributions: Vec<ActivationContribution>,
}

/// What a [`ActivationTracePayload`] holds.
#[verifier::ext_equal]
pub struct ActivationTracePayloadModel {
    pub candidates: Seq<ActivationCandidateTrace>,
    pub contributions: Seq<ActivationContribution>,
}

impl View for ActivationTracePayload {
    type V = ActivationTracePayloadModel;

    open spec fn view(&self) -> ActivationTracePayloadModel {
        ActivationTracePayloadModel {
            candidates: self.candidates@,
            contributions: self.contributions@,
        }
    }
}

impl Replica for ActivationTracePayload {
    fn replica(&self) -> (r: Self) {
        ActivationTracePayload {
            candidates: copies(&self.candidates),
            contributions: copies(&self.contributions),
        }
    }
}

impl Clone for ActivationTracePayload {
    fn clone(&self) -> (r: Self)
        ensures
            r@ == self@,
    {
        self.replica()
    }
}

} // verus!
