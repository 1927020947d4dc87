//! Sortable identifiers.
use vstd::prelude::*;
use crate::order::Keyed;

verus! {

/// A 128-bit sortable identifier.
#[derive(Clone, Copy, Debug, PartialEq, Eq, PartialOrd, Ord, Hash, Structural)]
pub struct Ulid(pub u128);

impl View for Ulid {
    type V = Ulid;

    open spec fn view(&self) -> Ulid {
        *self
    }
}

impl Keyed for Ulid {
    open spec fn rank(&self) -> int {
        self.0 as int
    }

    proof fn rank_is_injective(a: &Self, b: &Self) {
    }

    fn before(&self, other: &Self) -> (r: bool) {
        self.0 < other.0
    }
}

/// Draws an identifier from `ulid::Ulid::new`. Nothing is claimed of the value
/// drawn: it depends on the clock and on chance.
#[verifier::external_body]
fn fresh_ulid() -> (id: Ulid) {
    Ulid(ulid::Ulid::new().0)
}

impl Ulid {
    /// A freshly drawn identifier.
    pub fn new() -> (id: Ulid) {
        fresh_ulid()
    }
}

#[derive(Clone, Copy, Debug, PartialEq, Eq, PartialOrd, Ord, Hash, Structural)]
pub struct EraId(pub Ulid);

impl View for EraId {
    type V = EraId;

    open spec fn view(&self) -> EraId {
        *self
    }
}

impl Keyed for EraId {
    open spec fn rank(&self) -> int {
        self.0.0 as int
    }

    proof fn rank_is_injective(a: &Self, b: &Self) {
    }

    fn before(&self, other: &Self) -> (r: bool) {
        self.0.0 < other.0.0
    }
}

impl EraId {
    /// A freshly drawn identifier.
    pub fn new() -> (id: Self) {
        EraId(Ulid::new())
    }

    pub fn as_ulid(self) -> (r: Ulid)
        ensures
            r == self.0,
    {
        self.0
    }
}

impl Default for EraId {
    fn default() -> (id: Self) {
        EraId::new()
    }
}

#[derive(Clone, Copy, Debug, PartialEq, Eq, PartialOrd, Ord, Hash, Structural)]
pub struct OperationId(pub Ulid);

impl View for OperationId {
    type V = OperationId;

    open spec fn view(&self) -> OperationId {
        *self
    }
}

impl Keyed for OperationId {
    open spec fn rank(&self) -> int {
        self.0.0 as int
    }

    proof fn rank_is_injective(a: &Self, b: &Self) {
    }

    fn before(&self, other: &Self) -> (r: bool) {
        self.0.0 < other.0.0
    }
}

impl OperationId {
    /// A freshly drawn identifier.
    pub fn new() -> (id: Self) {
        OperationId(Ulid::new())
    }

    pub fn as_ulid(self) -> (r: Ulid)
        ensures
            r == self.0,
    {
        self.0
    }
}

impl Default for OperationId {
    fn default() -> (id: Self) {
        OperationId::new()
    }
}

#[derive(Clone, Copy, Debug, PartialEq, Eq, PartialOrd, Ord, Hash, Structural)]
pub struct EvidenceId(pub Ulid);

impl View for EvidenceId {
    type V = EvidenceId;

    open spec fn view(&self) -> EvidenceId {
        *self
    }
}

impl Keyed for EvidenceId {
    open spec fn rank(&self) -> int {
        self.0.0 as int
    }

    proof fn rank_is_injective(a: &Self, b: &Self) {
    }

    fn before(&self, other: &Self) -> (r: bool) {
        self.0.0 < other.0.0
    }
}

impl EvidenceId {
    /// A freshly drawn identifier.
    pub fn new() -> (id: Self) {
        EvidenceId(Ulid::new())
    }

    pub fn as_ulid(self) -> (r: Ulid)
        ensures
            r == self.0,
    {
        self.0
    }
}

impl Default for EvidenceId {
    fn default() -> (id: Self) {
        EvidenceId::new()
    }
}

#[derive(Clone, Copy, Debug, PartialEq, Eq, PartialOrd, Ord, Hash, Structural)]
pub struct ClaimId(pub Ulid);

impl View for ClaimId {
    type V = ClaimId;

    open spec fn view(&self) -> ClaimId {
        *self
    }
}

impl Keyed for ClaimId {
    open spec fn rank(&self) -> int {
        self.0.0 as int
    }

    proof fn rank_is_injective(a: &Self, b: &Self) {
    }

    fn before(&self, other: &Self) -> (r: bool) {
        self.0.0 < other.0.0
    }
}

impl ClaimId {
    /// A freshly drawn identifier.
    pub fn new() -> (id: Self) {
        ClaimId(Ulid::new())
    }

    pub fn as_ulid(self) -> (r: Ulid)
        ensures
            r == self.0,
    {
        self.0
    }
}

impl Default for ClaimId {
    fn default() -> (id: Self) {
        ClaimId::new()
    }
}

#[derive(Clone, Copy, Debug, PartialEq, Eq, PartialOrd, Ord, Hash, Structural)]
pub struct RelationId(pub Ulid);

impl View for RelationId {
    type V = RelationId;

    open spec fn view(&self) -> RelationId {
        *self
    }
}

impl Keyed for RelationId {
    open spec fn rank(&self) -> int {
        self.0.0 as int
    }

    proof fn rank_is_injective(a: &Self, b: &Self) {
    }

    fn before(&self, other: &Self) -> (r: bool) {
        self.0.0 < other.0.0
    }
}

impl RelationId {
    /// A freshly drawn identifier.
    pub fn new() -> (id: Self) {
        RelationId(Ulid::new())
    }

    pub fn as_ulid(self) -> (r: Ulid)
        ensures
            r == self.0,
    {
        self.0
    }
}

impl Default for RelationId {
    fn default() -> (id: Self) {
        RelationId::new()
    }
}

#[derive(Clone, Copy, Debug, PartialEq, Eq, PartialOrd, Ord, Hash, Structural)]
pub struct EntityId(pub Ulid);

impl View for EntityId {
    type V = EntityId;

    open spec fn view(&self) -> EntityId {
        *self
    }
}

impl Keyed for EntityId {
    open spec fn rank(&self) -> int {
        self.0.0 as int
    }

    proof fn rank_is_injective(a: &Self, b: &Self) {
    }

    fn before(&self, other: &Self) -> (r: bool) {
        self.0.0 < other.0.0
    }
}

impl EntityId {
    /// A freshly drawn identifier.
    pub fn new() -> (id: Self) {
        EntityId(Ulid::new())
    }

    pub fn as_ulid(self) -> (r: Ulid)
        ensures
            r == self.0,
    {
        self.0
    }
}

impl Default for EntityId {
    fn default() -> (id: Self) {
        EntityId::new()
    }
}

#[derive(Clone, Copy, Debug, PartialEq, Eq, PartialOrd, Ord, Hash, Structural)]
pub struct RecallCaseId(pub Ulid);

impl View for RecallCaseId {
    type V = RecallCaseId;

    open spec fn view(&self) -> RecallCaseId {
        *self
    }
}

impl Keyed for RecallCaseId {
    open spec fn rank(&self) -> int {
        self.0.0 as int
    }

    proof fn rank_is_injective(a: &Self, b: &Self) {
    }

    fn before(&self, other: &Self) -> (r: bool) {
        self.0.0 < other.0.0
    }
}

impl RecallCaseId {
    /// A freshly drawn identifier.
    pub fn new() -> (id: Self) {
        RecallCaseId(Ulid::new())
    }

    pub fn as_ulid(self) -> (r: Ulid)
        ensures
            r == self.0,
    {
        self.0
    }
}

impl Default for RecallCaseId {
    fn default() -> (id: Self) {
        RecallCaseId::new()
    }
}

#[derive(Clone, Copy, Debug, PartialEq, Eq, PartialOrd, Ord, Hash, Structural)]
pub struct AuditEventId(pub Ulid);

impl View for AuditEventId {
    type V = AuditEventId;

    open spec fn view(&self) -> AuditEventId {
        *self
    }
}

impl Keyed for AuditEventId {
    open spec fn rank(&self) -> int {
        self.0.0 as int
    }

    proof fn rank_is_injective(a: &Self, b: &Self) {
    }

    fn before(&self, other: &Self) -> (r: bool) {
        self.0.0 < other.0.0
    }
}

impl AuditEventId {
    /// A freshly drawn identifier.
    pub fn new() -> (id: Self) {
        AuditEventId(Ulid::new())
    }

    pub fn as_ulid(self) -> (r: Ulid)
        ensures
            r == self.0,
    {
        self.0
    }
}

impl Default for AuditEventId {
    fn default() -> (id: Self) {
        AuditEventId::new()
    }
}

#[derive(Clone, Copy, Debug, PartialEq, Eq, PartialOrd, Ord, Hash, Structural)]
pub struct ProposalId(pub Ulid);

impl View for ProposalId {
    type V = ProposalId;

    open spec fn view(&self) -> ProposalId {
        *self
    }
}

impl Keyed for ProposalId {
    open spec fn rank(&self) -> int {
        self.0.0 as int
    }

    proof fn rank_is_injective(a: &Self, b: &Self) {
    }

    fn before(&self, other: &Self) -> (r: bool) {
        self.0.0 < other.0.0
    }
}

impl ProposalId {
    /// A freshly drawn identifier.
    pub fn new() -> (id: Self) {
        ProposalId(Ulid::new())
    }

    pub fn as_ulid(self) -> (r: Ulid)
        ensures
            r == self.0,
    {
        self.0
    }
}

impl Default for ProposalId {
    fn default() -> (id: Self) {
        ProposalId::new()
    }
}

#[derive(Clone, Copy, Debug, PartialEq, Eq, PartialOrd, Ord, Hash, Structural)]
pub struct ProposalSourceJobId(pub Ulid);

impl View for ProposalSourceJobId {
    type V = ProposalSourceJobId;

    open spec fn view(&self) -> ProposalSourceJobId {
        *self
    }
}

impl Keyed for ProposalSourceJobId {
    open spec fn rank(&self) -> int {
        self.0.0 as int
    }

    proof fn rank_is_injective(a: &Self, b: &Self) {
    }

    fn before(&self, other: &Self) -> (r: bool) {
        self.0.0 < other.0.0
    }
}

impl ProposalSourceJobId {
    /// A freshly drawn identifier.
    pub fn new() -> (id: Self) {
        ProposalSourceJobId(Ulid::new())
    }

    pub fn as_ulid(self) -> (r: Ulid)
        ensures
            r == self.0,
    {
        self.0
    }
}

impl Default for ProposalSourceJobId {
    fn default() -> (id: Self) {
        ProposalSourceJobId::new()
    }
}

#[derive(Clone, Copy, Debug, PartialEq, Eq, PartialOrd, Ord, Hash, Structural)]
pub struct ProposalDraftId(pub Ulid);

impl View for ProposalDraftId {
    type V = ProposalDraftId;

    open spec fn view(&self) -> ProposalDraftId {
        *self
    }
}

impl Keyed for ProposalDraftId {
    open spec fn rank(&self) -> int {
        self.0.0 as int
    }

    proof fn rank_is_injective(a: &Self, b: &Self) {
    }

    fn before(&self, other: &Self) -> (r: bool) {
        self.0.0 < other.0.0
    }
}

impl ProposalDraftId {
    /// A freshly drawn identifier.
    pub fn new() -> (id: Self) {
        ProposalDraftId(Ulid::new())
    }

    pub fn as_ulid(self) -> (r: Ulid)
        ensures
            r == self.0,
    {
        self.0
    }
}

impl Default for ProposalDraftId {
    fn default() -> (id: Self) {
        ProposalDraftId::new()
    }
}

#[derive(Clone, Copy, Debug, PartialEq, Eq, PartialOrd, Ord, Hash, Structural)]
pub struct ProposalReviewCaseId(pub Ulid);

impl View for ProposalReviewCaseId {
    type V = ProposalReviewCaseId;

    open spec fn view(&self) -> ProposalReviewCaseId {
        *self
    }
}

impl Keyed for ProposalReviewCaseId {
    open spec fn rank(&self) -> int {
        self.0.0 as int
    }

    proof fn rank_is_injective(a: &Self, b: &Self) {
    }

    fn before(&self, other: &Self) -> (r: bool) {
        self.0.0 < other.0.0
    }
}

impl ProposalReviewCaseId {
    /// A freshly drawn identifier.
    pub fn new() -> (id: Self) {
        ProposalReviewCaseId(Ulid::new())
    }

    pub fn as_ulid(self) -> (r: Ulid)
        ensures
            r == self.0,
    {
        self.0
    }
}

impl Default for ProposalReviewCaseId {
    fn default() -> (id: Self) {
        ProposalReviewCaseId::new()
    }
}

#[derive(Clone, Copy, Debug, PartialEq, Eq, PartialOrd, Ord, Hash, Structural)]
pub struct RecallFeedbackId(pub Ulid);

impl View for RecallFeedbackId {
    type V = RecallFeedbackId;

    open spec fn view(&self) -> RecallFeedbackId {
        *self
    }
}

impl Keyed for RecallFeedbackId {
    open spec fn rank(&self) -> int {
        self.0.0 as int
    }

    proof fn rank_is_injective(a: &Self, b: &Self) {
    }

    fn before(&self, other: &Self) -> (r: bool) {
        self.0.0 < other.0.0
    }
}

impl RecallFeedbackId {
    /// A freshly drawn identifier.
    pub fn new() -> (id: Self) {
        RecallFeedbackId(Ulid::new())
    }

    pub fn as_ulid(self) -> (r: Ulid)
        ensures
            r == self.0,
    {
        self.0
    }
}

impl Default for RecallFeedbackId {
    fn default() -> (id: Self) {
        RecallFeedbackId::new()
    }
}

#[derive(Clone, Copy, Debug, PartialEq, Eq, PartialOrd, Ord, Hash, Structural)]
pub struct ArtifactCollectionId(pub Ulid);

impl View for ArtifactCollectionId {
    type V = ArtifactCollectionId;

    open spec fn view(&self) -> ArtifactCollectionId {
        *self
    }
}

impl Keyed for ArtifactCollectionId {
    open spec fn rank(&self) -> int {
        self.0.0 as int
    }

    proof fn rank_is_injective(a: &Self, b: &Self) {
    }

    fn before(&self, other: &Self) -> (r: bool) {
        self.0.0 < other.0.0
    }
}

impl ArtifactCollectionId {
    /// A freshly drawn identifier.
    pub fn new() -> (id: Self) {
        ArtifactCollectionId(Ulid::new())
    }

    pub fn as_ulid(self) -> (r: Ulid)
        ensures
            r == self.0,
    {
        self.0
    }
}

impl Default for ArtifactCollectionId {
    fn default() -> (id: Self) {
        ArtifactCollectionId::new()
    }
}

#[derive(Clone, Copy, Debug, PartialEq, Eq, PartialOrd, Ord, Hash, Structural)]
pub struct ArtifactSnapshotId(pub Ulid);

impl View for ArtifactSnapshotId {
    type V = ArtifactSnapshotId;

    open spec fn view(&self) -> ArtifactSnapshotId {
        *self
    }
}

impl Keyed for ArtifactSnapshotId {
    open spec fn rank(&self) -> int {
        self.0.0 as int
    }

    proof fn rank_is_injective(a: &Self, b: &Self) {
    }

    fn before(&self, other: &Self) -> (r: bool) {
        self.0.0 < other.0.0
    }
}

impl ArtifactSnapshotId {
    /// A freshly drawn identifier.
    pub fn new() -> (id: Self) {
        ArtifactSnapshotId(Ulid::new())
    }

    pub fn as_ulid(self) -> (r: Ulid)
        ensures
            r == self.0,
    {
        self.0
    }
}

impl Default for ArtifactSnapshotId {
    fn default() -> (id: Self) {
        ArtifactSnapshotId::new()
    }
}

#[derive(Clone, Copy, Debug, PartialEq, Eq, PartialOrd, Ord, Hash, Structural)]
pub struct ArtifactPassageId(pub Ulid);

impl View for ArtifactPassageId {
    type V = ArtifactPassageId;

    open spec fn view(&self) -> ArtifactPassageId {
        *self
    }
}

impl Keyed for ArtifactPassageId {
    open spec fn rank(&self) -> int {
        self.0.0 as int
    }

    proof fn rank_is_injective(a: &Self, b: &Self) {
    }

    fn before(&self, other: &Self) -> (r: bool) {
        self.0.0 < other.0.0
    }
}

impl ArtifactPassageId {
    /// A freshly drawn identifier.
    pub fn new() -> (id: Self) {
        ArtifactPassageId(Ulid::new())
    }

    pub fn as_ulid(self) -> (r: Ulid)
        ensures
            r == self.0,
    {
        self.0
    }
}

impl Default for ArtifactPassageId {
    fn default() -> (id: Self) {
        ArtifactPassageId::new()
    }
}

#[derive(Clone, Copy, Debug, PartialEq, Eq, PartialOrd, Ord, Hash, Structural)]
pub struct RelationEvaluatorId(pub Ulid);

impl View for RelationEvaluatorId {
    type V = RelationEvaluatorId;

    open spec fn view(&self) -> RelationEvaluatorId {
        *self
    }
}

impl Keyed for RelationEvaluatorId {
    open spec fn rank(&self) -> int {
        self.0.0 as int
    }

    proof fn rank_is_injective(a: &Self, b: &Self) {
    }

    fn before(&self, other: &Self) -> (r: bool) {
        self.0.0 < other.0.0
    }
}

impl RelationEvaluatorId {
    /// A freshly drawn identifier.
    pub fn new() -> (id: Self) {
        RelationEvaluatorId(Ulid::new())
    }

    pub fn as_ulid(self) -> (r: Ulid)
        ensures
            r == self.0,
    {
        self.0
    }
}

impl Default for RelationEvaluatorId {
    fn default() -> (id: Self) {
        RelationEvaluatorId::new()
    }
}

#[derive(Clone, Copy, Debug, PartialEq, Eq, PartialOrd, Ord, Hash, Structural)]
pub struct RelationProfileId(pub Ulid);

impl View for RelationProfileId {
    type V = RelationProfileId;

    open spec fn view(&self) -> RelationProfileId {
        *self
    }
}

impl Keyed for RelationProfileId {
    open spec fn rank(&self) -> int {
        self.0.0 as int
    }

    proof fn rank_is_injective(a: &Self, b: &Self) {
    }

    fn before(&self, other: &Self) -> (r: bool) {
        self.0.0 < other.0.0
    }
}

impl RelationProfileId {
    /// A freshly drawn identifier.
    pub fn new() -> (id: Self) {
        RelationProfileId(Ulid::new())
    }

    pub fn as_ulid(self) -> (r: Ulid)
        ensures
            r == self.0,
    {
        self.0
    }
}

impl Default for RelationProfileId {
    fn default() -> (id: Self) {
        RelationProfileId::new()
    }
}

#[derive(Clone, Copy, Debug, PartialEq, Eq, PartialOrd, Ord, Hash, Structural)]
pub struct RelationSignalId(pub Ulid);

impl View for RelationSignalId {
    type V = RelationSignalId;

    open spec fn view(&self) -> RelationSignalId {
        *self
    }
}

impl Keyed for RelationSignalId {
    open spec fn rank(&self) -> int {
        self.0.0 as int
    }

    proof fn rank_is_injective(a: &Self, b: &Self) {
    }

    fn before(&self, other: &Self) -> (r: bool) {
        self.0.0 < other.0.0
    }
}

impl RelationSignalId {
    /// A freshly drawn identifier.
    pub fn new() -> (id: Self) {
        RelationSignalId(Ulid::new())
    }

    pub fn as_ulid(self) -> (r: Ulid)
        ensures
            r == self.0,
    {
        self.0
    }
}

impl Default for RelationSignalId {
    fn default() -> (id: Self) {
        RelationSignalId::new()
    }
}

#[derive(Clone, Copy, Debug, PartialEq, Eq, PartialOrd, Ord, Hash, Structural)]
pub struct ActivationTraceId(pub Ulid);

impl View for ActivationTraceId {
    type V = ActivationTraceId;

    open spec fn view(&self) -> ActivationTraceId {
        *self
    }
}

impl Keyed for ActivationTraceId {
    open spec fn rank(&self) -> int {
        self.0.0 as int
    }

    proof fn rank_is_injective(a: &Self, b: &Self) {
    }

    fn before(&self, other: &Self) -> (r: bool) {
        self.0.0 < other.0.0
    }
}

impl ActivationTraceId {
    /// A freshly drawn identifier.
    pub fn new() -> (id: Self) {
        ActivationTraceId(Ulid::new())
    }

    pub fn as_ulid(self) -> (r: Ulid)
        ensures
            r == self.0,
    {
        self.0
    }
}

impl Default for ActivationTraceId {
    fn default() -> (id: Self) {
        ActivationTraceId::new()
    }
}

} // verus!
