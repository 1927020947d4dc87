//! Memories, relations between them, and the evidence that recall gathers.
use vstd::prelude::*;
use crate::ids::Ulid;
use crate::table::{Replica, copies, replicas, views};

verus! {

/// A key and the JSON text of its value.
#[derive(Debug, PartialEq, Eq)]
pub struct MetadataEntry {
    pub key: String,
    pub value: String,
}

/// What a [`MetadataEntry`] holds.
#[verifier::ext_equal]
pub struct MetadataEntryModel {
    pub key: Seq<char>,
    pub value: Seq<char>,
}

impl View for MetadataEntry {
    type V = MetadataEntryModel;

    open spec fn view(&self) -> MetadataEntryModel {
        MetadataEntryModel {
            key: self.key@,
            value: self.value@,
        }
    }
}

impl Replica for MetadataEntry {
    fn replica(&self) -> (r: Self) {
        MetadataEntry {
            key: self.key.clone(),
            value: self.value.clone(),
        }
    }
}

impl Clone for MetadataEntry {
    fn clone(&self) -> (r: Self)
        ensures
            r@ == self@,
    {
        self.replica()
    }
}

/// What recall reads of a memory, as of one instant.
#[derive(Debug, PartialEq, Eq)]
pub struct NodeFacts {
    pub id: Ulid,
    pub kind: u8,
    /// Facts alone need provenance to count as verified.
    pub fact: bool,
    /// Whether the memory is valid at the instant.
    pub valid: bool,
    /// When it became valid, or was created where that is not told.
    pub valid_from_ms: i64,
    pub revision: u64,
    pub metadata: Vec<MetadataEntry>,
}

/// What a [`NodeFacts`] holds.
#[verifier::ext_equal]
pub struct NodeFactsModel {
    pub id: Ulid,
    pub kind: u8,
    pub fact: bool,
    pub valid: bool,
    pub valid_from_ms: i64,
    pub revision: u64,
    pub metadata: Seq<MetadataEntryModel>,
}

impl View for NodeFacts {
    type V = NodeFactsModel;

    open spec fn view(&self) -> NodeFactsModel {
        NodeFactsModel {
            id: self.id,
            kind: self.kind,
            fact: self.fact,
            valid: self.valid,
            valid_from_ms: self.valid_from_ms,
            revision: self.revision,
            metadata: views(self.metadata@),
        }
    }
}

impl Replica for NodeFacts {
    fn replica(&self) -> (r: Self) {
        NodeFacts {
            id: self.id,
            kind: self.kind,
            fact: self.fact,
            valid: self.valid,
            valid_from_ms: self.valid_from_ms,
            revision: self.revision,
            metadata: replicas(&self.metadata),
        }
    }
}

impl Clone for NodeFacts {
    fn clone(&self) -> (r: Self)
        ensures
            r@ == self@,
    {
        self.replica()
    }
}

/// A relation between two memories, as of one instant.
#[derive(Debug, PartialEq, Eq)]
pub struct EdgeFacts {
    pub src: Ulid,
    pub dst: Ulid,
    pub label: String,
    /// The bits of the weight, a binary fraction of single precision.
    pub weight_bits: u32,
    pub created_at_ms: i64,
    /// The JSON text of the metadata.
    pub metadata: String,
    pub revision: u64,
    pub valid_from_ms: Option<i64>,
    pub valid_to_ms: Option<i64>,
    pub evidence: Vec<Ulid>,
    /// Whether the relation is valid at the instant.
    pub valid: bool,
}

/// What a [`EdgeFacts`] holds.
#[verifier::ext_equal]
pub struct EdgeFactsModel {
    pub src: Ulid,
    pub dst: Ulid,
    pub label: Seq<char>,
    pub weight_bits: u32,
    pub created_at_ms: i64,
    pub metadata: Seq<char>,
    pub revision: u64,
    pub valid_from_ms: Option<i64>,
    pub valid_to_ms: Option<i64>,
    pub evidence: Seq<Ulid>,
    pub valid: bool,
}

impl View for EdgeFacts {
    type V = EdgeFactsModel;

    open spec fn view(&self) -> EdgeFactsModel {
        EdgeFactsModel {
            src: self.src,
            dst: self.dst,
            label: self.label@,
            weight_bits: self.weight_bits,
            created_at_ms: self.created_at_ms,
            metadata: self.metadata@,
            revision: self.revision,
            valid_from_ms: self.valid_from_ms,
            valid_to_ms: self.valid_to_ms,
            evidence: self.evidence@,
            valid: self.valid,
        }
    }
}

impl Replica for EdgeFacts {
    fn replica(&self) -> (r: Self) {
        EdgeFacts {
            src: self.src,
            dst: self.dst,
            label: self.label.clone(),
            weight_bits: self.weight_bits,
            created_at_ms: self.created_at_ms,
            metadata: self.metadata.clone(),
            revision: self.revision,
            valid_from_ms: self.valid_from_ms,
            valid_to_ms: self.valid_to_ms,
            evidence: copies(&self.evidence),
            valid: self.valid,
        }
    }
}

impl Clone for EdgeFacts {
    fn clone(&self) -> (r: Self)
        ensures
            r@ == self@,
    {
        self.replica()
    }
}

/// A way from one memory to another. Its weight is the product of the weights of its edges.
#[derive(Debug, PartialEq, Eq)]
pub struct GraphPath {
    pub nodes: Vec<Ulid>,
    pub edges: Vec<EdgeFacts>,
}

/// What a [`GraphPath`] holds.
#[verifier::ext_equal]
pub struct GraphPathModel {
    pub nodes: Seq<Ulid>,
    pub edges: Seq<EdgeFactsModel>,
}

impl View for GraphPath {
    type V = GraphPathModel;

    open spec fn view(&self) -> GraphPathModel {
        GraphPathModel {
            nodes: self.nodes@,
            edges: views(self.edges@),
        }
    }
}

impl Replica for GraphPath {
    fn replica(&self) -> (r: Self) {
        GraphPath {
            nodes: copies(&self.nodes),
            edges: replicas(&self.edges),
        }
    }
}

impl Clone for GraphPath {
    fn clone(&self) -> (r: Self)
        ensures
            r@ == self@,
    {
        self.replica()
    }
}

#[derive(Debug, PartialEq, Eq)]
pub struct GraphSlice {
    pub nodes: Vec<NodeFacts>,
    pub edges: Vec<EdgeFacts>,
    pub paths: Vec<GraphPath>,
}

/// What a [`GraphSlice`] holds.
#[verifier::ext_equal]
pub struct GraphSliceModel {
    pub nodes: Seq<NodeFactsModel>,
    pub edges: Seq<EdgeFactsModel>,
    pub paths: Seq<GraphPathModel>,
}

impl View for GraphSlice {
    type V = GraphSliceModel;

    open spec fn view(&self) -> GraphSliceModel {
        GraphSliceModel {
            nodes: views(self.nodes@),
            edges: views(self.edges@),
            paths: views(self.paths@),
        }
    }
}

impl Replica for GraphSlice {
    fn replica(&self) -> (r: Self) {
        GraphSlice {
            nodes: replicas(&self.nodes),
            edges: replicas(&self.edges),
            paths: replicas(&self.paths),
        }
    }
}

impl Clone for GraphSlice {
    fn clone(&self) -> (r: Self)
        ensures
            r@ == self@,
    {
        self.replica()
    }
}

#[derive(Debug, PartialEq, Eq)]
pub struct RecallFilter {
    pub kinds: Vec<u8>,
    pub metadata: Vec<MetadataEntry>,
    /// Leave out facts without durable provenance before any candidate limit is
    /// applied. Other memories are trusted by construction.
    pub require_verified: bool,
    /// Metadata keys whose presence marks a fact without provenance as trusted by the
    /// application that owns it.
    pub allow_unverified_metadata_keys: Vec<String>,
}

/// What a [`RecallFilter`] holds.
#[verifier::ext_equal]
pub struct RecallFilterModel {
    pub kinds: Seq<u8>,
    pub metadata: Seq<MetadataEntryModel>,
    pub require_verified: bool,
    pub allow_unverified_metadata_keys: Seq<Seq<char>>,
}

impl View for RecallFilter {
    type V = RecallFilterModel;

    open spec fn view(&self) -> RecallFilterModel {
        RecallFilterModel {
            kinds: self.kinds@,
            metadata: views(self.metadata@),
            require_verified: self.require_verified,
            allow_unverified_metadata_keys: views(self.allow_unverified_metadata_keys@),
        }
    }
}

impl Replica for RecallFilter {
    fn replica(&self) -> (r: Self) {
        RecallFilter {
            kinds: copies(&self.kinds),
            metadata: replicas(&self.metadata),
            require_verified: self.require_verified,
            allow_unverified_metadata_keys: replicas(&self.allow_unverified_metadata_keys),
        }
    }
}

impl Clone for RecallFilter {
    fn clone(&self) -> (r: Self)
        ensures
            r@ == self@,
    {
        self.replica()
    }
}

#[derive(Debug, PartialEq, Eq)]
pub struct VectorEvidence {
    pub profile_id: String,
    pub model: String,
    pub rank: usize,
    /// The bits of the similarity.
    pub similarity_bits: u32,
}

/// What a [`VectorEvidence`] holds.
#[verifier::ext_equal]
pub struct VectorEvidenceModel {
    pub profile_id: Seq<char>,
    pub model: Seq<char>,
    pub rank: usize,
    pub similarity_bits: u32,
}

impl View for VectorEvidence {
    type V = VectorEvidenceModel;

    open spec fn view(&self) -> VectorEvidenceModel {
        VectorEvidenceModel {
            profile_id: self.profile_id@,
            model: self.model@,
            rank: self.rank,
            similarity_bits: self.similarity_bits,
        }
    }
}

impl Replica for VectorEvidence {
    fn replica(&self) -> (r: Self) {
        VectorEvidence {
            profile_id: self.profile_id.clone(),
            model: self.model.clone(),
            rank: self.rank,
            similarity_bits: self.similarity_bits,
        }
    }
}

impl Clone for VectorEvidence {
    fn clone(&self) -> (r: Self)
        ensures
            r@ == self@,
    {
        self.replica()
    }
}

/// What speaks for a memory, before it is weighed.
#[derive(Debug, PartialEq, Eq)]
pub struct EvidenceDraft {
    pub lexical_score_bits: Option<u32>,
    pub lexical_rank: Option<usize>,
    pub lexical_terms: Vec<String>,
    pub vectors: Vec<VectorEvidence>,
    pub graph_paths: Vec<GraphPath>,
}

/// What a [`EvidenceDraft`] holds.
#[verifier::ext_equal]
pub struct EvidenceDraftModel {
    pub lexical_score_bits: Option<u32>,
    pub lexical_rank: Option<usize>,
    pub lexical_terms: Seq<Seq<char>>,
    pub vectors: Seq<VectorEvidenceModel>,
    pub graph_paths: Seq<GraphPathModel>,
}

impl View for EvidenceDraft {
    type V = EvidenceDraftModel;

    open spec fn view(&self) -> EvidenceDraftModel {
        EvidenceDraftModel {
            lexical_score_bits: self.lexical_score_bits,
            lexical_rank: self.lexical_rank,
            lexical_terms: views(self.lexical_terms@),
            vectors: views(self.vectors@),
            graph_paths: views(self.graph_paths@),
        }
    }
}

impl Replica for EvidenceDraft {
    fn replica(&self) -> (r: Self) {
        EvidenceDraft {
            lexical_score_bits: self.lexical_score_bits,
            lexical_rank: self.lexical_rank,
            lexical_terms: replicas(&self.lexical_terms),
            vectors: replicas(&self.vectors),
            graph_paths: replicas(&self.graph_paths),
        }
    }
}

impl Clone for EvidenceDraft {
    fn clone(&self) -> (r: Self)
        ensures
            r@ == self@,
    {
        self.replica()
    }
}

#[derive(Debug, PartialEq, Eq)]
pub struct RecallEvidence {
    pub node: NodeFacts,
    /// The bits of the score.
    pub score_bits: u32,
    pub lexical_score_bits: Option<u32>,
    pub lexical_rank: Option<usize>,
    pub lexical_terms: Vec<String>,
    pub vectors: Vec<VectorEvidence>,
    pub graph_paths: Vec<GraphPath>,
    pub provenance: Vec<Ulid>,
    pub conflicts: Vec<Ulid>,
    pub verified: bool,
}

/// What a [`RecallEvidence`] holds.
#[verifier::ext_equal]
pub struct RecallEvidenceModel {
    pub node: NodeFactsModel,
    pub score_bits: u32,
    pub lexical_score_bits: Option<u32>,
    pub lexical_rank: Option<usize>,
    pub lexical_terms: Seq<Seq<char>>,
    pub vectors: Seq<VectorEvidenceModel>,
    pub graph_paths: Seq<GraphPathModel>,
    pub provenance: Seq<Ulid>,
    pub conflicts: Seq<Ulid>,
    pub verified: bool,
}

impl View for RecallEvidence {
    type V = RecallEvidenceModel;

    open spec fn view(&self) -> RecallEvidenceModel {
        RecallEvidenceModel {
            node: self.node@,
            score_bits: self.score_bits,
            lexical_score_bits: self.lexical_score_bits,
            lexical_rank: self.lexical_rank,
            lexical_terms: views(self.lexical_terms@),
            vectors: views(self.vectors@),
            graph_paths: views(self.graph_paths@),
            provenance: self.provenance@,
            conflicts: self.conflicts@,
            verified: self.verified,
        }
    }
}

impl Replica for RecallEvidence {
    fn replica(&self) -> (r: Self) {
        RecallEvidence {
            node: self.node.replica(),
            score_bits: self.score_bits,
            lexical_score_bits: self.lexical_score_bits,
            lexical_rank: self.lexical_rank,
            lexical_terms: replicas(&self.lexical_terms),
            vectors: replicas(&self.vectors),
            graph_paths: replicas(&self.graph_paths),
            provenance: copies(&self.provenance),
            conflicts: copies(&self.conflicts),
            verified: self.verified,
        }
    }
}

impl Clone for RecallEvidence {
    fn clone(&self) -> (r: Self)
        ensures
            r@ == self@,
    {
        self.replica()
    }
}

/// A memory that the words of a query were found in.
#[derive(Debug, PartialEq, Eq)]
pub struct LexicalHit {
    pub node_id: Ulid,
    /// The bits of the score.
    pub score_bits: u32,
    pub terms: Vec<String>,
}

/// What a [`LexicalHit`] holds.
#[verifier::ext_equal]
pub struct LexicalHitModel {
    pub node_id: Ulid,
    pub score_bits: u32,
    pub terms: Seq<Seq<char>>,
}

impl View for LexicalHit {
    type V = LexicalHitModel;

    open spec fn view(&self) -> LexicalHitModel {
        LexicalHitModel {
            node_id: self.node_id,
            score_bits: self.score_bits,
            terms: views(self.terms@),
        }
    }
}

impl Replica for LexicalHit {
    fn replica(&self) -> (r: Self) {
        LexicalHit {
            node_id: self.node_id,
            score_bits: self.score_bits,
            terms: replicas(&self.terms),
        }
    }
}

impl Clone for LexicalHit {
    fn clone(&self) -> (r: Self)
        ensures
            r@ == self@,
    {
        self.replica()
    }
}

/// A memory near a query in the space of one profile.
#[derive(Clone, Copy, Debug, PartialEq, Eq, Structural)]
pub struct VectorHit {
    pub node_id: Ulid,
    /// The bits of the similarity.
    pub similarity_bits: u32,
}

impl View for VectorHit {
    type V = VectorHit;

    open spec fn view(&self) -> VectorHit {
        *self
    }
}

/// The memories near a query in the space of one profile, the nearest first.
#[derive(Debug, PartialEq, Eq)]
pub struct VectorHits {
    pub profile_id: String,
    pub model: String,
    pub hits: Vec<VectorHit>,
}

/// What a [`VectorHits`] holds.
#[verifier::ext_equal]
pub struct VectorHitsModel {
    pub profile_id: Seq<char>,
    pub model: Seq<char>,
    pub hits: Seq<VectorHit>,
}

impl View for VectorHits {
    type V = VectorHitsModel;

    open spec fn view(&self) -> VectorHitsModel {
        VectorHitsModel {
            profile_id: self.profile_id@,
            model: self.model@,
            hits: self.hits@,
        }
    }
}

impl Replica for VectorHits {
    fn replica(&self) -> (r: Self) {
        VectorHits {
            profile_id: self.profile_id.clone(),
            model: self.model.clone(),
            hits: copies(&self.hits),
        }
    }
}

impl Clone for VectorHits {
    fn clone(&self) -> (r: Self)
        ensures
            r@ == self@,
    {
        self.replica()
    }
}

#[derive(Debug, PartialEq, Eq)]
pub enum RecallStatus {
    Deterministic,
    Adjudicated,
    Degraded {
        reason: String,
    },
}

/// What a [`RecallStatus`] holds.
#[verifier::ext_equal]
pub enum RecallStatusModel {
    Deterministic,
    Adjudicated,
    Degraded { reason: Seq<char> },
}

impl View for RecallStatus {
    type V = RecallStatusModel;

    open spec fn view(&self) -> RecallStatusModel {
        match *self {
            RecallStatus::Deterministic => RecallStatusModel::Deterministic,
            RecallStatus::Adjudicated => RecallStatusModel::Adjudicated,
            RecallStatus::Degraded { reason } => RecallStatusModel::Degraded {
                reason: reason@,
            },
        }
    }
}

impl Replica for RecallStatus {
    fn replica(&self) -> (r: Self) {
        match self {
            RecallStatus::Deterministic => RecallStatus::Deterministic,
            RecallStatus::Adjudicated => RecallStatus::Adjudicated,
            RecallStatus::Degraded { reason } => RecallStatus::Degraded {
                reason: reason.clone(),
            },
        }
    }
}

impl Clone for RecallStatus {
    fn clone(&self) -> (r: Self)
        ensures
            r@ == self@,
    {
        self.replica()
    }
}

} // verus!
