//! Configured agents and embedding profiles.
use vstd::prelude::*;
use crate::ids::Ulid;
use crate::table::{Replica, copies, opt_replica, opt_view, replicas, views};

verus! {

#[derive(Clone, Copy, Debug, PartialEq, Eq, Structural)]
pub enum AgentRole {
    Dreamer,
    Lawyer,
}

impl View for AgentRole {
    type V = AgentRole;

    open spec fn view(&self) -> AgentRole {
        *self
    }
}

#[derive(Clone, Copy, Debug, PartialEq, Eq, Structural)]
pub enum EmbeddingDistance {
    Cosine,
    Dot,
    Euclidean,
}

impl View for EmbeddingDistance {
    type V = EmbeddingDistance;

    open spec fn view(&self) -> EmbeddingDistance {
        *self
    }
}

#[derive(Clone, Copy, Debug, PartialEq, Eq, Structural)]
pub enum SupportedContent {
    Text,
    Json,
    Blob,
}

impl View for SupportedContent {
    type V = SupportedContent;

    open spec fn view(&self) -> SupportedContent {
        *self
    }
}

#[derive(Debug, PartialEq, Eq)]
pub struct EmbeddingProfile {
    pub id: String,
    pub client_id: String,
    pub model: String,
    pub model_revision: String,
    pub dimension: u32,
    pub distance: EmbeddingDistance,
    pub supported_content: Vec<SupportedContent>,
    pub supported_mime_types: Vec<String>,
    /// The bits of the weight, a binary fraction of single precision.
    pub weight_bits: u32,
}

/// What a [`EmbeddingProfile`] holds.
#[verifier::ext_equal]
pub struct EmbeddingProfileModel {
    pub id: Seq<char>,
    pub client_id: Seq<char>,
    pub model: Seq<char>,
    pub model_revision: Seq<char>,
    pub dimension: u32,
    pub distance: EmbeddingDistance,
    pub supported_content: Seq<SupportedContent>,
    pub supported_mime_types: Seq<Seq<char>>,
    pub weight_bits: u32,
}

impl View for EmbeddingProfile {
    type V = EmbeddingProfileModel;

    open spec fn view(&self) -> EmbeddingProfileModel {
        EmbeddingProfileModel {
            id: self.id@,
            client_id: self.client_id@,
            model: self.model@,
            model_revision: self.model_revision@,
            dimension: self.dimension,
            distance: self.distance,
            supported_content: self.supported_content@,
            supported_mime_types: views(self.supported_mime_types@),
            weight_bits: self.weight_bits,
        }
    }
}

impl Replica for EmbeddingProfile {
    fn replica(&self) -> (r: Self) {
        EmbeddingProfile {
            id: self.id.clone(),
            client_id: self.client_id.clone(),
            model: self.model.clone(),
            model_revision: self.model_revision.clone(),
            dimension: self.dimension,
            distance: self.distance,
            supported_content: copies(&self.supported_content),
            supported_mime_types: replicas(&self.supported_mime_types),
            weight_bits: self.weight_bits,
        }
    }
}

impl Clone for EmbeddingProfile {
    fn clone(&self) -> (r: Self)
        ensures
            r@ == self@,
    {
        self.replica()
    }
}

#[derive(Clone, Copy, Debug, PartialEq, Eq, Structural)]
pub enum LawyerFailureMode {
    ReturnDeterministic,
    FailClosed,
}

impl View for LawyerFailureMode {
    type V = LawyerFailureMode;

    open spec fn view(&self) -> LawyerFailureMode {
        *self
    }
}

#[derive(Debug, PartialEq, Eq)]
pub struct LawyerProfile {
    pub id: String,
    pub client_id: String,
    pub agent_id: String,
    pub model_id: String,
    pub prompt_version: String,
    pub rule_set: String,
    pub evidence_limit: usize,
    pub failure_mode: LawyerFailureMode,
}

/// What a [`LawyerProfile`] holds.
#[verifier::ext_equal]
pub struct LawyerProfileModel {
    pub id: Seq<char>,
    pub client_id: Seq<char>,
    pub agent_id: Seq<char>,
    pub model_id: Seq<char>,
    pub prompt_version: Seq<char>,
    pub rule_set: Seq<char>,
    pub evidence_limit: usize,
    pub failure_mode: LawyerFailureMode,
}

impl View for LawyerProfile {
    type V = LawyerProfileModel;

    open spec fn view(&self) -> LawyerProfileModel {
        LawyerProfileModel {
            id: self.id@,
            client_id: self.client_id@,
            agent_id: self.agent_id@,
            model_id: self.model_id@,
            prompt_version: self.prompt_version@,
            rule_set: self.rule_set@,
            evidence_limit: self.evidence_limit,
            failure_mode: self.failure_mode,
        }
    }
}

impl Replica for LawyerProfile {
    fn replica(&self) -> (r: Self) {
        LawyerProfile {
            id: self.id.clone(),
            client_id: self.client_id.clone(),
            agent_id: self.agent_id.clone(),
            model_id: self.model_id.clone(),
            prompt_version: self.prompt_version.clone(),
            rule_set: self.rule_set.clone(),
            evidence_limit: self.evidence_limit,
            failure_mode: self.failure_mode,
        }
    }
}

impl Clone for LawyerProfile {
    fn clone(&self) -> (r: Self)
        ensures
            r@ == self@,
    {
        self.replica()
    }
}

#[derive(Debug, PartialEq, Eq)]
pub struct DreamProfile {
    pub id: String,
    pub revision: String,
    pub client_id: String,
    pub agent_id: String,
    pub model_id: String,
    pub prompt_version: String,
    /// The JSON text of the schema.
    pub response_schema: String,
    pub turn_end_threshold: usize,
    pub max_nodes: usize,
    pub max_input_bytes: usize,
}

/// What a [`DreamProfile`] holds.
#[verifier::ext_equal]
pub struct DreamProfileModel {
    pub id: Seq<char>,
    pub revision: Seq<char>,
    pub client_id: Seq<char>,
    pub agent_id: Seq<char>,
    pub model_id: Seq<char>,
    pub prompt_version: Seq<char>,
    pub response_schema: Seq<char>,
    pub turn_end_threshold: usize,
    pub max_nodes: usize,
    pub max_input_bytes: usize,
}

impl View for DreamProfile {
    type V = DreamProfileModel;

    open spec fn view(&self) -> DreamProfileModel {
        DreamProfileModel {
            id: self.id@,
            revision: self.revision@,
            client_id: self.client_id@,
            agent_id: self.agent_id@,
            model_id: self.model_id@,
            prompt_version: self.prompt_version@,
            response_schema: self.response_schema@,
            turn_end_threshold: self.turn_end_threshold,
            max_nodes: self.max_nodes,
            max_input_bytes: self.max_input_bytes,
        }
    }
}

impl Replica for DreamProfile {
    fn replica(&self) -> (r: Self) {
        DreamProfile {
            id: self.id.clone(),
            revision: self.revision.clone(),
            client_id: self.client_id.clone(),
            agent_id: self.agent_id.clone(),
            model_id: self.model_id.clone(),
            prompt_version: self.prompt_version.clone(),
            response_schema: self.response_schema.clone(),
            turn_end_threshold: self.turn_end_threshold,
            max_nodes: self.max_nodes,
            max_input_bytes: self.max_input_bytes,
        }
    }
}

impl Clone for DreamProfile {
    fn clone(&self) -> (r: Self)
        ensures
            r@ == self@,
    {
        self.replica()
    }
}

#[derive(Debug, PartialEq, Eq)]
pub struct MemoryProfile {
    pub version: u32,
    pub revision: u64,
    pub embedding_profiles: Vec<EmbeddingProfile>,
    pub dreamer: Option<DreamProfile>,
    pub lawyer: Option<LawyerProfile>,
}

/// What a [`MemoryProfile`] holds.
#[verifier::ext_equal]
pub struct MemoryProfileModel {
    pub version: u32,
    pub revision: u64,
    pub embedding_profiles: Seq<EmbeddingProfileModel>,
    pub dreamer: Option<DreamProfileModel>,
    pub lawyer: Option<LawyerProfileModel>,
}

impl View for MemoryProfile {
    type V = MemoryProfileModel;

    open spec fn view(&self) -> MemoryProfileModel {
        MemoryProfileModel {
            version: self.version,
            revision: self.revision,
            embedding_profiles: views(self.embedding_profiles@),
            dreamer: opt_view(self.dreamer),
            lawyer: opt_view(self.lawyer),
        }
    }
}

impl Replica for MemoryProfile {
    fn replica(&self) -> (r: Self) {
        MemoryProfile {
            version: self.version,
            revision: self.revision,
            embedding_profiles: replicas(&self.embedding_profiles),
            dreamer: opt_replica(&self.dreamer),
            lawyer: opt_replica(&self.lawyer),
        }
    }
}

impl Clone for MemoryProfile {
    fn clone(&self) -> (r: Self)
        ensures
            r@ == self@,
    {
        self.replica()
    }
}

#[derive(Clone, Copy, Debug, PartialEq, Eq, Structural)]
pub enum ProjectionState {
    Pending,
    Ready,
    Failed,
}

impl View for ProjectionState {
    type V = ProjectionState;

    open spec fn view(&self) -> ProjectionState {
        *self
    }
}

#[derive(Debug, PartialEq, Eq)]
pub struct ProjectionStatus {
    pub node_id: Ulid,
    pub node_revision: u64,
    pub profile_id: String,
    pub state: ProjectionState,
    pub attempts: u32,
    pub updated_at_ms: i64,
    pub last_error: Option<String>,
    pub searchable_text: Option<String>,
}

/// What a [`ProjectionStatus`] holds.
#[verifier::ext_equal]
pub struct ProjectionStatusModel {
    pub node_id: Ulid,
    pub node_revision: u64,
    pub profile_id: Seq<char>,
    pub state: ProjectionState,
    pub attempts: u32,
    pub updated_at_ms: i64,
    pub last_error: Option<Seq<char>>,
    pub searchable_text: Option<Seq<char>>,
}

impl View for ProjectionStatus {
    type V = ProjectionStatusModel;

    open spec fn view(&self) -> ProjectionStatusModel {
        ProjectionStatusModel {
            node_id: self.node_id,
            node_revision: self.node_revision,
            profile_id: self.profile_id@,
            state: self.state,
            attempts: self.attempts,
            updated_at_ms: self.updated_at_ms,
            last_error: opt_view(self.last_error),
            searchable_text: opt_view(self.searchable_text),
        }
    }
}

impl Replica for ProjectionStatus {
    fn replica(&self) -> (r: Self) {
        ProjectionStatus {
            node_id: self.node_id,
            node_revision: self.node_revision,
            profile_id: self.profile_id.clone(),
            state: self.state,
            attempts: self.attempts,
            updated_at_ms: self.updated_at_ms,
            last_error: opt_replica(&self.last_error),
            searchable_text: opt_replica(&self.searchable_text),
        }
    }
}

impl Clone for ProjectionStatus {
    fn clone(&self) -> (r: Self)
        ensures
            r@ == self@,
    {
        self.replica()
    }
}

impl Default for LawyerFailureMode {
    fn default() -> (r: Self)
        ensures
            r == LawyerFailureMode::ReturnDeterministic,
    {
        LawyerFailureMode::ReturnDeterministic
    }
}

} // verus!
