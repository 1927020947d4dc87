//! What is asked of a recall, and whether there is anything to look for.
use vstd::prelude::*;
use crate::changes::unit_weight;
use crate::clock::now_ms;
use crate::recall::considered;
use crate::records::graph::{RecallFilter, RecallFilterModel};
use crate::table::{Replica, opt_replica, opt_view, replicas, views};

verus! {

pub const DEFAULT_RECALL_LIMIT: usize = 10;

pub const DEFAULT_CANDIDATE_LIMIT: usize = 50;

/// A question to the memories.
#[derive(Debug, PartialEq, Eq)]
pub struct RecallRequest {
    pub query: String,
    pub as_of_ms: i64,
    pub limit: usize,
    pub candidate_limit: usize,
    pub vector_profiles: Vec<String>,
    /// The least similarity that counts, by its bits.
    pub min_vector_similarity_bits: Option<u32>,
    pub lexical: bool,
    pub graph_depth: usize,
    pub lawyer_profile: Option<String>,
    pub filter: RecallFilter,
}

/// What a [`RecallRequest`] holds.
#[verifier::ext_equal]
pub struct RecallRequestModel {
    pub query: Seq<char>,
    pub as_of_ms: i64,
    pub limit: usize,
    pub candidate_limit: usize,
    pub vector_profiles: Seq<Seq<char>>,
    pub min_vector_similarity_bits: Option<u32>,
    pub lexical: bool,
    pub graph_depth: usize,
    pub lawyer_profile: Option<Seq<char>>,
    pub filter: RecallFilterModel,
}

impl View for RecallRequest {
    type V = RecallRequestModel;

    open spec fn view(&self) -> RecallRequestModel {
        RecallRequestModel {
            query: self.query@,
            as_of_ms: self.as_of_ms,
            limit: self.limit,
            candidate_limit: self.candidate_limit,
            vector_profiles: views(self.vector_profiles@),
            min_vector_similarity_bits: self.min_vector_similarity_bits,
            lexical: self.lexical,
            graph_depth: self.graph_depth,
            lawyer_profile: opt_view(self.lawyer_profile),
            filter: self.filter@,
        }
    }
}

impl Replica for RecallRequest {
    fn replica(&self) -> (r: Self) {
        RecallRequest {
            query: self.query.replica(),
            as_of_ms: self.as_of_ms,
            limit: self.limit,
            candidate_limit: self.candidate_limit,
            vector_profiles: replicas(&self.vector_profiles),
            min_vector_similarity_bits: self.min_vector_similarity_bits,
            lexical: self.lexical,
            graph_depth: self.graph_depth,
            lawyer_profile: opt_replica(&self.lawyer_profile),
            filter: self.filter.replica(),
        }
    }
}

impl Clone for RecallRequest {
    fn clone(&self) -> (r: Self)
        ensures
            r@ == self@,
    {
        self.replica()
    }
}

/// Why a question cannot be answered.
#[derive(Clone, Copy, Debug, PartialEq, Eq, Structural)]
pub enum RecallFault {
    /// The least similarity is no number between zero and one.
    Similarity,
}

impl RecallRequestModel {
    /// A question with nothing said but what is looked for, as of an instant.
    pub open spec fn plain(query: Seq<char>, as_of_ms: i64) -> RecallRequestModel {
        RecallRequestModel {
            query,
            as_of_ms,
            limit: DEFAULT_RECALL_LIMIT,
            candidate_limit: DEFAULT_CANDIDATE_LIMIT,
            vector_profiles: Seq::empty(),
            min_vector_similarity_bits: None,
            lexical: true,
            graph_depth: 1,
            lawyer_profile: None,
            filter: RecallFilterModel {
                kinds: Seq::empty(),
                metadata: Seq::empty(),
                require_verified: false,
                allow_unverified_metadata_keys: Seq::empty(),
            },
        }
    }

    /// Whether anything is to be looked for, if the question can be answered.
    pub open spec fn opening(self) -> Result<bool, RecallFault> {
        if self.min_vector_similarity_bits is Some && !unit_weight(self.min_vector_similarity_bits->0) {
            Err(RecallFault::Similarity)
        } else {
            Ok(self.limit > 0 && self.candidate_limit > 0)
        }
    }

    /// How many memories are considered: no fewer than are to be answered with.
    pub open spec fn considered(self) -> usize {
        if self.candidate_limit >= self.limit {
            self.candidate_limit
        } else {
            self.limit
        }
    }
}

impl RecallRequest {
    /// A question with nothing said but what is looked for, as of now.
    pub fn new(query: String) -> (r: Self)
        ensures
            r@ == RecallRequestModel::plain(query@, r.as_of_ms),
            r.as_of_ms >= 0,
    {
        let r = RecallRequest {
            query,
            as_of_ms: now_ms(),
            limit: DEFAULT_RECALL_LIMIT,
            candidate_limit: DEFAULT_CANDIDATE_LIMIT,
            vector_profiles: Vec::new(),
            min_vector_similarity_bits: None,
            lexical: true,
            graph_depth: 1,
            lawyer_profile: None,
            filter: RecallFilter {
                kinds: Vec::new(),
                metadata: Vec::new(),
                require_verified: false,
                allow_unverified_metadata_keys: Vec::new(),
            },
        };
        assert(r@ =~~= RecallRequestModel::plain(query@, r.as_of_ms));
        r
    }

    pub fn start(&self) -> (r: Result<bool, RecallFault>)
        ensures
            r == self@.opening(),
    {
        if let Some(bits) = self.min_vector_similarity_bits {
            if !(bits <= 0x3f80_0000 || bits == 0x8000_0000) {
                return Err(RecallFault::Similarity);
            }
        }
        Ok(self.limit > 0 && self.candidate_limit > 0)
    }

    pub fn considered(&self) -> (r: usize)
        ensures
            r == self@.considered(),
    {
        if self.candidate_limit >= self.limit {
            self.candidate_limit
        } else {
            self.limit
        }
    }
}

} // verus!
