//! Recall requests, citations and cases.
use vstd::prelude::*;
use crate::context::TemporalFacts;
use crate::ids::{EraId, EvidenceId, RecallCaseId};
use crate::records::artifact::ArtifactEvidenceProvenance;
use crate::records::evidence::{
    EvidenceClass, EvidenceLifecycleTruth, EvidenceReceipt, RecordRef, Scope,
};
use crate::table::{Replica, copies, replicas, views};

verus! {

#[derive(Debug, PartialEq, Eq)]
pub struct RecallQuery {
    pub text: String,
    pub scopes: Vec<Scope>,
    pub observed_from_ms: Option<i64>,
    /// Exclusive upper bound.
    pub observed_to_ms: Option<i64>,
    pub valid_at_ms: Option<i64>,
    pub limit: usize,
}

/// What a [`RecallQuery`] holds.
#[verifier::ext_equal]
pub struct RecallQueryModel {
    pub text: Seq<char>,
    pub scopes: Seq<Scope>,
    pub observed_from_ms: Option<i64>,
    pub observed_to_ms: Option<i64>,
    pub valid_at_ms: Option<i64>,
    pub limit: usize,
}

impl View for RecallQuery {
    type V = RecallQueryModel;

    open spec fn view(&self) -> RecallQueryModel {
        RecallQueryModel {
            text: self.text@,
            scopes: self.scopes@,
            observed_from_ms: self.observed_from_ms,
            observed_to_ms: self.observed_to_ms,
            valid_at_ms: self.valid_at_ms,
            limit: self.limit,
        }
    }
}

impl Replica for RecallQuery {
    fn replica(&self) -> (r: Self) {
        RecallQuery {
            text: self.text.clone(),
            scopes: copies(&self.scopes),
            observed_from_ms: self.observed_from_ms,
            observed_to_ms: self.observed_to_ms,
            valid_at_ms: self.valid_at_ms,
            limit: self.limit,
        }
    }
}

impl Clone for RecallQuery {
    fn clone(&self) -> (r: Self)
        ensures
            r@ == self@,
    {
        self.replica()
    }
}

#[derive(Debug, PartialEq, Eq)]
pub struct RecallCitation {
    pub record: RecordRef,
    pub revision: u64,
    pub scope: Scope,
    pub temporal: TemporalFacts,
    pub evidence_ids: Vec<EvidenceId>,
    pub evidence: Vec<RecallEvidenceCitation>,
    pub text: String,
    pub exact_match: bool,
    pub matched_term_count: u32,
}

/// What a [`RecallCitation`] holds.
#[verifier::ext_equal]
pub struct RecallCitationModel {
    pub record: RecordRef,
    pub revision: u64,
    pub scope: Scope,
    pub temporal: TemporalFacts,
    pub evidence_ids: Seq<EvidenceId>,
    pub evidence: Seq<RecallEvidenceCitation>,
    pub text: Seq<char>,
    pub exact_match: bool,
    pub matched_term_count: u32,
}

impl View for RecallCitation {
    type V = RecallCitationModel;

    open spec fn view(&self) -> RecallCitationModel {
        RecallCitationModel {
            record: self.record,
            revision: self.revision,
            scope: self.scope,
            temporal: self.temporal,
            evidence_ids: self.evidence_ids@,
            evidence: self.evidence@,
            text: self.text@,
            exact_match: self.exact_match,
            matched_term_count: self.matched_term_count,
        }
    }
}

impl Replica for RecallCitation {
    fn replica(&self) -> (r: Self) {
        RecallCitation {
            record: self.record,
            revision: self.revision,
            scope: self.scope,
            temporal: self.temporal,
            evidence_ids: copies(&self.evidence_ids),
            evidence: copies(&self.evidence),
            text: self.text.clone(),
            exact_match: self.exact_match,
            matched_term_count: self.matched_term_count,
        }
    }
}

impl Clone for RecallCitation {
    fn clone(&self) -> (r: Self)
        ensures
            r@ == self@,
    {
        self.replica()
    }
}

#[derive(Clone, Copy, Debug, PartialEq, Eq)]
pub struct RecallEvidenceCitation {
    pub id: EvidenceId,
    pub revision: u64,
    pub class: EvidenceClass,
    pub lifecycle: EvidenceLifecycleTruth,
    pub artifact: Option<ArtifactEvidenceProvenance>,
}

impl View for RecallEvidenceCitation {
    type V = RecallEvidenceCitation;

    open spec fn view(&self) -> RecallEvidenceCitation {
        *self
    }
}

#[derive(Debug, PartialEq, Eq)]
pub struct RecallResult {
    pub case_id: RecallCaseId,
    pub citations: Vec<RecallCitation>,
}

/// What a [`RecallResult`] holds.
#[verifier::ext_equal]
pub struct RecallResultModel {
    pub case_id: RecallCaseId,
    pub citations: Seq<RecallCitationModel>,
}

impl View for RecallResult {
    type V = RecallResultModel;

    open spec fn view(&self) -> RecallResultModel {
        RecallResultModel {
            case_id: self.case_id,
            citations: views(self.citations@),
        }
    }
}

impl Replica for RecallResult {
    fn replica(&self) -> (r: Self) {
        RecallResult {
            case_id: self.case_id,
            citations: replicas(&self.citations),
        }
    }
}

impl Clone for RecallResult {
    fn clone(&self) -> (r: Self)
        ensures
            r@ == self@,
    {
        self.replica()
    }
}

#[derive(Debug, PartialEq, Eq)]
pub struct BeginTurnRecallResult {
    pub evidence: EvidenceReceipt,
    pub recall: RecallResult,
}

/// What a [`BeginTurnRecallResult`] holds.
#[verifier::ext_equal]
pub struct BeginTurnRecallResultModel {
    pub evidence: EvidenceReceipt,
    pub recall: RecallResultModel,
}

impl View for BeginTurnRecallResult {
    type V = BeginTurnRecallResultModel;

    open spec fn view(&self) -> BeginTurnRecallResultModel {
        BeginTurnRecallResultModel {
            evidence: self.evidence,
            recall: self.recall@,
        }
    }
}

impl Replica for BeginTurnRecallResult {
    fn replica(&self) -> (r: Self) {
        BeginTurnRecallResult {
            evidence: self.evidence,
            recall: self.recall.replica(),
        }
    }
}

impl Clone for BeginTurnRecallResult {
    fn clone(&self) -> (r: Self)
        ensures
            r@ == self@,
    {
        self.replica()
    }
}

#[derive(Clone, Copy, Debug, PartialEq, Eq, Structural)]
pub struct RecallCaseCandidate {
    pub record: RecordRef,
    pub revision: u64,
    pub rank: u32,
    pub exact_match: bool,
    pub matched_term_count: u32,
}

impl View for RecallCaseCandidate {
    type V = RecallCaseCandidate;

    open spec fn view(&self) -> RecallCaseCandidate {
        *self
    }
}

/// Structural trace only: no query, excerpt, terms, or free-form rationale.
#[derive(Debug, PartialEq, Eq)]
pub struct RecallCase {
    pub id: RecallCaseId,
    pub revision: u64,
    pub era_id: EraId,
    pub query_digest: [u8; 32],
    pub scopes: Vec<Scope>,
    pub candidates: Vec<RecallCaseCandidate>,
    pub recorded_at_ms: i64,
}

/// What a [`RecallCase`] holds.
#[verifier::ext_equal]
pub struct RecallCaseModel {
    pub id: RecallCaseId,
    pub revision: u64,
    pub era_id: EraId,
    pub query_digest: [u8; 32],
    pub scopes: Seq<Scope>,
    pub candidates: Seq<RecallCaseCandidate>,
    pub recorded_at_ms: i64,
}

impl View for RecallCase {
    type V = RecallCaseModel;

    open spec fn view(&self) -> RecallCaseModel {
        RecallCaseModel {
            id: self.id,
            revision: self.revision,
            era_id: self.era_id,
            query_digest: self.query_digest,
            scopes: self.scopes@,
            candidates: self.candidates@,
            recorded_at_ms: self.recorded_at_ms,
        }
    }
}

impl Replica for RecallCase {
    fn replica(&self) -> (r: Self) {
        RecallCase {
            id: self.id,
            revision: self.revision,
            era_id: self.era_id,
            query_digest: self.query_digest,
            scopes: copies(&self.scopes),
            candidates: copies(&self.candidates),
            recorded_at_ms: self.recorded_at_ms,
        }
    }
}

impl Clone for RecallCase {
    fn clone(&self) -> (r: Self)
        ensures
            r@ == self@,
    {
        self.replica()
    }
}

#[derive(Clone, Copy, Debug, PartialEq, Eq, Structural)]
pub struct RecordRevisionPin {
    pub record: RecordRef,
    pub revision: u64,
}

impl View for RecordRevisionPin {
    type V = RecordRevisionPin;

    open spec fn view(&self) -> RecordRevisionPin {
        *self
    }
}

#[derive(Clone, Copy, Debug, PartialEq, Eq, Structural)]
pub struct EvidenceRevisionPin {
    pub id: EvidenceId,
    pub revision: u64,
}

impl View for EvidenceRevisionPin {
    type V = EvidenceRevisionPin;

    open spec fn view(&self) -> EvidenceRevisionPin {
        *self
    }
}

} // verus!
