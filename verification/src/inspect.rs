//! Reading records back.
use vstd::prelude::*;
use crate::digest::{content_hash, same_digest};
use crate::fault::{CorruptFault, MemoryError, MemoryResult, corrupt};
use crate::ids::{
    ActivationTraceId, ArtifactCollectionId, ArtifactPassageId, ArtifactSnapshotId, ClaimId,
    EntityId, EvidenceId, ProposalId, ProposalReviewCaseId, RelationId, Ulid,
};
use crate::keys::RevisionKey;
use crate::records::artifact::{
    ArtifactCollectionRecord, ArtifactCollectionRecordModel, ArtifactEvidenceProvenance,
    ArtifactPassageRecord, ArtifactPassageRecordModel, ArtifactSnapshotBlob,
    ArtifactSnapshotBlobModel, ArtifactSnapshotRecord, ArtifactSnapshotRecordModel,
};
use crate::records::claim::{
    ClaimRecord, ClaimRecordModel, EntityRecord, EntityRecordModel, InspectedRecord,
    InspectedRecordModel, SemanticRelationRecord, SemanticRelationRecordModel,
};
use crate::records::evidence::{
    EvidenceRecord, EvidenceRecordModel, RecordRef, RecordState, RevisionSelector, Scope,
};
use crate::records::proposal::{
    ProposalRecord, ProposalRecordModel, ProposalReviewCase, ProposalReviewCaseModel,
};
use crate::records::relation::{ActivationTrace, ActivationTraceModel};
use crate::store::{MemoryDatabase, StoreModel};
use crate::table::{Replica, copies, opt_replica, opt_view, replicas, views, views_of_empty};

verus! {

/// The value filed under a key, if there is one.
pub open spec fn lookup<K, V>(map: Map<K, V>, key: K) -> Option<V> {
    if map.contains_key(key) {
        Some(map[key])
    } else {
        None
    }
}

/// What an answer shows.
pub open spec fn shown<T: View>(answer: MemoryResult<T>) -> MemoryResult<T::V> {
    match answer {
        Ok(value) => Ok(value@),
        Err(error) => Err(error),
    }
}

/// What an optional answer shows.
pub open spec fn shown_option<T: View>(answer: MemoryResult<Option<T>>) -> MemoryResult<Option<T::V>> {
    match answer {
        Ok(Some(value)) => Ok(Some(value@)),
        Ok(None) => Ok(None),
        Err(error) => Err(error),
    }
}

/// What a list of answers shows.
pub open spec fn shown_list<T: View>(answer: MemoryResult<Vec<T>>) -> MemoryResult<Seq<T::V>> {
    match answer {
        Ok(value) => Ok(views(value@)),
        Err(error) => Err(error),
    }
}

pub open spec fn revision_of(id: Ulid, revision: u64) -> RevisionKey {
    RevisionKey { id, revision }
}

impl StoreModel {
    /// The current revision of a record.
    pub open spec fn head(self, record: RecordRef) -> Option<u64> {
        lookup(self.heads, record)
    }

    /// The text of a record, unless that revision of it was purged.
    #[verifier::opaque]
    pub open spec fn text_unless_purged(self, record: RecordRef, state: RecordState) -> Option<Seq<char>> {
        if state == RecordState::Purged {
            None
        } else {
            lookup(self.texts, record)
        }
    }

    /// Evidence at one revision of its availability.
    #[verifier::opaque]
    pub open spec fn evidence_at(self, id: EvidenceId, revision: u64) -> Option<EvidenceRecordModel> {
        match (lookup(self.evidence, id), lookup(self.evidence_availability, revision_of(id.0, revision))) {
            (Some(header), Some(availability)) => Some(
                EvidenceRecordModel {
                    header,
                    availability,
                    text: self.text_unless_purged(RecordRef::Evidence(id), availability.state),
                },
            ),
            _ => None,
        }
    }

    #[verifier::opaque]
    pub open spec fn inspect_evidence(self, id: EvidenceId) -> MemoryResult<Option<EvidenceRecordModel>> {
        if !self.evidence.contains_key(id) {
            Ok(None)
        } else {
            match self.head(RecordRef::Evidence(id)) {
                None => corrupt(CorruptFault::HeadMissing(RecordRef::Evidence(id))),
                Some(revision) => match self.evidence_at(id, revision) {
                    None => corrupt(CorruptFault::RevisionMissing(RecordRef::Evidence(id), revision)),
                    Some(record) => Ok(Some(record)),
                },
            }
        }
    }

    /// A claim at one revision.
    #[verifier::opaque]
    pub open spec fn claim_at(self, id: ClaimId, revision: u64) -> Option<ClaimRecordModel> {
        match lookup(self.claims, revision_of(id.0, revision)) {
            Some(header) => Some(
                ClaimRecordModel {
                    header,
                    proposition: self.text_unless_purged(RecordRef::Claim(id), header.state),
                },
            ),
            None => None,
        }
    }

    #[verifier::opaque]
    pub open spec fn inspect_claim(self, id: ClaimId) -> MemoryResult<Option<ClaimRecordModel>> {
        match self.head(RecordRef::Claim(id)) {
            None => Ok(None),
            Some(revision) => match self.claim_at(id, revision) {
                None => corrupt(CorruptFault::RevisionMissing(RecordRef::Claim(id), revision)),
                Some(record) => Ok(Some(record)),
            },
        }
    }

    /// An entity at one revision.
    #[verifier::opaque]
    pub open spec fn entity_at(self, id: EntityId, revision: u64) -> Option<EntityRecordModel> {
        match lookup(self.entities, revision_of(id.0, revision)) {
            Some(header) => Some(
                match lookup(self.entity_payloads, id) {
                    Some(payload) => EntityRecordModel {
                        header,
                        canonical_name: Some(payload.canonical_name),
                        aliases: payload.aliases,
                    },
                    None => EntityRecordModel { header, canonical_name: None, aliases: Seq::empty() },
                },
            ),
            None => None,
        }
    }

    #[verifier::opaque]
    pub open spec fn inspect_entity(self, id: EntityId) -> MemoryResult<Option<EntityRecordModel>> {
        match self.head(RecordRef::Entity(id)) {
            None => Ok(None),
            Some(revision) => match self.entity_at(id, revision) {
                None => corrupt(CorruptFault::RevisionMissing(RecordRef::Entity(id), revision)),
                Some(record) => Ok(Some(record)),
            },
        }
    }

    /// A semantic relation at one revision.
    #[verifier::opaque]
    pub open spec fn relation_at(self, id: RelationId, revision: u64) -> Option<SemanticRelationRecordModel> {
        match lookup(self.relations, revision_of(id.0, revision)) {
            Some(header) => {
                let payload = if header.state == RecordState::Purged {
                    None
                } else {
                    lookup(self.relation_payloads, id)
                };
                Some(
                    SemanticRelationRecordModel {
                        header,
                        qualifier: match payload {
                            Some(inner) => inner.qualifier,
                            None => None,
                        },
                        payload_available: payload is Some,
                    },
                )
            },
            None => None,
        }
    }

    #[verifier::opaque]
    pub open spec fn inspect_semantic_relation(self, id: RelationId) -> MemoryResult<
        Option<SemanticRelationRecordModel>,
    > {
        match self.head(RecordRef::SemanticRelation(id)) {
            None => Ok(None),
            Some(revision) => match self.relation_at(id, revision) {
                None => corrupt(CorruptFault::RevisionMissing(RecordRef::SemanticRelation(id), revision)),
                Some(record) => Ok(Some(record)),
            },
        }
    }

    /// A proposal at one revision.
    #[verifier::opaque]
    pub open spec fn proposal_at(self, id: ProposalId, revision: u64) -> Option<ProposalRecordModel> {
        match lookup(self.proposals, revision_of(id.0, revision)) {
            Some(header) => Some(
                match lookup(self.proposal_payloads, id) {
                    Some(payload) => ProposalRecordModel {
                        header,
                        source_evidence: payload.source_evidence,
                        changes: Some(payload.changes),
                    },
                    None => ProposalRecordModel { header, source_evidence: Seq::empty(), changes: None },
                },
            ),
            None => None,
        }
    }

    #[verifier::opaque]
    pub open spec fn inspect_proposal(self, id: ProposalId) -> Option<ProposalRecordModel> {
        match self.head(RecordRef::Proposal(id)) {
            None => None,
            Some(revision) => self.proposal_at(id, revision),
        }
    }

    /// A review of a proposal at one revision.
    #[verifier::opaque]
    pub open spec fn review_at(self, id: ProposalReviewCaseId, revision: u64) -> Option<ProposalReviewCaseModel> {
        match lookup(self.proposal_reviews, revision_of(id.0, revision)) {
            Some(header) => Some(
                ProposalReviewCaseModel {
                    header,
                    findings: match lookup(self.review_payloads, id) {
                        Some(payload) => Some(payload.findings),
                        None => None,
                    },
                },
            ),
            None => None,
        }
    }

    #[verifier::opaque]
    pub open spec fn inspect_proposal_review(self, id: ProposalReviewCaseId) -> Option<ProposalReviewCaseModel> {
        match self.head(RecordRef::ProposalReview(id)) {
            None => None,
            Some(revision) => self.review_at(id, revision),
        }
    }

    /// An artifact collection at one revision of its availability.
    #[verifier::opaque]
    pub open spec fn collection_at(self, id: ArtifactCollectionId, revision: u64) -> Option<
        ArtifactCollectionRecordModel,
    > {
        match (
            lookup(self.artifact_collections, id),
            lookup(self.artifact_collection_availability, revision_of(id.0, revision)),
        ) {
            (Some(header), Some(availability)) => Some(
                ArtifactCollectionRecordModel {
                    header,
                    availability,
                    label: self.text_unless_purged(RecordRef::ArtifactCollection(id), availability.state),
                },
            ),
            _ => None,
        }
    }

    #[verifier::opaque]
    pub open spec fn inspect_artifact_collection(self, id: ArtifactCollectionId) -> MemoryResult<
        Option<ArtifactCollectionRecordModel>,
    > {
        if !self.artifact_collections.contains_key(id) {
            Ok(None)
        } else {
            match self.head(RecordRef::ArtifactCollection(id)) {
                None => corrupt(CorruptFault::HeadMissing(RecordRef::ArtifactCollection(id))),
                Some(revision) => Ok(self.collection_at(id, revision)),
            }
        }
    }

    /// An artifact snapshot at one revision of its availability.
    #[verifier::opaque]
    pub open spec fn snapshot_at(self, id: ArtifactSnapshotId, revision: u64) -> Option<
        ArtifactSnapshotRecordModel,
    > {
        match (
            lookup(self.artifact_snapshots, id),
            lookup(self.artifact_snapshot_availability, revision_of(id.0, revision)),
        ) {
            (Some(header), Some(availability)) => {
                let payload = if availability.state == RecordState::Purged {
                    None
                } else {
                    lookup(self.snapshot_payloads, id)
                };
                Some(
                    ArtifactSnapshotRecordModel {
                        header,
                        availability,
                        media_type: match payload {
                            Some(inner) => Some(inner.media_type),
                            None => None,
                        },
                        content_digest: match payload {
                            Some(inner) => Some(inner.content_digest),
                            None => None,
                        },
                        payload_available: payload is Some,
                    },
                )
            },
            _ => None,
        }
    }

    #[verifier::opaque]
    pub open spec fn inspect_artifact_snapshot(self, id: ArtifactSnapshotId) -> MemoryResult<
        Option<ArtifactSnapshotRecordModel>,
    > {
        if !self.artifact_snapshots.contains_key(id) {
            Ok(None)
        } else {
            match self.head(RecordRef::ArtifactSnapshot(id)) {
                None => corrupt(CorruptFault::HeadMissing(RecordRef::ArtifactSnapshot(id))),
                Some(revision) => Ok(self.snapshot_at(id, revision)),
            }
        }
    }

    /// An artifact passage at one revision of its availability.
    #[verifier::opaque]
    pub open spec fn passage_at(self, id: ArtifactPassageId, revision: u64) -> Option<ArtifactPassageRecordModel> {
        match (
            lookup(self.artifact_passages, id),
            lookup(self.artifact_passage_availability, revision_of(id.0, revision)),
        ) {
            (Some(header), Some(availability)) => Some(
                ArtifactPassageRecordModel {
                    header,
                    availability,
                    text: self.text_unless_purged(RecordRef::ArtifactPassage(id), availability.state),
                },
            ),
            _ => None,
        }
    }

    #[verifier::opaque]
    pub open spec fn inspect_artifact_passage(self, id: ArtifactPassageId) -> MemoryResult<
        Option<ArtifactPassageRecordModel>,
    > {
        if !self.artifact_passages.contains_key(id) {
            Ok(None)
        } else {
            match self.head(RecordRef::ArtifactPassage(id)) {
                None => corrupt(CorruptFault::HeadMissing(RecordRef::ArtifactPassage(id))),
                Some(revision) => Ok(self.passage_at(id, revision)),
            }
        }
    }

    /// The bytes of a snapshot, if its description and they agree.
    #[verifier::opaque]
    pub open spec fn materialized(self, id: ArtifactSnapshotId) -> MemoryResult<Option<ArtifactSnapshotBlobModel>> {
        match self.inspect_artifact_snapshot(id) {
            Err(error) => Err(error),
            Ok(None) => Ok(None),
            Ok(Some(record)) => match (record.media_type, record.content_digest) {
                (Some(media_type), Some(content_digest)) => match lookup(self.artifact_snapshot_blobs, id) {
                    None => corrupt(CorruptFault::SnapshotBlobMissing(id)),
                    Some(bytes) => if bytes.len() == record.header.byte_len && crate::digest::content_digest(bytes)
                        == content_digest {
                        Ok(Some(ArtifactSnapshotBlobModel { id, media_type, content_digest, bytes }))
                    } else {
                        corrupt(CorruptFault::SnapshotBlobMismatch(id))
                    },
                },
                _ => Ok(None),
            },
        }
    }

    /// A shadow activation, while its payload is there.
    #[verifier::opaque]
    pub open spec fn inspect_activation_trace(self, id: ActivationTraceId) -> Option<ActivationTraceModel> {
        match (lookup(self.activation_traces, id), lookup(self.activation_trace_payloads, id)) {
            (Some(header), Some(payload)) => Some(
                ActivationTraceModel {
                    id: header.id,
                    revision: header.revision,
                    era_id: header.era_id,
                    operation_id: header.operation_id,
                    recall_case: header.recall_case,
                    evaluator: header.evaluator,
                    profile: header.profile,
                    input_digest: header.input_digest,
                    candidates: payload.candidates,
                    contributions: payload.contributions,
                    recorded_at_ms: header.recorded_at_ms,
                },
            ),
            _ => None,
        }
    }

    /// A record at its current revision.
    #[verifier::opaque]
    pub open spec fn inspect_head(self, record: RecordRef) -> MemoryResult<Option<InspectedRecordModel>> {
        match record {
            RecordRef::Evidence(id) => match self.inspect_evidence(id) {
                Ok(Some(inner)) => Ok(Some(InspectedRecordModel::Evidence(inner))),
                Ok(None) => Ok(None),
                Err(error) => Err(error),
            },
            RecordRef::Claim(id) => match self.inspect_claim(id) {
                Ok(Some(inner)) => Ok(Some(InspectedRecordModel::Claim(inner))),
                Ok(None) => Ok(None),
                Err(error) => Err(error),
            },
            RecordRef::Entity(id) => match self.inspect_entity(id) {
                Ok(Some(inner)) => Ok(Some(InspectedRecordModel::Entity(inner))),
                Ok(None) => Ok(None),
                Err(error) => Err(error),
            },
            RecordRef::SemanticRelation(id) => match self.inspect_semantic_relation(id) {
                Ok(Some(inner)) => Ok(Some(InspectedRecordModel::SemanticRelation(inner))),
                Ok(None) => Ok(None),
                Err(error) => Err(error),
            },
            RecordRef::Proposal(id) => match self.inspect_proposal(id) {
                Some(inner) => Ok(Some(InspectedRecordModel::Proposal(inner))),
                None => Ok(None),
            },
            RecordRef::ProposalReview(id) => match self.inspect_proposal_review(id) {
                Some(inner) => Ok(Some(InspectedRecordModel::ProposalReview(inner))),
                None => Ok(None),
            },
            RecordRef::ArtifactCollection(id) => match self.inspect_artifact_collection(id) {
                Ok(Some(inner)) => Ok(Some(InspectedRecordModel::ArtifactCollection(inner))),
                Ok(None) => Ok(None),
                Err(error) => Err(error),
            },
            RecordRef::ArtifactSnapshot(id) => match self.inspect_artifact_snapshot(id) {
                Ok(Some(inner)) => Ok(Some(InspectedRecordModel::ArtifactSnapshot(inner))),
                Ok(None) => Ok(None),
                Err(error) => Err(error),
            },
            RecordRef::ArtifactPassage(id) => match self.inspect_artifact_passage(id) {
                Ok(Some(inner)) => Ok(Some(InspectedRecordModel::ArtifactPassage(inner))),
                Ok(None) => Ok(None),
                Err(error) => Err(error),
            },
        }
    }

    /// A record at an exact revision.
    #[verifier::opaque]
    pub open spec fn inspect_revision(self, record: RecordRef, revision: u64) -> Option<InspectedRecordModel> {
        match record {
            RecordRef::Evidence(id) => match self.evidence_at(id, revision) {
                Some(inner) => Some(InspectedRecordModel::Evidence(inner)),
                None => None,
            },
            RecordRef::Claim(id) => match self.claim_at(id, revision) {
                Some(inner) => Some(InspectedRecordModel::Claim(inner)),
                None => None,
            },
            RecordRef::Entity(id) => match self.entity_at(id, revision) {
                Some(inner) => Some(InspectedRecordModel::Entity(inner)),
                None => None,
            },
            RecordRef::SemanticRelation(id) => match self.relation_at(id, revision) {
                Some(inner) => Some(InspectedRecordModel::SemanticRelation(inner)),
                None => None,
            },
            RecordRef::Proposal(id) => match self.proposal_at(id, revision) {
                Some(inner) => Some(InspectedRecordModel::Proposal(inner)),
                None => None,
            },
            RecordRef::ProposalReview(id) => match self.review_at(id, revision) {
                Some(inner) => Some(InspectedRecordModel::ProposalReview(inner)),
                None => None,
            },
            RecordRef::ArtifactCollection(id) => match self.collection_at(id, revision) {
                Some(inner) => Some(InspectedRecordModel::ArtifactCollection(inner)),
                None => None,
            },
            RecordRef::ArtifactSnapshot(id) => match self.snapshot_at(id, revision) {
                Some(inner) => Some(InspectedRecordModel::ArtifactSnapshot(inner)),
                None => None,
            },
            RecordRef::ArtifactPassage(id) => match self.passage_at(id, revision) {
                Some(inner) => Some(InspectedRecordModel::ArtifactPassage(inner)),
                None => None,
            },
        }
    }

    /// The scope, state and current revision of a record.
    #[verifier::opaque]
    pub open spec fn standing(self, record: RecordRef) -> MemoryResult<(Scope, RecordState, u64)> {
        match self.inspect_head(record) {
            Err(error) => Err(error),
            Ok(None) => Err(MemoryError::NotFound(record)),
            Ok(Some(inner)) => Ok(
                match inner {
                    InspectedRecordModel::Evidence(r) => (r.header.scope, r.availability.state, r.availability.revision),
                    InspectedRecordModel::Claim(r) => (r.header.scope, r.header.state, r.header.revision),
                    InspectedRecordModel::Entity(r) => (r.header.scope, r.header.state, r.header.revision),
                    InspectedRecordModel::SemanticRelation(r) => (r.header.scope, r.header.state, r.header.revision),
                    InspectedRecordModel::Proposal(r) => (r.header.scope, r.header.state, r.header.revision),
                    InspectedRecordModel::ProposalReview(r) => (r.header.scope, r.header.state, r.header.revision),
                    InspectedRecordModel::ArtifactCollection(r) => (
                        r.header.scope,
                        r.availability.state,
                        r.availability.revision,
                    ),
                    InspectedRecordModel::ArtifactSnapshot(r) => (
                        r.header.scope,
                        r.availability.state,
                        r.availability.revision,
                    ),
                    InspectedRecordModel::ArtifactPassage(r) => (
                        r.header.scope,
                        r.availability.state,
                        r.availability.revision,
                    ),
                },
            ),
        }
    }
}

impl MemoryDatabase {
    fn head_of(&self, record: RecordRef) -> (r: Option<u64>)
        ensures
            r == self@.head(record),
    {
        match self.heads.get(&record) {
            Some(revision) => Some(*revision),
            None => None,
        }
    }

    fn text_at(&self, record: RecordRef, state: RecordState) -> (r: Option<String>)
        ensures
            opt_view(r) == self@.text_unless_purged(record, state),
    {
        reveal(StoreModel::text_unless_purged);
        if state == RecordState::Purged {
            return None;
        }
        match self.texts.get(&record) {
            Some(text) => Some(text.clone()),
            None => None,
        }
    }

    fn evidence_revision(&self, id: EvidenceId, revision: u64) -> (r: Option<EvidenceRecord>)
        ensures
            opt_view(r) == self@.evidence_at(id, revision),
    {
        reveal(StoreModel::evidence_at);
        let header = match self.evidence.get(&id) {
            Some(header) => *header,
            None => return None,
        };
        let availability = match self.evidence_availability.get(&RevisionKey { id: id.0, revision }) {
            Some(availability) => *availability,
            None => return None,
        };
        let text = self.text_at(RecordRef::Evidence(id), availability.state);
        Some(EvidenceRecord { header, availability, text })
    }

    pub fn inspect_evidence(&self, id: EvidenceId) -> (r: MemoryResult<Option<EvidenceRecord>>)
        ensures
            shown_option(r) == self@.inspect_evidence(id),
    {
        reveal(StoreModel::inspect_evidence);
        if !self.evidence.contains(&id) {
            return Ok(None);
        }
        let record = RecordRef::Evidence(id);
        let revision: u64 = match self.head_of(record) {
            Some(revision) => revision,
            None => return Err(MemoryError::Corrupt(CorruptFault::HeadMissing(record))),
        };
        match self.evidence_revision(id, revision) {
            Some(found) => Ok(Some(found)),
            None => Err(MemoryError::Corrupt(CorruptFault::RevisionMissing(record, revision))),
        }
    }

    fn claim_revision(&self, id: ClaimId, revision: u64) -> (r: Option<ClaimRecord>)
        ensures
            opt_view(r) == self@.claim_at(id, revision),
    {
        reveal(StoreModel::claim_at);
        match self.claims.get(&RevisionKey { id: id.0, revision }) {
            Some(header) => {
                let proposition = self.text_at(RecordRef::Claim(id), header.state);
                Some(ClaimRecord { header: header.replica(), proposition })
            },
            None => None,
        }
    }

    pub fn inspect_claim(&self, id: ClaimId) -> (r: MemoryResult<Option<ClaimRecord>>)
        ensures
            shown_option(r) == self@.inspect_claim(id),
    {
        reveal(StoreModel::inspect_claim);
        let record = RecordRef::Claim(id);
        let revision: u64 = match self.head_of(record) {
            Some(revision) => revision,
            None => return Ok(None),
        };
        match self.claim_revision(id, revision) {
            Some(found) => Ok(Some(found)),
            None => Err(MemoryError::Corrupt(CorruptFault::RevisionMissing(record, revision))),
        }
    }

    fn entity_revision(&self, id: EntityId, revision: u64) -> (r: Option<EntityRecord>)
        ensures
            opt_view(r) == self@.entity_at(id, revision),
    {
        reveal(StoreModel::entity_at);
        broadcast use views_of_empty;

        match self.entities.get(&RevisionKey { id: id.0, revision }) {
            Some(header) => match self.entity_payloads.get(&id) {
                Some(payload) => Some(
                    EntityRecord {
                        header: header.replica(),
                        canonical_name: Some(payload.canonical_name.clone()),
                        aliases: replicas(&payload.aliases),
                    },
                ),
                None => Some(
                    EntityRecord { header: header.replica(), canonical_name: None, aliases: Vec::new() },
                ),
            },
            None => None,
        }
    }

    pub fn inspect_entity(&self, id: EntityId) -> (r: MemoryResult<Option<EntityRecord>>)
        ensures
            shown_option(r) == self@.inspect_entity(id),
    {
        reveal(StoreModel::inspect_entity);
        let record = RecordRef::Entity(id);
        let revision: u64 = match self.head_of(record) {
            Some(revision) => revision,
            None => return Ok(None),
        };
        match self.entity_revision(id, revision) {
            Some(found) => Ok(Some(found)),
            None => Err(MemoryError::Corrupt(CorruptFault::RevisionMissing(record, revision))),
        }
    }

    fn relation_revision(&self, id: RelationId, revision: u64) -> (r: Option<SemanticRelationRecord>)
        ensures
            opt_view(r) == self@.relation_at(id, revision),
    {
        reveal(StoreModel::relation_at);
        match self.relations.get(&RevisionKey { id: id.0, revision }) {
            Some(header) => {
                let payload = if header.state == RecordState::Purged {
                    None
                } else {
                    self.relation_payloads.get(&id)
                };
                match payload {
                    Some(inner) => Some(
                        SemanticRelationRecord {
                            header: header.replica(),
                            qualifier: opt_replica(&inner.qualifier),
                            payload_available: true,
                        },
                    ),
                    None => Some(
                        SemanticRelationRecord {
                            header: header.replica(),
                            qualifier: None,
                            payload_available: false,
                        },
                    ),
                }
            },
            None => None,
        }
    }

    pub fn inspect_semantic_relation(&self, id: RelationId) -> (r: MemoryResult<
        Option<SemanticRelationRecord>,
    >)
        ensures
            shown_option(r) == self@.inspect_semantic_relation(id),
    {
        reveal(StoreModel::inspect_semantic_relation);
        let record = RecordRef::SemanticRelation(id);
        let revision: u64 = match self.head_of(record) {
            Some(revision) => revision,
            None => return Ok(None),
        };
        match self.relation_revision(id, revision) {
            Some(found) => Ok(Some(found)),
            None => Err(MemoryError::Corrupt(CorruptFault::RevisionMissing(record, revision))),
        }
    }

    pub fn inspect_proposal_revision(&self, id: ProposalId, revision: u64) -> (r: Option<ProposalRecord>)
        ensures
            opt_view(r) == self@.proposal_at(id, revision),
    {
        reveal(StoreModel::proposal_at);
        match self.proposals.get(&RevisionKey { id: id.0, revision }) {
            Some(header) => match self.proposal_payloads.get(&id) {
                Some(payload) => Some(
                    ProposalRecord {
                        header: *header,
                        source_evidence: copies(&payload.source_evidence),
                        changes: Some(replicas(&payload.changes)),
                    },
                ),
                None => Some(ProposalRecord { header: *header, source_evidence: Vec::new(), changes: None }),
            },
            None => None,
        }
    }

    pub fn inspect_proposal(&self, id: ProposalId) -> (r: MemoryResult<Option<ProposalRecord>>)
        ensures
            shown_option(r) == Ok::<Option<ProposalRecordModel>, MemoryError>(self@.inspect_proposal(id)),
    {
        reveal(StoreModel::inspect_proposal);
        match self.head_of(RecordRef::Proposal(id)) {
            Some(revision) => Ok(self.inspect_proposal_revision(id, revision)),
            None => Ok(None),
        }
    }

    pub fn inspect_proposal_review_revision(&self, id: ProposalReviewCaseId, revision: u64) -> (r: Option<
        ProposalReviewCase,
    >)
        ensures
            opt_view(r) == self@.review_at(id, revision),
    {
        reveal(StoreModel::review_at);
        match self.proposal_reviews.get(&RevisionKey { id: id.0, revision }) {
            Some(header) => match self.review_payloads.get(&id) {
                Some(payload) => Some(
                    ProposalReviewCase { header: *header, findings: Some(replicas(&payload.findings)) },
                ),
                None => Some(ProposalReviewCase { header: *header, findings: None }),
            },
            None => None,
        }
    }

    pub fn inspect_proposal_review(&self, id: ProposalReviewCaseId) -> (r: MemoryResult<
        Option<ProposalReviewCase>,
    >)
        ensures
            shown_option(r) == Ok::<Option<ProposalReviewCaseModel>, MemoryError>(
                self@.inspect_proposal_review(id),
            ),
    {
        reveal(StoreModel::inspect_proposal_review);
        match self.head_of(RecordRef::ProposalReview(id)) {
            Some(revision) => Ok(self.inspect_proposal_review_revision(id, revision)),
            None => Ok(None),
        }
    }

    fn collection_revision(&self, id: ArtifactCollectionId, revision: u64) -> (r: Option<
        ArtifactCollectionRecord,
    >)
        ensures
            opt_view(r) == self@.collection_at(id, revision),
    {
        reveal(StoreModel::collection_at);
        let header = match self.artifact_collections.get(&id) {
            Some(header) => *header,
            None => return None,
        };
        match self.artifact_collection_availability.get(&RevisionKey { id: id.0, revision }) {
            Some(availability) => {
                let label = self.text_at(RecordRef::ArtifactCollection(id), availability.state);
                Some(ArtifactCollectionRecord { header, availability: *availability, label })
            },
            None => None,
        }
    }

    pub fn inspect_artifact_collection(&self, id: ArtifactCollectionId) -> (r: MemoryResult<
        Option<ArtifactCollectionRecord>,
    >)
        ensures
            shown_option(r) == self@.inspect_artifact_collection(id),
    {
        reveal(StoreModel::inspect_artifact_collection);
        if !self.artifact_collections.contains(&id) {
            return Ok(None);
        }
        let record = RecordRef::ArtifactCollection(id);
        match self.head_of(record) {
            Some(revision) => Ok(self.collection_revision(id, revision)),
            None => Err(MemoryError::Corrupt(CorruptFault::HeadMissing(record))),
        }
    }

    fn snapshot_revision(&self, id: ArtifactSnapshotId, revision: u64) -> (r: Option<ArtifactSnapshotRecord>)
        ensures
            opt_view(r) == self@.snapshot_at(id, revision),
    {
        reveal(StoreModel::snapshot_at);
        let header = match self.artifact_snapshots.get(&id) {
            Some(header) => *header,
            None => return None,
        };
        match self.artifact_snapshot_availability.get(&RevisionKey { id: id.0, revision }) {
            Some(availability) => {
                let payload = if availability.state == RecordState::Purged {
                    None
                } else {
                    self.snapshot_payloads.get(&id)
                };
                match payload {
                    Some(inner) => Some(
                        ArtifactSnapshotRecord {
                            header,
                            availability: *availability,
                            media_type: Some(inner.media_type.clone()),
                            content_digest: Some(inner.content_digest),
                            payload_available: true,
                        },
                    ),
                    None => Some(
                        ArtifactSnapshotRecord {
                            header,
                            availability: *availability,
                            media_type: None,
                            content_digest: None,
                            payload_available: false,
                        },
                    ),
                }
            },
            None => None,
        }
    }

    pub fn inspect_artifact_snapshot(&self, id: ArtifactSnapshotId) -> (r: MemoryResult<
        Option<ArtifactSnapshotRecord>,
    >)
        ensures
            shown_option(r) == self@.inspect_artifact_snapshot(id),
    {
        reveal(StoreModel::inspect_artifact_snapshot);
        if !self.artifact_snapshots.contains(&id) {
            return Ok(None);
        }
        let record = RecordRef::ArtifactSnapshot(id);
        match self.head_of(record) {
            Some(revision) => Ok(self.snapshot_revision(id, revision)),
            None => Err(MemoryError::Corrupt(CorruptFault::HeadMissing(record))),
        }
    }

    /// The exact bytes of a snapshot, checked against its description.
    pub fn materialize_artifact_snapshot(&self, id: ArtifactSnapshotId) -> (r: MemoryResult<
        Option<ArtifactSnapshotBlob>,
    >)
        ensures
            shown_option(r) == self@.materialized(id),
    {
        reveal(StoreModel::materialized);
        let record = match self.inspect_artifact_snapshot(id)? {
            Some(record) => record,
            None => return Ok(None),
        };
        let media_type = match record.media_type {
            Some(media_type) => media_type,
            None => return Ok(None),
        };
        let digest = match record.content_digest {
            Some(digest) => digest,
            None => return Ok(None),
        };
        match self.artifact_snapshot_blobs.get(&id) {
            None => Err(MemoryError::Corrupt(CorruptFault::SnapshotBlobMissing(id))),
            Some(bytes) => {
                if bytes.len() as u64 != record.header.byte_len || !same_digest(
                    &content_hash(bytes.as_slice()),
                    &digest,
                ) {
                    return Err(MemoryError::Corrupt(CorruptFault::SnapshotBlobMismatch(id)));
                }
                Ok(
                    Some(
                        ArtifactSnapshotBlob {
                            id,
                            media_type,
                            content_digest: digest,
                            bytes: copies(bytes),
                        },
                    ),
                )
            },
        }
    }

    pub fn artifact_provenance_for_evidence(&self, evidence_id: EvidenceId) -> (r: MemoryResult<
        Option<ArtifactEvidenceProvenance>,
    >)
        ensures
            r == MemoryResult::Ok(lookup(self@.artifact_by_evidence, evidence_id)),
    {
        Ok(self.artifact_provenance(evidence_id))
    }

    pub(crate) fn artifact_provenance(&self, evidence_id: EvidenceId) -> (r: Option<ArtifactEvidenceProvenance>)
        ensures
            r == lookup(self@.artifact_by_evidence, evidence_id),
    {
        match self.artifact_by_evidence.get(&evidence_id) {
            Some(found) => Some(*found),
            None => None,
        }
    }

    fn passage_revision(&self, id: ArtifactPassageId, revision: u64) -> (r: Option<ArtifactPassageRecord>)
        ensures
            opt_view(r) == self@.passage_at(id, revision),
    {
        reveal(StoreModel::passage_at);
        let header = match self.artifact_passages.get(&id) {
            Some(header) => *header,
            None => return None,
        };
        match self.artifact_passage_availability.get(&RevisionKey { id: id.0, revision }) {
            Some(availability) => {
                let text = self.text_at(RecordRef::ArtifactPassage(id), availability.state);
                Some(ArtifactPassageRecord { header, availability: *availability, text })
            },
            None => None,
        }
    }

    pub fn inspect_artifact_passage(&self, id: ArtifactPassageId) -> (r: MemoryResult<
        Option<ArtifactPassageRecord>,
    >)
        ensures
            shown_option(r) == self@.inspect_artifact_passage(id),
    {
        reveal(StoreModel::inspect_artifact_passage);
        if !self.artifact_passages.contains(&id) {
            return Ok(None);
        }
        let record = RecordRef::ArtifactPassage(id);
        match self.head_of(record) {
            Some(revision) => Ok(self.passage_revision(id, revision)),
            None => Err(MemoryError::Corrupt(CorruptFault::HeadMissing(record))),
        }
    }

    pub fn inspect_activation_trace(&self, id: ActivationTraceId) -> (r: MemoryResult<Option<ActivationTrace>>)
        ensures
            shown_option(r) == MemoryResult::Ok(self@.inspect_activation_trace(id)),
    {
        Ok(self.activation_trace(id))
    }

    pub(crate) fn activation_trace(&self, id: ActivationTraceId) -> (r: Option<ActivationTrace>)
        ensures
            opt_view(r) == self@.inspect_activation_trace(id),
    {
        reveal(StoreModel::inspect_activation_trace);
        let header = match self.activation_traces.get(&id) {
            Some(header) => *header,
            None => return None,
        };
        match self.activation_trace_payloads.get(&id) {
            Some(payload) => Some(
                ActivationTrace {
                    id: header.id,
                    revision: header.revision,
                    era_id: header.era_id,
                    operation_id: header.operation_id,
                    recall_case: header.recall_case,
                    evaluator: header.evaluator,
                    profile: header.profile,
                    input_digest: header.input_digest,
                    candidates: copies(&payload.candidates),
                    contributions: copies(&payload.contributions),
                    recorded_at_ms: header.recorded_at_ms,
                },
            ),
            None => None,
        }
    }

    fn inspect_head(&self, record: RecordRef) -> (r: MemoryResult<Option<InspectedRecord>>)
        ensures
            shown_option(r) == self@.inspect_head(record),
    {
        reveal(StoreModel::inspect_head);
        match record {
            RecordRef::Evidence(id) => match self.inspect_evidence(id)? {
                Some(inner) => Ok(Some(InspectedRecord::Evidence(inner))),
                None => Ok(None),
            },
            RecordRef::Claim(id) => match self.inspect_claim(id)? {
                Some(inner) => Ok(Some(InspectedRecord::Claim(inner))),
                None => Ok(None),
            },
            RecordRef::Entity(id) => match self.inspect_entity(id)? {
                Some(inner) => Ok(Some(InspectedRecord::Entity(inner))),
                None => Ok(None),
            },
            RecordRef::SemanticRelation(id) => match self.inspect_semantic_relation(id)? {
                Some(inner) => Ok(Some(InspectedRecord::SemanticRelation(inner))),
                None => Ok(None),
            },
            RecordRef::Proposal(id) => match self.inspect_proposal(id)? {
                Some(inner) => Ok(Some(InspectedRecord::Proposal(inner))),
                None => Ok(None),
            },
            RecordRef::ProposalReview(id) => match self.inspect_proposal_review(id)? {
                Some(inner) => Ok(Some(InspectedRecord::ProposalReview(inner))),
                None => Ok(None),
            },
            RecordRef::ArtifactCollection(id) => match self.inspect_artifact_collection(id)? {
                Some(inner) => Ok(Some(InspectedRecord::ArtifactCollection(inner))),
                None => Ok(None),
            },
            RecordRef::ArtifactSnapshot(id) => match self.inspect_artifact_snapshot(id)? {
                Some(inner) => Ok(Some(InspectedRecord::ArtifactSnapshot(inner))),
                None => Ok(None),
            },
            RecordRef::ArtifactPassage(id) => match self.inspect_artifact_passage(id)? {
                Some(inner) => Ok(Some(InspectedRecord::ArtifactPassage(inner))),
                None => Ok(None),
            },
        }
    }

    fn inspect_revision(&self, record: RecordRef, revision: u64) -> (r: Option<InspectedRecord>)
        ensures
            opt_view(r) == self@.inspect_revision(record, revision),
    {
        reveal(StoreModel::inspect_revision);
        match record {
            RecordRef::Evidence(id) => match self.evidence_revision(id, revision) {
                Some(inner) => Some(InspectedRecord::Evidence(inner)),
                None => None,
            },
            RecordRef::Claim(id) => match self.claim_revision(id, revision) {
                Some(inner) => Some(InspectedRecord::Claim(inner)),
                None => None,
            },
            RecordRef::Entity(id) => match self.entity_revision(id, revision) {
                Some(inner) => Some(InspectedRecord::Entity(inner)),
                None => None,
            },
            RecordRef::SemanticRelation(id) => match self.relation_revision(id, revision) {
                Some(inner) => Some(InspectedRecord::SemanticRelation(inner)),
                None => None,
            },
            RecordRef::Proposal(id) => match self.inspect_proposal_revision(id, revision) {
                Some(inner) => Some(InspectedRecord::Proposal(inner)),
                None => None,
            },
            RecordRef::ProposalReview(id) => match self.inspect_proposal_review_revision(id, revision) {
                Some(inner) => Some(InspectedRecord::ProposalReview(inner)),
                None => None,
            },
            RecordRef::ArtifactCollection(id) => match self.collection_revision(id, revision) {
                Some(inner) => Some(InspectedRecord::ArtifactCollection(inner)),
                None => None,
            },
            RecordRef::ArtifactSnapshot(id) => match self.snapshot_revision(id, revision) {
                Some(inner) => Some(InspectedRecord::ArtifactSnapshot(inner)),
                None => None,
            },
            RecordRef::ArtifactPassage(id) => match self.passage_revision(id, revision) {
                Some(inner) => Some(InspectedRecord::ArtifactPassage(inner)),
                None => None,
            },
        }
    }

    /// A record at its current revision, or at an exact one. A payload that is gone
    /// stays gone, whichever revision is asked for.
    pub fn inspect(&self, record: RecordRef, revision: RevisionSelector) -> (r: MemoryResult<
        Option<InspectedRecord>,
    >)
        ensures
            shown_option(r) == (match revision {
                RevisionSelector::Head => self@.inspect_head(record),
                RevisionSelector::Exact(exact) => Ok(self@.inspect_revision(record, exact)),
            }),
    {
        match revision {
            RevisionSelector::Head => self.inspect_head(record),
            RevisionSelector::Exact(exact) => Ok(self.inspect_revision(record, exact)),
        }
    }

    /// The scope, state and current revision of a record.
    pub fn record_scope_state_revision(&self, record: RecordRef) -> (r: MemoryResult<
        (Scope, RecordState, u64),
    >)
        ensures
            r == self@.standing(record),
    {
        reveal(StoreModel::standing);
        match self.inspect_head(record)? {
            None => Err(MemoryError::NotFound(record)),
            Some(inner) => Ok(
                match inner {
                    InspectedRecord::Evidence(r) => (r.header.scope, r.availability.state, r.availability.revision),
                    InspectedRecord::Claim(r) => (r.header.scope, r.header.state, r.header.revision),
                    InspectedRecord::Entity(r) => (r.header.scope, r.header.state, r.header.revision),
                    InspectedRecord::SemanticRelation(r) => (r.header.scope, r.header.state, r.header.revision),
                    InspectedRecord::Proposal(r) => (r.header.scope, r.header.state, r.header.revision),
                    InspectedRecord::ProposalReview(r) => (r.header.scope, r.header.state, r.header.revision),
                    InspectedRecord::ArtifactCollection(r) => (
                        r.header.scope,
                        r.availability.state,
                        r.availability.revision,
                    ),
                    InspectedRecord::ArtifactSnapshot(r) => (
                        r.header.scope,
                        r.availability.state,
                        r.availability.revision,
                    ),
                    InspectedRecord::ArtifactPassage(r) => (
                        r.header.scope,
                        r.availability.state,
                        r.availability.revision,
                    ),
                },
            ),
        }
    }
}

} // verus!
