//! Capturing evidence, and fingerprints of what is not kept.
use vstd::prelude::*;
use crate::bytes::append_bytes;
use crate::clock::{Fresh, FreshModel};
use crate::context::OperationContext;
use crate::digest::{
    FINGERPRINT_DOMAIN, SOURCE_EVENT_DOMAIN, append_framed, framed, index_digest, index_hash,
    mutation_digest, mutation_digest_of,
};
use crate::fault::{
    CorruptFault, InputFault, MemoryError, MemoryResult, TextField, corrupt, invalid,
};
use crate::ids::EvidenceId;
use crate::inspect::revision_of;
use crate::keys::RevisionKey;
use crate::records::audit::AuditAction;
use crate::records::evidence::{
    Actor, EvidenceAvailabilityRevision, EvidenceHeader, EvidenceLifecycle,
    EvidenceLifecycleModel, EvidenceLifecycleTruth, EvidenceReceipt, NewEvidence,
    NewEvidenceModel, RecordRef, RecordState,
};
use crate::records::receipt::{Receipt, ReceiptModel};
use crate::rules::{
    MAX_EVIDENCE_TEXT_BYTES, MAX_SOURCE_EVENT_ID_BYTES, capture_fault, exact_text_fault,
    validate_evidence_capture, validate_exact_evidence_text,
};
use crate::staging::{Planned, commits, plans};
use crate::store::{Batch, MemoryDatabase, StoreModel, Write, WriteModel};
use crate::text::{byte_len, text_bytes, utf8};

verus! {

pub const MAX_OPERATIONAL_FINGERPRINT_DOMAIN_BYTES: usize = 64;

pub const MAX_OPERATIONAL_FINGERPRINT_INPUT_BYTES: usize = 1_048_576;

impl StoreModel {
    /// What is kept of where evidence came from.
    #[verifier::opaque]
    pub open spec fn lifecycle_truth(self, lifecycle: EvidenceLifecycleModel) -> EvidenceLifecycleTruth {
        match lifecycle {
            EvidenceLifecycleModel::Direct => EvidenceLifecycleTruth::Direct,
            EvidenceLifecycleModel::TerminalTurn { source_event_id, status } => EvidenceLifecycleTruth::TerminalTurn {
                source_event_digest: index_digest(self.digest_key@, SOURCE_EVENT_DOMAIN, utf8(source_event_id)),
                status,
            },
        }
    }

    /// With a piece of evidence, active at its first revision and indexed.
    #[verifier::opaque]
    pub open spec fn with_evidence(self, header: EvidenceHeader, text: Seq<char>) -> StoreModel {
        let record = RecordRef::Evidence(header.id);
        self.put(WriteModel::PutEvidence(header.id, header)).put(
            WriteModel::PutEvidenceAvailability(
                revision_of(header.id.0, 1),
                EvidenceAvailabilityRevision {
                    evidence_id: header.id,
                    revision: 1,
                    state: RecordState::Active,
                    recorded_at_ms: header.recorded_at_ms,
                    operation_id: header.operation_id,
                },
            ),
        ).put(WriteModel::PutHead(record, 1)).put(WriteModel::PutText(record, text)).indexed(
            record,
            1,
            header.scope,
            header.temporal,
            text,
        )
    }

    /// Why evidence cannot be captured, whatever the store holds.
    pub open spec fn evidence_request_fault(actor: Actor, input: NewEvidenceModel) -> Option<MemoryError> {
        if !input.temporal.coherent() {
            Some(MemoryError::InvalidInput(InputFault::ValidTimeInterval))
        } else {
            match exact_text_fault(input.text, TextField::EvidenceText, MAX_EVIDENCE_TEXT_BYTES) {
                Some(fault) => Some(MemoryError::InvalidInput(fault)),
                None => capture_fault(actor, input.class, input.lifecycle),
            }
        }
    }

    /// Capturing evidence. The first identifier drawn is the audit event's, the second
    /// the evidence's.
    pub open spec fn capture_evidence(
        self,
        operation: OperationContext,
        input: NewEvidenceModel,
        request: Seq<u8>,
        fresh: FreshModel,
    ) -> MemoryResult<(StoreModel, EvidenceReceipt)> {
        let digest = mutation_digest_of(self.digest_key@, "capture_evidence"@, operation.actor, request);
        match Self::evidence_request_fault(operation.actor, input) {
            Some(error) => Err(error),
            None => match self.replay(operation.id, digest) {
                Err(error) => Err(error),
                Ok(Some(ReceiptModel::Evidence(receipt))) => Ok((self, receipt)),
                Ok(Some(_)) => corrupt(CorruptFault::ReceiptShape),
                Ok(None) => {
                    let id = EvidenceId(fresh.ids[1]);
                    let header = EvidenceHeader {
                        id,
                        class: input.class,
                        captured_by: operation.actor,
                        scope: input.scope,
                        temporal: input.temporal,
                        lifecycle: self.lifecycle_truth(input.lifecycle),
                        recorded_at_ms: fresh.recorded_at_ms,
                        operation_id: operation.id,
                    };
                    let receipt = EvidenceReceipt { id, availability_revision: 1 };
                    Ok(
                        (
                            self.with_evidence(header, input.text).audited(
                                self.audit_event(
                                    fresh.ids[0],
                                    operation,
                                    AuditAction::EvidenceCaptured,
                                    seq![RecordRef::Evidence(id)],
                                    Seq::empty(),
                                    None,
                                    fresh.recorded_at_ms,
                                ),
                            ).remembered(operation.id, digest, ReceiptModel::Evidence(receipt)),
                            receipt,
                        ),
                    )
                },
            },
        }
    }
}

impl MemoryDatabase {
    /// A keyed fingerprint of an input, separated by domain. The key itself never
    /// leaves the store.
    pub fn operational_fingerprint(&self, domain: &str, input: &[u8]) -> (r: MemoryResult<[u8; 32]>)
        ensures
            r == (if !(0 < utf8(domain@).len() <= MAX_OPERATIONAL_FINGERPRINT_DOMAIN_BYTES) {
                invalid(InputFault::FingerprintDomain)
            } else if input@.len() > MAX_OPERATIONAL_FINGERPRINT_INPUT_BYTES {
                invalid(InputFault::FingerprintInput)
            } else {
                Ok(
                    index_digest(
                        self@.digest_key@,
                        FINGERPRINT_DOMAIN,
                        framed(utf8(domain@)) + input@,
                    ),
                )
            }),
    {
        let length: usize = byte_len(domain);
        if length == 0 || length > MAX_OPERATIONAL_FINGERPRINT_DOMAIN_BYTES {
            return Err(MemoryError::InvalidInput(InputFault::FingerprintDomain));
        }
        if input.len() > MAX_OPERATIONAL_FINGERPRINT_INPUT_BYTES {
            return Err(MemoryError::InvalidInput(InputFault::FingerprintInput));
        }
        let mut separated: Vec<u8> = Vec::new();
        append_framed(&mut separated, text_bytes(domain));
        append_bytes(&mut separated, input);
        assert(separated@ =~= framed(utf8(domain@)) + input@);
        Ok(index_hash(&self.digest_key, FINGERPRINT_DOMAIN, separated.as_slice()))
    }

    /// The fingerprint that is kept of the source event of a terminal turn.
    pub fn source_event_fingerprint(&self, source_event_id: &str) -> (r: MemoryResult<[u8; 32]>)
        ensures
            r == (if 0 < utf8(source_event_id@).len() <= MAX_SOURCE_EVENT_ID_BYTES {
                Ok(index_digest(self@.digest_key@, SOURCE_EVENT_DOMAIN, utf8(source_event_id@)))
            } else {
                invalid(InputFault::SourceEventId)
            }),
    {
        let length: usize = byte_len(source_event_id);
        if length == 0 || length > MAX_SOURCE_EVENT_ID_BYTES {
            return Err(MemoryError::InvalidInput(InputFault::SourceEventId));
        }
        Ok(index_hash(&self.digest_key, SOURCE_EVENT_DOMAIN, text_bytes(source_event_id)))
    }

    fn evidence_lifecycle_truth(&self, lifecycle: &EvidenceLifecycle) -> (r: EvidenceLifecycleTruth)
        ensures
            r == self@.lifecycle_truth(lifecycle@),
    {
        reveal(StoreModel::lifecycle_truth);
        match lifecycle {
            EvidenceLifecycle::Direct => EvidenceLifecycleTruth::Direct,
            EvidenceLifecycle::TerminalTurn { source_event_id, status } => EvidenceLifecycleTruth::TerminalTurn {
                source_event_digest: index_hash(
                    &self.digest_key,
                    SOURCE_EVENT_DOMAIN,
                    text_bytes(source_event_id.as_str()),
                ),
                status: *status,
            },
        }
    }

    pub(crate) fn insert_evidence(&self, batch: &mut Batch, header: EvidenceHeader, text: &String)
        ensures
            self@.after(final(batch)@) == self@.after(old(batch)@).with_evidence(header, text@),
    {
        reveal(StoreModel::with_evidence);
        let record = RecordRef::Evidence(header.id);
        batch.push(Write::PutEvidence(header.id, header));
        batch.push(
            Write::PutEvidenceAvailability(
                RevisionKey { id: header.id.0, revision: 1 },
                EvidenceAvailabilityRevision {
                    evidence_id: header.id,
                    revision: 1,
                    state: RecordState::Active,
                    recorded_at_ms: header.recorded_at_ms,
                    operation_id: header.operation_id,
                },
            ),
        );
        batch.push(Write::PutHead(record, 1));
        batch.push(Write::PutText(record, text.clone()));
        self.insert_lexical_document(batch, record, 1, header.scope, header.temporal, text.as_str());
    }

    /// What capturing evidence would do with the given instant and identifiers.
    /// `request` encodes the input as it is retried.
    pub fn plan_capture_evidence(
        &self,
        operation: OperationContext,
        input: &NewEvidence,
        request: &[u8],
        fresh: &Fresh,
    ) -> (r: MemoryResult<Planned<EvidenceReceipt>>)
        requires
            fresh.ids@.len() == 2,
        ensures
            plans(self@, r, self@.capture_evidence(operation, input@, request@, fresh@)),
    {
        input.temporal.validate()?;
        validate_exact_evidence_text(input.text.as_str(), TextField::EvidenceText)?;
        validate_evidence_capture(operation.actor, input.class, &input.lifecycle)?;
        let digest = mutation_digest(&self.digest_key, "capture_evidence", operation.actor, request);
        let mut batch = Batch::new();
        match self.replayed_operation(operation.id, digest)? {
            Some(Receipt::Evidence(receipt)) => {
                return Ok(Planned { batch, receipt });
            },
            Some(_) => {
                return Err(MemoryError::Corrupt(CorruptFault::ReceiptShape));
            },
            None => {},
        }
        let id = EvidenceId(fresh.ids[1]);
        let header = EvidenceHeader {
            id,
            class: input.class,
            captured_by: operation.actor,
            scope: input.scope,
            temporal: input.temporal,
            lifecycle: self.evidence_lifecycle_truth(&input.lifecycle),
            recorded_at_ms: fresh.recorded_at_ms,
            operation_id: operation.id,
        };
        let receipt = EvidenceReceipt { id, availability_revision: 1 };
        self.insert_evidence(&mut batch, header, &input.text);
        let subjects: Vec<RecordRef> = vec![RecordRef::Evidence(id)];
        assert(subjects@ =~= seq![RecordRef::Evidence(id)]);
        self.insert_audit(
            &mut batch,
            fresh.ids[0],
            operation,
            AuditAction::EvidenceCaptured,
            subjects,
            Vec::new(),
            None,
            fresh.recorded_at_ms,
        );
        self.insert_operation(&mut batch, operation.id, digest, Receipt::Evidence(receipt));
        Ok(Planned { batch, receipt })
    }

    /// Captures evidence as it was observed. Retried under one operation with one
    /// request, it answers what it answered first and changes nothing.
    pub fn capture_evidence(&mut self, operation: OperationContext, input: NewEvidence, request: &[u8]) -> (r:
        MemoryResult<EvidenceReceipt>)
        ensures
            exists|fresh: FreshModel|
                fresh.ids.len() == 2 && #[trigger] commits(
                    old(self)@,
                    final(self)@,
                    r,
                    old(self)@.capture_evidence(operation, input@, request@, fresh),
                ),
    {
        let fresh = Fresh::draw(2);
        let planned = self.plan_capture_evidence(operation, &input, request, &fresh);
        let r = self.commit(planned);
        assert(commits(
            old(self)@,
            self@,
            r,
            old(self)@.capture_evidence(operation, input@, request@, fresh@),
        ));
        r
    }
}

} // verus!
