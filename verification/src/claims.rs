//! Claims: creating, remembering and correcting them, and retracting records.
use vstd::prelude::*;
use crate::clock::{Fresh, FreshModel};
use crate::context::OperationContext;
use crate::digest::{mutation_digest, mutation_digest_of};
use crate::fault::{
    CorruptFault, InputFault, MemoryError, MemoryResult, TextField, corrupt, invalid,
};
use crate::ids::{ClaimId, EvidenceId, RelationId};
use crate::inspect::{revision_of, shown};
use crate::keys::{DependencyKey, RevisionKey};
use crate::order::{in_order, sorted_distinct};
use crate::records::audit::{
    AuditAction, RelationPayload, RelationPayloadModel, RetractionReceipt, RetractionReceiptModel,
};
use crate::records::claim::{
    ClaimReceipt, ClaimRevisionHeader, ClaimRevisionHeaderModel, CorrectUserClaim,
    CorrectUserClaimModel, CorrectionReceipt, CorrectionReceiptModel, NewClaim, NewClaimModel,
    RelationKind, RelationReceipt, RememberReceipt, RememberUserClaim, RememberUserClaimModel,
    SemanticRelationRevisionHeader, SemanticRelationRevisionHeaderModel,
};
use crate::records::evidence::{
    Actor, ClaimDomain, EvidenceClass, EvidenceHeader, EvidenceLifecycleTruth, EvidenceReceipt,
    RecordRef, RecordState, Scope,
};
use crate::records::receipt::{Receipt, ReceiptModel};
use crate::rules::{
    MAX_EVIDENCE_SOURCES, MAX_EVIDENCE_TEXT_BYTES, admissible, exact_text_fault,
    may_activate_claim, source_is_admissible, trimmed_text, validate_claim_activation,
    validate_exact_evidence_text, validate_text,
};
use crate::staging::{Planned, append_records, commits, plans, records_of};
use crate::store::{Batch, MemoryDatabase, StoreModel, Write, WriteModel};
use crate::table::{Replica, copies, opt_view};

verus! {

impl StoreModel {
    /// With a record filed as a dependent of the first `n` pieces of evidence.
    pub open spec fn supported(self, evidence_ids: Seq<EvidenceId>, record: RecordRef, n: nat) -> StoreModel
        decreases n,
    {
        if n == 0 {
            self
        } else {
            self.supported(evidence_ids, record, (n - 1) as nat).depends(
                RecordRef::Evidence(evidence_ids[n - 1]),
                record,
            )
        }
    }

    /// With the first revision of a claim, indexed and filed under its evidence.
    #[verifier::opaque]
    pub open spec fn with_claim(self, header: ClaimRevisionHeaderModel, proposition: Seq<char>) -> StoreModel {
        let record = RecordRef::Claim(header.id);
        self.put(WriteModel::PutClaim(revision_of(header.id.0, 1), header)).put(
            WriteModel::PutHead(record, 1),
        ).put(WriteModel::PutText(record, proposition)).supported(
            header.evidence_ids,
            record,
            header.evidence_ids.len(),
        ).indexed(record, 1, header.scope, header.temporal, proposition)
    }

    /// The classes of the first `n` sources, if each can be used in a scope and, where
    /// one is given, for a domain.
    pub open spec fn source_classes(
        self,
        evidence_ids: Seq<EvidenceId>,
        scope: Scope,
        domain: Option<ClaimDomain>,
        n: nat,
    ) -> MemoryResult<Seq<EvidenceClass>>
        decreases n,
    {
        if n == 0 {
            Ok(Seq::empty())
        } else {
            match self.source_classes(evidence_ids, scope, domain, (n - 1) as nat) {
                Err(error) => Err(error),
                Ok(classes) => match self.source_class(evidence_ids[n - 1], scope, domain) {
                    Err(error) => Err(error),
                    Ok(class) => Ok(classes.push(class)),
                },
            }
        }
    }

    /// The class of a source that can be used.
    #[verifier::opaque]
    pub open spec fn source_class(self, id: EvidenceId, scope: Scope, domain: Option<ClaimDomain>) -> MemoryResult<
        EvidenceClass,
    > {
        match self.inspect_evidence(id) {
            Err(error) => Err(error),
            Ok(None) => Err(MemoryError::SourceUnavailable(id)),
            Ok(Some(evidence)) => if evidence.availability.state != RecordState::Active {
                Err(MemoryError::SourceUnavailable(id))
            } else if evidence.header.scope != scope {
                Err(MemoryError::ScopeMismatch)
            } else if domain matches Some(wanted) && !admissible(evidence.header.class, wanted) {
                Err(
                    MemoryError::InadmissibleSource {
                        evidence_id: id,
                        class: evidence.header.class,
                        domain: domain->Some_0,
                    },
                )
            } else {
                Ok(evidence.header.class)
            },
        }
    }

    /// A request to create a claim in its normal form: trimmed, its sources distinct
    /// and in order.
    #[verifier::opaque]
    pub open spec fn claim_request(actor: Actor, input: NewClaimModel) -> MemoryResult<NewClaimModel> {
        if actor == Actor::Assistant {
            Err(MemoryError::Unauthorized)
        } else if !input.temporal.coherent() {
            invalid(InputFault::ValidTimeInterval)
        } else {
            match trimmed_text(input.proposition, TextField::ClaimProposition) {
                Err(error) => Err(error),
                Ok(proposition) => {
                    let evidence_ids = in_order(input.evidence_ids.to_set());
                    if evidence_ids.len() == 0 {
                        invalid(InputFault::ClaimWithoutEvidence)
                    } else if evidence_ids.len() > MAX_EVIDENCE_SOURCES {
                        invalid(InputFault::ClaimSources)
                    } else {
                        Ok(NewClaimModel { proposition, evidence_ids, ..input })
                    }
                },
            }
        }
    }

    /// Creating a claim on evidence. The first identifier drawn is the audit event's,
    /// the second the claim's.
    pub open spec fn create_claim(
        self,
        operation: OperationContext,
        input: NewClaimModel,
        request: Seq<u8>,
        fresh: FreshModel,
    ) -> MemoryResult<(StoreModel, ClaimReceipt)> {
        let digest = mutation_digest_of(self.digest_key@, "create_claim"@, operation.actor, request);
        match Self::claim_request(operation.actor, input) {
            Err(error) => Err(error),
            Ok(wanted) => match self.replay(operation.id, digest) {
                Err(error) => Err(error),
                Ok(Some(ReceiptModel::Claim(receipt))) => Ok((self, receipt)),
                Ok(Some(_)) => corrupt(CorruptFault::ReceiptShape),
                Ok(None) => match self.source_classes(
                    wanted.evidence_ids,
                    wanted.scope,
                    Some(wanted.domain),
                    wanted.evidence_ids.len(),
                ) {
                    Err(error) => Err(error),
                    Ok(classes) => if !may_activate_claim(operation.actor, wanted.domain, classes) {
                        Err(MemoryError::Unauthorized)
                    } else {
                        let id = ClaimId(fresh.ids[1]);
                        let header = ClaimRevisionHeaderModel {
                            id,
                            revision: 1,
                            previous_revision: None,
                            domain: wanted.domain,
                            scope: wanted.scope,
                            temporal: wanted.temporal,
                            evidence_ids: wanted.evidence_ids,
                            state: RecordState::Active,
                            recorded_at_ms: fresh.recorded_at_ms,
                            operation_id: operation.id,
                        };
                        let receipt = ClaimReceipt { id, revision: 1, state: RecordState::Active };
                        Ok(
                            (
                                self.with_claim(header, wanted.proposition).audited(
                                    self.audit_event(
                                        fresh.ids[0],
                                        operation,
                                        AuditAction::ClaimCreated,
                                        seq![RecordRef::Claim(id)],
                                        Seq::empty(),
                                        None,
                                        fresh.recorded_at_ms,
                                    ),
                                ).remembered(operation.id, digest, ReceiptModel::Claim(receipt)),
                                receipt,
                            ),
                        )
                    },
                },
            },
        }
    }

    /// A request to remember a claim of the user in its normal form.
    #[verifier::opaque]
    pub open spec fn remember_request(actor: Actor, input: RememberUserClaimModel) -> MemoryResult<
        RememberUserClaimModel,
    > {
        if actor != Actor::User {
            Err(MemoryError::Unauthorized)
        } else if !input.temporal.coherent() {
            invalid(InputFault::ValidTimeInterval)
        } else {
            match exact_text_fault(input.evidence_text, TextField::EvidenceText, MAX_EVIDENCE_TEXT_BYTES) {
                Some(fault) => invalid(fault),
                None => match trimmed_text(input.proposition, TextField::ClaimProposition) {
                    Err(error) => Err(error),
                    Ok(proposition) => if !admissible(EvidenceClass::UserAssertion, input.domain) {
                        invalid(InputFault::AssertionDomain)
                    } else {
                        Ok(RememberUserClaimModel { proposition, ..input })
                    },
                },
            }
        }
    }

    /// Remembering a claim of the user together with the assertion it rests on. The
    /// identifiers drawn are those of the audit event, the evidence and the claim.
    pub open spec fn remember_user_claim(
        self,
        operation: OperationContext,
        input: RememberUserClaimModel,
        request: Seq<u8>,
        fresh: FreshModel,
    ) -> MemoryResult<(StoreModel, RememberReceipt)> {
        let digest = mutation_digest_of(self.digest_key@, "remember_user_claim"@, operation.actor, request);
        match Self::remember_request(operation.actor, input) {
            Err(error) => Err(error),
            Ok(wanted) => match self.replay(operation.id, digest) {
                Err(error) => Err(error),
                Ok(Some(ReceiptModel::Remember(receipt))) => Ok((self, receipt)),
                Ok(Some(_)) => corrupt(CorruptFault::ReceiptShape),
                Ok(None) => {
                    let evidence_id = EvidenceId(fresh.ids[1]);
                    let claim_id = ClaimId(fresh.ids[2]);
                    let evidence = EvidenceHeader {
                        id: evidence_id,
                        class: EvidenceClass::UserAssertion,
                        captured_by: Actor::User,
                        scope: wanted.scope,
                        temporal: wanted.temporal,
                        lifecycle: EvidenceLifecycleTruth::Direct,
                        recorded_at_ms: fresh.recorded_at_ms,
                        operation_id: operation.id,
                    };
                    let claim = ClaimRevisionHeaderModel {
                        id: claim_id,
                        revision: 1,
                        previous_revision: None,
                        domain: wanted.domain,
                        scope: wanted.scope,
                        temporal: wanted.temporal,
                        evidence_ids: seq![evidence_id],
                        state: RecordState::Active,
                        recorded_at_ms: fresh.recorded_at_ms,
                        operation_id: operation.id,
                    };
                    let receipt = RememberReceipt {
                        evidence: EvidenceReceipt { id: evidence_id, availability_revision: 1 },
                        claim: ClaimReceipt { id: claim_id, revision: 1, state: RecordState::Active },
                    };
                    Ok(
                        (
                            self.with_evidence(evidence, wanted.evidence_text).with_claim(
                                claim,
                                wanted.proposition,
                            ).audited(
                                self.audit_event(
                                    fresh.ids[0],
                                    operation,
                                    AuditAction::UserClaimRemembered,
                                    seq![RecordRef::Evidence(evidence_id), RecordRef::Claim(claim_id)],
                                    Seq::empty(),
                                    None,
                                    fresh.recorded_at_ms,
                                ),
                            ).remembered(operation.id, digest, ReceiptModel::Remember(receipt)),
                            receipt,
                        ),
                    )
                },
            },
        }
    }

    /// A request to correct a claim in its normal form.
    #[verifier::opaque]
    pub open spec fn correct_request(actor: Actor, input: CorrectUserClaimModel) -> MemoryResult<
        CorrectUserClaimModel,
    > {
        if actor != Actor::User {
            Err(MemoryError::Unauthorized)
        } else if !input.temporal.coherent() {
            invalid(InputFault::ValidTimeInterval)
        } else {
            match exact_text_fault(input.evidence_text, TextField::EvidenceText, MAX_EVIDENCE_TEXT_BYTES) {
                Some(fault) => invalid(fault),
                None => match trimmed_text(input.replacement_proposition, TextField::ReplacementProposition) {
                    Err(error) => Err(error),
                    Ok(replacement_proposition) => Ok(CorrectUserClaimModel { replacement_proposition, ..input }),
                },
            }
        }
    }

    /// The claim that a correction is about, if it can be corrected.
    #[verifier::opaque]
    pub open spec fn correctable(self, actor: Actor, target: ClaimId, expected_revision: u64) -> MemoryResult<
        ClaimRevisionHeaderModel,
    > {
        match self.inspect_claim(target) {
            Err(error) => Err(error),
            Ok(None) => Err(MemoryError::NotFound(RecordRef::Claim(target))),
            Ok(Some(current)) => if current.header.revision != expected_revision {
                Err(
                    MemoryError::RevisionConflict {
                        expected: expected_revision,
                        actual: current.header.revision,
                    },
                )
            } else if current.header.state != RecordState::Active {
                invalid(InputFault::InactiveCorrection)
            } else if !admissible(EvidenceClass::UserCorrection, current.header.domain) {
                invalid(InputFault::CorrectionDomain)
            } else if !may_activate_claim(actor, current.header.domain, seq![EvidenceClass::UserCorrection]) {
                Err(MemoryError::Unauthorized)
            } else {
                Ok(current.header)
            },
        }
    }

    /// With the first revision of a semantic relation and its qualifier, filed under
    /// its endpoints and its evidence.
    #[verifier::opaque]
    pub open spec fn with_relation(
        self,
        header: SemanticRelationRevisionHeaderModel,
        qualifier: Option<Seq<char>>,
    ) -> StoreModel {
        let record = RecordRef::SemanticRelation(header.id);
        self.put(WriteModel::PutRelation(revision_of(header.id.0, 1), header)).put(
            WriteModel::PutHead(record, 1),
        ).put(WriteModel::PutRelationPayload(header.id, RelationPayloadModel { qualifier })).depends(
            header.from,
            record,
        ).depends(header.to, record).supported(header.evidence_ids, record, header.evidence_ids.len())
    }

    /// Correcting a claim of the user: the old claim is superseded, what rests on it is
    /// unsupported, and the replacement stands on the correction. The identifiers drawn
    /// are those of the audit event, the evidence, the replacement and the relation.
    pub open spec fn correct_user_claim(
        self,
        operation: OperationContext,
        input: CorrectUserClaimModel,
        request: Seq<u8>,
        fresh: FreshModel,
    ) -> MemoryResult<(StoreModel, CorrectionReceiptModel)> {
        let digest = mutation_digest_of(self.digest_key@, "correct_user_claim"@, operation.actor, request);
        match Self::correct_request(operation.actor, input) {
            Err(error) => Err(error),
            Ok(wanted) => match self.replay(operation.id, digest) {
                Err(error) => Err(error),
                Ok(Some(ReceiptModel::Correction(receipt))) => Ok((self, receipt)),
                Ok(Some(_)) => corrupt(CorruptFault::ReceiptShape),
                Ok(None) => match self.correctable(operation.actor, wanted.target, wanted.expected_revision) {
                    Err(error) => Err(error),
                    Ok(current) => self.corrected(operation, wanted, digest, current, fresh),
                },
            },
        }
    }

    pub open spec fn corrected(
        self,
        operation: OperationContext,
        wanted: CorrectUserClaimModel,
        digest: [u8; 32],
        current: ClaimRevisionHeaderModel,
        fresh: FreshModel,
    ) -> MemoryResult<(StoreModel, CorrectionReceiptModel)> {
        let target = RecordRef::Claim(wanted.target);
        let now = fresh.recorded_at_ms;
        let evidence_id = EvidenceId(fresh.ids[1]);
        let replacement_id = ClaimId(fresh.ids[2]);
        let relation_id = RelationId(fresh.ids[3]);
        match self.dependency_closure(target, false) {
            Err(error) => Err(error),
            Ok(dependencies) => match self.appended(
                self,
                target,
                wanted.expected_revision,
                RecordState::Superseded,
                operation.id,
                now,
            ) {
                Err(error) => Err(error),
                Ok((staged, superseded)) => match self.invalidated(
                    staged.unindexed(self, target),
                    dependencies,
                    dependencies.len(),
                    RecordState::Unsupported,
                    operation.id,
                    now,
                ) {
                    Err(error) => Err(error),
                    Ok((withdrawn, invalidated)) => {
                        let evidence = EvidenceHeader {
                            id: evidence_id,
                            class: EvidenceClass::UserCorrection,
                            captured_by: Actor::User,
                            scope: current.scope,
                            temporal: wanted.temporal,
                            lifecycle: EvidenceLifecycleTruth::Direct,
                            recorded_at_ms: now,
                            operation_id: operation.id,
                        };
                        let replacement = ClaimRevisionHeaderModel {
                            id: replacement_id,
                            revision: 1,
                            previous_revision: None,
                            domain: current.domain,
                            scope: current.scope,
                            temporal: wanted.temporal,
                            evidence_ids: seq![evidence_id],
                            state: RecordState::Active,
                            recorded_at_ms: now,
                            operation_id: operation.id,
                        };
                        let supersedes = SemanticRelationRevisionHeaderModel {
                            id: relation_id,
                            revision: 1,
                            previous_revision: None,
                            from: RecordRef::Claim(replacement_id),
                            to: target,
                            kind: RelationKind::Supersedes,
                            scope: current.scope,
                            evidence_ids: seq![evidence_id],
                            state: RecordState::Active,
                            recorded_at_ms: now,
                            operation_id: operation.id,
                        };
                        let receipt = CorrectionReceiptModel {
                            evidence: EvidenceReceipt { id: evidence_id, availability_revision: 1 },
                            superseded,
                            replacement: ClaimReceipt {
                                id: replacement_id,
                                revision: 1,
                                state: RecordState::Active,
                            },
                            supersedes_relation: RelationReceipt {
                                id: relation_id,
                                revision: 1,
                                state: RecordState::Active,
                            },
                            invalidated,
                        };
                        Ok(
                            (
                                withdrawn.with_evidence(evidence, wanted.evidence_text).with_claim(
                                    replacement,
                                    wanted.replacement_proposition,
                                ).with_relation(supersedes, None).audited(
                                    self.audit_event(
                                        fresh.ids[0],
                                        operation,
                                        AuditAction::UserClaimCorrected,
                                        seq![
                                            RecordRef::Evidence(evidence_id),
                                            target,
                                            RecordRef::Claim(replacement_id),
                                            RecordRef::SemanticRelation(relation_id),
                                        ] + records_of(invalidated),
                                        Seq::empty(),
                                        None,
                                        now,
                                    ),
                                ).remembered(operation.id, digest, ReceiptModel::Correction(receipt)),
                                receipt,
                            ),
                        )
                    },
                },
            },
        }
    }

    /// Retracting an active record: what rests on it becomes unsupported. The identifier
    /// drawn is the audit event's.
    pub open spec fn retract(
        self,
        operation: OperationContext,
        record: RecordRef,
        expected_revision: u64,
        request: Seq<u8>,
        fresh: FreshModel,
    ) -> MemoryResult<(StoreModel, RetractionReceiptModel)> {
        let digest = mutation_digest_of(self.digest_key@, "retract"@, operation.actor, request);
        let now = fresh.recorded_at_ms;
        if operation.actor == Actor::Assistant {
            Err(MemoryError::Unauthorized)
        } else {
            match self.replay(operation.id, digest) {
                Err(error) => Err(error),
                Ok(Some(ReceiptModel::Retraction(receipt))) => Ok((self, receipt)),
                Ok(Some(_)) => corrupt(CorruptFault::ReceiptShape),
                Ok(None) => match self.standing(record) {
                    Err(error) => Err(error),
                    Ok((_, state, actual)) => if actual != expected_revision {
                        Err(MemoryError::RevisionConflict { expected: expected_revision, actual })
                    } else if state != RecordState::Active {
                        invalid(InputFault::InactiveRetraction)
                    } else {
                        match self.dependency_closure(record, false) {
                            Err(error) => Err(error),
                            Ok(dependencies) => match self.appended(
                                self,
                                record,
                                expected_revision,
                                RecordState::Retracted,
                                operation.id,
                                now,
                            ) {
                                Err(error) => Err(error),
                                Ok((staged, target)) => match self.invalidated(
                                    staged.unindexed(self, record),
                                    dependencies,
                                    dependencies.len(),
                                    RecordState::Unsupported,
                                    operation.id,
                                    now,
                                ) {
                                    Err(error) => Err(error),
                                    Ok((after, invalidated)) => {
                                        let receipt = RetractionReceiptModel { target, invalidated };
                                        Ok(
                                            (
                                                after.audited(
                                                    self.audit_event(
                                                        fresh.ids[0],
                                                        operation,
                                                        AuditAction::RecordRetracted,
                                                        seq![record] + records_of(invalidated),
                                                        Seq::empty(),
                                                        None,
                                                        now,
                                                    ),
                                                ).remembered(
                                                    operation.id,
                                                    digest,
                                                    ReceiptModel::Retraction(receipt),
                                                ),
                                                receipt,
                                            ),
                                        )
                                    },
                                },
                            },
                        }
                    },
                },
            }
        }
    }
}

proof fn source_classes_refusal_persists(
    s: StoreModel,
    evidence_ids: Seq<EvidenceId>,
    scope: Scope,
    domain: Option<ClaimDomain>,
    n: nat,
    m: nat,
)
    requires
        n <= m,
        s.source_classes(evidence_ids, scope, domain, n) is Err,
    ensures
        s.source_classes(evidence_ids, scope, domain, m) == s.source_classes(evidence_ids, scope, domain, n),
    decreases m,
{
    if n < m {
        source_classes_refusal_persists(s, evidence_ids, scope, domain, n, (m - 1) as nat);
    }
}

/// A request to create a claim in its normal form.
pub fn normalize_claim(actor: Actor, input: &NewClaim) -> (r: MemoryResult<NewClaim>)
    ensures
        shown(r) == StoreModel::claim_request(actor, input@),
{
    reveal(StoreModel::claim_request);
    if actor == Actor::Assistant {
        return Err(MemoryError::Unauthorized);
    }
    input.temporal.validate()?;
    let proposition = validate_text(input.proposition.as_str(), TextField::ClaimProposition)?;
    let evidence_ids = sorted_distinct(&input.evidence_ids);
    if evidence_ids.len() == 0 {
        return Err(MemoryError::InvalidInput(InputFault::ClaimWithoutEvidence));
    }
    if evidence_ids.len() > MAX_EVIDENCE_SOURCES {
        return Err(MemoryError::InvalidInput(InputFault::ClaimSources));
    }
    Ok(
        NewClaim {
            domain: input.domain,
            scope: input.scope,
            temporal: input.temporal,
            proposition,
            evidence_ids,
        },
    )
}

/// A request to remember a claim of the user in its normal form.
pub fn normalize_remember(actor: Actor, input: &RememberUserClaim) -> (r: MemoryResult<RememberUserClaim>)
    ensures
        shown(r) == StoreModel::remember_request(actor, input@),
{
    reveal(StoreModel::remember_request);
    if actor != Actor::User {
        return Err(MemoryError::Unauthorized);
    }
    input.temporal.validate()?;
    validate_exact_evidence_text(input.evidence_text.as_str(), TextField::EvidenceText)?;
    let proposition = validate_text(input.proposition.as_str(), TextField::ClaimProposition)?;
    if !source_is_admissible(EvidenceClass::UserAssertion, input.domain) {
        return Err(MemoryError::InvalidInput(InputFault::AssertionDomain));
    }
    Ok(
        RememberUserClaim {
            domain: input.domain,
            scope: input.scope,
            temporal: input.temporal,
            evidence_text: input.evidence_text.clone(),
            proposition,
        },
    )
}

/// A request to correct a claim in its normal form.
pub fn normalize_correction(actor: Actor, input: &CorrectUserClaim) -> (r: MemoryResult<CorrectUserClaim>)
    ensures
        shown(r) == StoreModel::correct_request(actor, input@),
{
    reveal(StoreModel::correct_request);
    if actor != Actor::User {
        return Err(MemoryError::Unauthorized);
    }
    input.temporal.validate()?;
    validate_exact_evidence_text(input.evidence_text.as_str(), TextField::EvidenceText)?;
    let replacement_proposition = validate_text(
        input.replacement_proposition.as_str(),
        TextField::ReplacementProposition,
    )?;
    Ok(
        CorrectUserClaim {
            target: input.target,
            expected_revision: input.expected_revision,
            temporal: input.temporal,
            evidence_text: input.evidence_text.clone(),
            replacement_proposition,
        },
    )
}

impl MemoryDatabase {
    pub(crate) fn insert_support(&self, batch: &mut Batch, evidence_ids: &Vec<EvidenceId>, record: RecordRef)
        ensures
            self@.after(final(batch)@) == self@.after(old(batch)@).supported(
                evidence_ids@,
                record,
                evidence_ids@.len(),
            ),
    {
        let ghost start = self@.after(batch@);
        for i in 0..evidence_ids.len()
            invariant
                self@.after(batch@) == start.supported(evidence_ids@, record, i as nat),
        {
            batch.push(
                Write::PutDependency(
                    DependencyKey { source: RecordRef::Evidence(evidence_ids[i]), dependent: record },
                ),
            );
        }
    }

    pub(crate) fn insert_claim(&self, batch: &mut Batch, header: ClaimRevisionHeader, proposition: &String)
        ensures
            self@.after(final(batch)@) == self@.after(old(batch)@).with_claim(header@, proposition@),
    {
        reveal(StoreModel::with_claim);
        let record = RecordRef::Claim(header.id);
        let evidence_ids = copies(&header.evidence_ids);
        let scope = header.scope;
        let temporal = header.temporal;
        batch.push(Write::PutClaim(RevisionKey { id: header.id.0, revision: 1 }, header));
        batch.push(Write::PutHead(record, 1));
        batch.push(Write::PutText(record, proposition.clone()));
        self.insert_support(batch, &evidence_ids, record);
        self.insert_lexical_document(batch, record, 1, scope, temporal, proposition.as_str());
    }

    pub(crate) fn insert_relation(
        &self,
        batch: &mut Batch,
        header: SemanticRelationRevisionHeader,
        qualifier: Option<String>,
    )
        ensures
            self@.after(final(batch)@) == self@.after(old(batch)@).with_relation(header@, opt_view(qualifier)),
    {
        reveal(StoreModel::with_relation);
        let record = RecordRef::SemanticRelation(header.id);
        let evidence_ids = copies(&header.evidence_ids);
        let id = header.id;
        let from = header.from;
        let to = header.to;
        batch.push(Write::PutRelation(RevisionKey { id: id.0, revision: 1 }, header));
        batch.push(Write::PutHead(record, 1));
        batch.push(Write::PutRelationPayload(id, RelationPayload { qualifier }));
        batch.push(Write::PutDependency(DependencyKey { source: from, dependent: record }));
        batch.push(Write::PutDependency(DependencyKey { source: to, dependent: record }));
        self.insert_support(batch, &evidence_ids, record);
    }

    pub(crate) fn source_class(&self, id: EvidenceId, scope: Scope, domain: Option<ClaimDomain>) -> (r:
        MemoryResult<EvidenceClass>)
        ensures
            r == self@.source_class(id, scope, domain),
    {
        reveal(StoreModel::source_class);
        let evidence = match self.inspect_evidence(id)? {
            Some(evidence) => evidence,
            None => return Err(MemoryError::SourceUnavailable(id)),
        };
        if evidence.availability.state != RecordState::Active {
            return Err(MemoryError::SourceUnavailable(id));
        }
        if evidence.header.scope != scope {
            return Err(MemoryError::ScopeMismatch);
        }
        if let Some(wanted) = domain {
            if !source_is_admissible(evidence.header.class, wanted) {
                return Err(
                    MemoryError::InadmissibleSource {
                        evidence_id: id,
                        class: evidence.header.class,
                        domain: wanted,
                    },
                );
            }
        }
        Ok(evidence.header.class)
    }

    pub(crate) fn source_classes(
        &self,
        evidence_ids: &Vec<EvidenceId>,
        scope: Scope,
        domain: Option<ClaimDomain>,
    ) -> (r: MemoryResult<Vec<EvidenceClass>>)
        ensures
            match (r, self@.source_classes(evidence_ids@, scope, domain, evidence_ids@.len())) {
                (Ok(classes), Ok(owed)) => classes@ == owed,
                (Err(error), Err(refusal)) => error == refusal,
                _ => false,
            },
    {
        let mut classes: Vec<EvidenceClass> = Vec::new();
        for i in 0..evidence_ids.len()
            invariant
                self@.source_classes(evidence_ids@, scope, domain, i as nat) == Ok::<
                    Seq<EvidenceClass>,
                    MemoryError,
                >(classes@),
        {
            match self.source_class(evidence_ids[i], scope, domain) {
                Err(error) => {
                    proof {
                        source_classes_refusal_persists(
                            self@,
                            evidence_ids@,
                            scope,
                            domain,
                            (i + 1) as nat,
                            evidence_ids@.len(),
                        );
                    }
                    return Err(error);
                },
                Ok(class) => {
                    classes.push(class);
                },
            }
        }
        Ok(classes)
    }

    /// What creating a claim would do with the given instant and identifiers. `request`
    /// encodes the normal form of the input.
    pub fn plan_create_claim(
        &self,
        operation: OperationContext,
        input: &NewClaim,
        request: &[u8],
        fresh: &Fresh,
    ) -> (r: MemoryResult<Planned<ClaimReceipt>>)
        requires
            fresh.ids@.len() == 2,
        ensures
            plans(self@, r, self@.create_claim(operation, input@, request@, fresh@)),
    {
        let wanted = normalize_claim(operation.actor, input)?;
        let digest = mutation_digest(&self.digest_key, "create_claim", operation.actor, request);
        let mut batch = Batch::new();
        match self.replayed_operation(operation.id, digest)? {
            Some(Receipt::Claim(receipt)) => {
                return Ok(Planned { batch, receipt });
            },
            Some(_) => {
                return Err(MemoryError::Corrupt(CorruptFault::ReceiptShape));
            },
            None => {},
        }
        let classes = self.source_classes(&wanted.evidence_ids, wanted.scope, Some(wanted.domain))?;
        validate_claim_activation(operation.actor, wanted.domain, &classes)?;
        let id = ClaimId(fresh.ids[1]);
        let header = ClaimRevisionHeader {
            id,
            revision: 1,
            previous_revision: None,
            domain: wanted.domain,
            scope: wanted.scope,
            temporal: wanted.temporal,
            evidence_ids: wanted.evidence_ids,
            state: RecordState::Active,
            recorded_at_ms: fresh.recorded_at_ms,
            operation_id: operation.id,
        };
        let receipt = ClaimReceipt { id, revision: 1, state: RecordState::Active };
        self.insert_claim(&mut batch, header, &wanted.proposition);
        let subjects: Vec<RecordRef> = vec![RecordRef::Claim(id)];
        assert(subjects@ =~= seq![RecordRef::Claim(id)]);
        self.insert_audit(
            &mut batch,
            fresh.ids[0],
            operation,
            AuditAction::ClaimCreated,
            subjects,
            Vec::new(),
            None,
            fresh.recorded_at_ms,
        );
        self.insert_operation(&mut batch, operation.id, digest, Receipt::Claim(receipt));
        Ok(Planned { batch, receipt })
    }

    /// Creates a claim on active evidence of its scope.
    pub fn create_claim(&mut self, operation: OperationContext, input: NewClaim, request: &[u8]) -> (r:
        MemoryResult<ClaimReceipt>)
        ensures
            exists|fresh: FreshModel|
                fresh.ids.len() == 2 && #[trigger] commits(
                    old(self)@,
                    final(self)@,
                    r,
                    old(self)@.create_claim(operation, input@, request@, fresh),
                ),
    {
        let fresh = Fresh::draw(2);
        let planned = self.plan_create_claim(operation, &input, request, &fresh);
        let r = self.commit(planned);
        assert(commits(old(self)@, self@, r, old(self)@.create_claim(operation, input@, request@, fresh@)));
        r
    }

    /// What remembering a claim would do with the given instant and identifiers.
    /// `request` encodes the normal form of the input.
    pub fn plan_remember_user_claim(
        &self,
        operation: OperationContext,
        input: &RememberUserClaim,
        request: &[u8],
        fresh: &Fresh,
    ) -> (r: MemoryResult<Planned<RememberReceipt>>)
        requires
            fresh.ids@.len() == 3,
        ensures
            plans(self@, r, self@.remember_user_claim(operation, input@, request@, fresh@)),
    {
        let wanted = normalize_remember(operation.actor, input)?;
        let digest = mutation_digest(&self.digest_key, "remember_user_claim", operation.actor, request);
        let mut batch = Batch::new();
        match self.replayed_operation(operation.id, digest)? {
            Some(Receipt::Remember(receipt)) => {
                return Ok(Planned { batch, receipt });
            },
            Some(_) => {
                return Err(MemoryError::Corrupt(CorruptFault::ReceiptShape));
            },
            None => {},
        }
        let evidence_id = EvidenceId(fresh.ids[1]);
        let claim_id = ClaimId(fresh.ids[2]);
        let evidence = EvidenceHeader {
            id: evidence_id,
            class: EvidenceClass::UserAssertion,
            captured_by: Actor::User,
            scope: wanted.scope,
            temporal: wanted.temporal,
            lifecycle: EvidenceLifecycleTruth::Direct,
            recorded_at_ms: fresh.recorded_at_ms,
            operation_id: operation.id,
        };
        let sources: Vec<EvidenceId> = vec![evidence_id];
        assert(sources@ =~= seq![evidence_id]);
        let claim = ClaimRevisionHeader {
            id: claim_id,
            revision: 1,
            previous_revision: None,
            domain: wanted.domain,
            scope: wanted.scope,
            temporal: wanted.temporal,
            evidence_ids: sources,
            state: RecordState::Active,
            recorded_at_ms: fresh.recorded_at_ms,
            operation_id: operation.id,
        };
        let receipt = RememberReceipt {
            evidence: EvidenceReceipt { id: evidence_id, availability_revision: 1 },
            claim: ClaimReceipt { id: claim_id, revision: 1, state: RecordState::Active },
        };
        self.insert_evidence(&mut batch, evidence, &wanted.evidence_text);
        self.insert_claim(&mut batch, claim, &wanted.proposition);
        let subjects: Vec<RecordRef> = vec![RecordRef::Evidence(evidence_id), RecordRef::Claim(claim_id)];
        assert(subjects@ =~= seq![RecordRef::Evidence(evidence_id), RecordRef::Claim(claim_id)]);
        self.insert_audit(
            &mut batch,
            fresh.ids[0],
            operation,
            AuditAction::UserClaimRemembered,
            subjects,
            Vec::new(),
            None,
            fresh.recorded_at_ms,
        );
        self.insert_operation(&mut batch, operation.id, digest, Receipt::Remember(receipt));
        Ok(Planned { batch, receipt })
    }

    /// Retains what the user asserted and activates the claim that rests on it, in one
    /// step. A retry with the same operation answers the same two identifiers.
    pub fn remember_user_claim(
        &mut self,
        operation: OperationContext,
        input: RememberUserClaim,
        request: &[u8],
    ) -> (r: MemoryResult<RememberReceipt>)
        ensures
            exists|fresh: FreshModel|
                fresh.ids.len() == 3 && #[trigger] commits(
                    old(self)@,
                    final(self)@,
                    r,
                    old(self)@.remember_user_claim(operation, input@, request@, fresh),
                ),
    {
        let fresh = Fresh::draw(3);
        let planned = self.plan_remember_user_claim(operation, &input, request, &fresh);
        let r = self.commit(planned);
        assert(commits(
            old(self)@,
            self@,
            r,
            old(self)@.remember_user_claim(operation, input@, request@, fresh@),
        ));
        r
    }

    fn correctable(&self, actor: Actor, target: ClaimId, expected_revision: u64) -> (r: MemoryResult<
        ClaimRevisionHeader,
    >)
        ensures
            shown(r) == self@.correctable(actor, target, expected_revision),
    {
        reveal(StoreModel::correctable);
        let current = match self.inspect_claim(target)? {
            Some(current) => current,
            None => return Err(MemoryError::NotFound(RecordRef::Claim(target))),
        };
        if current.header.revision != expected_revision {
            return Err(
                MemoryError::RevisionConflict {
                    expected: expected_revision,
                    actual: current.header.revision,
                },
            );
        }
        if current.header.state != RecordState::Active {
            return Err(MemoryError::InvalidInput(InputFault::InactiveCorrection));
        }
        if !source_is_admissible(EvidenceClass::UserCorrection, current.header.domain) {
            return Err(MemoryError::InvalidInput(InputFault::CorrectionDomain));
        }
        let classes: Vec<EvidenceClass> = vec![EvidenceClass::UserCorrection];
        assert(classes@ =~= seq![EvidenceClass::UserCorrection]);
        validate_claim_activation(actor, current.header.domain, &classes)?;
        Ok(current.header)
    }

    /// What correcting a claim would do with the given instant and identifiers.
    /// `request` encodes the normal form of the input.
    pub fn plan_correct_user_claim(
        &self,
        operation: OperationContext,
        input: &CorrectUserClaim,
        request: &[u8],
        fresh: &Fresh,
    ) -> (r: MemoryResult<Planned<CorrectionReceipt>>)
        requires
            fresh.ids@.len() == 4,
        ensures
            plans(self@, r, self@.correct_user_claim(operation, input@, request@, fresh@)),
    {
        let wanted = normalize_correction(operation.actor, input)?;
        let digest = mutation_digest(&self.digest_key, "correct_user_claim", operation.actor, request);
        let mut batch = Batch::new();
        match self.replayed_operation(operation.id, digest)? {
            Some(Receipt::Correction(receipt)) => {
                return Ok(Planned { batch, receipt });
            },
            Some(_) => {
                return Err(MemoryError::Corrupt(CorruptFault::ReceiptShape));
            },
            None => {},
        }
        let current = self.correctable(operation.actor, wanted.target, wanted.expected_revision)?;
        let target = RecordRef::Claim(wanted.target);
        let dependencies = self.dependency_closure(target, false)?;
        let now: i64 = fresh.recorded_at_ms;
        let evidence_id = EvidenceId(fresh.ids[1]);
        let replacement_id = ClaimId(fresh.ids[2]);
        let relation_id = RelationId(fresh.ids[3]);
        let superseded = self.append_state_revision(
            &mut batch,
            target,
            wanted.expected_revision,
            RecordState::Superseded,
            operation.id,
            now,
        )?;
        self.remove_lexical_document(&mut batch, target);
        let invalidated = self.invalidate_dependencies(
            &mut batch,
            &dependencies,
            RecordState::Unsupported,
            operation.id,
            now,
        )?;
        let evidence = EvidenceHeader {
            id: evidence_id,
            class: EvidenceClass::UserCorrection,
            captured_by: Actor::User,
            scope: current.scope,
            temporal: wanted.temporal,
            lifecycle: EvidenceLifecycleTruth::Direct,
            recorded_at_ms: now,
            operation_id: operation.id,
        };
        let claim_sources: Vec<EvidenceId> = vec![evidence_id];
        let relation_sources: Vec<EvidenceId> = vec![evidence_id];
        assert(claim_sources@ =~= seq![evidence_id]);
        assert(relation_sources@ =~= seq![evidence_id]);
        let replacement = ClaimRevisionHeader {
            id: replacement_id,
            revision: 1,
            previous_revision: None,
            domain: current.domain,
            scope: current.scope,
            temporal: wanted.temporal,
            evidence_ids: claim_sources,
            state: RecordState::Active,
            recorded_at_ms: now,
            operation_id: operation.id,
        };
        let supersedes = SemanticRelationRevisionHeader {
            id: relation_id,
            revision: 1,
            previous_revision: None,
            from: RecordRef::Claim(replacement_id),
            to: target,
            kind: RelationKind::Supersedes,
            scope: current.scope,
            evidence_ids: relation_sources,
            state: RecordState::Active,
            recorded_at_ms: now,
            operation_id: operation.id,
        };
        self.insert_evidence(&mut batch, evidence, &wanted.evidence_text);
        self.insert_claim(&mut batch, replacement, &wanted.replacement_proposition);
        self.insert_relation(&mut batch, supersedes, None);
        let mut subjects: Vec<RecordRef> = vec![
            RecordRef::Evidence(evidence_id),
            target,
            RecordRef::Claim(replacement_id),
            RecordRef::SemanticRelation(relation_id),
        ];
        assert(subjects@ =~= seq![
            RecordRef::Evidence(evidence_id),
            target,
            RecordRef::Claim(replacement_id),
            RecordRef::SemanticRelation(relation_id),
        ]);
        append_records(&mut subjects, &invalidated);
        let receipt = CorrectionReceipt {
            evidence: EvidenceReceipt { id: evidence_id, availability_revision: 1 },
            superseded,
            replacement: ClaimReceipt { id: replacement_id, revision: 1, state: RecordState::Active },
            supersedes_relation: RelationReceipt { id: relation_id, revision: 1, state: RecordState::Active },
            invalidated,
        };
        self.insert_audit(
            &mut batch,
            fresh.ids[0],
            operation,
            AuditAction::UserClaimCorrected,
            subjects,
            Vec::new(),
            None,
            now,
        );
        self.insert_operation(&mut batch, operation.id, digest, Receipt::Correction(receipt.replica()));
        Ok(Planned { batch, receipt })
    }

    /// Captures the user's correction, supersedes the old claim, activates the
    /// replacement and the relation between them, and invalidates what still rests on
    /// the old claim, in one step.
    pub fn correct_user_claim(
        &mut self,
        operation: OperationContext,
        input: CorrectUserClaim,
        request: &[u8],
    ) -> (r: MemoryResult<CorrectionReceipt>)
        ensures
            exists|fresh: FreshModel|
                fresh.ids.len() == 4 && #[trigger] commits(
                    old(self)@,
                    final(self)@,
                    r,
                    old(self)@.correct_user_claim(operation, input@, request@, fresh),
                ),
    {
        let fresh = Fresh::draw(4);
        let planned = self.plan_correct_user_claim(operation, &input, request, &fresh);
        let r = self.commit(planned);
        assert(commits(
            old(self)@,
            self@,
            r,
            old(self)@.correct_user_claim(operation, input@, request@, fresh@),
        ));
        r
    }

    /// What retracting a record would do with the given instant and identifier.
    /// `request` encodes the record and the expected revision.
    pub fn plan_retract(
        &self,
        operation: OperationContext,
        record: RecordRef,
        expected_revision: u64,
        request: &[u8],
        fresh: &Fresh,
    ) -> (r: MemoryResult<Planned<RetractionReceipt>>)
        requires
            fresh.ids@.len() == 1,
        ensures
            plans(self@, r, self@.retract(operation, record, expected_revision, request@, fresh@)),
    {
        if operation.actor == Actor::Assistant {
            return Err(MemoryError::Unauthorized);
        }
        let digest = mutation_digest(&self.digest_key, "retract", operation.actor, request);
        let mut batch = Batch::new();
        match self.replayed_operation(operation.id, digest)? {
            Some(Receipt::Retraction(receipt)) => {
                return Ok(Planned { batch, receipt });
            },
            Some(_) => {
                return Err(MemoryError::Corrupt(CorruptFault::ReceiptShape));
            },
            None => {},
        }
        let standing = self.record_scope_state_revision(record)?;
        if standing.2 != expected_revision {
            return Err(
                MemoryError::RevisionConflict { expected: expected_revision, actual: standing.2 },
            );
        }
        if standing.1 != RecordState::Active {
            return Err(MemoryError::InvalidInput(InputFault::InactiveRetraction));
        }
        let dependencies = self.dependency_closure(record, false)?;
        let now: i64 = fresh.recorded_at_ms;
        let target = self.append_state_revision(
            &mut batch,
            record,
            expected_revision,
            RecordState::Retracted,
            operation.id,
            now,
        )?;
        self.remove_lexical_document(&mut batch, record);
        let invalidated = self.invalidate_dependencies(
            &mut batch,
            &dependencies,
            RecordState::Unsupported,
            operation.id,
            now,
        )?;
        let mut subjects: Vec<RecordRef> = vec![record];
        assert(subjects@ =~= seq![record]);
        append_records(&mut subjects, &invalidated);
        let receipt = RetractionReceipt { target, invalidated };
        self.insert_audit(
            &mut batch,
            fresh.ids[0],
            operation,
            AuditAction::RecordRetracted,
            subjects,
            Vec::new(),
            None,
            now,
        );
        self.insert_operation(&mut batch, operation.id, digest, Receipt::Retraction(receipt.replica()));
        Ok(Planned { batch, receipt })
    }

    /// Retracts an active record at its expected revision. What rests on it becomes
    /// unsupported in the same step, so that nothing that can be recalled stands on a
    /// retracted source.
    pub fn retract(
        &mut self,
        operation: OperationContext,
        record: RecordRef,
        expected_revision: u64,
        request: &[u8],
    ) -> (r: MemoryResult<RetractionReceipt>)
        ensures
            exists|fresh: FreshModel|
                fresh.ids.len() == 1 && #[trigger] commits(
                    old(self)@,
                    final(self)@,
                    r,
                    old(self)@.retract(operation, record, expected_revision, request@, fresh),
                ),
    {
        let fresh = Fresh::draw(1);
        let planned = self.plan_retract(operation, record, expected_revision, request, &fresh);
        let r = self.commit(planned);
        assert(commits(
            old(self)@,
            self@,
            r,
            old(self)@.retract(operation, record, expected_revision, request@, fresh@),
        ));
        r
    }
}

} // verus!
