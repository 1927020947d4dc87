//! Semantic relations between evidence, claims and entities.
use vstd::prelude::*;
use crate::clock::{Fresh, FreshModel};
use crate::context::OperationContext;
use crate::digest::{mutation_digest, mutation_digest_of};
use crate::fault::{
    CorruptFault, InputFault, MemoryError, MemoryResult, TextField, corrupt, invalid,
};
use crate::ids::{EvidenceId, RelationId};
use crate::inspect::{shown, shown_option};
use crate::order::{in_order, sorted_distinct};
use crate::records::audit::AuditAction;
use crate::records::claim::{
    EntityRecordModel, NewSemanticRelation, NewSemanticRelationModel, RelationKind,
    RelationReceipt, SemanticRelationRevisionHeader, SemanticRelationRevisionHeaderModel,
};
use crate::records::evidence::{Actor, EvidenceClass, RecordRef, RecordState, Scope};
use crate::records::receipt::{Receipt, ReceiptModel};
use crate::rules::{
    MAX_EVIDENCE_SOURCES, is_user_domain, may_activate_relation, stated_by_user, trimmed_text,
    user_domain, validate_relation_activation, validate_text,
};
use crate::staging::{Planned, commits, plans};
use crate::store::{Batch, MemoryDatabase, StoreModel};
use crate::table::opt_view;

verus! {

/// What kind of record a semantic relation can join.
#[derive(Clone, Copy, Debug, PartialEq, Eq, Structural)]
pub enum SemanticEndpointKind {
    Evidence,
    Claim,
    Entity,
}

pub open spec fn endpoint_kind(record: RecordRef) -> Option<SemanticEndpointKind> {
    match record {
        RecordRef::Evidence(_) => Some(SemanticEndpointKind::Evidence),
        RecordRef::Claim(_) => Some(SemanticEndpointKind::Claim),
        RecordRef::Entity(_) => Some(SemanticEndpointKind::Entity),
        _ => None,
    }
}

pub fn semantic_endpoint_kind(record: RecordRef) -> (r: Option<SemanticEndpointKind>)
    ensures
        r == endpoint_kind(record),
{
    match record {
        RecordRef::Evidence(_) => Some(SemanticEndpointKind::Evidence),
        RecordRef::Claim(_) => Some(SemanticEndpointKind::Claim),
        RecordRef::Entity(_) => Some(SemanticEndpointKind::Entity),
        _ => None,
    }
}

/// Whether a relation of a kind can lead from one kind of record to another.
pub open spec fn joins(kind: RelationKind, from: SemanticEndpointKind, to: SemanticEndpointKind) -> bool {
    match kind {
        RelationKind::Supports | RelationKind::Contradicts => from != SemanticEndpointKind::Entity && to
            == SemanticEndpointKind::Claim,
        RelationKind::Supersedes => from == to && from != SemanticEndpointKind::Evidence,
        RelationKind::About => (from == SemanticEndpointKind::Entity) != (to == SemanticEndpointKind::Entity),
        RelationKind::RefersTo => to == SemanticEndpointKind::Entity,
        RelationKind::DerivedFrom => from != SemanticEndpointKind::Evidence,
        RelationKind::CanonicalizesTo => from == SemanticEndpointKind::Entity && to
            == SemanticEndpointKind::Entity,
    }
}

/// What is wrong with a relation whose ends do not fit its kind.
pub open spec fn joining_fault(kind: RelationKind) -> InputFault {
    if kind == RelationKind::Supersedes {
        InputFault::SupersedesKinds
    } else {
        InputFault::EndpointMismatch(kind)
    }
}

pub fn validate_relation_endpoint_kinds(
    kind: RelationKind,
    from: SemanticEndpointKind,
    to: SemanticEndpointKind,
) -> (r: MemoryResult<()>)
    ensures
        r == (if joins(kind, from, to) {
            Ok(())
        } else {
            invalid(joining_fault(kind))
        }),
{
    let valid = match kind {
        RelationKind::Supports | RelationKind::Contradicts => from != SemanticEndpointKind::Entity && to
            == SemanticEndpointKind::Claim,
        RelationKind::Supersedes => from == to && from != SemanticEndpointKind::Evidence,
        RelationKind::About => (from == SemanticEndpointKind::Entity) != (to == SemanticEndpointKind::Entity),
        RelationKind::RefersTo => to == SemanticEndpointKind::Entity,
        RelationKind::DerivedFrom => from != SemanticEndpointKind::Evidence,
        RelationKind::CanonicalizesTo => from == SemanticEndpointKind::Entity && to
            == SemanticEndpointKind::Entity,
    };
    if valid {
        Ok(())
    } else if kind == RelationKind::Supersedes {
        Err(MemoryError::InvalidInput(InputFault::SupersedesKinds))
    } else {
        Err(MemoryError::InvalidInput(InputFault::EndpointMismatch(kind)))
    }
}

/// Whether a record is a relation or belongs to the proposal workflow.
pub open spec fn structural(record: RecordRef) -> bool {
    record is SemanticRelation || record is Proposal || record is ProposalReview
}

fn is_structural(record: RecordRef) -> (r: bool)
    ensures
        r == structural(record),
{
    match record {
        RecordRef::SemanticRelation(_) | RecordRef::Proposal(_) | RecordRef::ProposalReview(_) => true,
        _ => false,
    }
}

/// What is wrong with the ends of a relation, if anything.
pub open spec fn endpoints_fault(kind: RelationKind, from: RecordRef, to: RecordRef) -> Option<InputFault> {
    if from == to {
        Some(InputFault::RelationEndpointsEqual)
    } else if structural(from) || structural(to) {
        Some(InputFault::RelationOnRelation)
    } else {
        match (endpoint_kind(from), endpoint_kind(to)) {
            (Some(a), Some(b)) => if joins(kind, a, b) {
                None
            } else {
                Some(joining_fault(kind))
            },
            _ => Some(InputFault::RelationEndpointUnsupported),
        }
    }
}

fn check_endpoints(kind: RelationKind, from: RecordRef, to: RecordRef) -> (r: MemoryResult<()>)
    ensures
        r == (match endpoints_fault(kind, from, to) {
            Some(fault) => invalid(fault),
            None => Ok(()),
        }),
{
    if from == to {
        return Err(MemoryError::InvalidInput(InputFault::RelationEndpointsEqual));
    }
    if is_structural(from) || is_structural(to) {
        return Err(MemoryError::InvalidInput(InputFault::RelationOnRelation));
    }
    let from_kind = match semantic_endpoint_kind(from) {
        Some(found) => found,
        None => return Err(MemoryError::InvalidInput(InputFault::RelationEndpointUnsupported)),
    };
    let to_kind = match semantic_endpoint_kind(to) {
        Some(found) => found,
        None => return Err(MemoryError::InvalidInput(InputFault::RelationEndpointUnsupported)),
    };
    validate_relation_endpoint_kinds(kind, from_kind, to_kind)
}

/// An optional qualifier without the blanks at its ends.
pub open spec fn trimmed_qualifier(qualifier: Option<Seq<char>>) -> MemoryResult<Option<Seq<char>>> {
    match qualifier {
        None => Ok(None),
        Some(text) => match trimmed_text(text, TextField::RelationQualifier) {
            Err(error) => Err(error),
            Ok(kept) => Ok(Some(kept)),
        },
    }
}

pub fn validate_qualifier(qualifier: &Option<String>) -> (r: MemoryResult<Option<String>>)
    ensures
        shown_option(r) == trimmed_qualifier(opt_view(*qualifier)),
{
    match qualifier {
        None => Ok(None),
        Some(text) => {
            let kept = validate_text(text.as_str(), TextField::RelationQualifier)?;
            Ok(Some(kept))
        },
    }
}

impl StoreModel {
    /// A request to relate two records in its normal form.
    #[verifier::opaque]
    pub open spec fn relation_request(actor: Actor, input: NewSemanticRelationModel) -> MemoryResult<
        NewSemanticRelationModel,
    > {
        if actor == Actor::Assistant {
            Err(MemoryError::Unauthorized)
        } else {
            match endpoints_fault(input.kind, input.from, input.to) {
                Some(fault) => invalid(fault),
                None => match trimmed_qualifier(input.qualifier) {
                    Err(error) => Err(error),
                    Ok(qualifier) => {
                        let evidence_ids = in_order(input.evidence_ids.to_set());
                        if evidence_ids.len() == 0 {
                            invalid(InputFault::RelationWithoutEvidence)
                        } else if evidence_ids.len() > MAX_EVIDENCE_SOURCES {
                            invalid(InputFault::RelationSources)
                        } else {
                            Ok(NewSemanticRelationModel { qualifier, evidence_ids, ..input })
                        }
                    },
                },
            }
        }
    }

    /// Why a record cannot be an end of a relation in a scope.
    #[verifier::opaque]
    pub open spec fn endpoint_fault(self, endpoint: RecordRef, scope: Scope) -> Option<MemoryError> {
        match self.standing(endpoint) {
            Err(error) => Some(error),
            Ok((actual, state, _)) => if actual != scope {
                Some(MemoryError::ScopeMismatch)
            } else if state != RecordState::Active {
                Some(MemoryError::InvalidInput(InputFault::RelationEndpointInactive))
            } else {
                None
            },
        }
    }

    /// Whether a source was stated by the user.
    pub open spec fn source_stated_by_user(self, id: EvidenceId) -> bool {
        self.inspect_evidence(id) matches Ok(Some(evidence)) && stated_by_user(evidence.header.class)
    }

    /// Whether the user's own word is enough to relate a record.
    #[verifier::opaque]
    pub open spec fn user_may_activate_endpoint(self, record: RecordRef) -> MemoryResult<bool> {
        match record {
            RecordRef::Evidence(id) => match self.inspect_evidence(id) {
                Err(error) => Err(error),
                Ok(None) => Ok(false),
                Ok(Some(evidence)) => Ok(stated_by_user(evidence.header.class)),
            },
            RecordRef::Claim(id) => match self.inspect_claim(id) {
                Err(error) => Err(error),
                Ok(None) => Ok(false),
                Ok(Some(claim)) => Ok(user_domain(claim.header.domain)),
            },
            RecordRef::Entity(id) => match self.inspect_entity(id) {
                Err(error) => Err(error),
                Ok(None) => Ok(false),
                Ok(Some(entity)) => Ok(
                    forall|i: int|
                        0 <= i < entity.header.evidence_ids.len() ==> self.source_stated_by_user(
                            #[trigger] entity.header.evidence_ids[i],
                        ),
                ),
            },
            _ => Ok(false),
        }
    }

    /// Why an actor cannot relate two records.
    #[verifier::opaque]
    pub open spec fn relating_fault(self, actor: Actor, from: RecordRef, to: RecordRef) -> Option<MemoryError> {
        if actor != Actor::User {
            None
        } else {
            match self.user_may_activate_endpoint(from) {
                Err(error) => Some(error),
                Ok(false) => Some(MemoryError::Unauthorized),
                Ok(true) => match self.user_may_activate_endpoint(to) {
                    Err(error) => Some(error),
                    Ok(false) => Some(MemoryError::Unauthorized),
                    Ok(true) => None,
                },
            }
        }
    }

    /// Relating two active records of one scope. The first identifier drawn is the audit
    /// event's, the second the relation's.
    pub open spec fn create_semantic_relation(
        self,
        operation: OperationContext,
        input: NewSemanticRelationModel,
        request: Seq<u8>,
        fresh: FreshModel,
    ) -> MemoryResult<(StoreModel, RelationReceipt)> {
        let digest = mutation_digest_of(
            self.digest_key@,
            "create_semantic_relation"@,
            operation.actor,
            request,
        );
        match Self::relation_request(operation.actor, input) {
            Err(error) => Err(error),
            Ok(wanted) => match self.replay(operation.id, digest) {
                Err(error) => Err(error),
                Ok(Some(ReceiptModel::Relation(receipt))) => Ok((self, receipt)),
                Ok(Some(_)) => corrupt(CorruptFault::ReceiptShape),
                Ok(None) => match self.relatable(operation.actor, wanted) {
                    Some(error) => Err(error),
                    None => {
                        let id = RelationId(fresh.ids[1]);
                        let header = SemanticRelationRevisionHeaderModel {
                            id,
                            revision: 1,
                            previous_revision: None,
                            from: wanted.from,
                            to: wanted.to,
                            kind: wanted.kind,
                            scope: wanted.scope,
                            evidence_ids: wanted.evidence_ids,
                            state: RecordState::Active,
                            recorded_at_ms: fresh.recorded_at_ms,
                            operation_id: operation.id,
                        };
                        let receipt = RelationReceipt { id, revision: 1, state: RecordState::Active };
                        Ok(
                            (
                                self.with_relation(header, wanted.qualifier).audited(
                                    self.audit_event(
                                        fresh.ids[0],
                                        operation,
                                        AuditAction::RelationCreated,
                                        seq![RecordRef::SemanticRelation(id)],
                                        Seq::empty(),
                                        None,
                                        fresh.recorded_at_ms,
                                    ),
                                ).remembered(operation.id, digest, ReceiptModel::Relation(receipt)),
                                receipt,
                            ),
                        )
                    },
                },
            },
        }
    }

    /// Why two records cannot be related as wanted in the present state of the store.
    pub open spec fn relatable(self, actor: Actor, wanted: NewSemanticRelationModel) -> Option<MemoryError> {
        match self.endpoint_fault(wanted.from, wanted.scope) {
            Some(error) => Some(error),
            None => match self.endpoint_fault(wanted.to, wanted.scope) {
                Some(error) => Some(error),
                None => match self.source_classes(
                    wanted.evidence_ids,
                    wanted.scope,
                    None,
                    wanted.evidence_ids.len(),
                ) {
                    Err(error) => Some(error),
                    Ok(classes) => if !may_activate_relation(actor, classes) {
                        Some(MemoryError::Unauthorized)
                    } else {
                        self.relating_fault(actor, wanted.from, wanted.to)
                    },
                },
            },
        }
    }
}

/// A request to relate two records in its normal form.
pub fn normalize_relation(actor: Actor, input: &NewSemanticRelation) -> (r: MemoryResult<NewSemanticRelation>)
    ensures
        shown(r) == StoreModel::relation_request(actor, input@),
{
    reveal(StoreModel::relation_request);
    if actor == Actor::Assistant {
        return Err(MemoryError::Unauthorized);
    }
    check_endpoints(input.kind, input.from, input.to)?;
    let qualifier = validate_qualifier(&input.qualifier)?;
    let evidence_ids = sorted_distinct(&input.evidence_ids);
    if evidence_ids.len() == 0 {
        return Err(MemoryError::InvalidInput(InputFault::RelationWithoutEvidence));
    }
    if evidence_ids.len() > MAX_EVIDENCE_SOURCES {
        return Err(MemoryError::InvalidInput(InputFault::RelationSources));
    }
    Ok(
        NewSemanticRelation {
            from: input.from,
            to: input.to,
            kind: input.kind,
            scope: input.scope,
            evidence_ids,
            qualifier,
        },
    )
}

impl MemoryDatabase {
    fn check_endpoint(&self, endpoint: RecordRef, scope: Scope) -> (r: MemoryResult<()>)
        ensures
            r == (match self@.endpoint_fault(endpoint, scope) {
                Some(error) => Err(error),
                None => Ok(()),
            }),
    {
        reveal(StoreModel::endpoint_fault);
        let standing = self.record_scope_state_revision(endpoint)?;
        if standing.0 != scope {
            return Err(MemoryError::ScopeMismatch);
        }
        if standing.1 != RecordState::Active {
            return Err(MemoryError::InvalidInput(InputFault::RelationEndpointInactive));
        }
        Ok(())
    }

    fn source_stated_by_user(&self, id: EvidenceId) -> (r: bool)
        ensures
            r == self@.source_stated_by_user(id),
    {
        match self.inspect_evidence(id) {
            Ok(Some(evidence)) => evidence.header.class == EvidenceClass::UserAssertion
                || evidence.header.class == EvidenceClass::UserCorrection,
            _ => false,
        }
    }

    /// Whether the user's own word is enough to relate a record.
    pub fn user_may_activate_endpoint(&self, record: RecordRef) -> (r: MemoryResult<bool>)
        ensures
            r == self@.user_may_activate_endpoint(record),
    {
        reveal(StoreModel::user_may_activate_endpoint);
        match record {
            RecordRef::Evidence(id) => match self.inspect_evidence(id)? {
                None => Ok(false),
                Some(evidence) => Ok(
                    evidence.header.class == EvidenceClass::UserAssertion || evidence.header.class
                        == EvidenceClass::UserCorrection,
                ),
            },
            RecordRef::Claim(id) => match self.inspect_claim(id)? {
                None => Ok(false),
                Some(claim) => Ok(is_user_domain(claim.header.domain)),
            },
            RecordRef::Entity(id) => match self.inspect_entity(id)? {
                None => Ok(false),
                Some(entity) => {
                    let ids = &entity.header.evidence_ids;
                    for i in 0..ids.len()
                        invariant
                            forall|j: int| 0 <= j < i ==> self@.source_stated_by_user(#[trigger] ids@[j]),
                            ids@ == entity@.header.evidence_ids,
                            self@.inspect_entity(id) == Ok::<Option<EntityRecordModel>, MemoryError>(
                                Some(entity@),
                            ),
                            record == RecordRef::Entity(id),
                    {
                        if !self.source_stated_by_user(ids[i]) {
                            reveal(StoreModel::user_may_activate_endpoint);
                            assert(!self@.source_stated_by_user(entity@.header.evidence_ids[i as int]));
                            return Ok(false);
                        }
                    }
                    Ok(true)
                },
            },
            _ => Ok(false),
        }
    }

    fn check_relating(&self, actor: Actor, from: RecordRef, to: RecordRef) -> (r: MemoryResult<()>)
        ensures
            r == (match self@.relating_fault(actor, from, to) {
                Some(error) => Err(error),
                None => Ok(()),
            }),
    {
        reveal(StoreModel::relating_fault);
        if actor == Actor::User {
            if !self.user_may_activate_endpoint(from)? {
                return Err(MemoryError::Unauthorized);
            }
            if !self.user_may_activate_endpoint(to)? {
                return Err(MemoryError::Unauthorized);
            }
        }
        Ok(())
    }

    /// What relating two records would do with the given instant and identifiers.
    /// `request` encodes the normal form of the input.
    pub fn plan_create_semantic_relation(
        &self,
        operation: OperationContext,
        input: &NewSemanticRelation,
        request: &[u8],
        fresh: &Fresh,
    ) -> (r: MemoryResult<Planned<RelationReceipt>>)
        requires
            fresh.ids@.len() == 2,
        ensures
            plans(self@, r, self@.create_semantic_relation(operation, input@, request@, fresh@)),
    {
        let wanted = normalize_relation(operation.actor, input)?;
        let digest = mutation_digest(
            &self.digest_key,
            "create_semantic_relation",
            operation.actor,
            request,
        );
        let mut batch = Batch::new();
        match self.replayed_operation(operation.id, digest)? {
            Some(Receipt::Relation(receipt)) => {
                return Ok(Planned { batch, receipt });
            },
            Some(_) => {
                return Err(MemoryError::Corrupt(CorruptFault::ReceiptShape));
            },
            None => {},
        }
        self.check_endpoint(wanted.from, wanted.scope)?;
        self.check_endpoint(wanted.to, wanted.scope)?;
        let classes = self.source_classes(&wanted.evidence_ids, wanted.scope, None)?;
        validate_relation_activation(operation.actor, &classes)?;
        self.check_relating(operation.actor, wanted.from, wanted.to)?;
        let id = RelationId(fresh.ids[1]);
        let header = SemanticRelationRevisionHeader {
            id,
            revision: 1,
            previous_revision: None,
            from: wanted.from,
            to: wanted.to,
            kind: wanted.kind,
            scope: wanted.scope,
            evidence_ids: wanted.evidence_ids,
            state: RecordState::Active,
            recorded_at_ms: fresh.recorded_at_ms,
            operation_id: operation.id,
        };
        let receipt = RelationReceipt { id, revision: 1, state: RecordState::Active };
        self.insert_relation(&mut batch, header, wanted.qualifier);
        let subjects: Vec<RecordRef> = vec![RecordRef::SemanticRelation(id)];
        assert(subjects@ =~= seq![RecordRef::SemanticRelation(id)]);
        self.insert_audit(
            &mut batch,
            fresh.ids[0],
            operation,
            AuditAction::RelationCreated,
            subjects,
            Vec::new(),
            None,
            fresh.recorded_at_ms,
        );
        self.insert_operation(&mut batch, operation.id, digest, Receipt::Relation(receipt));
        Ok(Planned { batch, receipt })
    }

    /// Relates two active records of one scope on evidence.
    pub fn create_semantic_relation(
        &mut self,
        operation: OperationContext,
        input: NewSemanticRelation,
        request: &[u8],
    ) -> (r: MemoryResult<RelationReceipt>)
        ensures
            exists|fresh: FreshModel|
                fresh.ids.len() == 2 && #[trigger] commits(
                    old(self)@,
                    final(self)@,
                    r,
                    old(self)@.create_semantic_relation(operation, input@, request@, fresh),
                ),
    {
        let fresh = Fresh::draw(2);
        let planned = self.plan_create_semantic_relation(operation, &input, request, &fresh);
        let r = self.commit(planned);
        assert(commits(
            old(self)@,
            self@,
            r,
            old(self)@.create_semantic_relation(operation, input@, request@, fresh@),
        ));
        r
    }
}

} // verus!
