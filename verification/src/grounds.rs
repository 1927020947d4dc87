//! What is brought forward, by whom and on what grounds: which evidence each actor may
//! capture, which domains it supports, and when a request to capture, claim, remember,
//! correct or relate is heard.

use vstd::prelude::*;
use crate::clock::FreshModel;
use crate::context::OperationContext;
use crate::fault::{MemoryError, MemoryResult};
use crate::ids::{EvidenceId, OperationId};
use crate::order::{Keyed, in_order, in_order_lists};
use crate::records::audit::{PurgeDependency, RecordRevision, RetractionReceiptModel};
use crate::records::claim::{
    CorrectUserClaimModel, NewClaimModel, NewSemanticRelationModel, RelationKind,
    RememberUserClaimModel,
};
use crate::records::evidence::{
    Actor, ClaimDomain, EvidenceClass, EvidenceLifecycleModel, NewEvidenceModel, RecordRef,
    RecordState, Scope, TerminalTurnStatus,
};
use crate::relations::endpoints_fault;
use crate::rules::{
    admissible, all_stated_by_user, may_activate_claim, may_activate_relation, may_capture,
    stated_by_user,
};
use crate::store::StoreModel;
use crate::text::{trimmed, utf8};

verus! {

/// Each domain rests on its own kinds of evidence. The user speaks for themselves and
/// for the session, and corrects what is said of the world and of the workspace. Tools,
/// actions and imported sources attest the world, artifacts attest what they contain,
/// the system attests itself and the session, and a commitment of the assistant attests
/// nothing but that commitment. An utterance attests nothing.
pub proof fn domains_rest_on_their_own_evidence(class: EvidenceClass, domain: ClaimDomain)
    ensures
        admissible(class, domain) <==> match domain {
            ClaimDomain::UserProfile | ClaimDomain::UserPreference | ClaimDomain::UserNote => class
                is UserAssertion || class is UserCorrection,
            ClaimDomain::SessionContext => class is UserAssertion || class is UserCorrection || class
                is ToolObservation || class is ActionOutcome || class is SystemObservation,
            ClaimDomain::ExternalFact | ClaimDomain::WorkspaceFact => class is UserCorrection || class
                is ImportedSource || class is ToolObservation || class is ActionOutcome || class
                is ArtifactSnapshot || class is ArtifactPassage,
            ClaimDomain::ArtifactContent => class is ImportedSource || class is ArtifactSnapshot || class
                is ArtifactPassage,
            ClaimDomain::SystemFact => class is ToolObservation || class is ActionOutcome || class
                is SystemObservation,
            ClaimDomain::AssistantCommitment => class is AssistantCommitment,
        },
{
}

/// What the user asserts supports exactly the domains of the user and the session, and
/// what the user corrects supports those and the facts of the world and the workspace.
pub proof fn users_speak_for_themselves(domain: ClaimDomain)
    ensures
        admissible(EvidenceClass::UserAssertion, domain) <==> (domain is UserProfile || domain is UserPreference
            || domain is UserNote || domain is SessionContext),
        admissible(EvidenceClass::UserCorrection, domain) <==> (admissible(EvidenceClass::UserAssertion, domain)
            || domain is ExternalFact || domain is WorkspaceFact),
{
}

/// Nobody captures in another's name: assertions and corrections come from the user
/// alone, observations, outcomes and commitments from the system and the operator,
/// imported sources from anyone but the assistant, utterances from anyone but the user,
/// and artifacts from nobody, for they are imported.
pub proof fn actors_capture_their_own(actor: Actor, class: EvidenceClass)
    ensures
        may_capture(actor, class) <==> match actor {
            Actor::User => class is UserAssertion || class is UserCorrection || class is ImportedSource,
            Actor::Assistant => class is AssistantUtterance,
            Actor::System | Actor::Operator => class is ImportedSource || class is ToolObservation || class
                is ActionOutcome || class is SystemObservation || class is AssistantCommitment || class
                is AssistantUtterance,
        },
{
}

/// Evidence is captured if and only if its time makes sense, its text says something in
/// at most a mebibyte, its class is one that the actor may capture, and it comes as its
/// class comes: a commitment from a turn that was completed, a tool's observation, an
/// outcome or an utterance directly or from a turn that ended in whatever way, and
/// everything else directly. A turn is named in one to 256 bytes.
pub proof fn captures_are_heard(actor: Actor, input: NewEvidenceModel)
    ensures
        StoreModel::evidence_request_fault(actor, input) is None <==> {
            &&& input.temporal.valid_from_ms is Some && input.temporal.valid_to_ms is Some
                ==> input.temporal.valid_from_ms->Some_0 < input.temporal.valid_to_ms->Some_0
            &&& trimmed(input.text).len() > 0
            &&& utf8(input.text).len() <= 1_048_576
            &&& match actor {
                Actor::User => input.class is UserAssertion || input.class is UserCorrection || input.class
                    is ImportedSource,
                Actor::Assistant => input.class is AssistantUtterance,
                _ => !(input.class is UserAssertion || input.class is UserCorrection || input.class
                    is ArtifactSnapshot || input.class is ArtifactPassage),
            }
            &&& match input.lifecycle {
                EvidenceLifecycleModel::Direct => !(input.class is AssistantCommitment),
                EvidenceLifecycleModel::TerminalTurn { source_event_id, status } => {
                    &&& 1 <= utf8(source_event_id).len() <= 256
                    &&& input.class is ToolObservation || input.class is ActionOutcome || input.class
                        is AssistantUtterance || (input.class is AssistantCommitment && status
                        == TerminalTurnStatus::Completed)
                },
            }
        },
        trimmed(input.text).len() > 0 && utf8(input.text).len() <= 1_048_576 && input.temporal.coherent()
            && !(input.class is ArtifactSnapshot || input.class is ArtifactPassage) && !may_capture(
            actor,
            input.class,
        ) ==> StoreModel::evidence_request_fault(actor, input) == Some(MemoryError::Unauthorized),
{
}

/// A claim is activated by the system and the operator on any evidence that supports it,
/// by the user in a domain of theirs on evidence that the user gave throughout, and by
/// the assistant never; a relation likewise, in whatever domain.
pub proof fn users_activate_their_own(actor: Actor, domain: ClaimDomain, classes: Seq<EvidenceClass>)
    ensures
        may_activate_relation(actor, classes) <==> (actor is System || actor is Operator || (actor is User
            && forall|i: int|
            0 <= i < classes.len() ==> (#[trigger] classes[i] is UserAssertion || classes[i] is UserCorrection))),
        may_activate_claim(actor, domain, classes) <==> (may_activate_relation(actor, classes) && (actor is User
            ==> domain is UserProfile || domain is UserPreference || domain is UserNote || domain
            is SessionContext)),
{
    assert forall|i: int| 0 <= i < classes.len() && all_stated_by_user(classes) implies #[trigger] classes[i]
        is UserAssertion || classes[i] is UserCorrection by {
        assert(stated_by_user(classes[i]));
    }
}

/// The user is heard when they ask to remember something of their own: a request whose
/// time makes sense, whose evidence says something in at most a mebibyte and whose
/// proposition says something in at most 64 kibibytes is refused only for its domain,
/// and in a domain of the user it is not refused. Nobody else is heard.
pub proof fn users_are_remembered(actor: Actor, input: RememberUserClaimModel)
    ensures
        match StoreModel::remember_request(actor, input) {
            Ok(wanted) => {
                &&& wanted.proposition == trimmed(input.proposition)
                &&& wanted == (RememberUserClaimModel { proposition: wanted.proposition, ..input })
            },
            Err(_) => true,
        },
        StoreModel::remember_request(actor, input) is Ok <==> {
            &&& actor is User
            &&& input.temporal.valid_from_ms is Some && input.temporal.valid_to_ms is Some
                ==> input.temporal.valid_from_ms->Some_0 < input.temporal.valid_to_ms->Some_0
            &&& trimmed(input.evidence_text).len() > 0
            &&& utf8(input.evidence_text).len() <= 1_048_576
            &&& trimmed(input.proposition).len() > 0
            &&& utf8(trimmed(input.proposition)).len() <= 65_536
            &&& input.domain is UserProfile || input.domain is UserPreference || input.domain is UserNote
                || input.domain is SessionContext
        },
        !(actor is User) ==> StoreModel::remember_request(actor, input) == Err::<RememberUserClaimModel, MemoryError>(
            MemoryError::Unauthorized,
        ),
{
    reveal(StoreModel::remember_request);
}

/// A set has as many members as its list.
pub proof fn lists_are_as_long<K: Keyed>(s: Set<K>)
    requires
        s.finite(),
    ensures
        in_order(s).len() == s.len(),
        in_order(s).no_duplicates(),
        in_order(s).to_set() == s,
{
    in_order_lists(s);
    let list = in_order(s);
    assert(list.no_duplicates()) by {
        assert forall|i: int, j: int| 0 <= i < list.len() && 0 <= j < list.len() && i != j implies list[i]
            != list[j] by {
            if i < j {
                assert(list[i].rank() < list[j].rank());
            } else {
                assert(list[j].rank() < list[i].rank());
            }
        }
    }
    list.unique_seq_to_set();
    assert(list.to_set() =~= s);
}

/// A claim is asked for by anyone but the assistant, at a time that makes sense, with a
/// proposition that says something in at most 64 kibibytes, on one to 64 pieces of
/// evidence. It is taken up as it was asked for: the proposition without the blanks at
/// its ends, each piece of evidence once and in order, and everything else unchanged.
pub proof fn claims_are_heard(actor: Actor, input: NewClaimModel)
    ensures
        match StoreModel::claim_request(actor, input) {
            Ok(wanted) => {
                &&& wanted.proposition == trimmed(input.proposition)
                &&& wanted.evidence_ids.to_set() == input.evidence_ids.to_set()
                &&& wanted.evidence_ids.no_duplicates()
                &&& wanted.domain == input.domain && wanted.scope == input.scope && wanted.temporal
                    == input.temporal
            },
            Err(_) => true,
        },
        StoreModel::claim_request(actor, input) is Ok <==> {
            &&& !(actor is Assistant)
            &&& input.temporal.valid_from_ms is Some && input.temporal.valid_to_ms is Some
                ==> input.temporal.valid_from_ms->Some_0 < input.temporal.valid_to_ms->Some_0
            &&& trimmed(input.proposition).len() > 0
            &&& utf8(trimmed(input.proposition)).len() <= 65_536
            &&& 1 <= input.evidence_ids.to_set().len() <= 64
        },
{
    reveal(StoreModel::claim_request);
    vstd::seq_lib::seq_to_set_is_finite(input.evidence_ids);
    lists_are_as_long(input.evidence_ids.to_set());
}

/// The classes of sources are those of the evidence they name, in their order, and are
/// found if and only if each source stands: it is there, active and in the scope, and it
/// supports the domain, where one is given.
proof fn sources_have_their_classes(
    s: StoreModel,
    ids: Seq<EvidenceId>,
    scope: Scope,
    domain: Option<ClaimDomain>,
    n: nat,
)
    requires
        n <= ids.len(),
    ensures
        match s.source_classes(ids, scope, domain, n) {
            Ok(classes) => {
                &&& classes.len() == n
                &&& forall|i: int|
                    0 <= i < n ==> source_stands(s, #[trigger] ids[i], scope) && classes[i] == class_of(s, ids[i])
                        && (domain matches Some(wanted) ==> admissible(classes[i], wanted))
            },
            Err(_) => exists|i: int|
                0 <= i < n && (!source_stands(s, #[trigger] ids[i], scope) || (domain matches Some(wanted)
                    && !admissible(class_of(s, ids[i]), wanted))),
        },
    decreases n,
{
    if n > 0 {
        let m = (n - 1) as nat;
        sources_have_their_classes(s, ids, scope, domain, m);
        reveal(StoreModel::source_class);
        let id = ids[n - 1];
        match s.source_classes(ids, scope, domain, m) {
            Err(_) => {},
            Ok(classes) => {
                match s.source_class(id, scope, domain) {
                    Err(_) => {
                        assert(!source_stands(s, ids[n - 1], scope) || (domain matches Some(wanted)
                            && !admissible(class_of(s, ids[n - 1]), wanted)));
                    },
                    Ok(class) => {
                        let all = classes.push(class);
                        assert forall|i: int| 0 <= i < n implies source_stands(s, #[trigger] ids[i], scope) && all[i]
                            == class_of(s, ids[i]) && (domain matches Some(wanted) ==> admissible(all[i], wanted)) by {
                            if i < n - 1 {
                                assert(all[i] == classes[i]);
                            }
                        }
                    },
                }
            },
        }
    }
}

/// Whether a piece of evidence is there, active and in a scope.
pub open spec fn source_stands(s: StoreModel, id: EvidenceId, scope: Scope) -> bool {
    match s.inspect_evidence(id) {
        Ok(Some(evidence)) => evidence.availability.state == RecordState::Active && evidence.header.scope == scope,
        _ => false,
    }
}

/// The class of a piece of evidence that is there.
pub open spec fn class_of(s: StoreModel, id: EvidenceId) -> EvidenceClass {
    s.inspect_evidence(id)->Ok_0->Some_0.header.class
}

/// A claim is created if and only if it is asked for as it has to be, each of its sources
/// is there, active, in the claim's scope and of a class that supports the claim's
/// domain, and, where the user asks, the domain is the user's and every source is what
/// the user said.
pub proof fn claims_stand_on_their_sources(
    s: StoreModel,
    operation: OperationContext,
    input: NewClaimModel,
    request: Seq<u8>,
    fresh: FreshModel,
)
    requires
        !s.operations.contains_key(operation.id),
        StoreModel::claim_request(operation.actor, input) is Ok,
    ensures
        s.create_claim(operation, input, request, fresh) is Ok <==> forall|id: EvidenceId| #[trigger]
            input.evidence_ids.contains(id) ==> {
                &&& source_stands(s, id, input.scope)
                &&& admissible(class_of(s, id), input.domain)
                &&& operation.actor is User ==> class_of(s, id) is UserAssertion || class_of(s, id) is UserCorrection
                &&& operation.actor is User ==> input.domain is UserProfile || input.domain is UserPreference
                    || input.domain is UserNote || input.domain is SessionContext
            },
{
    reveal(StoreModel::replay);
    claims_are_heard(operation.actor, input);
    let wanted = StoreModel::claim_request(operation.actor, input)->Ok_0;
    let ids = wanted.evidence_ids;
    sources_have_their_classes(s, ids, input.scope, Some(input.domain), ids.len());
    assert(ids.len() >= 1) by {
        reveal(StoreModel::claim_request);
    }
    assert forall|id: EvidenceId| input.evidence_ids.contains(id) <==> #[trigger] ids.contains(id) by {
        assert(ids.to_set().contains(id) <==> input.evidence_ids.to_set().contains(id));
    }
    match s.source_classes(ids, input.scope, Some(input.domain), ids.len()) {
        Ok(classes) => {
            users_activate_their_own(operation.actor, input.domain, classes);
            if s.create_claim(operation, input, request, fresh) is Ok {
                assert forall|id: EvidenceId| #[trigger] input.evidence_ids.contains(id) implies source_stands(
                    s,
                    id,
                    input.scope,
                ) && admissible(class_of(s, id), input.domain) && (operation.actor is User ==> class_of(s, id)
                    is UserAssertion || class_of(s, id) is UserCorrection) by {
                    assert(ids.contains(id));
                    let i = choose|i: int| 0 <= i < ids.len() && ids[i] == id;
                    assert(classes[i] == class_of(s, ids[i]));
                }
                assert(input.evidence_ids.contains(ids[0])) by {
                    assert(ids.contains(ids[0]));
                }
            } else {
                assert(input.evidence_ids.contains(ids[0])) by {
                    assert(ids.contains(ids[0]));
                }
                if forall|i: int| 0 <= i < classes.len() ==> (#[trigger] classes[i] is UserAssertion || classes[i]
                    is UserCorrection) {
                } else {
                    let i = choose|i: int|
                        0 <= i < classes.len() && !(#[trigger] classes[i] is UserAssertion || classes[i]
                            is UserCorrection);
                    assert(class_of(s, ids[i]) == classes[i]);
                    assert(ids.contains(ids[i]));
                    assert(input.evidence_ids.contains(ids[i]));
                }
            }
        },
        Err(_) => {
            let i = choose|i: int|
                0 <= i < ids.len() && (!source_stands(s, #[trigger] ids[i], input.scope) || !admissible(
                    class_of(s, ids[i]),
                    input.domain,
                ));
            assert(ids.contains(ids[i]));
            assert(input.evidence_ids.contains(ids[i]));
        },
    }
}

/// Which records a relation can join: support and contradiction lead from evidence or a
/// claim to a claim, supersession joins two claims or two entities, a record is about
/// another if just one of them is an entity, references and derivations lead to an entity
/// and from a claim or an entity, and only entities are canonicalized, to entities.
pub proof fn relations_join_what_they_can(kind: RelationKind, from: RecordRef, to: RecordRef)
    ensures
        endpoints_fault(kind, from, to) is None <==> {
            &&& from != to
            &&& from is Evidence || from is Claim || from is Entity
            &&& to is Evidence || to is Claim || to is Entity
            &&& match kind {
                RelationKind::Supports => (from is Evidence || from is Claim) && to is Claim,
                RelationKind::Contradicts => (from is Evidence || from is Claim) && to is Claim,
                RelationKind::Supersedes => (from is Claim && to is Claim) || (from is Entity && to is Entity),
                RelationKind::About => (from is Entity && (to is Evidence || to is Claim)) || (to is Entity && (from
                    is Evidence || from is Claim)),
                RelationKind::RefersTo => to is Entity,
                RelationKind::DerivedFrom => from is Claim || from is Entity,
                RelationKind::CanonicalizesTo => from is Entity && to is Entity,
            }
        },
{
}

/// A relation is asked for by anyone but the assistant, between records that it can join,
/// on one to 64 pieces of evidence, with no qualifier or one that says something in at
/// most 64 kibibytes. It is taken up as it was asked for, without the blanks at the ends
/// of the qualifier, and each piece of evidence once.
pub proof fn relations_are_heard(actor: Actor, input: NewSemanticRelationModel)
    ensures
        StoreModel::relation_request(actor, input) is Ok <==> {
            &&& !(actor is Assistant)
            &&& endpoints_fault(input.kind, input.from, input.to) is None
            &&& input.qualifier matches Some(text) ==> trimmed(text).len() > 0 && utf8(trimmed(text)).len() <= 65_536
            &&& 1 <= input.evidence_ids.to_set().len() <= 64
        },
        StoreModel::relation_request(actor, input) matches Ok(wanted) ==> {
            &&& wanted.from == input.from && wanted.to == input.to && wanted.kind == input.kind && wanted.scope
                == input.scope
            &&& wanted.evidence_ids.to_set() == input.evidence_ids.to_set() && wanted.evidence_ids.no_duplicates()
            &&& wanted.qualifier is Some <==> input.qualifier is Some
            &&& input.qualifier matches Some(text) ==> wanted.qualifier == Some(trimmed(text))
        },
{
    reveal(StoreModel::relation_request);
    vstd::seq_lib::seq_to_set_is_finite(input.evidence_ids);
    lists_are_as_long(input.evidence_ids.to_set());
}

/// Whether a record is there, active and in a scope.
pub open spec fn record_stands(s: StoreModel, record: RecordRef, scope: Scope) -> bool {
    s.standing(record) matches Ok((found, state, _)) && found == scope && state == RecordState::Active
}

/// Whether the user may relate a record: evidence if the user gave it, a claim if it is in
/// a domain of the user, and an entity if it rests on nothing but what the user gave.
pub open spec fn user_may_relate(s: StoreModel, record: RecordRef) -> bool {
    match record {
        RecordRef::Evidence(id) => s.inspect_evidence(id) matches Ok(Some(evidence)) && (evidence.header.class
            is UserAssertion || evidence.header.class is UserCorrection),
        RecordRef::Claim(id) => s.inspect_claim(id) matches Ok(Some(claim)) && (claim.header.domain is UserProfile
            || claim.header.domain is UserPreference || claim.header.domain is UserNote || claim.header.domain
            is SessionContext),
        RecordRef::Entity(id) => s.inspect_entity(id) matches Ok(Some(entity)) && forall|i: int|
            0 <= i < entity.header.evidence_ids.len() ==> (s.inspect_evidence(
                #[trigger] entity.header.evidence_ids[i],
            ) matches Ok(Some(evidence)) && (evidence.header.class is UserAssertion || evidence.header.class
                is UserCorrection)),
        _ => false,
    }
}

/// What the user may relate is told by the record and what it rests on.
pub proof fn users_relate_their_own(s: StoreModel, record: RecordRef)
    ensures
        s.user_may_activate_endpoint(record) == MemoryResult::Ok(true) <==> user_may_relate(s, record),
{
    reveal(StoreModel::user_may_activate_endpoint);
    match record {
        RecordRef::Entity(id) => match s.inspect_entity(id) {
            Ok(Some(entity)) => {
                let ids = entity.header.evidence_ids;
                if user_may_relate(s, record) {
                    assert forall|i: int| 0 <= i < ids.len() implies s.source_stated_by_user(#[trigger] ids[i]) by {}
                }
                if s.user_may_activate_endpoint(record) == MemoryResult::Ok(true) {
                    assert forall|i: int| 0 <= i < ids.len() implies (s.inspect_evidence(#[trigger] ids[i]) matches Ok(
                        Some(evidence),
                    ) && (evidence.header.class is UserAssertion || evidence.header.class is UserCorrection)) by {
                        assert(s.source_stated_by_user(ids[i]));
                    }
                }
            },
            _ => {},
        },
        _ => {},
    }
}

/// A relation is created if and only if it is asked for as it has to be, both its ends and
/// all its sources are active in its scope, and, where the user asks, both ends are the
/// user's to relate and every source is what the user said.
pub proof fn relations_stand_on_their_sources(
    s: StoreModel,
    operation: OperationContext,
    input: NewSemanticRelationModel,
    request: Seq<u8>,
    fresh: FreshModel,
)
    requires
        !s.operations.contains_key(operation.id),
        StoreModel::relation_request(operation.actor, input) is Ok,
    ensures
        s.create_semantic_relation(operation, input, request, fresh) is Ok <==> {
            &&& record_stands(s, input.from, input.scope)
            &&& record_stands(s, input.to, input.scope)
            &&& forall|id: EvidenceId| #[trigger]
                input.evidence_ids.contains(id) ==> source_stands(s, id, input.scope) && (operation.actor is User
                    ==> class_of(s, id) is UserAssertion || class_of(s, id) is UserCorrection)
            &&& operation.actor is User ==> user_may_relate(s, input.from) && user_may_relate(s, input.to)
        },
{
    reveal(StoreModel::replay);
    reveal(StoreModel::endpoint_fault);
    reveal(StoreModel::relating_fault);
    relations_are_heard(operation.actor, input);
    users_relate_their_own(s, input.from);
    users_relate_their_own(s, input.to);
    let wanted = StoreModel::relation_request(operation.actor, input)->Ok_0;
    let ids = wanted.evidence_ids;
    sources_have_their_classes(s, ids, input.scope, None, ids.len());
    assert forall|id: EvidenceId| input.evidence_ids.contains(id) <==> #[trigger] ids.contains(id) by {
        assert(ids.to_set().contains(id) <==> input.evidence_ids.to_set().contains(id));
    }
    match s.source_classes(ids, input.scope, None, ids.len()) {
        Ok(classes) => {
            users_activate_their_own(operation.actor, ClaimDomain::UserNote, classes);
            assert forall|id: EvidenceId| #[trigger] input.evidence_ids.contains(id) implies source_stands(
                s,
                id,
                input.scope,
            ) by {
                assert(ids.contains(id));
                let i = choose|i: int| 0 <= i < ids.len() && ids[i] == id;
                assert(source_stands(s, ids[i], input.scope));
            }
            if may_activate_relation(operation.actor, classes) {
                assert forall|id: EvidenceId| #[trigger] input.evidence_ids.contains(id) && operation.actor is User
                    implies class_of(s, id) is UserAssertion || class_of(s, id) is UserCorrection by {
                    assert(ids.contains(id));
                    let i = choose|i: int| 0 <= i < ids.len() && ids[i] == id;
                    assert(classes[i] == class_of(s, ids[i]));
                }
            } else if operation.actor is User {
                let i = choose|i: int|
                    0 <= i < classes.len() && !(#[trigger] classes[i] is UserAssertion || classes[i] is UserCorrection);
                assert(class_of(s, ids[i]) == classes[i]);
                assert(ids.contains(ids[i]));
                assert(input.evidence_ids.contains(ids[i]));
            }
        },
        Err(_) => {
            let i = choose|i: int| 0 <= i < ids.len() && !source_stands(s, #[trigger] ids[i], input.scope);
            assert(ids.contains(ids[i]));
            assert(input.evidence_ids.contains(ids[i]));
        },
    }
}

/// The user corrects what is theirs: the request has to make sense as any that is
/// remembered, and the claim has to be active, at the revision that the user saw, and in a
/// domain of the user.
pub proof fn users_correct_their_own(s: StoreModel, actor: Actor, input: CorrectUserClaimModel)
    ensures
        StoreModel::correct_request(actor, input) is Ok <==> {
            &&& actor is User
            &&& input.temporal.valid_from_ms is Some && input.temporal.valid_to_ms is Some
                ==> input.temporal.valid_from_ms->Some_0 < input.temporal.valid_to_ms->Some_0
            &&& trimmed(input.evidence_text).len() > 0
            &&& utf8(input.evidence_text).len() <= 1_048_576
            &&& trimmed(input.replacement_proposition).len() > 0
            &&& utf8(trimmed(input.replacement_proposition)).len() <= 65_536
        },
        StoreModel::correct_request(actor, input) matches Ok(wanted) ==> wanted == (CorrectUserClaimModel {
            replacement_proposition: trimmed(input.replacement_proposition),
            ..input
        }),
        s.correctable(Actor::User, input.target, input.expected_revision) is Ok <==> match s.inspect_claim(input.target) {
            Ok(Some(claim)) => {
                &&& claim.header.revision == input.expected_revision
                &&& claim.header.state == RecordState::Active
                &&& claim.header.domain is UserProfile || claim.header.domain is UserPreference || claim.header.domain
                    is UserNote || claim.header.domain is SessionContext
            },
            _ => false,
        },
        s.correctable(Actor::User, input.target, input.expected_revision) matches Ok(header) ==> s.inspect_claim(
            input.target,
        )->Ok_0->Some_0.header == header,
{
    reveal(StoreModel::correct_request);
    reveal(StoreModel::correctable);
    match s.inspect_claim(input.target) {
        Ok(Some(claim)) => {
            users_activate_their_own(Actor::User, claim.header.domain, seq![EvidenceClass::UserCorrection]);
        },
        _ => {},
    }
}

/// An active record is retracted by anyone but the assistant who saw its current revision,
/// and by nobody otherwise. It becomes the next revision, retracted, and the receipt names
/// it first and then what is unsupported without it.
pub proof fn retractions_are_heard(
    s: StoreModel,
    operation: OperationContext,
    record: RecordRef,
    expected_revision: u64,
    request: Seq<u8>,
    fresh: FreshModel,
)
    requires
        !s.operations.contains_key(operation.id),
    ensures
        s.retract(operation, record, expected_revision, request, fresh) matches Ok((after, receipt)) ==> {
            &&& !(operation.actor is Assistant)
            &&& s.standing(record) matches Ok((_, state, revision)) && state == RecordState::Active && revision
                == expected_revision
            &&& receipt.target == (RecordRevision {
                record,
                revision: (expected_revision + 1) as u64,
                state: RecordState::Retracted,
            })
            &&& forall|i: int|
                0 <= i < receipt.invalidated.len() ==> (#[trigger] receipt.invalidated[i]).state
                    == RecordState::Unsupported
        },
        operation.actor is Assistant ==> s.retract(operation, record, expected_revision, request, fresh) == Err::<
            (StoreModel, RetractionReceiptModel),
            MemoryError,
        >(MemoryError::Unauthorized),
{
    reveal(StoreModel::replay);
    reveal(StoreModel::appended);
    match s.retract(operation, record, expected_revision, request, fresh) {
        Ok((after, receipt)) => {
            let dependencies = s.dependency_closure(record, false)->Ok_0;
            let staged = s.appended(
                s,
                record,
                expected_revision,
                RecordState::Retracted,
                operation.id,
                fresh.recorded_at_ms,
            )->Ok_0.0;
            invalidations_are_told(
                s,
                staged.unindexed(s, record),
                dependencies,
                dependencies.len(),
                RecordState::Unsupported,
                operation.id,
                fresh.recorded_at_ms,
            );
        },
        _ => {},
    }
}

/// What is invalidated is told: one revision for each dependent, in their order, each the
/// next one of its record, in the state that was asked for.
pub proof fn invalidations_are_told(
    s: StoreModel,
    staged: StoreModel,
    dependencies: Seq<PurgeDependency>,
    n: nat,
    state: RecordState,
    operation_id: OperationId,
    recorded_at_ms: i64,
)
    requires
        n <= dependencies.len(),
    ensures
        s.invalidated(staged, dependencies, n, state, operation_id, recorded_at_ms) matches Ok((after, revisions))
            ==> revisions.len() == n && forall|i: int|
            0 <= i < n ==> #[trigger] revisions[i] == (RecordRevision {
                record: dependencies[i].record,
                revision: (dependencies[i].expected_revision + 1) as u64,
                state,
            }),
    decreases n,
{
    if n > 0 {
        invalidations_are_told(s, staged, dependencies, (n - 1) as nat, state, operation_id, recorded_at_ms);
        reveal(StoreModel::appended);
        match s.invalidated(staged, dependencies, n, state, operation_id, recorded_at_ms) {
            Ok((after, revisions)) => {
                let before = s.invalidated(
                    staged,
                    dependencies,
                    (n - 1) as nat,
                    state,
                    operation_id,
                    recorded_at_ms,
                )->Ok_0.1;
                assert forall|i: int| 0 <= i < n - 1 implies #[trigger] revisions[i] == before[i] by {}
            },
            _ => {},
        }
    }
}

} // verus!
