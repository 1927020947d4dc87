//! Which accepted changes an actor may have applied, and what the application makes of
//! them.

use vstd::prelude::*;
use crate::adjudication::some_change_ends_at;
use crate::applying::{
    activation_permitted, change_permitted, changes_permitted, cited_evidence, classes_in_order,
    drafted, entity_text, inadmissible, known_classes,
};
use crate::bundles::{ProposalDraftKind, change_ends_at, change_pins, existing_pins, pins_in};
use crate::bundling::{draft_brought, relates_record};
use crate::deciding::{changes_pin_finitely, evidence_holds};
use crate::fault::MemoryResult;
use crate::grounds::{class_of, user_may_relate, users_activate_their_own, users_relate_their_own};
use crate::ids::{ClaimId, EntityId, EvidenceId, RelationId, Ulid};
use crate::inspect::lookup;
use crate::order::{in_order, in_order_lists};
use crate::records::evidence::{Actor, ClaimDomain, EvidenceClass, RecordRef, Scope};
use crate::records::proposal::{
    AppliedRecord, ProposalChangeModel, ProposalEndpoint, ProposalRecordModel,
};
use crate::records::recall::{EvidenceRevisionPin, RecordRevisionPin};
use crate::rules::admissible;
use crate::store::StoreModel;

verus! {

/// Which classes pinned evidence is of: found if and only if all of it holds as pinned, and
/// then each piece has the class that it was captured with.
proof fn classes_are_found(s: StoreModel, pins: Seq<EvidenceRevisionPin>, scope: Scope, n: nat)
    requires
        n <= pins.len(),
    ensures
        s.proposal_evidence_classes(pins, scope, n) is Ok <==> forall|i: int|
            0 <= i < n ==> evidence_holds(s, #[trigger] pins[i], scope),
        s.proposal_evidence_classes(pins, scope, n) matches Ok(classes) ==> {
            &&& classes.dom().finite()
            &&& forall|id: EvidenceId| #[trigger]
                classes.contains_key(id) <==> exists|i: int| 0 <= i < n && (#[trigger] pins[i]).id == id
            &&& forall|id: EvidenceId| #[trigger] classes.contains_key(id) ==> classes[id] == class_of(s, id)
        },
    decreases n,
{
    if n > 0 {
        let m = (n - 1) as nat;
        classes_are_found(s, pins, scope, m);
        match s.proposal_evidence_classes(pins, scope, m) {
            Err(_) => {},
            Ok(before) => {
                if evidence_holds(s, pins[m as int], scope) {
                    let classes = s.proposal_evidence_classes(pins, scope, n)->Ok_0;
                    assert(classes == before.insert(pins[m as int].id, class_of(s, pins[m as int].id)));
                    assert forall|id: EvidenceId| #[trigger] classes.contains_key(id) <==> exists|i: int|
                        0 <= i < n && (#[trigger] pins[i]).id == id by {
                        if before.contains_key(id) {
                            let i = choose|i: int| 0 <= i < m && (#[trigger] pins[i]).id == id;
                            assert(pins[i].id == id);
                        }
                        assert(pins[m as int].id == pins[m as int].id);
                        if exists|i: int| 0 <= i < n && (#[trigger] pins[i]).id == id {
                            let i = choose|i: int| 0 <= i < n && (#[trigger] pins[i]).id == id;
                            if i < m {
                                assert(before.contains_key(id));
                            }
                        }
                    }
                }
            },
        }
    }
}

proof fn known_classes_are(ids: Seq<EvidenceId>, classes: Map<EvidenceId, EvidenceClass>, n: nat)
    requires
        n <= ids.len(),
    ensures
        known_classes(ids, classes, n) is Ok <==> forall|i: int| 0 <= i < n ==> classes.contains_key(#[trigger] ids[i]),
        known_classes(ids, classes, n) matches Ok(found) ==> found.len() == n && forall|i: int|
            0 <= i < n ==> #[trigger] found[i] == classes[ids[i]],
    decreases n,
{
    if n > 0 {
        known_classes_are(ids, classes, (n - 1) as nat);
        match known_classes(ids, classes, n) {
            Ok(found) => {
                let before = known_classes(ids, classes, (n - 1) as nat)->Ok_0;
                assert forall|i: int| 0 <= i < n implies #[trigger] found[i] == classes[ids[i]] by {
                    if i < n - 1 {
                        assert(found[i] == before[i]);
                    }
                }
            },
            _ => {},
        }
    }
}

proof fn admissible_throughout(ids: Seq<EvidenceId>, classes: Seq<EvidenceClass>, domain: ClaimDomain, n: nat)
    requires
        n <= classes.len(),
    ensures
        inadmissible(ids, classes, domain, n) is None <==> forall|i: int|
            0 <= i < n ==> admissible(#[trigger] classes[i], domain),
    decreases n,
{
    if n > 0 {
        admissible_throughout(ids, classes, domain, (n - 1) as nat);
    }
}

/// Whether a class is of what the user says.
pub open spec fn user_said(class: EvidenceClass) -> bool {
    class is UserAssertion || class is UserCorrection
}

/// Whether an actor may have a change applied, by the classes of the evidence of its bundle:
/// a claim needs evidence that supports its domain throughout, and where the user decides,
/// the domain has to be the user's; whatever the user creates has to rest on what the user
/// said. Retractions and supersessions need nothing of their own.
pub open spec fn may_apply(actor: Actor, change: ProposalChangeModel, classes: Map<EvidenceId, EvidenceClass>) -> bool {
    match change {
        ProposalChangeModel::CreateClaim { domain, evidence_ids, .. } => {
            &&& !(actor is Assistant)
            &&& forall|i: int|
                0 <= i < evidence_ids.len() ==> classes.contains_key(#[trigger] evidence_ids[i]) && admissible(
                    classes[evidence_ids[i]],
                    domain,
                ) && (actor is User ==> user_said(classes[evidence_ids[i]]))
            &&& actor is User ==> domain is UserProfile || domain is UserPreference || domain is UserNote || domain
                is SessionContext
        },
        ProposalChangeModel::CreateEntity { evidence_ids, .. } => {
            &&& !(actor is Assistant)
            &&& forall|i: int|
                0 <= i < evidence_ids.len() ==> classes.contains_key(#[trigger] evidence_ids[i]) && (actor is User
                    ==> user_said(classes[evidence_ids[i]]))
        },
        ProposalChangeModel::CreateRelation { evidence_ids, .. } => {
            &&& !(actor is Assistant)
            &&& forall|i: int|
                0 <= i < evidence_ids.len() ==> classes.contains_key(#[trigger] evidence_ids[i]) && (actor is User
                    ==> user_said(classes[evidence_ids[i]]))
        },
        _ => true,
    }
}

/// A change is permitted if and only if the actor may have it applied.
pub proof fn changes_are_permitted_by_their_grounds(
    actor: Actor,
    change: ProposalChangeModel,
    classes: Map<EvidenceId, EvidenceClass>,
)
    ensures
        change_permitted(actor, change, classes) is Ok <==> may_apply(actor, change, classes),
{
    reveal(change_permitted);
    let ids = cited_evidence(change);
    known_classes_are(ids, classes, ids.len());
    match known_classes(ids, classes, ids.len()) {
        Ok(found) => {
            match change {
                ProposalChangeModel::CreateClaim { domain, evidence_ids, .. } => {
                    admissible_throughout(ids, found, domain, ids.len());
                    users_activate_their_own(actor, domain, found);
                    assert((forall|i: int| 0 <= i < ids.len() ==> admissible(#[trigger] found[i], domain)) <==> forall|
                        i: int,
                    | 0 <= i < ids.len() ==> admissible(classes[#[trigger] ids[i]], domain)) by {
                        if forall|i: int| 0 <= i < ids.len() ==> admissible(#[trigger] found[i], domain) {
                            assert forall|i: int| 0 <= i < ids.len() implies admissible(
                                classes[#[trigger] ids[i]],
                                domain,
                            ) by {
                                assert(found[i] == classes[ids[i]]);
                            }
                        }
                    }
                    user_classes_agree(ids, classes, found);
                },
                _ => {
                    users_activate_their_own(actor, ClaimDomain::UserNote, found);
                    user_classes_agree(ids, classes, found);
                },
            }
        },
        Err(_) => {},
    }
}

proof fn user_classes_agree(
    ids: Seq<EvidenceId>,
    classes: Map<EvidenceId, EvidenceClass>,
    found: Seq<EvidenceClass>,
)
    requires
        found.len() == ids.len(),
        forall|i: int| 0 <= i < ids.len() ==> #[trigger] found[i] == classes[ids[i]],
    ensures
        (forall|i: int| 0 <= i < found.len() ==> (#[trigger] found[i] is UserAssertion || found[i] is UserCorrection))
            <==> forall|i: int| 0 <= i < ids.len() ==> user_said(classes[#[trigger] ids[i]]),
{
    if forall|i: int| 0 <= i < found.len() ==> (#[trigger] found[i] is UserAssertion || found[i] is UserCorrection) {
        assert forall|i: int| 0 <= i < ids.len() implies user_said(classes[#[trigger] ids[i]]) by {
            assert(found[i] == classes[ids[i]]);
        }
    } else {
        let i = choose|i: int|
            0 <= i < found.len() && !(#[trigger] found[i] is UserAssertion || found[i] is UserCorrection);
        assert(!user_said(classes[ids[i]]));
    }
}

proof fn all_are_permitted(
    actor: Actor,
    changes: Seq<ProposalChangeModel>,
    classes: Map<EvidenceId, EvidenceClass>,
    n: nat,
)
    requires
        n <= changes.len(),
    ensures
        changes_permitted(actor, changes, classes, n) is Ok <==> forall|i: int|
            0 <= i < n ==> may_apply(actor, #[trigger] changes[i], classes),
    decreases n,
{
    if n > 0 {
        all_are_permitted(actor, changes, classes, (n - 1) as nat);
        changes_are_permitted_by_their_grounds(actor, changes[n - 1], classes);
    }
}

/// Changes are permitted together if and only if the actor may have each of them applied
/// and, where the user has something superseded, all the evidence of the bundle is what
/// the user said.
pub proof fn activations_are_permitted_by_their_grounds(
    actor: Actor,
    changes: Seq<ProposalChangeModel>,
    classes: Map<EvidenceId, EvidenceClass>,
)
    requires
        classes.dom().finite(),
    ensures
        activation_permitted(actor, changes, classes) is Ok <==> {
            &&& forall|i: int| 0 <= i < changes.len() ==> may_apply(actor, #[trigger] changes[i], classes)
            &&& (exists|i: int| 0 <= i < changes.len() && (#[trigger] changes[i]) is Supersede) ==> {
                &&& !(actor is Assistant)
                &&& actor is User ==> forall|id: EvidenceId| #[trigger]
                    classes.contains_key(id) ==> user_said(classes[id])
            }
        },
{
    reveal(activation_permitted);
    all_are_permitted(actor, changes, classes, changes.len());
    let list = in_order(classes.dom());
    in_order_lists(classes.dom());
    let found = classes_in_order(classes);
    users_activate_their_own(actor, ClaimDomain::UserNote, found);
    if forall|i: int| 0 <= i < found.len() ==> (#[trigger] found[i] is UserAssertion || found[i] is UserCorrection) {
        assert forall|id: EvidenceId| #[trigger] classes.contains_key(id) implies user_said(classes[id]) by {
            assert(list.contains(id));
            let i = list.index_of(id);
            assert(list[i] == id);
            assert(found[i] == classes[id]);
        }
    } else {
        let i = choose|i: int|
            0 <= i < found.len() && !(#[trigger] found[i] is UserAssertion || found[i] is UserCorrection);
        assert(list.contains(list[i]));
        assert(classes.contains_key(list[i]));
        assert(found[i] == classes[list[i]]);
    }
}

/// What the user has applied relates nothing but what is the user's to relate.
pub proof fn users_have_their_own_related(
    s: StoreModel,
    proposal: ProposalRecordModel,
    changes: Seq<ProposalChangeModel>,
    i: int,
    record: RecordRef,
)
    requires
        s.application_permitted(Actor::User, proposal, changes) is Ok,
        0 <= i < changes.len(),
        relates_record(changes[i], record),
    ensures
        user_may_relate(s, record),
{
    reveal(StoreModel::application_permitted);
    users_relate_their_own(s, record);
    changes_pin_finitely(changes);
    in_order_lists(pins_in(changes));
    let pins = existing_pins(changes);
    let pin = match changes[i] {
        ProposalChangeModel::CreateRelation { from, to, .. } => if from matches ProposalEndpoint::Existing(pin)
            && pin.record == record {
            from->Existing_0
        } else {
            to->Existing_0
        },
        _ => arbitrary(),
    };
    assert(pin.record == record);
    assert(change_pins(changes[i], pin));
    assert(pins_in(changes).contains(pin));
    assert(pins.contains(pin));
    let k = pins.index_of(pin);
    assert(pins[k] == pin);
    assert(change_ends_at(changes[i], record));
    assert(some_change_ends_at(changes, record));
    ends_are_checked(s, changes, pins, pins.len(), k);
}

proof fn ends_are_checked(
    s: StoreModel,
    changes: Seq<ProposalChangeModel>,
    pins: Seq<RecordRevisionPin>,
    n: nat,
    k: int,
)
    requires
        0 <= k < n <= pins.len(),
        s.user_endpoint_fault(changes, pins, n) is None,
        some_change_ends_at(changes, pins[k].record),
    ensures
        s.user_may_activate_endpoint(pins[k].record) == MemoryResult::Ok(true),
    decreases n,
{
    if k < n - 1 {
        ends_are_checked(s, changes, pins, (n - 1) as nat, k);
    }
}

/// What an actor has applied holds as it was pinned and is permitted by it.
pub proof fn applications_are_permitted_by_their_grounds(
    s: StoreModel,
    actor: Actor,
    proposal: ProposalRecordModel,
    changes: Seq<ProposalChangeModel>,
)
    requires
        s.application_permitted(actor, proposal, changes) is Ok,
    ensures
        forall|i: int|
            0 <= i < proposal.source_evidence.len() ==> evidence_holds(
                s,
                #[trigger] proposal.source_evidence[i],
                proposal.header.scope,
            ),
        exists|classes: Map<EvidenceId, EvidenceClass>|
            {
                &&& forall|id: EvidenceId| #[trigger] classes.contains_key(id) ==> classes[id] == class_of(s, id)
                &&& #[trigger] activation_permitted(actor, changes, classes) is Ok
                &&& forall|i: int| 0 <= i < changes.len() ==> may_apply(actor, #[trigger] changes[i], classes)
            },
{
    reveal(StoreModel::application_permitted);
    let pins = proposal.source_evidence;
    classes_are_found(s, pins, proposal.header.scope, pins.len());
    let classes = s.proposal_evidence_classes(pins, proposal.header.scope, pins.len())->Ok_0;
    activations_are_permitted_by_their_grounds(actor, changes, classes);
    assert(activation_permitted(actor, changes, classes) is Ok);
}

/// An entity is found by its name and by each of its aliases, with a blank between.
pub proof fn entities_are_found_by_their_names(name: Seq<char>, aliases: Seq<Seq<char>>, n: nat)
    requires
        n < aliases.len(),
    ensures
        entity_text(name, aliases, 0) == name,
        entity_text(name, aliases, n + 1) == entity_text(name, aliases, n) + seq![' '] + aliases[n as int],
{
}

/// What becomes of drafts: a draft of a claim becomes the claim under the identifier drawn
/// for its change, and so for entities and relations. Where a draft is brought once, it
/// becomes just that.
pub proof fn drafts_become_records(changes: Seq<ProposalChangeModel>, ids: Seq<Ulid>, n: nat, i: int)
    requires
        0 <= i < n <= changes.len(),
        draft_brought(changes[i]) is Some,
        forall|j: int|
            0 <= j < n && j != i && draft_brought(#[trigger] changes[j]) is Some ==> draft_brought(changes[j])->Some_0.0
                != draft_brought(changes[i])->Some_0.0,
    ensures
        lookup(drafted(changes, ids, n), draft_brought(changes[i])->Some_0.0) == Some(
            match draft_brought(changes[i])->Some_0.1 {
                ProposalDraftKind::Claim => AppliedRecord::Claim(ClaimId(ids[i])),
                ProposalDraftKind::Entity => AppliedRecord::Entity(EntityId(ids[i])),
                ProposalDraftKind::Relation => AppliedRecord::SemanticRelation(RelationId(ids[i])),
            },
        ),
    decreases n,
{
    if i < n - 1 {
        drafts_become_records(changes, ids, (n - 1) as nat, i);
        let last = changes[n - 1];
        if draft_brought(last) is Some {
            assert(draft_brought(changes[n - 1])->Some_0.0 != draft_brought(changes[i])->Some_0.0);
        }
    }
}

} // verus!
