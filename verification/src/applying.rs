//! Applying the changes of a proposal: who may, and what becomes of the records.
use vstd::prelude::*;
use crate::fault::{InputFault, MemoryError, MemoryResult, invalid};
use crate::ids::{
    ClaimId, EntityId, EvidenceId, OperationId, ProposalDraftId, ProposalId, ProposalReviewCaseId,
    RelationId, Ulid,
};
use crate::inspect::{lookup, revision_of, shown};
use crate::keys::RevisionKey;
use crate::order::{Ranked, in_order, in_order_lists, lists};
use crate::records::audit::{PurgeDependency, RecordRevision};
use crate::records::claim::{
    ClaimRevisionHeader, ClaimRevisionHeaderModel, EntityPayload, EntityPayloadModel,
    EntityRevisionHeader, EntityRevisionHeaderModel, RelationKind, SemanticRelationRevisionHeader,
    SemanticRelationRevisionHeaderModel,
};
use crate::records::evidence::{Actor, ClaimDomain, EvidenceClass, RecordRef, RecordState, Scope};
use crate::records::proposal::{
    AppliedRecord, DraftMapping, ProposalChange, ProposalChangeModel, ProposalEndpoint,
};
use crate::rules::{
    admissible, may_activate_claim, may_activate_relation, source_is_admissible,
    validate_claim_activation, validate_relation_activation,
};
use crate::store::{Batch, MemoryDatabase, StoreModel, Write, WriteModel};
use crate::table::{Table, copies, opt_replica, replicas, views};
use crate::text::{letters, spelled};

verus! {

impl AppliedRecord {
    pub open spec fn record(self) -> RecordRef {
        match self {
            AppliedRecord::Claim(id) => RecordRef::Claim(id),
            AppliedRecord::Entity(id) => RecordRef::Entity(id),
            AppliedRecord::SemanticRelation(id) => RecordRef::SemanticRelation(id),
        }
    }

    pub fn as_record_ref(self) -> (r: RecordRef)
        ensures
            r == self.record(),
    {
        match self {
            AppliedRecord::Claim(id) => RecordRef::Claim(id),
            AppliedRecord::Entity(id) => RecordRef::Entity(id),
            AppliedRecord::SemanticRelation(id) => RecordRef::SemanticRelation(id),
        }
    }
}

/// What the records that a proposal brings have in common.
#[derive(Clone, Copy, Debug, PartialEq, Eq, Structural)]
pub struct Application {
    pub scope: Scope,
    pub operation_id: OperationId,
    pub recorded_at_ms: i64,
}

/// The text by which an entity is found: its name and the first `n` aliases.
pub open spec fn entity_text(canonical_name: Seq<char>, aliases: Seq<Seq<char>>, n: nat) -> Seq<char>
    decreases n,
{
    if n == 0 {
        canonical_name
    } else {
        entity_text(canonical_name, aliases, (n - 1) as nat) + seq![' '] + aliases[n - 1]
    }
}

pub fn entity_index_text(canonical_name: &str, aliases: &Vec<String>) -> (r: String)
    ensures
        r@ == entity_text(canonical_name@, views(aliases@), aliases@.len()),
{
    let ghost all = views(aliases@);
    let mut text: Vec<char> = letters(canonical_name);
    for i in 0..aliases.len()
        invariant
            all == views(aliases@),
            text@ == entity_text(canonical_name@, all, i as nat),
    {
        assert(views(aliases@)[i as int] == aliases@[i as int]@);
        let ghost before = text@;
        text.push(' ');
        let alias = letters(aliases[i].as_str());
        let ghost spaced = text@;
        for j in 0..alias.len()
            invariant
                text@ == spaced + alias@.take(j as int),
        {
            text.push(alias[j]);
            assert(text@ =~= spaced + alias@.take(j + 1));
        }
        assert(alias@.take(alias@.len() as int) =~= alias@);
        assert(text@ =~= before + seq![' '] + alias@);
    }
    let r = spelled(&text, 0, text.len());
    assert(r@ =~= text@);
    r
}

/// The evidence that a change cites.
pub open spec fn cited_evidence(change: ProposalChangeModel) -> Seq<EvidenceId> {
    match change {
        ProposalChangeModel::CreateClaim { evidence_ids, .. } => evidence_ids,
        ProposalChangeModel::CreateEntity { evidence_ids, .. } => evidence_ids,
        ProposalChangeModel::CreateRelation { evidence_ids, .. } => evidence_ids,
        _ => Seq::empty(),
    }
}

/// The classes of the first `n` pieces of evidence, if all are known.
pub open spec fn known_classes(
    ids: Seq<EvidenceId>,
    classes: Map<EvidenceId, EvidenceClass>,
    n: nat,
) -> MemoryResult<Seq<EvidenceClass>>
    decreases n,
{
    if n == 0 {
        Ok(Seq::empty())
    } else {
        match known_classes(ids, classes, (n - 1) as nat) {
            Err(error) => Err(error),
            Ok(before) => match lookup(classes, ids[n - 1]) {
                None => invalid(InputFault::ProposedEvidenceUnpinned),
                Some(class) => Ok(before.push(class)),
            },
        }
    }
}

proof fn unknown_class_persists(ids: Seq<EvidenceId>, classes: Map<EvidenceId, EvidenceClass>, n: nat, m: nat)
    requires
        n <= m,
        known_classes(ids, classes, n) is Err,
    ensures
        known_classes(ids, classes, m) == known_classes(ids, classes, n),
    decreases m,
{
    if n < m {
        unknown_class_persists(ids, classes, n, (m - 1) as nat);
    }
}

fn classes_of(ids: &Vec<EvidenceId>, classes: &Table<EvidenceId, EvidenceClass>) -> (r: MemoryResult<
    Vec<EvidenceClass>,
>)
    ensures
        shown(r) == known_classes(ids@, classes@, ids@.len()),
        r is Ok ==> r->Ok_0@.len() == ids@.len(),
{
    let mut found: Vec<EvidenceClass> = Vec::new();
    for i in 0..ids.len()
        invariant
            found@.len() == i,
            known_classes(ids@, classes@, i as nat) == Ok::<Seq<EvidenceClass>, MemoryError>(found@),
    {
        match classes.get(&ids[i]) {
            Some(class) => {
                found.push(*class);
            },
            None => {
                proof {
                    unknown_class_persists(ids@, classes@, (i + 1) as nat, ids@.len());
                }
                return Err(MemoryError::InvalidInput(InputFault::ProposedEvidenceUnpinned));
            },
        }
    }
    Ok(found)
}

/// The first of the first `n` pieces of evidence that a domain does not admit.
pub open spec fn inadmissible(
    ids: Seq<EvidenceId>,
    classes: Seq<EvidenceClass>,
    domain: ClaimDomain,
    n: nat,
) -> Option<MemoryError>
    decreases n,
{
    if n == 0 {
        None
    } else {
        match inadmissible(ids, classes, domain, (n - 1) as nat) {
            Some(error) => Some(error),
            None => if admissible(classes[n - 1], domain) {
                None
            } else {
                Some(
                    MemoryError::InadmissibleSource {
                        evidence_id: ids[n - 1],
                        class: classes[n - 1],
                        domain,
                    },
                )
            },
        }
    }
}

proof fn inadmissible_persists(
    ids: Seq<EvidenceId>,
    classes: Seq<EvidenceClass>,
    domain: ClaimDomain,
    n: nat,
    m: nat,
)
    requires
        n <= m,
        inadmissible(ids, classes, domain, n) is Some,
    ensures
        inadmissible(ids, classes, domain, m) == inadmissible(ids, classes, domain, n),
    decreases m,
{
    if n < m {
        inadmissible_persists(ids, classes, domain, n, (m - 1) as nat);
    }
}

/// Whether an actor may apply a change that rests on evidence of such classes.
#[verifier::opaque]
pub open spec fn change_permitted(
    actor: Actor,
    change: ProposalChangeModel,
    classes: Map<EvidenceId, EvidenceClass>,
) -> MemoryResult<()> {
    let ids = cited_evidence(change);
    match change {
        ProposalChangeModel::Retract { .. } => Ok(()),
        ProposalChangeModel::Supersede { .. } => Ok(()),
        ProposalChangeModel::CreateClaim { domain, .. } => match known_classes(ids, classes, ids.len()) {
            Err(error) => Err(error),
            Ok(found) => match inadmissible(ids, found, domain, ids.len()) {
                Some(error) => Err(error),
                None => if may_activate_claim(actor, domain, found) {
                    Ok(())
                } else {
                    Err(MemoryError::Unauthorized)
                },
            },
        },
        _ => match known_classes(ids, classes, ids.len()) {
            Err(error) => Err(error),
            Ok(found) => if may_activate_relation(actor, found) {
                Ok(())
            } else {
                Err(MemoryError::Unauthorized)
            },
        },
    }
}

fn check_admissible(ids: &Vec<EvidenceId>, classes: &Vec<EvidenceClass>, domain: ClaimDomain) -> (r: MemoryResult<()>)
    requires
        ids@.len() == classes@.len(),
    ensures
        r == (match inadmissible(ids@, classes@, domain, ids@.len()) {
            Some(error) => Err(error),
            None => Ok(()),
        }),
{
    for i in 0..ids.len()
        invariant
            ids@.len() == classes@.len(),
            inadmissible(ids@, classes@, domain, i as nat) is None,
    {
        if !source_is_admissible(classes[i], domain) {
            proof {
                inadmissible_persists(ids@, classes@, domain, (i + 1) as nat, ids@.len());
            }
            return Err(
                MemoryError::InadmissibleSource { evidence_id: ids[i], class: classes[i], domain },
            );
        }
    }
    Ok(())
}

fn check_permitted(actor: Actor, change: &ProposalChange, classes: &Table<EvidenceId, EvidenceClass>) -> (r:
    MemoryResult<()>)
    ensures
        r == change_permitted(actor, change@, classes@),
{
    reveal(change_permitted);
    match change {
        ProposalChange::Retract { .. } => Ok(()),
        ProposalChange::Supersede { .. } => Ok(()),
        ProposalChange::CreateClaim { domain, evidence_ids, .. } => {
            let found = classes_of(evidence_ids, classes)?;
            check_admissible(evidence_ids, &found, *domain)?;
            validate_claim_activation(actor, *domain, &found)
        },
        ProposalChange::CreateEntity { evidence_ids, .. } => {
            let found = classes_of(evidence_ids, classes)?;
            validate_relation_activation(actor, &found)
        },
        ProposalChange::CreateRelation { evidence_ids, .. } => {
            let found = classes_of(evidence_ids, classes)?;
            validate_relation_activation(actor, &found)
        },
    }
}

/// The first refusal among the first `n` changes.
pub open spec fn changes_permitted(
    actor: Actor,
    changes: Seq<ProposalChangeModel>,
    classes: Map<EvidenceId, EvidenceClass>,
    n: nat,
) -> MemoryResult<()>
    decreases n,
{
    if n == 0 {
        Ok(())
    } else {
        match changes_permitted(actor, changes, classes, (n - 1) as nat) {
            Err(error) => Err(error),
            Ok(_) => change_permitted(actor, changes[n - 1], classes),
        }
    }
}

proof fn unpermitted_persists(
    actor: Actor,
    changes: Seq<ProposalChangeModel>,
    classes: Map<EvidenceId, EvidenceClass>,
    n: nat,
    m: nat,
)
    requires
        n <= m,
        changes_permitted(actor, changes, classes, n) is Err,
    ensures
        changes_permitted(actor, changes, classes, m) == changes_permitted(actor, changes, classes, n),
    decreases m,
{
    if n < m {
        unpermitted_persists(actor, changes, classes, n, (m - 1) as nat);
    }
}

/// Whether some change supersedes a record.
pub open spec fn supersedes_some(changes: Seq<ProposalChangeModel>) -> bool {
    exists|i: int| 0 <= i < changes.len() && (#[trigger] changes[i]) is Supersede
}

/// The classes of evidence, by the evidence in order.
pub open spec fn classes_in_order(classes: Map<EvidenceId, EvidenceClass>) -> Seq<EvidenceClass> {
    Seq::new(in_order(classes.dom()).len(), |i: int| classes[in_order(classes.dom())[i]])
}

/// Whether an actor may apply the changes of a proposal that rests on evidence of such
/// classes.
#[verifier::opaque]
pub open spec fn activation_permitted(
    actor: Actor,
    changes: Seq<ProposalChangeModel>,
    classes: Map<EvidenceId, EvidenceClass>,
) -> MemoryResult<()> {
    match changes_permitted(actor, changes, classes, changes.len()) {
        Err(error) => Err(error),
        Ok(_) => if supersedes_some(changes) && !may_activate_relation(actor, classes_in_order(classes)) {
            Err(MemoryError::Unauthorized)
        } else {
            Ok(())
        },
    }
}

fn any_supersession(changes: &Vec<ProposalChange>) -> (r: bool)
    ensures
        r == supersedes_some(views(changes@)),
{
    let ghost all = views(changes@);
    assert(all.len() == changes@.len());
    for i in 0..changes.len()
        invariant
            all == views(changes@),
            all.len() == changes@.len(),
            forall|j: int| 0 <= j < i ==> !((#[trigger] all[j]) is Supersede),
    {
        assert(views(changes@)[i as int] == changes@[i as int]@);
        if let ProposalChange::Supersede { .. } = &changes[i] {
            assert(all[i as int] is Supersede);
            return true;
        }
    }
    false
}

pub fn validate_proposal_activation(
    actor: Actor,
    changes: &Vec<ProposalChange>,
    classes: &Table<EvidenceId, EvidenceClass>,
) -> (r: MemoryResult<()>)
    ensures
        r == activation_permitted(actor, views(changes@), classes@),
{
    reveal(activation_permitted);
    let ghost all = views(changes@);
    assert(all.len() == changes@.len());
    for i in 0..changes.len()
        invariant
            all == views(changes@),
            all.len() == changes@.len(),
            changes_permitted(actor, all, classes@, i as nat) is Ok,
    {
        assert(views(changes@)[i as int] == changes@[i as int]@);
        match check_permitted(actor, &changes[i], classes) {
            Ok(_) => {},
            Err(error) => {
                proof {
                    unpermitted_persists(actor, all, classes@, (i + 1) as nat, all.len());
                    reveal(activation_permitted);
                }
                return Err(error);
            },
        }
    }
    if any_supersession(changes) {
        let ids = classes.keys();
        let mut found: Vec<EvidenceClass> = Vec::new();
        for i in 0..ids.len()
            invariant
                lists(ids@, classes@.dom()),
                ids@ == in_order(classes@.dom()),
                found@ == classes_in_order(classes@).take(i as int),
        {
            assert(ids@.contains(ids@[i as int]));
            if let Some(class) = classes.get(&ids[i]) {
                found.push(*class);
            }
            assert(found@ =~= classes_in_order(classes@).take(i + 1));
        }
        assert(found@ =~= classes_in_order(classes@));
        return validate_relation_activation(actor, &found);
    }
    Ok(())
}

/// What the first `n` changes make of their drafts; the last mention decides.
pub open spec fn drafted(changes: Seq<ProposalChangeModel>, ids: Seq<Ulid>, n: nat) -> Map<
    ProposalDraftId,
    AppliedRecord,
>
    decreases n,
{
    if n == 0 {
        Map::empty()
    } else {
        let before = drafted(changes, ids, (n - 1) as nat);
        match changes[n - 1] {
            ProposalChangeModel::CreateClaim { draft_id, .. } => before.insert(
                draft_id,
                AppliedRecord::Claim(ClaimId(ids[n - 1])),
            ),
            ProposalChangeModel::CreateEntity { draft_id, .. } => before.insert(
                draft_id,
                AppliedRecord::Entity(EntityId(ids[n - 1])),
            ),
            ProposalChangeModel::CreateRelation { draft_id, .. } => before.insert(
                draft_id,
                AppliedRecord::SemanticRelation(RelationId(ids[n - 1])),
            ),
            _ => before,
        }
    }
}

/// What became of drafts, in the order of the drafts.
pub open spec fn mappings_of(drafts: Map<ProposalDraftId, AppliedRecord>) -> Seq<DraftMapping> {
    Seq::new(
        in_order(drafts.dom()).len(),
        |i: int|
            DraftMapping { draft_id: in_order(drafts.dom())[i], record: drafts[in_order(drafts.dom())[i]] },
    )
}

pub(crate) fn map_drafts(changes: &Vec<ProposalChange>, ids: &Vec<Ulid>) -> (r: Table<ProposalDraftId, AppliedRecord>)
    requires
        changes@.len() <= ids@.len(),
    ensures
        r@ == drafted(views(changes@), ids@, changes@.len()),
{
    let ghost all = views(changes@);
    let mut drafts: Table<ProposalDraftId, AppliedRecord> = Table::new();
    for i in 0..changes.len()
        invariant
            changes@.len() <= ids@.len(),
            all == views(changes@),
            drafts@ == drafted(all, ids@, i as nat),
    {
        assert(views(changes@)[i as int] == changes@[i as int]@);
        match &changes[i] {
            ProposalChange::CreateClaim { draft_id, .. } => {
                drafts.insert(*draft_id, AppliedRecord::Claim(ClaimId(ids[i])));
            },
            ProposalChange::CreateEntity { draft_id, .. } => {
                drafts.insert(*draft_id, AppliedRecord::Entity(EntityId(ids[i])));
            },
            ProposalChange::CreateRelation { draft_id, .. } => {
                drafts.insert(*draft_id, AppliedRecord::SemanticRelation(RelationId(ids[i])));
            },
            _ => {},
        }
    }
    drafts
}

pub(crate) fn list_mappings(drafts: &Table<ProposalDraftId, AppliedRecord>) -> (r: Vec<DraftMapping>)
    ensures
        r@ == mappings_of(drafts@),
{
    let ids = drafts.keys();
    let mut r: Vec<DraftMapping> = Vec::new();
    for i in 0..ids.len()
        invariant
            lists(ids@, drafts@.dom()),
            ids@ == in_order(drafts@.dom()),
            r@ == mappings_of(drafts@).take(i as int),
    {
        assert(ids@.contains(ids@[i as int]));
        if let Some(record) = drafts.get(&ids[i]) {
            r.push(DraftMapping { draft_id: ids[i], record: *record });
        }
        assert(r@ =~= mappings_of(drafts@).take(i + 1));
    }
    assert(r@ =~= mappings_of(drafts@));
    r
}

/// The record that an end of a proposed relation is.
pub open spec fn resolved_endpoint(
    endpoint: ProposalEndpoint,
    drafts: Map<ProposalDraftId, AppliedRecord>,
) -> MemoryResult<RecordRef> {
    match endpoint {
        ProposalEndpoint::Existing(pin) => Ok(pin.record),
        ProposalEndpoint::Draft(id) => match lookup(drafts, id) {
            Some(applied) => Ok(applied.record()),
            None => invalid(InputFault::DraftUnresolved),
        },
    }
}

fn resolve_proposal_endpoint(endpoint: ProposalEndpoint, drafts: &Table<ProposalDraftId, AppliedRecord>) -> (r:
    MemoryResult<RecordRef>)
    ensures
        r == resolved_endpoint(endpoint, drafts@),
{
    match endpoint {
        ProposalEndpoint::Existing(pin) => Ok(pin.record),
        ProposalEndpoint::Draft(id) => match drafts.get(&id) {
            Some(applied) => Ok((*applied).as_record_ref()),
            None => Err(MemoryError::InvalidInput(InputFault::DraftUnresolved)),
        },
    }
}

pub open spec fn first_active(record: RecordRef) -> RecordRevision {
    RecordRevision { record, revision: 1, state: RecordState::Active }
}

/// The records that changes mutate.
pub open spec fn change_targets(changes: Seq<ProposalChangeModel>) -> Set<RecordRef> {
    Set::new(|record: RecordRef| exists|i: int| 0 <= i < changes.len() && change_mutates(#[trigger] changes[i], record))
}

pub open spec fn change_mutates(change: ProposalChangeModel, record: RecordRef) -> bool {
    match change {
        ProposalChangeModel::Retract { target } => target.record == record,
        ProposalChangeModel::Supersede { target, .. } => target.record == record,
        _ => false,
    }
}

/// The records that are left alone when dependents of mutated records lose their
/// support: the proposal, its review and the mutated records themselves.
pub open spec fn spared_by(proposal_id: ProposalId, review_id: ProposalReviewCaseId, changes: Seq<ProposalChangeModel>) -> Set<
    RecordRef,
> {
    change_targets(changes).insert(RecordRef::Proposal(proposal_id)).insert(RecordRef::ProposalReview(review_id))
}

pub(crate) fn spared_records(
    proposal_id: ProposalId,
    review_id: ProposalReviewCaseId,
    changes: &Vec<ProposalChange>,
) -> (r: Ranked<RecordRef>)
    ensures
        r@.to_set() == spared_by(proposal_id, review_id, views(changes@)),
{
    let ghost all = views(changes@);
    assert(all.len() == changes@.len());
    let mut records: Ranked<RecordRef> = Ranked::new();
    records.insert(RecordRef::Proposal(proposal_id));
    records.insert(RecordRef::ProposalReview(review_id));
    for i in 0..changes.len()
        invariant
            all == views(changes@),
            all.len() == changes@.len(),
            forall|record: RecordRef| #[trigger]
                records@.contains(record) <==> spared_by(proposal_id, review_id, all.take(i as int)).contains(record),
    {
        assert(views(changes@)[i as int] == changes@[i as int]@);
        let ghost before = records@;
        match &changes[i] {
            ProposalChange::Retract { target } => {
                records.insert(target.record);
            },
            ProposalChange::Supersede { target, .. } => {
                records.insert(target.record);
            },
            _ => {},
        }
        proof {
            let shown = all.take(i + 1);
            let hidden = all.take(i as int);
            assert forall|record: RecordRef| #[trigger] records@.contains(record) <==> spared_by(
                proposal_id,
                review_id,
                shown,
            ).contains(record) by {
                assert(records@.contains(record) <==> before.contains(record) || change_mutates(all[i as int], record));
                if change_targets(hidden).contains(record) {
                    let j = choose|j: int| 0 <= j < hidden.len() && change_mutates(#[trigger] hidden[j], record);
                    assert(change_mutates(shown[j], record));
                }
                if change_mutates(all[i as int], record) {
                    assert(change_mutates(shown[i as int], record));
                }
                if change_targets(shown).contains(record) && !change_mutates(all[i as int], record) {
                    let j = choose|j: int| 0 <= j < shown.len() && change_mutates(#[trigger] shown[j], record);
                    assert(change_mutates(hidden[j], record));
                }
            }
        }
    }
    proof {
        assert(all.take(all.len() as int) =~= all);
        assert(records@.to_set() =~= spared_by(proposal_id, review_id, all));
    }
    records
}

/// What applying changes has come to.
#[verifier::ext_equal]
pub struct AppliedModel {
    pub store: StoreModel,
    pub revisions: Seq<RecordRevision>,
    pub seen: Set<RecordRef>,
}

/// What applying changes has come to.
pub struct Applied {
    pub batch: Batch,
    pub revisions: Vec<RecordRevision>,
    pub seen: Ranked<RecordRef>,
}

impl Applied {
    /// Seen from the store that the batch is for.
    pub open spec fn over(self, store: StoreModel) -> AppliedModel {
        AppliedModel {
            store: store.after(self.batch@),
            revisions: self.revisions@,
            seen: self.seen@.to_set(),
        }
    }
}

/// `answer` left `after` as wanted, or is the same refusal.
pub open spec fn applies(
    store: StoreModel,
    after: Applied,
    answer: MemoryResult<()>,
    wanted: MemoryResult<AppliedModel>,
) -> bool {
    match (answer, wanted) {
        (Ok(_), Ok(owed)) => after.over(store) == owed,
        (Err(error), Err(refusal)) => error == refusal,
        _ => false,
    }
}

impl AppliedModel {
    /// With a record brought by a change: a claim or an entity.
    #[verifier::opaque]
    pub open spec fn creating(self, change: ProposalChangeModel, id: Ulid, at: Application) -> AppliedModel {
        match change {
            ProposalChangeModel::CreateClaim { domain, temporal, proposition, evidence_ids, .. } => AppliedModel {
                store: self.store.with_claim(
                    ClaimRevisionHeaderModel {
                        id: ClaimId(id),
                        revision: 1,
                        previous_revision: None,
                        domain,
                        scope: at.scope,
                        temporal,
                        evidence_ids,
                        state: RecordState::Active,
                        recorded_at_ms: at.recorded_at_ms,
                        operation_id: at.operation_id,
                    },
                    proposition,
                ),
                revisions: self.revisions.push(first_active(RecordRef::Claim(ClaimId(id)))),
                ..self
            },
            ProposalChangeModel::CreateEntity { kind, temporal, canonical_name, aliases, evidence_ids, .. } => {
                AppliedModel {
                    store: self.store.with_entity(
                        EntityRevisionHeaderModel {
                            id: EntityId(id),
                            revision: 1,
                            previous_revision: None,
                            kind,
                            scope: at.scope,
                            temporal,
                            evidence_ids,
                            state: RecordState::Active,
                            recorded_at_ms: at.recorded_at_ms,
                            operation_id: at.operation_id,
                        },
                        canonical_name,
                        aliases,
                    ),
                    revisions: self.revisions.push(first_active(RecordRef::Entity(EntityId(id)))),
                    ..self
                }
            },
            _ => self,
        }
    }

    /// With the claims and entities of the first `n` changes.
    pub open spec fn created(self, changes: Seq<ProposalChangeModel>, ids: Seq<Ulid>, at: Application, n: nat) -> AppliedModel
        decreases n,
    {
        if n == 0 {
            self
        } else {
            self.created(changes, ids, at, (n - 1) as nat).creating(changes[n - 1], ids[n - 1], at)
        }
    }

    /// With a relation brought by a change.
    #[verifier::opaque]
    pub open spec fn relating(
        self,
        change: ProposalChangeModel,
        id: Ulid,
        drafts: Map<ProposalDraftId, AppliedRecord>,
        at: Application,
    ) -> MemoryResult<AppliedModel> {
        match change {
            ProposalChangeModel::CreateRelation { from, to, kind, evidence_ids, qualifier, .. } => {
                match resolved_endpoint(from, drafts) {
                    Err(error) => Err(error),
                    Ok(from) => match resolved_endpoint(to, drafts) {
                        Err(error) => Err(error),
                        Ok(to) => Ok(
                            AppliedModel {
                                store: self.store.with_relation(
                                    SemanticRelationRevisionHeaderModel {
                                        id: RelationId(id),
                                        revision: 1,
                                        previous_revision: None,
                                        from,
                                        to,
                                        kind,
                                        scope: at.scope,
                                        evidence_ids,
                                        state: RecordState::Active,
                                        recorded_at_ms: at.recorded_at_ms,
                                        operation_id: at.operation_id,
                                    },
                                    qualifier,
                                ),
                                revisions: self.revisions.push(
                                    first_active(RecordRef::SemanticRelation(RelationId(id))),
                                ),
                                ..self
                            },
                        ),
                    },
                }
            },
            _ => Ok(self),
        }
    }

    /// With the relations of the first `n` changes.
    pub open spec fn related(
        self,
        changes: Seq<ProposalChangeModel>,
        ids: Seq<Ulid>,
        drafts: Map<ProposalDraftId, AppliedRecord>,
        at: Application,
        n: nat,
    ) -> MemoryResult<AppliedModel>
        decreases n,
    {
        if n == 0 {
            Ok(self)
        } else {
            match self.related(changes, ids, drafts, at, (n - 1) as nat) {
                Err(error) => Err(error),
                Ok(before) => before.relating(changes[n - 1], ids[n - 1], drafts, at),
            }
        }
    }

    /// With a further revision of a record of the committed store, taken out of the index.
    #[verifier::opaque]
    pub open spec fn moved(
        self,
        committed: StoreModel,
        record: RecordRef,
        expected_revision: u64,
        state: RecordState,
        at: Application,
    ) -> MemoryResult<AppliedModel> {
        match committed.appended(
            self.store,
            record,
            expected_revision,
            state,
            at.operation_id,
            at.recorded_at_ms,
        ) {
            Err(error) => Err(error),
            Ok((after, revision)) => Ok(
                AppliedModel {
                    store: after.unindexed(committed, record),
                    revisions: self.revisions.push(revision),
                    ..self
                },
            ),
        }
    }

    /// With the relation by which a draft supersedes a record.
    #[verifier::opaque]
    pub open spec fn superseding(
        self,
        replacement: ProposalDraftId,
        target: RecordRef,
        id: Ulid,
        drafts: Map<ProposalDraftId, AppliedRecord>,
        sources: Seq<EvidenceId>,
        at: Application,
    ) -> MemoryResult<AppliedModel> {
        match lookup(drafts, replacement) {
            None => invalid(InputFault::ReplacementUnresolved),
            Some(applied) => Ok(
                AppliedModel {
                    store: self.store.with_relation(
                        SemanticRelationRevisionHeaderModel {
                            id: RelationId(id),
                            revision: 1,
                            previous_revision: None,
                            from: applied.record(),
                            to: target,
                            kind: RelationKind::Supersedes,
                            scope: at.scope,
                            evidence_ids: sources,
                            state: RecordState::Active,
                            recorded_at_ms: at.recorded_at_ms,
                            operation_id: at.operation_id,
                        },
                        None,
                    ),
                    revisions: self.revisions.push(first_active(RecordRef::SemanticRelation(RelationId(id)))),
                    ..self
                },
            ),
        }
    }

    /// With the first `n` dependents unsupported, each once, but for those that are spared.
    pub open spec fn undermined(
        self,
        committed: StoreModel,
        dependencies: Seq<PurgeDependency>,
        spared: Set<RecordRef>,
        at: Application,
        n: nat,
    ) -> MemoryResult<AppliedModel>
        decreases n,
    {
        if n == 0 {
            Ok(self)
        } else {
            match self.undermined(committed, dependencies, spared, at, (n - 1) as nat) {
                Err(error) => Err(error),
                Ok(before) => {
                    let dependency = dependencies[n - 1];
                    if spared.contains(dependency.record) || before.seen.contains(dependency.record) {
                        Ok(before)
                    } else {
                        (AppliedModel { seen: before.seen.insert(dependency.record), ..before }).moved(
                            committed,
                            dependency.record,
                            dependency.expected_revision,
                            RecordState::Unsupported,
                            at,
                        )
                    }
                },
            }
        }
    }

    /// With a record retracted or superseded by a change, and what rests on it unsupported.
    #[verifier::opaque]
    pub open spec fn mutating(
        self,
        committed: StoreModel,
        change: ProposalChangeModel,
        id: Ulid,
        drafts: Map<ProposalDraftId, AppliedRecord>,
        sources: Seq<EvidenceId>,
        spared: Set<RecordRef>,
        at: Application,
    ) -> MemoryResult<AppliedModel> {
        match change {
            ProposalChangeModel::Retract { target } => match committed.dependency_closure(target.record, false) {
                Err(error) => Err(error),
                Ok(dependencies) => match self.moved(
                    committed,
                    target.record,
                    target.revision,
                    RecordState::Retracted,
                    at,
                ) {
                    Err(error) => Err(error),
                    Ok(after) => after.undermined(committed, dependencies, spared, at, dependencies.len()),
                },
            },
            ProposalChangeModel::Supersede { target, replacement } => {
                match committed.dependency_closure(target.record, false) {
                    Err(error) => Err(error),
                    Ok(dependencies) => match self.moved(
                        committed,
                        target.record,
                        target.revision,
                        RecordState::Superseded,
                        at,
                    ) {
                        Err(error) => Err(error),
                        Ok(moved) => match moved.superseding(
                            replacement,
                            target.record,
                            id,
                            drafts,
                            sources,
                            at,
                        ) {
                            Err(error) => Err(error),
                            Ok(after) => after.undermined(committed, dependencies, spared, at, dependencies.len()),
                        },
                    },
                }
            },
            _ => Ok(self),
        }
    }

    /// With the records that the first `n` changes retract or supersede.
    pub open spec fn mutated(
        self,
        committed: StoreModel,
        changes: Seq<ProposalChangeModel>,
        ids: Seq<Ulid>,
        drafts: Map<ProposalDraftId, AppliedRecord>,
        sources: Seq<EvidenceId>,
        spared: Set<RecordRef>,
        at: Application,
        n: nat,
    ) -> MemoryResult<AppliedModel>
        decreases n,
    {
        if n == 0 {
            Ok(self)
        } else {
            match self.mutated(committed, changes, ids, drafts, sources, spared, at, (n - 1) as nat) {
                Err(error) => Err(error),
                Ok(before) => before.mutating(
                    committed,
                    changes[n - 1],
                    ids[n - 1],
                    drafts,
                    sources,
                    spared,
                    at,
                ),
            }
        }
    }
}

impl StoreModel {
    /// With the first revision of an entity, indexed and filed under its evidence.
    #[verifier::opaque]
    pub open spec fn with_entity(
        self,
        header: EntityRevisionHeaderModel,
        canonical_name: Seq<char>,
        aliases: Seq<Seq<char>>,
    ) -> StoreModel {
        let record = RecordRef::Entity(header.id);
        self.put(WriteModel::PutEntity(revision_of(header.id.0, 1), header)).put(
            WriteModel::PutHead(record, 1),
        ).put(
            WriteModel::PutEntityPayload(header.id, EntityPayloadModel { canonical_name, aliases }),
        ).supported(header.evidence_ids, record, header.evidence_ids.len()).indexed(
            record,
            1,
            header.scope,
            header.temporal,
            entity_text(canonical_name, aliases, aliases.len()),
        )
    }

    /// What the changes of a proposal make of this store: claims and entities first, then
    /// relations, then retractions and supersessions.
    #[verifier::opaque]
    pub open spec fn changes_applied(
        self,
        staged: StoreModel,
        changes: Seq<ProposalChangeModel>,
        ids: Seq<Ulid>,
        drafts: Map<ProposalDraftId, AppliedRecord>,
        sources: Seq<EvidenceId>,
        spared: Set<RecordRef>,
        at: Application,
    ) -> MemoryResult<AppliedModel> {
        let start = AppliedModel { store: staged, revisions: Seq::empty(), seen: Set::empty() };
        match start.created(changes, ids, at, changes.len()).related(changes, ids, drafts, at, changes.len()) {
            Err(error) => Err(error),
            Ok(related) => related.mutated(self, changes, ids, drafts, sources, spared, at, changes.len()),
        }
    }
}

proof fn related_refusal_persists(
    s: AppliedModel,
    changes: Seq<ProposalChangeModel>,
    ids: Seq<Ulid>,
    drafts: Map<ProposalDraftId, AppliedRecord>,
    at: Application,
    n: nat,
    m: nat,
)
    requires
        n <= m,
        s.related(changes, ids, drafts, at, n) is Err,
    ensures
        s.related(changes, ids, drafts, at, m) == s.related(changes, ids, drafts, at, n),
    decreases m,
{
    if n < m {
        related_refusal_persists(s, changes, ids, drafts, at, n, (m - 1) as nat);
    }
}

proof fn undermined_refusal_persists(
    s: AppliedModel,
    committed: StoreModel,
    dependencies: Seq<PurgeDependency>,
    spared: Set<RecordRef>,
    at: Application,
    n: nat,
    m: nat,
)
    requires
        n <= m,
        s.undermined(committed, dependencies, spared, at, n) is Err,
    ensures
        s.undermined(committed, dependencies, spared, at, m) == s.undermined(committed, dependencies, spared, at, n),
    decreases m,
{
    if n < m {
        undermined_refusal_persists(s, committed, dependencies, spared, at, n, (m - 1) as nat);
    }
}

proof fn mutated_refusal_persists(
    s: AppliedModel,
    committed: StoreModel,
    changes: Seq<ProposalChangeModel>,
    ids: Seq<Ulid>,
    drafts: Map<ProposalDraftId, AppliedRecord>,
    sources: Seq<EvidenceId>,
    spared: Set<RecordRef>,
    at: Application,
    n: nat,
    m: nat,
)
    requires
        n <= m,
        s.mutated(committed, changes, ids, drafts, sources, spared, at, n) is Err,
    ensures
        s.mutated(committed, changes, ids, drafts, sources, spared, at, m) == s.mutated(
            committed,
            changes,
            ids,
            drafts,
            sources,
            spared,
            at,
            n,
        ),
    decreases m,
{
    if n < m {
        mutated_refusal_persists(s, committed, changes, ids, drafts, sources, spared, at, n, (m - 1) as nat);
    }
}

impl MemoryDatabase {
    fn insert_entity(
        &self,
        batch: &mut Batch,
        header: EntityRevisionHeader,
        canonical_name: &String,
        aliases: &Vec<String>,
    )
        ensures
            self@.after(final(batch)@) == self@.after(old(batch)@).with_entity(
                header@,
                canonical_name@,
                views(aliases@),
            ),
    {
        reveal(StoreModel::with_entity);
        let record = RecordRef::Entity(header.id);
        let id = header.id;
        let evidence_ids = copies(&header.evidence_ids);
        let scope = header.scope;
        let temporal = header.temporal;
        batch.push(Write::PutEntity(RevisionKey { id: id.0, revision: 1 }, header));
        batch.push(Write::PutHead(record, 1));
        batch.push(
            Write::PutEntityPayload(
                id,
                EntityPayload { canonical_name: canonical_name.clone(), aliases: replicas(aliases) },
            ),
        );
        self.insert_support(batch, &evidence_ids, record);
        let text = entity_index_text(canonical_name.as_str(), aliases);
        assert(views(aliases@).len() == aliases@.len());
        self.insert_lexical_document(batch, record, 1, scope, temporal, text.as_str());
    }

    fn apply_creation(&self, applied: &mut Applied, change: &ProposalChange, id: Ulid, at: Application)
        ensures
            final(applied).over(self@) == old(applied).over(self@).creating(change@, id, at),
    {
        reveal(AppliedModel::creating);
        match change {
            ProposalChange::CreateClaim { domain, temporal, proposition, evidence_ids, .. } => {
                let header = ClaimRevisionHeader {
                    id: ClaimId(id),
                    revision: 1,
                    previous_revision: None,
                    domain: *domain,
                    scope: at.scope,
                    temporal: *temporal,
                    evidence_ids: copies(evidence_ids),
                    state: RecordState::Active,
                    recorded_at_ms: at.recorded_at_ms,
                    operation_id: at.operation_id,
                };
                self.insert_claim(&mut applied.batch, header, proposition);
                applied.revisions.push(
                    RecordRevision {
                        record: RecordRef::Claim(ClaimId(id)),
                        revision: 1,
                        state: RecordState::Active,
                    },
                );
            },
            ProposalChange::CreateEntity { kind, temporal, canonical_name, aliases, evidence_ids, .. } => {
                let header = EntityRevisionHeader {
                    id: EntityId(id),
                    revision: 1,
                    previous_revision: None,
                    kind: *kind,
                    scope: at.scope,
                    temporal: *temporal,
                    evidence_ids: copies(evidence_ids),
                    state: RecordState::Active,
                    recorded_at_ms: at.recorded_at_ms,
                    operation_id: at.operation_id,
                };
                self.insert_entity(&mut applied.batch, header, canonical_name, aliases);
                applied.revisions.push(
                    RecordRevision {
                        record: RecordRef::Entity(EntityId(id)),
                        revision: 1,
                        state: RecordState::Active,
                    },
                );
            },
            _ => {},
        }
    }

    fn apply_relation(
        &self,
        applied: &mut Applied,
        change: &ProposalChange,
        id: Ulid,
        drafts: &Table<ProposalDraftId, AppliedRecord>,
        at: Application,
    ) -> (r: MemoryResult<()>)
        ensures
            applies(self@, *final(applied), r, old(applied).over(self@).relating(change@, id, drafts@, at)),
    {
        reveal(AppliedModel::relating);
        match change {
            ProposalChange::CreateRelation { from, to, kind, evidence_ids, qualifier, .. } => {
                let from = resolve_proposal_endpoint(*from, drafts)?;
                let to = resolve_proposal_endpoint(*to, drafts)?;
                let header = SemanticRelationRevisionHeader {
                    id: RelationId(id),
                    revision: 1,
                    previous_revision: None,
                    from,
                    to,
                    kind: *kind,
                    scope: at.scope,
                    evidence_ids: copies(evidence_ids),
                    state: RecordState::Active,
                    recorded_at_ms: at.recorded_at_ms,
                    operation_id: at.operation_id,
                };
                self.insert_relation(&mut applied.batch, header, opt_replica(qualifier));
                applied.revisions.push(
                    RecordRevision {
                        record: RecordRef::SemanticRelation(RelationId(id)),
                        revision: 1,
                        state: RecordState::Active,
                    },
                );
                Ok(())
            },
            _ => Ok(()),
        }
    }

    fn apply_move(
        &self,
        applied: &mut Applied,
        record: RecordRef,
        expected_revision: u64,
        state: RecordState,
        at: Application,
    ) -> (r: MemoryResult<()>)
        ensures
            applies(
                self@,
                *final(applied),
                r,
                old(applied).over(self@).moved(self@, record, expected_revision, state, at),
            ),
    {
        reveal(AppliedModel::moved);
        let revision = self.append_state_revision(
            &mut applied.batch,
            record,
            expected_revision,
            state,
            at.operation_id,
            at.recorded_at_ms,
        )?;
        self.remove_lexical_document(&mut applied.batch, record);
        applied.revisions.push(revision);
        Ok(())
    }

    fn apply_supersession(
        &self,
        applied: &mut Applied,
        replacement: ProposalDraftId,
        target: RecordRef,
        id: Ulid,
        drafts: &Table<ProposalDraftId, AppliedRecord>,
        sources: &Vec<EvidenceId>,
        at: Application,
    ) -> (r: MemoryResult<()>)
        ensures
            applies(
                self@,
                *final(applied),
                r,
                old(applied).over(self@).superseding(replacement, target, id, drafts@, sources@, at),
            ),
    {
        reveal(AppliedModel::superseding);
        let from = match drafts.get(&replacement) {
            Some(record) => (*record).as_record_ref(),
            None => return Err(MemoryError::InvalidInput(InputFault::ReplacementUnresolved)),
        };
        let header = SemanticRelationRevisionHeader {
            id: RelationId(id),
            revision: 1,
            previous_revision: None,
            from,
            to: target,
            kind: RelationKind::Supersedes,
            scope: at.scope,
            evidence_ids: copies(sources),
            state: RecordState::Active,
            recorded_at_ms: at.recorded_at_ms,
            operation_id: at.operation_id,
        };
        self.insert_relation(&mut applied.batch, header, None);
        applied.revisions.push(
            RecordRevision {
                record: RecordRef::SemanticRelation(RelationId(id)),
                revision: 1,
                state: RecordState::Active,
            },
        );
        Ok(())
    }

    fn undermine(
        &self,
        applied: &mut Applied,
        dependencies: &Vec<PurgeDependency>,
        spared: &Ranked<RecordRef>,
        at: Application,
    ) -> (r: MemoryResult<()>)
        ensures
            applies(
                self@,
                *final(applied),
                r,
                old(applied).over(self@).undermined(
                    self@,
                    dependencies@,
                    spared@.to_set(),
                    at,
                    dependencies@.len(),
                ),
            ),
    {
        let ghost start = applied.over(self@);
        let mut i: usize = 0;
        while i < dependencies.len()
            invariant
                i <= dependencies@.len(),
                start == old(applied).over(self@),
                start.undermined(self@, dependencies@, spared@.to_set(), at, i as nat) == Ok::<
                    AppliedModel,
                    MemoryError,
                >(applied.over(self@)),
            decreases dependencies@.len() - i,
        {
            let dependency = dependencies[i];
            let ghost before = applied.over(self@);
            proof {
                if start.undermined(self@, dependencies@, spared@.to_set(), at, (i + 1) as nat) is Err {
                    undermined_refusal_persists(
                        start,
                        self@,
                        dependencies@,
                        spared@.to_set(),
                        at,
                        (i + 1) as nat,
                        dependencies@.len(),
                    );
                }
            }
            if !spared.contains(&dependency.record) {
                if applied.seen.insert(dependency.record) {
                    assert(applied.seen@.to_set() =~= before.seen.insert(dependency.record));
                    assert(applied.over(self@) == (AppliedModel {
                        seen: before.seen.insert(dependency.record),
                        ..before
                    }));
                    match self.apply_move(
                        applied,
                        dependency.record,
                        dependency.expected_revision,
                        RecordState::Unsupported,
                        at,
                    ) {
                        Ok(_) => {},
                        Err(error) => return Err(error),
                    }
                }
            }
            i = i + 1;
        }
        Ok(())
    }

    fn apply_mutation(
        &self,
        applied: &mut Applied,
        change: &ProposalChange,
        id: Ulid,
        drafts: &Table<ProposalDraftId, AppliedRecord>,
        sources: &Vec<EvidenceId>,
        spared: &Ranked<RecordRef>,
        at: Application,
    ) -> (r: MemoryResult<()>)
        ensures
            applies(
                self@,
                *final(applied),
                r,
                old(applied).over(self@).mutating(
                    self@,
                    change@,
                    id,
                    drafts@,
                    sources@,
                    spared@.to_set(),
                    at,
                ),
            ),
    {
        reveal(AppliedModel::mutating);
        match change {
            ProposalChange::Retract { target } => {
                let dependencies = self.dependency_closure(target.record, false)?;
                self.apply_move(applied, target.record, target.revision, RecordState::Retracted, at)?;
                self.undermine(applied, &dependencies, spared, at)
            },
            ProposalChange::Supersede { target, replacement } => {
                let dependencies = self.dependency_closure(target.record, false)?;
                self.apply_move(applied, target.record, target.revision, RecordState::Superseded, at)?;
                self.apply_supersession(applied, *replacement, target.record, id, drafts, sources, at)?;
                self.undermine(applied, &dependencies, spared, at)
            },
            _ => Ok(()),
        }
    }

    fn apply_creations(&self, applied: &mut Applied, changes: &Vec<ProposalChange>, ids: &Vec<Ulid>, at: Application)
        requires
            changes@.len() <= ids@.len(),
        ensures
            final(applied).over(self@) == old(applied).over(self@).created(
                views(changes@),
                ids@,
                at,
                changes@.len(),
            ),
    {
        let ghost all = views(changes@);
        let ghost start = applied.over(self@);
        for i in 0..changes.len()
            invariant
                changes@.len() <= ids@.len(),
                all == views(changes@),
                applied.over(self@) == start.created(all, ids@, at, i as nat),
        {
            assert(views(changes@)[i as int] == changes@[i as int]@);
            self.apply_creation(applied, &changes[i], ids[i], at);
        }
    }

    fn apply_relations(
        &self,
        applied: &mut Applied,
        changes: &Vec<ProposalChange>,
        ids: &Vec<Ulid>,
        drafts: &Table<ProposalDraftId, AppliedRecord>,
        at: Application,
    ) -> (r: MemoryResult<()>)
        requires
            changes@.len() <= ids@.len(),
        ensures
            applies(
                self@,
                *final(applied),
                r,
                old(applied).over(self@).related(views(changes@), ids@, drafts@, at, changes@.len()),
            ),
    {
        let ghost all = views(changes@);
        let ghost start = applied.over(self@);
        for i in 0..changes.len()
            invariant
                changes@.len() <= ids@.len(),
                all == views(changes@),
                start == old(applied).over(self@),
                start.related(all, ids@, drafts@, at, i as nat) == Ok::<AppliedModel, MemoryError>(
                    applied.over(self@),
                ),
        {
            assert(views(changes@)[i as int] == changes@[i as int]@);
            match self.apply_relation(applied, &changes[i], ids[i], drafts, at) {
                Ok(_) => {},
                Err(error) => {
                    proof {
                        related_refusal_persists(
                            start,
                            all,
                            ids@,
                            drafts@,
                            at,
                            (i + 1) as nat,
                            changes@.len(),
                        );
                    }
                    return Err(error);
                },
            }
        }
        Ok(())
    }

    fn apply_mutations(
        &self,
        applied: &mut Applied,
        changes: &Vec<ProposalChange>,
        ids: &Vec<Ulid>,
        drafts: &Table<ProposalDraftId, AppliedRecord>,
        sources: &Vec<EvidenceId>,
        spared: &Ranked<RecordRef>,
        at: Application,
    ) -> (r: MemoryResult<()>)
        requires
            changes@.len() <= ids@.len(),
        ensures
            applies(
                self@,
                *final(applied),
                r,
                old(applied).over(self@).mutated(
                    self@,
                    views(changes@),
                    ids@,
                    drafts@,
                    sources@,
                    spared@.to_set(),
                    at,
                    changes@.len(),
                ),
            ),
    {
        let ghost all = views(changes@);
        let ghost kept = spared@.to_set();
        let ghost start = applied.over(self@);
        for i in 0..changes.len()
            invariant
                changes@.len() <= ids@.len(),
                all == views(changes@),
                kept == spared@.to_set(),
                start == old(applied).over(self@),
                start.mutated(self@, all, ids@, drafts@, sources@, kept, at, i as nat) == Ok::<
                    AppliedModel,
                    MemoryError,
                >(applied.over(self@)),
        {
            assert(views(changes@)[i as int] == changes@[i as int]@);
            match self.apply_mutation(applied, &changes[i], ids[i], drafts, sources, spared, at) {
                Ok(_) => {},
                Err(error) => {
                    proof {
                        mutated_refusal_persists(
                            start,
                            self@,
                            all,
                            ids@,
                            drafts@,
                            sources@,
                            kept,
                            at,
                            (i + 1) as nat,
                            changes@.len(),
                        );
                    }
                    return Err(error);
                },
            }
        }
        Ok(())
    }

    pub(crate) fn apply_changes(
        &self,
        batch: Batch,
        changes: &Vec<ProposalChange>,
        ids: &Vec<Ulid>,
        drafts: &Table<ProposalDraftId, AppliedRecord>,
        sources: &Vec<EvidenceId>,
        spared: &Ranked<RecordRef>,
        at: Application,
    ) -> (r: MemoryResult<Applied>)
        requires
            changes@.len() <= ids@.len(),
        ensures
            match (
                r,
                self@.changes_applied(
                    self@.after(batch@),
                    views(changes@),
                    ids@,
                    drafts@,
                    sources@,
                    spared@.to_set(),
                    at,
                ),
            ) {
                (Ok(applied), Ok(owed)) => applied.over(self@) == owed,
                (Err(error), Err(refusal)) => error == refusal,
                _ => false,
            },
    {
        reveal(StoreModel::changes_applied);
        let ghost start = AppliedModel {
            store: self@.after(batch@),
            revisions: Seq::empty(),
            seen: Set::empty(),
        };
        let mut applied = Applied { batch, revisions: Vec::new(), seen: Ranked::new() };
        assert(applied.over(self@).seen =~= Set::<RecordRef>::empty());
        assert(applied.over(self@) == start);
        assert(views(changes@).len() == changes@.len());
        self.apply_creations(&mut applied, changes, ids, at);
        self.apply_relations(&mut applied, changes, ids, drafts, at)?;
        self.apply_mutations(&mut applied, changes, ids, drafts, sources, spared, at)?;
        Ok(applied)
    }
}

/// The draft that a change makes a record of.
pub open spec fn draft_of(change: ProposalChangeModel) -> Option<ProposalDraftId> {
    match change {
        ProposalChangeModel::CreateClaim { draft_id, .. } => Some(draft_id),
        ProposalChangeModel::CreateEntity { draft_id, .. } => Some(draft_id),
        ProposalChangeModel::CreateRelation { draft_id, .. } => Some(draft_id),
        _ => None,
    }
}

proof fn drafts_are_known(changes: Seq<ProposalChangeModel>, ids: Seq<Ulid>, n: nat)
    requires
        n <= changes.len(),
    ensures
        drafted(changes, ids, n).dom().finite(),
        forall|i: int|
            0 <= i < n && draft_of(#[trigger] changes[i]) is Some ==> drafted(changes, ids, n).contains_key(
                draft_of(changes[i])->0,
            ),
    decreases n,
{
    if n > 0 {
        drafts_are_known(changes, ids, (n - 1) as nat);
    }
}

/// Whether a list says what became of a draft.
pub open spec fn maps_draft(mappings: Seq<DraftMapping>, draft: ProposalDraftId) -> bool {
    exists|j: int| 0 <= j < mappings.len() && (#[trigger] mappings[j]).draft_id == draft
}

/// Of every draft of a proposal that was applied, it is told what became of it.
pub proof fn drafts_are_mapped(changes: Seq<ProposalChangeModel>, ids: Seq<Ulid>)
    ensures
        forall|i: int|
            0 <= i < changes.len() && draft_of(#[trigger] changes[i]) is Some ==> maps_draft(
                mappings_of(drafted(changes, ids, changes.len())),
                draft_of(changes[i])->0,
            ),
{
    let drafts = drafted(changes, ids, changes.len());
    let mappings = mappings_of(drafts);
    drafts_are_known(changes, ids, changes.len());
    in_order_lists(drafts.dom());
    assert forall|i: int| 0 <= i < changes.len() && draft_of(#[trigger] changes[i]) is Some implies maps_draft(
        mappings,
        draft_of(changes[i])->0,
    ) by {
        let draft = draft_of(changes[i])->0;
        assert(in_order(drafts.dom()).contains(draft));
        let j = choose|j: int| 0 <= j < in_order(drafts.dom()).len() && in_order(drafts.dom())[j] == draft;
        assert(mappings[j].draft_id == draft);
    }
}

} // verus!
