//! The normal form of proposal bundles.
use vstd::prelude::*;
use crate::fault::{InputFault, MemoryError, MemoryResult, TextField, invalid};
use crate::ids::{EvidenceId, ProposalDraftId};
use crate::inspect::{lookup, shown, shown_list};
use crate::keys::word_span;
use crate::order::{Keyed, Ranked, in_order, in_order_is_unique, increasing, lists, sorted_distinct};
use crate::records::evidence::RecordRef;
use crate::records::proposal::{
    NewProposalBundle, NewProposalBundleModel, ProposalChange, ProposalChangeModel,
    ProposalEndpoint,
};
use crate::records::recall::{EvidenceRevisionPin, RecordRevisionPin};
use crate::relations::{
    SemanticEndpointKind, endpoint_kind, joining_fault, joins, semantic_endpoint_kind,
    trimmed_qualifier, validate_qualifier, validate_relation_endpoint_kinds,
};
use crate::rules::{MAX_EVIDENCE_SOURCES, trimmed_text, validate_text};
use crate::table::{Replica, Table, views};
use crate::wordlist::{enter_text, entered};

verus! {

pub const MAX_PROPOSAL_CHANGES: usize = 128;

pub const MAX_PROPOSAL_ENCODED_BYTES: usize = 1_048_576;

pub const MAX_PROPOSAL_DEPENDENCY_EDGES: usize = 4_096;

pub const MAX_ENTITY_ALIASES: usize = 64;

pub const MAX_PROPOSAL_ALIASES: usize = 1_024;

/// What kind of record a draft stands for.
#[derive(Clone, Copy, Debug, PartialEq, Eq, Structural)]
pub enum ProposalDraftKind {
    Claim,
    Entity,
    Relation,
}

impl View for ProposalDraftKind {
    type V = ProposalDraftKind;

    open spec fn view(&self) -> ProposalDraftKind {
        *self
    }
}

/// Evidence pins are listed by evidence, then by revision.
impl Keyed for EvidenceRevisionPin {
    open spec fn rank(&self) -> int {
        self.id.rank() * word_span() + self.revision
    }

    proof fn rank_is_injective(a: &Self, b: &Self) {
        EvidenceId::rank_is_injective(&a.id, &b.id);
    }

    fn before(&self, other: &Self) -> (r: bool) {
        if self.id.before(&other.id) {
            true
        } else if other.id.before(&self.id) {
            false
        } else {
            self.revision < other.revision
        }
    }
}

/// The evidence that pins name.
pub open spec fn pinned_evidence(pins: Seq<EvidenceRevisionPin>) -> Set<EvidenceId> {
    Set::new(|id: EvidenceId| exists|i: int| 0 <= i < pins.len() && (#[trigger] pins[i]).id == id)
}

fn evidence_of_pins(pins: &Vec<EvidenceRevisionPin>) -> (r: Ranked<EvidenceId>)
    ensures
        forall|id: EvidenceId| #[trigger] r@.contains(id) <==> pinned_evidence(pins@).contains(id),
{
    let mut r: Ranked<EvidenceId> = Ranked::new();
    for i in 0..pins.len()
        invariant
            forall|id: EvidenceId| #[trigger] r@.contains(id) <==> pinned_evidence(pins@.take(i as int)).contains(id),
    {
        let ghost before = r@;
        r.insert(pins[i].id);
        proof {
            let shown = pins@.take(i + 1);
            let hidden = pins@.take(i as int);
            assert forall|id: EvidenceId| #[trigger] r@.contains(id) <==> pinned_evidence(shown).contains(id) by {
                if before.contains(id) {
                    assert(pinned_evidence(hidden).contains(id));
                    let j = choose|j: int| 0 <= j < hidden.len() && (#[trigger] hidden[j]).id == id;
                    assert(shown[j].id == id);
                }
                if id == pins@[i as int].id {
                    assert(shown[i as int].id == id);
                }
                if pinned_evidence(shown).contains(id) && id != pins@[i as int].id {
                    let j = choose|j: int| 0 <= j < shown.len() && (#[trigger] shown[j]).id == id;
                    assert(hidden[j].id == id);
                    assert(pinned_evidence(hidden).contains(id));
                }
            }
        }
    }
    assert(pins@.take(pins@.len() as int) =~= pins@);
    r
}

/// Evidence identifiers in order, all of them pinned.
#[verifier::opaque]
pub open spec fn sound_evidence_ids(ids: Seq<EvidenceId>, sources: Set<EvidenceId>) -> MemoryResult<Seq<EvidenceId>> {
    let kept = in_order(ids.to_set());
    if kept.len() == 0 {
        invalid(InputFault::ProposedWithoutEvidence)
    } else if kept.len() > MAX_EVIDENCE_SOURCES {
        invalid(InputFault::ProposedSources)
    } else if exists|i: int| 0 <= i < kept.len() && !sources.contains(#[trigger] kept[i]) {
        invalid(InputFault::ProposedEvidencePin)
    } else {
        Ok(kept)
    }
}

fn normalize_evidence_ids(ids: &Vec<EvidenceId>, sources: &Ranked<EvidenceId>) -> (r: MemoryResult<Vec<EvidenceId>>)
    ensures
        shown(r) == sound_evidence_ids(ids@, sources@.to_set()),
{
    reveal(sound_evidence_ids);
    let kept = sorted_distinct(ids);
    if kept.len() == 0 {
        return Err(MemoryError::InvalidInput(InputFault::ProposedWithoutEvidence));
    }
    if kept.len() > MAX_EVIDENCE_SOURCES {
        return Err(MemoryError::InvalidInput(InputFault::ProposedSources));
    }
    for i in 0..kept.len()
        invariant
            kept@ == in_order(ids@.to_set()),
            0 < kept@.len() <= MAX_EVIDENCE_SOURCES,
            forall|j: int| 0 <= j < i ==> sources@.to_set().contains(#[trigger] kept@[j]),
    {
        if !sources.contains(&kept[i]) {
            assert(!sources@.to_set().contains(kept@[i as int]));
            reveal(sound_evidence_ids);
            return Err(MemoryError::InvalidInput(InputFault::ProposedEvidencePin));
        }
    }
    Ok(kept)
}

/// The first `n` aliases without the blanks at their ends, in order.
pub open spec fn sound_aliases(aliases: Seq<Seq<char>>, n: nat) -> MemoryResult<Seq<Seq<char>>>
    decreases n,
{
    if n == 0 {
        Ok(Seq::empty())
    } else {
        match sound_aliases(aliases, (n - 1) as nat) {
            Err(error) => Err(error),
            Ok(before) => match trimmed_text(aliases[n - 1], TextField::EntityAlias) {
                Err(error) => Err(error),
                Ok(kept) => Ok(entered(before, kept)),
            },
        }
    }
}

proof fn alias_refusal_persists(aliases: Seq<Seq<char>>, n: nat, m: nat)
    requires
        n <= m,
        sound_aliases(aliases, n) is Err,
    ensures
        sound_aliases(aliases, m) == sound_aliases(aliases, n),
    decreases m,
{
    if n < m {
        alias_refusal_persists(aliases, n, (m - 1) as nat);
    }
}

fn normalize_aliases(aliases: &Vec<String>) -> (r: MemoryResult<Vec<String>>)
    ensures
        shown_list(r) == sound_aliases(views(aliases@), aliases@.len()),
        r is Ok ==> r->Ok_0@.len() <= aliases@.len(),
{
    let ghost all = views(aliases@);
    let mut kept: Vec<String> = Vec::new();
    assert(views(kept@) =~= Seq::<Seq<char>>::empty());
    for i in 0..aliases.len()
        invariant
            all == views(aliases@),
            kept@.len() <= i,
            sound_aliases(all, i as nat) == Ok::<Seq<Seq<char>>, MemoryError>(views(kept@)),
    {
        assert(views(aliases@)[i as int] == aliases@[i as int]@);
        match validate_text(aliases[i].as_str(), TextField::EntityAlias) {
            Ok(alias) => {
                enter_text(&mut kept, alias);
            },
            Err(error) => {
                proof {
                    alias_refusal_persists(all, (i + 1) as nat, aliases@.len());
                }
                return Err(error);
            },
        }
    }
    Ok(kept)
}

/// What was gathered from the changes of a bundle.
pub struct Gathering {
    pub changes: Vec<ProposalChange>,
    pub drafts: Table<ProposalDraftId, ProposalDraftKind>,
    pub targets: Ranked<RecordRef>,
    pub aliases: usize,
}

/// What a [`Gathering`] holds.
#[verifier::ext_equal]
pub struct GatheringModel {
    pub changes: Seq<ProposalChangeModel>,
    pub drafts: Map<ProposalDraftId, ProposalDraftKind>,
    pub targets: Set<RecordRef>,
    pub aliases: int,
}

impl View for Gathering {
    type V = GatheringModel;

    open spec fn view(&self) -> GatheringModel {
        GatheringModel {
            changes: views(self.changes@),
            drafts: self.drafts@,
            targets: self.targets@.to_set(),
            aliases: self.aliases as int,
        }
    }
}

impl GatheringModel {
    /// With a change that brings a draft.
    pub open spec fn with_draft(
        self,
        draft_id: ProposalDraftId,
        kind: ProposalDraftKind,
        change: ProposalChangeModel,
    ) -> MemoryResult<GatheringModel> {
        if self.drafts.contains_key(draft_id) {
            invalid(InputFault::DraftIdsRepeat)
        } else {
            Ok(
                GatheringModel {
                    changes: self.changes.push(change),
                    drafts: self.drafts.insert(draft_id, kind),
                    ..self
                },
            )
        }
    }

    /// With a change of a record that is there.
    pub open spec fn with_target(self, record: RecordRef, change: ProposalChangeModel) -> MemoryResult<GatheringModel> {
        if self.targets.contains(record) {
            invalid(InputFault::MutationTargetRepeats)
        } else {
            Ok(
                GatheringModel {
                    changes: self.changes.push(change),
                    targets: self.targets.insert(record),
                    ..self
                },
            )
        }
    }

    /// With one more change in its normal form.
    #[verifier::opaque]
    pub open spec fn gather(self, change: ProposalChangeModel, sources: Set<EvidenceId>) -> MemoryResult<
        GatheringModel,
    > {
        match change {
            ProposalChangeModel::CreateClaim { draft_id, domain, temporal, proposition, evidence_ids } => {
                if !temporal.coherent() {
                    invalid(InputFault::ValidTimeInterval)
                } else {
                    match trimmed_text(proposition, TextField::ClaimProposition) {
                        Err(error) => Err(error),
                        Ok(proposition) => match sound_evidence_ids(evidence_ids, sources) {
                            Err(error) => Err(error),
                            Ok(evidence_ids) => self.with_draft(
                                draft_id,
                                ProposalDraftKind::Claim,
                                ProposalChangeModel::CreateClaim {
                                    draft_id,
                                    domain,
                                    temporal,
                                    proposition,
                                    evidence_ids,
                                },
                            ),
                        },
                    }
                }
            },
            ProposalChangeModel::CreateEntity { draft_id, kind, temporal, canonical_name, aliases, evidence_ids } => {
                if !temporal.coherent() {
                    invalid(InputFault::ValidTimeInterval)
                } else {
                    match trimmed_text(canonical_name, TextField::EntityCanonicalName) {
                        Err(error) => Err(error),
                        Ok(canonical_name) => if aliases.len() > MAX_ENTITY_ALIASES {
                            invalid(InputFault::EntityAliasCount)
                        } else {
                            match sound_aliases(aliases, aliases.len()) {
                                Err(error) => Err(error),
                                Ok(aliases) => if self.aliases + aliases.len() > MAX_PROPOSAL_ALIASES {
                                    invalid(InputFault::ProposalAliasCount)
                                } else {
                                    match sound_evidence_ids(evidence_ids, sources) {
                                        Err(error) => Err(error),
                                        Ok(evidence_ids) => (GatheringModel {
                                            aliases: self.aliases + aliases.len(),
                                            ..self
                                        }).with_draft(
                                            draft_id,
                                            ProposalDraftKind::Entity,
                                            ProposalChangeModel::CreateEntity {
                                                draft_id,
                                                kind,
                                                temporal,
                                                canonical_name,
                                                aliases,
                                                evidence_ids,
                                            },
                                        ),
                                    }
                                },
                            }
                        },
                    }
                }
            },
            ProposalChangeModel::CreateRelation { draft_id, from, to, kind, evidence_ids, qualifier } => {
                if from == to {
                    invalid(InputFault::ProposedEndpointsEqual)
                } else {
                    match trimmed_qualifier(qualifier) {
                        Err(error) => Err(error),
                        Ok(qualifier) => match sound_evidence_ids(evidence_ids, sources) {
                            Err(error) => Err(error),
                            Ok(evidence_ids) => self.with_draft(
                                draft_id,
                                ProposalDraftKind::Relation,
                                ProposalChangeModel::CreateRelation {
                                    draft_id,
                                    from,
                                    to,
                                    kind,
                                    evidence_ids,
                                    qualifier,
                                },
                            ),
                        },
                    }
                }
            },
            ProposalChangeModel::Retract { target } => self.with_target(target.record, change),
            ProposalChangeModel::Supersede { target, replacement } => self.with_target(target.record, change),
        }
    }
}

impl Gathering {
    fn add_draft(&mut self, draft_id: ProposalDraftId, kind: ProposalDraftKind, change: ProposalChange) -> (r:
        MemoryResult<()>)
        ensures
            match (r, old(self)@.with_draft(draft_id, kind, change@)) {
                (Ok(_), Ok(owed)) => final(self)@ == owed,
                (Err(error), Err(refusal)) => error == refusal,
                _ => false,
            },
            final(self).aliases == old(self).aliases,
    {
        if self.drafts.contains(&draft_id) {
            return Err(MemoryError::InvalidInput(InputFault::DraftIdsRepeat));
        }
        self.drafts.insert(draft_id, kind);
        self.changes.push(change);
        assert(self@.changes =~= old(self)@.changes.push(change@));
        Ok(())
    }

    fn add_target(&mut self, record: RecordRef, change: ProposalChange) -> (r: MemoryResult<()>)
        ensures
            match (r, old(self)@.with_target(record, change@)) {
                (Ok(_), Ok(owed)) => final(self)@ == owed,
                (Err(error), Err(refusal)) => error == refusal,
                _ => false,
            },
            final(self).aliases == old(self).aliases,
    {
        if !self.targets.insert(record) {
            return Err(MemoryError::InvalidInput(InputFault::MutationTargetRepeats));
        }
        self.changes.push(change);
        assert(self@.changes =~= old(self)@.changes.push(change@));
        assert(self@.targets =~= old(self)@.targets.insert(record));
        Ok(())
    }

    fn gather(&mut self, change: &ProposalChange, sources: &Ranked<EvidenceId>) -> (r: MemoryResult<()>)
        requires
            old(self).aliases <= MAX_PROPOSAL_ALIASES,
        ensures
            match (r, old(self)@.gather(change@, sources@.to_set())) {
                (Ok(_), Ok(owed)) => final(self)@ == owed && final(self).aliases <= MAX_PROPOSAL_ALIASES,
                (Err(error), Err(refusal)) => error == refusal,
                _ => false,
            },
    {
        reveal(GatheringModel::gather);
        match change {
            ProposalChange::CreateClaim { draft_id, domain, temporal, proposition, evidence_ids } => {
                temporal.validate()?;
                let proposition = validate_text(proposition.as_str(), TextField::ClaimProposition)?;
                let evidence_ids = normalize_evidence_ids(evidence_ids, sources)?;
                self.add_draft(
                    *draft_id,
                    ProposalDraftKind::Claim,
                    ProposalChange::CreateClaim {
                        draft_id: *draft_id,
                        domain: *domain,
                        temporal: *temporal,
                        proposition,
                        evidence_ids,
                    },
                )
            },
            ProposalChange::CreateEntity { draft_id, kind, temporal, canonical_name, aliases, evidence_ids } => {
                temporal.validate()?;
                let canonical_name = validate_text(canonical_name.as_str(), TextField::EntityCanonicalName)?;
                assert(views(aliases@).len() == aliases@.len());
                if aliases.len() > MAX_ENTITY_ALIASES {
                    return Err(MemoryError::InvalidInput(InputFault::EntityAliasCount));
                }
                let aliases = normalize_aliases(aliases)?;
                assert(views(aliases@).len() == aliases@.len());
                if self.aliases + aliases.len() > MAX_PROPOSAL_ALIASES {
                    return Err(MemoryError::InvalidInput(InputFault::ProposalAliasCount));
                }
                let evidence_ids = normalize_evidence_ids(evidence_ids, sources)?;
                self.aliases = self.aliases + aliases.len();
                self.add_draft(
                    *draft_id,
                    ProposalDraftKind::Entity,
                    ProposalChange::CreateEntity {
                        draft_id: *draft_id,
                        kind: *kind,
                        temporal: *temporal,
                        canonical_name,
                        aliases,
                        evidence_ids,
                    },
                )
            },
            ProposalChange::CreateRelation { draft_id, from, to, kind, evidence_ids, qualifier } => {
                if *from == *to {
                    return Err(MemoryError::InvalidInput(InputFault::ProposedEndpointsEqual));
                }
                let qualifier = validate_qualifier(qualifier)?;
                let evidence_ids = normalize_evidence_ids(evidence_ids, sources)?;
                self.add_draft(
                    *draft_id,
                    ProposalDraftKind::Relation,
                    ProposalChange::CreateRelation {
                        draft_id: *draft_id,
                        from: *from,
                        to: *to,
                        kind: *kind,
                        evidence_ids,
                        qualifier,
                    },
                )
            },
            ProposalChange::Retract { target } => self.add_target(target.record, change.replica()),
            ProposalChange::Supersede { target, .. } => self.add_target(target.record, change.replica()),
        }
    }
}

pub open spec fn nothing_gathered() -> GatheringModel {
    GatheringModel { changes: Seq::empty(), drafts: Map::empty(), targets: Set::empty(), aliases: 0 }
}

/// What is gathered from the first `n` changes.
pub open spec fn gathered(changes: Seq<ProposalChangeModel>, sources: Set<EvidenceId>, n: nat) -> MemoryResult<
    GatheringModel,
>
    decreases n,
{
    if n == 0 {
        Ok(nothing_gathered())
    } else {
        match gathered(changes, sources, (n - 1) as nat) {
            Err(error) => Err(error),
            Ok(before) => before.gather(changes[n - 1], sources),
        }
    }
}

proof fn gathered_refusal_persists(changes: Seq<ProposalChangeModel>, sources: Set<EvidenceId>, n: nat, m: nat)
    requires
        n <= m,
        gathered(changes, sources, n) is Err,
    ensures
        gathered(changes, sources, m) == gathered(changes, sources, n),
    decreases m,
{
    if n < m {
        gathered_refusal_persists(changes, sources, n, (m - 1) as nat);
    }
}

proof fn gathered_counts(changes: Seq<ProposalChangeModel>, sources: Set<EvidenceId>, n: nat)
    requires
        gathered(changes, sources, n) is Ok,
    ensures
        gathered(changes, sources, n)->Ok_0.changes.len() == n,
    decreases n,
{
    if n > 0 {
        gathered_counts(changes, sources, (n - 1) as nat);
        reveal(GatheringModel::gather);
    }
}

fn gather_changes(changes: &Vec<ProposalChange>, sources: &Ranked<EvidenceId>) -> (r: MemoryResult<Gathering>)
    ensures
        shown(r) == gathered(views(changes@), sources@.to_set(), changes@.len()),
{
    let ghost all = views(changes@);
    let mut gathering = Gathering {
        changes: Vec::new(),
        drafts: Table::new(),
        targets: Ranked::new(),
        aliases: 0,
    };
    assert(gathering@ =~= nothing_gathered());
    for i in 0..changes.len()
        invariant
            all == views(changes@),
            gathering.aliases <= MAX_PROPOSAL_ALIASES,
            gathered(all, sources@.to_set(), i as nat) == Ok::<GatheringModel, MemoryError>(gathering@),
    {
        assert(views(changes@)[i as int] == changes@[i as int]@);
        match gathering.gather(&changes[i], sources) {
            Ok(_) => {},
            Err(error) => {
                proof {
                    gathered_refusal_persists(all, sources@.to_set(), (i + 1) as nat, changes@.len());
                }
                return Err(error);
            },
        }
    }
    Ok(gathering)
}

/// What kind of record an end of a proposed relation is.
pub open spec fn proposed_endpoint_kind(
    endpoint: ProposalEndpoint,
    drafts: Map<ProposalDraftId, ProposalDraftKind>,
) -> MemoryResult<SemanticEndpointKind> {
    match endpoint {
        ProposalEndpoint::Existing(pin) => match endpoint_kind(pin.record) {
            Some(kind) => Ok(kind),
            None => invalid(InputFault::EndpointKinds),
        },
        ProposalEndpoint::Draft(id) => match lookup(drafts, id) {
            Some(ProposalDraftKind::Claim) => Ok(SemanticEndpointKind::Claim),
            Some(ProposalDraftKind::Entity) => Ok(SemanticEndpointKind::Entity),
            _ => invalid(InputFault::DraftEndpointKinds),
        },
    }
}

fn proposal_endpoint_kind(endpoint: ProposalEndpoint, drafts: &Table<ProposalDraftId, ProposalDraftKind>) -> (r:
    MemoryResult<SemanticEndpointKind>)
    ensures
        r == proposed_endpoint_kind(endpoint, drafts@),
{
    match endpoint {
        ProposalEndpoint::Existing(pin) => match semantic_endpoint_kind(pin.record) {
            Some(kind) => Ok(kind),
            None => Err(MemoryError::InvalidInput(InputFault::EndpointKinds)),
        },
        ProposalEndpoint::Draft(id) => match drafts.get(&id) {
            Some(ProposalDraftKind::Claim) => Ok(SemanticEndpointKind::Claim),
            Some(ProposalDraftKind::Entity) => Ok(SemanticEndpointKind::Entity),
            _ => Err(MemoryError::InvalidInput(InputFault::DraftEndpointKinds)),
        },
    }
}

/// Whether a change fits the drafts of its bundle.
#[verifier::opaque]
pub open spec fn change_fits(change: ProposalChangeModel, drafts: Map<ProposalDraftId, ProposalDraftKind>) -> MemoryResult<
    (),
> {
    match change {
        ProposalChangeModel::CreateRelation { from, to, kind, .. } => match proposed_endpoint_kind(from, drafts) {
            Err(error) => Err(error),
            Ok(from_kind) => match proposed_endpoint_kind(to, drafts) {
                Err(error) => Err(error),
                Ok(to_kind) => if joins(kind, from_kind, to_kind) {
                    Ok(())
                } else {
                    invalid(joining_fault(kind))
                },
            },
        },
        ProposalChangeModel::Retract { target } => if target.record is Proposal || target.record is ProposalReview {
            invalid(InputFault::WorkflowTarget)
        } else {
            Ok(())
        },
        ProposalChangeModel::Supersede { target, replacement } => {
            let draft = lookup(drafts, replacement);
            if (target.record is Claim && draft == Some(ProposalDraftKind::Claim)) || (target.record is Entity
                && draft == Some(ProposalDraftKind::Entity)) {
                Ok(())
            } else {
                invalid(InputFault::ReplacementKind)
            }
        },
        _ => Ok(()),
    }
}

fn check_change(change: &ProposalChange, drafts: &Table<ProposalDraftId, ProposalDraftKind>) -> (r: MemoryResult<()>)
    ensures
        r == change_fits(change@, drafts@),
{
    reveal(change_fits);
    match change {
        ProposalChange::CreateRelation { from, to, kind, .. } => {
            let from_kind = proposal_endpoint_kind(*from, drafts)?;
            let to_kind = proposal_endpoint_kind(*to, drafts)?;
            validate_relation_endpoint_kinds(*kind, from_kind, to_kind)
        },
        ProposalChange::Retract { target } => match target.record {
            RecordRef::Proposal(_) | RecordRef::ProposalReview(_) => Err(
                MemoryError::InvalidInput(InputFault::WorkflowTarget),
            ),
            _ => Ok(()),
        },
        ProposalChange::Supersede { target, replacement } => {
            let compatible = match (target.record, drafts.get(replacement)) {
                (RecordRef::Claim(_), Some(ProposalDraftKind::Claim)) => true,
                (RecordRef::Entity(_), Some(ProposalDraftKind::Entity)) => true,
                _ => false,
            };
            if compatible {
                Ok(())
            } else {
                Err(MemoryError::InvalidInput(InputFault::ReplacementKind))
            }
        },
        _ => Ok(()),
    }
}

/// The first refusal among the first `n` changes.
pub open spec fn changes_fit(
    changes: Seq<ProposalChangeModel>,
    drafts: Map<ProposalDraftId, ProposalDraftKind>,
    n: nat,
) -> MemoryResult<()>
    decreases n,
{
    if n == 0 {
        Ok(())
    } else {
        match changes_fit(changes, drafts, (n - 1) as nat) {
            Err(error) => Err(error),
            Ok(_) => change_fits(changes[n - 1], drafts),
        }
    }
}

proof fn misfit_persists(
    changes: Seq<ProposalChangeModel>,
    drafts: Map<ProposalDraftId, ProposalDraftKind>,
    n: nat,
    m: nat,
)
    requires
        n <= m,
        changes_fit(changes, drafts, n) is Err,
    ensures
        changes_fit(changes, drafts, m) == changes_fit(changes, drafts, n),
    decreases m,
{
    if n < m {
        misfit_persists(changes, drafts, n, (m - 1) as nat);
    }
}

fn check_changes(changes: &Vec<ProposalChange>, drafts: &Table<ProposalDraftId, ProposalDraftKind>) -> (r: MemoryResult<
    (),
>)
    ensures
        r == changes_fit(views(changes@), drafts@, changes@.len()),
{
    let ghost all = views(changes@);
    for i in 0..changes.len()
        invariant
            all == views(changes@),
            changes_fit(all, drafts@, i as nat) == Ok::<(), MemoryError>(()),
    {
        assert(views(changes@)[i as int] == changes@[i as int]@);
        match check_change(&changes[i], drafts) {
            Ok(fit) => {
                assert(fit == ());
            },
            Err(error) => {
                proof {
                    misfit_persists(all, drafts@, (i + 1) as nat, changes@.len());
                }
                return Err(error);
            },
        }
    }
    Ok(())
}

/// Whether a change pins a record that is there.
pub open spec fn change_pins(change: ProposalChangeModel, pin: RecordRevisionPin) -> bool {
    match change {
        ProposalChangeModel::CreateRelation { from, to, .. } => from == ProposalEndpoint::Existing(pin) || to
            == ProposalEndpoint::Existing(pin),
        ProposalChangeModel::Retract { target } => target == pin,
        ProposalChangeModel::Supersede { target, .. } => target == pin,
        _ => false,
    }
}

/// What changes pin of records that are there.
pub open spec fn pins_in(changes: Seq<ProposalChangeModel>) -> Set<RecordRevisionPin> {
    Set::new(
        |pin: RecordRevisionPin| exists|i: int| 0 <= i < changes.len() && change_pins(#[trigger] changes[i], pin),
    )
}

/// What changes pin of records that are there, in order.
pub open spec fn existing_pins(changes: Seq<ProposalChangeModel>) -> Seq<RecordRevisionPin> {
    in_order(pins_in(changes))
}

fn insert_pins(pins: &mut Ranked<RecordRevisionPin>, change: &ProposalChange)
    requires
        increasing(old(pins)@),
    ensures
        increasing(final(pins)@),
        forall|pin: RecordRevisionPin| #[trigger]
            final(pins)@.contains(pin) <==> old(pins)@.contains(pin) || change_pins(change@, pin),
{
    match change {
        ProposalChange::CreateRelation { from, to, .. } => {
            if let ProposalEndpoint::Existing(pin) = from {
                pins.insert(*pin);
            }
            if let ProposalEndpoint::Existing(pin) = to {
                pins.insert(*pin);
            }
        },
        ProposalChange::Retract { target } => {
            pins.insert(*target);
        },
        ProposalChange::Supersede { target, .. } => {
            pins.insert(*target);
        },
        _ => {},
    }
}

pub fn proposal_existing_pins(changes: &Vec<ProposalChange>) -> (r: Vec<RecordRevisionPin>)
    ensures
        r@ == existing_pins(views(changes@)),
        lists(r@, pins_in(views(changes@))),
{
    let ghost all = views(changes@);
    assert(all.len() == changes@.len());
    let mut pins: Ranked<RecordRevisionPin> = Ranked::new();
    for i in 0..changes.len()
        invariant
            all == views(changes@),
            all.len() == changes@.len(),
            increasing(pins@),
            forall|pin: RecordRevisionPin| #[trigger]
                pins@.contains(pin) <==> pins_in(all.take(i as int)).contains(pin),
    {
        assert(views(changes@)[i as int] == changes@[i as int]@);
        let ghost before = pins@;
        insert_pins(&mut pins, &changes[i]);
        proof {
            let shown = all.take(i + 1);
            let hidden = all.take(i as int);
            assert forall|pin: RecordRevisionPin| #[trigger] pins@.contains(pin) <==> pins_in(shown).contains(pin) by {
                if before.contains(pin) {
                    assert(pins_in(hidden).contains(pin));
                    let j = choose|j: int| 0 <= j < hidden.len() && change_pins(#[trigger] hidden[j], pin);
                    assert(change_pins(shown[j], pin));
                }
                if change_pins(all[i as int], pin) {
                    assert(change_pins(shown[i as int], pin));
                }
                if pins_in(shown).contains(pin) && !change_pins(all[i as int], pin) {
                    let j = choose|j: int| 0 <= j < shown.len() && change_pins(#[trigger] shown[j], pin);
                    assert(change_pins(hidden[j], pin));
                    assert(pins_in(hidden).contains(pin));
                }
            }
        }
    }
    let r = pins.into_vec();
    proof {
        assert(all.take(all.len() as int) =~= all);
        in_order_is_unique(r@, pins_in(all));
    }
    r
}

/// Whether a relation that a change proposes ends at a record that is there.
pub open spec fn change_ends_at(change: ProposalChangeModel, record: RecordRef) -> bool {
    match change {
        ProposalChangeModel::CreateRelation { from, to, .. } => endpoint_is(from, record) || endpoint_is(to, record),
        _ => false,
    }
}

pub open spec fn endpoint_is(endpoint: ProposalEndpoint, record: RecordRef) -> bool {
    match endpoint {
        ProposalEndpoint::Existing(pin) => pin.record == record,
        ProposalEndpoint::Draft(_) => false,
    }
}

fn ends_at(endpoint: ProposalEndpoint, targets: &Ranked<RecordRef>) -> (r: bool)
    ensures
        r == exists|record: RecordRef| #[trigger] targets@.to_set().contains(record) && endpoint_is(endpoint, record),
{
    match endpoint {
        ProposalEndpoint::Existing(pin) => {
            let r = targets.contains(&pin.record);
            assert(r ==> targets@.to_set().contains(pin.record));
            r
        },
        ProposalEndpoint::Draft(_) => false,
    }
}

/// Whether some change ends at a record that another change is about.
pub open spec fn mutates_endpoint(changes: Seq<ProposalChangeModel>, targets: Set<RecordRef>) -> bool {
    exists|i: int, record: RecordRef|
        0 <= i < changes.len() && targets.contains(record) && #[trigger] change_ends_at(changes[i], record)
}

fn any_endpoint_mutated(changes: &Vec<ProposalChange>, targets: &Ranked<RecordRef>) -> (r: bool)
    ensures
        r == mutates_endpoint(views(changes@), targets@.to_set()),
{
    let ghost all = views(changes@);
    let ghost members = targets@.to_set();
    assert(all.len() == changes@.len());
    for i in 0..changes.len()
        invariant
            all == views(changes@),
            all.len() == changes@.len(),
            members == targets@.to_set(),
            forall|j: int, record: RecordRef|
                0 <= j < i && members.contains(record) ==> !(#[trigger] change_ends_at(all[j], record)),
    {
        assert(views(changes@)[i as int] == changes@[i as int]@);
        if let ProposalChange::CreateRelation { from, to, .. } = &changes[i] {
            if ends_at(*from, targets) {
                proof {
                    let record = choose|record: RecordRef| #[trigger]
                        members.contains(record) && endpoint_is(*from, record);
                    assert(change_ends_at(all[i as int], record));
                }
                return true;
            }
            if ends_at(*to, targets) {
                proof {
                    let record = choose|record: RecordRef| #[trigger]
                        members.contains(record) && endpoint_is(*to, record);
                    assert(change_ends_at(all[i as int], record));
                }
                return true;
            }
        }
    }
    false
}

/// Whether some change is about evidence that the bundle rests on.
pub open spec fn mutates_source(targets: Set<RecordRef>, sources: Set<EvidenceId>) -> bool {
    exists|id: EvidenceId| sources.contains(id) && #[trigger] targets.contains(RecordRef::Evidence(id))
}

fn any_source_mutated(targets: &Ranked<RecordRef>, sources: &Ranked<EvidenceId>) -> (r: bool)
    ensures
        r == mutates_source(targets@.to_set(), sources@.to_set()),
{
    let count: usize = sources.len();
    for i in 0..count
        invariant
            count == sources@.len(),
            forall|j: int|
                0 <= j < i ==> !targets@.to_set().contains(RecordRef::Evidence(#[trigger] sources@[j])),
    {
        let id = sources.get(i);
        if targets.contains(&RecordRef::Evidence(id)) {
            assert(sources@.contains(id));
            assert(targets@.to_set().contains(RecordRef::Evidence(id)));
            return true;
        }
    }
    proof {
        if mutates_source(targets@.to_set(), sources@.to_set()) {
            let id = choose|id: EvidenceId|
                sources@.to_set().contains(id) && #[trigger] targets@.to_set().contains(RecordRef::Evidence(id));
            let j = choose|j: int| 0 <= j < sources@.len() && sources@[j] == id;
            assert(!targets@.to_set().contains(RecordRef::Evidence(sources@[j])));
        }
    }
    false
}

/// What a proposal depends on: the evidence that it pins and the records that its
/// changes pin.
pub open spec fn proposal_dependencies(sources: Seq<EvidenceRevisionPin>, changes: Seq<ProposalChangeModel>) -> Set<
    RecordRef,
> {
    Set::new(
        |record: RecordRef|
            (exists|i: int| 0 <= i < sources.len() && RecordRef::Evidence((#[trigger] sources[i]).id) == record) || (
            exists|pin: RecordRevisionPin| pin.record == record && #[trigger] pins_in(changes).contains(pin)),
    )
}

pub(crate) fn dependencies_of_proposal(sources: &Vec<EvidenceRevisionPin>, changes: &Vec<ProposalChange>) -> (r: Vec<
    RecordRef,
>)
    ensures
        r@ == in_order(proposal_dependencies(sources@, views(changes@))),
{
    let pins = proposal_existing_pins(changes);
    let ghost all = views(changes@);
    let mut records: Ranked<RecordRef> = Ranked::new();
    for i in 0..sources.len()
        invariant
            increasing(records@),
            forall|record: RecordRef| #[trigger]
                records@.contains(record) <==> exists|j: int|
                    0 <= j < i && RecordRef::Evidence((#[trigger] sources@[j]).id) == record,
    {
        let ghost before = records@;
        records.insert(RecordRef::Evidence(sources[i].id));
        proof {
            assert forall|record: RecordRef| #[trigger] records@.contains(record) <==> exists|j: int|
                0 <= j < i + 1 && RecordRef::Evidence((#[trigger] sources@[j]).id) == record by {
                if before.contains(record) {
                    let j = choose|j: int| 0 <= j < i && RecordRef::Evidence((#[trigger] sources@[j]).id) == record;
                    assert(RecordRef::Evidence(sources@[j].id) == record);
                }
                if record == RecordRef::Evidence(sources@[i as int].id) {
                    assert(RecordRef::Evidence(sources@[i as int].id) == record);
                }
            }
        }
    }
    let ghost cited = records@;
    for i in 0..pins.len()
        invariant
            increasing(records@),
            forall|record: RecordRef| #[trigger]
                records@.contains(record) <==> cited.contains(record) || exists|j: int|
                    0 <= j < i && (#[trigger] pins@[j]).record == record,
    {
        let ghost before = records@;
        records.insert(pins[i].record);
        proof {
            assert forall|record: RecordRef| #[trigger] records@.contains(record) <==> cited.contains(record)
                || exists|j: int| 0 <= j < i + 1 && (#[trigger] pins@[j]).record == record by {
                if before.contains(record) && !cited.contains(record) {
                    let j = choose|j: int| 0 <= j < i && (#[trigger] pins@[j]).record == record;
                    assert(pins@[j].record == record);
                }
                if record == pins@[i as int].record {
                    assert(pins@[i as int].record == record);
                }
            }
        }
    }
    let r = records.into_vec();
    proof {
        let wanted = proposal_dependencies(sources@, all);
        assert forall|record: RecordRef| #[trigger] r@.contains(record) <==> wanted.contains(record) by {
            if exists|j: int| 0 <= j < pins@.len() && (#[trigger] pins@[j]).record == record {
                let j = choose|j: int| 0 <= j < pins@.len() && (#[trigger] pins@[j]).record == record;
                assert(pins@.contains(pins@[j]));
                assert(pins_in(all).contains(pins@[j]));
            }
            if exists|pin: RecordRevisionPin| pin.record == record && #[trigger] pins_in(all).contains(pin) {
                let pin = choose|pin: RecordRevisionPin| pin.record == record && #[trigger] pins_in(all).contains(pin);
                assert(pins@.contains(pin));
                let j = choose|j: int| 0 <= j < pins@.len() && pins@[j] == pin;
                assert(pins@[j].record == record);
            }
        }
        in_order_is_unique(r@, wanted);
    }
    r
}

/// The dependencies that applying a change files.
pub open spec fn change_edges(change: ProposalChangeModel, sources: nat) -> nat {
    match change {
        ProposalChangeModel::CreateClaim { evidence_ids, .. } => evidence_ids.len(),
        ProposalChangeModel::CreateEntity { evidence_ids, .. } => evidence_ids.len(),
        ProposalChangeModel::CreateRelation { evidence_ids, .. } => evidence_ids.len() + 2,
        ProposalChangeModel::Supersede { .. } => sources + 2,
        ProposalChangeModel::Retract { .. } => 0,
    }
}

/// The dependencies that applying the first `n` changes files.
pub open spec fn edge_total(changes: Seq<ProposalChangeModel>, sources: nat, n: nat) -> nat
    decreases n,
{
    if n == 0 {
        0
    } else {
        edge_total(changes, sources, (n - 1) as nat) + change_edges(changes[n - 1], sources)
    }
}

proof fn edge_total_grows(changes: Seq<ProposalChangeModel>, sources: nat, n: nat, m: nat)
    requires
        n <= m,
    ensures
        edge_total(changes, sources, n) <= edge_total(changes, sources, m),
    decreases m,
{
    if n < m {
        edge_total_grows(changes, sources, n, (m - 1) as nat);
    }
}

fn too_many_edges(initial: usize, changes: &Vec<ProposalChange>, sources: usize) -> (r: bool)
    requires
        sources <= MAX_EVIDENCE_SOURCES,
    ensures
        r == (initial + edge_total(views(changes@), sources as nat, changes@.len()) > MAX_PROPOSAL_DEPENDENCY_EDGES),
{
    if initial > MAX_PROPOSAL_DEPENDENCY_EDGES {
        return true;
    }
    let ghost all = views(changes@);
    let mut total: usize = initial;
    for i in 0..changes.len()
        invariant
            sources <= MAX_EVIDENCE_SOURCES,
            all == views(changes@),
            total == initial + edge_total(all, sources as nat, i as nat),
            total <= MAX_PROPOSAL_DEPENDENCY_EDGES,
    {
        assert(views(changes@)[i as int] == changes@[i as int]@);
        let (cited, fixed): (usize, usize) = match &changes[i] {
            ProposalChange::CreateClaim { evidence_ids, .. } => (evidence_ids.len(), 0),
            ProposalChange::CreateEntity { evidence_ids, .. } => (evidence_ids.len(), 0),
            ProposalChange::CreateRelation { evidence_ids, .. } => (evidence_ids.len(), 2),
            ProposalChange::Supersede { .. } => (sources, 2),
            ProposalChange::Retract { .. } => (0, 0),
        };
        proof {
            edge_total_grows(all, sources as nat, (i + 1) as nat, changes@.len());
        }
        if cited > MAX_PROPOSAL_DEPENDENCY_EDGES || total + cited + fixed > MAX_PROPOSAL_DEPENDENCY_EDGES {
            return true;
        }
        total = total + cited + fixed;
    }
    false
}

/// A bundle in its normal form, but for the size of its encoding.
#[verifier::opaque]
pub open spec fn sound_bundle(input: NewProposalBundleModel) -> MemoryResult<NewProposalBundleModel> {
    let pins = in_order(input.source_evidence.to_set());
    let sources = pinned_evidence(pins);
    if pins.len() == 0 {
        invalid(InputFault::ProposalWithoutEvidence)
    } else if pins.len() > MAX_EVIDENCE_SOURCES {
        invalid(InputFault::ProposalSources)
    } else if input.changes.len() == 0 || input.changes.len() > MAX_PROPOSAL_CHANGES {
        invalid(InputFault::ProposalChangeCount)
    } else {
        match gathered(input.changes, sources, input.changes.len()) {
            Err(error) => Err(error),
            Ok(gathering) => match changes_fit(gathering.changes, gathering.drafts, gathering.changes.len()) {
                Err(error) => Err(error),
                Ok(_) => if mutates_source(gathering.targets, sources) {
                    invalid(InputFault::MutatesOwnSource)
                } else if mutates_endpoint(gathering.changes, gathering.targets) {
                    invalid(InputFault::MutatesEndpoint)
                } else if in_order(proposal_dependencies(pins, gathering.changes)).len() + edge_total(
                    gathering.changes,
                    pins.len(),
                    gathering.changes.len(),
                ) > MAX_PROPOSAL_DEPENDENCY_EDGES {
                    invalid(InputFault::DependencyEdgeCount)
                } else {
                    Ok(
                        NewProposalBundleModel {
                            source_evidence: pins,
                            changes: gathering.changes,
                            ..input
                        },
                    )
                },
            },
        }
    }
}

/// The bundle as it is encoded, with its texts trimmed and its lists in order.
pub fn normalize_proposal_bundle(input: &NewProposalBundle) -> (r: MemoryResult<NewProposalBundle>)
    ensures
        shown(r) == sound_bundle(input@),
{
    reveal(sound_bundle);
    let pins = sorted_distinct(&input.source_evidence);
    if pins.len() == 0 {
        return Err(MemoryError::InvalidInput(InputFault::ProposalWithoutEvidence));
    }
    if pins.len() > MAX_EVIDENCE_SOURCES {
        return Err(MemoryError::InvalidInput(InputFault::ProposalSources));
    }
    assert(views(input.changes@).len() == input.changes@.len());
    if input.changes.len() == 0 || input.changes.len() > MAX_PROPOSAL_CHANGES {
        return Err(MemoryError::InvalidInput(InputFault::ProposalChangeCount));
    }
    let sources = evidence_of_pins(&pins);
    assert(sources@.to_set() =~= pinned_evidence(pins@));
    let gathering = gather_changes(&input.changes, &sources)?;
    assert(views(gathering.changes@).len() == gathering.changes@.len());
    check_changes(&gathering.changes, &gathering.drafts)?;
    if any_source_mutated(&gathering.targets, &sources) {
        return Err(MemoryError::InvalidInput(InputFault::MutatesOwnSource));
    }
    if any_endpoint_mutated(&gathering.changes, &gathering.targets) {
        return Err(MemoryError::InvalidInput(InputFault::MutatesEndpoint));
    }
    let initial: usize = dependencies_of_proposal(&pins, &gathering.changes).len();
    if too_many_edges(initial, &gathering.changes, pins.len()) {
        return Err(MemoryError::InvalidInput(InputFault::DependencyEdgeCount));
    }
    Ok(
        NewProposalBundle {
            source_job_id: input.source_job_id,
            scope: input.scope,
            source_evidence: pins,
            changes: gathering.changes,
        },
    )
}

} // verus!
