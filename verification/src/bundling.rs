//! What may be proposed: which changes make sense, alone and together, and what is taken
//! up of them.

use vstd::prelude::*;
use crate::bundles::{
    GatheringModel, ProposalDraftKind, change_edges, change_ends_at, change_fits, changes_fit,
    edge_total, gathered, mutates_endpoint, mutates_source, pinned_evidence,
    proposal_dependencies, proposed_endpoint_kind, sound_aliases, sound_bundle,
    sound_evidence_ids,
};
use crate::context::TemporalFacts;
use crate::fault::MemoryResult;
use crate::grounds::lists_are_as_long;
use crate::ids::{EvidenceId, ProposalDraftId};
use crate::inspect::lookup;
use crate::order::{in_order, in_order_lists};
use crate::records::claim::RelationKind;
use crate::records::evidence::RecordRef;
use crate::records::proposal::{NewProposalBundleModel, ProposalChangeModel, ProposalEndpoint};
use crate::relations::SemanticEndpointKind;
use crate::text::{trimmed, utf8};
use crate::wordlist::{entered_is_in_order, texts_in_order};

verus! {

/// Whether a text says something in at most 64 kibibytes, without the blanks at its ends.
pub open spec fn says_something(text: Seq<char>) -> bool {
    trimmed(text).len() > 0 && utf8(trimmed(text)).len() <= 65_536
}

/// Whether evidence is one to 64 pieces, all of them among some sources.
pub open spec fn rests_among(ids: Seq<EvidenceId>, sources: Set<EvidenceId>) -> bool {
    1 <= ids.to_set().len() <= 64 && forall|i: int| 0 <= i < ids.len() ==> sources.contains(#[trigger] ids[i])
}

/// Whether a valid time is open on some side or has an instant in it.
pub open spec fn has_an_instant(temporal: TemporalFacts) -> bool {
    temporal.valid_from_ms is Some && temporal.valid_to_ms is Some ==> temporal.valid_from_ms->Some_0
        < temporal.valid_to_ms->Some_0
}

/// Whether a change makes sense by itself, on the evidence that its bundle pins.
pub open spec fn change_makes_sense(change: ProposalChangeModel, sources: Set<EvidenceId>) -> bool {
    match change {
        ProposalChangeModel::CreateClaim { temporal, proposition, evidence_ids, .. } => {
            &&& has_an_instant(temporal)
            &&& says_something(proposition)
            &&& rests_among(evidence_ids, sources)
        },
        ProposalChangeModel::CreateEntity { temporal, canonical_name, aliases, evidence_ids, .. } => {
            &&& has_an_instant(temporal)
            &&& says_something(canonical_name)
            &&& aliases.len() <= 64
            &&& forall|i: int| 0 <= i < aliases.len() ==> says_something(#[trigger] aliases[i])
            &&& rests_among(evidence_ids, sources)
        },
        ProposalChangeModel::CreateRelation { from, to, evidence_ids, qualifier, .. } => {
            &&& from != to
            &&& qualifier matches Some(text) ==> says_something(text)
            &&& rests_among(evidence_ids, sources)
        },
        _ => true,
    }
}

/// The draft that a change brings, and of what kind.
pub open spec fn draft_brought(change: ProposalChangeModel) -> Option<(ProposalDraftId, ProposalDraftKind)> {
    match change {
        ProposalChangeModel::CreateClaim { draft_id, .. } => Some((draft_id, ProposalDraftKind::Claim)),
        ProposalChangeModel::CreateEntity { draft_id, .. } => Some((draft_id, ProposalDraftKind::Entity)),
        ProposalChangeModel::CreateRelation { draft_id, .. } => Some((draft_id, ProposalDraftKind::Relation)),
        _ => None,
    }
}

/// Whether one of the first `n` changes brings a draft of a kind.
pub open spec fn brings(
    changes: Seq<ProposalChangeModel>,
    n: nat,
    id: ProposalDraftId,
    kind: ProposalDraftKind,
) -> bool {
    exists|i: int| 0 <= i < n && draft_brought(#[trigger] changes[i]) == Some((id, kind))
}

/// The record that a change withdraws.
pub open spec fn record_withdrawn(change: ProposalChangeModel) -> Option<RecordRef> {
    match change {
        ProposalChangeModel::Retract { target } => Some(target.record),
        ProposalChangeModel::Supersede { target, .. } => Some(target.record),
        _ => None,
    }
}

/// The aliases that a change brings, as they are kept.
pub open spec fn aliases_brought(change: ProposalChangeModel) -> Seq<Seq<char>> {
    match change {
        ProposalChangeModel::CreateEntity { aliases, .. } => sound_aliases(aliases, aliases.len())->Ok_0,
        _ => Seq::empty(),
    }
}

/// How many aliases the first `n` changes bring.
pub open spec fn alias_total(changes: Seq<ProposalChangeModel>, n: nat) -> nat
    decreases n,
{
    if n == 0 {
        0
    } else {
        alias_total(changes, (n - 1) as nat) + aliases_brought(changes[n - 1]).len()
    }
}

/// A change as it is taken up: texts without the blanks at their ends, evidence and
/// aliases in order and each once, and everything else as it was proposed.
pub open spec fn as_taken_up(change: ProposalChangeModel) -> ProposalChangeModel {
    match change {
        ProposalChangeModel::CreateClaim { draft_id, domain, temporal, proposition, evidence_ids } => {
            ProposalChangeModel::CreateClaim {
                draft_id,
                domain,
                temporal,
                proposition: trimmed(proposition),
                evidence_ids: in_order(evidence_ids.to_set()),
            }
        },
        ProposalChangeModel::CreateEntity { draft_id, kind, temporal, canonical_name, aliases, evidence_ids } => {
            ProposalChangeModel::CreateEntity {
                draft_id,
                kind,
                temporal,
                canonical_name: trimmed(canonical_name),
                aliases: aliases_brought(change),
                evidence_ids: in_order(evidence_ids.to_set()),
            }
        },
        ProposalChangeModel::CreateRelation { draft_id, from, to, kind, evidence_ids, qualifier } => {
            ProposalChangeModel::CreateRelation {
                draft_id,
                from,
                to,
                kind,
                evidence_ids: in_order(evidence_ids.to_set()),
                qualifier: match qualifier {
                    Some(text) => Some(trimmed(text)),
                    None => None,
                },
            }
        },
        _ => change,
    }
}

proof fn evidence_is_checked(ids: Seq<EvidenceId>, sources: Set<EvidenceId>)
    ensures
        sound_evidence_ids(ids, sources) is Ok <==> rests_among(ids, sources),
        sound_evidence_ids(ids, sources) matches Ok(kept) ==> kept == in_order(ids.to_set()),
{
    reveal(sound_evidence_ids);
    vstd::seq_lib::seq_to_set_is_finite(ids);
    lists_are_as_long(ids.to_set());
    in_order_lists(ids.to_set());
    let kept = in_order(ids.to_set());
    if forall|i: int| 0 <= i < ids.len() ==> sources.contains(#[trigger] ids[i]) {
        assert forall|i: int| 0 <= i < kept.len() implies sources.contains(#[trigger] kept[i]) by {
            assert(kept.contains(kept[i]));
            assert(ids.to_set().contains(kept[i]));
            let k = ids.index_of(kept[i]);
            assert(ids[k] == kept[i]);
        }
    } else {
        let i = choose|i: int| 0 <= i < ids.len() && !sources.contains(#[trigger] ids[i]);
        assert(ids.to_set().contains(ids[i]));
        assert(kept.contains(ids[i]));
        let k = kept.index_of(ids[i]);
        assert(kept[k] == ids[i]);
        assert(!sources.contains(kept[k]));
    }
}

/// The aliases of an entity are kept without the blanks at their ends, each once.
pub proof fn aliases_are_kept_once(aliases: Seq<Seq<char>>, n: nat)
    requires
        n <= aliases.len(),
    ensures
        sound_aliases(aliases, n) is Ok <==> forall|i: int| 0 <= i < n ==> says_something(#[trigger] aliases[i]),
        sound_aliases(aliases, n) matches Ok(kept) ==> texts_in_order(kept) && kept.len() <= n && forall|
            text: Seq<char>,
        | #[trigger]
            kept.contains(text) <==> exists|i: int| 0 <= i < n && trimmed(#[trigger] aliases[i]) == text,
    decreases n,
{
    if n > 0 {
        let m = (n - 1) as nat;
        aliases_are_kept_once(aliases, m);
        match sound_aliases(aliases, m) {
            Ok(before) => {
                if says_something(aliases[m as int]) {
                    entered_is_in_order(before, trimmed(aliases[m as int]));
                    let kept = sound_aliases(aliases, n)->Ok_0;
                    assert forall|text: Seq<char>| #[trigger] kept.contains(text) <==> exists|i: int|
                        0 <= i < n && trimmed(#[trigger] aliases[i]) == text by {
                        if kept.contains(text) {
                            if before.contains(text) {
                                let i = choose|i: int| 0 <= i < m && trimmed(#[trigger] aliases[i]) == text;
                                assert(trimmed(aliases[i]) == text);
                            } else {
                                assert(trimmed(aliases[m as int]) == text);
                            }
                        }
                        if exists|i: int| 0 <= i < n && trimmed(#[trigger] aliases[i]) == text {
                            let i = choose|i: int| 0 <= i < n && trimmed(#[trigger] aliases[i]) == text;
                            if i < m {
                                assert(before.contains(text));
                            }
                        }
                    }
                }
            },
            Err(_) => {},
        }
    }
}

/// Whether the first `n` changes make sense, each by itself and together: no draft is
/// brought twice, no record is withdrawn twice, and at most 1024 aliases are brought.
pub open spec fn changes_go_together(changes: Seq<ProposalChangeModel>, sources: Set<EvidenceId>, n: nat) -> bool {
    &&& forall|i: int| 0 <= i < n ==> change_makes_sense(#[trigger] changes[i], sources)
    &&& forall|i: int, j: int|
        0 <= i < j < n && draft_brought(#[trigger] changes[i]) is Some && draft_brought(#[trigger] changes[j]) is Some
            ==> draft_brought(changes[i])->Some_0.0 != draft_brought(changes[j])->Some_0.0
    &&& forall|i: int, j: int|
        0 <= i < j < n && record_withdrawn(#[trigger] changes[i]) is Some ==> record_withdrawn(changes[i])
            != record_withdrawn(#[trigger] changes[j])
    &&& alias_total(changes, n) <= 1_024
}

proof fn gathered_go_together(changes: Seq<ProposalChangeModel>, sources: Set<EvidenceId>, n: nat)
    requires
        n <= changes.len(),
    ensures
        gathered(changes, sources, n) is Ok <==> changes_go_together(changes, sources, n),
        gathered(changes, sources, n) matches Ok(gathering) ==> {
            &&& gathering.changes.len() == n
            &&& forall|i: int| 0 <= i < n ==> #[trigger] gathering.changes[i] == as_taken_up(changes[i])
            &&& forall|id: ProposalDraftId, kind: ProposalDraftKind|
                (lookup(gathering.drafts, id) == Some(kind)) <==> #[trigger] brings(changes, n, id, kind)
            &&& forall|record: RecordRef| #[trigger]
                gathering.targets.contains(record) <==> exists|i: int|
                    0 <= i < n && record_withdrawn(#[trigger] changes[i]) == Some(record)
            &&& gathering.aliases == alias_total(changes, n)
        },
    decreases n,
{
    if n > 0 {
        let m = (n - 1) as nat;
        let change = changes[m as int];
        gathered_go_together(changes, sources, m);
        match gathered(changes, sources, m) {
            Err(_) => {
                if changes_go_together(changes, sources, n) {
                    assert(changes_go_together(changes, sources, m));
                }
            },
            Ok(before) => {
                step_goes_together(changes, sources, before, m);
            },
        }
    }
}

proof fn step_goes_together(
    changes: Seq<ProposalChangeModel>,
    sources: Set<EvidenceId>,
    before: GatheringModel,
    m: nat,
)
    requires
        m < changes.len(),
        changes_go_together(changes, sources, m),
        before.changes.len() == m,
        forall|i: int| 0 <= i < m ==> #[trigger] before.changes[i] == as_taken_up(changes[i]),
        forall|id: ProposalDraftId, kind: ProposalDraftKind|
            (lookup(before.drafts, id) == Some(kind)) <==> #[trigger] brings(changes, m, id, kind),
        forall|record: RecordRef| #[trigger]
            before.targets.contains(record) <==> exists|i: int|
                0 <= i < m && record_withdrawn(#[trigger] changes[i]) == Some(record),
        before.aliases == alias_total(changes, m),
    ensures
        before.gather(changes[m as int], sources) is Ok <==> changes_go_together(changes, sources, m + 1),
        before.gather(changes[m as int], sources) matches Ok(gathering) ==> {
            &&& gathering.changes.len() == m + 1
            &&& forall|i: int| 0 <= i < m + 1 ==> #[trigger] gathering.changes[i] == as_taken_up(changes[i])
            &&& forall|id: ProposalDraftId, kind: ProposalDraftKind|
                (lookup(gathering.drafts, id) == Some(kind)) <==> #[trigger] brings(changes, (m + 1) as nat, id, kind)
            &&& forall|record: RecordRef| #[trigger]
                gathering.targets.contains(record) <==> exists|i: int|
                    0 <= i < m + 1 && record_withdrawn(#[trigger] changes[i]) == Some(record)
            &&& gathering.aliases == alias_total(changes, m + 1)
        },
{
    let change = changes[m as int];
    reveal(GatheringModel::gather);
    match change {
        ProposalChangeModel::CreateClaim { evidence_ids, .. } => {
            evidence_is_checked(evidence_ids, sources);
        },
        ProposalChangeModel::CreateEntity { aliases, evidence_ids, .. } => {
            evidence_is_checked(evidence_ids, sources);
            aliases_are_kept_once(aliases, aliases.len());
        },
        ProposalChangeModel::CreateRelation { evidence_ids, .. } => {
            evidence_is_checked(evidence_ids, sources);
        },
        _ => {},
    }
    let fresh_draft = draft_brought(change) matches Some((id, _)) ==> !before.drafts.contains_key(id);
    let fresh_target = record_withdrawn(change) matches Some(record) ==> !before.targets.contains(record);
    assert(before.gather(change, sources) is Ok <==> change_makes_sense(change, sources) && fresh_draft && fresh_target
        && alias_total(changes, m + 1) <= 1_024);
    assert(fresh_draft <==> forall|i: int|
        0 <= i < m && draft_brought(#[trigger] changes[i]) is Some && draft_brought(change) is Some ==> draft_brought(
            changes[i],
        )->Some_0.0 != draft_brought(change)->Some_0.0) by {
        if draft_brought(change) is Some {
            let id = draft_brought(change)->Some_0.0;
            if before.drafts.contains_key(id) {
                let kind = before.drafts[id];
                assert(brings(changes, m, id, kind));
                let i = choose|i: int| 0 <= i < m && draft_brought(#[trigger] changes[i]) == Some((id, kind));
                assert(draft_brought(changes[i]) is Some);
            } else {
                assert forall|i: int| 0 <= i < m && draft_brought(#[trigger] changes[i]) is Some implies draft_brought(
                    changes[i],
                )->Some_0.0 != id by {
                    let kind = draft_brought(changes[i])->Some_0.1;
                    if draft_brought(changes[i])->Some_0.0 == id {
                        assert(draft_brought(changes[i]) == Some((id, kind)));
                        assert(brings(changes, m, id, kind));
                        assert(lookup(before.drafts, id) == Some(kind));
                    }
                }
            }
        }
    }
    assert(fresh_target <==> forall|i: int|
        0 <= i < m && record_withdrawn(#[trigger] changes[i]) is Some ==> record_withdrawn(changes[i])
            != record_withdrawn(change)) by {
        if record_withdrawn(change) is Some {
            let record = record_withdrawn(change)->Some_0;
            if before.targets.contains(record) {
                let i = choose|i: int| 0 <= i < m && record_withdrawn(#[trigger] changes[i]) == Some(record);
                assert(record_withdrawn(changes[i]) is Some);
            }
        }
    }
    assert(changes_go_together(changes, sources, m + 1) <==> change_makes_sense(change, sources) && fresh_draft
        && fresh_target && alias_total(changes, m + 1) <= 1_024) by {
        if changes_go_together(changes, sources, m + 1) {
            assert(change_makes_sense(changes[m as int], sources));
        }
    }
    if let Ok(gathering) = before.gather(change, sources) {
        assert(gathering.changes == before.changes.push(as_taken_up(change)));
        assert forall|i: int| 0 <= i < m + 1 implies #[trigger] gathering.changes[i] == as_taken_up(changes[i]) by {
            if i < m {
                assert(gathering.changes[i] == before.changes[i]);
            }
        }
        assert forall|id: ProposalDraftId, kind: ProposalDraftKind|
            (lookup(gathering.drafts, id) == Some(kind)) <==> #[trigger] brings(changes, (m + 1) as nat, id, kind) by {
            let old = brings(changes, m, id, kind);
            assert(old <==> lookup(before.drafts, id) == Some(kind));
            if lookup(gathering.drafts, id) == Some(kind) {
                if old {
                    let i = choose|i: int| 0 <= i < m && draft_brought(#[trigger] changes[i]) == Some((id, kind));
                    assert(draft_brought(changes[i]) == Some((id, kind)));
                } else {
                    assert(draft_brought(changes[m as int]) == Some((id, kind)));
                }
            }
            if brings(changes, (m + 1) as nat, id, kind) {
                let i = choose|i: int| 0 <= i < m + 1 && draft_brought(#[trigger] changes[i]) == Some((id, kind));
                if i < m {
                    assert(draft_brought(changes[i]) == Some((id, kind)));
                    assert(old);
                    assert(before.drafts.contains_key(id));
                }
            }
        }
        assert forall|record: RecordRef| #[trigger] gathering.targets.contains(record) <==> exists|i: int|
            0 <= i < m + 1 && record_withdrawn(#[trigger] changes[i]) == Some(record) by {
            if gathering.targets.contains(record) {
                if before.targets.contains(record) {
                    let i = choose|i: int| 0 <= i < m && record_withdrawn(#[trigger] changes[i]) == Some(record);
                    assert(record_withdrawn(changes[i]) == Some(record));
                } else {
                    assert(record_withdrawn(changes[m as int]) == Some(record));
                }
            }
            if exists|i: int| 0 <= i < m + 1 && record_withdrawn(#[trigger] changes[i]) == Some(record) {
                let i = choose|i: int| 0 <= i < m + 1 && record_withdrawn(#[trigger] changes[i]) == Some(record);
                if i < m {
                    assert(before.targets.contains(record));
                }
            }
        }
    }
}

/// Changes are gathered if and only if they go together, and are taken up one by one as
/// they were proposed.
pub proof fn changes_are_gathered(changes: Seq<ProposalChangeModel>, sources: Set<EvidenceId>)
    ensures
        gathered(changes, sources, changes.len()) is Ok <==> changes_go_together(changes, sources, changes.len()),
        gathered(changes, sources, changes.len()) matches Ok(gathering) ==> gathering.changes.len() == changes.len()
            && forall|i: int|
            0 <= i < changes.len() ==> #[trigger] gathering.changes[i] == as_taken_up(changes[i]),
{
    gathered_go_together(changes, sources, changes.len());
}

/// The kind of record that an end of a proposed relation is: of a record that is there, its
/// own; of a draft, that of the claim or the entity that brings it.
pub open spec fn end_is(
    endpoint: ProposalEndpoint,
    changes: Seq<ProposalChangeModel>,
    kind: SemanticEndpointKind,
) -> bool {
    match endpoint {
        ProposalEndpoint::Existing(pin) => match kind {
            SemanticEndpointKind::Evidence => pin.record is Evidence,
            SemanticEndpointKind::Claim => pin.record is Claim,
            SemanticEndpointKind::Entity => pin.record is Entity,
        },
        ProposalEndpoint::Draft(id) => match kind {
            SemanticEndpointKind::Evidence => false,
            SemanticEndpointKind::Claim => exists|i: int|
                0 <= i < changes.len() && draft_brought(#[trigger] changes[i]) == Some((id, ProposalDraftKind::Claim)),
            SemanticEndpointKind::Entity => exists|i: int|
                0 <= i < changes.len() && draft_brought(#[trigger] changes[i]) == Some((id, ProposalDraftKind::Entity)),
        },
    }
}

/// Which kinds a relation joins.
pub open spec fn may_join(kind: RelationKind, from: SemanticEndpointKind, to: SemanticEndpointKind) -> bool {
    match kind {
        RelationKind::Supports | RelationKind::Contradicts => !(from is Entity) && to is Claim,
        RelationKind::Supersedes => (from is Claim && to is Claim) || (from is Entity && to is Entity),
        RelationKind::About => (from is Entity && !(to is Entity)) || (to is Entity && !(from is Entity)),
        RelationKind::RefersTo => to is Entity,
        RelationKind::DerivedFrom => !(from is Evidence),
        RelationKind::CanonicalizesTo => from is Entity && to is Entity,
    }
}

/// What proposed changes aim at fits: the ends of relations are of kinds that the relation
/// joins, nothing of the proposal workflow is retracted, and a claim is superseded by a
/// claim that the bundle brings, an entity by an entity.
pub proof fn proposed_changes_fit(
    changes: Seq<ProposalChangeModel>,
    sources: Set<EvidenceId>,
    gathering: GatheringModel,
    i: int,
)
    requires
        gathered(changes, sources, changes.len()) == MemoryResult::Ok(gathering),
        0 <= i < changes.len(),
    ensures
        change_fits(gathering.changes[i], gathering.drafts) is Ok <==> match changes[i] {
            ProposalChangeModel::CreateRelation { from, to, kind, .. } => exists|
                a: SemanticEndpointKind,
                b: SemanticEndpointKind,
            | #[trigger] end_is(from, changes, a) && #[trigger] end_is(to, changes, b) && may_join(kind, a, b),
            ProposalChangeModel::Retract { target } => !(target.record is Proposal || target.record is ProposalReview),
            ProposalChangeModel::Supersede { target, replacement } => (target.record is Claim && end_is(
                ProposalEndpoint::Draft(replacement),
                changes,
                SemanticEndpointKind::Claim,
            )) || (target.record is Entity && end_is(
                ProposalEndpoint::Draft(replacement),
                changes,
                SemanticEndpointKind::Entity,
            )),
            _ => true,
        },
{
    gathered_go_together(changes, sources, changes.len());
    reveal(change_fits);
    assert(gathering.changes[i] == as_taken_up(changes[i]));
    match changes[i] {
        ProposalChangeModel::CreateRelation { from, to, kind, .. } => {
            ends_have_one_kind(changes, sources, gathering, from);
            ends_have_one_kind(changes, sources, gathering, to);
            match (
                proposed_endpoint_kind(from, gathering.drafts),
                proposed_endpoint_kind(to, gathering.drafts),
            ) {
                (Ok(a), Ok(b)) => {
                    assert(end_is(from, changes, a) && end_is(to, changes, b));
                },
                _ => {},
            }
        },
        ProposalChangeModel::Supersede { target, replacement } => {
            drafts_are_told(changes, gathering.drafts, replacement, ProposalDraftKind::Claim);
            drafts_are_told(changes, gathering.drafts, replacement, ProposalDraftKind::Entity);
        },
        _ => {},
    }
}

proof fn drafts_are_told(
    changes: Seq<ProposalChangeModel>,
    drafts: Map<ProposalDraftId, ProposalDraftKind>,
    id: ProposalDraftId,
    kind: ProposalDraftKind,
)
    requires
        forall|id: ProposalDraftId, kind: ProposalDraftKind|
            (lookup(drafts, id) == Some(kind)) <==> #[trigger] brings(changes, changes.len(), id, kind),
    ensures
        lookup(drafts, id) == Some(kind) <==> exists|i: int|
            0 <= i < changes.len() && draft_brought(#[trigger] changes[i]) == Some((id, kind)),
{
    assert(brings(changes, changes.len(), id, kind) <==> lookup(drafts, id) == Some(kind));
}

proof fn ends_have_one_kind(
    changes: Seq<ProposalChangeModel>,
    sources: Set<EvidenceId>,
    gathering: GatheringModel,
    endpoint: ProposalEndpoint,
)
    requires
        gathered(changes, sources, changes.len()) == MemoryResult::Ok(gathering),
    ensures
        forall|kind: SemanticEndpointKind|
            (proposed_endpoint_kind(endpoint, gathering.drafts) == MemoryResult::Ok(kind)) <==> #[trigger] end_is(
                endpoint,
                changes,
                kind,
            ),
{
    gathered_go_together(changes, sources, changes.len());
    match endpoint {
        ProposalEndpoint::Draft(id) => {
            drafts_are_told(changes, gathering.drafts, id, ProposalDraftKind::Claim);
            drafts_are_told(changes, gathering.drafts, id, ProposalDraftKind::Entity);
        },
        _ => {},
    }
}

proof fn all_changes_fit(changes: Seq<ProposalChangeModel>, drafts: Map<ProposalDraftId, ProposalDraftKind>, n: nat)
    requires
        n <= changes.len(),
    ensures
        changes_fit(changes, drafts, n) is Ok <==> forall|i: int|
            0 <= i < n ==> change_fits(#[trigger] changes[i], drafts) is Ok,
    decreases n,
{
    if n > 0 {
        all_changes_fit(changes, drafts, (n - 1) as nat);
    }
}

/// The evidence that a bundle pins.
pub open spec fn evidence_pinned(input: NewProposalBundleModel) -> Set<EvidenceId> {
    Set::new(
        |id: EvidenceId| exists|i: int| 0 <= i < input.source_evidence.len() && (#[trigger] input.source_evidence[i]).id == id,
    )
}

/// Whether a change relates a record that is there.
pub open spec fn relates_record(change: ProposalChangeModel, record: RecordRef) -> bool {
    match change {
        ProposalChangeModel::CreateRelation { from, to, .. } => {
            ||| from matches ProposalEndpoint::Existing(pin) && pin.record == record
            ||| to matches ProposalEndpoint::Existing(pin) && pin.record == record
        },
        _ => false,
    }
}

/// Whether a relation ends at a record that another change of the bundle withdraws.
pub open spec fn ends_at_withdrawn(changes: Seq<ProposalChangeModel>) -> bool {
    exists|i: int, j: int|
        0 <= i < changes.len() && 0 <= j < changes.len() && (#[trigger] record_withdrawn(changes[j])) is Some && relates_record(#[trigger] changes[i], record_withdrawn(changes[j])->Some_0)
}

/// A bundle that is taken up pins one to 64 pieces of evidence and has one to 128 changes
/// that go together. It neither withdraws what it rests on nor relates what it withdraws.
/// Its changes are taken up one by one as they were proposed, and each piece of evidence
/// is pinned once.
pub proof fn bundles_are_heard(input: NewProposalBundleModel, bundle: NewProposalBundleModel)
    requires
        sound_bundle(input) == MemoryResult::Ok(bundle),
    ensures
        1 <= input.source_evidence.to_set().len() <= 64,
        bundle.source_evidence.to_set() == input.source_evidence.to_set() && bundle.source_evidence.no_duplicates(),
        bundle.scope == input.scope && bundle.source_job_id == input.source_job_id,
        1 <= input.changes.len() <= 128,
        changes_go_together(input.changes, evidence_pinned(input), input.changes.len()),
        bundle.changes.len() == input.changes.len(),
        forall|i: int| 0 <= i < bundle.changes.len() ==> #[trigger] bundle.changes[i] == as_taken_up(input.changes[i]),
        forall|i: int|
            0 <= i < input.changes.len() ==> match #[trigger] input.changes[i] {
                ProposalChangeModel::CreateRelation { from, to, kind, .. } => exists|
                    a: SemanticEndpointKind,
                    b: SemanticEndpointKind,
                | #[trigger]
                    end_is(from, input.changes, a) && #[trigger] end_is(to, input.changes, b) && may_join(kind, a, b),
                ProposalChangeModel::Retract { target } => !(target.record is Proposal || target.record
                    is ProposalReview),
                ProposalChangeModel::Supersede { target, replacement } => (target.record is Claim && end_is(
                    ProposalEndpoint::Draft(replacement),
                    input.changes,
                    SemanticEndpointKind::Claim,
                )) || (target.record is Entity && end_is(
                    ProposalEndpoint::Draft(replacement),
                    input.changes,
                    SemanticEndpointKind::Entity,
                )),
                _ => true,
            },
        forall|i: int|
            0 <= i < input.changes.len() ==> !(record_withdrawn(#[trigger] input.changes[i]) matches Some(
                RecordRef::Evidence(id),
            ) && evidence_pinned(input).contains(id)),
        !ends_at_withdrawn(input.changes),
{
    reveal(sound_bundle);
    let pins = in_order(input.source_evidence.to_set());
    vstd::seq_lib::seq_to_set_is_finite(input.source_evidence);
    lists_are_as_long(input.source_evidence.to_set());
    in_order_lists(input.source_evidence.to_set());
    let sources = pinned_evidence(pins);
    assert(sources =~= evidence_pinned(input)) by {
        assert forall|id: EvidenceId| sources.contains(id) <==> evidence_pinned(input).contains(id) by {
            if sources.contains(id) {
                let i = choose|i: int| 0 <= i < pins.len() && (#[trigger] pins[i]).id == id;
                assert(pins.contains(pins[i]));
                let k = input.source_evidence.index_of(pins[i]);
                assert(input.source_evidence[k] == pins[i]);
            }
            if evidence_pinned(input).contains(id) {
                let k = choose|k: int|
                    0 <= k < input.source_evidence.len() && (#[trigger] input.source_evidence[k]).id == id;
                assert(input.source_evidence.to_set().contains(input.source_evidence[k]));
                assert(pins.contains(input.source_evidence[k]));
                let i = pins.index_of(input.source_evidence[k]);
                assert(pins[i].id == id);
            }
        }
    }
    let n = input.changes.len();
    gathered_go_together(input.changes, sources, n);
    let gathering = gathered(input.changes, sources, n)->Ok_0;
    all_changes_fit(gathering.changes, gathering.drafts, gathering.changes.len());
    assert forall|i: int| 0 <= i < n implies change_fits(gathering.changes[i], gathering.drafts) is Ok
        && #[trigger] input.changes[i] == input.changes[i] by {
        assert(change_fits(gathering.changes[i], gathering.drafts) is Ok);
    }
    assert forall|i: int| 0 <= i < n implies match #[trigger] input.changes[i] {
        ProposalChangeModel::CreateRelation { from, to, kind, .. } => exists|
            a: SemanticEndpointKind,
            b: SemanticEndpointKind,
        | #[trigger] end_is(from, input.changes, a) && #[trigger] end_is(to, input.changes, b) && may_join(kind, a, b),
        ProposalChangeModel::Retract { target } => !(target.record is Proposal || target.record is ProposalReview),
        ProposalChangeModel::Supersede { target, replacement } => (target.record is Claim && end_is(
            ProposalEndpoint::Draft(replacement),
            input.changes,
            SemanticEndpointKind::Claim,
        )) || (target.record is Entity && end_is(
            ProposalEndpoint::Draft(replacement),
            input.changes,
            SemanticEndpointKind::Entity,
        )),
        _ => true,
    } by {
        proposed_changes_fit(input.changes, sources, gathering, i);
    }
    assert forall|i: int| 0 <= i < n implies !(record_withdrawn(#[trigger] input.changes[i]) matches Some(
        RecordRef::Evidence(id),
    ) && evidence_pinned(input).contains(id)) by {
        if let Some(RecordRef::Evidence(id)) = record_withdrawn(input.changes[i]) {
            assert(gathering.targets.contains(RecordRef::Evidence(id)));
            assert(!mutates_source(gathering.targets, sources));
        }
    }
    if ends_at_withdrawn(input.changes) {
        let (i, j) = choose|i: int, j: int|
            0 <= i < input.changes.len() && 0 <= j < input.changes.len() && (#[trigger] record_withdrawn(
                input.changes[j],
            )) is Some && relates_record(
                #[trigger] input.changes[i],
                record_withdrawn(input.changes[j])->Some_0,
            );
        let record = record_withdrawn(input.changes[j])->Some_0;
        assert(gathering.targets.contains(record));
        assert(gathering.changes[i] == as_taken_up(input.changes[i]));
        assert(change_ends_at(gathering.changes[i], record));
        assert(mutates_endpoint(gathering.changes, gathering.targets));
    }
}

/// What applying a change files: one dependency for each piece of evidence, two more for
/// the ends of a relation, and for a supersession those of the relation that tells it. A
/// retraction files none.
pub proof fn changes_file_their_dependencies(change: ProposalChangeModel, sources: nat)
    ensures
        change_edges(change, sources) == match change {
            ProposalChangeModel::CreateClaim { evidence_ids, .. } => evidence_ids.len() as int,
            ProposalChangeModel::CreateEntity { evidence_ids, .. } => evidence_ids.len() as int,
            ProposalChangeModel::CreateRelation { evidence_ids, .. } => (2 + evidence_ids.len()) as int,
            ProposalChangeModel::Supersede { .. } => (2 + sources) as int,
            ProposalChangeModel::Retract { .. } => 0int,
        },
{
}

/// A bundle that is taken up files at most 4096 dependencies.
pub proof fn bundles_file_few_dependencies(input: NewProposalBundleModel, bundle: NewProposalBundleModel)
    requires
        sound_bundle(input) == MemoryResult::Ok(bundle),
    ensures
        in_order(proposal_dependencies(bundle.source_evidence, bundle.changes)).len() + edge_total(
            bundle.changes,
            bundle.source_evidence.len(),
            bundle.changes.len(),
        ) <= 4_096,
{
    reveal(sound_bundle);
}

/// What is filed adds up over the changes.
pub proof fn dependencies_add_up(changes: Seq<ProposalChangeModel>, sources: nat, n: nat)
    requires
        0 < n <= changes.len(),
    ensures
        edge_total(changes, sources, n) == edge_total(changes, sources, (n - 1) as nat) + change_edges(
            changes[n - 1],
            sources,
        ),
        edge_total(changes, sources, 0) == 0,
{
}

} // verus!
