//! That a normal form is its own normal form.
use vstd::prelude::*;
use crate::bundles::{
    GatheringModel, gathered, pinned_evidence, sound_aliases, sound_bundle, sound_evidence_ids,
};
use crate::fault::{MemoryResult, TextField};
use crate::ids::EvidenceId;
use crate::order::{Keyed, in_order, in_order_lists};
use crate::records::proposal::{NewProposalBundleModel, ProposalChangeModel};
use crate::rules::trimmed_text;
use crate::text::trimmed_is_stable;
use crate::wordlist::{
    entered, entered_is_in_order, entered_passes, text_before, text_before_is_total,
    texts_in_order,
};

verus! {

proof fn in_order_again<K: Keyed>(items: Seq<K>)
    ensures
        in_order(in_order(items.to_set()).to_set()) == in_order(items.to_set()),
{
    vstd::seq_lib::seq_to_set_is_finite(items);
    in_order_lists(items.to_set());
    let sorted = in_order(items.to_set());
    assert forall|k: K| sorted.to_set().contains(k) <==> items.to_set().contains(k) by {
        assert(sorted.contains(k) <==> items.to_set().contains(k));
    }
    assert(sorted.to_set() =~= items.to_set());
}

proof fn text_again(text: Seq<char>, field: TextField, kept: Seq<char>)
    requires
        trimmed_text(text, field) == MemoryResult::Ok(kept),
    ensures
        trimmed_text(kept, field) == MemoryResult::Ok(kept),
{
    trimmed_is_stable(text);
}

proof fn evidence_again(ids: Seq<EvidenceId>, sources: Set<EvidenceId>, kept: Seq<EvidenceId>)
    requires
        sound_evidence_ids(ids, sources) == MemoryResult::Ok(kept),
    ensures
        sound_evidence_ids(kept, sources) == MemoryResult::Ok(kept),
{
    reveal(sound_evidence_ids);
    in_order_again(ids);
}

proof fn entered_is_short(sorted: Seq<Seq<char>>, text: Seq<char>)
    ensures
        entered(sorted, text).len() <= sorted.len() + 1,
    decreases sorted.len(),
{
    if sorted.len() > 0 {
        entered_is_short(sorted.skip(1), text);
    }
}

/// Whether aliases are in order, and each as it is kept.
spec fn kept_aliases(aliases: Seq<Seq<char>>) -> bool {
    texts_in_order(aliases) && forall|x: Seq<char>| #[trigger]
        aliases.contains(x) ==> trimmed_text(x, TextField::EntityAlias) == MemoryResult::Ok(x)
}

proof fn aliases_are_kept(aliases: Seq<Seq<char>>, n: nat, kept: Seq<Seq<char>>)
    requires
        n <= aliases.len(),
        sound_aliases(aliases, n) == MemoryResult::Ok(kept),
    ensures
        kept_aliases(kept),
        kept.len() <= n,
    decreases n,
{
    if n > 0 {
        let before = sound_aliases(aliases, (n - 1) as nat)->Ok_0;
        aliases_are_kept(aliases, (n - 1) as nat, before);
        let last = trimmed_text(aliases[n - 1], TextField::EntityAlias)->Ok_0;
        text_again(aliases[n - 1], TextField::EntityAlias, last);
        entered_is_in_order(before, last);
        entered_is_short(before, last);
    }
}

proof fn aliases_again(kept: Seq<Seq<char>>, n: nat)
    requires
        kept_aliases(kept),
        n <= kept.len(),
    ensures
        sound_aliases(kept, n) == MemoryResult::Ok(kept.take(n as int)),
    decreases n,
{
    if n == 0 {
        assert(kept.take(0) =~= Seq::<Seq<char>>::empty());
    } else {
        aliases_again(kept, (n - 1) as nat);
        let before = kept.take(n - 1);
        let last = kept[n - 1];
        assert(kept.contains(last));
        assert forall|j: int| 0 <= j < before.len() implies (#[trigger] before[j]) != last && !text_before(
            last,
            before[j],
        ) by {
            assert(text_before(kept[j], kept[n - 1]));
            text_before_is_total(kept[j], kept[n - 1]);
        }
        entered_passes(before, last, n - 1);
        assert(before.skip(n - 1) =~= Seq::<Seq<char>>::empty());
        assert(before.take(n - 1) + seq![last] =~= kept.take(n as int));
    }
}

proof fn gathering_again(
    before: GatheringModel,
    change: ProposalChangeModel,
    sources: Set<EvidenceId>,
    after: GatheringModel,
)
    requires
        before.gather(change, sources) == MemoryResult::Ok(after),
    ensures
        after.changes.len() == before.changes.len() + 1,
        after.changes.drop_last() == before.changes,
        before.gather(after.changes.last(), sources) == MemoryResult::Ok(after),
{
    reveal(GatheringModel::gather);
    match change {
        ProposalChangeModel::CreateClaim { draft_id, domain, temporal, proposition, evidence_ids } => {
            text_again(
                proposition,
                TextField::ClaimProposition,
                trimmed_text(proposition, TextField::ClaimProposition)->Ok_0,
            );
            evidence_again(evidence_ids, sources, sound_evidence_ids(evidence_ids, sources)->Ok_0);
        },
        ProposalChangeModel::CreateEntity { draft_id, kind, temporal, canonical_name, aliases, evidence_ids } => {
            text_again(
                canonical_name,
                TextField::EntityCanonicalName,
                trimmed_text(canonical_name, TextField::EntityCanonicalName)->Ok_0,
            );
            evidence_again(evidence_ids, sources, sound_evidence_ids(evidence_ids, sources)->Ok_0);
            let kept = sound_aliases(aliases, aliases.len())->Ok_0;
            aliases_are_kept(aliases, aliases.len(), kept);
            aliases_again(kept, kept.len());
            assert(kept.take(kept.len() as int) =~= kept);
        },
        ProposalChangeModel::CreateRelation { draft_id, from, to, kind, evidence_ids, qualifier } => {
            if let Some(text) = qualifier {
                text_again(
                    text,
                    TextField::RelationQualifier,
                    trimmed_text(text, TextField::RelationQualifier)->Ok_0,
                );
            }
            evidence_again(evidence_ids, sources, sound_evidence_ids(evidence_ids, sources)->Ok_0);
        },
        _ => {},
    }
    assert(after.changes == before.changes.push(after.changes.last()));
    assert(after.changes.drop_last() =~= before.changes);
}

proof fn gathered_before(changes: Seq<ProposalChangeModel>, sources: Set<EvidenceId>, n: nat, m: nat)
    requires
        n <= m <= changes.len(),
        gathered(changes, sources, m) is Ok,
    ensures
        gathered(changes, sources, n) is Ok,
        gathered(changes, sources, n)->Ok_0.changes.len() == n,
        gathered(changes, sources, m)->Ok_0.changes.len() == m,
        gathered(changes, sources, n)->Ok_0.changes == gathered(changes, sources, m)->Ok_0.changes.take(n as int),
    decreases m,
{
    if m > 0 {
        let before = gathered(changes, sources, (m - 1) as nat)->Ok_0;
        let after = gathered(changes, sources, m)->Ok_0;
        gathering_again(before, changes[m - 1], sources, after);
        if n < m {
            gathered_before(changes, sources, n, (m - 1) as nat);
            assert(after.changes.take(n as int) =~= before.changes.take(n as int)) by {
                assert(before.changes =~= after.changes.take(m - 1));
            }
        } else {
            gathered_before(changes, sources, (m - 1) as nat, (m - 1) as nat);
        }
    }
    if n == m {
        let after = gathered(changes, sources, m)->Ok_0;
        assert(after.changes.take(n as int) =~= after.changes);
    }
}

proof fn gathered_again(
    changes: Seq<ProposalChangeModel>,
    sources: Set<EvidenceId>,
    all: Seq<ProposalChangeModel>,
    n: nat,
)
    requires
        n <= changes.len(),
        gathered(changes, sources, changes.len()) is Ok,
        all == gathered(changes, sources, changes.len())->Ok_0.changes,
    ensures
        gathered(all, sources, n) == gathered(changes, sources, n),
    decreases n,
{
    if n > 0 {
        gathered_again(changes, sources, all, (n - 1) as nat);
        gathered_before(changes, sources, n, changes.len());
        gathered_before(changes, sources, (n - 1) as nat, changes.len());
        let before = gathered(changes, sources, (n - 1) as nat)->Ok_0;
        let after = gathered(changes, sources, n)->Ok_0;
        gathering_again(before, changes[n - 1], sources, after);
        assert(after.changes.last() == all[n - 1]);
    }
}

/// Bringing a bundle into its normal form a second time changes nothing.
pub proof fn normal_bundles_stay(input: NewProposalBundleModel, bundle: NewProposalBundleModel)
    requires
        sound_bundle(input) == MemoryResult::Ok(bundle),
    ensures
        sound_bundle(bundle) == MemoryResult::Ok(bundle),
{
    reveal(sound_bundle);
    in_order_again(input.source_evidence);
    let pins = in_order(input.source_evidence.to_set());
    let sources = pinned_evidence(pins);
    let n = input.changes.len();
    gathered_before(input.changes, sources, n, n);
    gathered_again(input.changes, sources, bundle.changes, n);
}

} // verus!
