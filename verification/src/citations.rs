//! What recall may answer with.
use vstd::prelude::*;
use crate::clock::FreshModel;
use crate::digest::{EXACT_DOMAIN, TERM_DOMAIN, index_digest};
use crate::fault::MemoryResult;
use crate::ids::EvidenceId;
use crate::inspect::lookup;
use crate::order::{Keyed, in_order, in_order_lists};
use crate::recall::{
    CandidateMatch, CitationPlace, MAX_RECALL_CANDIDATES, citation_place, considered, counted,
    exactly_matched, merely_present, query_terms, records_observed, records_posted, within,
};
use crate::records::evidence::{RecordRef, RecordState};
use crate::records::recall::{
    RecallCitationModel, RecallEvidenceCitation, RecallQueryModel, RecallResultModel,
};
use crate::store::StoreModel;
use crate::text::{exact_form, utf8};

verus! {

proof fn considered_spares(records: Seq<RecordRef>, excluded: Option<RecordRef>, limit: usize, n: nat)
    ensures
        forall|i: int|
            0 <= i < considered(records, excluded, limit, n).len() ==> Some(
                #[trigger] considered(records, excluded, limit, n)[i],
            ) != excluded,
    decreases n,
{
    if n > 0 {
        considered_spares(records, excluded, limit, (n - 1) as nat);
        let before = considered(records, excluded, limit, (n - 1) as nat);
        let after = considered(records, excluded, limit, n);
        assert forall|i: int| 0 <= i < after.len() implies Some(#[trigger] after[i]) != excluded by {
            if i < before.len() {
                assert(after[i] == before[i]);
            }
        }
    }
}

/// Whether a collection of candidates is finite and leaves a record out.
spec fn spares(candidates: Map<RecordRef, CandidateMatch>, excluded: Option<RecordRef>) -> bool {
    candidates.dom().finite() && forall|k: RecordRef| #[trigger] candidates.contains_key(k) ==> Some(k) != excluded
}

/// Whether a list leaves a record out.
spec fn list_spares(records: Seq<RecordRef>, excluded: Option<RecordRef>) -> bool {
    forall|i: int| 0 <= i < records.len() ==> Some(#[trigger] records[i]) != excluded
}

proof fn exact_matches_spare(records: Seq<RecordRef>, excluded: Option<RecordRef>, n: nat)
    requires
        n <= records.len(),
        list_spares(records, excluded),
    ensures
        spares(exactly_matched(records, n), excluded),
    decreases n,
{
    if n > 0 {
        exact_matches_spare(records, excluded, (n - 1) as nat);
    }
}

proof fn present_spare(records: Seq<RecordRef>, excluded: Option<RecordRef>, n: nat)
    requires
        n <= records.len(),
        list_spares(records, excluded),
    ensures
        spares(merely_present(records, n), excluded),
    decreases n,
{
    if n > 0 {
        present_spare(records, excluded, (n - 1) as nat);
    }
}

proof fn counted_spare(
    candidates: Map<RecordRef, CandidateMatch>,
    records: Seq<RecordRef>,
    excluded: Option<RecordRef>,
    n: nat,
)
    requires
        n <= records.len(),
        list_spares(records, excluded),
        spares(candidates, excluded),
    ensures
        spares(counted(candidates, records, n), excluded),
    decreases n,
{
    if n > 0 {
        counted_spare(candidates, records, excluded, (n - 1) as nat);
    }
}

proof fn postings_spare(s: StoreModel, domain: u8, hash: [u8; 32], excluded: Option<RecordRef>)
    ensures
        list_spares(s.posting_records(domain, hash, excluded), excluded),
{
    reveal(StoreModel::posting_records);
    let records = records_posted(in_order(s.posting_keys(domain, hash)));
    considered_spares(records, excluded, MAX_RECALL_CANDIDATES, records.len());
}

proof fn matches_spare(
    s: StoreModel,
    text: Seq<char>,
    terms: Seq<Seq<char>>,
    excluded: Option<RecordRef>,
    n: nat,
)
    ensures
        spares(s.term_matched(text, terms, excluded, n), excluded),
    decreases n,
{
    if n == 0 {
        let hash = index_digest(s.digest_key@, EXACT_DOMAIN, utf8(exact_form(text)));
        postings_spare(s, EXACT_DOMAIN, hash, excluded);
        let records = s.posting_records(EXACT_DOMAIN, hash, excluded);
        exact_matches_spare(records, excluded, records.len());
    } else {
        matches_spare(s, text, terms, excluded, (n - 1) as nat);
        let hash = index_digest(s.digest_key@, TERM_DOMAIN, utf8(terms[n - 1]));
        postings_spare(s, TERM_DOMAIN, hash, excluded);
        let records = s.posting_records(TERM_DOMAIN, hash, excluded);
        counted_spare(s.term_matched(text, terms, excluded, (n - 1) as nat), records, excluded, records.len());
    }
}

proof fn candidates_spare(s: StoreModel, query: RecallQueryModel, excluded: Option<RecordRef>)
    ensures
        spares(s.recall_candidates(query, excluded), excluded),
{
    reveal(StoreModel::recall_candidates);
    if exact_form(query.text).len() > 0 {
        let terms = query_terms(query.text);
        matches_spare(s, query.text, terms, excluded, terms.len());
    } else {
        reveal(StoreModel::records_in_observed_range);
        let observed = records_observed(in_order(s.observed_keys(query.observed_from_ms, query.observed_to_ms)));
        considered_spares(observed, excluded, MAX_RECALL_CANDIDATES, observed.len());
        let records = s.records_in_observed_range(
            query.observed_from_ms,
            query.observed_to_ms,
            MAX_RECALL_CANDIDATES,
            excluded,
        );
        present_spare(records, excluded, records.len());
    }
}

/// Whether a citation rests on evidence that is active, can be read, and is no utterance of
/// an assistant.
pub open spec fn rests_on_citable(s: StoreModel, citation: RecallCitationModel) -> bool {
    forall|i: int|
        0 <= i < citation.evidence.len() ==> match s.inspect_evidence((#[trigger] citation.evidence[i]).id) {
            Ok(Some(evidence)) => StoreModel::citable(evidence) && citation.evidence[i].class
                == evidence.header.class && citation.evidence[i].revision == evidence.availability.revision,
            _ => false,
        }
}

/// Whether a citation answers a query truthfully.
pub open spec fn is_current(
    s: StoreModel,
    query: RecallQueryModel,
    excluded: Option<RecordRef>,
    citation: RecallCitationModel,
) -> bool {
    &&& s.standing(citation.record) == MemoryResult::Ok((citation.scope, RecordState::Active, citation.revision))
    &&& within(query, citation)
    &&& Some(citation.record) != excluded
    &&& rests_on_citable(s, citation)
}

proof fn truth_is_citable(s: StoreModel, ids: Seq<EvidenceId>, n: nat, found: Seq<RecallEvidenceCitation>)
    requires
        s.recall_evidence_truth(ids, n) == MemoryResult::Ok(Some(found)),
    ensures
        forall|i: int|
            0 <= i < found.len() ==> match s.inspect_evidence((#[trigger] found[i]).id) {
                Ok(Some(evidence)) => StoreModel::citable(evidence) && found[i].class == evidence.header.class
                    && found[i].revision == evidence.availability.revision,
                _ => false,
            },
    decreases n,
{
    if n > 0 {
        let before = s.recall_evidence_truth(ids, (n - 1) as nat)->Ok_0->Some_0;
        truth_is_citable(s, ids, (n - 1) as nat, before);
        assert forall|i: int| 0 <= i < found.len() implies match s.inspect_evidence((#[trigger] found[i]).id) {
            Ok(Some(evidence)) => StoreModel::citable(evidence) && found[i].class == evidence.header.class
                && found[i].revision == evidence.availability.revision,
            _ => false,
        } by {
            if i < before.len() {
                assert(found[i] == before[i]);
            }
        }
    }
}

proof fn recallable_is_current(s: StoreModel, record: RecordRef, citation: RecallCitationModel)
    requires
        s.recallable_record(record) == MemoryResult::Ok(Some(citation)),
    ensures
        citation.record == record,
        s.standing(record) == MemoryResult::Ok((citation.scope, RecordState::Active, citation.revision)),
        rests_on_citable(s, citation),
{
    reveal(StoreModel::recallable_record);
    reveal(StoreModel::standing);
    reveal(StoreModel::inspect_head);
    match record {
        RecordRef::Claim(id) => {
            let claim = s.inspect_claim(id)->Ok_0->Some_0;
            truth_is_citable(s, claim.header.evidence_ids, claim.header.evidence_ids.len(), citation.evidence);
        },
        RecordRef::Entity(id) => {
            let entity = s.inspect_entity(id)->Ok_0->Some_0;
            truth_is_citable(s, entity.header.evidence_ids, entity.header.evidence_ids.len(), citation.evidence);
        },
        _ => {},
    }
}

proof fn cited_are_current(
    s: StoreModel,
    query: RecallQueryModel,
    excluded: Option<RecordRef>,
    candidates: Map<RecordRef, CandidateMatch>,
    records: Seq<RecordRef>,
    n: nat,
    found: Map<CitationPlace, RecallCitationModel>,
)
    requires
        s.cited(query, candidates, records, n) == MemoryResult::Ok(found),
        n <= records.len(),
        list_spares(records, excluded),
    ensures
        found.dom().finite(),
        forall|place: CitationPlace| #[trigger]
            found.contains_key(place) ==> is_current(s, query, excluded, found[place]) && citation_place(
                found[place],
            ) == place,
    decreases n,
{
    if n > 0 {
        let before = s.cited(query, candidates, records, (n - 1) as nat)->Ok_0;
        cited_are_current(s, query, excluded, candidates, records, (n - 1) as nat, before);
        match s.recallable_record(records[n - 1]) {
            Ok(Some(citation)) => {
                recallable_is_current(s, records[n - 1], citation);
                let matched = candidates[records[n - 1]];
                let ranked = RecallCitationModel {
                    exact_match: matched.exact,
                    matched_term_count: matched.matched_terms,
                    ..citation
                };
                assert(Some(records[n - 1]) != excluded);
                assert(rests_on_citable(s, ranked)) by {
                    assert(ranked.evidence == citation.evidence);
                }
                if within(query, citation) {
                    assert(is_current(s, query, excluded, ranked));
                }
            },
            _ => {},
        }
    }
}

/// Recall answers with records that are active, lie where the query looks, are not left
/// out of it, and rest on evidence that is active and no utterance of an assistant. There
/// are no more of them than asked for, and the better match comes first.
pub proof fn citations_are_current(
    s: StoreModel,
    query: RecallQueryModel,
    excluded: Option<RecordRef>,
    citations: Seq<RecallCitationModel>,
)
    requires
        s.recall_citations(query, excluded) == MemoryResult::Ok(citations),
    ensures
        citations.len() <= query.limit,
        forall|i: int| 0 <= i < citations.len() ==> is_current(s, query, excluded, #[trigger] citations[i]),
        forall|i: int, j: int|
            0 <= i < j < citations.len() ==> citation_place(citations[i]).rank() < citation_place(
                citations[j],
            ).rank(),
{
    reveal(StoreModel::recall_citations);
    candidates_spare(s, query, excluded);
    let candidates = s.recall_candidates(query, excluded);
    in_order_lists(candidates.dom());
    let records = in_order(candidates.dom());
    assert(list_spares(records, excluded)) by {
        assert forall|i: int| 0 <= i < records.len() implies Some(#[trigger] records[i]) != excluded by {
            assert(records.contains(records[i]));
        }
    }
    let found = s.cited(query, candidates, records, records.len())->Ok_0;
    cited_are_current(s, query, excluded, candidates, records, records.len(), found);
    in_order_lists(found.dom());
    let places = in_order(found.dom());
    assert forall|i: int| 0 <= i < citations.len() implies is_current(s, query, excluded, #[trigger] citations[i])
        && citation_place(citations[i]) == places[i] by {
        assert(places.contains(places[i]));
        assert(citations[i] == found[places[i]]);
    }
    assert forall|i: int, j: int| 0 <= i < j < citations.len() implies citation_place(citations[i]).rank()
        < citation_place(citations[j]).rank() by {
        assert(citation_place(citations[i]) == places[i]);
        assert(citation_place(citations[j]) == places[j]);
        assert(places[i].rank() < places[j].rank());
    }
}

/// Of every recall a case is kept that pins what was answered, in its order, at the revision
/// that was cited.
pub proof fn recalls_are_kept(
    s: StoreModel,
    input: RecallQueryModel,
    excluded: Option<RecordRef>,
    request: Seq<u8>,
    fresh: FreshModel,
    after: StoreModel,
    result: RecallResultModel,
)
    requires
        s.recall(input, excluded, request, fresh) == MemoryResult::Ok((after, result)),
    ensures
        match lookup(after.recall_cases, result.case_id) {
            None => false,
            Some(case) => {
                &&& case.candidates.len() == result.citations.len()
                &&& forall|i: int|
                    0 <= i < case.candidates.len() ==> (#[trigger] case.candidates[i]).record
                        == result.citations[i].record && case.candidates[i].revision == result.citations[i].revision
            },
        },
{
    broadcast use crate::writing::parts_after_put;
}

} // verus!
