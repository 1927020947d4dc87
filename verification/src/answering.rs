//! What an answer is: which citations come before which, what is left out of an answer,
//! and what a query has to say to be answered.

use vstd::prelude::*;
use crate::citations::{citations_are_current, is_current};
use crate::clock::FreshModel;
use crate::fault::MemoryResult;
use crate::finding::{
    as_matched, candidates_are_finite, cited_keep, cites_truly, recallable_names_itself,
};
use crate::grounds::lists_are_as_long;
use crate::ids::EvidenceId;
use crate::inspect::lookup;
use crate::keys::record_span;
use crate::order::{Keyed, in_order, in_order_lists};
use crate::recall::{citation_place, sound_query, turn_opener, within};
use crate::records::evidence::{Actor, EvidenceClass, RecordRef, RecordState};
use crate::records::recall::{RecallCitationModel, RecallQueryModel, RecallResultModel};
use crate::store::StoreModel;
use crate::text::{exact_form, utf8};

verus! {

/// Whether a citation answers a query better than another: an exact match before any
/// other, then more matched terms, then the later observation, then the record that is
/// listed first.
pub open spec fn answers_better(a: RecallCitationModel, b: RecallCitationModel) -> bool {
    if a.exact_match != b.exact_match {
        a.exact_match
    } else if a.matched_term_count != b.matched_term_count {
        a.matched_term_count > b.matched_term_count
    } else if a.temporal.observed_at_ms != b.temporal.observed_at_ms {
        a.temporal.observed_at_ms > b.temporal.observed_at_ms
    } else {
        listed_before(a.record, b.record)
    }
}

/// Whether a record is listed before another: evidence, claims, entities, relations,
/// proposals, reviews, collections, snapshots, passages, and each kind by its
/// identifiers.
pub open spec fn listed_before(a: RecordRef, b: RecordRef) -> bool {
    match (a, b) {
        (RecordRef::Evidence(x), RecordRef::Evidence(y)) => x.0.0 < y.0.0,
        (RecordRef::Evidence(_), _) => true,
        (_, RecordRef::Evidence(_)) => false,
        (RecordRef::Claim(x), RecordRef::Claim(y)) => x.0.0 < y.0.0,
        (RecordRef::Claim(_), _) => true,
        (_, RecordRef::Claim(_)) => false,
        (RecordRef::Entity(x), RecordRef::Entity(y)) => x.0.0 < y.0.0,
        (RecordRef::Entity(_), _) => true,
        (_, RecordRef::Entity(_)) => false,
        (RecordRef::SemanticRelation(x), RecordRef::SemanticRelation(y)) => x.0.0 < y.0.0,
        (RecordRef::SemanticRelation(_), _) => true,
        (_, RecordRef::SemanticRelation(_)) => false,
        (RecordRef::Proposal(x), RecordRef::Proposal(y)) => x.0.0 < y.0.0,
        (RecordRef::Proposal(_), _) => true,
        (_, RecordRef::Proposal(_)) => false,
        (RecordRef::ProposalReview(x), RecordRef::ProposalReview(y)) => x.0.0 < y.0.0,
        (RecordRef::ProposalReview(_), _) => true,
        (_, RecordRef::ProposalReview(_)) => false,
        (RecordRef::ArtifactCollection(x), RecordRef::ArtifactCollection(y)) => x.0.0 < y.0.0,
        (RecordRef::ArtifactCollection(_), _) => true,
        (_, RecordRef::ArtifactCollection(_)) => false,
        (RecordRef::ArtifactSnapshot(x), RecordRef::ArtifactSnapshot(y)) => x.0.0 < y.0.0,
        (RecordRef::ArtifactSnapshot(_), _) => true,
        (_, RecordRef::ArtifactSnapshot(_)) => false,
        (RecordRef::ArtifactPassage(x), RecordRef::ArtifactPassage(y)) => x.0.0 < y.0.0,
    }
}

/// Records are listed by their kinds and then by their identifiers.
pub proof fn records_are_listed(a: RecordRef, b: RecordRef)
    ensures
        a.rank() < b.rank() <==> listed_before(a, b),
{
}

/// Whether a citation's place is before another's is told by the citations alone.
proof fn places_tell(a: RecallCitationModel, b: RecallCitationModel)
    ensures
        citation_place(a).rank() < citation_place(b).rank() <==> answers_better(a, b),
{
    records_are_listed(a.record, b.record);
    assert(0 <= a.record.rank() < record_span());
    assert(0 <= b.record.rank() < record_span());
}

/// The better answer comes first: exact matches precede all others; of two that are
/// alike in that, the one with more matched terms precedes; of two with as many, the one
/// observed later; and of two observed together, the one listed first.
pub proof fn better_answers_come_first(
    s: StoreModel,
    query: RecallQueryModel,
    excluded: Option<RecordRef>,
    citations: Seq<RecallCitationModel>,
    i: int,
    j: int,
)
    requires
        s.recall_citations(query, excluded) == MemoryResult::Ok(citations),
        0 <= i < j < citations.len(),
    ensures
        citations[j].exact_match ==> citations[i].exact_match,
        citations[i].exact_match == citations[j].exact_match ==> citations[i].matched_term_count
            >= citations[j].matched_term_count,
        citations[i].exact_match == citations[j].exact_match && citations[i].matched_term_count
            == citations[j].matched_term_count ==> citations[i].temporal.observed_at_ms
            >= citations[j].temporal.observed_at_ms,
        citations[i].exact_match == citations[j].exact_match && citations[i].matched_term_count
            == citations[j].matched_term_count && citations[i].temporal.observed_at_ms
            == citations[j].temporal.observed_at_ms ==> listed_before(citations[i].record, citations[j].record),
{
    citations_are_current(s, query, excluded, citations);
    places_tell(citations[i], citations[j]);
}

/// Nothing better is left out: what matches, can be recalled and lies where the query
/// looks is in the answer, unless the answer is as long as it may be and everything in it
/// is better.
pub proof fn nothing_better_is_left_out(
    s: StoreModel,
    query: RecallQueryModel,
    excluded: Option<RecordRef>,
    record: RecordRef,
    citation: RecallCitationModel,
    citations: Seq<RecallCitationModel>,
)
    requires
        s.recall_citations(query, excluded) == MemoryResult::Ok(citations),
        s.recall_candidates(query, excluded).contains_key(record),
        s.recallable_record(record) == MemoryResult::Ok(Some(citation)),
        within(query, citation),
    ensures
        ({
            let owed = as_matched(citation, s.recall_candidates(query, excluded)[record]);
            citations.contains(owed) || (citations.len() == query.limit && forall|i: int|
                0 <= i < citations.len() ==> answers_better(#[trigger] citations[i], owed))
        }),
{
    reveal(StoreModel::recall_citations);
    candidates_are_finite(s, query, excluded);
    let candidates = s.recall_candidates(query, excluded);
    in_order_lists(candidates.dom());
    let records = in_order(candidates.dom());
    assert(records.contains(record));
    let at = choose|at: int| 0 <= at < records.len() && records[at] == record;
    let found = s.cited(query, candidates, records, records.len())->Ok_0;
    cited_keep(s, query, candidates, records, records.len(), at, citation, found);
    in_order_lists(found.dom());
    let places = in_order(found.dom());
    let owed = as_matched(citation, candidates[record]);
    let place = citation_place(owed);
    assert(found.dom().contains(place));
    assert(places.contains(place));
    let k = choose|k: int| 0 <= k < places.len() && places[k] == place;
    recallable_names_itself(s, record, citation);
    assert(cites_truly(s, candidates, found[place]));
    assert(found[place] == owed);
    if k < citations.len() {
        assert(citations[k] == owed);
    } else {
        assert forall|i: int| 0 <= i < citations.len() implies answers_better(#[trigger] citations[i], owed) by {
            assert(places.contains(places[i]));
            assert(citations[i] == found[places[i]]);
            assert(citation_place(citations[i]) == places[i]);
            assert(places[i].rank() < places[k].rank());
            places_tell(citations[i], owed);
        }
    }
}

/// What an answer cites lies where the query looks: in one of its scopes, observed from
/// the instant it gives and before the other, and valid at the instant it asks about,
/// which is from the beginning of the valid time and before its end. It is no longer
/// than was asked for.
pub proof fn answers_lie_where_the_query_looks(
    s: StoreModel,
    query: RecallQueryModel,
    excluded: Option<RecordRef>,
    citations: Seq<RecallCitationModel>,
    i: int,
)
    requires
        s.recall_citations(query, excluded) == MemoryResult::Ok(citations),
        0 <= i < citations.len(),
    ensures
        citations.len() <= query.limit,
        query.scopes.contains(citations[i].scope),
        Some(citations[i].record) != excluded,
        query.observed_from_ms matches Some(from) ==> from <= citations[i].temporal.observed_at_ms,
        query.observed_to_ms matches Some(to) ==> citations[i].temporal.observed_at_ms < to,
        query.valid_at_ms matches Some(at) ==> {
            &&& citations[i].temporal.valid_from_ms matches Some(from) ==> from <= at
            &&& citations[i].temporal.valid_to_ms matches Some(to) ==> at < to
        },
        s.standing(citations[i].record) == MemoryResult::Ok(
            (citations[i].scope, RecordState::Active, citations[i].revision),
        ),
{
    citations_are_current(s, query, excluded, citations);
    assert(is_current(s, query, excluded, citations[i]));
}

/// An answer cites evidence, claims and entities, each in the words that it is known by
/// and with the evidence that it rests on, piece by piece. All of that evidence is
/// active, can be read, and is no utterance of the assistant.
pub proof fn citations_say_what_is_known(s: StoreModel, record: RecordRef, citation: RecallCitationModel)
    requires
        s.recallable_record(record) == MemoryResult::Ok(Some(citation)),
    ensures
        citation.record == record,
        citation.evidence.len() == citation.evidence_ids.len(),
        match record {
            RecordRef::Evidence(id) => match s.inspect_evidence(id) {
                Ok(Some(evidence)) => {
                    &&& evidence.text == Some(citation.text)
                    &&& evidence.header.scope == citation.scope && evidence.header.temporal == citation.temporal
                    &&& evidence.availability.revision == citation.revision
                    &&& evidence.availability.state == RecordState::Active
                    &&& citation.evidence_ids == seq![id]
                },
                _ => false,
            },
            RecordRef::Claim(id) => match s.inspect_claim(id) {
                Ok(Some(claim)) => {
                    &&& claim.proposition == Some(citation.text)
                    &&& claim.header.scope == citation.scope && claim.header.temporal == citation.temporal
                    &&& claim.header.revision == citation.revision && claim.header.state == RecordState::Active
                    &&& citation.evidence_ids == claim.header.evidence_ids
                },
                _ => false,
            },
            RecordRef::Entity(id) => match s.inspect_entity(id) {
                Ok(Some(entity)) => {
                    &&& entity.canonical_name == Some(citation.text)
                    &&& entity.header.scope == citation.scope && entity.header.temporal == citation.temporal
                    &&& entity.header.revision == citation.revision && entity.header.state == RecordState::Active
                    &&& citation.evidence_ids == entity.header.evidence_ids
                },
                _ => false,
            },
            _ => false,
        },
        forall|i: int|
            0 <= i < citation.evidence.len() ==> match s.inspect_evidence(citation.evidence_ids[i]) {
                Ok(Some(evidence)) => {
                    &&& (#[trigger] citation.evidence[i]).id == citation.evidence_ids[i]
                    &&& citation.evidence[i].revision == evidence.availability.revision
                    &&& citation.evidence[i].class == evidence.header.class
                    &&& citation.evidence[i].lifecycle == evidence.header.lifecycle
                    &&& citation.evidence[i].artifact == lookup(s.artifact_by_evidence, citation.evidence_ids[i])
                    &&& evidence.availability.state == RecordState::Active
                    &&& evidence.text is Some
                    &&& !(evidence.header.class is AssistantUtterance)
                },
                _ => false,
            },
{
    reveal(StoreModel::recallable_record);
    match record {
        RecordRef::Claim(id) => {
            let ids = s.inspect_claim(id)->Ok_0->Some_0.header.evidence_ids;
            truths_are_cited(s, ids, ids.len());
        },
        RecordRef::Entity(id) => {
            let ids = s.inspect_entity(id)->Ok_0->Some_0.header.evidence_ids;
            truths_are_cited(s, ids, ids.len());
        },
        _ => {},
    }
}

proof fn truths_are_cited(s: StoreModel, ids: Seq<EvidenceId>, n: nat)
    requires
        n <= ids.len(),
    ensures
        s.recall_evidence_truth(ids, n) matches Ok(Some(cited)) ==> {
            &&& cited.len() == n
            &&& forall|i: int|
                0 <= i < n ==> match s.inspect_evidence(ids[i]) {
                    Ok(Some(evidence)) => {
                        &&& (#[trigger] cited[i]).id == ids[i]
                        &&& cited[i].revision == evidence.availability.revision
                        &&& cited[i].class == evidence.header.class
                        &&& cited[i].lifecycle == evidence.header.lifecycle
                        &&& cited[i].artifact == lookup(s.artifact_by_evidence, ids[i])
                        &&& evidence.availability.state == RecordState::Active
                        &&& evidence.text is Some
                        &&& !(evidence.header.class is AssistantUtterance)
                    },
                    _ => false,
                }
        },
    decreases n,
{
    if n > 0 {
        truths_are_cited(s, ids, (n - 1) as nat);
        match s.recall_evidence_truth(ids, n) {
            Ok(Some(cited)) => {
                let before = s.recall_evidence_truth(ids, (n - 1) as nat)->Ok_0->Some_0;
                assert forall|i: int| 0 <= i < n - 1 implies #[trigger] cited[i] == before[i] by {}
            },
            _ => {},
        }
    }
}

/// A query is answered if and only if it looks in one to 32 scopes, its range of time is
/// not empty, its text takes up at most 32 kibibytes, and it gives a cue: some text that
/// is not blank, or a bound in time. It is answered for each of its scopes, with at most
/// 100 citations, and as it was asked in every other respect.
pub proof fn queries_are_heard(query: RecallQueryModel)
    ensures
        match sound_query(query) {
            Ok(wanted) => {
                &&& wanted.scopes.to_set() == query.scopes.to_set()
                &&& wanted.scopes.no_duplicates()
                &&& wanted.limit == (if query.limit > 100 {
                    100
                } else {
                    query.limit as int
                })
                &&& wanted.text == query.text && wanted.valid_at_ms == query.valid_at_ms
                &&& wanted.observed_from_ms == query.observed_from_ms && wanted.observed_to_ms
                    == query.observed_to_ms
            },
            Err(_) => true,
        },
        sound_query(query) is Ok <==> {
            &&& 1 <= query.scopes.to_set().len() <= 32
            &&& query.observed_from_ms is Some && query.observed_to_ms is Some ==> query.observed_from_ms->Some_0
                < query.observed_to_ms->Some_0
            &&& utf8(query.text).len() <= 32_768
            &&& exact_form(query.text).len() > 0 || query.observed_from_ms is Some || query.observed_to_ms is Some
        },
{
    reveal(sound_query);
    vstd::seq_lib::seq_to_set_is_finite(query.scopes);
    lists_are_as_long(query.scopes.to_set());
}

/// The case that is kept of an answer tells its citations as they were given: the record,
/// its revision, its place from the first one on, and how it matched. It is new, of this
/// era and for the scopes asked for.
pub proof fn cases_tell_the_answer(
    s: StoreModel,
    input: RecallQueryModel,
    excluded: Option<RecordRef>,
    request: Seq<u8>,
    fresh: FreshModel,
    after: StoreModel,
    result: RecallResultModel,
)
    requires
        s.recall(input, excluded, request, fresh) == MemoryResult::Ok((after, result)),
    ensures
        sound_query(input) is Ok,
        s.recall_citations(sound_query(input)->Ok_0, excluded) == MemoryResult::Ok(result.citations),
        match lookup(after.recall_cases, result.case_id) {
            None => false,
            Some(case) => {
                &&& case.id == result.case_id && case.revision == 1 && case.era_id == s.era_id
                &&& case.recorded_at_ms == fresh.recorded_at_ms
                &&& case.scopes.to_set() == input.scopes.to_set()
                &&& case.candidates.len() == result.citations.len()
                &&& forall|i: int|
                    0 <= i < case.candidates.len() ==> {
                        &&& (#[trigger] case.candidates[i]).record == result.citations[i].record
                        &&& case.candidates[i].revision == result.citations[i].revision
                        &&& case.candidates[i].rank == i
                        &&& case.candidates[i].exact_match == result.citations[i].exact_match
                        &&& case.candidates[i].matched_term_count == result.citations[i].matched_term_count
                    }
            },
        },
{
    broadcast use crate::writing::parts_after_put;
    queries_are_heard(input);
    let query = sound_query(input)->Ok_0;
    citations_are_current(s, query, excluded, result.citations);
}

/// A turn is opened by the user alone, with an assertion or a correction.
pub proof fn users_open_turns(actor: Actor, class: EvidenceClass)
    ensures
        turn_opener(actor, class) <==> (actor is User && (class is UserAssertion || class is UserCorrection)),
{
}

} // verus!
