//! What recall does not miss.
use vstd::prelude::*;
use crate::citations::{citations_are_current, is_current};
use crate::clock::FreshModel;
use crate::context::OperationContext;
use crate::digest::{EXACT_DOMAIN, TERM_DOMAIN, index_digest};
use crate::fault::MemoryResult;
use crate::ids::RecallCaseId;
use crate::inspect::lookup;
use crate::keys::{PostingKey, TimeKey};
use crate::order::{in_order, in_order_lists};
use crate::readback::{captured_evidence_reads_back, indexing_aside};
use crate::recall::{
    CandidateMatch, CitationPlace, MAX_RECALL_CANDIDATES, citation_place, considered, counted,
    exactly_matched, merely_present, query_terms, records_observed, records_posted, sound_query,
    turn_opened, within,
};
use crate::records::evidence::{EvidenceClass, EvidenceReceipt, NewEvidenceModel, RecordRef};
use crate::records::recall::{
    BeginTurnRecallResultModel, RecallCitationModel, RecallQueryModel, RecallResultModel,
};
use crate::store::StoreModel;
use crate::text::{exact_form, utf8};

verus! {

proof fn considered_keeps(records: Seq<RecordRef>, excluded: Option<RecordRef>, n: nat, at: int)
    requires
        0 <= at < n <= records.len() <= MAX_RECALL_CANDIDATES,
        Some(records[at]) != excluded,
    ensures
        considered(records, excluded, MAX_RECALL_CANDIDATES, n).contains(records[at]),
    decreases n,
{
    considered_is_short(records, excluded, (n - 1) as nat);
    let before = considered(records, excluded, MAX_RECALL_CANDIDATES, (n - 1) as nat);
    let after = considered(records, excluded, MAX_RECALL_CANDIDATES, n);
    if at == n - 1 {
        assert(after[before.len() as int] == records[at]);
    } else {
        considered_keeps(records, excluded, (n - 1) as nat, at);
        let i = choose|i: int| 0 <= i < before.len() && before[i] == records[at];
        assert(after[i] == records[at]);
    }
}

proof fn considered_is_short(records: Seq<RecordRef>, excluded: Option<RecordRef>, n: nat)
    ensures
        considered(records, excluded, MAX_RECALL_CANDIDATES, n).len() <= n,
    decreases n,
{
    if n > 0 {
        considered_is_short(records, excluded, (n - 1) as nat);
    }
}

proof fn exact_matches_keep(records: Seq<RecordRef>, n: nat, at: int)
    requires
        0 <= at < n <= records.len(),
    ensures
        exactly_matched(records, n).contains_key(records[at]),
        exactly_matched(records, n)[records[at]].exact,
    decreases n,
{
    if at < n - 1 {
        exact_matches_keep(records, (n - 1) as nat, at);
    }
}

proof fn present_keep(records: Seq<RecordRef>, n: nat, at: int)
    requires
        0 <= at < n <= records.len(),
    ensures
        merely_present(records, n).contains_key(records[at]),
    decreases n,
{
    if at < n - 1 {
        present_keep(records, (n - 1) as nat, at);
    }
}

/// Whether a record is among candidates as an exact match.
spec fn exactly_among(candidates: Map<RecordRef, CandidateMatch>, record: RecordRef) -> bool {
    candidates.contains_key(record) && candidates[record].exact
}

proof fn counted_keep(candidates: Map<RecordRef, CandidateMatch>, records: Seq<RecordRef>, n: nat, record: RecordRef)
    requires
        exactly_among(candidates, record),
    ensures
        exactly_among(counted(candidates, records, n), record),
    decreases n,
{
    if n > 0 {
        counted_keep(candidates, records, (n - 1) as nat, record);
    }
}

proof fn matches_keep(
    s: StoreModel,
    text: Seq<char>,
    terms: Seq<Seq<char>>,
    excluded: Option<RecordRef>,
    n: nat,
    record: RecordRef,
)
    requires
        exactly_among(s.term_matched(text, terms, excluded, 0), record),
    ensures
        exactly_among(s.term_matched(text, terms, excluded, n), record),
    decreases n,
{
    if n > 0 {
        matches_keep(s, text, terms, excluded, (n - 1) as nat, record);
        let records = s.posting_records(
            TERM_DOMAIN,
            index_digest(s.digest_key@, TERM_DOMAIN, utf8(terms[n - 1])),
            excluded,
        );
        counted_keep(
            s.term_matched(text, terms, excluded, (n - 1) as nat),
            records,
            records.len(),
            record,
        );
    }
}

/// The key that files a record under a text as a whole.
pub open spec fn exact_key(s: StoreModel, text: Seq<char>, record: RecordRef) -> PostingKey {
    PostingKey {
        domain: EXACT_DOMAIN,
        hash: index_digest(s.digest_key@, EXACT_DOMAIN, utf8(exact_form(text))),
        record,
    }
}

/// Whether no more records are filed under a text as a whole than recall considers.
pub open spec fn few_share(s: StoreModel, text: Seq<char>) -> bool {
    let hash = index_digest(s.digest_key@, EXACT_DOMAIN, utf8(exact_form(text)));
    s.lexical_postings.dom().finite() && in_order(s.posting_keys(EXACT_DOMAIN, hash)).len()
        <= MAX_RECALL_CANDIDATES
}

proof fn exact_postings_are_candidates(
    s: StoreModel,
    query: RecallQueryModel,
    excluded: Option<RecordRef>,
    record: RecordRef,
)
    requires
        exact_form(query.text).len() > 0,
        s.lexical_postings.contains_key(exact_key(s, query.text, record)),
        few_share(s, query.text),
        Some(record) != excluded,
    ensures
        exactly_among(s.recall_candidates(query, excluded), record),
{
    reveal(StoreModel::recall_candidates);
    reveal(StoreModel::posting_records);
    let hash = index_digest(s.digest_key@, EXACT_DOMAIN, utf8(exact_form(query.text)));
    let filed = s.posting_keys(EXACT_DOMAIN, hash);
    let under = Set::new(|k: PostingKey| k.domain == EXACT_DOMAIN && k.hash == hash);
    assert(filed =~= s.lexical_postings.dom().intersect(under));
    in_order_lists(filed);
    let keys = in_order(filed);
    let key = exact_key(s, query.text, record);
    assert(filed.contains(key));
    assert(keys.contains(key));
    let at = choose|at: int| 0 <= at < keys.len() && keys[at] == key;
    let records = records_posted(keys);
    assert(records[at] == record);
    considered_keeps(records, excluded, records.len(), at);
    let found = s.posting_records(EXACT_DOMAIN, hash, excluded);
    let place = choose|i: int| 0 <= i < found.len() && found[i] == record;
    exact_matches_keep(found, found.len(), place);
    let terms = query_terms(query.text);
    matches_keep(s, query.text, terms, excluded, terms.len(), record);
}

/// Whether candidates are finitely many.
pub open spec fn finitely_many(candidates: Map<RecordRef, CandidateMatch>) -> bool {
    candidates.dom().finite()
}

proof fn exact_matches_are_finite(records: Seq<RecordRef>, n: nat)
    ensures
        finitely_many(exactly_matched(records, n)),
        finitely_many(merely_present(records, n)),
    decreases n,
{
    if n > 0 {
        exact_matches_are_finite(records, (n - 1) as nat);
    }
}

proof fn counted_are_finite(candidates: Map<RecordRef, CandidateMatch>, records: Seq<RecordRef>, n: nat)
    requires
        finitely_many(candidates),
    ensures
        finitely_many(counted(candidates, records, n)),
    decreases n,
{
    if n > 0 {
        counted_are_finite(candidates, records, (n - 1) as nat);
    }
}

proof fn matches_are_finite(s: StoreModel, text: Seq<char>, terms: Seq<Seq<char>>, excluded: Option<RecordRef>, n: nat)
    ensures
        finitely_many(s.term_matched(text, terms, excluded, n)),
    decreases n,
{
    if n == 0 {
        let records = s.posting_records(
            EXACT_DOMAIN,
            index_digest(s.digest_key@, EXACT_DOMAIN, utf8(exact_form(text))),
            excluded,
        );
        exact_matches_are_finite(records, records.len());
    } else {
        matches_are_finite(s, text, terms, excluded, (n - 1) as nat);
        let records = s.posting_records(
            TERM_DOMAIN,
            index_digest(s.digest_key@, TERM_DOMAIN, utf8(terms[n - 1])),
            excluded,
        );
        counted_are_finite(s.term_matched(text, terms, excluded, (n - 1) as nat), records, records.len());
    }
}

pub proof fn candidates_are_finite(s: StoreModel, query: RecallQueryModel, excluded: Option<RecordRef>)
    ensures
        finitely_many(s.recall_candidates(query, excluded)),
{
    reveal(StoreModel::recall_candidates);
    let terms = query_terms(query.text);
    matches_are_finite(s, query.text, terms, excluded, terms.len());
    let records = s.records_in_observed_range(
        query.observed_from_ms,
        query.observed_to_ms,
        MAX_RECALL_CANDIDATES,
        excluded,
    );
    exact_matches_are_finite(records, records.len());
}

/// The citation of a candidate, with how it matched.
pub open spec fn as_matched(citation: RecallCitationModel, matched: CandidateMatch) -> RecallCitationModel {
    RecallCitationModel { exact_match: matched.exact, matched_term_count: matched.matched_terms, ..citation }
}

pub proof fn recallable_names_itself(s: StoreModel, record: RecordRef, citation: RecallCitationModel)
    requires
        s.recallable_record(record) == MemoryResult::Ok(Some(citation)),
    ensures
        citation.record == record,
{
    reveal(StoreModel::recallable_record);
}

/// Whether a citation tells what there is to tell of its record.
pub open spec fn cites_truly(s: StoreModel, candidates: Map<RecordRef, CandidateMatch>, cited: RecallCitationModel) -> bool {
    match s.recallable_record(cited.record) {
        Ok(Some(citation)) => cited == as_matched(citation, candidates[cited.record]),
        _ => false,
    }
}

pub proof fn cited_keep(
    s: StoreModel,
    query: RecallQueryModel,
    candidates: Map<RecordRef, CandidateMatch>,
    records: Seq<RecordRef>,
    n: nat,
    at: int,
    citation: RecallCitationModel,
    found: Map<CitationPlace, RecallCitationModel>,
)
    requires
        s.cited(query, candidates, records, n) == MemoryResult::Ok(found),
        n <= records.len(),
        0 <= at < records.len(),
        s.recallable_record(records[at]) == MemoryResult::Ok(Some(citation)),
        within(query, citation),
    ensures
        found.dom().finite(),
        at < n ==> {
            let ranked = as_matched(citation, candidates[records[at]]);
            found.contains_key(citation_place(ranked))
        },
        forall|place: CitationPlace| #[trigger]
            found.contains_key(place) ==> citation_place(found[place]) == place && cites_truly(s, candidates, found[place]),
    decreases n,
{
    if n > 0 {
        let before = s.cited(query, candidates, records, (n - 1) as nat)->Ok_0;
        cited_keep(s, query, candidates, records, (n - 1) as nat, at, citation, before);
        match s.recallable_record(records[n - 1]) {
            Ok(Some(other)) => {
                recallable_names_itself(s, records[n - 1], other);
            },
            _ => {},
        }
    }
}

proof fn candidates_are_answered(
    s: StoreModel,
    query: RecallQueryModel,
    excluded: Option<RecordRef>,
    record: RecordRef,
    citation: RecallCitationModel,
    citations: Seq<RecallCitationModel>,
)
    requires
        s.recall_citations(query, excluded) == MemoryResult::Ok(citations),
        citations.len() < query.limit,
        s.recall_candidates(query, excluded).contains_key(record),
        s.recallable_record(record) == MemoryResult::Ok(Some(citation)),
        within(query, citation),
    ensures
        exists|i: int|
            0 <= i < citations.len() && #[trigger] citations[i] == as_matched(
                citation,
                s.recall_candidates(query, excluded)[record],
            ),
{
    reveal(StoreModel::recall_citations);
    candidates_are_finite(s, query, excluded);
    let candidates = s.recall_candidates(query, excluded);
    in_order_lists(candidates.dom());
    let records = in_order(candidates.dom());
    assert(records.contains(record));
    let at = choose|at: int| 0 <= at < records.len() && records[at] == record;
    let found = s.cited(query, candidates, records, records.len())->Ok_0;
    cited_keep(s, query, candidates, records, records.len(), at, citation, found);
    in_order_lists(found.dom());
    let places = in_order(found.dom());
    let place = citation_place(as_matched(citation, candidates[record]));
    assert(found.dom().contains(place));
    assert(places.contains(place));
    let i = choose|i: int| 0 <= i < places.len() && places[i] == place;
    assert(citations[i] == found[place]);
    recallable_names_itself(s, record, citation);
    assert(cites_truly(s, candidates, found[place]));
}

/// Recall misses no exact match: a record that is filed under the text of a query as a
/// whole, and can be cited where the query looks, is cited as an exact match, unless the
/// answer is as long as asked for or more records share the text than are considered.
pub proof fn exact_matches_are_answered(
    s: StoreModel,
    query: RecallQueryModel,
    excluded: Option<RecordRef>,
    record: RecordRef,
    citation: RecallCitationModel,
    citations: Seq<RecallCitationModel>,
)
    requires
        s.recall_citations(query, excluded) == MemoryResult::Ok(citations),
        citations.len() < query.limit,
        exact_form(query.text).len() > 0,
        s.lexical_postings.contains_key(exact_key(s, query.text, record)),
        few_share(s, query.text),
        Some(record) != excluded,
        s.recallable_record(record) == MemoryResult::Ok(Some(citation)),
        within(query, citation),
    ensures
        exists|i: int|
            0 <= i < citations.len() && (#[trigger] citations[i]).record == record && citations[i].exact_match
                && citations[i].text == citation.text && citations[i].revision == citation.revision,
{
    exact_postings_are_candidates(s, query, excluded, record);
    candidates_are_answered(s, query, excluded, record, citation, citations);
    recallable_names_itself(s, record, citation);
    let told = as_matched(citation, s.recall_candidates(query, excluded)[record]);
    let i = choose|i: int| 0 <= i < citations.len() && #[trigger] citations[i] == told;
    assert(citations[i].record == record);
}

/// Whether a query looks where evidence lies.
pub open spec fn looks_at(query: RecallQueryModel, input: NewEvidenceModel) -> bool {
    &&& query.scopes.contains(input.scope)
    &&& match query.observed_from_ms {
        Some(from) => from <= input.temporal.observed_at_ms,
        None => true,
    }
    &&& match query.observed_to_ms {
        Some(to) => input.temporal.observed_at_ms < to,
        None => true,
    }
    &&& match query.valid_at_ms {
        Some(at) => input.temporal.valid_at(at),
        None => true,
    }
}

proof fn capturing_files_the_text(
    s: StoreModel,
    operation: OperationContext,
    input: NewEvidenceModel,
    request: Seq<u8>,
    fresh: FreshModel,
    after: StoreModel,
    receipt: EvidenceReceipt,
)
    requires
        s.capture_evidence(operation, input, request, fresh) == MemoryResult::Ok((after, receipt)),
        !s.operations.contains_key(operation.id),
    ensures
        after.lexical_postings.contains_key(exact_key(after, input.text, RecordRef::Evidence(receipt.id))),
        after.time_index.contains_key(
            TimeKey { observed_at_ms: input.temporal.observed_at_ms, record: RecordRef::Evidence(receipt.id) },
        ),
{
    broadcast use indexing_aside;

    reveal(StoreModel::replay);
    broadcast use crate::writing::parts_after_put;
    reveal(StoreModel::with_evidence);
    reveal(StoreModel::indexed);
}

proof fn captured_is_recallable(
    s: StoreModel,
    operation: OperationContext,
    input: NewEvidenceModel,
    request: Seq<u8>,
    fresh: FreshModel,
    after: StoreModel,
    receipt: EvidenceReceipt,
) -> (citation: RecallCitationModel)
    requires
        s.capture_evidence(operation, input, request, fresh) == MemoryResult::Ok((after, receipt)),
        !s.operations.contains_key(operation.id),
        input.class != EvidenceClass::AssistantUtterance,
    ensures
        after.recallable_record(RecordRef::Evidence(receipt.id)) == MemoryResult::Ok(Some(citation)),
        citation.scope == input.scope,
        citation.temporal == input.temporal,
        citation.text == input.text,
{
    reveal(StoreModel::recallable_record);
    captured_evidence_reads_back(s, operation, input, request, fresh, after, receipt);
    after.recallable_record(RecordRef::Evidence(receipt.id))->Ok_0->Some_0
}

/// What was captured is recalled: a query with its text, blanks and case aside, that looks
/// where it lies is answered with it as an exact match, unless it is an utterance of an
/// assistant, the answer is as long as asked for or more records share the text than are
/// considered.
pub proof fn captured_evidence_is_recalled(
    s: StoreModel,
    operation: OperationContext,
    input: NewEvidenceModel,
    request: Seq<u8>,
    fresh: FreshModel,
    after: StoreModel,
    receipt: EvidenceReceipt,
    query: RecallQueryModel,
    excluded: Option<RecordRef>,
    citations: Seq<RecallCitationModel>,
)
    requires
        s.capture_evidence(operation, input, request, fresh) == MemoryResult::Ok((after, receipt)),
        !s.operations.contains_key(operation.id),
        input.class != EvidenceClass::AssistantUtterance,
        exact_form(query.text) == exact_form(input.text),
        exact_form(query.text).len() > 0,
        looks_at(query, input),
        excluded != Some(RecordRef::Evidence(receipt.id)),
        few_share(after, query.text),
        after.recall_citations(query, excluded) == MemoryResult::Ok(citations),
        citations.len() < query.limit,
    ensures
        exists|i: int|
            0 <= i < citations.len() && (#[trigger] citations[i]).record == RecordRef::Evidence(receipt.id)
                && citations[i].exact_match && citations[i].text == input.text,
{
    capturing_files_the_text(s, operation, input, request, fresh, after, receipt);
    let citation = captured_is_recallable(s, operation, input, request, fresh, after, receipt);
    assert(exact_key(after, query.text, RecordRef::Evidence(receipt.id)) == exact_key(
        after,
        input.text,
        RecordRef::Evidence(receipt.id),
    ));
    exact_matches_are_answered(after, query, excluded, RecordRef::Evidence(receipt.id), citation, citations);
}

/// Whether no more records were observed in the time of a query than recall considers.
pub open spec fn few_observed(s: StoreModel, query: RecallQueryModel) -> bool {
    s.time_index.dom().finite() && in_order(s.observed_keys(query.observed_from_ms, query.observed_to_ms)).len()
        <= MAX_RECALL_CANDIDATES
}

/// What was captured is recalled by its time too: a query without a text that looks where it
/// lies is answered with it, unless it is an utterance of an assistant, the answer is as long
/// as asked for or more records were observed in that time than are considered.
pub proof fn captured_evidence_is_recalled_by_time(
    s: StoreModel,
    operation: OperationContext,
    input: NewEvidenceModel,
    request: Seq<u8>,
    fresh: FreshModel,
    after: StoreModel,
    receipt: EvidenceReceipt,
    query: RecallQueryModel,
    excluded: Option<RecordRef>,
    citations: Seq<RecallCitationModel>,
)
    requires
        s.capture_evidence(operation, input, request, fresh) == MemoryResult::Ok((after, receipt)),
        !s.operations.contains_key(operation.id),
        input.class != EvidenceClass::AssistantUtterance,
        exact_form(query.text).len() == 0,
        looks_at(query, input),
        excluded != Some(RecordRef::Evidence(receipt.id)),
        few_observed(after, query),
        after.recall_citations(query, excluded) == MemoryResult::Ok(citations),
        citations.len() < query.limit,
    ensures
        exists|i: int|
            0 <= i < citations.len() && (#[trigger] citations[i]).record == RecordRef::Evidence(receipt.id)
                && citations[i].text == input.text,
{
    capturing_files_the_text(s, operation, input, request, fresh, after, receipt);
    let citation = captured_is_recallable(s, operation, input, request, fresh, after, receipt);
    let record = RecordRef::Evidence(receipt.id);
    reveal(StoreModel::recall_candidates);
    reveal(StoreModel::records_in_observed_range);
    let filed = after.observed_keys(query.observed_from_ms, query.observed_to_ms);
    let wanted = Set::new(
        |k: TimeKey|
            (query.observed_from_ms matches Some(from) ==> from <= k.observed_at_ms) && (query.observed_to_ms matches Some(
                to,
            ) ==> k.observed_at_ms < to),
    );
    assert(filed =~= after.time_index.dom().intersect(wanted));
    in_order_lists(filed);
    let keys = in_order(filed);
    let key = TimeKey { observed_at_ms: input.temporal.observed_at_ms, record };
    assert(filed.contains(key));
    assert(keys.contains(key));
    let at = choose|at: int| 0 <= at < keys.len() && keys[at] == key;
    let records = records_observed(keys);
    assert(records[keys.len() - 1 - at] == record);
    considered_keeps(records, excluded, records.len(), keys.len() - 1 - at);
    let found = after.records_in_observed_range(
        query.observed_from_ms,
        query.observed_to_ms,
        MAX_RECALL_CANDIDATES,
        excluded,
    );
    let place = choose|i: int| 0 <= i < found.len() && found[i] == record;
    present_keep(found, found.len(), place);
    candidates_are_answered(after, query, excluded, record, citation, citations);
    recallable_names_itself(after, record, citation);
    let told = as_matched(citation, after.recall_candidates(query, excluded)[record]);
    let i = choose|i: int| 0 <= i < citations.len() && #[trigger] citations[i] == told;
    assert(citations[i].record == record);
}

/// Recalling changes nothing of a store but that the case of the recall is kept.
pub proof fn recalls_change_nothing_else(
    s: StoreModel,
    input: RecallQueryModel,
    excluded: Option<RecordRef>,
    request: Seq<u8>,
    fresh: FreshModel,
    after: StoreModel,
    result: RecallResultModel,
)
    requires
        s.recall(input, excluded, request, fresh) == MemoryResult::Ok((after, result)),
    ensures
        after == (StoreModel { recall_cases: after.recall_cases, ..s }),
        forall|id: RecallCaseId|
            id != result.case_id ==> #[trigger] lookup(after.recall_cases, id) == lookup(s.recall_cases, id),
{
    reveal(StoreModel::put);
}

/// A turn is not answered with what opened it.
pub proof fn turns_do_not_recall_themselves(
    before: StoreModel,
    after: StoreModel,
    answer: BeginTurnRecallResultModel,
    operation: OperationContext,
    evidence: NewEvidenceModel,
    evidence_request: Seq<u8>,
    query: RecallQueryModel,
    query_request: Seq<u8>,
    first: FreshModel,
    second: FreshModel,
)
    requires
        turn_opened(
            before,
            after,
            MemoryResult::Ok(answer),
            operation,
            evidence,
            evidence_request,
            query,
            query_request,
            first,
            second,
        ),
    ensures
        forall|i: int|
            0 <= i < answer.recall.citations.len() ==> (#[trigger] answer.recall.citations[i]).record
                != RecordRef::Evidence(answer.evidence.id),
{
    let (between, receipt) = before.capture_evidence(operation, evidence, evidence_request, first)->Ok_0;
    let excluded = Some(RecordRef::Evidence(receipt.id));
    let sound = sound_query(query)->Ok_0;
    let citations = answer.recall.citations;
    assert(between.recall_citations(sound, excluded) == MemoryResult::Ok(citations));
    citations_are_current(between, sound, excluded, citations);
    assert forall|i: int| 0 <= i < citations.len() implies (#[trigger] citations[i]).record != RecordRef::Evidence(
        answer.evidence.id,
    ) by {
        assert(is_current(between, sound, excluded, citations[i]));
    }
}

} // verus!
