//! Recall: which records answer a query, in what order, and the case that is kept of it.
use vstd::prelude::*;
use crate::clock::{Fresh, FreshModel};
use crate::context::{OperationContext, TemporalFacts};
use crate::digest::{EXACT_DOMAIN, QUERY_DOMAIN, TERM_DOMAIN, index_digest, index_hash};
use crate::fault::{InputFault, MemoryError, MemoryResult, invalid};
use crate::ids::{ArtifactPassageId, EvidenceId, RecallCaseId, Ulid};
use crate::inspect::{lookup, shown, shown_list, shown_option};
use crate::keys::{
    PostingKey, TimeKey, digest_rank_fits, id_span, record_span, storage_rank, storage_rank_fits,
};
use crate::lawyer::citable;
use crate::order::{Keyed, in_order, in_order_is_unique, lists, sorted_distinct};
use crate::records::evidence::{
    Actor, EvidenceClass, EvidenceRecordModel, NewEvidence, NewEvidenceModel, RecordRef,
    RecordState, Scope,
};
use crate::records::recall::{
    BeginTurnRecallResult, BeginTurnRecallResultModel, RecallCase, RecallCaseCandidate,
    RecallCaseModel, RecallCitation, RecallCitationModel, RecallEvidenceCitation, RecallQuery,
    RecallQueryModel, RecallResult, RecallResultModel,
};
use crate::staging::{Planned, commits, plans};
use crate::store::{Batch, MemoryDatabase, StoreModel, Write, WriteModel};
use crate::table::{Replica, Table, opt_view, views};
use crate::text::{byte_len, exact_form, normalize_exact, terms, text_bytes, tokenize, utf8};
use crate::wordlist::{
    enter_text, entered, entered_grows, entered_is_in_order, text_before, text_before_is_total,
    text_before_is_transitive, texts_in_order,
};

verus! {

pub const MAX_RECALL_LIMIT: usize = 100;

pub const MAX_RECALL_TERMS: usize = 64;

pub const MAX_RECALL_CANDIDATES: usize = 4_096;

pub const MAX_RECALL_SCOPES: usize = 32;

pub const MAX_RECALL_QUERY_BYTES: usize = 32_768;

pub open spec fn scope_tag(scope: Scope) -> u8 {
    match scope {
        Scope::Personal => 0,
        Scope::Workspace(_) => 1,
        Scope::Session(_) => 2,
        Scope::Artifact(_) => 3,
        Scope::System => 4,
    }
}

pub open spec fn scope_id(scope: Scope) -> Ulid {
    match scope {
        Scope::Workspace(id) => id,
        Scope::Session(id) => id,
        Scope::Artifact(id) => id,
        _ => Ulid(0),
    }
}

/// Scopes are listed by kind, then by identifier.
impl Keyed for Scope {
    open spec fn rank(&self) -> int {
        scope_tag(*self) * id_span() + scope_id(*self).0
    }

    proof fn rank_is_injective(a: &Self, b: &Self) {
    }

    fn before(&self, other: &Self) -> (r: bool) {
        let (a, x): (u8, u128) = scope_parts(*self);
        let (b, y): (u8, u128) = scope_parts(*other);
        if a < b {
            true
        } else if b < a {
            false
        } else {
            x < y
        }
    }
}

fn scope_parts(scope: Scope) -> (r: (u8, u128))
    ensures
        r.0 == scope_tag(scope),
        r.1 == scope_id(scope).0,
{
    match scope {
        Scope::Personal => (0, 0),
        Scope::Workspace(id) => (1, id.0),
        Scope::Session(id) => (2, id.0),
        Scope::Artifact(id) => (3, id.0),
        Scope::System => (4, 0),
    }
}

/// What a record answered of a query.
#[derive(Clone, Copy, Debug, PartialEq, Eq, Structural)]
pub struct CandidateMatch {
    pub exact: bool,
    pub matched_terms: u32,
}

impl View for CandidateMatch {
    type V = CandidateMatch;

    open spec fn view(&self) -> CandidateMatch {
        *self
    }
}

/// Where a citation stands among the others: exact matches first, then those of more
/// terms, then the most recently observed; the record decides between the rest.
#[derive(Clone, Copy, Debug, PartialEq, Eq, Structural)]
pub struct CitationPlace {
    pub exact: bool,
    pub matched_terms: u32,
    pub observed_at_ms: i64,
    pub record: RecordRef,
}

impl Keyed for CitationPlace {
    open spec fn rank(&self) -> int {
        (((if self.exact { 0int } else { 1int }) * 0x1_0000_0000int + (u32::MAX - self.matched_terms))
            * 0x1_0000_0000_0000_0000int + (i64::MAX - self.observed_at_ms)) * record_span() + self.record.rank()
    }

    proof fn rank_is_injective(a: &Self, b: &Self) {
        listing_rank_fits(a.record);
        listing_rank_fits(b.record);
        RecordRef::rank_is_injective(&a.record, &b.record);
    }

    fn before(&self, other: &Self) -> (r: bool) {
        proof {
            listing_rank_fits(self.record);
            listing_rank_fits(other.record);
        }
        if self.exact != other.exact {
            self.exact
        } else if self.matched_terms != other.matched_terms {
            self.matched_terms > other.matched_terms
        } else if self.observed_at_ms != other.observed_at_ms {
            self.observed_at_ms > other.observed_at_ms
        } else {
            self.record.before(&other.record)
        }
    }
}

proof fn listing_rank_fits(record: RecordRef)
    ensures
        0 <= record.rank() < record_span(),
{
}

/// The first distinct terms among the first `n`, in order, as many as recall uses.
pub open spec fn first_terms(terms: Seq<Seq<char>>, n: nat) -> Seq<Seq<char>>
    decreases n,
{
    if n == 0 {
        Seq::empty()
    } else {
        let grown = entered(first_terms(terms, (n - 1) as nat), terms[n - 1]);
        if grown.len() > MAX_RECALL_TERMS {
            grown.drop_last()
        } else {
            grown
        }
    }
}

/// The terms by which a query is answered.
#[verifier::opaque]
pub open spec fn query_terms(text: Seq<char>) -> Seq<Seq<char>> {
    first_terms(terms(text), terms(text).len())
}

/// The terms of a query are the least of the distinct terms of its text: they are in
/// order, each is a term of the text, and a term that is left out comes after all of them,
/// which are then as many as recall uses.
pub proof fn query_terms_are_least(text: Seq<char>, term: Seq<char>)
    ensures
        texts_in_order(query_terms(text)),
        query_terms(text).len() <= MAX_RECALL_TERMS,
        query_terms(text).contains(term) ==> terms(text).contains(term),
        terms(text).contains(term) && !query_terms(text).contains(term) ==> query_terms(text).len()
            == MAX_RECALL_TERMS && forall|i: int|
            0 <= i < query_terms(text).len() ==> text_before(#[trigger] query_terms(text)[i], term),
{
    reveal(query_terms);
    first_terms_are_least(terms(text), terms(text).len(), term);
    let all = terms(text);
    if all.contains(term) {
        let k = choose|k: int| 0 <= k < all.len() && all[k] == term;
        assert(all.take(all.len() as int)[k] == term);
    }
}

proof fn first_terms_are_least(all: Seq<Seq<char>>, n: nat, term: Seq<char>)
    requires
        n <= all.len(),
    ensures
        texts_in_order(first_terms(all, n)),
        first_terms(all, n).len() <= MAX_RECALL_TERMS,
        first_terms(all, n).contains(term) ==> all.take(n as int).contains(term),
        all.take(n as int).contains(term) && !first_terms(all, n).contains(term) ==> first_terms(all, n).len()
            == MAX_RECALL_TERMS && forall|i: int|
            0 <= i < first_terms(all, n).len() ==> text_before(#[trigger] first_terms(all, n)[i], term),
    decreases n,
{
    if n > 0 {
        let before = first_terms(all, (n - 1) as nat);
        let latest = all[n - 1];
        first_terms_are_least(all, (n - 1) as nat, term);
        entered_is_in_order(before, latest);
        entered_grows(before, latest);
        let grown = entered(before, latest);
        let r = first_terms(all, n);
        let shown = all.take(n as int);
        let hidden = all.take(n - 1);
        assert(shown =~= hidden.push(latest));
        assert(shown[n - 1] == latest);
        assert forall|i: int| 0 <= i < r.len() implies #[trigger] r[i] == grown[i] by {
        }
        assert forall|i: int, j: int| 0 <= i < j < r.len() implies text_before(#[trigger] r[i], #[trigger] r[j]) by {
            assert(text_before(grown[i], grown[j]));
        }
        if r.contains(term) {
            let p = choose|p: int| 0 <= p < r.len() && r[p] == term;
            assert(grown[p] == term);
            assert(grown.contains(term));
            if term != latest {
                let k = choose|k: int| 0 <= k < hidden.len() && hidden[k] == term;
                assert(shown[k] == term);
            }
        } else if shown.contains(term) {
            if term != latest {
                let k = choose|k: int| 0 <= k < shown.len() && shown[k] == term;
                assert(hidden[k] == term);
            }
            if grown.contains(term) {
                let p = choose|p: int| 0 <= p < grown.len() && grown[p] == term;
                if p < r.len() {
                    assert(r[p] == term);
                }
                assert forall|i: int| 0 <= i < r.len() implies text_before(#[trigger] r[i], term) by {
                    assert(text_before(grown[i], grown[p]));
                }
            } else {
                assert(!before.contains(term));
                assert(grown.contains(latest));
                assert forall|i: int| 0 <= i < r.len() implies text_before(#[trigger] r[i], term) by {
                    assert(grown.contains(grown[i]));
                    if before.contains(r[i]) {
                        let q = choose|q: int| 0 <= q < before.len() && before[q] == r[i];
                        assert(text_before(before[q], term));
                    } else {
                        assert(r[i] == latest);
                        let last = grown[MAX_RECALL_TERMS as int];
                        assert(grown.len() == MAX_RECALL_TERMS + 1);
                        assert(text_before(grown[i], last));
                        text_before_is_total(grown[i], last);
                        assert(grown.contains(last));
                        assert(before.contains(last));
                        let q = choose|q: int| 0 <= q < before.len() && before[q] == last;
                        assert(text_before(before[q], term));
                        text_before_is_transitive(grown[i], last, term);
                    }
                }
            }
        }
    }
}

fn terms_of_query(text: &str) -> (r: Vec<String>)
    ensures
        views(r@) == query_terms(text@),
        r@.len() <= MAX_RECALL_TERMS,
{
    reveal(query_terms);
    let tokens = tokenize(text);
    let ghost all = terms(text@);
    let mut r: Vec<String> = Vec::new();
    assert(views(r@) =~= Seq::<Seq<char>>::empty());
    assert(views(tokens@).len() == tokens@.len());
    for i in 0..tokens.len()
        invariant
            views(tokens@) == all,
            views(tokens@).len() == tokens@.len(),
            r@.len() <= MAX_RECALL_TERMS,
            views(r@) == first_terms(all, i as nat),
    {
        assert(views(tokens@)[i as int] == tokens@[i as int]@);
        enter_text(&mut r, tokens[i].clone());
        assert(views(r@).len() == r@.len());
        if r.len() > MAX_RECALL_TERMS {
            let ghost full = r@;
            r.pop();
            assert(views(r@) =~= views(full).drop_last());
        }
    }
    r
}

/// The records that keys of an index of terms name.
pub open spec fn records_posted(keys: Seq<PostingKey>) -> Seq<RecordRef> {
    Seq::new(keys.len(), |i: int| keys[i].record)
}

/// The records that keys of the index of instants name, the latest first.
pub open spec fn records_observed(keys: Seq<TimeKey>) -> Seq<RecordRef> {
    Seq::new(keys.len(), |i: int| keys[keys.len() - 1 - i].record)
}

/// The first of the first `n` records without the excluded one, up to a limit; there is
/// none if the limit is zero.
pub open spec fn considered(records: Seq<RecordRef>, excluded: Option<RecordRef>, limit: usize, n: nat) -> Seq<
    RecordRef,
>
    decreases n,
{
    if n == 0 {
        Seq::empty()
    } else {
        let before = considered(records, excluded, limit, (n - 1) as nat);
        if (limit > 0 && before.len() == limit) || Some(records[n - 1]) == excluded {
            before
        } else {
            before.push(records[n - 1])
        }
    }
}

fn consider(records: &Vec<RecordRef>, excluded: Option<RecordRef>, limit: usize) -> (r: Vec<RecordRef>)
    ensures
        r@ == considered(records@, excluded, limit, records@.len()),
        limit > 0 ==> r@.len() <= limit,
{
    let mut r: Vec<RecordRef> = Vec::new();
    for i in 0..records.len()
        invariant
            r@ == considered(records@, excluded, limit, i as nat),
            limit > 0 ==> r@.len() <= limit,
    {
        let barred = match excluded {
            Some(record) => record == records[i],
            None => false,
        };
        if (limit == 0 || r.len() != limit) && !barred {
            r.push(records[i]);
        }
    }
    r
}

/// The first `n` records as exact matches.
pub open spec fn exactly_matched(records: Seq<RecordRef>, n: nat) -> Map<RecordRef, CandidateMatch>
    decreases n,
{
    if n == 0 {
        Map::empty()
    } else {
        exactly_matched(records, (n - 1) as nat).insert(
            records[n - 1],
            CandidateMatch { exact: true, matched_terms: 0 },
        )
    }
}

/// The first `n` records as candidates of no match.
pub open spec fn merely_present(records: Seq<RecordRef>, n: nat) -> Map<RecordRef, CandidateMatch>
    decreases n,
{
    if n == 0 {
        Map::empty()
    } else {
        merely_present(records, (n - 1) as nat).insert(
            records[n - 1],
            CandidateMatch { exact: false, matched_terms: 0 },
        )
    }
}

/// Candidates with one more matched term for each of the first `n` records. A record that
/// is new enters only while there is room.
pub open spec fn counted(candidates: Map<RecordRef, CandidateMatch>, records: Seq<RecordRef>, n: nat) -> Map<
    RecordRef,
    CandidateMatch,
>
    decreases n,
{
    if n == 0 {
        candidates
    } else {
        let before = counted(candidates, records, (n - 1) as nat);
        let record = records[n - 1];
        match lookup(before, record) {
            Some(found) => before.insert(
                record,
                CandidateMatch { matched_terms: (found.matched_terms + 1) as u32, ..found },
            ),
            None => if before.dom().len() >= MAX_RECALL_CANDIDATES {
                before
            } else {
                before.insert(record, CandidateMatch { exact: false, matched_terms: 1 })
            },
        }
    }
}

/// A query as it is answered, or why it is not.
#[verifier::opaque]
pub open spec fn sound_query(query: RecallQueryModel) -> MemoryResult<RecallQueryModel> {
    let scopes = in_order(query.scopes.to_set());
    if scopes.len() == 0 {
        invalid(InputFault::RecallWithoutScope)
    } else if scopes.len() > MAX_RECALL_SCOPES {
        invalid(InputFault::RecallScopeCount)
    } else if query.observed_from_ms is Some && query.observed_to_ms is Some && query.observed_from_ms->Some_0
        >= query.observed_to_ms->Some_0 {
        invalid(InputFault::ObservedTimeInterval)
    } else if utf8(query.text).len() > MAX_RECALL_QUERY_BYTES {
        invalid(InputFault::RecallQueryBytes)
    } else if exact_form(query.text).len() == 0 && query.observed_from_ms is None && query.observed_to_ms is None {
        invalid(InputFault::RecallWithoutCue)
    } else {
        Ok(
            RecallQueryModel {
                scopes,
                limit: if query.limit <= MAX_RECALL_LIMIT {
                    query.limit
                } else {
                    MAX_RECALL_LIMIT
                },
                ..query
            },
        )
    }
}

/// The query as it is answered, with its scopes in order and its limit in bounds.
pub fn normalize_recall(query: &RecallQuery) -> (r: MemoryResult<RecallQuery>)
    ensures
        shown(r) == sound_query(query@),
{
    reveal(sound_query);
    let scopes = sorted_distinct(&query.scopes);
    if scopes.len() == 0 {
        return Err(MemoryError::InvalidInput(InputFault::RecallWithoutScope));
    }
    if scopes.len() > MAX_RECALL_SCOPES {
        return Err(MemoryError::InvalidInput(InputFault::RecallScopeCount));
    }
    if let Some(from) = query.observed_from_ms {
        if let Some(to) = query.observed_to_ms {
            if from >= to {
                return Err(MemoryError::InvalidInput(InputFault::ObservedTimeInterval));
            }
        }
    }
    if byte_len(query.text.as_str()) > MAX_RECALL_QUERY_BYTES {
        return Err(MemoryError::InvalidInput(InputFault::RecallQueryBytes));
    }
    let cue = normalize_exact(query.text.as_str());
    if cue.as_str().is_empty() && query.observed_from_ms.is_none() && query.observed_to_ms.is_none() {
        return Err(MemoryError::InvalidInput(InputFault::RecallWithoutCue));
    }
    let limit: usize = if query.limit <= MAX_RECALL_LIMIT {
        query.limit
    } else {
        MAX_RECALL_LIMIT
    };
    Ok(
        RecallQuery {
            text: query.text.clone(),
            scopes,
            observed_from_ms: query.observed_from_ms,
            observed_to_ms: query.observed_to_ms,
            valid_at_ms: query.valid_at_ms,
            limit,
        },
    )
}

/// Whether a citation lies where a query looks.
pub open spec fn within(query: RecallQueryModel, citation: RecallCitationModel) -> bool {
    &&& query.scopes.contains(citation.scope)
    &&& match query.observed_from_ms {
        Some(from) => from <= citation.temporal.observed_at_ms,
        None => true,
    }
    &&& match query.observed_to_ms {
        Some(to) => citation.temporal.observed_at_ms < to,
        None => true,
    }
    &&& match query.valid_at_ms {
        Some(at) => citation.temporal.valid_at(at),
        None => true,
    }
}

fn lies_within(query: &RecallQuery, citation: &RecallCitation) -> (r: bool)
    ensures
        r == within(query@, citation@),
{
    let observed: i64 = citation.temporal.observed_at_ms;
    if let Some(from) = query.observed_from_ms {
        if observed < from {
            return false;
        }
    }
    if let Some(to) = query.observed_to_ms {
        if observed >= to {
            return false;
        }
    }
    if let Some(at) = query.valid_at_ms {
        if !citation.temporal.contains_valid_time(at) {
            return false;
        }
    }
    for i in 0..query.scopes.len()
        invariant
            forall|j: int| 0 <= j < i ==> query.scopes@[j] != citation.scope,
            observed == citation.temporal.observed_at_ms,
            query.observed_from_ms is Some ==> query.observed_from_ms->Some_0 <= observed,
            query.observed_to_ms is Some ==> observed < query.observed_to_ms->Some_0,
            query.valid_at_ms is Some ==> citation.temporal.valid_at(query.valid_at_ms->Some_0),
    {
        if query.scopes[i] == citation.scope {
            return true;
        }
    }
    false
}

/// Where a citation stands.
pub open spec fn citation_place(citation: RecallCitationModel) -> CitationPlace {
    CitationPlace {
        exact: citation.exact_match,
        matched_terms: citation.matched_term_count,
        observed_at_ms: citation.temporal.observed_at_ms,
        record: citation.record,
    }
}

/// Citations in the order of their places.
pub open spec fn citations_in_order(found: Map<CitationPlace, RecallCitationModel>) -> Seq<RecallCitationModel> {
    Seq::new(in_order(found.dom()).len(), |i: int| found[in_order(found.dom())[i]])
}

/// The structural trace of citations.
pub open spec fn case_candidates(citations: Seq<RecallCitationModel>) -> Seq<RecallCaseCandidate> {
    Seq::new(
        citations.len(),
        |i: int|
            RecallCaseCandidate {
                record: citations[i].record,
                revision: citations[i].revision,
                rank: i as u32,
                exact_match: citations[i].exact_match,
                matched_term_count: citations[i].matched_term_count,
            },
    )
}

impl StoreModel {
    /// The keys that file records under a digest.
    pub open spec fn posting_keys(self, domain: u8, hash: [u8; 32]) -> Set<PostingKey> {
        Set::new(|k: PostingKey| self.lexical_postings.contains_key(k) && k.domain == domain && k.hash == hash)
    }

    /// The records that are filed under a digest, as far as recall considers them.
    #[verifier::opaque]
    pub open spec fn posting_records(self, domain: u8, hash: [u8; 32], excluded: Option<RecordRef>) -> Seq<RecordRef> {
        let records = records_posted(in_order(self.posting_keys(domain, hash)));
        considered(records, excluded, MAX_RECALL_CANDIDATES, records.len())
    }

    /// The keys that file records under an instant of a range.
    pub open spec fn observed_keys(self, from_ms: Option<i64>, to_ms: Option<i64>) -> Set<TimeKey> {
        Set::new(
            |k: TimeKey|
                self.time_index.contains_key(k) && (from_ms matches Some(from) ==> from <= k.observed_at_ms) && (
                to_ms matches Some(to) ==> k.observed_at_ms < to),
        )
    }

    /// The records that were observed in a range, the latest first, up to a limit.
    #[verifier::opaque]
    pub open spec fn records_in_observed_range(
        self,
        from_ms: Option<i64>,
        to_ms: Option<i64>,
        limit: usize,
        excluded: Option<RecordRef>,
    ) -> Seq<RecordRef> {
        let records = records_observed(in_order(self.observed_keys(from_ms, to_ms)));
        considered(records, excluded, limit, records.len())
    }

    /// The candidates that match a text exactly, or by one of the first `n` terms.
    pub open spec fn term_matched(
        self,
        text: Seq<char>,
        terms: Seq<Seq<char>>,
        excluded: Option<RecordRef>,
        n: nat,
    ) -> Map<RecordRef, CandidateMatch>
        decreases n,
    {
        if n == 0 {
            let records = self.posting_records(
                EXACT_DOMAIN,
                index_digest(self.digest_key@, EXACT_DOMAIN, utf8(exact_form(text))),
                excluded,
            );
            exactly_matched(records, records.len())
        } else {
            let records = self.posting_records(
                TERM_DOMAIN,
                index_digest(self.digest_key@, TERM_DOMAIN, utf8(terms[n - 1])),
                excluded,
            );
            counted(self.term_matched(text, terms, excluded, (n - 1) as nat), records, records.len())
        }
    }

    /// The candidates that a query has: by its text, or where it has none by its instants.
    #[verifier::opaque]
    pub open spec fn recall_candidates(self, query: RecallQueryModel, excluded: Option<RecordRef>) -> Map<
        RecordRef,
        CandidateMatch,
    > {
        if exact_form(query.text).len() > 0 {
            let terms = query_terms(query.text);
            self.term_matched(query.text, terms, excluded, terms.len())
        } else {
            let records = self.records_in_observed_range(
                query.observed_from_ms,
                query.observed_to_ms,
                MAX_RECALL_CANDIDATES,
                excluded,
            );
            merely_present(records, records.len())
        }
    }

    /// Whether evidence can be cited.
    pub open spec fn citable(evidence: EvidenceRecordModel) -> bool {
        &&& evidence.availability.state == RecordState::Active
        &&& evidence.text is Some
        &&& evidence.header.class != EvidenceClass::AssistantUtterance
    }

    /// The citations of the first `n` pieces of evidence, if all can be cited.
    pub open spec fn recall_evidence_truth(self, ids: Seq<EvidenceId>, n: nat) -> MemoryResult<
        Option<Seq<RecallEvidenceCitation>>,
    >
        decreases n,
    {
        if n == 0 {
            Ok(Some(Seq::empty()))
        } else {
            match self.recall_evidence_truth(ids, (n - 1) as nat) {
                Err(error) => Err(error),
                Ok(None) => Ok(None),
                Ok(Some(before)) => match self.inspect_evidence(ids[n - 1]) {
                    Err(error) => Err(error),
                    Ok(None) => Ok(None),
                    Ok(Some(evidence)) => if Self::citable(evidence) {
                        Ok(
                            Some(
                                before.push(
                                    RecallEvidenceCitation {
                                        id: ids[n - 1],
                                        revision: evidence.availability.revision,
                                        class: evidence.header.class,
                                        lifecycle: evidence.header.lifecycle,
                                        artifact: lookup(self.artifact_by_evidence, ids[n - 1]),
                                    },
                                ),
                            ),
                        )
                    } else {
                        Ok(None)
                    },
                },
            }
        }
    }

    /// A record as it is cited, if recall may cite it: evidence of anything but an
    /// assistant's utterance, and claims and entities all of whose evidence can be cited.
    #[verifier::opaque]
    pub open spec fn recallable_record(self, record: RecordRef) -> MemoryResult<Option<RecallCitationModel>> {
        match record {
            RecordRef::Evidence(id) => match self.inspect_evidence(id) {
                Err(error) => Err(error),
                Ok(None) => Ok(None),
                Ok(Some(evidence)) => if !Self::citable(evidence) {
                    Ok(None)
                } else {
                    Ok(
                        Some(
                            RecallCitationModel {
                                record,
                                revision: evidence.availability.revision,
                                scope: evidence.header.scope,
                                temporal: evidence.header.temporal,
                                evidence_ids: seq![id],
                                evidence: seq![
                                    RecallEvidenceCitation {
                                        id,
                                        revision: evidence.availability.revision,
                                        class: evidence.header.class,
                                        lifecycle: evidence.header.lifecycle,
                                        artifact: lookup(self.artifact_by_evidence, id),
                                    },
                                ],
                                text: evidence.text->Some_0,
                                exact_match: false,
                                matched_term_count: 0,
                            },
                        ),
                    )
                },
            },
            RecordRef::Claim(id) => match self.inspect_claim(id) {
                Err(error) => Err(error),
                Ok(None) => Ok(None),
                Ok(Some(claim)) => self.supported_citation(
                    record,
                    claim.header.state,
                    claim.header.revision,
                    claim.header.scope,
                    claim.header.temporal,
                    claim.header.evidence_ids,
                    claim.proposition,
                ),
            },
            RecordRef::Entity(id) => match self.inspect_entity(id) {
                Err(error) => Err(error),
                Ok(None) => Ok(None),
                Ok(Some(entity)) => self.supported_citation(
                    record,
                    entity.header.state,
                    entity.header.revision,
                    entity.header.scope,
                    entity.header.temporal,
                    entity.header.evidence_ids,
                    entity.canonical_name,
                ),
            },
            _ => Ok(None),
        }
    }

    /// The citation of a record that rests on evidence.
    pub open spec fn supported_citation(
        self,
        record: RecordRef,
        state: RecordState,
        revision: u64,
        scope: Scope,
        temporal: TemporalFacts,
        evidence_ids: Seq<EvidenceId>,
        text: Option<Seq<char>>,
    ) -> MemoryResult<Option<RecallCitationModel>> {
        if state != RecordState::Active || text is None {
            Ok(None)
        } else {
            match self.recall_evidence_truth(evidence_ids, evidence_ids.len()) {
                Err(error) => Err(error),
                Ok(None) => Ok(None),
                Ok(Some(evidence)) => Ok(
                    Some(
                        RecallCitationModel {
                            record,
                            revision,
                            scope,
                            temporal,
                            evidence_ids,
                            evidence,
                            text: text->Some_0,
                            exact_match: false,
                            matched_term_count: 0,
                        },
                    ),
                ),
            }
        }
    }

    /// The citations among the first `n` records, by their places.
    pub open spec fn cited(
        self,
        query: RecallQueryModel,
        candidates: Map<RecordRef, CandidateMatch>,
        records: Seq<RecordRef>,
        n: nat,
    ) -> MemoryResult<Map<CitationPlace, RecallCitationModel>>
        decreases n,
    {
        if n == 0 {
            Ok(Map::empty())
        } else {
            match self.cited(query, candidates, records, (n - 1) as nat) {
                Err(error) => Err(error),
                Ok(before) => match self.recallable_record(records[n - 1]) {
                    Err(error) => Err(error),
                    Ok(None) => Ok(before),
                    Ok(Some(citation)) => if !within(query, citation) {
                        Ok(before)
                    } else {
                        let matched = candidates[records[n - 1]];
                        let ranked = RecallCitationModel {
                            exact_match: matched.exact,
                            matched_term_count: matched.matched_terms,
                            ..citation
                        };
                        Ok(before.insert(citation_place(ranked), ranked))
                    },
                },
            }
        }
    }

    /// The citations that answer a query, at most as many as it asks for.
    #[verifier::opaque]
    pub open spec fn recall_citations(self, query: RecallQueryModel, excluded: Option<RecordRef>) -> MemoryResult<
        Seq<RecallCitationModel>,
    > {
        let candidates = self.recall_candidates(query, excluded);
        let records = in_order(candidates.dom());
        match self.cited(query, candidates, records, records.len()) {
            Err(error) => Err(error),
            Ok(found) => {
                let all = citations_in_order(found);
                Ok(
                    if all.len() <= query.limit {
                        all
                    } else {
                        all.take(query.limit as int)
                    },
                )
            },
        }
    }

    /// Recalling what answers a query, with a case kept of it.
    pub open spec fn recall(
        self,
        input: RecallQueryModel,
        excluded: Option<RecordRef>,
        request: Seq<u8>,
        fresh: FreshModel,
    ) -> MemoryResult<(StoreModel, RecallResultModel)> {
        match sound_query(input) {
            Err(error) => Err(error),
            Ok(query) => match self.recall_citations(query, excluded) {
                Err(error) => Err(error),
                Ok(citations) => {
                    let case_id = RecallCaseId(fresh.ids[0]);
                    Ok(
                        (
                            self.put(
                                WriteModel::PutRecallCase(
                                    case_id,
                                    RecallCaseModel {
                                        id: case_id,
                                        revision: 1,
                                        era_id: self.era_id,
                                        query_digest: index_digest(self.digest_key@, QUERY_DOMAIN, request),
                                        scopes: query.scopes,
                                        candidates: case_candidates(citations),
                                        recorded_at_ms: fresh.recorded_at_ms,
                                    },
                                ),
                            ),
                            RecallResultModel { case_id, citations },
                        ),
                    )
                },
            },
        }
    }
}

proof fn evidence_truth_settles(s: StoreModel, ids: Seq<EvidenceId>, n: nat, m: nat)
    requires
        n <= m,
        s.recall_evidence_truth(ids, n) is Err || s.recall_evidence_truth(ids, n)->Ok_0 is None,
    ensures
        s.recall_evidence_truth(ids, m) == s.recall_evidence_truth(ids, n),
    decreases m,
{
    if n < m {
        evidence_truth_settles(s, ids, n, (m - 1) as nat);
    }
}

proof fn cited_refusal_persists(
    s: StoreModel,
    query: RecallQueryModel,
    candidates: Map<RecordRef, CandidateMatch>,
    records: Seq<RecordRef>,
    n: nat,
    m: nat,
)
    requires
        n <= m,
        s.cited(query, candidates, records, n) is Err,
    ensures
        s.cited(query, candidates, records, m) == s.cited(query, candidates, records, n),
    decreases m,
{
    if n < m {
        cited_refusal_persists(s, query, candidates, records, n, (m - 1) as nat);
    }
}

fn count_term(
    candidates: &mut Table<RecordRef, CandidateMatch>,
    records: &Vec<RecordRef>,
    Ghost(bound): Ghost<int>,
)
    requires
        records@.len() <= MAX_RECALL_CANDIDATES,
        0 <= bound <= 0x1000_0000,
        forall|k: RecordRef| #[trigger]
            old(candidates)@.contains_key(k) ==> old(candidates)@[k].matched_terms <= bound,
    ensures
        final(candidates)@ == counted(old(candidates)@, records@, records@.len()),
        forall|k: RecordRef| #[trigger]
            final(candidates)@.contains_key(k) ==> final(candidates)@[k].matched_terms <= bound
                + MAX_RECALL_CANDIDATES,
{
    for i in 0..records.len()
        invariant
            records@.len() <= MAX_RECALL_CANDIDATES,
            0 <= bound <= 0x1000_0000,
            candidates@ == counted(old(candidates)@, records@, i as nat),
            forall|k: RecordRef| #[trigger]
                candidates@.contains_key(k) ==> candidates@[k].matched_terms <= bound + i,
    {
        let record = records[i];
        let found: Option<CandidateMatch> = match candidates.get(&record) {
            Some(found) => Some(*found),
            None => None,
        };
        match found {
            Some(found) => {
                candidates.insert(
                    record,
                    CandidateMatch { exact: found.exact, matched_terms: found.matched_terms + 1 },
                );
            },
            None => {
                if candidates.len() < MAX_RECALL_CANDIDATES {
                    candidates.insert(record, CandidateMatch { exact: false, matched_terms: 1 });
                }
            },
        }
    }
}

impl MemoryDatabase {
    fn posting_records(&self, domain: u8, hash: [u8; 32], excluded: Option<RecordRef>) -> (r: Vec<RecordRef>)
        ensures
            r@ == self@.posting_records(domain, hash, excluded),
            r@.len() <= MAX_RECALL_CANDIDATES,
    {
        reveal(StoreModel::posting_records);
        let low = PostingKey { domain, hash, record: RecordRef::Evidence(EvidenceId(Ulid(0))) };
        let high = PostingKey {
            domain,
            hash,
            record: RecordRef::ArtifactPassage(ArtifactPassageId(Ulid(u128::MAX))),
        };
        let keys = self.lexical_postings.scan(&low, &high);
        proof {
            posting_bounds(self@, low, high);
        }
        let mut records: Vec<RecordRef> = Vec::new();
        for i in 0..keys.len()
            invariant
                records@ == records_posted(keys@.take(i as int)),
        {
            records.push(keys[i].record);
            assert(records@ =~= records_posted(keys@.take(i + 1)));
        }
        assert(keys@.take(keys@.len() as int) =~= keys@);
        consider(&records, excluded, MAX_RECALL_CANDIDATES)
    }

    /// The records that were observed in a range, the latest first, up to a limit.
    pub fn records_in_observed_range(
        &self,
        from_ms: Option<i64>,
        to_ms: Option<i64>,
        limit: usize,
        excluded: Option<RecordRef>,
    ) -> (r: Vec<RecordRef>)
        ensures
            r@ == self@.records_in_observed_range(from_ms, to_ms, limit, excluded),
    {
        reveal(StoreModel::records_in_observed_range);
        let from: i64 = match from_ms {
            Some(from) => from,
            None => i64::MIN,
        };
        let until: Option<i64> = match to_ms {
            Some(to) => if to == i64::MIN {
                None
            } else {
                Some(to - 1)
            },
            None => Some(i64::MAX),
        };
        let until: i64 = match until {
            Some(until) => until,
            None => {
                proof {
                    let keys = self@.observed_keys(from_ms, to_ms);
                    assert(keys =~= Set::empty());
                    in_order_is_unique(Seq::<TimeKey>::empty(), keys);
                    assert(considered(records_observed(Seq::<TimeKey>::empty()), excluded, limit, 0) =~= Seq::empty());
                }
                return Vec::new();
            },
        };
        let low = TimeKey { observed_at_ms: from, record: RecordRef::Evidence(EvidenceId(Ulid(0))) };
        let high = TimeKey {
            observed_at_ms: until,
            record: RecordRef::ArtifactPassage(ArtifactPassageId(Ulid(u128::MAX))),
        };
        let keys = self.time_index.scan(&low, &high);
        proof {
            time_bounds(self@, from_ms, to_ms, low, high);
        }
        let mut records: Vec<RecordRef> = Vec::new();
        let mut at: usize = keys.len();
        while at > 0
            invariant
                at <= keys@.len(),
                records@ == records_observed(keys@).take(keys@.len() - at),
            decreases at,
        {
            at = at - 1;
            records.push(keys[at].record);
            assert(records@ =~= records_observed(keys@).take(keys@.len() - at));
        }
        assert(records@ =~= records_observed(keys@));
        consider(&records, excluded, limit)
    }

    fn matched_by_terms(&self, query: &RecallQuery, excluded: Option<RecordRef>) -> (r: Table<
        RecordRef,
        CandidateMatch,
    >)
        ensures
            r@ == self@.term_matched(query.text@, query_terms(query.text@), excluded, query_terms(query.text@).len()),
    {
        let exact = normalize_exact(query.text.as_str());
        let hash = index_hash(&self.digest_key, EXACT_DOMAIN, text_bytes(exact.as_str()));
        let records = self.posting_records(EXACT_DOMAIN, hash, excluded);
        let mut candidates: Table<RecordRef, CandidateMatch> = Table::new();
        for i in 0..records.len()
            invariant
                candidates@ == exactly_matched(records@, i as nat),
                forall|k: RecordRef| #[trigger]
                    candidates@.contains_key(k) ==> candidates@[k].matched_terms == 0,
        {
            candidates.insert(records[i], CandidateMatch { exact: true, matched_terms: 0 });
        }
        let wanted = terms_of_query(query.text.as_str());
        let ghost all = query_terms(query.text@);
        assert(views(wanted@).len() == wanted@.len());
        for i in 0..wanted.len()
            invariant
                views(wanted@) == all,
                views(wanted@).len() == wanted@.len(),
                wanted@.len() <= MAX_RECALL_TERMS,
                candidates@ == self@.term_matched(query.text@, all, excluded, i as nat),
                forall|k: RecordRef| #[trigger]
                    candidates@.contains_key(k) ==> candidates@[k].matched_terms <= i * MAX_RECALL_CANDIDATES,
        {
            assert(views(wanted@)[i as int] == wanted@[i as int]@);
            let hash = index_hash(&self.digest_key, TERM_DOMAIN, text_bytes(wanted[i].as_str()));
            let records = self.posting_records(TERM_DOMAIN, hash, excluded);
            count_term(&mut candidates, &records, Ghost(i * MAX_RECALL_CANDIDATES));
        }
        candidates
    }

    fn recall_candidates(&self, query: &RecallQuery, excluded: Option<RecordRef>) -> (r: Table<
        RecordRef,
        CandidateMatch,
    >)
        ensures
            r@ == self@.recall_candidates(query@, excluded),
    {
        reveal(StoreModel::recall_candidates);
        let exact = normalize_exact(query.text.as_str());
        if !exact.as_str().is_empty() {
            return self.matched_by_terms(query, excluded);
        }
        let records = self.records_in_observed_range(
                query.observed_from_ms,
                query.observed_to_ms,
                MAX_RECALL_CANDIDATES,
                excluded,
            );
        let mut candidates: Table<RecordRef, CandidateMatch> = Table::new();
        for i in 0..records.len()
            invariant
                candidates@ == merely_present(records@, i as nat),
        {
            candidates.insert(records[i], CandidateMatch { exact: false, matched_terms: 0 });
        }
        candidates
    }

    fn recall_evidence_truth(&self, ids: &Vec<EvidenceId>) -> (r: MemoryResult<Option<Vec<RecallEvidenceCitation>>>)
        ensures
            match (r, self@.recall_evidence_truth(ids@, ids@.len())) {
                (Ok(Some(found)), Ok(Some(owed))) => found@ == owed,
                (Ok(None), Ok(None)) => true,
                (Err(error), Err(refusal)) => error == refusal,
                _ => false,
            },
    {
        let mut citations: Vec<RecallEvidenceCitation> = Vec::new();
        for i in 0..ids.len()
            invariant
                self@.recall_evidence_truth(ids@, i as nat) == Ok::<
                    Option<Seq<RecallEvidenceCitation>>,
                    MemoryError,
                >(Some(citations@)),
        {
            let id = ids[i];
            proof {
                if self@.recall_evidence_truth(ids@, (i + 1) as nat) is Err || self@.recall_evidence_truth(
                    ids@,
                    (i + 1) as nat,
                )->Ok_0 is None {
                    evidence_truth_settles(self@, ids@, (i + 1) as nat, ids@.len());
                }
            }
            let evidence = match self.inspect_evidence(id) {
                Ok(Some(evidence)) => evidence,
                Ok(None) => return Ok(None),
                Err(error) => return Err(error),
            };
            if evidence.availability.state != RecordState::Active || evidence.text.is_none()
                || evidence.header.class == EvidenceClass::AssistantUtterance {
                return Ok(None);
            }
            citations.push(
                RecallEvidenceCitation {
                    id,
                    revision: evidence.availability.revision,
                    class: evidence.header.class,
                    lifecycle: evidence.header.lifecycle,
                    artifact: self.artifact_provenance(id),
                },
            );
        }
        Ok(Some(citations))
    }

    fn supported_citation(
        &self,
        record: RecordRef,
        state: RecordState,
        revision: u64,
        scope: Scope,
        temporal: TemporalFacts,
        evidence_ids: Vec<EvidenceId>,
        text: Option<String>,
    ) -> (r: MemoryResult<Option<RecallCitation>>)
        ensures
            shown_option(r) == self@.supported_citation(
                record,
                state,
                revision,
                scope,
                temporal,
                evidence_ids@,
                opt_view(text),
            ),
    {
        if state != RecordState::Active {
            return Ok(None);
        }
        let text = match text {
            Some(text) => text,
            None => return Ok(None),
        };
        let evidence = match self.recall_evidence_truth(&evidence_ids)? {
            Some(evidence) => evidence,
            None => return Ok(None),
        };
        Ok(
            Some(
                RecallCitation {
                    record,
                    revision,
                    scope,
                    temporal,
                    evidence_ids,
                    evidence,
                    text,
                    exact_match: false,
                    matched_term_count: 0,
                },
            ),
        )
    }

    fn recallable_record(&self, record: RecordRef) -> (r: MemoryResult<Option<RecallCitation>>)
        ensures
            shown_option(r) == self@.recallable_record(record),
    {
        reveal(StoreModel::recallable_record);
        match record {
            RecordRef::Evidence(id) => {
                let evidence = match self.inspect_evidence(id)? {
                    Some(evidence) => evidence,
                    None => return Ok(None),
                };
                if evidence.availability.state != RecordState::Active || evidence.header.class
                    == EvidenceClass::AssistantUtterance {
                    return Ok(None);
                }
                let text = match evidence.text {
                    Some(text) => text,
                    None => return Ok(None),
                };
                let evidence_ids: Vec<EvidenceId> = vec![id];
                assert(evidence_ids@ =~= seq![id]);
                let cited = RecallEvidenceCitation {
                    id,
                    revision: evidence.availability.revision,
                    class: evidence.header.class,
                    lifecycle: evidence.header.lifecycle,
                    artifact: self.artifact_provenance(id),
                };
                let citations: Vec<RecallEvidenceCitation> = vec![cited];
                assert(citations@ =~= seq![cited]);
                Ok(
                    Some(
                        RecallCitation {
                            record,
                            revision: evidence.availability.revision,
                            scope: evidence.header.scope,
                            temporal: evidence.header.temporal,
                            evidence_ids,
                            evidence: citations,
                            text,
                            exact_match: false,
                            matched_term_count: 0,
                        },
                    ),
                )
            },
            RecordRef::Claim(id) => match self.inspect_claim(id)? {
                Some(claim) => self.supported_citation(
                    record,
                    claim.header.state,
                    claim.header.revision,
                    claim.header.scope,
                    claim.header.temporal,
                    claim.header.evidence_ids,
                    claim.proposition,
                ),
                None => Ok(None),
            },
            RecordRef::Entity(id) => match self.inspect_entity(id)? {
                Some(entity) => self.supported_citation(
                    record,
                    entity.header.state,
                    entity.header.revision,
                    entity.header.scope,
                    entity.header.temporal,
                    entity.header.evidence_ids,
                    entity.canonical_name,
                ),
                None => Ok(None),
            },
            _ => Ok(None),
        }
    }

    fn cite(&self, query: &RecallQuery, candidates: &Table<RecordRef, CandidateMatch>) -> (r: MemoryResult<
        Table<CitationPlace, RecallCitation>,
    >)
        ensures
            ({
                let records = in_order(candidates@.dom());
                match (r, self@.cited(query@, candidates@, records, records.len())) {
                    (Ok(found), Ok(owed)) => found@ == owed,
                    (Err(error), Err(refusal)) => error == refusal,
                    _ => false,
                }
            }),
    {
        let records = candidates.keys();
        let mut found: Table<CitationPlace, RecallCitation> = Table::new();
        for i in 0..records.len()
            invariant
                lists(records@, candidates@.dom()),
                records@ == in_order(candidates@.dom()),
                self@.cited(query@, candidates@, records@, i as nat) == Ok::<
                    Map<CitationPlace, RecallCitationModel>,
                    MemoryError,
                >(found@),
        {
            let record = records[i];
            assert(records@.contains(record));
            match self.recallable_record(record) {
                Err(error) => {
                    proof {
                        cited_refusal_persists(
                            self@,
                            query@,
                            candidates@,
                            records@,
                            (i + 1) as nat,
                            records@.len(),
                        );
                    }
                    return Err(error);
                },
                Ok(None) => {},
                Ok(Some(citation)) => {
                    if lies_within(query, &citation) {
                        if let Some(matched) = candidates.get(&record) {
                            let ranked = RecallCitation {
                                exact_match: matched.exact,
                                matched_term_count: matched.matched_terms,
                                ..citation
                            };
                            let place = CitationPlace {
                                exact: ranked.exact_match,
                                matched_terms: ranked.matched_term_count,
                                observed_at_ms: ranked.temporal.observed_at_ms,
                                record: ranked.record,
                            };
                            found.insert(place, ranked);
                        }
                    }
                },
            }
        }
        Ok(found)
    }

    fn recall_citations(&self, query: &RecallQuery, excluded: Option<RecordRef>) -> (r: MemoryResult<
        Vec<RecallCitation>,
    >)
        ensures
            shown_list(r) == self@.recall_citations(query@, excluded),
            r is Ok ==> r->Ok_0@.len() <= query.limit,
    {
        reveal(StoreModel::recall_citations);
        let candidates = self.recall_candidates(query, excluded);
        let found = self.cite(query, &candidates)?;
        let places = found.keys();
        let ghost all = citations_in_order(found@);
        let mut citations: Vec<RecallCitation> = Vec::new();
        let mut i: usize = 0;
        assert(views(citations@) =~= all.take(0));
        while i < places.len() && i < query.limit
            invariant
                i <= places@.len(),
                i <= query.limit,
                lists(places@, found@.dom()),
                places@ == in_order(found@.dom()),
                all == citations_in_order(found@),
                all.len() == places@.len(),
                views(citations@) == all.take(i as int),
                citations@.len() == i,
            decreases places@.len() - i,
        {
            assert(places@.contains(places@[i as int]));
            if let Some(citation) = found.get(&places[i]) {
                let ghost before = citations@;
                citations.push(citation.replica());
                assert(views(citations@) =~= views(before).push(citation@));
                assert(views(citations@) =~= all.take(i + 1));
            }
            i = i + 1;
        }
        assert(all.take(all.len() as int) =~= all);
        Ok(citations)
    }

    /// What recall would do with the given instant and identifier. `request` encodes the
    /// query as it is answered.
    pub fn plan_recall(
        &self,
        input: &RecallQuery,
        excluded: Option<RecordRef>,
        request: &[u8],
        fresh: &Fresh,
    ) -> (r: MemoryResult<Planned<RecallResult>>)
        requires
            fresh.ids@.len() == 1,
        ensures
            plans(self@, r, self@.recall(input@, excluded, request@, fresh@)),
    {
        let query = normalize_recall(input)?;
        proof {
            reveal(sound_query);
        }
        let citations = self.recall_citations(&query, excluded)?;
        let case_id = RecallCaseId(fresh.ids[0]);
        let mut candidates: Vec<RecallCaseCandidate> = Vec::new();
        assert(views(citations@).len() == citations@.len());
        for i in 0..citations.len()
            invariant
                citations@.len() <= MAX_RECALL_LIMIT,
                views(citations@).len() == citations@.len(),
                candidates@ == case_candidates(views(citations@)).take(i as int),
        {
            assert(views(citations@)[i as int] == citations@[i as int]@);
            candidates.push(
                RecallCaseCandidate {
                    record: citations[i].record,
                    revision: citations[i].revision,
                    rank: i as u32,
                    exact_match: citations[i].exact_match,
                    matched_term_count: citations[i].matched_term_count,
                },
            );
            assert(candidates@ =~= case_candidates(views(citations@)).take(i + 1));
        }
        assert(candidates@ =~= case_candidates(views(citations@)));
        let case = RecallCase {
            id: case_id,
            revision: 1,
            era_id: self.era_id,
            query_digest: index_hash(&self.digest_key, QUERY_DOMAIN, request),
            scopes: query.scopes,
            candidates,
            recorded_at_ms: fresh.recorded_at_ms,
        };
        let mut batch = Batch::new();
        batch.push(Write::PutRecallCase(case_id, case));
        Ok(Planned { batch, receipt: RecallResult { case_id, citations } })
    }

    fn recall_excluding(&mut self, input: &RecallQuery, excluded: Option<RecordRef>, request: &[u8]) -> (r:
        MemoryResult<RecallResult>)
        ensures
            exists|fresh: FreshModel|
                fresh.ids.len() == 1 && #[trigger] commits(
                    old(self)@,
                    final(self)@,
                    r,
                    old(self)@.recall(input@, excluded, request@, fresh),
                ),
    {
        let fresh = Fresh::draw(1);
        let planned = self.plan_recall(input, excluded, request, &fresh);
        let r = self.commit(planned);
        assert(commits(old(self)@, self@, r, old(self)@.recall(input@, excluded, request@, fresh@)));
        r
    }

    /// Recalls what answers a query and keeps a case of it.
    pub fn recall(&mut self, query: RecallQuery, request: &[u8]) -> (r: MemoryResult<RecallResult>)
        ensures
            exists|fresh: FreshModel|
                fresh.ids.len() == 1 && #[trigger] commits(
                    old(self)@,
                    final(self)@,
                    r,
                    old(self)@.recall(query@, None, request@, fresh),
                ),
    {
        self.recall_excluding(&query, None, request)
    }

    /// Captures what a user said, then recalls what was known before it. The captured
    /// evidence stays captured where the query is refused.
    pub fn begin_turn_recall(
        &mut self,
        operation: OperationContext,
        evidence: NewEvidence,
        evidence_request: &[u8],
        query: RecallQuery,
        query_request: &[u8],
    ) -> (r: MemoryResult<BeginTurnRecallResult>)
        ensures
            opens_turn(
                old(self)@,
                final(self)@,
                shown(r),
                operation,
                evidence@,
                evidence_request@,
                query@,
                query_request@,
            ),
    {
        if !may_open_turn(operation.actor, evidence.class) {
            return Err(MemoryError::Unauthorized);
        }
        let captured = self.capture_evidence(operation, evidence, evidence_request);
        let ghost between = self@;
        let ghost first = choose|fresh: FreshModel|
            fresh.ids.len() == 2 && #[trigger] commits(
                old(self)@,
                between,
                captured,
                old(self)@.capture_evidence(operation, evidence@, evidence_request@, fresh),
            );
        let receipt = match captured {
            Ok(receipt) => receipt,
            Err(error) => {
                let ghost none = FreshModel { recorded_at_ms: 0, ids: seq![Ulid(0)] };
                assert(turn_opened(
                    old(self)@,
                    self@,
                    Err::<BeginTurnRecallResultModel, MemoryError>(error),
                    operation,
                    evidence@,
                    evidence_request@,
                    query@,
                    query_request@,
                    first,
                    none,
                ));
                return Err(error);
            },
        };
        let recalled = self.recall_excluding(&query, Some(RecordRef::Evidence(receipt.id)), query_request);
        let ghost second = choose|fresh: FreshModel|
            fresh.ids.len() == 1 && #[trigger] commits(
                between,
                self@,
                recalled,
                between.recall(query@, Some(RecordRef::Evidence(receipt.id)), query_request@, fresh),
            );
        let r = match recalled {
            Ok(recall) => Ok(BeginTurnRecallResult { evidence: receipt, recall }),
            Err(error) => Err(error),
        };
        assert(turn_opened(
            old(self)@,
            self@,
            shown(r),
            operation,
            evidence@,
            evidence_request@,
            query@,
            query_request@,
            first,
            second,
        ));
        r
    }
}

/// A turn was opened with what two draws gave.
pub open spec fn turn_opened(
    before: StoreModel,
    after: StoreModel,
    answer: MemoryResult<BeginTurnRecallResultModel>,
    operation: OperationContext,
    evidence: NewEvidenceModel,
    evidence_request: Seq<u8>,
    query: RecallQueryModel,
    query_request: Seq<u8>,
    first: FreshModel,
    second: FreshModel,
) -> bool {
    match before.capture_evidence(operation, evidence, evidence_request, first) {
        Err(error) => answer == Err::<BeginTurnRecallResultModel, MemoryError>(error) && after == before,
        Ok((between, receipt)) => match between.recall(
            query,
            Some(RecordRef::Evidence(receipt.id)),
            query_request,
            second,
        ) {
            Err(error) => answer == Err::<BeginTurnRecallResultModel, MemoryError>(error) && after == between,
            Ok((reached, recall)) => answer == Ok::<BeginTurnRecallResultModel, MemoryError>(
                BeginTurnRecallResultModel { evidence: receipt, recall },
            ) && after == reached,
        },
    }
}

/// Whether an actor opens a turn with evidence of a class: a user does, with what the user
/// says.
pub open spec fn turn_opener(actor: Actor, class: EvidenceClass) -> bool {
    actor == Actor::User && (class == EvidenceClass::UserAssertion || class == EvidenceClass::UserCorrection)
}

pub fn may_open_turn(actor: Actor, class: EvidenceClass) -> (r: bool)
    ensures
        r == turn_opener(actor, class),
{
    actor == Actor::User && (class == EvidenceClass::UserAssertion || class == EvidenceClass::UserCorrection)
}

/// What opening a turn does: only a user's assertion or correction opens one.
pub open spec fn opens_turn(
    before: StoreModel,
    after: StoreModel,
    answer: MemoryResult<BeginTurnRecallResultModel>,
    operation: OperationContext,
    evidence: NewEvidenceModel,
    evidence_request: Seq<u8>,
    query: RecallQueryModel,
    query_request: Seq<u8>,
) -> bool {
    if !turn_opener(operation.actor, evidence.class) {
        answer == Err::<BeginTurnRecallResultModel, MemoryError>(MemoryError::Unauthorized) && after == before
    } else {
        exists|first: FreshModel, second: FreshModel|
            first.ids.len() == 2 && second.ids.len() == 1 && #[trigger] turn_opened(
                before,
                after,
                answer,
                operation,
                evidence,
                evidence_request,
                query,
                query_request,
                first,
                second,
            )
    }
}

proof fn posting_bounds(s: StoreModel, low: PostingKey, high: PostingKey)
    requires
        low.domain == high.domain,
        low.hash == high.hash,
        low.record == RecordRef::Evidence(EvidenceId(Ulid(0))),
        high.record == RecordRef::ArtifactPassage(ArtifactPassageId(Ulid(u128::MAX))),
    ensures
        Set::new(|k: PostingKey| s.lexical_postings.contains_key(k) && low.rank() <= k.rank() <= high.rank())
            == s.posting_keys(low.domain, low.hash),
{
    let range = Set::new(
        |k: PostingKey| s.lexical_postings.contains_key(k) && low.rank() <= k.rank() <= high.rank(),
    );
    assert forall|k: PostingKey| range.contains(k) <==> #[trigger] s.posting_keys(low.domain, low.hash).contains(
        k,
    ) by {
        storage_rank_fits(k.record);
        storage_rank_fits(low.record);
        storage_rank_fits(high.record);
        digest_rank_fits(k.hash);
        digest_rank_fits(low.hash);
        assert(storage_rank(low.record) <= storage_rank(k.record) <= storage_rank(high.record));
        if range.contains(k) {
            assert(k.domain == low.domain);
            assert(k.hash.rank() == low.hash.rank());
            <[u8; 32]>::rank_is_injective(&k.hash, &low.hash);
        }
    }
    assert(range =~= s.posting_keys(low.domain, low.hash));
}

proof fn time_bounds(s: StoreModel, from_ms: Option<i64>, to_ms: Option<i64>, low: TimeKey, high: TimeKey)
    requires
        low.observed_at_ms == (match from_ms {
            Some(from) => from,
            None => i64::MIN,
        }),
        high.observed_at_ms == (match to_ms {
            Some(to) => to - 1,
            None => i64::MAX as int,
        }),
        low.record == RecordRef::Evidence(EvidenceId(Ulid(0))),
        high.record == RecordRef::ArtifactPassage(ArtifactPassageId(Ulid(u128::MAX))),
    ensures
        Set::new(|k: TimeKey| s.time_index.contains_key(k) && low.rank() <= k.rank() <= high.rank())
            == s.observed_keys(from_ms, to_ms),
{
    let range = Set::new(|k: TimeKey| s.time_index.contains_key(k) && low.rank() <= k.rank() <= high.rank());
    assert forall|k: TimeKey| range.contains(k) <==> #[trigger] s.observed_keys(from_ms, to_ms).contains(k) by {
        storage_rank_fits(k.record);
        storage_rank_fits(low.record);
        storage_rank_fits(high.record);
        assert(storage_rank(low.record) <= storage_rank(k.record) <= storage_rank(high.record));
    }
    assert(range =~= s.observed_keys(from_ms, to_ms));
}

} // verus!
