//! What matches a query: the records filed under its text, under its terms or under its
//! range of time, and by how many of its terms each is met.

use vstd::prelude::*;
use crate::digest::index_digest;
use crate::grounds::lists_are_as_long;
use crate::keys::{PostingKey, TimeKey};
use crate::order::{in_order, in_order_lists};
use crate::recall::{
    CandidateMatch, MAX_RECALL_CANDIDATES, considered, counted, exactly_matched, merely_present,
    query_terms, query_terms_are_least, records_observed, records_posted,
};
use crate::records::evidence::RecordRef;
use crate::records::recall::RecallQueryModel;
use crate::store::StoreModel;
use crate::text::{exact_form, terms, utf8};
use crate::wordlist::texts_in_order;

verus! {

/// Whether a record is filed under a text: as the whole of what it says, or as a term of
/// it.
pub open spec fn filed_as(s: StoreModel, domain: u8, text: Seq<char>, record: RecordRef) -> bool {
    s.lexical_postings.contains_key(
        PostingKey { domain, hash: index_digest(s.digest_key@, domain, utf8(text)), record },
    )
}

/// How many of the first `n` terms a record is filed under.
pub open spec fn terms_met(s: StoreModel, terms: Seq<Seq<char>>, record: RecordRef, n: nat) -> nat
    decreases n,
{
    if n == 0 {
        0
    } else {
        terms_met(s, terms, record, (n - 1) as nat) + (if filed_as(s, 0x01, terms[n - 1], record) {
            1nat
        } else {
            0nat
        })
    }
}

/// Whether everything that is filed is among some records, and these are no more than are
/// ever considered.
pub open spec fn has_room(s: StoreModel, room: Set<RecordRef>) -> bool {
    &&& room.finite()
    &&& room.len() <= 4_096
    &&& s.lexical_postings.dom().finite()
    &&& s.time_index.dom().finite()
    &&& forall|k: PostingKey| #[trigger] s.lexical_postings.contains_key(k) ==> room.contains(k.record)
    &&& forall|k: TimeKey| #[trigger] s.time_index.contains_key(k) ==> room.contains(k.record)
}

proof fn considered_are(records: Seq<RecordRef>, excluded: Option<RecordRef>, limit: usize, n: nat)
    requires
        n <= records.len(),
        records.len() <= limit,
        records.no_duplicates(),
    ensures
        considered(records, excluded, limit, n).len() <= n,
        considered(records, excluded, limit, n).no_duplicates(),
        forall|r: RecordRef| #[trigger]
            considered(records, excluded, limit, n).contains(r) <==> Some(r) != excluded && exists|i: int|
                0 <= i < n && #[trigger] records[i] == r,
    decreases n,
{
    if n > 0 {
        let m = (n - 1) as nat;
        considered_are(records, excluded, limit, m);
        let before = considered(records, excluded, limit, m);
        let now = considered(records, excluded, limit, n);
        let last = records[m as int];
        assert(before.len() < limit);
        if Some(last) != excluded {
            assert(now == before.push(last));
            assert(!before.contains(last)) by {
                if before.contains(last) {
                    let i = choose|i: int| 0 <= i < m && #[trigger] records[i] == last;
                    assert(records[i] == records[m as int]);
                }
            }
        }
        assert forall|r: RecordRef| #[trigger] now.contains(r) <==> Some(r) != excluded && exists|i: int|
            0 <= i < n && #[trigger] records[i] == r by {
            if now.contains(r) {
                let k = now.index_of(r);
                assert(now[k] == r);
                if k < before.len() {
                    assert(before[k] == r);
                    assert(before.contains(r));
                } else {
                    assert(records[m as int] == r);
                }
            }
            if before.contains(r) {
                let k = before.index_of(r);
                assert(now[k] == r);
            }
            if Some(last) != excluded {
                assert(now[before.len() as int] == last);
            }
            if Some(r) != excluded && exists|i: int| 0 <= i < n && #[trigger] records[i] == r {
                let i = choose|i: int| 0 <= i < n && #[trigger] records[i] == r;
                if i < m {
                    assert(before.contains(r));
                }
            }
        }
    }
}

proof fn postings_are(s: StoreModel, domain: u8, text: Seq<char>, excluded: Option<RecordRef>, room: Set<RecordRef>)
    requires
        has_room(s, room),
    ensures
        ({
            let records = s.posting_records(domain, index_digest(s.digest_key@, domain, utf8(text)), excluded);
            &&& records.no_duplicates()
            &&& forall|r: RecordRef| #[trigger]
                records.contains(r) <==> Some(r) != excluded && filed_as(s, domain, text, r)
        }),
{
    reveal(StoreModel::posting_records);
    let hash = index_digest(s.digest_key@, domain, utf8(text));
    let keys = s.posting_keys(domain, hash);
    assert(keys.subset_of(s.lexical_postings.dom()));
    vstd::set_lib::lemma_len_subset(keys, s.lexical_postings.dom());
    in_order_lists(keys);
    lists_are_as_long(keys);
    let list = in_order(keys);
    let all = records_posted(list);
    assert(all.len() == list.len());
    assert forall|i: int| 0 <= i < list.len() implies keys.contains(#[trigger] list[i]) && all[i] == list[i].record by {
        assert(list.contains(list[i]));
    }
    assert(all.no_duplicates()) by {
        assert forall|i: int, j: int| 0 <= i < all.len() && 0 <= j < all.len() && i != j implies all[i] != all[j] by {
            assert(list[i] != list[j]);
            assert(keys.contains(list[i]) && keys.contains(list[j]));
        }
    }
    assert(all.len() <= 4_096) by {
        all.unique_seq_to_set();
        assert(all.to_set().subset_of(room)) by {
            assert forall|r: RecordRef| all.to_set().contains(r) implies room.contains(r) by {
                let i = all.index_of(r);
                assert(all[i] == r);
                assert(keys.contains(list[i]));
                assert(s.lexical_postings.contains_key(list[i]));
            }
        }
        vstd::set_lib::lemma_len_subset(all.to_set(), room);
    }
    considered_are(all, excluded, MAX_RECALL_CANDIDATES, all.len());
    let records = s.posting_records(domain, hash, excluded);
    assert forall|r: RecordRef| #[trigger] records.contains(r) <==> Some(r) != excluded && filed_as(s, domain, text, r) by {
        if records.contains(r) {
            let i = choose|i: int| 0 <= i < all.len() && #[trigger] all[i] == r;
            assert(keys.contains(list[i]));
            assert(list[i] == (PostingKey { domain, hash, record: r }));
        }
        if filed_as(s, domain, text, r) {
            let key = PostingKey { domain, hash, record: r };
            assert(keys.contains(key));
            assert(list.contains(key));
            let i = list.index_of(key);
            assert(all[i] == r);
        }
    }
}

proof fn exact_matches_are(records: Seq<RecordRef>, n: nat)
    requires
        n <= records.len(),
    ensures
        forall|r: RecordRef| #[trigger]
            exactly_matched(records, n).contains_key(r) <==> exists|i: int| 0 <= i < n && #[trigger] records[i] == r,
        forall|r: RecordRef| #[trigger]
            exactly_matched(records, n).contains_key(r) ==> exactly_matched(records, n)[r] == (CandidateMatch {
                exact: true,
                matched_terms: 0,
            }),
    decreases n,
{
    if n > 0 {
        let m = (n - 1) as nat;
        exact_matches_are(records, m);
        let before = exactly_matched(records, m);
        let now = exactly_matched(records, n);
        assert forall|r: RecordRef| #[trigger] now.contains_key(r) <==> exists|i: int|
            0 <= i < n && #[trigger] records[i] == r by {
            if before.contains_key(r) {
                let i = choose|i: int| 0 <= i < m && #[trigger] records[i] == r;
                assert(records[i] == r);
            }
            assert(records[m as int] == records[m as int]);
            if exists|i: int| 0 <= i < n && #[trigger] records[i] == r {
                let i = choose|i: int| 0 <= i < n && #[trigger] records[i] == r;
                if i < m {
                    assert(before.contains_key(r));
                }
            }
        }
    }
}

/// Whether a record is one of the first `n` of a list.
spec fn listed_in(records: Seq<RecordRef>, n: nat, r: RecordRef) -> bool {
    exists|i: int| 0 <= i < n && #[trigger] records[i] == r
}

/// Counting a list of records once more.
proof fn counting_counts(
    candidates: Map<RecordRef, CandidateMatch>,
    records: Seq<RecordRef>,
    n: nat,
    room: Set<RecordRef>,
    most: nat,
)
    requires
        n <= records.len(),
        records.no_duplicates(),
        room.finite() && room.len() <= 4_096,
        candidates.dom().subset_of(room),
        records.to_set().subset_of(room),
        most < 1_000,
        forall|r: RecordRef| #[trigger] candidates.contains_key(r) ==> candidates[r].matched_terms <= most,
    ensures
        ({
            let now = counted(candidates, records, n);
            &&& now.dom().subset_of(room)
            &&& forall|r: RecordRef| #[trigger]
                now.contains_key(r) <==> candidates.contains_key(r) || listed_in(records, n, r)
            &&& forall|r: RecordRef| #[trigger]
                now.contains_key(r) ==> {
                    let met = listed_in(records, n, r);
                    &&& now[r].exact == (candidates.contains_key(r) && candidates[r].exact)
                    &&& now[r].matched_terms == (if candidates.contains_key(r) {
                        candidates[r].matched_terms as int
                    } else {
                        0
                    }) + (if met {
                        1int
                    } else {
                        0
                    })
                }
        }),
    decreases n,
{
    if n > 0 {
        let m = (n - 1) as nat;
        counting_counts(candidates, records, m, room, most);
        let before = counted(candidates, records, m);
        let now = counted(candidates, records, n);
        let last = records[m as int];
        assert(!listed_in(records, m, last)) by {
            if listed_in(records, m, last) {
                let i = choose|i: int| 0 <= i < m && #[trigger] records[i] == last;
                assert(records[i] == records[m as int]);
            }
        }
        assert(room.contains(last)) by {
            assert(records.to_set().contains(last));
        }
        vstd::set_lib::lemma_len_subset(before.dom(), room);
        if !before.contains_key(last) {
            assert(before.dom().len() < room.len()) by {
                let others = room.remove(last);
                assert(before.dom().subset_of(others));
                vstd::set_lib::lemma_len_subset(before.dom(), others);
            }
        }
        assert forall|r: RecordRef| #[trigger] listed_in(records, n, r) <==> r == last || listed_in(records, m, r) by {
            if listed_in(records, n, r) {
                let i = choose|i: int| 0 <= i < n && #[trigger] records[i] == r;
                if i < m {
                    assert(records[i] == r);
                }
            }
            if listed_in(records, m, r) {
                let i = choose|i: int| 0 <= i < m && #[trigger] records[i] == r;
                assert(records[i] == r);
            }
            assert(records[m as int] == last);
        }
    }
}

proof fn terms_are_counted(
    s: StoreModel,
    text: Seq<char>,
    terms: Seq<Seq<char>>,
    excluded: Option<RecordRef>,
    n: nat,
    room: Set<RecordRef>,
)
    requires
        has_room(s, room),
        n <= terms.len(),
        terms.len() <= 64,
    ensures
        ({
            let now = s.term_matched(text, terms, excluded, n);
            &&& now.dom().subset_of(room)
            &&& forall|r: RecordRef| #[trigger]
                now.contains_key(r) <==> Some(r) != excluded && (filed_as(s, 0x02, exact_form(text), r) || terms_met(
                    s,
                    terms,
                    r,
                    n,
                ) > 0)
            &&& forall|r: RecordRef| #[trigger]
                now.contains_key(r) ==> now[r].exact == filed_as(s, 0x02, exact_form(text), r) && now[r].matched_terms
                    == terms_met(s, terms, r, n) && terms_met(s, terms, r, n) <= n
        }),
    decreases n,
{
    if n == 0 {
        postings_are(s, 0x02, exact_form(text), excluded, room);
        let records = s.posting_records(
            0x02,
            index_digest(s.digest_key@, 0x02, utf8(exact_form(text))),
            excluded,
        );
        exact_matches_are(records, records.len());
        let now = s.term_matched(text, terms, excluded, 0);
        assert forall|r: RecordRef| #[trigger] now.contains_key(r) <==> Some(r) != excluded && filed_as(
            s,
            0x02,
            exact_form(text),
            r,
        ) by {
            if now.contains_key(r) {
                let i = choose|i: int| 0 <= i < records.len() && #[trigger] records[i] == r;
                assert(records.contains(r));
            }
            if records.contains(r) {
                let i = records.index_of(r);
                assert(records[i] == r);
            }
        }
        assert(now.dom().subset_of(room)) by {
            assert forall|r: RecordRef| now.dom().contains(r) implies room.contains(r) by {
                assert(now.contains_key(r));
                assert(filed_as(s, 0x02, exact_form(text), r));
            }
        }
    } else {
        let m = (n - 1) as nat;
        terms_are_counted(s, text, terms, excluded, m, room);
        postings_are(s, 0x01, terms[m as int], excluded, room);
        let records = s.posting_records(
            0x01,
            index_digest(s.digest_key@, 0x01, utf8(terms[m as int])),
            excluded,
        );
        let before = s.term_matched(text, terms, excluded, m);
        let now = s.term_matched(text, terms, excluded, n);
        assert(records.to_set().subset_of(room)) by {
            assert forall|r: RecordRef| records.to_set().contains(r) implies room.contains(r) by {
                assert(records.contains(r));
                assert(filed_as(s, 0x01, terms[m as int], r));
            }
        }
        counting_counts(before, records, records.len(), room, m);
        assert forall|r: RecordRef| listed_in(records, records.len(), r) <==> #[trigger] records.contains(r) by {
            if records.contains(r) {
                let i = records.index_of(r);
                assert(records[i] == r);
            }
        }
        assert forall|r: RecordRef| #[trigger] now.contains_key(r) <==> Some(r) != excluded && (filed_as(
            s,
            0x02,
            exact_form(text),
            r,
        ) || terms_met(s, terms, r, n) > 0) by {
            assert(records.contains(r) <==> Some(r) != excluded && filed_as(s, 0x01, terms[m as int], r));
            assert(before.contains_key(r) <==> Some(r) != excluded && (filed_as(s, 0x02, exact_form(text), r)
                || terms_met(s, terms, r, m) > 0));
        }
        assert forall|r: RecordRef| #[trigger] now.contains_key(r) implies now[r].exact == filed_as(
            s,
            0x02,
            exact_form(text),
            r,
        ) && now[r].matched_terms == terms_met(s, terms, r, n) && terms_met(s, terms, r, n) <= n by {
            assert(records.contains(r) <==> Some(r) != excluded && filed_as(s, 0x01, terms[m as int], r));
            assert(before.contains_key(r) <==> Some(r) != excluded && (filed_as(s, 0x02, exact_form(text), r)
                || terms_met(s, terms, r, m) > 0));
        }
    }
}

/// A query with a text is matched by the records that say just that and by those that share
/// a term with it, but for the excluded one. A match is exact if the record says just that,
/// and counts the terms of the query that the record has.
pub proof fn matches_are_counted(
    s: StoreModel,
    query: RecallQueryModel,
    excluded: Option<RecordRef>,
    record: RecordRef,
    room: Set<RecordRef>,
)
    requires
        has_room(s, room),
        exact_form(query.text).len() > 0,
    ensures
        ({
            let found = s.recall_candidates(query, excluded);
            let terms = query_terms(query.text);
            let met = terms_met(s, terms, record, terms.len());
            &&& found.contains_key(record) <==> Some(record) != excluded && (filed_as(
                s,
                0x02,
                exact_form(query.text),
                record,
            ) || met > 0)
            &&& found.contains_key(record) ==> (found[record].exact <==> filed_as(
                s,
                0x02,
                exact_form(query.text),
                record,
            )) && found[record].matched_terms == met
        }),
{
    reveal(StoreModel::recall_candidates);
    query_terms_are_least(query.text, Seq::empty());
    let terms = query_terms(query.text);
    terms_are_counted(s, query.text, terms, excluded, terms.len(), room);
    let found = s.recall_candidates(query, excluded);
    assert(found == s.term_matched(query.text, terms, excluded, terms.len()));
}

/// A query is matched by at most 64 of its terms, in their order, and by all of them unless
/// there are more.
pub proof fn queries_are_matched_by_their_terms(text: Seq<char>, term: Seq<char>)
    ensures
        texts_in_order(query_terms(text)),
        query_terms(text).len() <= 64,
        query_terms(text).contains(term) ==> terms(text).contains(term),
        terms(text).contains(term) && query_terms(text).len() < 64 ==> query_terms(text).contains(term),
{
    query_terms_are_least(text, term);
}

proof fn present_are(records: Seq<RecordRef>, n: nat)
    requires
        n <= records.len(),
    ensures
        forall|r: RecordRef| #[trigger]
            merely_present(records, n).contains_key(r) <==> exists|i: int| 0 <= i < n && #[trigger] records[i] == r,
        forall|r: RecordRef| #[trigger]
            merely_present(records, n).contains_key(r) ==> merely_present(records, n)[r] == (CandidateMatch {
                exact: false,
                matched_terms: 0,
            }),
    decreases n,
{
    if n > 0 {
        let m = (n - 1) as nat;
        present_are(records, m);
        let before = merely_present(records, m);
        let now = merely_present(records, n);
        assert forall|r: RecordRef| #[trigger] now.contains_key(r) <==> exists|i: int|
            0 <= i < n && #[trigger] records[i] == r by {
            if before.contains_key(r) {
                let i = choose|i: int| 0 <= i < m && #[trigger] records[i] == r;
                assert(records[i] == r);
            }
            assert(records[m as int] == records[m as int]);
            if exists|i: int| 0 <= i < n && #[trigger] records[i] == r {
                let i = choose|i: int| 0 <= i < n && #[trigger] records[i] == r;
                if i < m {
                    assert(before.contains_key(r));
                }
            }
        }
    }
}

/// A query with a range of time alone is matched by the records observed from its
/// beginning and before its end, but for the excluded one. Such a match is not exact and
/// has no terms.
pub proof fn ranges_are_matched(
    s: StoreModel,
    query: RecallQueryModel,
    excluded: Option<RecordRef>,
    record: RecordRef,
    room: Set<RecordRef>,
)
    requires
        has_room(s, room),
        exact_form(query.text).len() == 0,
        forall|k: TimeKey, l: TimeKey|
            #![trigger s.time_index.contains_key(k), s.time_index.contains_key(l)]
            s.time_index.contains_key(k) && s.time_index.contains_key(l) && k.record == l.record ==> k == l,
    ensures
        ({
            let found = s.recall_candidates(query, excluded);
            &&& found.contains_key(record) <==> Some(record) != excluded && exists|at: i64|
                {
                    &&& #[trigger] s.time_index.contains_key(TimeKey { observed_at_ms: at, record })
                    &&& query.observed_from_ms matches Some(from) ==> from <= at
                    &&& query.observed_to_ms matches Some(to) ==> at < to
                }
            &&& found.contains_key(record) ==> !found[record].exact && found[record].matched_terms == 0
        }),
{
    reveal(StoreModel::recall_candidates);
    reveal(StoreModel::records_in_observed_range);
    let keys = s.observed_keys(query.observed_from_ms, query.observed_to_ms);
    assert(keys.subset_of(s.time_index.dom()));
    vstd::set_lib::lemma_len_subset(keys, s.time_index.dom());
    in_order_lists(keys);
    lists_are_as_long(keys);
    let list = in_order(keys);
    let all = records_observed(list);
    assert(all.len() == list.len());
    assert forall|i: int| 0 <= i < all.len() implies keys.contains(list[all.len() - 1 - i]) && #[trigger] all[i]
        == list[all.len() - 1 - i].record by {
        assert(list.contains(list[all.len() - 1 - i]));
    }
    assert(all.no_duplicates()) by {
        assert forall|i: int, j: int| 0 <= i < all.len() && 0 <= j < all.len() && i != j implies all[i] != all[j] by {
            let a = list[all.len() - 1 - i];
            let b = list[all.len() - 1 - j];
            assert(a != b);
            assert(all[i] == a.record && all[j] == b.record);
            assert(s.time_index.contains_key(a) && s.time_index.contains_key(b));
        }
    }
    assert(all.len() <= 4_096) by {
        all.unique_seq_to_set();
        assert(all.to_set().subset_of(room)) by {
            assert forall|r: RecordRef| all.to_set().contains(r) implies room.contains(r) by {
                let i = all.index_of(r);
                assert(all[i] == r);
                assert(s.time_index.contains_key(list[all.len() - 1 - i]));
            }
        }
        vstd::set_lib::lemma_len_subset(all.to_set(), room);
    }
    considered_are(all, excluded, MAX_RECALL_CANDIDATES, all.len());
    let records = s.records_in_observed_range(
        query.observed_from_ms,
        query.observed_to_ms,
        MAX_RECALL_CANDIDATES,
        excluded,
    );
    present_are(records, records.len());
    let found = s.recall_candidates(query, excluded);
    assert(found == merely_present(records, records.len()));
    if found.contains_key(record) {
        let i = choose|i: int| 0 <= i < records.len() && #[trigger] records[i] == record;
        assert(records.contains(record));
        let k = choose|k: int| 0 <= k < all.len() && #[trigger] all[k] == record;
        let key = list[all.len() - 1 - k];
        assert(keys.contains(key));
        assert(key == (TimeKey { observed_at_ms: key.observed_at_ms, record }));
        assert(s.time_index.contains_key(TimeKey { observed_at_ms: key.observed_at_ms, record }));
    }
    if Some(record) != excluded && exists|at: i64|
        {
            &&& #[trigger] s.time_index.contains_key(TimeKey { observed_at_ms: at, record })
            &&& query.observed_from_ms matches Some(from) ==> from <= at
            &&& query.observed_to_ms matches Some(to) ==> at < to
        } {
        let at = choose|at: i64|
            {
                &&& #[trigger] s.time_index.contains_key(TimeKey { observed_at_ms: at, record })
                &&& query.observed_from_ms matches Some(from) ==> from <= at
                &&& query.observed_to_ms matches Some(to) ==> at < to
            };
        let key = TimeKey { observed_at_ms: at, record };
        assert(keys.contains(key));
        assert(list.contains(key));
        let j = list.index_of(key);
        assert(all[all.len() - 1 - j] == record);
        assert(records.contains(record));
        let i = records.index_of(record);
        assert(records[i] == record);
    }
}

} // verus!
