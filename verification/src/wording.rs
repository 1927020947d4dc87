//! How texts are read: what trimming leaves, which texts are the same but for blanks and
//! case, and which terms a text is found by.

use vstd::prelude::*;
use crate::context::TemporalFacts;
use crate::digest::index_digest;
use crate::inspect::lookup;
use crate::keys::{PostingKey, TimeKey};
use crate::order::{in_order, in_order_lists};
use crate::records::evidence::{RecordRef, Scope};
use crate::staging::{document_of, indexed_digests, term_digests};
use crate::store::{StoreModel, WriteModel};
use crate::text::{
    alphanumeric, blank, cjk, cjk_run, cjk_terms, collapsed, exact_form, lower_letters, lowered,
    run_terms, terms, trimmed, utf8, without_leading_blanks, without_trailing_blanks, word_run,
    wordy,
};

verus! {

proof fn leading_blanks_are_left_out(text: Seq<char>) -> (a: int)
    ensures
        0 <= a <= text.len(),
        without_leading_blanks(text) == text.skip(a),
        forall|i: int| 0 <= i < a ==> blank(#[trigger] text[i]),
        a < text.len() ==> !blank(text[a]),
    decreases text.len(),
{
    if text.len() > 0 && blank(text[0]) {
        let rest = text.drop_first();
        let b = leading_blanks_are_left_out(rest);
        assert(rest.skip(b) =~= text.skip(b + 1));
        assert forall|i: int| 0 <= i < b + 1 implies blank(#[trigger] text[i]) by {
            if i > 0 {
                assert(rest[i - 1] == text[i]);
            }
        }
        if b < rest.len() {
            assert(rest[b] == text[b + 1]);
        }
        b + 1
    } else {
        assert(text.skip(0) =~= text);
        0
    }
}

proof fn trailing_blanks_are_left_out(text: Seq<char>) -> (b: int)
    ensures
        0 <= b <= text.len(),
        without_trailing_blanks(text) == text.take(b),
        forall|i: int| b <= i < text.len() ==> blank(#[trigger] text[i]),
        b > 0 ==> !blank(text[b - 1]),
    decreases text.len(),
{
    if text.len() > 0 && blank(text.last()) {
        let rest = text.drop_last();
        let b = trailing_blanks_are_left_out(rest);
        assert(rest.take(b) =~= text.take(b));
        assert forall|i: int| b <= i < text.len() implies blank(#[trigger] text[i]) by {
            if i < text.len() - 1 {
                assert(rest[i] == text[i]);
            }
        }
        b
    } else {
        assert(text.take(text.len() as int) =~= text);
        text.len() as int
    }
}

/// Trimming leaves a stretch of the text that neither begins nor ends with a blank, and
/// leaves out nothing but blanks.
pub proof fn trimming_leaves_out_blanks(text: Seq<char>)
    ensures
        exists|a: int, b: int|
            {
                &&& 0 <= a <= b <= text.len()
                &&& trimmed(text) == #[trigger] text.subrange(a, b)
                &&& forall|i: int| 0 <= i < a ==> blank(#[trigger] text[i])
                &&& forall|i: int| b <= i < text.len() ==> blank(#[trigger] text[i])
                &&& a < b ==> !blank(text[a]) && !blank(text[b - 1])
            },
        trimmed(text).len() == 0 <==> forall|i: int| 0 <= i < text.len() ==> blank(#[trigger] text[i]),
{
    reveal(trimmed);
    let a = leading_blanks_are_left_out(text);
    let rest = text.skip(a);
    let n = trailing_blanks_are_left_out(rest);
    let b = a + n;
    assert(rest.take(n) =~= text.subrange(a, b));
    assert forall|i: int| b <= i < text.len() implies blank(#[trigger] text[i]) by {
        assert(rest[i - a] == text[i]);
    }
    if n > 0 {
        assert(rest[n - 1] == text[b - 1]);
        assert(!blank(text[b - 1]));
    }
    if a < b {
        assert(!blank(text[a]));
    }
    if trimmed(text).len() == 0 {
        assert(a == b);
        assert forall|i: int| 0 <= i < text.len() implies blank(#[trigger] text[i]) by {}
    }
}

/// A text is put in lower case letter by letter.
pub proof fn letters_are_lowered_one_by_one(a: Seq<char>, b: Seq<char>, letter: char)
    ensures
        lowered(a + b) == lowered(a) + lowered(b),
        lowered(seq![letter]) == lower_letters(letter),
        lowered(Seq::<char>::empty()).len() == 0,
    decreases b.len(),
{
    assert(seq![letter].drop_last() =~= Seq::<char>::empty());
    assert(lowered(seq![letter].drop_last()) =~= Seq::<char>::empty());
    assert(lowered(seq![letter]) =~= lower_letters(letter));
    if b.len() == 0 {
        assert(a + b =~= a);
        assert(lowered(a) + lowered(b) =~= lowered(a));
    } else {
        letters_are_lowered_one_by_one(a, b.drop_last(), letter);
        assert((a + b).drop_last() =~= a + b.drop_last());
        assert((a + b).last() == b.last());
        assert(lowered(a + b) =~= lowered(a) + lowered(b));
    }
}

proof fn blanks_collapse(a: Seq<char>, w: Seq<char>)
    requires
        forall|i: int| 0 <= i < w.len() ==> blank(#[trigger] w[i]),
    ensures
        collapsed(a + w) == collapsed(a),
    decreases w.len(),
{
    if w.len() == 0 {
        assert(a + w =~= a);
    } else {
        blanks_collapse(a, w.drop_last());
        assert((a + w).drop_last() =~= a + w.drop_last());
        assert((a + w).last() == w.last());
    }
}

proof fn collapsed_to_nothing(text: Seq<char>)
    ensures
        collapsed(text).len() == 0 <==> forall|i: int| 0 <= i < text.len() ==> blank(#[trigger] text[i]),
    decreases text.len(),
{
    if text.len() > 0 {
        let rest = text.drop_last();
        collapsed_to_nothing(rest);
        if blank(text.last()) {
            if collapsed(text).len() == 0 {
                assert forall|i: int| 0 <= i < text.len() implies blank(#[trigger] text[i]) by {
                    if i < rest.len() {
                        assert(rest[i] == text[i]);
                    }
                }
            } else {
                let i = choose|i: int| 0 <= i < rest.len() && !blank(#[trigger] rest[i]);
                assert(!blank(text[i]));
            }
        }
    }
}

/// A run of blanks counts as one space between two words, and as nothing at the beginning,
/// at the end and in a text of blanks alone. A text without blanks stays as it is.
pub proof fn blanks_count_as_one(a: Seq<char>, w: Seq<char>, b: Seq<char>)
    requires
        forall|i: int| 0 <= i < w.len() ==> blank(#[trigger] w[i]),
    ensures
        collapsed(w).len() == 0,
        collapsed(a + w) == collapsed(a),
        collapsed(w + b) == collapsed(b),
        w.len() > 0 && collapsed(a).len() > 0 && collapsed(b).len() > 0 ==> collapsed(a + w + b) == collapsed(a)
            + seq![' '] + collapsed(b),
        (forall|i: int| 0 <= i < a.len() ==> !blank(#[trigger] a[i])) ==> collapsed(a) == a,
{
    blanks_collapse(a, w);
    blanks_collapse(Seq::empty(), w);
    assert(Seq::<char>::empty() + w =~= w);
    blanks_in_front(w, b);
    if w.len() > 0 && collapsed(a).len() > 0 {
        blanks_between(a, w, b);
    }
    if forall|i: int| 0 <= i < a.len() ==> !blank(#[trigger] a[i]) {
        letters_stay(a);
    }
}

proof fn letters_stay(a: Seq<char>)
    requires
        forall|i: int| 0 <= i < a.len() ==> !blank(#[trigger] a[i]),
    ensures
        collapsed(a) == a,
    decreases a.len(),
{
    if a.len() > 0 {
        let rest = a.drop_last();
        assert forall|i: int| 0 <= i < rest.len() implies !blank(#[trigger] rest[i]) by {
            assert(rest[i] == a[i]);
        }
        letters_stay(rest);
        assert(collapsed(a) =~= a);
    } else {
        assert(collapsed(a) =~= a);
    }
}

proof fn blanks_in_front(w: Seq<char>, b: Seq<char>)
    requires
        forall|i: int| 0 <= i < w.len() ==> blank(#[trigger] w[i]),
    ensures
        collapsed(w + b) == collapsed(b),
    decreases b.len(),
{
    if b.len() == 0 {
        assert(w + b =~= w);
        blanks_collapse(Seq::empty(), w);
        assert(Seq::<char>::empty() + w =~= w);
    } else {
        let rest = b.drop_last();
        blanks_in_front(w, rest);
        let text = w + b;
        assert(text.drop_last() =~= w + rest);
        assert(text.last() == b.last());
        if b.len() >= 2 {
            assert(text[text.len() - 2] == b[b.len() - 2]);
        } else {
            assert(rest =~= Seq::empty());
        }
    }
}

proof fn blanks_between(a: Seq<char>, w: Seq<char>, b: Seq<char>)
    requires
        forall|i: int| 0 <= i < w.len() ==> blank(#[trigger] w[i]),
        w.len() > 0,
        collapsed(a).len() > 0,
    ensures
        collapsed(a + w + b) == (if collapsed(b).len() == 0 {
            collapsed(a)
        } else {
            collapsed(a) + seq![' '] + collapsed(b)
        }),
    decreases b.len(),
{
    let text = a + w + b;
    if b.len() == 0 {
        assert(text =~= a + w);
        blanks_collapse(a, w);
    } else {
        let rest = b.drop_last();
        blanks_between(a, w, rest);
        assert(text.drop_last() =~= a + w + rest);
        assert(text.last() == b.last());
        if !blank(b.last()) {
            let before = collapsed(a + w + rest);
            if b.len() == 1 {
                assert(rest =~= Seq::empty());
                assert(text[text.len() - 2] == w[w.len() - 1]);
                assert(collapsed(text) =~= collapsed(a).push(' ').push(b.last()));
                assert(collapsed(b) =~= seq![b.last()]);
            } else {
                assert(text[text.len() - 2] == b[b.len() - 2]);
                assert(rest.last() == b[b.len() - 2]);
                if collapsed(rest).len() == 0 {
                    collapsed_to_nothing(rest);
                    assert(blank(rest[rest.len() - 1]));
                    assert(collapsed(text) =~= collapsed(a).push(' ').push(b.last()));
                    assert(collapsed(b) =~= seq![b.last()]);
                }
            }
            assert(collapsed(text) =~= collapsed(a) + seq![' '] + collapsed(b));
        }
    }
}

proof fn cjk_run_is(text: Seq<char>)
    ensures
        cjk_run(text) <= text.len(),
        forall|i: int| 0 <= i < cjk_run(text) ==> cjk(#[trigger] text[i]),
        cjk_run(text) < text.len() ==> !cjk(text[cjk_run(text) as int]),
    decreases text.len(),
{
    if text.len() > 0 && cjk(text[0]) {
        let rest = text.drop_first();
        cjk_run_is(rest);
        assert forall|i: int| 0 <= i < cjk_run(text) implies cjk(#[trigger] text[i]) by {
            if i > 0 {
                assert(rest[i - 1] == text[i]);
            }
        }
        if cjk_run(rest) < rest.len() {
            assert(rest[cjk_run(rest) as int] == text[cjk_run(text) as int]);
        }
    }
}

proof fn word_run_is(text: Seq<char>)
    ensures
        word_run(text) <= text.len(),
        forall|i: int| 0 <= i < word_run(text) ==> wordy(#[trigger] text[i]),
        word_run(text) < text.len() ==> !wordy(text[word_run(text) as int]),
    decreases text.len(),
{
    if text.len() > 0 && wordy(text[0]) {
        let rest = text.drop_first();
        word_run_is(rest);
        assert forall|i: int| 0 <= i < word_run(text) implies wordy(#[trigger] text[i]) by {
            if i > 0 {
                assert(rest[i - 1] == text[i]);
            }
        }
        if word_run(rest) < rest.len() {
            assert(rest[word_run(rest) as int] == text[word_run(text) as int]);
        }
    }
}

/// Terms do not reach over the end of a run: where one text ends and another begins
/// without an ideograph or a word going on from the one into the other, the terms of both
/// together are those of the first and then those of the second.
pub proof fn terms_end_with_their_runs(a: Seq<char>, b: Seq<char>)
    requires
        a.len() > 0 && b.len() > 0 ==> !(cjk(a.last()) && cjk(b[0])) && !(wordy(a.last()) && wordy(b[0])),
    ensures
        run_terms(a + b) == run_terms(a) + run_terms(b),
    decreases a.len(),
{
    let all = a + b;
    if a.len() == 0 {
        assert(all =~= b);
        assert(run_terms(a) + run_terms(b) =~= run_terms(b));
    } else if b.len() == 0 {
        assert(all =~= a);
        assert(run_terms(a) + run_terms(b) =~= run_terms(a));
    } else if cjk(a[0]) {
        cjk_run_is(a);
        cjk_run_is(all);
        let n = cjk_run(a) as int;
        assert(n >= 1);
        assert(cjk_run(all) == n) by {
            let m = cjk_run(all) as int;
            if m < n {
                assert(all[m] == a[m]);
                assert(cjk(a[m]));
            } else if m > n {
                assert(cjk(all[n]));
                if n < a.len() {
                    assert(all[n] == a[n]);
                } else {
                    assert(all[n] == b[0]);
                    assert(a.last() == a[n - 1]);
                }
            }
        }
        assert(all.take(n) =~= a.take(n));
        assert(all.skip(n) =~= a.skip(n) + b);
        let rest = a.skip(n);
        if rest.len() > 0 {
            assert(rest.last() == a.last());
        }
        terms_end_with_their_runs(rest, b);
        assert(run_terms(all) =~= run_terms(a) + run_terms(b));
    } else if wordy(a[0]) {
        word_run_is(a);
        word_run_is(all);
        let n = word_run(a) as int;
        assert(n >= 1);
        assert(word_run(all) == n) by {
            let m = word_run(all) as int;
            if m < n {
                assert(all[m] == a[m]);
                assert(wordy(a[m]));
            } else if m > n {
                assert(wordy(all[n]));
                if n < a.len() {
                    assert(all[n] == a[n]);
                } else {
                    assert(all[n] == b[0]);
                    assert(a.last() == a[n - 1]);
                }
            }
        }
        assert(all.take(n) =~= a.take(n));
        assert(all.skip(n) =~= a.skip(n) + b);
        let rest = a.skip(n);
        if rest.len() > 0 {
            assert(rest.last() == a.last());
        }
        terms_end_with_their_runs(rest, b);
        assert(run_terms(all) =~= run_terms(a) + run_terms(b));
    } else {
        let rest = a.drop_first();
        assert(all.drop_first() =~= rest + b);
        if rest.len() > 0 {
            assert(rest.last() == a.last());
        }
        terms_end_with_their_runs(rest, b);
        assert(all[0] == a[0]);
    }
}

/// A word is one term: the word itself, cut off behind 128 letters.
pub proof fn words_are_terms(word: Seq<char>)
    requires
        word.len() > 0,
        forall|i: int| 0 <= i < word.len() ==> wordy(#[trigger] word[i]),
    ensures
        run_terms(word).len() == 1,
        word.len() <= 128 ==> run_terms(word)[0] == word,
        word.len() > 128 ==> run_terms(word)[0] == word.take(128),
{
    word_run_is(word);
    assert(wordy(word[0]));
    assert(word_run(word) == word.len()) by {
        if word_run(word) < word.len() {
            assert(wordy(word[word_run(word) as int]));
        }
    }
    assert(word.take(word.len() as int) =~= word);
    assert(word.skip(word.len() as int) =~= Seq::empty());
    assert(run_terms(word.skip(word.len() as int)) =~= Seq::empty());
}

/// A run of ideographs is found by each of them and by each two that stand side by side,
/// and by nothing else: first the single ones, then the pairs, as they come.
pub proof fn ideographs_are_terms(run: Seq<char>)
    requires
        run.len() > 0,
        forall|i: int| 0 <= i < run.len() ==> cjk(#[trigger] run[i]),
    ensures
        run_terms(run).len() == run.len() + run.len() - 1,
        forall|i: int| 0 <= i < run.len() ==> run_terms(run)[i] == seq![#[trigger] run[i]],
        forall|i: int|
            0 <= i < run.len() - 1 ==> run_terms(run)[run.len() + i] == seq![#[trigger] run[i], run[i + 1]],
{
    cjk_run_is(run);
    assert(cjk(run[0]));
    assert(cjk_run(run) == run.len()) by {
        if cjk_run(run) < run.len() {
            assert(cjk(run[cjk_run(run) as int]));
        }
    }
    assert(run.take(run.len() as int) =~= run);
    assert(run.skip(run.len() as int) =~= Seq::empty());
    assert(run_terms(run.skip(run.len() as int)) =~= Seq::empty());
    assert(run_terms(run) =~= cjk_terms(run));
    assert forall|i: int| 0 <= i < run.len() - 1 implies run_terms(run)[run.len() + i] == seq![
        #[trigger] run[i],
        run[i + 1],
    ] by {
        assert(run.subrange(i, i + 2) =~= seq![run[i], run[i + 1]]);
    }
}

/// What is neither an ideograph nor part of a word is no part of any term.
pub proof fn separators_are_no_terms(letter: char)
    ensures
        !cjk(letter) && !wordy(letter) ==> run_terms(seq![letter]).len() == 0,
        cjk(letter) <==> (0x3400 <= letter as u32 <= 0x4dbf || 0x4e00 <= letter as u32 <= 0x9fff || 0xf900
            <= letter as u32 <= 0xfaff),
        wordy(letter) <==> !cjk(letter) && (alphanumeric(letter) || letter == '_'),
{
    assert(seq![letter].drop_first() =~= Seq::<char>::empty());
    assert(run_terms(seq![letter].drop_first()).len() == 0);
}

/// Case does not matter to how a text is found: two texts with the same lower-case form
/// have the same terms and the same exact form, and two texts that are the same but for
/// blanks have the same exact form.
pub proof fn case_and_blanks_do_not_matter(a: Seq<char>, b: Seq<char>)
    ensures
        lowered(a) == lowered(b) ==> terms(a) == terms(b) && exact_form(a) == exact_form(b),
        collapsed(lowered(a)) == collapsed(lowered(b)) <==> exact_form(a) == exact_form(b),
        terms(a) == run_terms(lowered(a)),
        exact_form(a).len() == 0 <==> forall|i: int| 0 <= i < lowered(a).len() ==> blank(#[trigger] lowered(a)[i]),
{
    reveal(terms);
    reveal(exact_form);
    collapsed_to_nothing(lowered(a));
}

proof fn few_digests_are_all_indexed(digests: Seq<[u8; 32]>, n: nat)
    requires
        n <= digests.len(),
        digests.len() <= 8_192,
    ensures
        indexed_digests(digests, n).finite(),
        indexed_digests(digests, n).len() <= n,
        forall|i: int| 0 <= i < n ==> indexed_digests(digests, n).contains(#[trigger] digests[i]),
        forall|hash: [u8; 32]| #[trigger] indexed_digests(digests, n).contains(hash) ==> digests.contains(hash),
    decreases n,
{
    if n > 0 {
        few_digests_are_all_indexed(digests, (n - 1) as nat);
        let before = indexed_digests(digests, (n - 1) as nat);
        assert(before.len() < 8_192);
        assert forall|hash: [u8; 32]| #[trigger] indexed_digests(digests, n).contains(hash) implies digests.contains(
            hash,
        ) by {
            if !before.contains(hash) {
                assert(digests[n - 1] == hash);
            }
        }
    }
}

proof fn postings_are_put(s: StoreModel, record: RecordRef, hashes: Seq<[u8; 32]>, n: nat)
    requires
        n <= hashes.len(),
    ensures
        forall|i: int|
            0 <= i < n ==> s.with_postings(record, hashes, n).lexical_postings.contains_key(
                PostingKey { domain: 0x01, hash: #[trigger] hashes[i], record },
            ),
        forall|k: PostingKey|
            s.lexical_postings.contains_key(k) ==> #[trigger] s.with_postings(
                record,
                hashes,
                n,
            ).lexical_postings.contains_key(k),
        forall|k: PostingKey| #[trigger]
            s.with_postings(record, hashes, n).lexical_postings.contains_key(k) ==> s.lexical_postings.contains_key(k)
                || (k.record == record && k.domain == 0x01 && hashes.contains(k.hash)),
        s.with_postings(record, hashes, n).time_index == s.time_index,
        s.with_postings(record, hashes, n).lexical_docs == s.lexical_docs,
    decreases n,
{
    broadcast use crate::writing::parts_after_put;
    if n > 0 {
        postings_are_put(s, record, hashes, (n - 1) as nat);
        assert(hashes.contains(hashes[n - 1]));
    }
}

/// A text is filed under each of its terms, under its exact form and under when it was
/// observed, and under nothing else.
pub proof fn texts_are_filed_under_their_terms(
    s: StoreModel,
    record: RecordRef,
    revision: u64,
    scope: Scope,
    temporal: TemporalFacts,
    text: Seq<char>,
)
    requires
        terms(text).len() <= 8_192,
    ensures
        ({
            let after = s.indexed(record, revision, scope, temporal, text);
            &&& forall|i: int|
                0 <= i < terms(text).len() ==> after.lexical_postings.contains_key(
                    PostingKey {
                        domain: 0x01,
                        hash: index_digest(s.digest_key@, 0x01, utf8(#[trigger] terms(text)[i])),
                        record,
                    },
                )
            &&& after.lexical_postings.contains_key(
                PostingKey {
                    domain: 0x02,
                    hash: index_digest(s.digest_key@, 0x02, utf8(exact_form(text))),
                    record,
                },
            )
            &&& after.time_index.contains_key(TimeKey { observed_at_ms: temporal.observed_at_ms, record })
            &&& lookup(after.lexical_docs, record) matches Some(document) && document.revision == revision
                && document.scope == scope && document.temporal == temporal && document.record == record
            &&& forall|k: PostingKey| #[trigger]
                after.lexical_postings.contains_key(k) ==> s.lexical_postings.contains_key(k) || (k.record == record && (
                (k.domain == 0x02 && k.hash == index_digest(s.digest_key@, 0x02, utf8(exact_form(text)))) || (k.domain
                    == 0x01 && exists|i: int|
                    0 <= i < terms(text).len() && k.hash == index_digest(
                        s.digest_key@,
                        0x01,
                        utf8(#[trigger] terms(text)[i]),
                    ))))
            &&& forall|k: PostingKey|
                s.lexical_postings.contains_key(k) ==> #[trigger] after.lexical_postings.contains_key(k)
        }),
{
    reveal(StoreModel::indexed);
    broadcast use crate::writing::parts_after_put;
    let digests = term_digests(s.digest_key@, text);
    few_digests_are_all_indexed(digests, digests.len());
    let hashes = indexed_digests(digests, digests.len());
    in_order_lists(hashes);
    let list = in_order(hashes);
    let document = document_of(s.digest_key@, record, revision, scope, temporal, text);
    let base = s.put(WriteModel::PutLexicalDoc(record, document));
    postings_are_put(base, record, list, list.len());
    let after = s.indexed(record, revision, scope, temporal, text);
    assert forall|i: int| 0 <= i < terms(text).len() implies after.lexical_postings.contains_key(
        PostingKey {
            domain: 0x01,
            hash: index_digest(s.digest_key@, 0x01, utf8(#[trigger] terms(text)[i])),
            record,
        },
    ) by {
        assert(digests[i] == index_digest(s.digest_key@, 0x01, utf8(terms(text)[i])));
        assert(hashes.contains(digests[i]));
        assert(list.contains(digests[i]));
        let k = list.index_of(digests[i]);
        assert(list[k] == digests[i]);
    }
    assert forall|k: PostingKey| #[trigger] after.lexical_postings.contains_key(k) && !s.lexical_postings.contains_key(
        k,
    ) && k.domain == 0x01 implies exists|i: int|
        0 <= i < terms(text).len() && k.hash == index_digest(s.digest_key@, 0x01, utf8(#[trigger] terms(text)[i])) by {
        assert(list.contains(k.hash));
        assert(hashes.contains(k.hash));
        let i = digests.index_of(k.hash);
        assert(digests[i] == k.hash);
        assert(k.hash == index_digest(s.digest_key@, 0x01, utf8(terms(text)[i])));
    }
}

} // verus!
