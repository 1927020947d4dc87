//! Text: trimming, exact normal form and index terms.
use vstd::prelude::*;
use crate::table::{views, views_of_push};

verus! {

/// Appends one character, as `String::push` documents.
pub assume_specification[ String::push ](text: &mut String, letter: char)
    ensures
        final(text)@ == old(text)@.push(letter),
;

/// What `char::to_lowercase` yields for a character.
pub uninterp spec fn lower_letters(letter: char) -> Seq<char>;

/// Calls `char::to_lowercase` and names the characters that it yields.
#[verifier::external_body]
fn lower(letter: char) -> (r: Vec<char>)
    ensures
        r@ == lower_letters(letter),
{
    letter.to_lowercase().collect()
}

/// What `char::is_whitespace` answers.
pub uninterp spec fn blank(letter: char) -> bool;

/// Calls `char::is_whitespace` and names its answer.
#[verifier::external_body]
fn is_blank(letter: char) -> (r: bool)
    ensures
        r == blank(letter),
{
    letter.is_whitespace()
}

/// What `char::is_alphanumeric` answers.
pub uninterp spec fn alphanumeric(letter: char) -> bool;

/// Calls `char::is_alphanumeric` and names its answer.
#[verifier::external_body]
fn is_alphanumeric(letter: char) -> (r: bool)
    ensures
        r == alphanumeric(letter),
{
    letter.is_alphanumeric()
}

/// The characters of a text.
pub fn letters(text: &str) -> (r: Vec<char>)
    ensures
        r@ == text@,
{
    broadcast use vstd::string::axiom_spec_iter;

    let mut r: Vec<char> = Vec::new();
    for letter in iter: text.chars()
        invariant
            iter.seq() == text@,
            r@ == text@.take(iter.index() as int),
    {
        r.push(letter);
        assert(text@.take(iter.index() + 1) =~= text@.take(iter.index() as int).push(letter));
    }
    assert(text@.take(text@.len() as int) =~= text@);
    r
}

/// The text that the characters from `from` up to `to` spell.
pub fn spelled(letters: &Vec<char>, from: usize, to: usize) -> (r: String)
    requires
        from <= to <= letters@.len(),
    ensures
        r@ == letters@.subrange(from as int, to as int),
{
    let mut r = String::new();
    for i in from..to
        invariant
            from <= to <= letters@.len(),
            r@ == letters@.subrange(from as int, i as int),
    {
        r.push(letters[i]);
        assert(letters@.subrange(from as int, i + 1) =~= letters@.subrange(from as int, i as int).push(
            letters@[i as int],
        ));
    }
    r
}

/// The UTF-8 form of a text.
#[verifier::opaque]
pub open spec fn utf8(text: Seq<char>) -> Seq<u8> {
    vstd::utf8::encode_utf8(text)
}

/// The bytes of the UTF-8 form of a text.
pub fn text_bytes(text: &str) -> (r: &[u8])
    ensures
        r@ == utf8(text@),
{
    reveal(utf8);
    text.as_bytes()
}

/// The number of bytes of the UTF-8 form of a text.
pub fn byte_len(text: &str) -> (r: usize)
    ensures
        r == utf8(text@).len(),
{
    reveal(utf8);
    text.as_bytes().len()
}

/// A text without its leading blanks.
pub open spec fn without_leading_blanks(text: Seq<char>) -> Seq<char>
    decreases text.len(),
{
    if text.len() > 0 && blank(text[0]) {
        without_leading_blanks(text.drop_first())
    } else {
        text
    }
}

/// A text without its trailing blanks.
pub open spec fn without_trailing_blanks(text: Seq<char>) -> Seq<char>
    decreases text.len(),
{
    if text.len() > 0 && blank(text.last()) {
        without_trailing_blanks(text.drop_last())
    } else {
        text
    }
}

/// A text without the blanks at its ends.
#[verifier::opaque]
pub open spec fn trimmed(text: Seq<char>) -> Seq<char> {
    without_trailing_blanks(without_leading_blanks(text))
}

pub fn trim(text: &str) -> (r: String)
    ensures
        r@ == trimmed(text@),
{
    reveal(trimmed);
    let all = letters(text);
    let n: usize = all.len();
    let mut from: usize = 0;
    assert(all@.skip(0) =~= all@);
    while from < n && is_blank(all[from])
        invariant
            n == all@.len(),
            from <= n,
            without_leading_blanks(all@.skip(from as int)) == without_leading_blanks(all@),
        decreases n - from,
    {
        assert(all@.skip(from as int).drop_first() =~= all@.skip(from + 1));
        from = from + 1;
    }
    let ghost lead = all@.skip(from as int);
    assert(without_leading_blanks(all@) == lead);
    let mut to: usize = n;
    assert(all@.subrange(from as int, to as int) =~= lead);
    while to > from && is_blank(all[to - 1])
        invariant
            from <= to <= n,
            n == all@.len(),
            without_trailing_blanks(all@.subrange(from as int, to as int)) == without_trailing_blanks(lead),
        decreases to,
    {
        assert(all@.subrange(from as int, to as int).drop_last() =~= all@.subrange(from as int, to - 1));
        assert(all@.subrange(from as int, to as int).last() == all@[to - 1]);
        to = to - 1;
    }
    assert(to > from ==> all@.subrange(from as int, to as int).last() == all@[to - 1]);
    spelled(&all, from, to)
}

/// Trimming leaves no blank at either end, so that trimming again changes nothing.
pub proof fn trimmed_is_stable(text: Seq<char>)
    ensures
        trimmed(trimmed(text)) == trimmed(text),
        trimmed(text).len() > 0 ==> !blank(trimmed(text)[0]) && !blank(trimmed(text).last()),
{
    reveal(trimmed);
    leading_blanks_gone(text);
    trailing_blanks_gone(without_leading_blanks(text));
}

proof fn leading_blanks_gone(text: Seq<char>)
    ensures
        without_leading_blanks(text).len() > 0 ==> !blank(without_leading_blanks(text)[0]),
    decreases text.len(),
{
    if text.len() > 0 && blank(text[0]) {
        leading_blanks_gone(text.drop_first());
    }
}

proof fn trailing_blanks_gone(text: Seq<char>)
    ensures
        without_trailing_blanks(text).len() > 0 ==> {
            &&& !blank(without_trailing_blanks(text).last())
            &&& without_trailing_blanks(text)[0] == text[0]
        },
    decreases text.len(),
{
    if text.len() > 0 && blank(text.last()) {
        trailing_blanks_gone(text.drop_last());
    }
}

/// The lower-case form of a text, character by character.
pub open spec fn lowered(text: Seq<char>) -> Seq<char>
    decreases text.len(),
{
    if text.len() == 0 {
        Seq::empty()
    } else {
        lowered(text.drop_last()) + lower_letters(text.last())
    }
}

fn lower_text(text: &str) -> (r: Vec<char>)
    ensures
        r@ == lowered(text@),
{
    let all = letters(text);
    let mut r: Vec<char> = Vec::new();
    assert(all@.take(0) =~= Seq::<char>::empty());
    for i in 0..all.len()
        invariant
            r@ == lowered(all@.take(i as int)),
    {
        let mut low = lower(all[i]);
        r.append(&mut low);
        assert(all@.take(i + 1).drop_last() =~= all@.take(i as int));
    }
    assert(all@.take(all@.len() as int) =~= all@);
    r
}

/// A text with every run of blanks between two other characters replaced by one
/// space, and no other blanks.
pub open spec fn collapsed(text: Seq<char>) -> Seq<char>
    decreases text.len(),
{
    if text.len() == 0 {
        Seq::empty()
    } else {
        let rest = collapsed(text.drop_last());
        if blank(text.last()) {
            rest
        } else if rest.len() > 0 && blank(text[text.len() - 2]) {
            rest.push(' ').push(text.last())
        } else {
            rest.push(text.last())
        }
    }
}

/// The form in which two texts are compared exactly: lower case, blanks collapsed.
#[verifier::opaque]
pub open spec fn exact_form(text: Seq<char>) -> Seq<char> {
    collapsed(lowered(text))
}

pub fn normalize_exact(input: &str) -> (r: String)
    ensures
        r@ == exact_form(input@),
{
    reveal(exact_form);
    let low = lower_text(input);
    let mut output: Vec<char> = Vec::new();
    let mut pending_space = false;
    assert(low@.take(0) =~= Seq::<char>::empty());
    for i in 0..low.len()
        invariant
            output@ == collapsed(low@.take(i as int)),
            pending_space == (i > 0 && blank(low@[i - 1]) && output@.len() > 0),
    {
        let letter = low[i];
        let ghost now = low@.take(i + 1);
        assert(now.drop_last() =~= low@.take(i as int));
        assert(now.last() == letter);
        if is_blank(letter) {
            pending_space = output.len() > 0;
        } else {
            assert(i > 0 ==> now[now.len() - 2] == low@[i - 1]);
            if pending_space {
                output.push(' ');
                pending_space = false;
            }
            output.push(letter);
        }
    }
    assert(low@.take(low@.len() as int) =~= low@);
    let n: usize = output.len();
    assert(output@.subrange(0, n as int) =~= output@);
    spelled(&output, 0, n)
}

/// The exact form holds no two adjacent spaces that a run of blanks left behind:
/// it neither starts nor ends with a blank.
pub proof fn exact_form_has_bare_ends(text: Seq<char>)
    ensures
        exact_form(text).len() > 0 ==> !blank(exact_form(text)[0]) && !blank(exact_form(text).last()),
{
    reveal(exact_form);
    collapsed_has_bare_ends(lowered(text));
}

proof fn collapsed_has_bare_ends(text: Seq<char>)
    ensures
        collapsed(text).len() > 0 ==> !blank(collapsed(text)[0]) && !blank(collapsed(text).last()),
    decreases text.len(),
{
    if text.len() > 0 {
        collapsed_has_bare_ends(text.drop_last());
    }
}

/// A character of the ideographic blocks that are indexed one by one.
pub open spec fn cjk(letter: char) -> bool {
    let code = letter as u32;
    0x3400 <= code <= 0x4dbf || 0x4e00 <= code <= 0x9fff || 0xf900 <= code <= 0xfaff
}

pub fn is_cjk(character: char) -> (r: bool)
    ensures
        r == cjk(character),
{
    let code: u32 = character as u32;
    (0x3400 <= code && code <= 0x4dbf) || (0x4e00 <= code && code <= 0x9fff) || (0xf900 <= code && code
        <= 0xfaff)
}

/// A character that belongs to a word.
pub open spec fn wordy(letter: char) -> bool {
    !cjk(letter) && (alphanumeric(letter) || letter == '_')
}

fn is_wordy(letter: char) -> (r: bool)
    ensures
        r == wordy(letter),
{
    !is_cjk(letter) && (is_alphanumeric(letter) || letter == '_')
}

/// How many characters from the start are ideographs.
pub open spec fn cjk_run(text: Seq<char>) -> nat
    decreases text.len(),
{
    if text.len() > 0 && cjk(text[0]) {
        1 + cjk_run(text.drop_first())
    } else {
        0
    }
}

/// How many characters from the start belong to a word.
pub open spec fn word_run(text: Seq<char>) -> nat
    decreases text.len(),
{
    if text.len() > 0 && wordy(text[0]) {
        1 + word_run(text.drop_first())
    } else {
        0
    }
}

/// The most characters of a word that its term keeps.
pub const MAX_TERM_LETTERS: usize = 128;

/// The terms of a run of ideographs: each one, then each adjacent pair.
pub open spec fn cjk_terms(run: Seq<char>) -> Seq<Seq<char>> {
    Seq::new(
        (2 * run.len() - 1) as nat,
        |i: int| if i < run.len() { seq![run[i]] } else { run.subrange(i - run.len(), i - run.len() + 2) },
    )
}

/// The term of a word.
pub open spec fn word_term(word: Seq<char>) -> Seq<char> {
    if word.len() <= MAX_TERM_LETTERS {
        word
    } else {
        word.take(MAX_TERM_LETTERS as int)
    }
}

/// The terms of a lower-case text, run by run from the left.
pub open spec fn run_terms(text: Seq<char>) -> Seq<Seq<char>>
    decreases text.len(),
{
    proof {
        runs_fit(text);
    }
    if text.len() == 0 {
        Seq::empty()
    } else if cjk(text[0]) {
        cjk_terms(text.take(cjk_run(text) as int)) + run_terms(text.skip(cjk_run(text) as int))
    } else if wordy(text[0]) {
        seq![word_term(text.take(word_run(text) as int))] + run_terms(text.skip(word_run(text) as int))
    } else {
        run_terms(text.drop_first())
    }
}

pub proof fn runs_fit(text: Seq<char>)
    ensures
        cjk_run(text) <= text.len(),
        word_run(text) <= text.len(),
    decreases text.len(),
{
    if text.len() > 0 {
        runs_fit(text.drop_first());
    }
}

/// One step of splitting a text into runs.
proof fn run_terms_step(text: Seq<char>)
    requires
        text.len() > 0,
    ensures
        cjk(text[0]) ==> run_terms(text) == cjk_terms(text.take(cjk_run(text) as int)) + run_terms(
            text.skip(cjk_run(text) as int),
        ),
        wordy(text[0]) ==> run_terms(text) == seq![word_term(text.take(word_run(text) as int))]
            + run_terms(text.skip(word_run(text) as int)),
        !cjk(text[0]) && !wordy(text[0]) ==> run_terms(text) == run_terms(text.drop_first()),
{
    runs_fit(text);
}

/// The index terms of a text.
#[verifier::opaque]
pub open spec fn terms(text: Seq<char>) -> Seq<Seq<char>> {
    run_terms(lowered(text))
}

fn cjk_run_end(low: &Vec<char>, from: usize) -> (to: usize)
    requires
        from <= low@.len(),
    ensures
        from <= to <= low@.len(),
        to == from + cjk_run(low@.skip(from as int)),
{
    let mut to: usize = from;
    while to < low.len() && is_cjk(low[to])
        invariant
            from <= to <= low@.len(),
            cjk_run(low@.skip(from as int)) == to - from + cjk_run(low@.skip(to as int)),
        decreases low@.len() - to,
    {
        assert(low@.skip(to as int).drop_first() =~= low@.skip(to + 1));
        to = to + 1;
    }
    to
}

fn word_run_end(low: &Vec<char>, from: usize) -> (to: usize)
    requires
        from <= low@.len(),
    ensures
        from <= to <= low@.len(),
        to == from + word_run(low@.skip(from as int)),
{
    let mut to: usize = from;
    while to < low.len() && is_wordy(low[to])
        invariant
            from <= to <= low@.len(),
            word_run(low@.skip(from as int)) == to - from + word_run(low@.skip(to as int)),
        decreases low@.len() - to,
    {
        assert(low@.skip(to as int).drop_first() =~= low@.skip(to + 1));
        to = to + 1;
    }
    to
}

fn push_cjk_terms(tokens: &mut Vec<String>, low: &Vec<char>, from: usize, to: usize)
    requires
        from < to <= low@.len(),
    ensures
        views(final(tokens)@) == views(old(tokens)@) + cjk_terms(low@.subrange(from as int, to as int)),
{
    let ghost run = low@.subrange(from as int, to as int);
    let ghost wanted = cjk_terms(run);
    let ghost before = views(tokens@);
    for i in from..to
        invariant
            from < to <= low@.len(),
            run == low@.subrange(from as int, to as int),
            wanted == cjk_terms(run),
            views(tokens@) == before + wanted.take(i - from),
    {
        broadcast use views_of_push;

        let token = spelled(low, i, i + 1);
        assert(token@ =~= wanted[i - from]);
        tokens.push(token);
        assert(views(tokens@) =~= before + wanted.take(i + 1 - from));
    }
    for i in from..to - 1
        invariant
            from < to <= low@.len(),
            run == low@.subrange(from as int, to as int),
            wanted == cjk_terms(run),
            views(tokens@) == before + wanted.take(i - from + run.len()),
    {
        broadcast use views_of_push;

        let token = spelled(low, i, i + 2);
        assert(token@ =~= wanted[i - from + run.len()]);
        tokens.push(token);
        assert(views(tokens@) =~= before + wanted.take(i + 1 - from + run.len()));
    }
    assert(wanted.take(wanted.len() as int) =~= wanted);
}

pub fn tokenize(input: &str) -> (r: Vec<String>)
    ensures
        views(r@) == terms(input@),
{
    reveal(terms);
    let low = lower_text(input);
    let n: usize = low.len();
    let mut tokens: Vec<String> = Vec::new();
    let mut at: usize = 0;
    assert(low@.skip(0) =~= low@);
    assert(views(tokens@) + run_terms(low@) =~= run_terms(low@));
    while at < n
        invariant
            at <= n == low@.len(),
            views(tokens@) + run_terms(low@.skip(at as int)) == run_terms(low@),
        decreases n - at,
    {
        broadcast use views_of_push;

        let ghost rest = low@.skip(at as int);
        let ghost done = views(tokens@);
        proof {
            run_terms_step(rest);
            assert(rest[0] == low@[at as int]);
        }
        if is_cjk(low[at]) {
            let to = cjk_run_end(&low, at);
            assert(rest.take(cjk_run(rest) as int) =~= low@.subrange(at as int, to as int));
            assert(rest.skip(cjk_run(rest) as int) =~= low@.skip(to as int));
            push_cjk_terms(&mut tokens, &low, at, to);
            assert(views(tokens@) + run_terms(low@.skip(to as int)) =~= done + run_terms(rest));
            at = to;
        } else if is_wordy(low[at]) {
            let to = word_run_end(&low, at);
            assert(rest.take(word_run(rest) as int) =~= low@.subrange(at as int, to as int));
            assert(rest.skip(word_run(rest) as int) =~= low@.skip(to as int));
            let cut: usize = if to - at > MAX_TERM_LETTERS { at + MAX_TERM_LETTERS } else { to };
            let token = spelled(&low, at, cut);
            assert(token@ =~= word_term(low@.subrange(at as int, to as int)));
            tokens.push(token);
            assert(views(tokens@) + run_terms(low@.skip(to as int)) =~= done + run_terms(rest));
            at = to;
        } else {
            assert(rest.drop_first() =~= low@.skip(at + 1));
            at = at + 1;
        }
    }
    proof {
        assert(low@.skip(n as int) =~= Seq::<char>::empty());
        assert(run_terms(low@.skip(n as int)) =~= Seq::<Seq<char>>::empty()) by {
            runs_fit(low@.skip(n as int));
        }
        assert(views(tokens@) + Seq::<Seq<char>>::empty() =~= views(tokens@));
    }
    tokens
}

} // verus!
