//! Replacing a phrase in a text.
//!
//! A text is scanned once from the left. Where the phrase stands, the
//! replacement is written and the scan goes on behind the occurrence;
//! elsewhere the character is kept and the scan moves on by one. So
//! occurrences are found leftmost first and never overlap, and what a
//! replacement brings together is not looked at again.

use vstd::prelude::*;
use vstd::string::*;

verus! {

/// The contents of a list of strings.
pub open spec fn texts_of(strings: Seq<String>) -> Seq<Seq<char>> {
    strings.map_values(|string: String| string@)
}

/// `phrase` stands in `text` at position `at`.
pub open spec fn occurs_at(text: Seq<char>, phrase: Seq<char>, at: int) -> bool {
    &&& 0 <= at
    &&& at + phrase.len() <= text.len()
    &&& text.subrange(at, at + phrase.len()) == phrase
}

/// `text` with each occurrence of `phrase` replaced by `replacement`. An
/// empty phrase is found nowhere.
pub open spec fn replaced(text: Seq<char>, phrase: Seq<char>, replacement: Seq<char>) -> Seq<
    char,
>
    decreases text.len(),
{
    if phrase.len() == 0 || text.len() < phrase.len() {
        text
    } else if occurs_at(text, phrase, 0) {
        replacement + replaced(text.skip(phrase.len() as int), phrase, replacement)
    } else {
        text.take(1) + replaced(text.skip(1), phrase, replacement)
    }
}

/// The characters of `text`, in order.
fn chars_of(text: &str) -> (chars: Vec<char>)
    ensures
        chars@ == text@,
{
    let mut chars: Vec<char> = Vec::new();
    for c in it: text.chars()
        invariant
            it.seq() == text@,
            chars@ == it.seq().take(it.index()),
    {
        chars.push(c);
    }
    chars
}

/// Tells whether `phrase` stands in `text` at position `at`.
fn phrase_at(text: &Vec<char>, phrase: &Vec<char>, at: usize) -> (found: bool)
    requires
        at + phrase@.len() <= text@.len(),
    ensures
        found == occurs_at(text@, phrase@, at as int),
{
    let n = text.len();
    let m = phrase.len();
    let mut k: usize = 0;
    while k < m
        invariant
            n == text@.len(),
            m == phrase@.len(),
            at + m <= n,
            k <= m,
            text@.subrange(at as int, at + k) == phrase@.take(k as int),
        decreases m - k,
    {
        if text[at + k] != phrase[k] {
            assert(text@.subrange(at as int, at + m)[k as int] != phrase@[k as int]);
            return false;
        }
        assert(text@.subrange(at as int, at + k + 1) == text@.subrange(at as int, at + k).push(
            text@[at + k],
        ));
        assert(phrase@.take(k + 1) == phrase@.take(k as int).push(phrase@[k as int]));
        k += 1;
    }
    assert(phrase@.take(m as int) == phrase@);
    true
}

/// Replaces each occurrence of `phrase` in `text` by `replacement`.
pub fn replace_all(text: &str, phrase: &str, replacement: &str) -> (result: String)
    ensures
        result@ == replaced(text@, phrase@, replacement@),
{
    let chars = chars_of(text);
    let pattern = chars_of(phrase);
    let n = chars.len();
    let m = pattern.len();
    if m == 0 || n < m {
        return text.to_owned();
    }
    let mut result = String::new();
    // text[kept_from..at] is scanned and kept, but not copied yet
    let mut kept_from: usize = 0;
    let mut at: usize = 0;
    assert(text@.skip(0) == text@);
    assert(result@ + text@.subrange(0, 0) == Seq::<char>::empty());
    assert(Seq::<char>::empty() + text@ == text@);
    while at <= n - m
        invariant
            chars@ == text@,
            pattern@ == phrase@,
            n == chars@.len(),
            m == pattern@.len(),
            0 < m <= n,
            kept_from <= at <= n,
            replaced(text@, phrase@, replacement@) == result@ + text@.subrange(
                kept_from as int,
                at as int,
            ) + replaced(text@.skip(at as int), phrase@, replacement@),
        decreases n - at,
    {
        let ghost rest = text@.skip(at as int);
        let ghost kept = text@.subrange(kept_from as int, at as int);
        let ghost before = result@;
        assert(rest.subrange(0, m as int) == text@.subrange(at as int, at + m));
        if phrase_at(&chars, &pattern, at) {
            result.append(text.substring_char(kept_from, at));
            result.append(replacement);
            assert(rest.skip(m as int) == text@.skip(at + m));
            at += m;
            kept_from = at;
            assert(text@.subrange(kept_from as int, at as int) == Seq::<char>::empty());
            assert(before + kept + (replacement@ + replaced(
                text@.skip(at as int),
                phrase@,
                replacement@,
            )) == result@ + Seq::<char>::empty() + replaced(
                text@.skip(at as int),
                phrase@,
                replacement@,
            ));
        } else {
            assert(rest.take(1) == text@.subrange(at as int, at + 1));
            assert(rest.skip(1) == text@.skip(at + 1));
            assert(kept + text@.subrange(at as int, at + 1) == text@.subrange(
                kept_from as int,
                at + 1,
            ));
            assert(before + kept + (rest.take(1) + replaced(rest.skip(1), phrase@, replacement@))
                == before + (kept + rest.take(1)) + replaced(rest.skip(1), phrase@, replacement@));
            at += 1;
        }
    }
    assert(text@.subrange(kept_from as int, at as int) + text@.skip(at as int)
        == text@.subrange(kept_from as int, n as int));
    result.append(text.substring_char(kept_from, n));
    result
}

/// A phrase that stands nowhere in a text leaves it unchanged, whatever the
/// replacement.
pub proof fn lemma_absent_phrase_replaces_nothing(
    text: Seq<char>,
    phrase: Seq<char>,
    replacement: Seq<char>,
)
    requires
        forall|at: int| !occurs_at(text, phrase, at),
    ensures
        replaced(text, phrase, replacement) == text,
    decreases text.len(),
{
    if phrase.len() > 0 && text.len() >= phrase.len() {
        assert forall|at: int| !occurs_at(text.skip(1), phrase, at) by {
            if occurs_at(text.skip(1), phrase, at) {
                assert(text.skip(1).subrange(at, at + phrase.len()) == text.subrange(
                    at + 1,
                    at + 1 + phrase.len(),
                ));
                assert(occurs_at(text, phrase, at + 1));
            }
        }
        lemma_absent_phrase_replaces_nothing(text.skip(1), phrase, replacement);
        assert(text.take(1) + text.skip(1) == text);
    }
}

} // verus!
