//! The noise filter: removal of known filler phrases from recognised text.
//!
//! A recogniser fed with silence or music tends to produce a few stock
//! phrases. The filter deletes every literal occurrence of each phrase of a
//! fixed list, case-sensitively and without looking at anything else, and
//! adds nothing. One pass takes the phrases in the order of the list and
//! removes each from left to right, so occurrences never overlap. Where a
//! removal brings the two halves of a phrase together, the next pass finds
//! the phrase so formed: the passes are repeated until one removes nothing,
//! and what comes out holds no phrase of the list.

use vstd::prelude::*;
use vstd::string::*;
use crate::text::{
    lemma_absent_phrase_replaces_nothing, occurs_at, replace_all, replaced, texts_of,
};

verus! {

/// `phrase` is not empty and stands somewhere in `text`.
pub open spec fn contains_phrase(text: Seq<char>, phrase: Seq<char>) -> bool {
    phrase.len() > 0 && exists|at: int| occurs_at(text, phrase, at)
}

/// `text` with the occurrences of `phrase` removed, scanning once from the
/// left. An empty phrase removes nothing.
pub open spec fn without_phrase(text: Seq<char>, phrase: Seq<char>) -> Seq<char>
    decreases text.len(),
{
    if phrase.len() == 0 || text.len() < phrase.len() {
        text
    } else if occurs_at(text, phrase, 0) {
        without_phrase(text.skip(phrase.len() as int), phrase)
    } else {
        text.take(1) + without_phrase(text.skip(1), phrase)
    }
}

/// `text` after each phrase of `phrases` was removed from it, one phrase
/// after another in the order of the list.
pub open spec fn without_phrases(text: Seq<char>, phrases: Seq<Seq<char>>) -> Seq<char>
    decreases phrases.len(),
{
    if phrases.len() == 0 {
        text
    } else {
        without_phrases(without_phrase(text, phrases[0]), phrases.drop_first())
    }
}

/// No phrase of `phrases` stands anywhere in `text`.
pub open spec fn is_clean(text: Seq<char>, phrases: Seq<Seq<char>>) -> bool {
    forall|k: int| 0 <= k < phrases.len() ==> !contains_phrase(text, #[trigger] phrases[k])
}

/// The filler phrases that the pipeline removes. The longer phrase comes
/// first: it ends with the shorter one.
pub open spec fn filler_phrases() -> Seq<Seq<char>> {
    seq!["ご視聴ありがとうございました"@, "ありがとうございました"@]
}

/// `text` after the filter: the passes over the list repeated until a pass
/// removes nothing.
pub open spec fn filtered(text: Seq<char>, phrases: Seq<Seq<char>>) -> Seq<char>
    decreases text.len(),
{
    let once = without_phrases(text, phrases);
    if once.len() < text.len() {
        filtered(once, phrases)
    } else {
        text
    }
}

/// Removes the occurrences of `phrase` from `text` in one pass from the left.
pub fn remove_phrase(text: &str, phrase: &str) -> (cleaned: String)
    ensures
        cleaned@ == without_phrase(text@, phrase@),
{
    proof {
        reveal_strlit("");
        assert(""@ == Seq::<char>::empty());
        lemma_removal_is_replacement_by_nothing(text@, phrase@);
    }
    replace_all(text, phrase, "")
}

/// One pass of the filter: removes the phrases of `phrases` from `text`, one
/// after another in the order of the list.
fn remove_phrases(text: &str, phrases: &Vec<String>) -> (cleaned: String)
    ensures
        cleaned@ == without_phrases(text@, texts_of(phrases@)),
{
    let ghost all = texts_of(phrases@);
    let mut cleaned = text.to_owned();
    let mut k: usize = 0;
    assert(all.skip(0) == all);
    while k < phrases.len()
        invariant
            all == texts_of(phrases@),
            k <= phrases@.len(),
            without_phrases(text@, all) == without_phrases(cleaned@, all.skip(k as int)),
        decreases phrases@.len() - k,
    {
        assert(all.skip(k as int)[0] == phrases@[k as int]@);
        assert(all.skip(k as int).drop_first() == all.skip(k + 1));
        cleaned = remove_phrase(cleaned.as_str(), phrases[k].as_str());
        k += 1;
    }
    cleaned
}

/// Removes the phrases of `phrases` from `text` until none of them is left
/// in it. Text without any of the phrases comes back unchanged.
pub fn filter_noise(text: &str, phrases: &Vec<String>) -> (cleaned: String)
    ensures
        cleaned@ == filtered(text@, texts_of(phrases@)),
        is_clean(cleaned@, texts_of(phrases@)),
        cleaned@.len() <= text@.len(),
{
    let ghost all = texts_of(phrases@);
    let mut cleaned = text.to_owned();
    loop
        invariant
            all == texts_of(phrases@),
            filtered(text@, all) == filtered(cleaned@, all),
            cleaned@.len() <= text@.len(),
        decreases cleaned@.len(),
    {
        let once = remove_phrases(cleaned.as_str(), phrases);
        proof {
            lemma_pass_shortens_unclean(cleaned@, all);
            lemma_unchanged_iff_clean(cleaned@, all);
        }
        if once == cleaned {
            return cleaned;
        }
        cleaned = once;
    }
}

/// The list of filler phrases.
pub fn filler_phrase_list() -> (phrases: Vec<String>)
    ensures
        texts_of(phrases@) == filler_phrases(),
{
    let mut phrases: Vec<String> = Vec::new();
    phrases.push("ご視聴ありがとうございました".to_owned());
    phrases.push("ありがとうございました".to_owned());
    assert(texts_of(phrases@) == filler_phrases());
    phrases
}

/// Removes the filler phrases from a segment's text. A segment that held
/// nothing but filler becomes empty; nothing is added to the text.
pub fn trim_noise_text(text: String) -> (trimmed: String)
    ensures
        trimmed@ == filtered(text@, filler_phrases()),
        is_clean(trimmed@, filler_phrases()),
        trimmed@.len() <= text@.len(),
{
    let phrases = filler_phrase_list();
    filter_noise(text.as_str(), &phrases)
}

/// Removing a phrase is replacing it by nothing.
pub proof fn lemma_removal_is_replacement_by_nothing(text: Seq<char>, phrase: Seq<char>)
    ensures
        replaced(text, phrase, Seq::empty()) == without_phrase(text, phrase),
    decreases text.len(),
{
    if phrase.len() == 0 || text.len() < phrase.len() {
    } else if occurs_at(text, phrase, 0) {
        let rest = text.skip(phrase.len() as int);
        lemma_removal_is_replacement_by_nothing(rest, phrase);
        assert(Seq::<char>::empty() + without_phrase(rest, phrase) == without_phrase(
            rest,
            phrase,
        ));
    } else {
        lemma_removal_is_replacement_by_nothing(text.skip(1), phrase);
    }
}

/// A character that is in no phrase may be added behind a text before or
/// after the phrase is removed: the result is the same.
pub proof fn lemma_removal_keeps_foreign_tail(text: Seq<char>, phrase: Seq<char>, tail: char)
    requires
        !phrase.contains(tail),
    ensures
        without_phrase(text.push(tail), phrase) == without_phrase(text, phrase).push(tail),
    decreases text.len(),
{
    let longer = text.push(tail);
    let m = phrase.len() as int;
    if m == 0 || longer.len() < m {
    } else if text.len() < m {
        if occurs_at(longer, phrase, 0) {
            assert(longer.subrange(0, m)[m - 1] == tail);
            assert(phrase[m - 1] == tail);
        }
        assert(without_phrase(longer.skip(1), phrase) == longer.skip(1));
        assert(longer.take(1) + longer.skip(1) == longer);
    } else {
        assert(longer.subrange(0, m) == text.subrange(0, m));
        if occurs_at(text, phrase, 0) {
            assert(longer.skip(m) == text.skip(m).push(tail));
            lemma_removal_keeps_foreign_tail(text.skip(m), phrase, tail);
        } else {
            assert(longer.take(1) == text.take(1));
            assert(longer.skip(1) == text.skip(1).push(tail));
            lemma_removal_keeps_foreign_tail(text.skip(1), phrase, tail);
            assert((text.take(1) + without_phrase(text.skip(1), phrase)).push(tail)
                == text.take(1) + without_phrase(text.skip(1), phrase).push(tail));
        }
    }
}

/// The same for a pass over a list of phrases.
pub proof fn lemma_filter_keeps_foreign_tail(text: Seq<char>, phrases: Seq<Seq<char>>, tail: char)
    requires
        forall|k: int| 0 <= k < phrases.len() ==> !(#[trigger] phrases[k]).contains(tail),
    ensures
        without_phrases(text.push(tail), phrases) == without_phrases(text, phrases).push(tail),
    decreases phrases.len(),
{
    if phrases.len() > 0 {
        lemma_removal_keeps_foreign_tail(text, phrases[0], tail);
        assert forall|k: int| 0 <= k < phrases.drop_first().len() implies !(
        #[trigger] phrases.drop_first()[k]).contains(tail) by {
            assert(phrases.drop_first()[k] == phrases[k + 1]);
        }
        lemma_filter_keeps_foreign_tail(
            without_phrase(text, phrases[0]),
            phrases.drop_first(),
            tail,
        );
    }
}

/// The same for the whole filter.
pub proof fn lemma_filtered_keeps_foreign_tail(
    text: Seq<char>,
    phrases: Seq<Seq<char>>,
    tail: char,
)
    requires
        forall|k: int| 0 <= k < phrases.len() ==> !(#[trigger] phrases[k]).contains(tail),
    ensures
        filtered(text.push(tail), phrases) == filtered(text, phrases).push(tail),
    decreases text.len(),
{
    let once = without_phrases(text, phrases);
    lemma_filter_keeps_foreign_tail(text, phrases, tail);
    if once.len() < text.len() {
        lemma_filtered_keeps_foreign_tail(once, phrases, tail);
    }
}

/// No filler phrase holds a line break.
pub proof fn lemma_fillers_hold_no_line_break()
    ensures
        forall|k: int|
            0 <= k < filler_phrases().len() ==> !(#[trigger] filler_phrases()[k]).contains('\n'),
{
    reveal_strlit("ご視聴ありがとうございました");
    reveal_strlit("ありがとうございました");
    let phrases = filler_phrases();
    assert forall|k: int| 0 <= k < phrases.len() implies !(#[trigger] phrases[k]).contains(
        '\n',
    ) by {
        let phrase = phrases[k];
        assert forall|i: int| 0 <= i < phrase.len() implies phrase[i] != '\n' by {}
    }
}

/// A phrase that does not stand in a text is removed from it without a change.
pub proof fn lemma_absent_phrase_removes_nothing(text: Seq<char>, phrase: Seq<char>)
    requires
        !contains_phrase(text, phrase),
    ensures
        without_phrase(text, phrase) == text,
{
    if phrase.len() > 0 {
        lemma_absent_phrase_replaces_nothing(text, phrase, Seq::empty());
        lemma_removal_is_replacement_by_nothing(text, phrase);
    }
}

/// Removing a phrase never makes a text longer, and makes it shorter where
/// the phrase stands in it.
pub proof fn lemma_removal_shortens(text: Seq<char>, phrase: Seq<char>)
    ensures
        without_phrase(text, phrase).len() <= text.len(),
        contains_phrase(text, phrase) ==> without_phrase(text, phrase).len() < text.len(),
    decreases text.len(),
{
    if phrase.len() == 0 || text.len() < phrase.len() {
    } else if occurs_at(text, phrase, 0) {
        lemma_removal_shortens(text.skip(phrase.len() as int), phrase);
    } else {
        lemma_removal_shortens(text.skip(1), phrase);
        if contains_phrase(text, phrase) {
            let at = choose|at: int| occurs_at(text, phrase, at);
            assert(text.skip(1).subrange(at - 1, at - 1 + phrase.len()) == text.subrange(
                at,
                at + phrase.len(),
            ));
            assert(occurs_at(text.skip(1), phrase, at - 1));
        }
    }
}

/// A pass never makes a text longer.
pub proof fn lemma_filter_never_lengthens(text: Seq<char>, phrases: Seq<Seq<char>>)
    ensures
        without_phrases(text, phrases).len() <= text.len(),
    decreases phrases.len(),
{
    if phrases.len() > 0 {
        lemma_removal_shortens(text, phrases[0]);
        lemma_filter_never_lengthens(without_phrase(text, phrases[0]), phrases.drop_first());
    }
}

/// A pass returns a text unchanged exactly when none of the phrases stands
/// in it.
pub proof fn lemma_unchanged_iff_clean(text: Seq<char>, phrases: Seq<Seq<char>>)
    ensures
        without_phrases(text, phrases) == text <==> is_clean(text, phrases),
    decreases phrases.len(),
{
    if phrases.len() > 0 {
        let first = phrases[0];
        let rest = phrases.drop_first();
        if contains_phrase(text, first) {
            lemma_removal_shortens(text, first);
            lemma_filter_never_lengthens(without_phrase(text, first), rest);
        } else {
            lemma_absent_phrase_removes_nothing(text, first);
            lemma_unchanged_iff_clean(text, rest);
            if is_clean(text, rest) {
                assert forall|k: int| 0 <= k < phrases.len() implies !contains_phrase(
                    text,
                    #[trigger] phrases[k],
                ) by {
                    if k > 0 {
                        assert(phrases[k] == rest[k - 1]);
                    }
                }
            }
            if is_clean(text, phrases) {
                assert forall|k: int| 0 <= k < rest.len() implies !contains_phrase(
                    text,
                    #[trigger] rest[k],
                ) by {
                    assert(rest[k] == phrases[k + 1]);
                }
            }
        }
    }
}

/// A pass never makes a text longer, and makes it shorter where a phrase
/// stands in it.
pub proof fn lemma_pass_shortens_unclean(text: Seq<char>, phrases: Seq<Seq<char>>)
    ensures
        without_phrases(text, phrases).len() <= text.len(),
        !is_clean(text, phrases) ==> without_phrases(text, phrases).len() < text.len(),
    decreases phrases.len(),
{
    lemma_filter_never_lengthens(text, phrases);
    if phrases.len() > 0 {
        let first = phrases[0];
        let rest = phrases.drop_first();
        lemma_removal_shortens(text, first);
        lemma_filter_never_lengthens(without_phrase(text, first), rest);
        if !contains_phrase(text, first) {
            lemma_absent_phrase_removes_nothing(text, first);
            lemma_pass_shortens_unclean(text, rest);
            if is_clean(text, rest) {
                assert forall|k: int| 0 <= k < phrases.len() implies !contains_phrase(
                    text,
                    #[trigger] phrases[k],
                ) by {
                    if k > 0 {
                        assert(phrases[k] == rest[k - 1]);
                    }
                }
            }
        }
    }
}

/// What the filter returns holds none of the phrases, also none that a
/// removal brought together, and is never longer than the text.
pub proof fn lemma_filtered_is_clean(text: Seq<char>, phrases: Seq<Seq<char>>)
    ensures
        is_clean(filtered(text, phrases), phrases),
        filtered(text, phrases).len() <= text.len(),
    decreases text.len(),
{
    let once = without_phrases(text, phrases);
    lemma_pass_shortens_unclean(text, phrases);
    if once.len() < text.len() {
        lemma_filtered_is_clean(once, phrases);
    }
}

/// The filter returns a text unchanged exactly when none of the phrases
/// stands in it.
pub proof fn lemma_filtered_unchanged_iff_clean(text: Seq<char>, phrases: Seq<Seq<char>>)
    ensures
        filtered(text, phrases) == text <==> is_clean(text, phrases),
{
    lemma_filtered_is_clean(text, phrases);
    lemma_unchanged_iff_clean(text, phrases);
}

/// Filtering twice gives what filtering once gives.
pub proof fn lemma_filter_is_idempotent(text: Seq<char>, phrases: Seq<Seq<char>>)
    ensures
        filtered(filtered(text, phrases), phrases) == filtered(text, phrases),
{
    lemma_filtered_is_clean(text, phrases);
    lemma_filtered_unchanged_iff_clean(filtered(text, phrases), phrases);
}

} // verus!
