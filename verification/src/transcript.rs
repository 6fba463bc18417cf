//! Segments returned by the recogniser and the text they add to the
//! transcript.
//!
//! The recogniser answers one batch with zero or more segments, in
//! chronological order. Each segment's text goes through the noise filter and
//! is closed with a line break; the results, concatenated in the order of the
//! segments, are what one worker cycle appends to the transcript.

use vstd::prelude::*;
use vstd::string::*;
use crate::noise::{
    filler_phrases, filtered, lemma_fillers_hold_no_line_break, lemma_filtered_keeps_foreign_tail,
    trim_noise_text,
};

verus! {

/// One timestamped span of recognised text.
pub struct Segment {
    /// Start of the span, in the recogniser's time unit.
    pub start_time: i64,
    /// End of the span, in the recogniser's time unit.
    pub end_time: i64,
    /// The recognised text, unfiltered.
    pub text: String,
}

/// The texts of a list of segments, in order.
pub open spec fn segment_texts(segments: Seq<Segment>) -> Seq<Seq<char>> {
    segments.map_values(|segment: Segment| segment.text@)
}

/// What one segment adds to the transcript: its text after the noise filter,
/// closed with a line break. A segment that was nothing but filler still
/// adds its line break.
pub open spec fn transcript_line(text: Seq<char>) -> Seq<char> {
    filtered(text, filler_phrases()).push('\n')
}

/// What the segments with the texts `texts` add to the transcript: each text
/// filtered and closed with a line break, in order.
pub open spec fn transcript_of(texts: Seq<Seq<char>>) -> Seq<char>
    decreases texts.len(),
{
    if texts.len() == 0 {
        Seq::empty()
    } else {
        transcript_of(texts.drop_last()) + transcript_line(texts.last())
    }
}

/// Builds the text that one cycle appends to the transcript.
pub fn accumulate(segments: &Vec<Segment>) -> (text: String)
    ensures
        text@ == transcript_of(segment_texts(segments@)),
{
    let ghost texts = segment_texts(segments@);
    let mut text = String::new();
    let mut k: usize = 0;
    assert(texts.take(0) == Seq::<Seq<char>>::empty());
    while k < segments.len()
        invariant
            texts == segment_texts(segments@),
            k <= segments@.len(),
            text@ == transcript_of(texts.take(k as int)),
        decreases segments@.len() - k,
    {
        let line = trim_noise_text(segments[k].text.clone());
        assert(texts.take(k + 1).drop_last() == texts.take(k as int));
        assert(texts.take(k + 1).last() == segments@[k as int].text@);
        let ghost before = text@;
        text.append(line.as_str());
        text.append("\n");
        proof {
            reveal_strlit("\n");
            assert("\n"@ == seq!['\n']);
            assert(before + line@ + seq!['\n'] == before + line@.push('\n'));
        }
        k += 1;
    }
    assert(texts.take(segments@.len() as int) == texts);
    text
}

/// Every segment adds at least its line break, so the text of a cycle is
/// empty exactly when the recogniser returned no segment.
pub proof fn lemma_transcript_holds_a_line_per_segment(texts: Seq<Seq<char>>)
    ensures
        transcript_of(texts).len() >= texts.len(),
        transcript_of(texts).len() == 0 <==> texts.len() == 0,
    decreases texts.len(),
{
    if texts.len() > 0 {
        lemma_transcript_holds_a_line_per_segment(texts.drop_last());
    }
}

/// The text of a cycle grows segment by segment: what the first segments
/// added stays in front when another segment follows.
pub proof fn lemma_transcript_extends(texts: Seq<Seq<char>>, next: Seq<char>)
    ensures
        transcript_of(texts.push(next)) == transcript_of(texts) + transcript_line(next),
{
    assert(texts.push(next).drop_last() == texts);
}

/// No filler phrase holds a line break, so it makes no difference whether a
/// segment's text gets its line break before the filter or after it.
pub proof fn lemma_line_break_may_come_first(text: Seq<char>)
    ensures
        filtered(text.push('\n'), filler_phrases()) == transcript_line(text),
{
    lemma_fillers_hold_no_line_break();
    lemma_filtered_keeps_foreign_tail(text, filler_phrases(), '\n');
}

} // verus!
