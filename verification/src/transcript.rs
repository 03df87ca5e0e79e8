//! Cutting the transcript out of a comic's companion page.
//!
//! The transcript is the raw text between two anchors of the page. Markup
//! that stands between them is kept as it is.

use vstd::prelude::*;
use vstd::string::StrSliceExecFns;
use crate::text::{chars_of, find, first_occurrence};

verus! {

/// The anchor that opens the transcript on a companion page.
pub const BEGIN_MARKER: &'static str = "id=\"Transcript\"";

/// The anchor that follows the transcript on a companion page.
pub const END_MARKER: &'static str = "id=\"Discussion\"";

/// The transcript that a companion page holds: the raw text from the end of
/// the leftmost opening anchor to the start of the leftmost closing anchor.
/// It is empty where either anchor is missing, and where the closing anchor
/// begins before the opening one has ended.
pub open spec fn transcript_of(page: Seq<char>) -> Seq<char> {
    match (first_occurrence(page, BEGIN_MARKER@), first_occurrence(page, END_MARKER@)) {
        (Some(begin), Some(end)) => if begin + BEGIN_MARKER@.len() <= end {
            page.subrange(begin + BEGIN_MARKER@.len(), end)
        } else {
            Seq::empty()
        },
        _ => Seq::empty(),
    }
}

/// A page that lacks one of the two anchors has an empty transcript.
pub proof fn transcript_needs_both_markers(page: Seq<char>)
    requires
        !crate::text::contains(page, BEGIN_MARKER@) || !crate::text::contains(page, END_MARKER@),
    ensures
        transcript_of(page) == Seq::<char>::empty(),
{
}

/// Cuts the transcript out of a companion page. Never fails: a page without
/// the anchors gives the empty text.
pub fn extract_transcript(page: &str) -> (transcript: String)
    ensures
        transcript@ == transcript_of(page@),
{
    let chars = chars_of(page);
    let opening = chars_of(BEGIN_MARKER);
    let closing = chars_of(END_MARKER);
    match (find(&chars, &opening), find(&chars, &closing)) {
        (Some(begin), Some(end)) => {
            if begin <= end && opening.len() <= end - begin {
                page.substring_char(begin + opening.len(), end).to_owned()
            } else {
                String::new()
            }
        },
        _ => String::new(),
    }
}

} // verus!
