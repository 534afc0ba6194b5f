//! The record produced for each qualifying line: the file, the 1-based line
//! number, the raw line bytes, and the ordered non-overlapping match spans.

use vstd::prelude::*;

use crate::bytes::copy_bytes;

verus! {

/// The mathematical content of a [`SearchMatch`].
pub struct MatchView {
    pub file: Seq<u8>,
    pub line_number: int,
    pub content: Seq<u8>,
    pub spans: Seq<(usize, usize)>,
}

/// One qualifying line. Created by the line scanner, immutable thereafter.
/// Line text is kept as raw bytes; a span `(start, end)` is a half-open byte
/// range within `line_content`.
#[derive(Debug, Clone, PartialEq, Eq)]
pub struct SearchMatch {
    /// Name of the file containing the line.
    pub file: Vec<u8>,
    /// 1-based line number in the file.
    pub line_number: usize,
    /// Content of the line, without its terminator.
    pub line_content: Vec<u8>,
    /// `(start, end)` byte positions of the matches, in left-to-right order.
    pub matches: Vec<(usize, usize)>,
}

impl View for SearchMatch {
    type V = MatchView;

    open spec fn view(&self) -> MatchView {
        MatchView {
            file: self.file@,
            line_number: self.line_number as int,
            content: self.line_content@,
            spans: self.matches@,
        }
    }
}

impl DeepView for SearchMatch {
    type V = MatchView;

    open spec fn deep_view(&self) -> MatchView {
        self.view()
    }
}

/// The spans are within the line, each is a well-formed half-open range, and
/// they come in left-to-right order without overlapping.
pub open spec fn spans_wf(spans: Seq<(usize, usize)>, len: nat) -> bool {
    &&& forall|i: int|
        0 <= i < spans.len() ==> (#[trigger] spans[i]).0 <= spans[i].1 <= len
    &&& forall|i: int|
        0 <= i < spans.len() - 1 ==> (#[trigger] spans[i]).1 <= spans[i + 1].0
}

/// The spans come in left-to-right order without overlapping; nothing is said
/// about staying within any line. This is all the highlighter requires: it
/// clamps each span to the line it renders.
pub open spec fn spans_sorted(spans: Seq<(usize, usize)>) -> bool {
    &&& forall|i: int| 0 <= i < spans.len() ==> (#[trigger] spans[i]).0 <= spans[i].1
    &&& forall|i: int|
        0 <= i < spans.len() - 1 ==> (#[trigger] spans[i]).1 <= spans[i + 1].0
}

/// Spans that fit a line are in particular sorted and non-overlapping.
pub proof fn lemma_spans_wf_sorted(spans: Seq<(usize, usize)>, len: nat)
    requires
        spans_wf(spans, len),
    ensures
        spans_sorted(spans),
{
}

impl SearchMatch {
    /// A record is well formed when its spans fit its own line text.
    pub open spec fn wf(&self) -> bool {
        spans_wf(self.matches@, self.line_content@.len())
    }

    pub fn new(
        file: &[u8],
        line_number: usize,
        line_content: Vec<u8>,
        matches: Vec<(usize, usize)>,
    ) -> (r: Self)
        requires
            spans_wf(matches@, line_content@.len()),
        ensures
            r.wf(),
            r@ == (MatchView {
                file: file@,
                line_number: line_number as int,
                content: line_content@,
                spans: matches@,
            }),
    {
        SearchMatch { file: copy_bytes(file), line_number, line_content, matches }
    }
}

} // verus!
