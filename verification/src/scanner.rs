//! The line scanner: scans one file's lines against a compiled matcher and
//! produces match (or, in inverted mode, non-match) records.
//!
//! Lines are numbered from 1. A line qualifies in normal mode when the
//! matcher reports at least one span, and in inverted mode when it reports
//! none; an inverted record carries an empty span list. A line that does not
//! decode as text is silently skipped.

use vstd::prelude::*;

use crate::bytes::copy_bytes;
use crate::matcher::CompiledPattern;
use crate::matcher::line_decodes;
use crate::matcher::pattern_spans;
use crate::result::MatchView;
use crate::result::SearchMatch;
use crate::result::spans_wf;

verus! {

/// One file as the engine receives it: its name, and its lines as raw bytes,
/// or nothing when the file could not be read. An unreadable file contributes
/// zero records and never aborts the scan of the others.
pub struct FileInput {
    pub path: Vec<u8>,
    pub lines: Option<Vec<Vec<u8>>>,
}

/// The mathematical content of a [`FileInput`].
pub struct FileInputView {
    pub path: Seq<u8>,
    pub lines: Option<Seq<Seq<u8>>>,
}

impl View for FileInput {
    type V = FileInputView;

    open spec fn view(&self) -> FileInputView {
        FileInputView {
            path: self.path@,
            lines: match self.lines {
                Some(ls) => Some(ls.deep_view()),
                None => None,
            },
        }
    }
}

impl DeepView for FileInput {
    type V = FileInputView;

    open spec fn deep_view(&self) -> FileInputView {
        self.view()
    }
}

/// The records that one line contributes, given the spans the matcher
/// reported on it — `None` when the line did not decode. At most one record:
/// in normal mode the line qualifies when there is at least one span, in
/// inverted mode when there is none, and an inverted record carries no spans.
pub open spec fn line_record(
    path: Seq<u8>,
    number: int,
    line: Seq<u8>,
    spans: Option<Seq<(usize, usize)>>,
    invert: bool,
) -> Seq<MatchView> {
    match spans {
        None => seq![],
        Some(sp) => if !invert && sp.len() > 0 {
            seq![MatchView { file: path, line_number: number, content: line, spans: sp }]
        } else if invert && sp.len() == 0 {
            seq![
                MatchView {
                    file: path,
                    line_number: number,
                    content: line,
                    spans: Seq::empty(),
                },
            ]
        } else {
            seq![]
        },
    }
}

/// The records that line number `number` with content `line` contributes when
/// scanned with the matcher of `(needle, ignore_case)`.
pub open spec fn record_of(
    path: Seq<u8>,
    number: int,
    line: Seq<u8>,
    needle: Seq<u8>,
    ignore_case: bool,
    invert: bool,
) -> Seq<MatchView> {
    line_record(
        path,
        number,
        line,
        if line_decodes(line) {
            Some(pattern_spans(needle, ignore_case, line))
        } else {
            None
        },
        invert,
    )
}

/// The records of a whole file, in ascending line-number order.
pub open spec fn scan_records(
    path: Seq<u8>,
    lines: Seq<Seq<u8>>,
    needle: Seq<u8>,
    ignore_case: bool,
    invert: bool,
) -> Seq<MatchView>
    decreases lines.len(),
{
    if lines.len() == 0 {
        seq![]
    } else {
        scan_records(path, lines.drop_last(), needle, ignore_case, invert) + record_of(
            path,
            lines.len() as int,
            lines.last(),
            needle,
            ignore_case,
            invert,
        )
    }
}

/// Every record of a file carries a line number between 1 and the number of
/// its lines.
pub proof fn lemma_scan_records_line_bounds(
    path: Seq<u8>,
    lines: Seq<Seq<u8>>,
    needle: Seq<u8>,
    ignore_case: bool,
    invert: bool,
)
    ensures
        forall|a: int|
            0 <= a < scan_records(path, lines, needle, ignore_case, invert).len() ==> 1 <= (
            #[trigger] scan_records(path, lines, needle, ignore_case, invert)[a]).line_number
                <= lines.len(),
    decreases lines.len(),
{
    if lines.len() > 0 {
        lemma_scan_records_line_bounds(path, lines.drop_last(), needle, ignore_case, invert);
        let prefix = scan_records(path, lines.drop_last(), needle, ignore_case, invert);
        let whole = scan_records(path, lines, needle, ignore_case, invert);
        assert(forall|a: int| 0 <= a < prefix.len() ==> #[trigger] whole[a] == prefix[a]);
        assert(forall|a: int|
            prefix.len() <= a < whole.len() ==> (#[trigger] whole[a]).line_number == lines.len());
    }
}

/// Within one file, records come in strictly ascending line-number order:
/// a file's lines are always reported in the order they stand in the file.
pub proof fn lemma_scan_records_ascending(
    path: Seq<u8>,
    lines: Seq<Seq<u8>>,
    needle: Seq<u8>,
    ignore_case: bool,
    invert: bool,
)
    ensures
        forall|a: int, b: int|
            0 <= a < b < scan_records(path, lines, needle, ignore_case, invert).len()
                ==> (#[trigger] scan_records(path, lines, needle, ignore_case, invert)[a]).line_number
                < (#[trigger] scan_records(path, lines, needle, ignore_case, invert)[b]).line_number,
    decreases lines.len(),
{
    if lines.len() > 0 {
        lemma_scan_records_ascending(path, lines.drop_last(), needle, ignore_case, invert);
        lemma_scan_records_line_bounds(path, lines.drop_last(), needle, ignore_case, invert);
        let prefix = scan_records(path, lines.drop_last(), needle, ignore_case, invert);
        let whole = scan_records(path, lines, needle, ignore_case, invert);
        assert(forall|a: int| 0 <= a < prefix.len() ==> #[trigger] whole[a] == prefix[a]);
        assert(forall|b: int|
            prefix.len() <= b < whole.len() ==> (#[trigger] whole[b]).line_number == lines.len());
    }
}

/// An empty file yields zero records, in normal and in inverted mode alike.
pub proof fn lemma_empty_file_yields_no_records(
    path: Seq<u8>,
    needle: Seq<u8>,
    ignore_case: bool,
    invert: bool,
)
    ensures
        scan_records(path, Seq::<Seq<u8>>::empty(), needle, ignore_case, invert) == Seq::<
            MatchView,
        >::empty(),
{
    assert(scan_records(path, Seq::<Seq<u8>>::empty(), needle, ignore_case, invert) =~= Seq::<
        MatchView,
    >::empty());
}

/// Turns the spans reported on one line into that line's record, if any.
/// `spans` is what the matcher reported (`None` for an undecodable line);
/// `line_number` is 1-based.
pub fn process_line(
    file: &[u8],
    line_number: usize,
    line: &[u8],
    spans: Option<Vec<(usize, usize)>>,
    invert: bool,
) -> (r: Option<SearchMatch>)
    requires
        spans matches Some(v) ==> spans_wf(v@, line@.len()),
    ensures
        (match r {
            Some(m) => seq![m@],
            None => Seq::empty(),
        }) == line_record(
            file@,
            line_number as int,
            line@,
            match spans {
                Some(v) => Some(v@),
                None => None,
            },
            invert,
        ),
        r matches Some(m) ==> m.wf(),
{
    match spans {
        None => None,
        Some(found) => {
            if !invert && found.len() > 0 {
                Some(SearchMatch::new(file, line_number, copy_bytes(line), found))
            } else if invert && found.len() == 0 {
                let empty: Vec<(usize, usize)> = Vec::new();
                Some(SearchMatch::new(file, line_number, copy_bytes(line), empty))
            } else {
                None
            }
        },
    }
}

/// Scans one file's lines against the compiled matcher, producing the records
/// of the qualifying lines in ascending line-number order.
pub fn scan_file(path: &[u8], lines: &Vec<Vec<u8>>, pattern: &CompiledPattern, invert: bool) -> (r:
    Vec<SearchMatch>)
    ensures
        r.deep_view() == scan_records(
            path@,
            lines.deep_view(),
            pattern.needle_view(),
            pattern.case_insensitive(),
            invert,
        ),
        forall|j: int| 0 <= j < r@.len() ==> (#[trigger] r@[j]).wf(),
{
    let ghost needle = pattern.needle_view();
    let ghost ci = pattern.case_insensitive();
    let mut out: Vec<SearchMatch> = Vec::new();
    let mut i: usize = 0;
    while i < lines.len()
        invariant
            i <= lines@.len(),
            out.deep_view() == scan_records(
                path@,
                lines.deep_view().take(i as int),
                needle,
                ci,
                invert,
            ),
            forall|j: int| 0 <= j < out@.len() ==> (#[trigger] out@[j]).wf(),
            needle == pattern.needle_view(),
            ci == pattern.case_insensitive(),
        decreases lines@.len() - i,
    {
        let spans = pattern.find_spans(lines[i].as_slice());
        let record = process_line(path, i + 1, lines[i].as_slice(), spans, invert);
        proof {
            let all = lines.deep_view();
            let line_view = lines@[i as int]@;
            assert(all[i as int] =~= line_view);
            assert((match record {
                Some(m) => seq![m@],
                None => Seq::<MatchView>::empty(),
            }) == record_of(path@, i as int + 1, all[i as int], needle, ci, invert));
            assert(all.take(i + 1).drop_last() =~= all.take(i as int));
            assert(all.take(i + 1).last() == all[i as int]);
            assert(all.take(i + 1).len() == i + 1);
            assert(scan_records(path@, all.take(i + 1), needle, ci, invert) == scan_records(
                path@,
                all.take(i as int),
                needle,
                ci,
                invert,
            ) + record_of(path@, i as int + 1, all[i as int], needle, ci, invert));
        }
        match record {
            Some(m) => {
                out.push(m);
            },
            None => (),
        }
        proof {
            assert(out.deep_view() =~= scan_records(
                path@,
                lines.deep_view().take(i + 1),
                needle,
                ci,
                invert,
            ));
        }
        i = i + 1;
    }
    proof {
        assert(lines.deep_view().take(lines@.len() as int) =~= lines.deep_view());
    }
    out
}

} // verus!
