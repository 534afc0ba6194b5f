//! The result formatter: renders records as per-line output or as per-file
//! and aggregate counts. Rendering never mutates its input.
//!
//! Matched substrings are bracketed by the inline marker sequences
//! [`mark_start`] and [`mark_end`] (the usual red / reset terminal escapes);
//! control characters are stripped from the line text before emission — the
//! ASCII control bytes one at a time, the C1 control characters as their
//! two-byte sequences — so the markers are the only escape bytes in a
//! rendered line and stripping them again recovers the line text exactly.

use vstd::prelude::*;

use crate::bytes::bytes_eq;
use crate::bytes::copy_bytes;
use crate::config::Flags;
use crate::result::MatchView;
use crate::result::SearchMatch;
use crate::result::spans_sorted;
use crate::searcher::SearchOutput;
use crate::searcher::lemma_sum_counts_prefix_le;
use crate::searcher::sum_counts;

verus! {

/// A byte that must not reach the terminal on its own: an ASCII control byte
/// (the C0 range, or DEL).
pub open spec fn is_control_byte(b: u8) -> bool {
    b < 32 || b == 127
}

/// A byte pair encoding a control character of the C1 range (U+0080 to
/// U+009F): in UTF-8 text these are exactly 0xC2 followed by 0x80 to 0x9F.
pub open spec fn is_c1_pair(a: u8, b: u8) -> bool {
    a == 194 && 128 <= b <= 159
}

/// The text from position `i` on with every control character removed: each
/// ASCII control byte dropped on its own, each C1 control character dropped
/// as its two-byte sequence, every other byte — in particular every byte of
/// any other multi-byte character — untouched.
pub open spec fn sanitize_from(line: Seq<u8>, i: int) -> Seq<u8>
    decreases line.len() - i,
{
    if i < 0 || i >= line.len() {
        seq![]
    } else if is_control_byte(line[i]) {
        sanitize_from(line, i + 1)
    } else if i + 1 < line.len() && is_c1_pair(line[i], line[i + 1]) {
        sanitize_from(line, i + 2)
    } else {
        seq![line[i]] + sanitize_from(line, i + 1)
    }
}

/// The line text with every control character removed.
pub open spec fn sanitize_spec(line: Seq<u8>) -> Seq<u8> {
    sanitize_from(line, 0)
}

proof fn lemma_sanitize_from_no_control(line: Seq<u8>, i: int)
    ensures
        forall|t: int|
            0 <= t < sanitize_from(line, i).len() ==> !is_control_byte(#[trigger] sanitize_from(
                line,
                i,
            )[t]),
    decreases line.len() - i,
{
    if 0 <= i < line.len() {
        if is_control_byte(line[i]) {
            lemma_sanitize_from_no_control(line, i + 1);
            assert(sanitize_from(line, i) == sanitize_from(line, i + 1));
        } else if i + 1 < line.len() && is_c1_pair(line[i], line[i + 1]) {
            lemma_sanitize_from_no_control(line, i + 2);
            assert(sanitize_from(line, i) == sanitize_from(line, i + 2));
        } else {
            lemma_sanitize_from_no_control(line, i + 1);
            let rest = sanitize_from(line, i + 1);
            assert(sanitize_from(line, i) == seq![line[i]] + rest);
            assert forall|t: int|
                0 <= t < sanitize_from(line, i).len() implies !is_control_byte(
                #[trigger] sanitize_from(line, i)[t],
            ) by {
                if t == 0 {
                    assert(sanitize_from(line, i)[0] == line[i]);
                } else {
                    assert(sanitize_from(line, i)[t] == rest[t - 1]);
                }
            }
        }
    }
}

/// Nothing that sanitizing leaves behind is a control byte.
pub proof fn lemma_sanitize_no_control(line: Seq<u8>)
    ensures
        forall|t: int|
            0 <= t < sanitize_spec(line).len() ==> !is_control_byte(#[trigger] sanitize_spec(
                line,
            )[t]),
{
    lemma_sanitize_from_no_control(line, 0);
}

/// Every 0xC2 byte is followed by a continuation byte — true of any text
/// that is valid UTF-8.
pub open spec fn c2_leads_continue(line: Seq<u8>) -> bool {
    forall|i: int| 0 <= i < line.len() - 1 && (#[trigger] line[i]) == 194 ==> 128 <= line[i + 1]
        < 192
}

proof fn lemma_sanitize_from_no_c1(line: Seq<u8>, i: int)
    requires
        c2_leads_continue(line),
    ensures
        forall|t: int|
            0 <= t < sanitize_from(line, i).len() - 1 ==> !is_c1_pair(
                (#[trigger] sanitize_from(line, i)[t]),
                sanitize_from(line, i)[t + 1],
            ),
    decreases line.len() - i,
{
    if 0 <= i < line.len() {
        if is_control_byte(line[i]) {
            lemma_sanitize_from_no_c1(line, i + 1);
            assert(sanitize_from(line, i) == sanitize_from(line, i + 1));
        } else if i + 1 < line.len() && is_c1_pair(line[i], line[i + 1]) {
            lemma_sanitize_from_no_c1(line, i + 2);
            assert(sanitize_from(line, i) == sanitize_from(line, i + 2));
        } else {
            lemma_sanitize_from_no_c1(line, i + 1);
            let rest = sanitize_from(line, i + 1);
            assert(sanitize_from(line, i) == seq![line[i]] + rest);
            if line[i] == 194 && rest.len() > 0 {
                // A kept 0xC2 is followed in the line by a continuation byte
                // above the C1 range, and that byte opens the rest unchanged:
                // it is neither a control byte nor a C1 lead.
                assert(i + 1 < line.len());
                assert(160 <= line[i + 1] < 192);
                assert(rest == seq![line[i + 1]] + sanitize_from(line, i + 2));
                assert(rest[0] == line[i + 1]);
            }
            assert forall|t: int|
                0 <= t < sanitize_from(line, i).len() - 1 implies !is_c1_pair(
                (#[trigger] sanitize_from(line, i)[t]),
                sanitize_from(line, i)[t + 1],
            ) by {
                if t == 0 {
                    assert(sanitize_from(line, i)[0] == line[i]);
                    assert(sanitize_from(line, i)[1] == rest[0]);
                } else {
                    assert(sanitize_from(line, i)[t] == rest[t - 1]);
                    assert(sanitize_from(line, i)[t + 1] == rest[t]);
                }
            }
        }
    }
}

/// On text whose 0xC2 bytes are each followed by a continuation byte — as in
/// any line that decodes as UTF-8 — the sanitized result holds no C1 control
/// sequence either: together with [`lemma_sanitize_no_control`], sanitizing
/// removes every control character.
pub proof fn lemma_sanitize_no_c1(line: Seq<u8>)
    requires
        c2_leads_continue(line),
    ensures
        forall|t: int|
            0 <= t < sanitize_spec(line).len() - 1 ==> !is_c1_pair(
                (#[trigger] sanitize_spec(line)[t]),
                sanitize_spec(line)[t + 1],
            ),
{
    lemma_sanitize_from_no_c1(line, 0);
}

/// Removes every control character from the line text: each ASCII control
/// byte on its own, each C1 control character as its two-byte sequence. All
/// other bytes — in particular every byte of any other multi-byte character
/// — pass through untouched.
pub fn sanitize_output(output: &[u8]) -> (r: Vec<u8>)
    ensures
        r@ == sanitize_spec(output@),
{
    let mut out: Vec<u8> = Vec::new();
    let mut i: usize = 0;
    proof {
        assert(Seq::<u8>::empty() + sanitize_from(output@, 0) =~= sanitize_from(output@, 0));
    }
    while i < output.len()
        invariant
            i <= output@.len(),
            sanitize_spec(output@) == out@ + sanitize_from(output@, i as int),
        decreases output@.len() - i,
    {
        let b = output[i];
        let ghost prev = out@;
        let ghost old_i = i as int;
        if b < 32 || b == 127 {
            i = i + 1;
        } else if b == 194 && i + 1 < output.len() && 128 <= output[i + 1] && output[i + 1] <= 159 {
            i = i + 2;
        } else {
            out.push(b);
            i = i + 1;
        }
        proof {
            assert(out@ + sanitize_from(output@, i as int) =~= prev + sanitize_from(
                output@,
                old_i,
            ));
        }
    }
    proof {
        assert(sanitize_from(output@, output@.len() as int) =~= Seq::<u8>::empty());
        assert(out@ =~= sanitize_spec(output@));
    }
    out
}

/// The decimal digits of `n`, most significant first.
pub open spec fn dec_digits(n: nat) -> Seq<u8>
    decreases n,
{
    if n < 10 {
        seq![(48 + n) as u8]
    } else {
        dec_digits(n / 10).push((48 + n % 10) as u8)
    }
}

/// Renders `n` in decimal.
pub fn to_decimal(n: usize) -> (r: Vec<u8>)
    ensures
        r@ == dec_digits(n as nat),
    decreases n,
{
    if n < 10 {
        let mut out: Vec<u8> = Vec::new();
        out.push(48 + n as u8);
        assert(out@ =~= dec_digits(n as nat));
        out
    } else {
        let mut out = to_decimal(n / 10);
        out.push(48 + (n % 10) as u8);
        out
    }
}

/// The inline marker that opens a highlighted substring: the terminal escape
/// sequence that switches to red.
pub open spec fn mark_start() -> Seq<u8> {
    seq![27u8, 91u8, 51u8, 49u8, 109u8]
}

/// The inline marker that closes a highlighted substring: the terminal
/// escape sequence that resets styling.
pub open spec fn mark_end() -> Seq<u8> {
    seq![27u8, 91u8, 48u8, 109u8]
}

/// A span bound clamped into the line.
pub open spec fn clamped(x: usize, line: Seq<u8>) -> int {
    if x as int <= line.len() {
        x as int
    } else {
        line.len() as int
    }
}

/// The rendered line from span `k` on, `from` bytes already emitted: each
/// remaining matched substring bracketed by the markers, every other byte
/// untouched.
pub open spec fn highlight_from(line: Seq<u8>, spans: Seq<(usize, usize)>, k: int, from: int) -> Seq<
    u8,
>
    decreases spans.len() - k,
{
    if k < 0 || k >= spans.len() {
        line.subrange(from, line.len() as int)
    } else {
        let s = clamped(spans[k].0, line);
        let e = clamped(spans[k].1, line);
        line.subrange(from, s) + mark_start() + line.subrange(s, e) + mark_end() + highlight_from(
            line,
            spans,
            k + 1,
            e,
        )
    }
}

/// The whole rendered line: every matched substring visually distinguished
/// by the inline markers, all other bytes untouched.
pub open spec fn highlight_spec(line: Seq<u8>, spans: Seq<(usize, usize)>) -> Seq<u8> {
    highlight_from(line, spans, 0, 0)
}

/// Appends `line[from..to]` to `out`.
fn push_range(out: &mut Vec<u8>, line: &[u8], from: usize, to: usize)
    requires
        from <= to <= line@.len(),
    ensures
        final(out)@ == old(out)@ + line@.subrange(from as int, to as int),
{
    let mut j = from;
    proof {
        assert(out@ =~= old(out)@ + line@.subrange(from as int, from as int));
    }
    while j < to
        invariant
            from <= j <= to <= line@.len(),
            out@ == old(out)@ + line@.subrange(from as int, j as int),
        decreases to - j,
    {
        out.push(line[j]);
        proof {
            assert(out@ =~= old(out)@ + line@.subrange(from as int, j + 1));
        }
        j = j + 1;
    }
}

/// Appends the opening marker to `out`.
fn push_mark_start(out: &mut Vec<u8>)
    ensures
        final(out)@ == old(out)@ + mark_start(),
{
    out.push(27);
    out.push(91);
    out.push(51);
    out.push(49);
    out.push(109);
    proof {
        assert(out@ =~= old(out)@ + mark_start());
    }
}

/// Appends the closing marker to `out`.
fn push_mark_end(out: &mut Vec<u8>)
    ensures
        final(out)@ == old(out)@ + mark_end(),
{
    out.push(27);
    out.push(91);
    out.push(48);
    out.push(109);
    proof {
        assert(out@ =~= old(out)@ + mark_end());
    }
}

/// Highlights the matched substrings of a line by bracketing each with the
/// inline markers. The spans must come sorted and non-overlapping; each is
/// clamped to the line, as rendering a record against a shortened line must
/// never fail.
pub fn highlight_matches(line: &[u8], matches: &[(usize, usize)]) -> (r: Vec<u8>)
    requires
        spans_sorted(matches@),
    ensures
        r@ == highlight_spec(line@, matches@),
{
    let mut out: Vec<u8> = Vec::new();
    let mut last: usize = 0;
    let mut k: usize = 0;
    while k < matches.len()
        invariant
            k <= matches@.len(),
            last <= line@.len(),
            spans_sorted(matches@),
            k < matches@.len() ==> last as int <= clamped(matches@[k as int].0, line@),
            highlight_spec(line@, matches@) == out@ + highlight_from(
                line@,
                matches@,
                k as int,
                last as int,
            ),
        decreases matches@.len() - k,
    {
        let (span_start, span_end) = matches[k];
        let start = if span_start <= line.len() {
            span_start
        } else {
            line.len()
        };
        let end = if span_end <= line.len() {
            span_end
        } else {
            line.len()
        };
        let ghost prev = out@;
        let ghost old_last = last as int;
        push_range(&mut out, line, last, start);
        push_mark_start(&mut out);
        push_range(&mut out, line, start, end);
        push_mark_end(&mut out);
        last = end;
        proof {
            assert(start as int == clamped(matches@[k as int].0, line@));
            assert(end as int == clamped(matches@[k as int].1, line@));
            assert(highlight_from(line@, matches@, k as int, old_last) == line@.subrange(
                old_last,
                start as int,
            ) + mark_start() + line@.subrange(start as int, end as int) + mark_end()
                + highlight_from(line@, matches@, k as int + 1, end as int));
            assert(out@ + highlight_from(line@, matches@, k as int + 1, end as int) =~= prev
                + highlight_from(line@, matches@, k as int, old_last));
        }
        k = k + 1;
    }
    let ghost prev = out@;
    push_range(&mut out, line, last, line.len());
    proof {
        assert(out@ =~= prev + highlight_from(line@, matches@, matches@.len() as int, last as int));
    }
    out
}

/// The line with every marker sequence removed: a byte-by-byte scan that
/// drops each escape byte together with everything up to and including the
/// next `m`, the byte that ends both markers.
pub open spec fn strip_rec(s: Seq<u8>, in_marker: bool) -> Seq<u8>
    decreases s.len(),
{
    if s.len() == 0 {
        seq![]
    } else if in_marker {
        strip_rec(s.drop_first(), s.first() != 109)
    } else if s.first() == 27 {
        strip_rec(s.drop_first(), true)
    } else {
        seq![s.first()] + strip_rec(s.drop_first(), false)
    }
}

/// The line with every marker sequence removed.
pub open spec fn strip_spec(s: Seq<u8>) -> Seq<u8> {
    strip_rec(s, false)
}

/// Removes the highlight markers (and any other terminal escape sequence)
/// from a rendered line.
pub fn strip_markers(line: &[u8]) -> (r: Vec<u8>)
    ensures
        r@ == strip_spec(line@),
{
    let mut out: Vec<u8> = Vec::new();
    let mut in_marker = false;
    let mut i: usize = 0;
    proof {
        assert(line@.skip(0) =~= line@);
    }
    while i < line.len()
        invariant
            i <= line@.len(),
            strip_spec(line@) == out@ + strip_rec(line@.skip(i as int), in_marker),
        decreases line@.len() - i,
    {
        let b = line[i];
        let ghost prev = out@;
        let ghost was_in_marker = in_marker;
        if in_marker {
            in_marker = b != 109;
        } else if b == 27 {
            in_marker = true;
        } else {
            out.push(b);
        }
        proof {
            let tail = line@.skip(i as int);
            assert(tail.first() == line@[i as int]);
            assert(tail.drop_first() =~= line@.skip(i + 1));
            assert(out@ + strip_rec(line@.skip(i + 1), in_marker) =~= prev + strip_rec(
                tail,
                was_in_marker,
            ));
        }
        i = i + 1;
    }
    proof {
        assert(strip_rec(line@.skip(line@.len() as int), in_marker) =~= Seq::<u8>::empty());
        assert(out@ =~= strip_spec(line@));
    }
    out
}

/// A stretch free of escape bytes passes through the stripper unchanged.
proof fn lemma_strip_clean_prefix(a: Seq<u8>, b: Seq<u8>)
    requires
        forall|t: int| 0 <= t < a.len() ==> a[t] != 27,
    ensures
        strip_rec(a + b, false) == a + strip_rec(b, false),
    decreases a.len(),
{
    if a.len() == 0 {
        assert(a + b =~= b);
        assert(a + strip_rec(b, false) =~= strip_rec(b, false));
    } else {
        let x = a + b;
        assert(x.len() > 0);
        assert(x.first() == a[0]);
        assert(x.drop_first() =~= a.drop_first() + b);
        lemma_strip_clean_prefix(a.drop_first(), b);
        assert(seq![a[0]] + (a.drop_first() + strip_rec(b, false)) =~= a + strip_rec(b, false));
    }
}

/// The opening marker is swallowed whole.
proof fn lemma_strip_mark_start_prefix(b: Seq<u8>)
    ensures
        strip_rec(mark_start() + b, false) == strip_rec(b, false),
{
    let x0 = mark_start() + b;
    let x1 = seq![91u8, 51u8, 49u8, 109u8] + b;
    let x2 = seq![51u8, 49u8, 109u8] + b;
    let x3 = seq![49u8, 109u8] + b;
    let x4 = seq![109u8] + b;
    assert(x0.first() == 27 && x0.drop_first() =~= x1);
    assert(x1.first() == 91 && x1.drop_first() =~= x2);
    assert(x2.first() == 51 && x2.drop_first() =~= x3);
    assert(x3.first() == 49 && x3.drop_first() =~= x4);
    assert(x4.first() == 109 && x4.drop_first() =~= b);
    assert(strip_rec(x0, false) == strip_rec(x1, true));
    assert(strip_rec(x1, true) == strip_rec(x2, true));
    assert(strip_rec(x2, true) == strip_rec(x3, true));
    assert(strip_rec(x3, true) == strip_rec(x4, true));
    assert(strip_rec(x4, true) == strip_rec(b, false));
}

/// The closing marker is swallowed whole.
proof fn lemma_strip_mark_end_prefix(b: Seq<u8>)
    ensures
        strip_rec(mark_end() + b, false) == strip_rec(b, false),
{
    let x0 = mark_end() + b;
    let x1 = seq![91u8, 48u8, 109u8] + b;
    let x2 = seq![48u8, 109u8] + b;
    let x3 = seq![109u8] + b;
    assert(x0.first() == 27 && x0.drop_first() =~= x1);
    assert(x1.first() == 91 && x1.drop_first() =~= x2);
    assert(x2.first() == 48 && x2.drop_first() =~= x3);
    assert(x3.first() == 109 && x3.drop_first() =~= b);
    assert(strip_rec(x0, false) == strip_rec(x1, true));
    assert(strip_rec(x1, true) == strip_rec(x2, true));
    assert(strip_rec(x2, true) == strip_rec(x3, true));
    assert(strip_rec(x3, true) == strip_rec(b, false));
}

/// Stripping the rendering of the tail of the spans recovers the tail of the
/// line, provided the line holds no escape byte of its own.
proof fn lemma_strip_highlight_from(line: Seq<u8>, spans: Seq<(usize, usize)>, k: int, from: int)
    requires
        forall|t: int| 0 <= t < line.len() ==> (#[trigger] line[t]) != 27,
        spans_sorted(spans),
        0 <= from <= line.len(),
        0 <= k,
        k < spans.len() ==> from <= clamped(spans[k].0, line),
    ensures
        strip_rec(highlight_from(line, spans, k, from), false) == line.subrange(
            from,
            line.len() as int,
        ),
    decreases spans.len() - k,
{
    if k >= spans.len() {
        let x = line.subrange(from, line.len() as int);
        lemma_strip_clean_prefix(x, Seq::<u8>::empty());
        assert(x + Seq::<u8>::empty() =~= x);
        assert(strip_rec(Seq::<u8>::empty(), false) =~= Seq::<u8>::empty());
    } else {
        let s = clamped(spans[k].0, line);
        let e = clamped(spans[k].1, line);
        let a = line.subrange(from, s);
        let b = line.subrange(s, e);
        let rest = highlight_from(line, spans, k + 1, e);
        let x = a + mark_start() + b + mark_end() + rest;
        assert(highlight_from(line, spans, k, from) == x);
        let tail1 = mark_start() + (b + (mark_end() + rest));
        let tail2 = b + (mark_end() + rest);
        let tail3 = mark_end() + rest;
        assert(x =~= a + tail1);
        lemma_strip_clean_prefix(a, tail1);
        lemma_strip_mark_start_prefix(tail2);
        lemma_strip_clean_prefix(b, tail3);
        lemma_strip_mark_end_prefix(rest);
        lemma_strip_highlight_from(line, spans, k + 1, e);
        assert(strip_rec(x, false) == a + (b + line.subrange(e, line.len() as int)));
        assert(a + (b + line.subrange(e, line.len() as int)) =~= line.subrange(
            from,
            line.len() as int,
        ));
    }
}

/// Highlighting a line and then stripping the highlight markers from the
/// rendered line reproduces the line text exactly. The markers open with the
/// terminal escape byte, so the one thing asked of the line is that it holds
/// no escape byte of its own — which sanitizing guarantees.
pub proof fn lemma_strip_highlight_round_trip(line: Seq<u8>, spans: Seq<(usize, usize)>)
    requires
        forall|t: int| 0 <= t < line.len() ==> (#[trigger] line[t]) != 27,
        spans_sorted(spans),
    ensures
        strip_spec(highlight_spec(line, spans)) == line,
{
    lemma_strip_highlight_from(line, spans, 0, 0);
    assert(line.subrange(0, line.len() as int) =~= line);
}

/// The round trip on a rendered record: the formatter highlights the
/// sanitized line text, and sanitizing leaves no control byte behind, so
/// stripping the markers recovers the sanitized text exactly.
pub proof fn lemma_strip_highlight_sanitized(line: Seq<u8>, spans: Seq<(usize, usize)>)
    requires
        spans_sorted(spans),
    ensures
        strip_spec(highlight_spec(sanitize_spec(line), spans)) == sanitize_spec(line),
{
    lemma_sanitize_no_control(line);
    lemma_strip_highlight_round_trip(sanitize_spec(line), spans);
}

/// One rendered count line: `<path>: <count>`.
pub open spec fn count_line_spec(file: Seq<u8>, count: nat) -> Seq<u8> {
    file + seq![58u8, 32u8] + dec_digits(count)
}

/// Formats one per-file count as `<path>: <count>`.
pub fn format_count_result(file: &[u8], count: usize, _flags: &Flags) -> (r: Vec<u8>)
    ensures
        r@ == count_line_spec(file@, count as nat),
{
    let mut out = copy_bytes(file);
    out.push(58);
    out.push(32);
    let mut digits = to_decimal(count);
    out.append(&mut digits);
    assert(out@ =~= count_line_spec(file@, count as nat));
    out
}

/// Whether entry `i` is the first occurrence of its path among the counts.
pub open spec fn first_occurrence(counts: Seq<(Vec<u8>, usize)>, i: int) -> bool {
    forall|j: int| 0 <= j < i ==> (#[trigger] counts[j]).0@ != counts[i].0@
}

/// The total count of `path` over the first `j` entries.
pub open spec fn path_total_upto(counts: Seq<(Vec<u8>, usize)>, path: Seq<u8>, j: int) -> int
    decreases j,
{
    if j <= 0 {
        0
    } else {
        path_total_upto(counts, path, j - 1) + (if counts[j - 1].0@ == path {
            counts[j - 1].1 as int
        } else {
            0
        })
    }
}

/// The total count of `path` over all entries: what every scan of that path
/// contributed together.
pub open spec fn path_total(counts: Seq<(Vec<u8>, usize)>, path: Seq<u8>) -> int {
    path_total_upto(counts, path, counts.len() as int)
}

/// A path's running total never exceeds the total of a prefix, and so never
/// the total of everything: every count is non-negative.
proof fn lemma_path_total_le_sum(counts: Seq<(Vec<u8>, usize)>, path: Seq<u8>, j: int)
    requires
        0 <= j <= counts.len(),
    ensures
        0 <= path_total_upto(counts, path, j) <= sum_counts(counts.take(j)),
    decreases j,
{
    if j > 0 {
        lemma_path_total_le_sum(counts, path, j - 1);
        assert(counts.take(j).drop_last() =~= counts.take(j - 1));
        assert(counts.take(j).last() == counts[j - 1]);
    }
}

/// The rendered count lines from entry `i` on: one line per distinct path at
/// its first occurrence, carrying that path's total over all entries.
pub open spec fn count_lines_from(counts: Seq<(Vec<u8>, usize)>, i: int) -> Seq<Seq<u8>>
    decreases counts.len() - i,
{
    if i < 0 || i >= counts.len() {
        seq![]
    } else {
        (if first_occurrence(counts, i) && path_total(counts, counts[i].0@) > 0 {
            seq![count_line_spec(counts[i].0@, path_total(counts, counts[i].0@) as nat)]
        } else {
            seq![]
        }) + count_lines_from(counts, i + 1)
    }
}

/// The rendered count lines when file names are shown: exactly one line per
/// distinct path with at least one record, in order of first occurrence,
/// each carrying the merged total of every scan of that path.
pub open spec fn count_lines_spec(counts: Seq<(Vec<u8>, usize)>) -> Seq<Seq<u8>> {
    count_lines_from(counts, 0)
}

/// Renders the count report. With `show_names` set, one `<path>: <count>`
/// line per distinct path with at least one record, in order of first
/// occurrence — pairs that share a path are merged into one line with their
/// total; otherwise a single line holding the combined total across all
/// files.
#[verifier::loop_isolation(false)]
pub fn render_count_lines(counts: &Vec<(Vec<u8>, usize)>, flags: &Flags) -> (r: Vec<Vec<u8>>)
    requires
        sum_counts(counts@) <= usize::MAX,
    ensures
        flags.show_names ==> r.deep_view() == count_lines_spec(counts@),
        !flags.show_names ==> r.deep_view() == seq![dec_digits(sum_counts(counts@) as nat)],
{
    let mut out: Vec<Vec<u8>> = Vec::new();
    if flags.show_names {
        let mut i: usize = 0;
        proof {
            assert(out.deep_view() + count_lines_from(counts@, 0) =~~= count_lines_from(
                counts@,
                0,
            ));
        }
        while i < counts.len()
            invariant
                i <= counts@.len(),
                count_lines_spec(counts@) == out.deep_view() + count_lines_from(
                    counts@,
                    i as int,
                ),
            decreases counts@.len() - i,
        {
            let ghost path = counts@[i as int].0@;
            let mut first = true;
            let mut j: usize = 0;
            while j < i
                invariant
                    j <= i,
                    first == (forall|k: int|
                        0 <= k < j ==> (#[trigger] counts@[k]).0@ != path),
                decreases i - j,
            {
                if bytes_eq(counts[j].0.as_slice(), counts[i].0.as_slice()) {
                    first = false;
                }
                j = j + 1;
            }
            let ghost prev = out.deep_view();
            if first {
                let mut total: usize = 0;
                let mut k: usize = 0;
                while k < counts.len()
                    invariant
                        k <= counts@.len(),
                        total == path_total_upto(counts@, path, k as int),
                    decreases counts@.len() - k,
                {
                    if bytes_eq(counts[k].0.as_slice(), counts[i].0.as_slice()) {
                        proof {
                            lemma_path_total_le_sum(counts@, path, k + 1);
                            lemma_sum_counts_prefix_le(counts@, k + 1);
                        }
                        total = total + counts[k].1;
                    }
                    k = k + 1;
                }
                if total > 0 {
                    let line = format_count_result(counts[i].0.as_slice(), total, flags);
                    out.push(line);
                }
            }
            proof {
                assert(out.deep_view() + count_lines_from(counts@, i + 1) =~~= prev
                    + count_lines_from(counts@, i as int));
            }
            i = i + 1;
        }
        proof {
            assert(count_lines_from(counts@, counts@.len() as int) =~= Seq::<Seq<u8>>::empty());
            assert(out.deep_view() =~~= count_lines_spec(counts@));
        }
    } else {
        let mut total: usize = 0;
        let mut i: usize = 0;
        proof {
            assert(counts@.take(0) =~= Seq::<(Vec<u8>, usize)>::empty());
        }
        while i < counts.len()
            invariant
                i <= counts@.len(),
                total == sum_counts(counts@.take(i as int)),
                sum_counts(counts@) <= usize::MAX,
            decreases counts@.len() - i,
        {
            proof {
                assert(counts@.take(i + 1).drop_last() =~= counts@.take(i as int));
                assert(counts@.take(i + 1).last() == counts@[i as int]);
                lemma_sum_counts_prefix_le(counts@, i + 1);
            }
            total = total + counts[i].1;
            i = i + 1;
        }
        proof {
            assert(counts@.take(counts@.len() as int) =~= counts@);
        }
        out.push(to_decimal(total));
        proof {
            assert(out.deep_view() =~~= seq![dec_digits(sum_counts(counts@) as nat)]);
        }
    }
    out
}

/// One rendered match line: the file name and the 1-based line number when
/// the flags ask for them, each followed by a colon, then the sanitized line
/// text with every span highlighted.
pub open spec fn match_line_spec(m: MatchView, flags: Flags) -> Seq<u8> {
    (if flags.show_names {
        m.file + seq![58u8]
    } else {
        Seq::<u8>::empty()
    }) + (if flags.show_lines {
        dec_digits(m.line_number as nat) + seq![58u8]
    } else {
        Seq::<u8>::empty()
    }) + highlight_spec(sanitize_spec(m.content), m.spans)
}

/// Formats one record: optional file-name prefix, optional line-number
/// prefix, then the line text, control bytes stripped and every matched
/// substring bracketed by the markers.
pub fn format_match_result(result: &SearchMatch, flags: &Flags) -> (r: Vec<u8>)
    requires
        spans_sorted(result@.spans),
    ensures
        r@ == match_line_spec(result@, *flags),
{
    let mut out: Vec<u8> = Vec::new();
    if flags.show_names {
        let mut name = copy_bytes(result.file.as_slice());
        out.append(&mut name);
        out.push(58);
    }
    if flags.show_lines {
        let mut digits = to_decimal(result.line_number);
        out.append(&mut digits);
        out.push(58);
    }
    let sanitized = sanitize_output(result.line_content.as_slice());
    let mut highlighted = highlight_matches(sanitized.as_slice(), result.matches.as_slice());
    out.append(&mut highlighted);
    proof {
        assert(out@ =~= match_line_spec(result@, *flags));
    }
    out
}

/// The rendered match lines: one line per record, in record order.
pub open spec fn match_lines_spec(records: Seq<MatchView>, flags: Flags) -> Seq<Seq<u8>> {
    records.map_values(|m: MatchView| match_line_spec(m, flags))
}

/// Renders every record as one output line, in record order.
pub fn render_match_lines(records: &Vec<SearchMatch>, flags: &Flags) -> (r: Vec<Vec<u8>>)
    requires
        forall|j: int| 0 <= j < records@.len() ==> spans_sorted((#[trigger] records@[j])@.spans),
    ensures
        r.deep_view() == match_lines_spec(records.deep_view(), *flags),
{
    let mut out: Vec<Vec<u8>> = Vec::new();
    let mut i: usize = 0;
    while i < records.len()
        invariant
            i <= records@.len(),
            out@.len() == i,
            forall|j: int|
                0 <= j < records@.len() ==> spans_sorted((#[trigger] records@[j])@.spans),
            forall|k: int|
                0 <= k < i ==> (#[trigger] out@[k])@ == match_line_spec(records@[k]@, *flags),
        decreases records@.len() - i,
    {
        let line = format_match_result(&records[i], flags);
        out.push(line);
        i = i + 1;
    }
    proof {
        let rv = records.deep_view();
        assert(out.deep_view() =~~= match_lines_spec(rv, *flags)) by {
            assert(forall|k: int| 0 <= k < records@.len() ==> #[trigger] rv[k] == records@[k]@);
        }
    }
    out
}

/// What the rendering of a run's output must be: in count mode one line per
/// file with records (or the single aggregate total), otherwise one rendered
/// line per record.
pub open spec fn rendered_ok(lines: Seq<Seq<u8>>, output: SearchOutput, flags: Flags) -> bool {
    if flags.count {
        if flags.show_names {
            lines == count_lines_spec(output.counts@)
        } else {
            lines == seq![dec_digits(sum_counts(output.counts@) as nat)]
        }
    } else {
        lines == match_lines_spec(output.records.deep_view(), flags)
    }
}

/// Renders a run's output: in count mode the per-file or aggregate counts,
/// otherwise one line per record. The total of the counts must fit the
/// machine word; a caller that assembled the counts from actual records
/// already has that.
pub fn render_results(output: &SearchOutput, flags: &Flags) -> (r: Vec<Vec<u8>>)
    requires
        sum_counts(output.counts@) <= usize::MAX,
        forall|j: int|
            0 <= j < output.records@.len() ==> spans_sorted((#[trigger] output.records@[j])@.spans),
    ensures
        rendered_ok(r.deep_view(), *output, *flags),
{
    if flags.count {
        render_count_lines(&output.counts, flags)
    } else {
        render_match_lines(&output.records, flags)
    }
}

} // verus!
