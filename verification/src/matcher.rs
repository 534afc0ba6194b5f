//! Pattern compilation and caching.
//!
//! A needle is compiled once into a reusable, shareable matcher; a cache keyed
//! by `(needle, case-sensitivity)` hands the same compilation out to every
//! requester of that key, so the cache can never affect match semantics: what
//! a matcher reports is a function of its key alone, written here as the
//! uninterpreted function [`pattern_spans`].

use vstd::prelude::*;

use crate::SearchError;
use crate::bytes::bytes_eq;
use crate::result::spans_wf;

verus! {

#[verifier::external_type_specification]
#[verifier::external_body]
pub struct ExRegex(regex::Regex);

/// Whether `regex::Regex::new` accepts the needle, decorated with a
/// case-insensitivity prefix when `ignore_case` is set. Compilation is a pure
/// function of the pattern text, so acceptance is a function of the key.
pub uninterp spec fn pattern_ok(needle: Seq<u8>, ignore_case: bool) -> bool;

/// The byte spans that the matcher compiled from `(needle, ignore_case)`
/// reports on `line`: what `regex::Regex::find_iter` yields. Matching is a
/// pure function of the pattern and the haystack, so the spans are a function
/// of the key and the line.
pub uninterp spec fn pattern_spans(needle: Seq<u8>, ignore_case: bool, line: Seq<u8>) -> Seq<
    (usize, usize),
>;

/// Whether the line decodes as UTF-8 text: what `str::from_utf8` decides.
pub uninterp spec fn line_decodes(line: Seq<u8>) -> bool;

/// An immutable, shareable matcher together with its cache key. All workers
/// of a run share one compiled pattern read-only.
///
/// The fields stay private to this module: a value is only ever built by
/// [`CompiledPattern::compile`] (or copied whole by `duplicate`), so the
/// stored automaton is always the compilation of the stored key — which the
/// contract of [`CompiledPattern::find_spans`] relies on.
pub struct CompiledPattern {
    regex: regex::Regex,
    needle: Vec<u8>,
    ignore_case: bool,
}

impl CompiledPattern {
    /// The needle this matcher was compiled from.
    pub closed spec fn needle_view(&self) -> Seq<u8> {
        self.needle@
    }

    /// Whether this matcher was compiled case-insensitively.
    pub closed spec fn case_insensitive(&self) -> bool {
        self.ignore_case
    }

    /// The matcher was compiled from exactly this cache key.
    pub open spec fn keyed(&self, needle: Seq<u8>, ignore_case: bool) -> bool {
        self.needle_view() == needle && self.case_insensitive() == ignore_case
    }

    /// Relies on `regex::Regex::new`: it accepts or rejects a pattern purely
    /// by its text, here the needle prefixed with `(?i)` when `ignore_case`
    /// is set. A needle that is not UTF-8 cannot be given to the compiler and
    /// counts as rejected. The error payload is the diagnostic text.
    #[verifier::external_body]
    pub fn compile(needle: &[u8], ignore_case: bool) -> (r: Result<Self, Vec<u8>>)
        ensures
            r is Ok <==> pattern_ok(needle@, ignore_case),
            r matches Ok(p) ==> p.keyed(needle@, ignore_case),
    {
        let text = match std::str::from_utf8(needle) {
            Ok(text) => text,
            Err(e) => return Err(e.to_string().into_bytes()),
        };
        let decorated = if ignore_case { format!("(?i){}", text) } else { text.to_string() };
        match regex::Regex::new(&decorated) {
            Ok(regex) => Ok(CompiledPattern { regex, needle: needle.to_vec(), ignore_case }),
            Err(e) => Err(e.to_string().into_bytes()),
        }
    }

    /// Relies on `regex::Regex::find_iter`: it yields the successive
    /// non-overlapping matches on the haystack, leftmost first, each as a
    /// half-open byte range with `start <= end` within the haystack — so the
    /// collected spans are ordered and lie within the line. Relies on
    /// `str::from_utf8` to reject a line that does not decode as UTF-8.
    #[verifier::external_body]
    pub fn find_spans(&self, line: &[u8]) -> (r: Option<Vec<(usize, usize)>>)
        ensures
            r is Some <==> line_decodes(line@),
            r matches Some(v) ==> {
                &&& v@ == pattern_spans(self.needle_view(), self.case_insensitive(), line@)
                &&& spans_wf(v@, line@.len())
            },
    {
        match std::str::from_utf8(line) {
            Ok(text) => Some(self.regex.find_iter(text).map(|m| (m.start(), m.end())).collect()),
            Err(_) => None,
        }
    }

    /// Relies on `regex::Regex::clone`: the clone is the same matcher.
    #[verifier::external_body]
    pub fn duplicate(&self) -> (r: Self)
        ensures
            r.needle_view() == self.needle_view(),
            r.case_insensitive() == self.case_insensitive(),
    {
        CompiledPattern {
            regex: self.regex.clone(),
            needle: self.needle.clone(),
            ignore_case: self.ignore_case,
        }
    }
}

/// The pattern cache: an explicit object owned by the execution coordinator,
/// not ambient state, so repeated or embedded invocations stay independent.
/// It memoizes compilation by `(needle, ignore_case)`; at most one
/// compilation is kept per key and every requester of the key reuses it.
pub struct PatternCache {
    entries: Vec<CompiledPattern>,
}

impl PatternCache {
    /// Every cached matcher really is the compilation of its own key.
    pub closed spec fn wf(&self) -> bool {
        forall|i: int|
            0 <= i < self.entries@.len() ==> pattern_ok(
                (#[trigger] self.entries@[i]).needle_view(),
                self.entries@[i].case_insensitive(),
            )
    }

    pub fn new() -> (r: Self)
        ensures
            r.wf(),
    {
        PatternCache { entries: Vec::new() }
    }

    /// Returns the matcher for `(needle, ignore_case)`, compiling it on the
    /// first request for that key and reusing the stored compilation after.
    /// Succeeds exactly when the pattern is acceptable, and the matcher
    /// handed out always carries the requested key — so a cached matcher is
    /// behaviorally identical to a freshly compiled one. A rejected pattern
    /// leaves the cache exactly as it was.
    pub fn compile_or_get_regex(&mut self, needle: &[u8], ignore_case: bool) -> (r: Result<
        CompiledPattern,
        SearchError,
    >)
        requires
            old(self).wf(),
        ensures
            final(self).wf(),
            r is Ok <==> pattern_ok(needle@, ignore_case),
            r matches Ok(p) ==> p.keyed(needle@, ignore_case),
            r is Err ==> r matches Err(SearchError::InvalidPattern(_)),
            r is Err ==> *final(self) == *old(self),
    {
        let mut i: usize = 0;
        while i < self.entries.len()
            invariant
                self.wf(),
                *self == *old(self),
            decreases self.entries@.len() - i,
        {
            let hit = bytes_eq(self.entries[i].needle.as_slice(), needle)
                && self.entries[i].ignore_case == ignore_case;
            if hit {
                return Ok(self.entries[i].duplicate());
            }
            i = i + 1;
        }
        match CompiledPattern::compile(needle, ignore_case) {
            Ok(pattern) => {
                let out = pattern.duplicate();
                self.entries.push(pattern);
                Ok(out)
            },
            Err(message) => Err(SearchError::InvalidPattern(message)),
        }
    }
}

/// Compiling the same key twice yields matchers that behave identically: a
/// matcher's reports are determined by its key alone, so two matchers with
/// equal keys report the same spans on every line.
pub proof fn lemma_same_key_same_behavior(p1: CompiledPattern, p2: CompiledPattern, line: Seq<u8>)
    requires
        p1.needle_view() == p2.needle_view(),
        p1.case_insensitive() == p2.case_insensitive(),
    ensures
        pattern_spans(p1.needle_view(), p1.case_insensitive(), line) == pattern_spans(
            p2.needle_view(),
            p2.case_insensitive(),
            line,
        ),
{
}

} // verus!
