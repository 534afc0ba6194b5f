//! A verified line-search engine: given a pattern, a set of file or directory
//! roots and a configuration, it scans text lines and reports the lines that
//! match (or, in inverted mode, do not match) the pattern, optionally
//! aggregating per-file counts.
//!
//! Pattern matching itself is delegated to the `regex` crate and directory
//! traversal to the `ignore` crate; everything the engine decides on top of
//! those calls — which lines qualify, which records are produced, how output
//! is rendered — is verified.

use vstd::prelude::*;

pub mod bytes;
pub mod config;
pub mod matcher;
pub mod printer;
pub mod result;
pub mod scanner;
pub mod searcher;
pub mod walk;

use crate::config::Flags;
use crate::matcher::PatternCache;
use crate::matcher::pattern_ok;
use crate::printer::render_results;
use crate::printer::rendered_ok;
use crate::result::lemma_spans_wf_sorted;
use crate::result::spans_sorted;
use crate::scanner::FileInput;
use crate::searcher::SearchOutput;
use crate::searcher::output_ok;
use crate::searcher::search_files_with_cache;

verus! {

/// A fatal error: the run aborts before any output is produced.
#[derive(Debug, Clone, PartialEq, Eq)]
pub enum SearchError {
    /// The needle could not be compiled into a matcher; the payload is the
    /// compiler's diagnostic text.
    InvalidPattern(Vec<u8>),
    /// A root names neither an existing regular file nor a directory; the
    /// payload is that root.
    RootNotFound(Vec<u8>),
}

/// Runs a whole search over already-read files with an explicit pattern
/// cache and renders its output: the matcher for `(needle, ignore_case)` is
/// compiled on the first request and reused after, every file is scanned
/// under the strategy the flags select, and both the outcome and the
/// rendered lines come back. Fails exactly when the needle does not compile,
/// before any file is scanned.
pub fn search_and_render_with_cache(
    needle: &[u8],
    files: &Vec<FileInput>,
    flags: &Flags,
    cache: &mut PatternCache,
) -> (r: Result<(SearchOutput, Vec<Vec<u8>>), SearchError>)
    requires
        old(cache).wf(),
    ensures
        final(cache).wf(),
        r is Ok <==> pattern_ok(needle@, flags.ignore_case),
        r matches Ok(pair) ==> output_ok(
            pair.0,
            files.deep_view(),
            needle@,
            flags.ignore_case,
            flags.invert_match,
        ) && rendered_ok(pair.1.deep_view(), pair.0, *flags),
        r is Err ==> r matches Err(SearchError::InvalidPattern(_)),
{
    let output = match search_files_with_cache(needle, files, flags, cache) {
        Ok(output) => output,
        Err(e) => {
            return Err(e);
        },
    };
    // The counts' total equals the number of records, the length of a vector
    // in memory, so it fits the machine word and rendering cannot overflow.
    let total = output.records.len();
    proof {
        assert(crate::searcher::sum_counts(output.counts@) == total as int);
        assert forall|j: int| 0 <= j < output.records@.len() implies spans_sorted(
            (#[trigger] output.records@[j])@.spans,
        ) by {
            lemma_spans_wf_sorted(
                output.records@[j]@.spans,
                output.records@[j]@.content.len(),
            );
        }
    }
    let lines = render_results(&output, flags);
    Ok((output, lines))
}

/// Runs a whole search over already-read files and renders its output, with
/// a fresh pattern cache.
pub fn search_and_render(needle: &[u8], files: &Vec<FileInput>, flags: &Flags) -> (r: Result<
    (SearchOutput, Vec<Vec<u8>>),
    SearchError,
>)
    ensures
        r is Ok <==> pattern_ok(needle@, flags.ignore_case),
        r matches Ok(pair) ==> output_ok(
            pair.0,
            files.deep_view(),
            needle@,
            flags.ignore_case,
            flags.invert_match,
        ) && rendered_ok(pair.1.deep_view(), pair.0, *flags),
        r is Err ==> r matches Err(SearchError::InvalidPattern(_)),
{
    let mut cache = PatternCache::new();
    search_and_render_with_cache(needle, files, flags, &mut cache)
}

} // verus!
