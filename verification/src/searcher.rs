//! The execution coordinator: compiles the pattern once, then runs the line
//! scanner over the files either sequentially or on a worker pool, and merges
//! the per-file results into one outcome.
//!
//! Both strategies produce the records of the same specification,
//! [`all_records`]: the per-file blocks in file order, each block in
//! ascending line-number order. The worker pool only changes who scans a
//! file, never what is reported.

use vstd::prelude::*;

use rayon::iter::IntoParallelRefIterator;
use rayon::iter::ParallelIterator;

use crate::SearchError;
use crate::bytes::copy_bytes;
use crate::config::Flags;
use crate::matcher::CompiledPattern;
use crate::matcher::PatternCache;
use crate::matcher::pattern_ok;
use crate::result::MatchView;
use crate::result::SearchMatch;
use crate::scanner::FileInput;
use crate::scanner::FileInputView;
use crate::scanner::scan_file;
use crate::scanner::scan_records;

verus! {

/// The records one file contributes: none when it could not be read.
pub open spec fn file_records(
    f: FileInputView,
    needle: Seq<u8>,
    ignore_case: bool,
    invert: bool,
) -> Seq<MatchView> {
    match f.lines {
        Some(ls) => scan_records(f.path, ls, needle, ignore_case, invert),
        None => seq![],
    }
}

/// The records of a whole run: the files' blocks concatenated in file order.
pub open spec fn all_records(
    files: Seq<FileInputView>,
    needle: Seq<u8>,
    ignore_case: bool,
    invert: bool,
) -> Seq<MatchView>
    decreases files.len(),
{
    if files.len() == 0 {
        seq![]
    } else {
        all_records(files.drop_last(), needle, ignore_case, invert) + file_records(
            files.last(),
            needle,
            ignore_case,
            invert,
        )
    }
}

/// One `(path, count)` pair per scanned file, in file order, each counting
/// that file's records. The pairs are per scan: a path handed in more than
/// once (say, through duplicate roots) gets one pair per scan; the count
/// renderer merges pairs that share a path into one reported total.
pub open spec fn counts_ok(
    counts: Seq<(Vec<u8>, usize)>,
    files: Seq<FileInputView>,
    needle: Seq<u8>,
    ignore_case: bool,
    invert: bool,
) -> bool {
    &&& counts.len() == files.len()
    &&& forall|i: int|
        0 <= i < files.len() ==> (#[trigger] counts[i]).0@ == files[i].path && counts[i].1
            == file_records(files[i], needle, ignore_case, invert).len()
}

/// The total of the per-file counts.
pub open spec fn sum_counts(counts: Seq<(Vec<u8>, usize)>) -> int
    decreases counts.len(),
{
    if counts.len() == 0 {
        0
    } else {
        sum_counts(counts.drop_last()) + counts.last().1
    }
}

/// A prefix never counts more than the whole: every count is non-negative.
pub proof fn lemma_sum_counts_prefix_le(counts: Seq<(Vec<u8>, usize)>, i: int)
    requires
        0 <= i <= counts.len(),
    ensures
        sum_counts(counts.take(i)) <= sum_counts(counts),
    decreases counts.len() - i,
{
    if i == counts.len() {
        assert(counts.take(i) =~= counts);
    } else {
        assert(counts.take(i + 1).drop_last() =~= counts.take(i));
        assert(counts.take(i + 1).last() == counts[i]);
        assert(sum_counts(counts.take(i)) <= sum_counts(counts.take(i + 1)));
        lemma_sum_counts_prefix_le(counts, i + 1);
    }
}

/// The aggregate outcome of a run, read once at the end to choose the
/// process exit status.
pub struct SearchResult {
    /// Whether any qualifying line was found anywhere.
    pub has_match: bool,
}

impl SearchResult {
    /// Returns true if there was at least one match.
    pub fn has_match(&self) -> (r: bool)
        ensures
            r == self.has_match,
    {
        self.has_match
    }
}

/// Everything a run produces: the records in file order, the per-file
/// counts, and the aggregate outcome.
pub struct SearchOutput {
    /// The qualifying lines, per-file blocks in file order, each block in
    /// ascending line-number order.
    pub records: Vec<SearchMatch>,
    /// One `(path, count)` pair per scanned file, in file order; a path
    /// scanned more than once appears once per scan. The count renderer
    /// merges pairs that share a path when it reports them.
    pub counts: Vec<(Vec<u8>, usize)>,
    /// The aggregate outcome.
    pub result: SearchResult,
}

/// What a successful run must hand back for the given files and key.
pub open spec fn output_ok(
    out: SearchOutput,
    files: Seq<FileInputView>,
    needle: Seq<u8>,
    ignore_case: bool,
    invert: bool,
) -> bool {
    &&& out.records.deep_view() == all_records(files, needle, ignore_case, invert)
    &&& counts_ok(out.counts@, files, needle, ignore_case, invert)
    &&& sum_counts(out.counts@) == out.records@.len()
    &&& out.result.has_match == (all_records(files, needle, ignore_case, invert).len() > 0)
    &&& forall|j: int| 0 <= j < out.records@.len() ==> (#[trigger] out.records@[j]).wf()
}

/// Scans one file: an unreadable file contributes zero records.
pub fn scan_one(f: &FileInput, pattern: &CompiledPattern, invert: bool) -> (r: Vec<SearchMatch>)
    ensures
        r.deep_view() == file_records(
            f@,
            pattern.needle_view(),
            pattern.case_insensitive(),
            invert,
        ),
        forall|j: int| 0 <= j < r@.len() ==> (#[trigger] r@[j]).wf(),
{
    match &f.lines {
        Some(lines) => scan_file(f.path.as_slice(), lines, pattern, invert),
        None => {
            let empty: Vec<SearchMatch> = Vec::new();
            assert(empty.deep_view() =~= Seq::<MatchView>::empty());
            empty
        },
    }
}

/// Relies on rayon's `par_iter().map(..).collect()` over the file list: it
/// distributes the files across a fixed-size worker pool and collects the
/// per-file results in the original file order, exactly as the sequential
/// map would (rayon documents `collect` as order-preserving). Each file is
/// scanned by the verified [`scan_one`], whose contract justifies the claims
/// made here about every block.
#[verifier::external_body]
fn scan_blocks_parallel(files: &Vec<FileInput>, pattern: &CompiledPattern, invert: bool) -> (r: Vec<
    Vec<SearchMatch>,
>)
    ensures
        r@.len() == files@.len(),
        forall|i: int|
            0 <= i < files@.len() ==> (#[trigger] r@[i]).deep_view() == file_records(
                files@[i]@,
                pattern.needle_view(),
                pattern.case_insensitive(),
                invert,
            ),
        forall|i: int, j: int|
            0 <= i < r@.len() && 0 <= j < r@[i]@.len() ==> (#[trigger] r@[i]@[j]).wf(),
{
    files.par_iter().map(|f| scan_one(f, pattern, invert)).collect()
}

/// Scans the files one after another, in file order.
fn scan_blocks_sequential(files: &Vec<FileInput>, pattern: &CompiledPattern, invert: bool) -> (r:
    Vec<Vec<SearchMatch>>)
    ensures
        r@.len() == files@.len(),
        forall|i: int|
            0 <= i < files@.len() ==> (#[trigger] r@[i]).deep_view() == file_records(
                files@[i]@,
                pattern.needle_view(),
                pattern.case_insensitive(),
                invert,
            ),
        forall|i: int, j: int|
            0 <= i < r@.len() && 0 <= j < r@[i]@.len() ==> (#[trigger] r@[i]@[j]).wf(),
{
    let mut blocks: Vec<Vec<SearchMatch>> = Vec::new();
    let mut i: usize = 0;
    while i < files.len()
        invariant
            i <= files@.len(),
            blocks@.len() == i,
            forall|k: int|
                0 <= k < i ==> (#[trigger] blocks@[k]).deep_view() == file_records(
                    files@[k]@,
                    pattern.needle_view(),
                    pattern.case_insensitive(),
                    invert,
                ),
            forall|k: int, j: int|
                0 <= k < blocks@.len() && 0 <= j < blocks@[k]@.len() ==> (
                #[trigger] blocks@[k]@[j]).wf(),
        decreases files@.len() - i,
    {
        let block = scan_one(&files[i], pattern, invert);
        blocks.push(block);
        i = i + 1;
    }
    blocks
}

/// Merges the per-file blocks into the run's output: the flattened records,
/// the per-file counts, and the any-match outcome.
fn assemble(files: &Vec<FileInput>, blocks: Vec<Vec<SearchMatch>>, ghost_key: Ghost<
    (Seq<u8>, bool, bool),
>) -> (out: SearchOutput)
    requires
        blocks@.len() == files@.len(),
        forall|i: int|
            0 <= i < files@.len() ==> (#[trigger] blocks@[i]).deep_view() == file_records(
                files@[i]@,
                ghost_key@.0,
                ghost_key@.1,
                ghost_key@.2,
            ),
        forall|i: int, j: int|
            0 <= i < blocks@.len() && 0 <= j < blocks@[i]@.len() ==> (
            #[trigger] blocks@[i]@[j]).wf(),
    ensures
        output_ok(out, files.deep_view(), ghost_key@.0, ghost_key@.1, ghost_key@.2),
{
    let ghost needle = ghost_key@.0;
    let ghost ignore_case = ghost_key@.1;
    let ghost invert = ghost_key@.2;
    let ghost fv = files.deep_view();
    let mut records: Vec<SearchMatch> = Vec::new();
    let mut counts: Vec<(Vec<u8>, usize)> = Vec::new();
    let mut blocks = blocks;
    let mut i: usize = 0;
    proof {
        assert(fv.take(0) =~= Seq::<FileInputView>::empty());
        assert(records.deep_view() =~= all_records(fv.take(0), needle, ignore_case, invert));
    }
    while i < blocks.len()
        invariant
            i <= blocks@.len(),
            blocks@.len() == files@.len(),
            fv == files.deep_view(),
            records.deep_view() == all_records(fv.take(i as int), needle, ignore_case, invert),
            counts@.len() == i,
            sum_counts(counts@) == records@.len(),
            forall|k: int|
                0 <= k < i ==> (#[trigger] counts@[k]).0@ == fv[k].path && counts@[k].1
                    == file_records(fv[k], needle, ignore_case, invert).len(),
            forall|k: int|
                i <= k < files@.len() ==> (#[trigger] blocks@[k]).deep_view() == file_records(
                    files@[k]@,
                    needle,
                    ignore_case,
                    invert,
                ),
            forall|k: int, j: int|
                0 <= k < blocks@.len() && 0 <= j < blocks@[k]@.len() ==> (
                #[trigger] blocks@[k]@[j]).wf(),
            forall|j: int| 0 <= j < records@.len() ==> (#[trigger] records@[j]).wf(),
        decreases blocks@.len() - i,
    {
        let count = blocks[i].len();
        let ghost old_counts = counts@;
        counts.push((copy_bytes(files[i].path.as_slice()), count));
        proof {
            assert(counts@.drop_last() =~= old_counts);
            assert(sum_counts(counts@) == sum_counts(old_counts) + count);
        }
        let mut block: Vec<SearchMatch> = Vec::new();
        core::mem::swap(&mut block, &mut blocks[i]);
        let ghost old_records = records.deep_view();
        records.append(&mut block);
        proof {
            assert(fv.take(i + 1).drop_last() =~= fv.take(i as int));
            assert(fv.take(i + 1).last() == fv[i as int]);
            assert(fv[i as int] == files@[i as int]@);
            assert(records.deep_view() =~= old_records + file_records(
                fv[i as int],
                needle,
                ignore_case,
                invert,
            ));
            assert(fv.take(i + 1).len() == i + 1);
            assert(all_records(fv.take(i + 1), needle, ignore_case, invert) == all_records(
                fv.take(i + 1).drop_last(),
                needle,
                ignore_case,
                invert,
            ) + file_records(fv.take(i + 1).last(), needle, ignore_case, invert));
            assert(all_records(fv.take(i + 1), needle, ignore_case, invert) == all_records(
                fv.take(i as int),
                needle,
                ignore_case,
                invert,
            ) + file_records(fv[i as int], needle, ignore_case, invert));
            assert(count as nat == file_records(fv[i as int], needle, ignore_case, invert).len());
        }
        i = i + 1;
    }
    proof {
        assert(fv.take(files@.len() as int) =~= fv);
        assert(counts_ok(counts@, fv, needle, ignore_case, invert));
    }
    let has_match = records.len() > 0;
    SearchOutput { records, counts, result: SearchResult { has_match } }
}

/// Runs a whole search over already-read files with an explicit pattern
/// cache: compiles (or reuses) the matcher for `(needle, ignore_case)` once,
/// scans every file under the strategy `flags.parallel` selects, and merges
/// the results. Fails exactly when the needle does not compile, before any
/// file is scanned.
pub fn search_files_with_cache(
    needle: &[u8],
    files: &Vec<FileInput>,
    flags: &Flags,
    cache: &mut PatternCache,
) -> (r: Result<SearchOutput, SearchError>)
    requires
        old(cache).wf(),
    ensures
        final(cache).wf(),
        r is Ok <==> pattern_ok(needle@, flags.ignore_case),
        r matches Ok(out) ==> output_ok(
            out,
            files.deep_view(),
            needle@,
            flags.ignore_case,
            flags.invert_match,
        ),
        r is Err ==> r matches Err(SearchError::InvalidPattern(_)),
{
    let pattern = match cache.compile_or_get_regex(needle, flags.ignore_case) {
        Ok(p) => p,
        Err(e) => {
            return Err(e);
        },
    };
    let blocks = if flags.parallel {
        scan_blocks_parallel(files, &pattern, flags.invert_match)
    } else {
        scan_blocks_sequential(files, &pattern, flags.invert_match)
    };
    Ok(assemble(files, blocks, Ghost((needle@, flags.ignore_case, flags.invert_match))))
}

/// Runs a whole search over already-read files, with a fresh pattern cache.
/// The records come in file order, each file's block in ascending
/// line-number order, whichever strategy `flags.parallel` selects.
pub fn search_files(needle: &[u8], files: &Vec<FileInput>, flags: &Flags) -> (r: Result<
    SearchOutput,
    SearchError,
>)
    ensures
        r is Ok <==> pattern_ok(needle@, flags.ignore_case),
        r matches Ok(out) ==> output_ok(
            out,
            files.deep_view(),
            needle@,
            flags.ignore_case,
            flags.invert_match,
        ),
        r is Err ==> r matches Err(SearchError::InvalidPattern(_)),
{
    let mut cache = PatternCache::new();
    search_files_with_cache(needle, files, flags, &mut cache)
}

/// Runs the search on the worker pool regardless of `flags.parallel`. The
/// contract is the same as for [`search_files`]: parallelism never changes
/// what is reported.
pub fn search_files_parallel(needle: &[u8], files: &Vec<FileInput>, flags: &Flags) -> (r: Result<
    SearchOutput,
    SearchError,
>)
    ensures
        r is Ok <==> pattern_ok(needle@, flags.ignore_case),
        r matches Ok(out) ==> output_ok(
            out,
            files.deep_view(),
            needle@,
            flags.ignore_case,
            flags.invert_match,
        ),
        r is Err ==> r matches Err(SearchError::InvalidPattern(_)),
{
    let forced = Flags { parallel: true, ..*flags };
    search_files(needle, files, &forced)
}

/// Sequential and parallel execution produce the same multiset of records:
/// both strategies meet the one specification [`all_records`], so their
/// record sequences — per-file blocks in file order, ascending line numbers
/// within a block — are in fact equal, and so are their multisets.
pub proof fn lemma_parallel_agrees_with_sequential(
    files: Seq<FileInputView>,
    needle: Seq<u8>,
    ignore_case: bool,
    invert: bool,
    sequential: Seq<MatchView>,
    parallel: Seq<MatchView>,
)
    requires
        sequential == all_records(files, needle, ignore_case, invert),
        parallel == all_records(files, needle, ignore_case, invert),
    ensures
        parallel == sequential,
        parallel.to_multiset() == sequential.to_multiset(),
{
}

/// Chooses the process exit status from a run's outcome: 0 when at least one
/// qualifying line was found, 1 when the run completed without one, 2 when a
/// fatal error aborted the run.
pub fn select_exit_code(r: &Result<SearchOutput, SearchError>) -> (code: u8)
    ensures
        r matches Ok(out) ==> code == (if out.result.has_match {
            0u8
        } else {
            1u8
        }),
        r is Err ==> code == 2,
{
    match r {
        Ok(out) => if out.result.has_match {
            0
        } else {
            1
        },
        Err(_) => 2,
    }
}

} // verus!
