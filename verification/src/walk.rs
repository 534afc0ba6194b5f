//! The file enumerator: expands the caller-supplied roots into the concrete
//! list of regular files to scan, honoring recursion and hidden-entry
//! visibility.
//!
//! A root that names an existing regular file is always included — an
//! explicit mention overrides hiding. A directory root is walked by the
//! `ignore` crate, which skips hidden and ignored entries unless asked not
//! to; which of the walked entries are kept is decided here, verified. A
//! root that names neither fails the whole run, fail-fast, before any
//! output is produced.

use vstd::prelude::*;

use crate::SearchError;
use crate::bytes::copy_bytes;
use crate::config::Flags;

verus! {

/// One entry yielded by walking a directory root: its path, whether it is a
/// regular file, and its depth below the root (the root itself has depth 0).
pub struct WalkEntry {
    pub path: Vec<u8>,
    pub is_file: bool,
    pub depth: usize,
}

/// Relies on `std::path::Path::is_file`: whether the path currently names an
/// existing regular file. The answer depends on what is on disk, so nothing
/// is promised of it.
#[verifier::external_body]
fn path_is_file(path: &[u8]) -> bool {
    let name = String::from_utf8_lossy(path).into_owned();
    std::path::Path::new(&name).is_file()
}

/// Relies on `std::path::Path::is_dir`: whether the path currently names an
/// existing directory. The answer depends on what is on disk, so nothing is
/// promised of it.
#[verifier::external_body]
fn path_is_dir(path: &[u8]) -> bool {
    let name = String::from_utf8_lossy(path).into_owned();
    std::path::Path::new(&name).is_dir()
}

/// Relies on `ignore::WalkBuilder`: it walks the directory, skipping hidden
/// and ignore-ruled entries unless `hidden` is set, and descending at most
/// one level unless `recursive` is set; each yielded entry carries its path,
/// file type and depth. What comes back depends on what is on disk, so
/// nothing is promised of it; the verified filter decides what is kept.
#[verifier::external_body]
fn walk_directory(root: &[u8], hidden: bool, recursive: bool) -> Vec<WalkEntry> {
    let name = String::from_utf8_lossy(root).into_owned();
    let depth = if recursive { None } else { Some(1) };
    let walk = ignore::WalkBuilder::new(&name).hidden(!hidden).max_depth(depth).build();
    walk.filter_map(Result::ok).map(
        |entry| WalkEntry {
            path: entry.path().to_string_lossy().into_owned().into_bytes(),
            is_file: entry.file_type().map_or(false, |t| t.is_file()),
            depth: entry.depth(),
        },
    ).collect()
}

/// Whether a walked entry belongs in the file list: it is a regular file,
/// and it sits at depth one unless the walk is recursive.
pub open spec fn entry_kept(entry: WalkEntry, recursive: bool) -> bool {
    entry.is_file && (recursive || entry.depth == 1)
}

/// The paths of the kept entries, in walk order.
pub open spec fn kept_paths(entries: Seq<WalkEntry>, recursive: bool) -> Seq<Seq<u8>>
    decreases entries.len(),
{
    if entries.len() == 0 {
        seq![]
    } else {
        kept_paths(entries.drop_last(), recursive) + (if entry_kept(entries.last(), recursive) {
            seq![entries.last().path@]
        } else {
            seq![]
        })
    }
}

/// Keeps, in walk order, the paths of the regular files at an allowed depth:
/// every depth when `recursive` is set, depth one otherwise.
pub fn filter_files(entries: &Vec<WalkEntry>, recursive: bool) -> (r: Vec<Vec<u8>>)
    ensures
        r.deep_view() == kept_paths(entries@, recursive),
{
    let mut out: Vec<Vec<u8>> = Vec::new();
    let mut i: usize = 0;
    proof {
        assert(entries@.take(0) =~= Seq::<WalkEntry>::empty());
        assert(out.deep_view() =~~= kept_paths(entries@.take(0), recursive));
    }
    while i < entries.len()
        invariant
            i <= entries@.len(),
            out.deep_view() == kept_paths(entries@.take(i as int), recursive),
        decreases entries@.len() - i,
    {
        let keep = entries[i].is_file && (recursive || entries[i].depth == 1);
        if keep {
            out.push(copy_bytes(entries[i].path.as_slice()));
        }
        proof {
            assert(entries@.take(i + 1).drop_last() =~= entries@.take(i as int));
            assert(entries@.take(i + 1).last() == entries@[i as int]);
            assert(out.deep_view() =~~= kept_paths(entries@.take(i + 1), recursive));
        }
        i = i + 1;
    }
    proof {
        assert(entries@.take(entries@.len() as int) =~= entries@);
    }
    out
}

/// Lists the files under one directory root: walks it, then keeps the
/// regular files at an allowed depth. The walked entries come back beside
/// the file list as a witness, so the contract can fix the list even though
/// what the walk yields depends on what is on disk: the list equals exactly
/// the kept paths of those entries, decided by the verified
/// [`filter_files`].
pub fn get_files_from_directory(path: &[u8], flags: &Flags) -> (r: (Vec<WalkEntry>, Vec<Vec<u8>>))
    ensures
        r.1.deep_view() == kept_paths(r.0@, flags.recursive),
{
    let entries = walk_directory(path, flags.hidden, flags.recursive);
    let files = filter_files(&entries, flags.recursive);
    (entries, files)
}

/// Decides what one root contributes from the filesystem's answers: a
/// directory contributes the files walked under it; otherwise an existing
/// regular file is always included, exactly itself, whatever the hidden-file
/// setting — an explicit mention overrides hiding; a root that is neither
/// fails with `RootNotFound` naming the root.
pub fn expand_root(is_dir: bool, is_file: bool, dir_files: Vec<Vec<u8>>, path: &[u8]) -> (r: Result<
    Vec<Vec<u8>>,
    SearchError,
>)
    ensures
        is_dir ==> (r matches Ok(v) && v == dir_files),
        !is_dir && is_file ==> (r matches Ok(v) && v.deep_view() == seq![path@]),
        !is_dir && !is_file ==> (r matches Err(e) && e matches SearchError::RootNotFound(p) && p@
            == path@),
{
    if is_dir {
        Ok(dir_files)
    } else if is_file {
        let mut single: Vec<Vec<u8>> = Vec::new();
        single.push(copy_bytes(path));
        proof {
            assert(single.deep_view() =~~= seq![path@]);
        }
        Ok(single)
    } else {
        Err(SearchError::RootNotFound(copy_bytes(path)))
    }
}

/// Expands one root: asks the filesystem what the root is, walks it if it is
/// a directory, and lets the verified [`expand_root`] fix the outcome for
/// every combination of answers.
pub fn get_files_from_path(path: &[u8], flags: &Flags) -> (r: Result<Vec<Vec<u8>>, SearchError>)
    ensures
        r matches Err(e) ==> e matches SearchError::RootNotFound(p) && p@ == path@,
{
    let is_dir = path_is_dir(path);
    let is_file = path_is_file(path);
    let dir_files = if is_dir {
        let walked = get_files_from_directory(path, flags);
        walked.1
    } else {
        Vec::new()
    };
    expand_root(is_dir, is_file, dir_files, path)
}

/// Whether every per-root outcome succeeded.
pub open spec fn all_roots_ok(results: Seq<Result<Vec<Vec<u8>>, SearchError>>) -> bool {
    forall|i: int| 0 <= i < results.len() ==> (#[trigger] results[i]) is Ok
}

/// The file lists of the successful outcomes, concatenated in root order.
pub open spec fn concat_root_files(results: Seq<Result<Vec<Vec<u8>>, SearchError>>) -> Seq<Seq<u8>>
    decreases results.len(),
{
    if results.len() == 0 {
        seq![]
    } else {
        concat_root_files(results.drop_last()) + (match results.last() {
            Ok(v) => v.deep_view(),
            Err(_) => seq![],
        })
    }
}

/// Combines the per-root outcomes, fail-fast: if every root succeeded, the
/// whole run gets their file lists concatenated in root order; otherwise it
/// gets the first error, and the roots after it are not consulted.
#[verifier::loop_isolation(false)]
pub fn combine_root_results(results: Vec<Result<Vec<Vec<u8>>, SearchError>>) -> (r: Result<
    Vec<Vec<u8>>,
    SearchError,
>)
    ensures
        all_roots_ok(results@) ==> (r matches Ok(v) && v.deep_view() == concat_root_files(
            results@,
        )),
        !all_roots_ok(results@) ==> (r matches Err(e) && (exists|i: int|
            {
                &&& 0 <= i < results@.len()
                &&& (#[trigger] results@[i]) matches Err(e2) && e == e2
                &&& forall|j: int| 0 <= j < i ==> results@[j] is Ok
            })),
{
    let ghost orig = results@;
    let mut work = results;
    let mut all: Vec<Vec<u8>> = Vec::new();
    let mut i: usize = 0;
    proof {
        assert(orig.take(0) =~= Seq::<Result<Vec<Vec<u8>>, SearchError>>::empty());
        assert(all.deep_view() =~= concat_root_files(orig.take(0)));
    }
    while i < work.len()
        invariant
            i <= work@.len(),
            work@.len() == orig.len(),
            forall|k: int| i <= k < orig.len() ==> #[trigger] work@[k] == orig[k],
            forall|j: int| 0 <= j < i ==> #[trigger] orig[j] is Ok,
            all.deep_view() == concat_root_files(orig.take(i as int)),
        decreases work@.len() - i,
    {
        let ghost pre = work@;
        let mut taken: Result<Vec<Vec<u8>>, SearchError> = Ok(Vec::new());
        core::mem::swap(&mut taken, &mut work[i]);
        proof {
            assert(taken == pre[i as int]);
            assert(taken == orig[i as int]);
        }
        match taken {
            Ok(mut files) => {
                proof {
                    assert(orig[i as int] matches Ok(v) && v == files);
                }
                all.append(&mut files);
                proof {
                    assert(orig.take(i + 1).drop_last() =~= orig.take(i as int));
                    assert(orig.take(i + 1).last() == orig[i as int]);
                    assert(all.deep_view() =~~= concat_root_files(orig.take(i + 1)));
                }
            },
            Err(e) => {
                proof {
                    assert(orig[i as int] matches Err(e2) && e2 == e);
                    assert(!all_roots_ok(orig));
                }
                return Err(e);
            },
        }
        i = i + 1;
    }
    proof {
        assert(orig.take(orig.len() as int) =~= orig);
    }
    Ok(all)
}

/// Expands all roots into one file list, in root order, fail-fast: the
/// first root that names neither an existing file nor a directory fails the
/// whole run, before any output is produced. An empty root list cannot
/// fail: it yields the empty file list.
pub fn get_all_files(provided: &Vec<Vec<u8>>, flags: &Flags) -> (r: Result<
    Vec<Vec<u8>>,
    SearchError,
>)
    ensures
        provided@.len() == 0 ==> (r matches Ok(v) && v@.len() == 0),
        r matches Err(e) ==> e matches SearchError::RootNotFound(p) && (exists|i: int|
            0 <= i < provided@.len() && p@ == (#[trigger] provided@[i])@),
{
    let mut results: Vec<Result<Vec<Vec<u8>>, SearchError>> = Vec::new();
    let mut i: usize = 0;
    while i < provided.len()
        invariant
            i <= provided@.len(),
            results@.len() == i,
            forall|k: int|
                0 <= k < i ==> ((#[trigger] results@[k]) matches Err(e) ==> (e
                    matches SearchError::RootNotFound(p) && p@ == provided@[k]@)),
        decreases provided@.len() - i,
    {
        let outcome = get_files_from_path(provided[i].as_slice(), flags);
        results.push(outcome);
        i = i + 1;
    }
    let ghost rs = results@;
    let combined = combine_root_results(results);
    proof {
        if rs.len() == 0 {
            assert(all_roots_ok(rs));
            assert(concat_root_files(rs) =~= Seq::<Seq<u8>>::empty());
        }
        if combined is Err {
            assert(!all_roots_ok(rs));
            let w = choose|i: int|
                {
                    &&& 0 <= i < rs.len()
                    &&& (#[trigger] rs[i]) matches Err(e2) && combined->Err_0 == e2
                    &&& forall|j: int| 0 <= j < i ==> rs[j] is Ok
                };
            assert(0 <= w < rs.len());
            assert(rs[w] matches Err(e2) && e2 == combined->Err_0);
        }
    }
    combined
}

} // verus!
