use getme::config::Flags;
use getme::searcher::{select_exit_code, SearchOutput};
use getme::walk::{get_all_files, get_files_from_path};
use getme::SearchError;

fn flags_default() -> Flags {
    Flags {
        ignore_case: false,
        parallel: false,
        recursive: false,
        count: false,
        show_names: false,
        show_lines: false,
        invert_match: false,
        hidden: false,
    }
}

#[test]
fn test_missing_root_aborts() {
    let roots = vec![b"definitely_not_an_existing_root_zzz".to_vec()];
    let result = get_all_files(&roots, &flags_default());
    match &result {
        Err(SearchError::RootNotFound(path)) => {
            assert_eq!(path, &b"definitely_not_an_existing_root_zzz".to_vec());
        }
        _ => panic!("a root that is neither file nor directory must abort the run"),
    }
    let run: Result<SearchOutput, SearchError> = Err(result.unwrap_err());
    assert_eq!(select_exit_code(&run), 2);
}

#[test]
fn test_file_root_always_included() {
    let result = get_files_from_path(b"src/lib.rs", &flags_default()).unwrap();
    assert_eq!(result, vec![b"src/lib.rs".to_vec()]);
}

#[test]
fn test_directory_root_lists_files() {
    let files = get_files_from_path(b"src", &flags_default()).unwrap();
    assert!(files
        .iter()
        .any(|f| f.ends_with(b"lib.rs")));
}

#[test]
fn test_missing_root_after_good_root_still_aborts() {
    let roots = vec![b"src/lib.rs".to_vec(), b"no_such_root_zzz".to_vec()];
    let result = get_all_files(&roots, &flags_default());
    match result {
        Err(SearchError::RootNotFound(path)) => {
            assert_eq!(path, b"no_such_root_zzz".to_vec());
        }
        _ => panic!("the run must fail fast on the first bad root"),
    }
}
