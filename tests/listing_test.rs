use std::path::Path;

use obsessed::listing::{exclude_paths, expand_glob, list_files};

fn make_entry(dir: &Path, name: &str, is_dir: bool) {
    let mut builder = tempfile::Builder::new();
    builder.prefix(name).rand_bytes(0).disable_cleanup(true);
    if is_dir {
        builder.tempdir_in(dir).expect("Failed to create directory");
    } else {
        builder.tempfile_in(dir).expect("Failed to create file");
    }
}

fn temp_dir_with(files: &[&str]) -> tempfile::TempDir {
    let temp_dir = tempfile::tempdir().expect("Failed to create temp dir");
    for path in files {
        let parts: Vec<&str> = path.split('/').collect();
        let mut dir = temp_dir.path().to_path_buf();
        for part in &parts[..parts.len() - 1] {
            if !dir.join(part).exists() {
                make_entry(&dir, part, true);
            }
            dir = dir.join(part);
        }
        make_entry(&dir, parts[parts.len() - 1], false);
    }
    temp_dir
}

fn text(dir: &Path, rel: &str) -> String {
    dir.join(rel).to_str().unwrap().to_string()
}

fn strings(v: &[&str]) -> Vec<String> {
    v.iter().map(|s| s.to_string()).collect()
}

#[test]
fn check_file_pair_test_nothing() {
    assert_eq!(1 + 1, 2);
}

#[test]
fn preferred_suffix_test_nothing() {
    assert_eq!(1 + 1, 2);
}

#[test]
fn test_expand_glob_simple() {
    let temp_dir = temp_dir_with(&["file1.txt", "file2.txt", "other.log"]);
    let dir_path = temp_dir.path();
    let mut txt_files = expand_glob(dir_path.to_str().unwrap(), &strings(&["*.txt"])).unwrap();
    txt_files.sort();
    let expected = vec![text(dir_path, "file1.txt"), text(dir_path, "file2.txt")];
    assert_eq!(txt_files, expected);
}

#[test]
fn test_expand_glob_multiple_patterns() {
    let temp_dir = temp_dir_with(&["file1.txt", "file2.txt", "other.log"]);
    let dir_path = temp_dir.path();
    let mut all_files =
        expand_glob(dir_path.to_str().unwrap(), &strings(&["*.txt", "*.log"])).unwrap();
    all_files.sort();
    let expected = vec![
        text(dir_path, "file1.txt"),
        text(dir_path, "file2.txt"),
        text(dir_path, "other.log"),
    ];
    assert_eq!(all_files, expected);
}

#[test]
fn test_expand_glob_recursive() {
    let temp_dir = temp_dir_with(&["file1.txt", "file2.txt", "subdir/nested.txt"]);
    let dir_path = temp_dir.path();
    let mut all_nested = expand_glob(dir_path.to_str().unwrap(), &strings(&["**/*.txt"])).unwrap();
    all_nested.sort();
    let expected = vec![
        text(dir_path, "file1.txt"),
        text(dir_path, "file2.txt"),
        text(dir_path, "subdir/nested.txt"),
    ];
    assert_eq!(all_nested, expected);
}

#[test]
fn test_list_files_with_exclude() {
    let temp_dir = temp_dir_with(&["file1.txt", "file2.txt", "file3.txt"]);
    let dir_path = temp_dir.path();
    let mut files = list_files(
        dir_path.to_str().unwrap(),
        &strings(&["*.txt"]),
        &strings(&["file2.txt"]),
    )
    .unwrap();
    files.sort();
    let expected = vec![text(dir_path, "file1.txt"), text(dir_path, "file3.txt")];
    assert_eq!(files, expected);
}

#[test]
fn test_list_files_recursive_with_exclude() {
    let temp_dir = temp_dir_with(&[
        "file1.txt",
        "file2.txt",
        "file3.txt",
        "other.log",
        "subdir/nested.txt",
        "subdir/nested.log",
    ]);
    let dir_path = temp_dir.path();
    let mut files = list_files(
        dir_path.to_str().unwrap(),
        &strings(&["**/*.txt"]),
        &strings(&["**/*.log"]),
    )
    .unwrap();
    files.sort();
    let expected = vec![
        text(dir_path, "file1.txt"),
        text(dir_path, "file2.txt"),
        text(dir_path, "file3.txt"),
        text(dir_path, "subdir/nested.txt"),
    ];
    assert_eq!(files, expected);
}

#[test]
fn test_list_files_empty_patterns() {
    let temp_dir = temp_dir_with(&["file1.txt", "file2.txt"]);
    let dir_path = temp_dir.path();
    let files = list_files(dir_path.to_str().unwrap(), &vec![], &vec![]).unwrap();
    assert_eq!(files, Vec::<String>::new());
}

#[test]
fn exclude_wins_over_identical_include() {
    let temp_dir = temp_dir_with(&["a.txt", "b.txt"]);
    let dir_path = temp_dir.path();
    let files = list_files(
        dir_path.to_str().unwrap(),
        &strings(&["a.txt", "*.txt"]),
        &strings(&["a.txt"]),
    )
    .unwrap();
    assert_eq!(files, vec![text(dir_path, "b.txt")]);
}

#[test]
fn exclude_paths_keeps_order_and_drops_equal_paths() {
    let kept = exclude_paths(strings(&["/r/c", "/r/a", "/r/b", "/r/a"]), &strings(&["/r/a"]));
    assert_eq!(kept, strings(&["/r/c", "/r/b"]));
}

#[test]
fn refused_glob_pattern_is_invalid_input() {
    let temp_dir = temp_dir_with(&["a.txt"]);
    let r = list_files(temp_dir.path().to_str().unwrap(), &strings(&["a[.txt"]), &vec![]);
    assert!(matches!(r, Err(obsessed::error::PairError::InvalidInput(_))));
    let r = list_files(temp_dir.path().to_str().unwrap(), &strings(&["*.txt"]), &strings(&["***"]));
    assert!(matches!(r, Err(obsessed::error::PairError::InvalidInput(_))));
}

#[test]
fn pattern_matching_nothing_is_no_error() {
    let temp_dir = temp_dir_with(&["a.txt"]);
    let r = list_files(temp_dir.path().to_str().unwrap(), &strings(&["*.py"]), &vec![]);
    assert_eq!(r, Ok(vec![]));
}

#[test]
fn overlapping_patterns_list_each_path_once() {
    let temp_dir = temp_dir_with(&["file1.txt", "file2.txt"]);
    let dir_path = temp_dir.path();
    let mut files = list_files(
        dir_path.to_str().unwrap(),
        &strings(&["*.txt", "file1.txt"]),
        &vec![],
    )
    .unwrap();
    files.sort();
    assert_eq!(files, vec![text(dir_path, "file1.txt"), text(dir_path, "file2.txt")]);
    let expanded = expand_glob(dir_path.to_str().unwrap(), &strings(&["file1.txt", "*.txt"])).unwrap();
    assert_eq!(expanded, vec![text(dir_path, "file1.txt"), text(dir_path, "file2.txt")]);
}

#[test]
fn collect_found_skips_unreadable_and_keeps_order() {
    let found = vec![
        vec![Some("/r/a".to_string()), None, Some("/r/b".to_string())],
        vec![],
        vec![None, Some("/r/a".to_string())],
    ];
    assert_eq!(
        obsessed::listing::collect_found(&found),
        strings(&["/r/a", "/r/b", "/r/a"])
    );
    assert_eq!(
        obsessed::listing::dedup_paths(strings(&["/r/a", "/r/b", "/r/a"])),
        strings(&["/r/a", "/r/b"])
    );
}
