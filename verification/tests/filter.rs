use skip_filter::{map_diff, Filter, FilterMap, PathWrapper};
use std::path::Path;

fn strings(names: &[&str]) -> Vec<String> {
    names.iter().map(|name| name.to_string()).collect()
}

fn filter_map(entries: &[(&str, &[&str])]) -> FilterMap {
    let mut map = FilterMap::new();
    for (folder, names) in entries {
        map.insert(folder.to_string(), strings(names));
    }
    map
}

fn stem(path: Option<&Path>) -> String {
    path.and_then(|p| p.file_stem())
        .map(|s| s.to_string_lossy().into_owned())
        .unwrap_or_default()
}

fn wrap(path: &str) -> PathWrapper {
    let path = Path::new(path);
    PathWrapper::new(stem(path.parent()), stem(Some(path)))
}

fn filter(
    filename: &[(&str, &[&str])],
    regex: &[(&str, &[&str])],
    test_name: &[(&str, &[&str])],
) -> Filter {
    Filter::new(filter_map(filename), filter_map(regex), filter_map(test_name))
}

#[test]
fn test_filter_file() {
    let filter = filter(&[("stCallCreateCallCodeTest", &["Call1024PreCalls"])], &[], &[]);
    let path = wrap(
        "../../ef-testing/ethereum-tests/BlockchainTests/GeneralStateTests/stCallCreateCallCodeTest/Call1024PreCalls.json",
    );
    assert!(filter.is_skipped(&path, None));
}

#[test]
fn test_filter_regex() {
    let filter = filter(&[], &[("stBadOpcode", &["opc4D.*"])], &[]);
    let path = wrap(
        "../../ef-testing/ethereum-tests/BlockchainTests/GeneralStateTests/stBadOpcode/opc4DDiffPlaces.json",
    );
    assert!(filter.is_skipped(&path, None));
}

#[test]
fn test_filter_test() {
    let filter = filter(
        &[],
        &[],
        &[("stTransactionTest", &["Opcodes_TransactionInit_d111g0v0_Shanghai"])],
    );
    let path = wrap(
        "../../ef-testing/ethereum-tests/BlockchainTests/GeneralStateTests/stTransactionTest/Opcodes_TransactionInit.json",
    );
    assert!(filter.is_skipped(
        &path,
        Some("Opcodes_TransactionInit_d111g0v0_Shanghai".to_string())
    ));
}

#[test]
fn test_map_diff() {
    // Given
    let lhs = filter_map(&[
        ("a", &["a"]),
        ("b", &["b", "b"]),
        ("c", &["c", "c", "c"]),
        ("e", &["e", "f", "g"]),
    ]);
    let rhs = filter_map(&[
        ("a", &["a"]),
        ("b", &["b", "d"]),
        ("c", &["c", "c", "c"]),
        ("d", &["e", "f", "g"]),
    ]);

    // When
    let mut diff = map_diff(&lhs, &rhs);
    diff.sort();

    // Then
    let expected: Vec<String> = vec!["b".to_string(), "d".to_string(), "e".to_string()]
        .into_iter()
        .collect();

    assert_eq!(diff, expected)
}

#[test]
fn named_case_is_skipped_only_when_named() {
    let filter = filter(
        &[],
        &[],
        &[("stTransactionTest", &["Opcodes_TransactionInit_d111g0v0_Shanghai"])],
    );
    let path = PathWrapper::new(
        "stTransactionTest".to_string(),
        "Opcodes_TransactionInit".to_string(),
    );
    assert!(filter.is_skipped(
        &path,
        Some("Opcodes_TransactionInit_d111g0v0_Shanghai".to_string())
    ));
    assert!(!filter.is_skipped(&path, None));
    assert!(!filter.is_skipped(&path, Some("Opcodes_TransactionInit_d0g0v0_Shanghai".to_string())));
}

#[test]
fn unlisted_folder_is_never_skipped() {
    let filter = filter(
        &[("dirA", &["f1"])],
        &[("dirB", &[".*"])],
        &[("dirC", &["case"])],
    );
    let path = PathWrapper::new("dirD".to_string(), "f1".to_string());
    assert!(!filter.is_skipped(&path, None));
    assert!(!filter.is_skipped(&path, Some("case".to_string())));
    assert_eq!(filter.try_is_skipped(&path, Some("case".to_string())).ok(), Some(false));
}

#[test]
fn listed_file_is_skipped_whatever_the_case() {
    let filter = filter(&[("dirA", &["f0", "f1"])], &[], &[]);
    let path = PathWrapper::new("dirA".to_string(), "f1".to_string());
    assert!(filter.is_skipped(&path, None));
    assert!(filter.is_skipped(&path, Some("anything".to_string())));
    let other = PathWrapper::new("dirA".to_string(), "f2".to_string());
    assert!(!filter.is_skipped(&other, None));
}

#[test]
fn file_listed_under_another_folder_is_kept() {
    let filter = filter(&[("dirA", &["f1"])], &[], &[("dirA", &["f1"])]);
    let path = PathWrapper::new("dirB".to_string(), "f1".to_string());
    assert!(!filter.is_skipped(&path, Some("f1".to_string())));
}

#[test]
fn file_name_is_not_a_case_name() {
    let filter = filter(&[], &[], &[("dirA", &["f1"])]);
    let path = PathWrapper::new("dirA".to_string(), "f1".to_string());
    assert!(!filter.is_skipped(&path, None));
    assert!(filter.is_skipped(&path, Some("f1".to_string())));
}

#[test]
fn pattern_matches_a_part_of_the_name() {
    let filter = filter(&[], &[("stBadOpcode", &["4DDiff"])], &[]);
    let path = PathWrapper::new("stBadOpcode".to_string(), "opc4DDiffPlaces".to_string());
    assert!(filter.is_skipped(&path, None));
    assert!(filter.is_skipped(&path, Some("any".to_string())));
}

#[test]
fn anchored_pattern_must_match_the_whole_name() {
    let filter = filter(&[], &[("stBadOpcode", &["^4DDiff$", "^opc"])], &[]);
    let hit = PathWrapper::new("stBadOpcode".to_string(), "opc4DDiffPlaces".to_string());
    let miss = PathWrapper::new("stBadOpcode".to_string(), "xopc4DDiffPlaces".to_string());
    assert!(filter.is_skipped(&hit, None));
    assert!(!filter.is_skipped(&miss, None));
}

#[test]
fn pattern_is_not_compared_as_text() {
    let filter = filter(&[], &[("dir", &["a.c"])], &[]);
    assert!(filter.is_skipped(&PathWrapper::new("dir".to_string(), "abc".to_string()), None));
    assert!(!filter.is_skipped(&PathWrapper::new("dir".to_string(), "ac".to_string()), None));
}

#[test]
fn pattern_of_another_folder_does_not_count() {
    let filter = filter(&[], &[("stBadOpcode", &["opc4D.*"])], &[]);
    let path = PathWrapper::new("stOther".to_string(), "opc4DDiffPlaces".to_string());
    assert!(!filter.is_skipped(&path, None));
}

#[test]
fn path_without_folder_misses() {
    let filter = filter(&[("dirA", &["f1"])], &[("dirA", &["f.*"])], &[("dirA", &["f1"])]);
    let path = wrap("f1.json");
    assert_eq!(path.dir_name, "");
    assert_eq!(path.file_name, "f1");
    assert!(!filter.is_skipped(&path, Some("f1".to_string())));
    let empty = PathWrapper::new(String::new(), String::new());
    assert!(!filter.is_skipped(&empty, None));
}

#[test]
fn empty_folder_name_is_a_key_like_any_other() {
    let filter = filter(&[("", &["f1"])], &[], &[]);
    assert!(filter.is_skipped(&wrap("f1.json"), None));
}

#[test]
fn bad_pattern_is_reported() {
    let filter = filter(&[("dir", &["file"])], &[("dir", &["abc", "foo(bar", "file"])], &[]);
    let path = PathWrapper::new("dir".to_string(), "file".to_string());
    let error = filter.try_is_skipped(&path, None).err().expect("the pattern does not compile");
    assert_eq!(error.folder, "dir");
    assert_eq!(error.position, 1);
    assert_eq!(error.pattern, "foo(bar");
}

#[test]
fn bad_pattern_behind_a_match_is_not_reached() {
    let filter = filter(&[], &[("dir", &["abc", "fi", "foo(bar"])], &[]);
    let path = PathWrapper::new("dir".to_string(), "file".to_string());
    assert_eq!(filter.try_is_skipped(&path, None).ok(), Some(true));
    assert!(filter.is_skipped(&path, None));
}

#[test]
fn bad_pattern_of_another_folder_is_not_reached() {
    let filter = filter(&[], &[("dir", &["foo(bar"]), ("other", &["fi"])], &[]);
    let path = PathWrapper::new("other".to_string(), "file".to_string());
    assert_eq!(filter.try_is_skipped(&path, None).ok(), Some(true));
    let unlisted = PathWrapper::new("third".to_string(), "file".to_string());
    assert_eq!(filter.try_is_skipped(&unlisted, None).ok(), Some(false));
}

#[test]
fn too_large_pattern_is_reported() {
    let filter = filter(&[], &[("dir", &[r"\w{1000}"])], &[]);
    let path = PathWrapper::new("dir".to_string(), "file".to_string());
    let error = filter.try_is_skipped(&path, None).err().expect("the pattern is too large");
    assert_eq!(error.position, 0);
    assert_eq!(error.pattern, r"\w{1000}");
}

#[test]
fn try_is_skipped_agrees_with_is_skipped() {
    let filter = filter(
        &[("dirA", &["f1"])],
        &[("dirB", &["^g[0-9]+$"])],
        &[("dirC", &["case"])],
    );
    let paths = [("dirA", "f1"), ("dirA", "f2"), ("dirB", "g12"), ("dirB", "g"), ("dirC", "h")];
    for (dir, file) in paths {
        for case in [None, Some("case".to_string())] {
            let path = PathWrapper::new(dir.to_string(), file.to_string());
            assert_eq!(
                filter.try_is_skipped(&path, case.clone()).ok(),
                Some(filter.is_skipped(&path, case))
            );
        }
    }
}

#[test]
fn decision_is_the_or_of_the_three() {
    let filter = filter(&[("dir", &["f1"])], &[], &[("dir", &["case"])]);
    let listed = PathWrapper::new("dir".to_string(), "f1".to_string());
    let other = PathWrapper::new("dir".to_string(), "f2".to_string());
    assert!(filter.is_skipped_given(&listed, None, false));
    assert!(filter.is_skipped_given(&other, None, true));
    assert!(filter.is_skipped_given(&other, Some("case".to_string()), false));
    assert!(!filter.is_skipped_given(&other, Some("none".to_string()), false));
    assert!(!filter.is_skipped_given(&other, None, false));
}

#[test]
fn default_filter_skips_nothing() {
    let filter = Filter::default();
    assert_eq!(filter.filename().len(), 0);
    assert_eq!(filter.regex().len(), 0);
    assert_eq!(filter.test_name().len(), 0);
    let path = PathWrapper::new("dir".to_string(), "file".to_string());
    assert!(!filter.is_skipped(&path, Some("case".to_string())));
    assert!(filter.diff(&Filter::default()).is_empty());
}

#[test]
fn filter_hands_its_mappings_out() {
    let filter = filter(&[("a", &["1"])], &[("b", &["2"])], &[("c", &["3"])]);
    assert_eq!(filter.filename().get(&"a".to_string()), Some(&strings(&["1"])));
    assert_eq!(filter.regex().get(&"b".to_string()), Some(&strings(&["2"])));
    assert_eq!(filter.test_name().get(&"c".to_string()), Some(&strings(&["3"])));
    assert_eq!(filter.filename().get(&"b".to_string()), None);
}
