use conan_cleanup::manifest::{is_manifest_file_name, parse_required_packages, ManifestError};
use conan_cleanup::usage::{find_packages_in_use, usage_set};

fn texts(v: &[&str]) -> Vec<String> {
    v.iter().map(|s| s.to_string()).collect()
}

#[test]
fn manifest_values_are_the_package_ids() {
    let text = "[settings]\nos=Linux\n[full_requires]\nzlib/1.2.11@conan/stable:6af9cc7c\nbzip2/1.0.6@conan/stable=1d5e8a3b\n[options]\nshared=False\n";
    let ids = parse_required_packages(text).ok().unwrap();
    assert_eq!(ids, vec!["6af9cc7c", "1d5e8a3b"]);
}

#[test]
fn manifest_keys_are_ignored() {
    let text = "[full_requires]\nfirst=same\nsecond=same\n";
    assert_eq!(parse_required_packages(text).ok().unwrap(), vec!["same", "same"]);
}

#[test]
fn manifest_with_empty_section_contributes_nothing() {
    let text = "[full_requires]\n[options]\nshared=False\n";
    assert!(parse_required_packages(text).ok().unwrap().is_empty());
}

#[test]
fn manifest_without_section_is_an_error() {
    match parse_required_packages("[requires]\nzlib/1.2.11=abc\n") {
        Err(ManifestError::MissingSection(name)) => assert_eq!(name, "full_requires"),
        _ => panic!("expected a missing section"),
    }
}

#[test]
fn broken_manifest_is_a_parse_error() {
    assert!(matches!(parse_required_packages("[full_requires\nzlib=abc\n"), Err(ManifestError::Parse(_))));
}

#[test]
fn manifest_file_name() {
    assert!(is_manifest_file_name("conaninfo.txt"));
    assert!(!is_manifest_file_name("conanfile.txt"));
    assert!(!is_manifest_file_name("conaninfo.txt.bak"));
}

#[test]
fn usage_set_is_sorted_and_deduplicated() {
    let lists = vec![texts(&["p3", "p1", "p3"]), texts(&[]), texts(&["p2", "p1"])];
    assert_eq!(usage_set(&lists), vec!["p1", "p2", "p3"]);
}

#[test]
fn usage_set_orders_as_str() {
    let lists = vec![texts(&["b", "ab", "a", "B", "é", "z"])];
    assert_eq!(usage_set(&lists), vec!["B", "a", "ab", "b", "z", "é"]);
}

#[test]
fn usage_set_ignores_discovery_order() {
    let one = vec![texts(&["c", "a"]), texts(&["b", "a"])];
    let other = vec![texts(&["a", "b"]), texts(&["c"]), texts(&["a"])];
    assert_eq!(usage_set(&one), usage_set(&other));
    assert_eq!(usage_set(&one), vec!["a", "b", "c"]);
}

#[test]
fn scan_skips_manifest_without_section() {
    let manifests = texts(&[
        "[full_requires]\nzlib/1.2.11@conan/stable:p2\n",
        "[requires]\nzlib/1.2.11@conan/stable:p9\n",
        "[full_requires]\nboost/1.70.0@conan/stable:p1\nzlib/1.2.11@conan/stable:p2\n",
    ]);
    let scan = find_packages_in_use(&manifests);
    assert_eq!(scan.in_use, vec!["p1", "p2"]);
    assert_eq!(scan.skipped.len(), 1);
    assert_eq!(scan.skipped[0].0, 1);
    assert!(matches!(scan.skipped[0].1, ManifestError::MissingSection(_)));
}

#[test]
fn scan_skips_broken_manifest() {
    let manifests = texts(&["[full_requires\n", "[full_requires]\nx:p5\n"]);
    let scan = find_packages_in_use(&manifests);
    assert_eq!(scan.in_use, vec!["p5"]);
    assert_eq!(scan.skipped.len(), 1);
    assert_eq!(scan.skipped[0].0, 0);
    assert!(matches!(scan.skipped[0].1, ManifestError::Parse(_)));
}

#[test]
fn scan_of_nothing_is_empty() {
    let scan = find_packages_in_use(&Vec::new());
    assert!(scan.in_use.is_empty());
    assert!(scan.skipped.is_empty());
}
