use declscan::locate::locate;
use declscan::manifest::ManifestValue;

fn text(s: &str) -> ManifestValue {
    ManifestValue::Text(s.to_string())
}

fn entry(k: &str, v: ManifestValue) -> (String, ManifestValue) {
    (k.to_string(), v)
}

fn paths(r: &[String]) -> Vec<&str> {
    r.iter().map(|s| s.as_str()).collect()
}

#[test]
fn default_library_path_without_lib_table() {
    let m = ManifestValue::Table(vec![]);
    let r = locate(&m, false, &vec![]);
    assert_eq!(r[0].as_str(), "src/lib.rs");
}

#[test]
fn default_library_path_when_lib_is_no_table() {
    let m = ManifestValue::Table(vec![entry("lib", ManifestValue::Integer(3))]);
    let r = locate(&m, false, &vec![]);
    assert_eq!(r[0].as_str(), "src/lib.rs");
}

#[test]
fn default_library_path_when_lib_lacks_path() {
    let m = ManifestValue::Table(vec![entry(
        "lib",
        ManifestValue::Table(vec![entry("name", text("mylib"))]),
    )]);
    let r = locate(&m, false, &vec![]);
    assert_eq!(r[0].as_str(), "src/lib.rs");
}

#[test]
fn declared_library_path_is_first_and_default_is_never_added() {
    let m = ManifestValue::Table(vec![entry(
        "lib",
        ManifestValue::Table(vec![entry("path", text("mylib/lib.rs"))]),
    )]);
    let r = locate(&m, false, &vec![]);
    assert_eq!(r[0].as_str(), "mylib/lib.rs");
    assert!(!r.iter().any(|p| p == "src/lib.rs"));
}

#[test]
fn default_bins_without_bin_entries() {
    let m = ManifestValue::Table(vec![]);
    let scan = vec![
        "src/bin".to_string(),
        "src/bin/a.rs".to_string(),
        "src/bin/README.md".to_string(),
        "src/bin/b.rs".to_string(),
    ];
    let r = locate(&m, true, &scan);
    assert_eq!(
        paths(&r),
        vec!["src/lib.rs", "src/main.rs", "src/bin/a.rs", "src/bin/b.rs"]
    );
}

#[test]
fn a_bare_dot_rs_name_has_no_extension_and_is_skipped() {
    let m = ManifestValue::Table(vec![]);
    let scan = vec![
        ".rs".to_string(),
        "src/bin/.rs".to_string(),
        "src/bin/ok.rs".to_string(),
    ];
    let r = locate(&m, true, &scan);
    assert_eq!(paths(&r), vec!["src/lib.rs", "src/main.rs", "src/bin/ok.rs"]);
}

#[test]
fn default_bins_without_bin_directory() {
    let m = ManifestValue::Table(vec![]);
    let scan = vec!["src/bin/a.rs".to_string()];
    let r = locate(&m, false, &scan);
    assert_eq!(paths(&r), vec!["src/lib.rs", "src/main.rs"]);
}

#[test]
fn declared_bins_are_used_verbatim_in_order() {
    let m = ManifestValue::Table(vec![entry(
        "bin",
        ManifestValue::Array(vec![
            ManifestValue::Table(vec![entry("path", text("tools/x.rs"))]),
            ManifestValue::Table(vec![entry("name", text("pathless"))]),
            ManifestValue::Table(vec![entry("path", text("tools/y.rs"))]),
        ]),
    )]);
    let scan = vec!["src/bin/stray.rs".to_string()];
    let r = locate(&m, true, &scan);
    assert_eq!(paths(&r), vec!["src/lib.rs", "tools/x.rs", "tools/y.rs"]);
}

#[test]
fn empty_bin_array_falls_back_to_defaults() {
    let m = ManifestValue::Table(vec![entry("bin", ManifestValue::Array(vec![]))]);
    let r = locate(&m, false, &vec![]);
    assert_eq!(paths(&r), vec!["src/lib.rs", "src/main.rs"]);
}

#[test]
fn non_array_bin_falls_back_to_defaults() {
    let m = ManifestValue::Table(vec![entry("bin", ManifestValue::Boolean(true))]);
    let r = locate(&m, false, &vec![]);
    assert_eq!(paths(&r), vec!["src/lib.rs", "src/main.rs"]);
}

#[test]
fn non_table_manifest_gets_both_defaults() {
    let m = ManifestValue::Integer(7);
    let r = locate(&m, false, &vec![]);
    assert_eq!(paths(&r), vec!["src/lib.rs", "src/main.rs"]);
}

#[test]
fn duplicate_declared_paths_are_kept() {
    let m = ManifestValue::Table(vec![entry(
        "bin",
        ManifestValue::Array(vec![
            ManifestValue::Table(vec![entry("path", text("a.rs"))]),
            ManifestValue::Table(vec![entry("path", text("a.rs"))]),
        ]),
    )]);
    let r = locate(&m, false, &vec![]);
    assert_eq!(paths(&r), vec!["src/lib.rs", "a.rs", "a.rs"]);
}
