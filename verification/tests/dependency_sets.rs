use project_scaffold::dependency::{ConflictKind, DependencySpec};
use project_scaffold::dependency_set::DependencySet;
use project_scaffold::error::ProjectGeneratingServiceError;
use project_scaffold::merge::{merge_starters, proceed_starters};
use project_scaffold::starter::{collect_declarations, spec_of, starter_dependencies, Declaration};
use project_scaffold::text::{
    chars_of, escape, glue, is_bare_key, is_block_text, is_plain_text, is_quote_block_text,
    is_writable, join, opt_text_eq, precedes, text_eq,
};

fn simple(version: &str) -> DependencySpec {
    DependencySpec::simple(version.to_string())
}

fn set(entries: &[(&str, &str)]) -> DependencySet {
    let mut s = DependencySet::new();
    for (name, version) in entries {
        s.insert(name.to_string(), simple(version));
    }
    s
}

fn names(s: &DependencySet) -> Vec<String> {
    (0..s.len()).map(|i| s.entry(i).name.clone()).collect()
}

#[test]
fn names_are_ordered_by_code_point() {
    assert!(precedes("a", "b"));
    assert!(!precedes("b", "a"));
    assert!(!precedes("a", "a"));
    assert!(precedes("", "a"));
    assert!(!precedes("a", ""));
    assert!(!precedes("", ""));
    assert!(precedes("ab", "abc"));
    assert!(!precedes("abc", "ab"));
    assert!(precedes("Z", "a"));
    assert!(precedes("a-b", "a_b"));
    assert!(precedes("z", "\u{e9}"));
    assert!(precedes("\u{e9}", "\u{1f600}"));
    assert_eq!(precedes("serde", "serde_json"), "serde" < "serde_json");
}

#[test]
fn text_helpers() {
    assert_eq!(chars_of("h\u{e9}"), vec!['h', '\u{e9}']);
    assert!(chars_of("").is_empty());
    assert!(text_eq("abc", "abc"));
    assert!(!text_eq("abc", "abd"));
    assert!(!text_eq("abc", "ab"));
    assert!(text_eq("", ""));
    assert!(opt_text_eq(&None, &None));
    assert!(opt_text_eq(&Some("a".to_string()), &Some("a".to_string())));
    assert!(!opt_text_eq(&Some("a".to_string()), &None));
    assert!(!opt_text_eq(&None, &Some("a".to_string())));
    assert!(!opt_text_eq(&Some("a".to_string()), &Some("b".to_string())));
    assert_eq!(glue("a", "-", "b"), "a-b");
    assert_eq!(glue("", "", ""), "");
    assert_eq!(join(&Vec::new(), ", "), "");
    assert_eq!(join(&vec!["a".to_string()], ", "), "a");
    assert_eq!(join(&vec!["a".to_string(), "b".to_string(), "c".to_string()], ", "), "a, b, c");
}

#[test]
fn plain_texts_and_bare_keys() {
    assert!(is_plain_text(""));
    assert!(is_plain_text("1.0 <ann@example.org> 'x' \u{e9}"));
    assert!(!is_plain_text("a\"b"));
    assert!(!is_plain_text("a\\b"));
    assert!(!is_plain_text("a\nb"));
    assert!(!is_plain_text("a\tb"));
    assert!(!is_plain_text("\u{1f}"));
    assert!(is_plain_text(" "));
    assert!(is_bare_key("serde_json-2"));
    assert!(is_bare_key("A"));
    assert!(!is_bare_key(""));
    assert!(!is_bare_key("a.b"));
    assert!(!is_bare_key("a b"));
    assert!(!is_bare_key("caf\u{e9}"));
    assert!(!is_bare_key("a/b"));
    assert!(!is_bare_key("a:b"));
    assert!(!is_bare_key("a@b"));
    assert!(!is_bare_key("a[b"));
    assert!(!is_bare_key("a`b"));
    assert!(!is_bare_key("a{b"));
}

#[test]
fn insert_keeps_the_order_of_names() {
    let s = set(&[("tokio", "1"), ("anyhow", "1"), ("serde", "1"), ("log", "0.4")]);
    assert_eq!(names(&s), vec!["anyhow", "log", "serde", "tokio"]);
    assert_eq!(s.len(), 4);
    assert!(!s.is_empty());
    assert!(DependencySet::new().is_empty());
    assert_eq!(DependencySet::new().len(), 0);
}

#[test]
fn insert_replaces_what_was_declared() {
    let mut s = set(&[("b", "1"), ("a", "1"), ("c", "1")]);
    s.insert("b".to_string(), simple("2"));
    assert_eq!(names(&s), vec!["a", "b", "c"]);
    assert_eq!(s.get("b").unwrap().version, Some("2".to_string()));
    assert_eq!(s.get("a").unwrap().version, Some("1".to_string()));
    assert_eq!(s.get("c").unwrap().version, Some("1".to_string()));
}

#[test]
fn get_and_contains() {
    let s = set(&[("b", "1"), ("d", "2")]);
    assert!(s.contains("b"));
    assert!(s.contains("d"));
    assert!(!s.contains("a"));
    assert!(!s.contains("c"));
    assert!(!s.contains("e"));
    assert!(!s.contains(""));
    assert!(s.get("c").is_none());
    assert_eq!(s.get("d").unwrap().version, Some("2".to_string()));
    assert!(DependencySet::new().get("b").is_none());
}

#[test]
fn merge_of_overlapping_sets() {
    let a = set(&[("a", "1"), ("c", "1"), ("e", "1")]);
    let b = set(&[("b", "2"), ("c", "1"), ("d", "2"), ("f", "2")]);
    let m = proceed_starters(&a, &b).unwrap();
    assert_eq!(names(&m), vec!["a", "b", "c", "d", "e", "f"]);
    assert_eq!(m.get("a").unwrap().version, Some("1".to_string()));
    assert_eq!(m.get("b").unwrap().version, Some("2".to_string()));
    assert_eq!(m.get("c").unwrap().version, Some("1".to_string()));
    assert_eq!(m.get("e").unwrap().version, Some("1".to_string()));
    assert_eq!(m.get("f").unwrap().version, Some("2".to_string()));
}

#[test]
fn merge_with_the_empty_set() {
    let a = set(&[("a", "1"), ("b", "1")]);
    let m = proceed_starters(&a, &DependencySet::new()).unwrap();
    assert_eq!(names(&m), vec!["a", "b"]);
    let m = proceed_starters(&DependencySet::new(), &a).unwrap();
    assert_eq!(names(&m), vec!["a", "b"]);
    let m = proceed_starters(&DependencySet::new(), &DependencySet::new()).unwrap();
    assert!(m.is_empty());
}

#[test]
fn version_conflict_names_the_dependency() {
    let a = set(&[("a", "1"), ("n", "=1.0.0")]);
    let b = set(&[("n", "=2.0.0"), ("z", "1")]);
    match proceed_starters(&a, &b) {
        Err(ProjectGeneratingServiceError::DependencyConflict(c)) => {
            assert_eq!(c.name, "n");
            assert_eq!(c.kind, ConflictKind::Version);
            assert_eq!(c.left, Some("=1.0.0".to_string()));
            assert_eq!(c.right, Some("=2.0.0".to_string()));
        }
        other => panic!("expected a conflict, got {:?}", other),
    }
}

#[test]
fn constraints_that_may_both_hold_are_merged() {
    let a = set(&[("n", ">=1.0")]);
    let b = set(&[("n", ">=1.2")]);
    let m = proceed_starters(&a, &b).unwrap();
    assert_eq!(m.get("n").unwrap().version, Some(">=1.0, >=1.2".to_string()));
}

#[test]
fn first_conflict_in_the_order_of_names_is_reported() {
    let a = set(&[("m", "1"), ("k", "=1.0.0"), ("x", "=1.0.0")]);
    let b = set(&[("x", "=2.0.0"), ("k", "=3.0.0"), ("m", "1")]);
    match proceed_starters(&a, &b) {
        Err(ProjectGeneratingServiceError::DependencyConflict(c)) => {
            assert_eq!(c.name, "k");
            assert_eq!(c.right, Some("=3.0.0".to_string()));
        }
        other => panic!("expected a conflict, got {:?}", other),
    }
}

#[test]
fn merge_of_no_set_is_empty() {
    assert!(merge_starters(&Vec::new()).unwrap().is_empty());
}

#[test]
fn merge_of_one_set_is_that_set() {
    let m = merge_starters(&vec![set(&[("b", "1"), ("a", "2")])]).unwrap();
    assert_eq!(names(&m), vec!["a", "b"]);
    assert_eq!(m.get("a").unwrap().version, Some("2".to_string()));
}

#[test]
fn merge_of_three_sets_goes_from_the_left() {
    let mut with_features = simple("1");
    with_features.features = vec!["x".to_string()];
    let mut more_features = simple("1");
    more_features.features = vec!["y".to_string(), "x".to_string()];
    let mut s2 = DependencySet::new();
    s2.insert("a".to_string(), with_features);
    let mut s3 = DependencySet::new();
    s3.insert("a".to_string(), more_features);
    s3.insert("b".to_string(), simple("3"));
    let m = merge_starters(&vec![set(&[("a", "1")]), s2, s3]).unwrap();
    assert_eq!(names(&m), vec!["a", "b"]);
    assert_eq!(m.get("a").unwrap().features, vec!["x".to_string(), "y".to_string()]);
}

#[test]
fn conflict_with_what_was_merged_before() {
    let sets =
        vec![set(&[("a", "1")]), set(&[("b", "=1.0.0")]), set(&[("b", "=2.0.0"), ("a", "1")])];
    match merge_starters(&sets) {
        Err(ProjectGeneratingServiceError::DependencyConflict(c)) => {
            assert_eq!(c.name, "b");
            assert_eq!(c.left, Some("=1.0.0".to_string()));
            assert_eq!(c.right, Some("=2.0.0".to_string()));
        }
        other => panic!("expected a conflict, got {:?}", other),
    }
}

#[test]
fn later_declaration_counts_when_collecting() {
    let declared = vec![
        ("b".to_string(), Declaration::Simple("1".to_string())),
        ("a".to_string(), Declaration::Simple("1".to_string())),
        ("b".to_string(), Declaration::Simple("2".to_string())),
    ];
    let s = collect_declarations(&declared);
    assert_eq!(names(&s), vec!["a", "b"]);
    assert_eq!(s.get("b").unwrap().version, Some("2".to_string()));
}

#[test]
fn starter_text_is_read() {
    let text = "[package]\nname = \"s\"\nversion = \"0.1.0\"\n\n[dependencies]\nserde = { version = \"1\", features = [\"derive\"], optional = true, default-features = false }\nlocal = { path = \"../local\", package = \"real\" }\nremote = { git = \"https://example.org/r.git\", branch = \"b\", tag = \"t\", rev = \"v\" }\nplain = \"0.3\"\nshared = { workspace = true, features = [\"f\"], optional = true }\nother = { version = \"2\", registry = \"mine\", registry-index = \"https://example.org/index\" }\n";
    let s = starter_dependencies(text).unwrap();
    assert_eq!(names(&s), vec!["local", "other", "plain", "remote", "serde", "shared"]);
    assert!(!s.get("serde").unwrap().default_features);
    assert!(s.get("plain").unwrap().default_features);
    assert_eq!(s.get("local").unwrap().package, Some("real".to_string()));
    assert_eq!(s.get("remote").unwrap().branch, Some("b".to_string()));
    assert_eq!(s.get("remote").unwrap().tag, Some("t".to_string()));
    assert_eq!(s.get("remote").unwrap().rev, Some("v".to_string()));
    assert_eq!(s.get("other").unwrap().registry, Some("mine".to_string()));
    assert_eq!(
        s.get("other").unwrap().registry_index,
        Some("https://example.org/index".to_string())
    );
    let shared = s.get("shared").unwrap();
    assert!(shared.workspace);
    assert!(shared.optional);
    assert_eq!(shared.version, None);
    assert_eq!(shared.features, vec!["f".to_string()]);
    assert!(!s.get("serde").unwrap().workspace);
    let serde = s.get("serde").unwrap();
    assert_eq!(serde.version, Some("1".to_string()));
    assert_eq!(serde.features, vec!["derive".to_string()]);
    assert!(serde.optional);
    assert_eq!(serde.path, None);
    assert_eq!(serde.git, None);
    let local = s.get("local").unwrap();
    assert_eq!(local.version, None);
    assert_eq!(local.path, Some("../local".to_string()));
    let remote = s.get("remote").unwrap();
    assert_eq!(remote.git, Some("https://example.org/r.git".to_string()));
    assert_eq!(remote.version, None);
    let plain = s.get("plain").unwrap();
    assert_eq!(plain.version, Some("0.3".to_string()));
    assert!(plain.features.is_empty());
    assert!(!plain.optional);
}

#[test]
fn starter_without_dependencies_declares_nothing() {
    let s = starter_dependencies("[package]\nname = \"s\"\nversion = \"0.1.0\"\n").unwrap();
    assert!(s.is_empty());
}

#[test]
fn text_that_is_no_manifest_is_refused() {
    assert!(matches!(
        starter_dependencies("this is = not [ a manifest"),
        Err(ProjectGeneratingServiceError::CouldNotParseStarterManifest(_))
    ));
}

#[test]
fn each_form_of_declaration_is_taken_over() {
    let simple = spec_of(&Declaration::Simple("1".to_string()));
    assert_eq!(simple.version, Some("1".to_string()));
    assert!(simple.default_features);
    assert!(!simple.workspace);
    let inherited = spec_of(&Declaration::Inherited {
        features: vec!["f".to_string()],
        optional: true,
        workspace: true,
    });
    assert_eq!(inherited.version, None);
    assert_eq!(inherited.features, vec!["f".to_string()]);
    assert!(inherited.optional);
    assert!(inherited.workspace);
    assert!(inherited.default_features);
    let detailed = spec_of(&Declaration::Detailed {
        version: Some("2".to_string()),
        registry: Some("r".to_string()),
        registry_index: Some("i".to_string()),
        path: Some("p".to_string()),
        git: Some("g".to_string()),
        branch: Some("b".to_string()),
        tag: Some("t".to_string()),
        rev: Some("v".to_string()),
        features: vec!["x".to_string(), "y".to_string()],
        optional: true,
        default_features: false,
        package: Some("k".to_string()),
    });
    assert_eq!(detailed.version, Some("2".to_string()));
    assert_eq!(detailed.registry, Some("r".to_string()));
    assert_eq!(detailed.registry_index, Some("i".to_string()));
    assert_eq!(detailed.path, Some("p".to_string()));
    assert_eq!(detailed.git, Some("g".to_string()));
    assert_eq!(detailed.branch, Some("b".to_string()));
    assert_eq!(detailed.tag, Some("t".to_string()));
    assert_eq!(detailed.rev, Some("v".to_string()));
    assert_eq!(detailed.package, Some("k".to_string()));
    assert_eq!(detailed.features, vec!["x".to_string(), "y".to_string()]);
    assert!(detailed.optional);
    assert!(!detailed.default_features);
    assert!(!detailed.workspace);
}

#[test]
fn block_texts_and_writable_texts() {
    assert!(is_block_text(""));
    assert!(is_block_text("say \"hi\" to C:\\dev"));
    assert!(is_block_text("two\nlines\tand a tab"));
    assert!(is_block_text("it's fine, isn''t it"));
    assert!(!is_block_text("ends with '"));
    assert!(!is_block_text("three ''' in a row"));
    assert!(!is_block_text("'''"));
    assert!(!is_block_text("return\rhere"));
    assert!(!is_block_text("bell\u{7}"));
    assert!(is_writable("ends with '"));
    assert!(is_writable("say \"hi\""));
    assert!(is_writable("back\\slash"));
    assert!(is_writable("line\nbreak"));
    assert!(is_writable("say \"hi\" and end with '"));
    assert!(is_writable("line\nbreak and '''"));
    assert!(is_quote_block_text("say \"hi\" and end with '"));
    assert!(!is_quote_block_text("ends with \""));
    assert!(!is_quote_block_text("three \"\"\" in a row"));
    assert!(!is_quote_block_text("back\\slash"));
    assert!(!is_quote_block_text("a\ttab"));
    assert!(is_quote_block_text("two\nlines"));
    assert!(!is_writable("C:\\dev is 'here'"));
    assert!(!is_writable("tab\tand '"));
    assert!(!is_writable("''' and \"\"\""));
    assert!(!is_writable("return\rhere"));
    assert!(!is_writable("ends with a return\r"));
    assert!(is_writable("two\r\nlines"));
    assert!(is_block_text("two\r\nlines\r\n"));
    assert!(is_quote_block_text("two\r\nlines"));
    assert!(!is_writable("\u{0}"));
}

#[test]
fn characters_are_escaped_between_double_quotes() {
    assert_eq!(escape(""), "");
    assert_eq!(escape("plain text 1.0 'x'"), "plain text 1.0 'x'");
    assert_eq!(escape("say \"hi\""), "say \\\"hi\\\"");
    assert_eq!(escape("C:\\dev\\x"), "C:\\\\dev\\\\x");
    assert_eq!(escape("a\nb\tc\rd"), "a\\nb\\tc\\rd");
    assert_eq!(escape("\u{0}\u{1}\u{1f}\u{7f}\u{b}"), "\\u0000\\u0001\\u001F\\u007F\\u000B");
    assert_eq!(escape("caf\u{e9} \u{1f600}"), "caf\u{e9} \u{1f600}");
}
