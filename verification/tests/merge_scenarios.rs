use project_scaffold::dependency::{ConflictKind, DependencySpec};
use project_scaffold::dependency_set::DependencySet;
use project_scaffold::error::ProjectGeneratingServiceError;
use project_scaffold::merge::{merge_starters, proceed_starters};
use project_scaffold::starter::starter_dependencies;

fn manifest(dependencies: &str) -> String {
    format!(
        "[package]\nname = \"starter\"\nversion = \"0.1.0\"\n\n[dependencies]\n{}",
        dependencies
    )
}

#[test]
fn shared_dependency_gets_the_features_of_both_sides() {
    let s1 = starter_dependencies(&manifest("foo = \"1.0\"\n")).unwrap();
    let s2 =
        starter_dependencies(&manifest("foo = { version = \"1.0\", features = [\"x\"] }\n")).unwrap();
    let merged = merge_starters(&vec![s1, s2]).unwrap();
    assert_eq!(merged.len(), 1);
    let foo = merged.get("foo").unwrap();
    assert_eq!(foo.version, Some("1.0".to_string()));
    assert_eq!(foo.features, vec!["x".to_string()]);
    assert!(!foo.optional);
}

#[test]
fn disagreement_on_optional_is_a_conflict() {
    let s1 = starter_dependencies(&manifest("bar = { version = \"1.0\", optional = false }\n"))
        .unwrap();
    let s2 = starter_dependencies(&manifest("bar = { version = \"1.0\", optional = true }\n"))
        .unwrap();
    match merge_starters(&vec![s1, s2]) {
        Err(ProjectGeneratingServiceError::DependencyConflict(c)) => {
            assert_eq!(c.name, "bar");
            assert_eq!(c.kind, ConflictKind::Optional);
            assert_eq!(c.left, Some("1.0".to_string()));
            assert_eq!(c.right, Some("1.0".to_string()));
        }
        other => panic!("expected a conflict, got {:?}", other),
    }
}

#[test]
fn disjoint_sets_are_united_unchanged() {
    let mut a = DependencySet::new();
    a.insert("serde".to_string(), DependencySpec::simple("1".to_string()));
    let mut b = DependencySet::new();
    b.insert("anyhow".to_string(), DependencySpec::simple("1.0.70".to_string()));
    let merged = proceed_starters(&a, &b).unwrap();
    assert_eq!(merged.len(), 2);
    assert_eq!(merged.entry(0).name, "anyhow");
    assert_eq!(merged.entry(1).name, "serde");
    assert_eq!(merged.get("serde").unwrap().version, Some("1".to_string()));
    assert_eq!(merged.get("anyhow").unwrap().version, Some("1.0.70".to_string()));
}
