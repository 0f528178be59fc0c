use project_scaffold::dependency::{
    add_features, has_feature, is_exact_pin, ConflictKind, DependencySpec,
};

fn spec(version: Option<&str>, features: &[&str]) -> DependencySpec {
    let mut d = DependencySpec::simple(String::new());
    d.version = version.map(|s| s.to_string());
    d.features = features.iter().map(|s| s.to_string()).collect();
    d
}

fn strings(items: &[&str]) -> Vec<String> {
    items.iter().map(|s| s.to_string()).collect()
}

#[test]
fn equal_constraints_combine() {
    let c = spec(Some("1.0"), &["a"]).combine_dependencies(&spec(Some("1.0"), &["b"])).unwrap();
    assert_eq!(c.version, Some("1.0".to_string()));
    assert_eq!(c.features, strings(&["a", "b"]));
    assert!(!c.optional);
    assert_eq!(c.path, None);
    assert_eq!(c.git, None);
}

#[test]
fn different_pins_conflict() {
    let r = spec(Some("=1.0.0"), &[]).combine_dependencies(&spec(Some("=1.0.1"), &[]));
    assert_eq!(r.unwrap_err(), ConflictKind::Version);
    let r = spec(Some("=0.0.0"), &[]).combine_dependencies(&spec(Some("=10.20.30"), &[]));
    assert_eq!(r.unwrap_err(), ConflictKind::Version);
    let c = spec(Some("=1.0.0"), &[]).combine_dependencies(&spec(Some("=1.0.0"), &[])).unwrap();
    assert_eq!(c.version, Some("=1.0.0".to_string()));
}

#[test]
fn different_constraints_ask_for_both() {
    let c = spec(Some(">=1.0"), &["a"]).combine_dependencies(&spec(Some(">=1.2"), &["b"])).unwrap();
    assert_eq!(c.version, Some(">=1.0, >=1.2".to_string()));
    assert_eq!(c.features, strings(&["a", "b"]));
    let c = spec(Some("1.0"), &[]).combine_dependencies(&spec(Some("2.0"), &[])).unwrap();
    assert_eq!(c.version, Some("1.0, 2.0".to_string()));
    let c = spec(Some("=1.0"), &[]).combine_dependencies(&spec(Some("=1.0.0"), &[])).unwrap();
    assert_eq!(c.version, Some("=1.0, =1.0.0".to_string()));
    let c = spec(Some("=1.0.0"), &[]).combine_dependencies(&spec(Some("^1"), &[])).unwrap();
    assert_eq!(c.version, Some("=1.0.0, ^1".to_string()));
}

#[test]
fn pins_are_told_apart() {
    assert!(is_exact_pin("=1.2.3"));
    assert!(is_exact_pin("=0.0.0"));
    assert!(is_exact_pin("=10.200.3000"));
    assert!(!is_exact_pin("1.2.3"));
    assert!(!is_exact_pin("=1.2"));
    assert!(!is_exact_pin("=1"));
    assert!(!is_exact_pin("="));
    assert!(!is_exact_pin(""));
    assert!(!is_exact_pin("=1.2.3.4"));
    assert!(!is_exact_pin("=1.2.3-alpha"));
    assert!(!is_exact_pin("=1.2.3+build"));
    assert!(!is_exact_pin("= 1.2.3"));
    assert!(!is_exact_pin("=01.2.3"));
    assert!(!is_exact_pin("=1.02.3"));
    assert!(!is_exact_pin("=1.2.03"));
    assert!(!is_exact_pin("=1..3"));
    assert!(!is_exact_pin("=1.2."));
    assert!(!is_exact_pin("=.2.3"));
    assert!(!is_exact_pin("=1.2.x"));
    assert!(!is_exact_pin("=1.2.3 "));
    assert!(!is_exact_pin(">=1.2.3"));
}

#[test]
fn default_features_stay_on_where_either_side_has_them() {
    let mut off = spec(Some("1"), &[]);
    off.default_features = false;
    let on = spec(Some("1"), &[]);
    assert!(off.combine_dependencies(&on).unwrap().default_features);
    assert!(on.combine_dependencies(&off).unwrap().default_features);
    assert!(!off.combine_dependencies(&off.duplicate()).unwrap().default_features);
}

#[test]
fn missing_constraint_yields_to_the_other() {
    let c = spec(None, &[]).combine_dependencies(&spec(Some("2.0"), &[])).unwrap();
    assert_eq!(c.version, Some("2.0".to_string()));
    let c = spec(Some("3"), &[]).combine_dependencies(&spec(None, &[])).unwrap();
    assert_eq!(c.version, Some("3".to_string()));
    let c = spec(None, &[]).combine_dependencies(&spec(None, &[])).unwrap();
    assert_eq!(c.version, None);
}

#[test]
fn wildcard_yields_to_the_other() {
    let c = spec(Some("*"), &[]).combine_dependencies(&spec(Some("2.0"), &[])).unwrap();
    assert_eq!(c.version, Some("2.0".to_string()));
    let c = spec(Some("0.4"), &[]).combine_dependencies(&spec(Some("*"), &[])).unwrap();
    assert_eq!(c.version, Some("0.4".to_string()));
    let c = spec(Some("*"), &[]).combine_dependencies(&spec(None, &[])).unwrap();
    assert_eq!(c.version, None);
    let c = spec(None, &[]).combine_dependencies(&spec(Some("*"), &[])).unwrap();
    assert_eq!(c.version, Some("*".to_string()));
    assert!(spec(Some("*"), &[]).is_unconstrained());
    assert!(spec(None, &[]).is_unconstrained());
    assert!(!spec(Some("**"), &[]).is_unconstrained());
    assert!(!spec(Some(""), &[]).is_unconstrained());
}

#[test]
fn features_are_united_in_order_and_once() {
    let a = spec(Some("1"), &["b", "a", "b"]);
    let b = spec(Some("1"), &["c", "a", "d", "c"]);
    let c = a.combine_dependencies(&b).unwrap();
    assert_eq!(c.features, strings(&["b", "a", "c", "d"]));
}

#[test]
fn disagreement_on_optional_conflicts() {
    let a = spec(Some("1"), &[]);
    let mut b = spec(Some("1"), &[]);
    b.optional = true;
    assert_eq!(a.combine_dependencies(&b).unwrap_err(), ConflictKind::Optional);
    assert_eq!(b.combine_dependencies(&a).unwrap_err(), ConflictKind::Optional);
    let c = b.combine_dependencies(&b.duplicate()).unwrap();
    assert!(c.optional);
}

#[test]
fn disagreement_on_source_conflicts() {
    let a = spec(Some("1"), &[]);
    let mut b = spec(Some("1"), &[]);
    b.path = Some("../b".to_string());
    assert_eq!(a.combine_dependencies(&b).unwrap_err(), ConflictKind::Source);
    let mut c = spec(Some("1"), &[]);
    c.path = Some("../c".to_string());
    assert_eq!(b.combine_dependencies(&c).unwrap_err(), ConflictKind::Source);
    let mut d = spec(Some("1"), &[]);
    d.git = Some("https://example.org/d.git".to_string());
    assert_eq!(a.combine_dependencies(&d).unwrap_err(), ConflictKind::Source);
    let e = d.combine_dependencies(&d.duplicate()).unwrap();
    assert_eq!(e.git, Some("https://example.org/d.git".to_string()));
    let f = b.combine_dependencies(&b.duplicate()).unwrap();
    assert_eq!(f.path, Some("../b".to_string()));
}

#[test]
fn every_part_of_the_source_counts() {
    let a = spec(Some("1"), &[]);
    let mut changed: Vec<DependencySpec> = Vec::new();
    for i in 0..9 {
        let mut d = spec(Some("1"), &[]);
        let v = Some("x".to_string());
        match i {
            0 => d.workspace = true,
            1 => d.registry = v,
            2 => d.registry_index = v,
            3 => d.path = v,
            4 => d.git = v,
            5 => d.branch = v,
            6 => d.tag = v,
            7 => d.rev = v,
            _ => d.package = v,
        }
        changed.push(d);
    }
    for d in &changed {
        assert!(!a.has_source_of(d));
        assert!(d.has_source_of(&d.duplicate()));
        assert_eq!(a.combine_dependencies(d).unwrap_err(), ConflictKind::Source);
        let c = d.combine_dependencies(&d.duplicate()).unwrap();
        assert!(c.has_source_of(d));
    }
    assert!(a.has_source_of(&a.duplicate()));
}

#[test]
fn version_conflict_is_reported_before_the_others() {
    let a = spec(Some("=1.0.0"), &[]);
    let mut b = spec(Some("=2.0.0"), &[]);
    b.optional = true;
    b.path = Some("../b".to_string());
    assert_eq!(a.combine_dependencies(&b).unwrap_err(), ConflictKind::Version);
    let mut c = spec(Some("=1.0.0"), &[]);
    c.optional = true;
    c.path = Some("../b".to_string());
    assert_eq!(a.combine_dependencies(&c).unwrap_err(), ConflictKind::Optional);
}

#[test]
fn simple_declares_a_version_alone() {
    let s = DependencySpec::simple("1.2.3".to_string());
    assert_eq!(s.version, Some("1.2.3".to_string()));
    assert!(s.features.is_empty());
    assert!(!s.optional);
    assert!(s.default_features);
    assert!(!s.workspace);
    assert_eq!(s.registry, None);
    assert_eq!(s.registry_index, None);
    assert_eq!(s.path, None);
    assert_eq!(s.git, None);
    assert_eq!(s.branch, None);
    assert_eq!(s.tag, None);
    assert_eq!(s.rev, None);
    assert_eq!(s.package, None);
}

#[test]
fn duplicate_keeps_every_field() {
    let mut a = spec(Some("1"), &["x", "y"]);
    a.optional = true;
    a.path = Some("p".to_string());
    a.git = Some("g".to_string());
    a.default_features = false;
    a.workspace = true;
    a.registry = Some("r".to_string());
    a.registry_index = Some("i".to_string());
    a.branch = Some("b".to_string());
    a.tag = Some("t".to_string());
    a.rev = Some("v".to_string());
    a.package = Some("k".to_string());
    let b = a.duplicate();
    assert_eq!(b.default_features, a.default_features);
    assert_eq!(b.workspace, a.workspace);
    assert_eq!(b.registry, a.registry);
    assert_eq!(b.registry_index, a.registry_index);
    assert_eq!(b.branch, a.branch);
    assert_eq!(b.tag, a.tag);
    assert_eq!(b.rev, a.rev);
    assert_eq!(b.package, a.package);
    assert_eq!(b.version, a.version);
    assert_eq!(b.features, a.features);
    assert_eq!(b.optional, a.optional);
    assert_eq!(b.path, a.path);
    assert_eq!(b.git, a.git);
}

#[test]
fn feature_helpers() {
    let list = strings(&["a", "b"]);
    assert!(has_feature(&list, "a"));
    assert!(has_feature(&list, "b"));
    assert!(!has_feature(&list, "c"));
    assert!(!has_feature(&Vec::new(), "a"));
    let mut acc = strings(&["a"]);
    add_features(&mut acc, &strings(&["b", "a", "c", "b"]));
    assert_eq!(acc, strings(&["a", "b", "c"]));
}
