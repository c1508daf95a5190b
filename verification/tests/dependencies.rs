use cargo_initializr::cargo_toml_parser_extensions::{
    get_latest_version, Combine, Dependency, DependencyDetail, DependencyError, MyToString,
};
use cargo_initializr::deps_set::DepsSet;
use cargo_initializr::project_generation_service::proceed_starters;

fn detail(version: Option<&str>, features: &[&str]) -> DependencyDetail {
    DependencyDetail {
        version: version.map(|v| v.to_string()),
        registry: None,
        registry_index: None,
        path: None,
        git: None,
        branch: None,
        tag: None,
        rev: None,
        features: features.iter().map(|f| f.to_string()).collect(),
        optional: false,
        default_features: true,
        package: None,
    }
}

#[test]
fn latest_version_picks_the_later() {
    assert_eq!(get_latest_version("1.2.3", "1.2.4").unwrap(), "1.2.4");
    assert_eq!(get_latest_version("2.0.0", "1.9.9").unwrap(), "2.0.0");
    assert_eq!(get_latest_version("1.0", "1.0").unwrap(), "1.0");
}

#[test]
fn combining_simple_versions() {
    let a = Dependency::Simple("1.0.0".to_string());
    let b = Dependency::Simple("1.5.0".to_string());
    match a.combine_dependencies(&b).unwrap() {
        Dependency::Simple(v) => assert_eq!(v, "1.5.0"),
        other => panic!("{other:?}"),
    }
}

#[test]
fn combining_simple_with_table_keeps_the_table() {
    let a = Dependency::Simple("1.2.0".to_string());
    let b = Dependency::Detailed(detail(Some("1.1.0"), &["derive"]));
    match a.combine_dependencies(&b).unwrap() {
        Dependency::Detailed(d) => {
            assert_eq!(d.version.as_deref(), Some("1.2.0"));
            assert_eq!(d.features, vec!["derive".to_string()]);
        },
        other => panic!("{other:?}"),
    }
}

#[test]
fn combining_table_with_simple_gives_simple() {
    let a = Dependency::Detailed(detail(Some("1.1.0"), &["derive"]));
    let b = Dependency::Simple("1.0.0".to_string());
    match a.combine_dependencies(&b).unwrap() {
        Dependency::Simple(v) => assert_eq!(v, "1.1.0"),
        other => panic!("{other:?}"),
    }
}

#[test]
fn combining_tables_unites_features() {
    let a = Dependency::Detailed(detail(Some("1.0.0"), &["full", "rt"]));
    let b = Dependency::Detailed(detail(Some("1.3.0"), &["rt", "macros"]));
    match a.combine_dependencies(&b).unwrap() {
        Dependency::Detailed(d) => {
            assert_eq!(d.version.as_deref(), Some("1.3.0"));
            assert_eq!(d.features, vec!["full".to_string(), "rt".to_string(), "macros".to_string()]);
        },
        other => panic!("{other:?}"),
    }
}

#[test]
fn table_without_version_cannot_be_combined() {
    let a = Dependency::Simple("1.0.0".to_string());
    let b = Dependency::Detailed(detail(None, &[]));
    let e = a.combine_dependencies(&b).unwrap_err();
    assert!(matches!(e, DependencyError::MissingVersionInStarter));
    assert_eq!(e.to_string(), "Missing version in starter");
}

#[test]
fn error_messages() {
    let e = DependencyError::VersionComparatorError("a".to_string(), "b".to_string());
    assert_eq!(e.to_string(), "Could not compare version: \"a\" and \"b\"");
    let e = DependencyError::CouldNotParseDependencies("x".to_string());
    assert_eq!(e.to_string(), "Could not parse \"x\"");
}

#[test]
fn writing_a_simple_dependency() {
    let name = "serde".to_string();
    let dep = Dependency::Simple("1.0".to_string());
    assert_eq!((&name, &dep).to_string().unwrap(), "serde = \"1.0\"");
}

#[test]
fn writing_a_detailed_dependency() {
    let d = detail(Some("1.0"), &["derive"]);
    let text = d.to_string().unwrap();
    assert!(text.starts_with("{ ") && text.ends_with(" }"), "{text}");
    assert!(text.contains("version = \"1.0\""), "{text}");
    assert!(text.contains("features = [\"derive\"]"), "{text}");
    assert!(!text.contains('\n'));
    let name = "serde".to_string();
    let line = (&name, &Dependency::Detailed(d)).to_string().unwrap();
    assert_eq!(line, format!("serde = {text}"));
}

#[test]
fn deps_set_keeps_names_ascending() {
    let mut s = DepsSet::new();
    s.insert("tokio".to_string(), Dependency::Simple("1".to_string()));
    s.insert("anyhow".to_string(), Dependency::Simple("1".to_string()));
    s.insert("serde".to_string(), Dependency::Simple("1".to_string()));
    s.insert("anyhow".to_string(), Dependency::Simple("2".to_string()));
    assert_eq!(s.len(), 3);
    assert_eq!(s.names(), vec!["anyhow".to_string(), "serde".to_string(), "tokio".to_string()]);
    match s.get(&"anyhow".to_string()) {
        Some(Dependency::Simple(v)) => assert_eq!(v, "2"),
        other => panic!("{other:?}"),
    }
    assert!(!s.contains_key(&"rand".to_string()));
}

#[test]
fn merging_two_starters() {
    let mut a = DepsSet::new();
    a.insert("serde".to_string(), Dependency::Simple("1.0.100".to_string()));
    a.insert("tokio".to_string(), Dependency::Simple("1.20.0".to_string()));
    let mut b = DepsSet::new();
    b.insert("serde".to_string(), Dependency::Simple("1.0.150".to_string()));
    b.insert("anyhow".to_string(), Dependency::Simple("1.0.0".to_string()));
    let m = proceed_starters(a, b).unwrap();
    assert_eq!(m.names(), vec!["anyhow".to_string(), "serde".to_string(), "tokio".to_string()]);
    match m.get(&"serde".to_string()) {
        Some(Dependency::Simple(v)) => assert_eq!(v, "1.0.150"),
        other => panic!("{other:?}"),
    }
}

#[test]
fn merging_with_an_empty_set_changes_nothing() {
    let mut a = DepsSet::new();
    a.insert("serde".to_string(), Dependency::Simple("1.0".to_string()));
    let m = proceed_starters(a, DepsSet::new()).unwrap();
    assert_eq!(m.names(), vec!["serde".to_string()]);
}

#[test]
fn merging_fails_on_a_table_without_version() {
    let mut a = DepsSet::new();
    a.insert("serde".to_string(), Dependency::Simple("1.0".to_string()));
    let mut b = DepsSet::new();
    b.insert("serde".to_string(), Dependency::Detailed(detail(None, &[])));
    let e = proceed_starters(a, b).unwrap_err();
    assert_eq!(format!("{e:?}"), "DependencySection(\"Missing version in starter\")");
}
