use cargo_initializr::deps_set::DepsSet;
use cargo_initializr::cargo_toml_parser_extensions::{Dependency, DependencyDetail};
use cargo_initializr::generator::{ProjectGenerator, ProjectGeneratingError};
use cargo_initializr::handlers::Status;
use cargo_initializr::project_description::{ProjectDescriptionDto, TargetKind};
use cargo_initializr::standalone::{
    download, get_starters, read_starter_entry, starters, Reply, StarterDto, StarterServiceError,
    NOTHING_TO_OFFER_ERROR_MASSAGE,
};

const WEB: &str = "[package]\nname = \"web\"\nversion = \"0.1.0\"\n\n[dependencies]\nserde = \"1.0.100\"\n";
const DB: &str = "[package]\nname = \"db\"\nversion = \"0.1.0\"\n\n[dependencies]\nserde = \"1.0.150\"\nsqlx = \"0.7\"\n";

fn generator() -> ProjectGenerator {
    let mut d = ProjectDescriptionDto::default();
    d.package_description.name = "demo".to_string().into();
    d.target_kind = TargetKind::Lib;
    ProjectGenerator::new("/tmp", "77", d)
}

#[test]
fn catalogue_entry() {
    let e = StarterDto::new("a".to_string(), vec!["b".to_string()], "c".to_string());
    assert_eq!(e.name, "a");
    assert_eq!(e.creates, vec!["b".to_string()]);
    assert_eq!(e.common_description, "c");
    let w = read_starter_entry("c/web.toml", WEB, &None).unwrap();
    assert_eq!(w.name, "web");
    assert_eq!(w.creates, vec!["serde".to_string()]);
    assert_eq!(w.common_description, "Missing description");
    assert!(matches!(
        read_starter_entry("c/x.toml", "[workspace]\nmembers = []\n", &None),
        Err(StarterServiceError::MissingPackageSection(_))
    ));
    assert!(matches!(
        read_starter_entry("c/y.toml", "[dependencies]\n", &None),
        Err(StarterServiceError::InvalidStarterManifest(_))
    ));
}

#[test]
fn catalogue_and_replies() {
    let files = vec![
        ("web.toml".to_string(), Some(WEB.to_string()), None),
        ("bad.toml".to_string(), Some("[[[".to_string()), None),
    ];
    let v = get_starters(&files).unwrap();
    assert_eq!(v.len(), 1);
    match starters(Ok(v)) {
        Reply::Starters(list) => assert_eq!(list[0].name, "web"),
        other => panic!("{other:?}"),
    }
    let none = get_starters(&vec![]);
    match starters(none) {
        Reply::Failure { status, message } => {
            assert_eq!(status, Status::NotImplemented);
            assert_eq!(status.code(), 501);
            assert_eq!(message, NOTHING_TO_OFFER_ERROR_MASSAGE);
        },
        other => panic!("{other:?}"),
    }
    match starters(Err(StarterServiceError::MissingPackageSection("p".to_string()))) {
        Reply::Failure { status, .. } => assert_eq!(status.code(), 506),
        other => panic!("{other:?}"),
    }
    match download("demo", Err("boom".to_string())) {
        Reply::Failure { status, message } => {
            assert_eq!(status.code(), 500);
            assert_eq!(message, "boom");
        },
        other => panic!("{other:?}"),
    }
    match download("demo", Ok(vec![9])) {
        Reply::Archive { file_name, .. } => assert_eq!(file_name, "demo.zip"),
        other => panic!("{other:?}"),
    }
}

#[test]
fn generator_paths() {
    let g = generator();
    assert_eq!(g.get_hashed_dir(), "/tmp/77");
    assert_eq!(g.root_dir_path(), "/tmp/77/demo");
    assert_eq!(g.src_dir_path(), "/tmp/77/demo/src");
    assert_eq!(g.source_file_path(), "/tmp/77/demo/src/lib.rs");
    assert_eq!(g.cargo_file_path(), "/tmp/77/demo/Cargo.toml");
}

#[test]
fn generator_passes_over_unreadable_starters() {
    let g = generator();
    let contents = vec![None, Some("[[[".to_string()), Some(WEB.to_string()), Some(DB.to_string())];
    let section = g.generate_dependency_section(&contents).unwrap();
    assert_eq!(section, "serde = \"1.0.150\"\nsqlx = \"0.7\"\n");
    assert!(g.try_generate_dependency_section(&vec![None]).is_none());
    assert!(g.try_generate_dependency_section(&vec![]).is_none());
    let content = g.generate_cargo_toml_content("lbl", &contents).unwrap();
    assert!(content.starts_with("#lbl"));
    assert!(content.ends_with(&section));
}

#[test]
fn generator_names_the_conflicting_dependency() {
    let mut a = DepsSet::new();
    a.insert("serde".to_string(), Dependency::Simple("1.0".to_string()));
    let mut b = DepsSet::new();
    b.insert("serde".to_string(), Dependency::Detailed(DependencyDetail {
        version: None,
        registry: None,
        registry_index: None,
        path: None,
        git: None,
        branch: None,
        tag: None,
        rev: None,
        features: vec![],
        optional: false,
        default_features: true,
        package: None,
    }));
    match ProjectGenerator::proceed_starters(a, b) {
        Err(ProjectGeneratingError::Section(name, why)) => {
            assert_eq!(name, "serde");
            assert_eq!(why, "Missing version in starter");
        },
        other => panic!("{other:?}"),
    }
}
