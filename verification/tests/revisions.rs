use cargo_initializr::cargo_toml_parser_extensions::{Combine, Dependency, DependencyDetail};
use cargo_initializr::deps_set::DepsSet;
use cargo_initializr::generator::{ProjectGenerator, ProjectGeneratingError};
use cargo_initializr::project_description::ProjectDescriptionDto;
use cargo_initializr::project_generation_service::{
    cargo_toml_text, generate_dependency_section, proceed_starters, ProjectGeneratingServiceError,
};
use cargo_initializr::starter::StarterDto;
use cargo_initializr::stores::{on_mount, IntegrationMode, MountAction, StartersState};

const WS: &str = "[package]\nname = \"ws\"\nversion = \"0.1.0\"\n\n[dependencies]\nserde = { workspace = true }\nrand = \"0.8\"\n";
const BAD: &str = "[package]\nname = \"bad\"\nversion = \"0.1.0\"\n\n[dependencies]\nrand = { git = \"x\" }\n";

fn no_version() -> DependencyDetail {
    DependencyDetail {
        version: None,
        registry: None,
        registry_index: None,
        path: None,
        git: Some("x".to_string()),
        branch: None,
        tag: None,
        rev: None,
        features: vec![],
        optional: false,
        default_features: true,
        package: None,
    }
}

fn dto(name: &str) -> StarterDto {
    StarterDto::new(name.to_string(), vec![], String::new())
}

#[test]
fn workspace_dependency_on_one_side_is_copied() {
    let mut a = DepsSet::new();
    a.insert("serde".to_string(), Dependency::Inherited);
    let mut b = DepsSet::new();
    b.insert("rand".to_string(), Dependency::Simple("0.8".to_string()));
    let m = proceed_starters(a, b).unwrap();
    assert_eq!(m.names(), vec!["rand".to_string(), "serde".to_string()]);
    assert!(m.get(&"serde".to_string()).unwrap().is_inherited());
}

#[test]
fn empty_set_is_an_identity_even_with_workspace_dependencies() {
    let mut a = DepsSet::new();
    a.insert("serde".to_string(), Dependency::Inherited);
    let m = proceed_starters(DepsSet::new(), a.duplicate()).unwrap();
    assert_eq!(m.names(), vec!["serde".to_string()]);
    let m = proceed_starters(a, DepsSet::new()).unwrap();
    assert_eq!(m.names(), vec!["serde".to_string()]);
}

#[test]
fn conflict_is_reported_beside_an_unshared_workspace_dependency() {
    let mut a = DepsSet::new();
    a.insert("serde".to_string(), Dependency::Inherited);
    a.insert("rand".to_string(), Dependency::Simple("0.8".to_string()));
    let mut b = DepsSet::new();
    b.insert("rand".to_string(), Dependency::Detailed(no_version()));
    match ProjectGenerator::proceed_starters(a, b) {
        Err(ProjectGeneratingError::Section(name, _)) => assert_eq!(name, "rand"),
        other => panic!("{other:?}"),
    }
}

#[test]
fn section_reports_the_conflict_before_writing() {
    let mut d = ProjectDescriptionDto::default();
    d.starters = vec!["ws".to_string(), "bad".to_string()];
    let contents = vec![Some(WS.to_string()), Some(BAD.to_string())];
    assert!(matches!(
        generate_dependency_section(&d, &contents),
        Some(Err(ProjectGeneratingServiceError::DependencySection(_)))
    ));
}

#[test]
fn manifest_is_empty_without_starters() {
    let d = ProjectDescriptionDto::default();
    assert_eq!(cargo_toml_text(&d, "label", &vec![]).unwrap().unwrap(), "");
}

#[test]
fn opening_the_page() {
    let empty = StartersState::empty();
    assert_eq!(on_mount(&empty, IntegrationMode::Test), MountAction::UseMockStarters);
    assert_eq!(on_mount(&empty, IntegrationMode::Production), MountAction::FetchStarters);
    let some = StartersState::offering(vec![dto("a")]);
    assert_eq!(on_mount(&some, IntegrationMode::Production), MountAction::Keep);
}

#[test]
fn offered_starters_are_kept_once() {
    let st = StartersState::offering(vec![dto("a"), dto("b"), dto("a")]);
    assert_eq!(st.all_starters.len(), 2);
    assert_eq!(st.unselected_starters.len(), 2);
}

#[test]
fn plain_versions_combine_in_either_order() {
    let a = Dependency::Simple("1.0".to_string());
    let b = Dependency::Simple("2.0".to_string());
    let x = a.combine_dependencies(&b).unwrap();
    let y = b.combine_dependencies(&a).unwrap();
    match (x, y) {
        (Dependency::Simple(p), Dependency::Simple(q)) => assert_eq!(p, q),
        other => panic!("{other:?}"),
    }
}
