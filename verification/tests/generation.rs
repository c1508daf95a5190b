use cargo_initializr::manifest::parse_manifest;
use cargo_initializr::project::{push_path, starter_content_path, zip_file_path, Project, ProjectError, ProjectFileTarget};
use cargo_initializr::project_description::{ProjectDescriptionDto, TargetKind};
use cargo_initializr::project_generation_service::{
    cargo_file_content, generate_dependency_section, generate_package_section, source_file_for,
    ProjectGeneratingServiceError, LIB, MAIN,
};

const WEB: &str = "[package]\nname = \"web\"\nversion = \"0.1.0\"\n\n[dependencies]\nserde = \"1.0.100\"\ntokio = { version = \"1.20\", features = [\"rt\"] }\n";
const DB: &str = "[package]\nname = \"db\"\nversion = \"0.1.0\"\n\n[dependencies]\nserde = \"1.0.150\"\nsqlx = \"0.7\"\n";
const WORKSPACE: &str = "[package]\nname = \"ws\"\nversion = \"0.1.0\"\n\n[dependencies]\nserde = { workspace = true }\n";

fn description(starters: &[&str]) -> ProjectDescriptionDto {
    let mut d = ProjectDescriptionDto::default();
    d.package_description.name = "demo".to_string().into();
    d.starters = starters.iter().map(|s| s.to_string()).collect();
    d
}

#[test]
fn manifests_parse() {
    let m = parse_manifest(WEB).unwrap();
    assert_eq!(m.package.unwrap().name, "web");
    let names: Vec<&str> = m.dependencies.iter().map(|(k, _)| k.as_str()).collect();
    assert!(names.contains(&"serde") && names.contains(&"tokio"));
    assert!(parse_manifest("this is [ not toml").is_err());
}

#[test]
fn source_files() {
    assert_eq!(source_file_for(&TargetKind::Bin), (ProjectFileTarget::Main, MAIN));
    assert_eq!(source_file_for(&TargetKind::Lib), (ProjectFileTarget::Lib, LIB));
    assert!(MAIN.starts_with("fn main()"));
}

#[test]
fn dependency_section_merges_and_sorts() {
    let d = description(&["web", "db"]);
    let contents = vec![Some(WEB.to_string()), Some(DB.to_string())];
    let section = generate_dependency_section(&d, &contents).unwrap().unwrap();
    let lines: Vec<&str> = section.lines().collect();
    assert_eq!(lines.len(), 3, "{section}");
    assert_eq!(lines[0], "serde = \"1.0.150\"");
    assert_eq!(lines[1], "sqlx = \"0.7\"");
    assert!(lines[2].starts_with("tokio = { "), "{section}");
    assert!(lines[2].contains("version = \"1.20\""), "{section}");
    assert!(section.ends_with('\n'));
}

#[test]
fn missing_starter_content_is_reported() {
    let d = description(&["web", "gone"]);
    let contents = vec![Some(WEB.to_string()), None];
    match generate_dependency_section(&d, &contents) {
        Some(Err(ProjectGeneratingServiceError::CouldNotGetStarterContent(name))) => assert_eq!(name, "gone"),
        other => panic!("{other:?}"),
    }
}

#[test]
fn unparsable_starter_is_reported() {
    let d = description(&["bad"]);
    let contents = vec![Some("not = [ toml".to_string())];
    assert!(matches!(
        generate_dependency_section(&d, &contents),
        Some(Err(ProjectGeneratingServiceError::CouldNotParseStarterManifest(_)))
    ));
}

#[test]
fn workspace_dependencies_cannot_be_written() {
    let d = description(&["ws"]);
    let contents = vec![Some(WORKSPACE.to_string())];
    assert!(generate_dependency_section(&d, &contents).is_none());
}

#[test]
fn package_section_uses_stand_ins() {
    let d = description(&[]);
    let p = generate_package_section(&d).unwrap();
    assert!(p.contains("demo"), "{p}");
    assert!(p.contains("0.1.0"), "{p}");
    assert!(p.contains("No description"), "{p}");
    assert!(p.contains("Unspecified Author"), "{p}");
}

#[test]
fn manifest_content_has_label_package_and_dependencies() {
    let d = description(&["db"]);
    let contents = vec![Some(DB.to_string())];
    let text = cargo_file_content(&d, "made here", &contents).unwrap().unwrap();
    assert!(text.starts_with("#made here"), "{text}");
    assert!(text.contains("name = \"demo\""), "{text}");
    assert!(text.ends_with("serde = \"1.0.150\"\nsqlx = \"0.7\"\n"), "{text}");
}

#[test]
fn paths_follow_path_push() {
    assert_eq!(push_path("/tmp", "abc"), "/tmp/abc");
    assert_eq!(push_path("/tmp/", "abc"), "/tmp/abc");
    assert_eq!(push_path("", "abc"), "abc");
    assert_eq!(push_path("/tmp", "/etc"), "/etc");
    assert_eq!(zip_file_path("/tmp/h", "demo"), "/tmp/h/demo.zip");
    assert_eq!(starter_content_path("./content", "web"), "./content/web.toml");
}

#[test]
fn project_layout() {
    let p = Project::new("/tmp", "42", "demo", &TargetKind::Bin);
    assert_eq!(p.get_hashed_dir_path(), "/tmp/42");
    assert_eq!(p.get_root_dir_path(), "/tmp/42/demo");
    assert_eq!(p.get_src_dir_path(), "/tmp/42/demo/src");
    assert_eq!(p.write_to_file(ProjectFileTarget::Main).unwrap(), "/tmp/42/demo/src/main.rs");
    assert_eq!(p.write_to_file(ProjectFileTarget::Cargo).unwrap(), "/tmp/42/demo/Cargo.toml");
    assert!(matches!(p.write_to_file(ProjectFileTarget::Lib), Err(ProjectError::NoSuchFile)));
    let l = Project::new("/tmp", "42", "demo", &TargetKind::Lib);
    assert_eq!(l.write_to_file(ProjectFileTarget::Lib).unwrap(), "/tmp/42/demo/src/lib.rs");
    assert!(matches!(l.write_to_file(ProjectFileTarget::Main), Err(ProjectError::NoSuchFile)));
}
