use cargo_initializr::compressor::{zip_entry, CompressingError, ZipEntry};
use cargo_initializr::env::{check_env_vars, eq_ignore_ascii_case, parse_port, EnvVarError, EnvVars};
use cargo_initializr::handlers::{download, starters, Reply, Status, DAMAGED_FILES_ERROR_MASSAGE,
    GENERATION_FAILURE_ERROR_MASSAGE, UNKNOWN_ERROR_MASSAGE, CANNOT_FIND_FILES_ERROR_MASSAGE};
use cargo_initializr::project::ProjectError;
use cargo_initializr::project_generation_service::ProjectGeneratingServiceError;
use cargo_initializr::storage::{
    read_starter, read_starters_from_fs, InMemoryStorage, StarterFile, MapStorage, MapStorageError, StarterFileError,
    StarterService,
};

const WEB: &str = "[package]\nname = \"web\"\nversion = \"0.1.0\"\ndescription = \"Web things\"\n\n[dependencies]\ntokio = \"1\"\naxum = \"0.7\"\n";
const PLAIN: &str = "[package]\nname = \"plain\"\nversion = \"0.1.0\"\n\n[dependencies]\nrand = \"0.8\"\n";
const NO_PACKAGE: &str = "[workspace]\nmembers = []\n";

fn files() -> Vec<StarterFile> {
    vec![
        ("c/web.toml".to_string(), Some(WEB.to_string()), None),
        ("c/broken.toml".to_string(), Some("[[[".to_string()), None),
        ("c/unreadable.toml".to_string(), None, None),
        ("c/plain.toml".to_string(), Some(PLAIN.to_string()), None),
    ]
}

#[test]
fn reading_a_starter() {
    let s = read_starter("c/web.toml", WEB, &None).unwrap();
    assert_eq!(s.starter_dto.name, "web");
    assert_eq!(s.starter_dto.description, "Web things");
    assert_eq!(s.starter_dto.crates, vec!["axum".to_string(), "tokio".to_string()]);
    assert_eq!(s.raw_starter.0, WEB);
    let p = read_starter("c/plain.toml", PLAIN, &None).unwrap();
    assert_eq!(p.starter_dto.description, "Missing description");
}

#[test]
fn starter_errors() {
    match read_starter("c/x.toml", NO_PACKAGE, &None) {
        Err(StarterFileError::MissingPackageSection(p)) => assert_eq!(p, "c/x.toml"),
        other => panic!("{other:?}"),
    }
    match read_starter("c/y.toml", "[[[", &None) {
        Err(StarterFileError::InvalidStarterManifest(p)) => assert_eq!(p, "c/y.toml"),
        other => panic!("{other:?}"),
    }
    let ws = "[package]\nname = \"w\"\nversion = \"0.1.0\"\n\n[dependencies]\nserde = { workspace = true }\n";
    assert!(matches!(read_starter("c/w.toml", ws, &None), Err(StarterFileError::InvalidStarterManifest(_))));
}

#[test]
fn reading_the_folder_passes_over_bad_files() {
    let v = read_starters_from_fs(&files()).unwrap();
    let names: Vec<&str> = v.iter().map(|s| s.starter_dto.name.as_str()).collect();
    assert_eq!(names, vec!["web", "plain"]);
    let none = vec![("c/a.toml".to_string(), None, None)];
    assert!(matches!(read_starters_from_fs(&none), Err(StarterFileError::NoStartersProvided)));
}

#[test]
fn storage_finds_each_starter_by_name() {
    let storage = InMemoryStorage::new(&files()).unwrap();
    let all = storage.get_all_starters().unwrap();
    assert_eq!(all.len(), 2);
    for s in &all {
        let found = storage.get_starter_by_name(&s.starter_dto.name).unwrap();
        assert_eq!(found.starter_dto.name, s.starter_dto.name);
    }
    match storage.get_starter_by_name("nope") {
        Err(MapStorageError::KeyNotFound(k)) => assert_eq!(k, "nope"),
        other => panic!("{other:?}"),
    }
}

#[test]
fn later_starter_of_a_name_replaces_earlier() {
    let second = WEB.replace("Web things", "Newer");
    let f = vec![
        ("a.toml".to_string(), Some(WEB.to_string()), None),
        ("b.toml".to_string(), Some(second), None),
    ];
    let service = StarterService::in_memory(&f).unwrap();
    assert_eq!(service.get_starters().unwrap().len(), 1);
    assert_eq!(service.get_starter_by_name("web").unwrap().starter_dto.description, "Newer");
    assert!(matches!(
        StarterService::in_memory(&vec![]),
        Err(StarterFileError::NoStartersProvided)
    ));
}

#[test]
fn starter_list_reply() {
    let storage = InMemoryStorage::new(&files()).unwrap();
    match starters(storage.get_all_starters()) {
        Reply::Starters(v) => assert_eq!(v.len(), 2),
        other => panic!("{other:?}"),
    }
    match starters(Err(MapStorageError::Unknown("x".to_string()))) {
        Reply::Failure { status, message } => {
            assert_eq!(status, Status::InternalServerError);
            assert_eq!(status.code(), 500);
            assert_eq!(message, UNKNOWN_ERROR_MASSAGE);
        },
        other => panic!("{other:?}"),
    }
    match starters(Err(MapStorageError::KeyNotFound("x".to_string()))) {
        Reply::Failure { message, .. } => assert_eq!(message, CANNOT_FIND_FILES_ERROR_MASSAGE),
        other => panic!("{other:?}"),
    }
}

#[test]
fn download_reply() {
    match download("demo", Ok(vec![1, 2, 3])) {
        Reply::Archive { file_name, content } => {
            assert_eq!(file_name, "demo.zip");
            assert_eq!(content, vec![1, 2, 3]);
        },
        other => panic!("{other:?}"),
    }
    match download("demo", Err(ProjectGeneratingServiceError::CouldNotGetStarterContent("x".to_string()))) {
        Reply::Failure { status, message } => {
            assert_eq!(status.code(), 506);
            assert_eq!(message, DAMAGED_FILES_ERROR_MASSAGE);
        },
        other => panic!("{other:?}"),
    }
    match download("demo", Err(ProjectGeneratingServiceError::ProjectError(ProjectError::NoSuchFile))) {
        Reply::Failure { status, message } => {
            assert_eq!(status, Status::InternalServerError);
            assert_eq!(message, GENERATION_FAILURE_ERROR_MASSAGE);
        },
        other => panic!("{other:?}"),
    }
}

fn vars() -> EnvVars {
    EnvVars {
        temp: Some("/tmp".to_string()),
        content: Some("./content".to_string()),
        host: Some("127.0.0.1".to_string()),
        port: Some("8080".to_string()),
        log_level: Some("info".to_string()),
        label: Some("generated".to_string()),
        storage_mode: Some("fs".to_string()),
    }
}

#[test]
fn environment_checks() {
    assert_eq!(check_env_vars(&vars()), Ok(()));
    let mut v = vars();
    v.port = Some("70000".to_string());
    assert_eq!(check_env_vars(&v), Err(EnvVarError::InvalidPort));
    let mut v = vars();
    v.storage_mode = Some("Redis".to_string());
    assert_eq!(check_env_vars(&v), Ok(()));
    v.storage_mode = Some("disk".to_string());
    assert_eq!(check_env_vars(&v), Err(EnvVarError::InvalidStorageMode));
    let mut v = vars();
    v.temp = None;
    v.port = None;
    assert_eq!(check_env_vars(&v), Err(EnvVarError::MissingTemp));
    assert_eq!(EnvVarError::MissingTemp.message(), "Missing TEMP variable");
    let mut v = vars();
    v.label = None;
    assert_eq!(check_env_vars(&v), Err(EnvVarError::MissingLabel));
}

#[test]
fn ports() {
    assert_eq!(parse_port("8080"), Some(8080));
    assert_eq!(parse_port("+1"), Some(1));
    assert_eq!(parse_port("65535"), Some(65535));
    assert_eq!(parse_port("65536"), None);
    assert_eq!(parse_port(""), None);
    assert_eq!(parse_port("+"), None);
    assert_eq!(parse_port("-1"), None);
    assert_eq!(parse_port("80a"), None);
    assert_eq!(parse_port("00080"), Some(80));
}

#[test]
fn ascii_case() {
    assert!(eq_ignore_ascii_case("ReDiS", "REDIS"));
    assert!(!eq_ignore_ascii_case("FSX", "FS"));
    assert!(!eq_ignore_ascii_case("é", "É"));
}

#[test]
fn archive_entries() {
    assert!(matches!(zip_entry("/t/h", "/t/h", false), Ok(ZipEntry::Root)));
    match zip_entry("/t/h", "/t/h/demo/src", false) {
        Ok(ZipEntry::Directory(n)) => assert_eq!(n, "demo/src"),
        other => panic!("{other:?}"),
    }
    match zip_entry("/t/h", "/t/h/demo/src/main.rs", true) {
        Ok(ZipEntry::File(n)) => assert_eq!(n, "demo/src/main.rs"),
        other => panic!("{other:?}"),
    }
    assert!(matches!(zip_entry("/t/h", "/t/h/demo.zip", true), Ok(ZipEntry::Skip)));
    match zip_entry("/t/h", "/t/h/demo/Makefile", true) {
        Err(CompressingError::StringConversion(p)) => assert_eq!(p, "/t/h/demo/Makefile"),
        other => panic!("{other:?}"),
    }
    assert!(matches!(zip_entry("/t/h", "/t/h/.hidden", true), Err(CompressingError::StringConversion(_))));
}

const INHERITING: &str = "[package]\nname = \"inh\"\nversion = \"0.1.0\"\ndescription.workspace = true\n\n[dependencies]\nserde = { workspace = true }\nrand = \"0.8\"\n";
const WORKSPACE: &str = "[workspace]\nmembers = []\n\n[workspace.package]\ndescription = \"From the workspace\"\n\n[workspace.dependencies]\nserde = \"1\"\n";

#[test]
fn starter_inheriting_from_the_workspace_above() {
    let ws = Some((WORKSPACE.to_string(), "/content".to_string()));
    let s = read_starter("c/inh.toml", INHERITING, &ws).unwrap();
    assert_eq!(s.starter_dto.name, "inh");
    assert_eq!(s.starter_dto.description, "From the workspace");
    assert_eq!(s.starter_dto.crates, vec!["rand".to_string(), "serde".to_string()]);
    assert_eq!(s.raw_starter.0, INHERITING);
    assert!(matches!(read_starter("c/inh.toml", INHERITING, &None), Err(StarterFileError::InvalidStarterManifest(_))));
    let lacking = Some(("[workspace]\nmembers = []\n".to_string(), "/content".to_string()));
    assert!(matches!(read_starter("c/inh.toml", INHERITING, &lacking), Err(StarterFileError::InvalidStarterManifest(_))));
}

#[test]
fn starter_with_a_workspace_section_of_its_own() {
    let own = "[package]\nname = \"own\"\nversion = \"0.1.0\"\n\n[dependencies]\nserde = { workspace = true }\n\n[workspace]\nmembers = []\n\n[workspace.dependencies]\nserde = \"1\"\n";
    let s = read_starter("c/own.toml", own, &None).unwrap();
    assert_eq!(s.starter_dto.crates, vec!["serde".to_string()]);
    assert_eq!(s.starter_dto.description, "Missing description");
}

#[test]
fn workspace_above_leaves_a_plain_starter_as_it_is() {
    let ws = Some((WORKSPACE.to_string(), "/content".to_string()));
    let s = read_starter("c/web.toml", WEB, &ws).unwrap();
    assert_eq!(s.starter_dto.description, "Web things");
    assert_eq!(s.starter_dto.crates, vec!["axum".to_string(), "tokio".to_string()]);
}

#[test]
fn empty_folder_refuses_the_storage() {
    assert!(matches!(InMemoryStorage::new(&vec![]), Err(StarterFileError::NoStartersProvided)));
    let unreadable = vec![("c/a.toml".to_string(), Some("[[[".to_string()), None)];
    assert!(matches!(InMemoryStorage::new(&unreadable), Err(StarterFileError::NoStartersProvided)));
}
