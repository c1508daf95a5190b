use cargo_initializr::env::parse_port;
use cargo_initializr::project::Project;
use cargo_initializr::project_description::TargetKind;
use cargo_initializr::repository::{ProjectGeneratingServiceError, StarterRepository};
use cargo_initializr::starter::{RawStarter, Starter, StarterDto};
use cargo_initializr::storage::{InMemoryStorage, MapStorage};

fn starter(name: &str, description: &str) -> Starter {
    Starter {
        starter_dto: StarterDto::new(name.to_string(), vec![], description.to_string()),
        raw_starter: RawStarter(String::new()),
    }
}

#[test]
fn every_port_reads_back() {
    for n in [0u16, 1, 9, 10, 80, 443, 8080, 65535] {
        assert_eq!(parse_port(&n.to_string()), Some(n));
    }
}

#[test]
fn project_stays_inside_its_hash_folder() {
    let p = Project::new("/tmp", "h1", "demo", &TargetKind::Bin);
    let hashed = p.get_hashed_dir_path();
    assert!(p.get_root_dir_path().starts_with(&hashed));
    assert!(p.get_src_dir_path().starts_with(&hashed));
    // an absolute package name leaves it, as path pushing does
    let q = Project::new("/tmp", "h1", "/elsewhere", &TargetKind::Bin);
    assert!(!q.get_root_dir_path().starts_with(&q.get_hashed_dir_path()));
}

#[test]
fn repository_loads_and_finds() {
    let mut repo = InMemoryStorage::from_starters(vec![starter("a", "first")]);
    repo.load_starters(vec![starter("b", "second"), starter("a", "newer")]);
    let all = StarterRepository::get_starters(&repo);
    assert_eq!(all.len(), 2);
    let a = StarterRepository::get_starter_by_name(&repo, "a").unwrap();
    assert_eq!(a.starter_dto.description, "newer");
    match StarterRepository::get_starter_by_name(&repo, "zzz") {
        Err(ProjectGeneratingServiceError::CannotFindStarter(n)) => assert_eq!(n, "zzz"),
        other => panic!("{other:?}"),
    }
}

#[test]
fn storage_add_replaces_by_name() {
    let mut s = InMemoryStorage::from_starters(vec![starter("a", "1"), starter("a", "2")]);
    assert_eq!(s.get_all_starters().unwrap().len(), 1);
    assert_eq!(MapStorage::get_starter_by_name(&s, "a").unwrap().starter_dto.description, "2");
    s.add(starter("c", "3"));
    assert_eq!(s.get_all_starters().unwrap().len(), 2);
}
