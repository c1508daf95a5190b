use cargo_initializr::extractor::{query_is_well_formed, remove_first_and_last_character, DownloadPayload};
use cargo_initializr::project_description::TargetKind;

#[test]
fn trims_brackets() {
    assert_eq!(remove_first_and_last_character("[a;b]"), "a;b");
    assert_eq!(remove_first_and_last_character("[]"), "");
}

#[test]
fn reads_full_query() {
    let q = "target_kind=Lib&name=demo&author=Ann&description=Tool&starters=[web;db]";
    assert!(query_is_well_formed(q));
    let p = DownloadPayload::from_query(q);
    let d = p.project_description_dto;
    assert_eq!(d.target_kind, TargetKind::Lib);
    assert_eq!(d.package_description.name.0, "demo");
    assert_eq!(d.package_description.author.as_deref(), Some("Ann"));
    assert_eq!(d.package_description.description.as_deref(), Some("Tool"));
    assert_eq!(d.starters, vec!["web".to_string(), "db".to_string()]);
}

#[test]
fn missing_fields_take_defaults() {
    let q = "author=Bob";
    assert!(query_is_well_formed(q));
    let d = DownloadPayload::from_query(q).project_description_dto;
    assert_eq!(d.target_kind, TargetKind::Bin);
    assert_eq!(d.package_description.name.0, "unnamed_project");
    assert_eq!(d.package_description.author.as_deref(), Some("Bob"));
    assert!(d.package_description.description.is_none());
    assert!(d.starters.is_empty());
}

#[test]
fn last_value_of_a_name_wins() {
    let q = "name=first&name=second";
    let d = DownloadPayload::from_query(q).project_description_dto;
    assert_eq!(d.package_description.name.0, "second");
}

#[test]
fn value_may_hold_equals_sign() {
    let q = "description=a=b";
    let d = DownloadPayload::from_query(q).project_description_dto;
    assert_eq!(d.package_description.description.as_deref(), Some("a=b"));
}

#[test]
fn empty_starter_list_gives_one_empty_name() {
    let d = DownloadPayload::from_query("starters=[]").project_description_dto;
    assert_eq!(d.starters, vec!["".to_string()]);
}

#[test]
fn malformed_queries_are_refused() {
    assert!(!query_is_well_formed("name"));
    assert!(!query_is_well_formed("name=a&broken"));
    assert!(!query_is_well_formed("target_kind=exe"));
    assert!(!query_is_well_formed("starters=x"));
    assert!(!query_is_well_formed(""));
    assert!(query_is_well_formed("target_kind=bin"));
}
