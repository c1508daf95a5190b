use cargo_initializr::config::{get_app_config, try_get_app_config};
use cargo_initializr::download_link::generate_button;
use cargo_initializr::extractor::{query_is_well_formed, DownloadPayload};
use cargo_initializr::project_description::{ProjectDescriptionDto, TargetKind};
use cargo_initializr::starter::StarterDto;
use cargo_initializr::stores::{
    get_mock_starters, is_name_valid, left_section, right_section, starter_selection_popup,
    IntegrationMode, ProjectDescriptionState, StartersState,
};

fn dto(name: &str) -> StarterDto {
    StarterDto::new(name.to_string(), vec!["tokio".to_string(), "serde".to_string()], format!("{name} starter"))
}

#[test]
fn integration_mode_spellings() {
    assert_eq!(IntegrationMode::from("PRODUCTION"), IntegrationMode::Production);
    assert_eq!(IntegrationMode::from("production"), IntegrationMode::Production);
    assert_eq!(IntegrationMode::from("Production"), IntegrationMode::Test);
    assert_eq!(IntegrationMode::from(""), IntegrationMode::Test);
    assert_eq!(IntegrationMode::default(), IntegrationMode::Test);
}

#[test]
fn package_names() {
    assert!(is_name_valid("my-crate_2"));
    assert!(is_name_valid("ünïcode"));
    assert!(is_name_valid(""));
    assert!(!is_name_valid("has space"));
    assert!(!is_name_valid("semi;colon"));
}

#[test]
fn name_changes() {
    let mut st = ProjectDescriptionState::default();
    assert!(!st.is_description_valid);
    st.on_name_change("good-name".to_string());
    assert!(st.is_description_valid);
    assert_eq!(st.project_description.package_description.name.0, "good-name");
    st.on_name_change("bad name".to_string());
    assert!(!st.is_description_valid);
    assert_eq!(st.project_description.package_description.name.0, "good-name");
    st.on_name_change(String::new());
    assert!(!st.is_description_valid);
}

#[test]
fn optional_fields_clear_when_empty() {
    let mut st = ProjectDescriptionState::default();
    st.on_author_change("Ann".to_string());
    st.on_description_change("A tool".to_string());
    st.on_target_change(TargetKind::Lib);
    assert_eq!(st.project_description.package_description.author.as_deref(), Some("Ann"));
    let form = left_section(&st);
    assert!(!form.bin_checked && form.lib_checked);
    assert_eq!(form.author, "Ann");
    assert_eq!(form.description, "A tool");
    assert_eq!(form.name, "unnamed_project");
    st.on_author_change(String::new());
    st.on_description_change(String::new());
    assert!(st.project_description.package_description.author.is_none());
    let form = left_section(&st);
    assert_eq!(form.author, "");
    assert_eq!(form.description, "");
}

#[test]
fn mock_starters_are_sixteen_unchosen() {
    let st = get_mock_starters();
    assert_eq!(st.all_starters.len(), 16);
    assert_eq!(st.unselected_starters.len(), 16);
    assert!(st.selected_starters.is_empty());
    for (i, s) in st.all_starters.iter().enumerate() {
        assert_eq!(s.name, i.to_string());
        assert_eq!(s.crates, vec!["tokio".to_string(), "dotenv".to_string()]);
        assert_eq!(s.description, "Some description");
    }
}

#[test]
fn selecting_and_unselecting() {
    let mut st = StartersState::offering(vec![dto("web"), dto("db")]);
    st.select_starter(&dto("web"));
    assert_eq!(st.selected_starters.len(), 1);
    assert_eq!(st.selected_starters[0].name, "web");
    assert_eq!(st.unselected_starters.len(), 1);
    assert_eq!(st.unselected_starters[0].name, "db");
    // choosing twice keeps one copy
    st.select_starter(&dto("web"));
    assert_eq!(st.selected_starters.len(), 1);
    st.unselect_starter(&dto("web"));
    assert!(st.selected_starters.is_empty());
    assert_eq!(st.unselected_starters.len(), 2);
    assert_eq!(st.all_starters.len(), 2);
}

#[test]
fn starter_cards() {
    let mut st = StartersState::offering(vec![dto("web"), dto("db")]);
    st.select_starter(&dto("db"));
    let chosen = right_section(&st);
    assert_eq!(chosen.len(), 1);
    assert_eq!(chosen[0].name, "db");
    assert_eq!(chosen[0].crates, "tokio serde");
    assert_eq!(chosen[0].description, "db starter");
    let offered = starter_selection_popup(&st);
    assert_eq!(offered.len(), 1);
    assert_eq!(offered[0].name, "web");
}

#[test]
fn link_is_empty_in_test_mode() {
    let st = StartersState::empty();
    assert_eq!(generate_button(IntegrationMode::Test, &ProjectDescriptionDto::default(), &st), "");
}

#[test]
fn link_in_production_carries_the_description() {
    let mut desc = ProjectDescriptionDto::default();
    desc.target_kind = TargetKind::Lib;
    desc.package_description.name = "demo".to_string().into();
    desc.package_description.author = Some("Ann".to_string());
    let mut st = StartersState::offering(vec![dto("web"), dto("db")]);
    st.select_starter(&dto("web"));
    st.select_starter(&dto("db"));
    let url = generate_button(IntegrationMode::Production, &desc, &st);
    let prefix = "http://localhost:8080/download?";
    assert!(url.starts_with(prefix), "{url}");
    let query = &url[prefix.len()..];
    let mut parts: Vec<&str> = query.split('&').collect();
    parts.sort();
    assert_eq!(parts, vec!["author=Ann", "name=demo", "starters=[web;db]", "target_kind=Lib"]);
}

#[test]
fn link_round_trips_through_the_back_end() {
    let mut desc = ProjectDescriptionDto::default();
    desc.package_description.name = "svc".to_string().into();
    desc.package_description.description = Some("a service".to_string());
    let mut st = StartersState::offering(vec![dto("web"), dto("db")]);
    st.select_starter(&dto("db"));
    let url = generate_button(IntegrationMode::Production, &desc, &st);
    let query = url.split_once('?').unwrap().1;
    assert!(query_is_well_formed(query));
    let back = DownloadPayload::from_query(query).project_description_dto;
    assert_eq!(back.target_kind, TargetKind::Bin);
    assert_eq!(back.package_description.name.0, "svc");
    assert!(back.package_description.author.is_none());
    assert_eq!(back.package_description.description.as_deref(), Some("a service"));
    assert_eq!(back.starters, vec!["db".to_string()]);
}

#[test]
fn link_without_starters_has_no_starter_list() {
    let st = StartersState::empty();
    let url = generate_button(IntegrationMode::Production, &ProjectDescriptionDto::default(), &st);
    assert!(!url.contains("starters="));
    assert!(url.contains("name=unnamed_project"));
    assert!(url.contains("target_kind=Bin"));
}

#[test]
fn app_config_from_settings() {
    let c = get_app_config(None, None);
    assert_eq!(c.integration_mode, IntegrationMode::Test);
    assert!(c.backend_url.is_none());
    let c = get_app_config(Some("production"), Some("http://localhost:8080"));
    assert_eq!(c.integration_mode, IntegrationMode::Production);
    assert_eq!(c.backend_url.as_deref(), Some("http://localhost:8080/"));
    assert!(try_get_app_config(Some("PRODUCTION"), None).is_none());
    assert!(try_get_app_config(Some("PRODUCTION"), Some("not a url")).is_none());
    assert!(try_get_app_config(Some("test"), None).is_some());
}
