use cargo_initializr::project_description::{
    PackageDescription, PackageDescriptionName, ProjectDescriptionDto, TargetKind,
};

#[test]
fn target_kind_spellings() {
    assert_eq!(TargetKind::Lib.to_string(), "Lib");
    assert_eq!(TargetKind::Bin.to_string(), "Bin");
    assert_eq!(TargetKind::from_str("lib"), Ok(TargetKind::Lib));
    assert_eq!(TargetKind::from_str("Lib"), Ok(TargetKind::Lib));
    assert_eq!(TargetKind::from_str("bin"), Ok(TargetKind::Bin));
    assert_eq!(TargetKind::from_str("Bin"), Ok(TargetKind::Bin));
}

#[test]
fn target_kind_round_trip_on_both_kinds() {
    for k in [TargetKind::Bin, TargetKind::Lib] {
        assert_eq!(TargetKind::from_str(&k.to_string()), Ok(k));
    }
}

#[test]
fn default_target_kind_is_bin() {
    assert_eq!(TargetKind::default(), TargetKind::Bin);
}

#[test]
fn default_package_name() {
    let name = PackageDescriptionName::default();
    assert_eq!(name.0, "unnamed_project");
    assert_eq!(&*name, "unnamed_project");
}

#[test]
fn package_name_from_string() {
    let name = PackageDescriptionName::from("demo".to_string());
    assert_eq!(name.0, "demo");
}

#[test]
fn default_description() {
    let d = ProjectDescriptionDto::default();
    assert_eq!(d.target_kind, TargetKind::Bin);
    assert_eq!(d.package_description.name.0, "unnamed_project");
    assert!(d.package_description.author.is_none());
    assert!(d.package_description.description.is_none());
    assert!(d.starters.is_empty());
    let p = PackageDescription::default();
    assert_eq!(p.name.0, "unnamed_project");
}
