//! What the library reads from a starter's manifest text.

use vstd::prelude::*;
use crate::cargo_toml_parser_extensions::{Dependency, DependencyDetail, DependencyView};
use cargo_toml::Dependency::{Detailed, Simple};
use cargo_toml::Inheritable;
use cargo_toml::{DependencyDetail as TomlDetail, Manifest};
use self::DescriptionField::{Given, Missing};
use crate::deps_set::{entries_map, DepsSet};
use crate::text::copy_string;

verus! {

/// The `description` of a package section.
#[derive(Debug)]
pub enum DescriptionField {
    /// The manifest gives none.
    Missing,
    /// The manifest gives this text.
    Given(String),
    /// The manifest takes it from the workspace.
    Inherited,
}

/// The package section of a manifest, as far as the library reads it.
#[derive(Debug)]
pub struct PackageSummary {
    pub name: String,
    pub description: DescriptionField,
}

/// A manifest, as far as the library reads it: its package section and its
/// `[dependencies]` table, in ascending order of name as the parser's map
/// keeps them.
#[derive(Debug)]
pub struct ManifestSummary {
    pub package: Option<PackageSummary>,
    pub dependencies: Vec<(String, Dependency)>,
}

/// The value of a `description` field.
pub enum DescriptionFieldView {
    Missing,
    Given(Seq<char>),
    Inherited,
}

/// The value of a package section.
pub struct PackageSummaryView {
    pub name: Seq<char>,
    pub description: DescriptionFieldView,
}

/// The value of a manifest summary.
pub struct ManifestSummaryView {
    pub package: Option<PackageSummaryView>,
    pub dependencies: Seq<(Seq<char>, DependencyView)>,
}

impl View for PackageSummary {
    type V = PackageSummaryView;

    open spec fn view(&self) -> PackageSummaryView {
        PackageSummaryView {
            name: self.name@,
            description: match self.description {
                DescriptionField::Missing => DescriptionFieldView::Missing,
                DescriptionField::Given(s) => DescriptionFieldView::Given(s@),
                DescriptionField::Inherited => DescriptionFieldView::Inherited,
            },
        }
    }
}

impl View for ManifestSummary {
    type V = ManifestSummaryView;

    open spec fn view(&self) -> ManifestSummaryView {
        ManifestSummaryView {
            package: match self.package {
                Some(p) => Some(p@),
                None => None,
            },
            dependencies: self.dependencies@.map_values(|e: (String, Dependency)| (e.0@, e.1@)),
        }
    }
}

/// The error `cargo_toml` reports for a manifest it cannot read.
#[verifier::external_type_specification]
#[verifier::external_body]
pub struct ExManifestError(cargo_toml::Error);

/// What `cargo_toml::Manifest::from_str` reads from a manifest text, or
/// that it fails.
pub uninterp spec fn manifest_reading(text: Seq<char>) -> Result<ManifestSummaryView, ()>;

/// The view of a reading result.
pub open spec fn summary_result(r: Result<ManifestSummary, cargo_toml::Error>) -> Result<ManifestSummaryView, ()> {
    match r {
        Ok(m) => Ok(m@),
        Err(_) => Err(()),
    }
}

/// Trusted: calls `cargo_toml::Manifest::from_str(text)` and moves the
/// parts the library reads into a `ManifestSummary`, variant for variant
/// and field for field; a dependency that leaves its details to the
/// workspace keeps none of them, and the detail flag `inherited`, which the
/// parser never sets, is not kept.  What is read is not stated; it is named
/// `manifest_reading`.
#[verifier::external_body]
fn read_manifest(text: &str) -> (r: Result<ManifestSummary, cargo_toml::Error>)
    ensures
        summary_result(r) == manifest_reading(text@),
{
    let m = Manifest::from_str(text)?;
    let package = m.package.map(|p| PackageSummary { name: p.name, description: match p.description {
        None => Missing, Some(Inheritable::Set(s)) => Given(s), Some(_) => DescriptionField::Inherited } });
    let dependencies = m.dependencies.into_iter().map(|(k, d)| (k, match d {
        Simple(v) => Dependency::Simple(v),
        Detailed(TomlDetail { version, registry, registry_index, path, git, branch, tag, rev, features, optional, default_features, package, .. }) =>
            Dependency::Detailed(DependencyDetail { version, registry, registry_index, path, git, branch, tag, rev, features, optional, default_features, package }),
        _ => Dependency::Inherited,
    })).collect();
    Ok(ManifestSummary { package, dependencies })
}

/// Reads a manifest text.
pub fn parse_manifest(text: &str) -> (r: Result<ManifestSummary, cargo_toml::Error>)
    ensures
        summary_result(r) == manifest_reading(text@),
{
    read_manifest(text)
}

/// The manifest text `text` once the workspace manifest `workspace_text`,
/// whose folder is `workspace_dir`, has lent it what it inherits, written
/// back as TOML by `toml::to_string`; `None` where either text cannot be
/// read, what it inherits is missing from the workspace, or the writing
/// fails.
pub uninterp spec fn workspace_resolution(text: Seq<char>, workspace_text: Seq<char>, workspace_dir: Seq<char>) -> Option<Seq<char>>;

/// Trusted: reads both texts with `cargo_toml::Manifest::from_str`, lets
/// the first inherit from the second's workspace section through
/// `Manifest::inherit_workspace` (which fails where a dependency or package
/// field is left to a workspace that does not give it, and leaves a
/// manifest that inherits nothing as it was), and writes the result with
/// `toml::to_string`.  The text is not stated; it is named
/// `workspace_resolution`.
#[verifier::external_body]
fn inherit_from_workspace(text: &str, workspace_text: &str, workspace_dir: &str) -> (r: Option<String>)
    ensures
        crate::text::opt_text(r) == workspace_resolution(text@, workspace_text@, workspace_dir@),
{
    let mut manifest = Manifest::from_str(text).ok()?;
    let workspace = Manifest::from_str(workspace_text).ok()?;
    #[allow(deprecated)]
    manifest.inherit_workspace(&workspace, std::path::Path::new(workspace_dir)).ok()?;
    toml::to_string(&manifest).ok()
}

/// The manifest text of a starter with what it inherits filled in: from a
/// workspace section of its own, or else from the workspace manifest found
/// above it (its text and folder), where one was; `None` where the text
/// cannot be read or what it inherits is found in neither.
pub open spec fn resolved_manifest(text: Seq<char>, workspace: Option<(Seq<char>, Seq<char>)>) -> Option<Seq<char>> {
    match workspace_resolution(text, text, ""@) {
        Some(resolved) => Some(resolved),
        None => match workspace {
            Some((workspace_text, workspace_dir)) => workspace_resolution(text, workspace_text, workspace_dir),
            None => None,
        },
    }
}

/// The view of the workspace manifest found above a starter, if any.
pub open spec fn workspace_view(w: Option<(String, String)>) -> Option<(Seq<char>, Seq<char>)> {
    match w {
        Some((t, d)) => Some((t@, d@)),
        None => None,
    }
}

/// Fills in what the manifest text inherits: from its own workspace section
/// first, then from the workspace manifest found above it.
pub fn resolve_manifest(text: &str, workspace: &Option<(String, String)>) -> (r: Option<String>)
    ensures
        crate::text::opt_text(r) == resolved_manifest(text@, workspace_view(*workspace)),
{
    match inherit_from_workspace(text, text, "") {
        Some(resolved) => Some(resolved),
        None => match workspace {
            Some((workspace_text, workspace_dir)) => inherit_from_workspace(
                text,
                workspace_text.as_str(),
                workspace_dir.as_str(),
            ),
            None => None,
        },
    }
}

/// The dependencies of a manifest, by name, in a set.
pub fn dependency_set_of(summary: &ManifestSummary) -> (r: DepsSet)
    ensures
        r.map() == entries_map(summary@.dependencies),
{
    let ghost all = summary@.dependencies;
    let mut r = DepsSet::new();
    let mut i: usize = 0;
    while i < summary.dependencies.len()
        invariant
            all == summary@.dependencies,
            i <= all.len(),
            r.map() == entries_map(all.take(i as int)),
        decreases all.len() - i,
    {
        let e = &summary.dependencies[i];
        r.insert(copy_string(&e.0), e.1.duplicate());
        assert(all.take(i + 1).drop_last() =~= all.take(i as int));
        i = i + 1;
    }
    assert(all.take(all.len() as int) =~= all);
    r
}

} // verus!
