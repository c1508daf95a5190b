//! The description of the project a user asks for.

use vstd::prelude::*;
use crate::text::{copy_opt_string, copy_string, copy_strings, opt_text, str_eq, texts};

verus! {

/// Whether the generated crate is a binary or a library.
#[derive(Clone, Copy, Debug, Hash, PartialEq, Eq, Structural)]
pub enum TargetKind {
    Bin,
    Lib,
}

impl Default for TargetKind {
    fn default() -> (r: Self)
        ensures
            r == TargetKind::Bin,
    {
        TargetKind::Bin
    }
}

/// The spelling of a target kind.
pub open spec fn target_kind_text(k: TargetKind) -> Seq<char> {
    match k {
        TargetKind::Lib => "Lib"@,
        TargetKind::Bin => "Bin"@,
    }
}

/// The spellings a target kind is read from, and what each one denotes.
pub open spec fn target_kind_of_text(s: Seq<char>) -> Option<TargetKind> {
    if s == "Lib"@ || s == "lib"@ {
        Some(TargetKind::Lib)
    } else if s == "Bin"@ || s == "bin"@ {
        Some(TargetKind::Bin)
    } else {
        None
    }
}

/// A target kind's spelling reads back as the same target kind.
pub proof fn lemma_target_kind_round_trip(k: TargetKind)
    ensures
        target_kind_of_text(target_kind_text(k)) == Some(k),
{
    reveal_strlit("Lib");
    reveal_strlit("lib");
    reveal_strlit("Bin");
    reveal_strlit("bin");
    assert("Bin"@[0] != "Lib"@[0] && "Bin"@[0] != "lib"@[0]);
}

impl TargetKind {
    /// `"Lib"` or `"Bin"`.
    pub fn to_string(&self) -> (r: String)
        ensures
            r@ == target_kind_text(*self),
    {
        match self {
            TargetKind::Lib => "Lib".to_owned(),
            TargetKind::Bin => "Bin".to_owned(),
        }
    }

    /// Reads `"Lib"`, `"lib"`, `"Bin"` or `"bin"`; no other spelling is accepted.
    pub fn from_str(s: &str) -> (r: Result<TargetKind, ()>)
        requires
            target_kind_of_text(s@) is Some,
        ensures
            r == Ok::<TargetKind, ()>(target_kind_of_text(s@).unwrap()),
    {
        if str_eq(s, "Lib") || str_eq(s, "lib") {
            Ok(TargetKind::Lib)
        } else if str_eq(s, "Bin") || str_eq(s, "bin") {
            Ok(TargetKind::Bin)
        } else {
            proof {
                assert(false);
            }
            Err(())
        }
    }
}


/// The name of the generated package.
#[derive(Debug)]
pub struct PackageDescriptionName(pub String);

/// The name a package gets when none is given.
pub open spec fn unnamed_project() -> Seq<char> {
    "unnamed_project"@
}

impl Default for PackageDescriptionName {
    fn default() -> (r: Self)
        ensures
            r.0@ == unnamed_project(),
    {
        PackageDescriptionName("unnamed_project".to_owned())
    }
}

impl core::ops::Deref for PackageDescriptionName {
    type Target = str;

    fn deref(&self) -> (r: &str)
        ensures
            r@ == self.0@,
    {
        self.0.as_str()
    }
}

impl From<String> for PackageDescriptionName {
    fn from(name: String) -> (r: PackageDescriptionName)
        ensures
            r.0@ == name@,
    {
        PackageDescriptionName(name)
    }
}

impl vstd::std_specs::convert::FromSpecImpl<String> for PackageDescriptionName {
    open spec fn obeys_from_spec() -> bool {
        true
    }

    open spec fn from_spec(v: String) -> PackageDescriptionName {
        PackageDescriptionName(v)
    }
}

impl PackageDescriptionName {
    /// A copy with the same text.
    pub fn duplicate(&self) -> (r: PackageDescriptionName)
        ensures
            r.0@ == self.0@,
    {
        PackageDescriptionName(copy_string(&self.0))
    }
}

/// The package fields of the generated manifest.
#[derive(Debug)]
pub struct PackageDescription {
    pub name: PackageDescriptionName,
    pub author: Option<String>,
    pub description: Option<String>,
}

/// The value of a package description.
pub struct PackageDescriptionView {
    pub name: Seq<char>,
    pub author: Option<Seq<char>>,
    pub description: Option<Seq<char>>,
}

impl View for PackageDescription {
    type V = PackageDescriptionView;

    open spec fn view(&self) -> PackageDescriptionView {
        PackageDescriptionView {
            name: self.name.0@,
            author: opt_text(self.author),
            description: opt_text(self.description),
        }
    }
}

impl Default for PackageDescription {
    fn default() -> (r: Self)
        ensures
            r@ == (PackageDescriptionView { name: unnamed_project(), author: None, description: None }),
    {
        PackageDescription { name: PackageDescriptionName::default(), author: None, description: None }
    }
}

impl PackageDescription {
    /// A copy with the same value.
    pub fn duplicate(&self) -> (r: PackageDescription)
        ensures
            r@ == self@,
    {
        PackageDescription {
            name: self.name.duplicate(),
            author: copy_opt_string(&self.author),
            description: copy_opt_string(&self.description),
        }
    }
}

/// What a user asks to be generated: the kind of crate, its package fields
/// and the names of the starters whose dependencies it gets.
#[derive(Debug)]
pub struct ProjectDescriptionDto {
    pub target_kind: TargetKind,
    pub package_description: PackageDescription,
    pub starters: Vec<String>,
}

/// The value of a project description.
pub struct ProjectDescriptionView {
    pub target_kind: TargetKind,
    pub package_description: PackageDescriptionView,
    pub starters: Seq<Seq<char>>,
}

impl View for ProjectDescriptionDto {
    type V = ProjectDescriptionView;

    open spec fn view(&self) -> ProjectDescriptionView {
        ProjectDescriptionView {
            target_kind: self.target_kind,
            package_description: self.package_description@,
            starters: texts(self.starters@),
        }
    }
}

impl ProjectDescriptionDto {
    /// The value of the default description: a binary named
    /// "unnamed_project" with no author, no description and no starters.
    pub open spec fn default_view() -> ProjectDescriptionView {
        ProjectDescriptionView {
            target_kind: TargetKind::Bin,
            package_description: PackageDescriptionView {
                name: unnamed_project(),
                author: None,
                description: None,
            },
            starters: Seq::empty(),
        }
    }
}

impl Default for ProjectDescriptionDto {
    fn default() -> (r: Self)
        ensures
            r@ == ProjectDescriptionDto::default_view(),
    {
        let r = ProjectDescriptionDto {
            target_kind: TargetKind::Bin,
            package_description: PackageDescription::default(),
            starters: Vec::new(),
        };
        assert(texts(r.starters@) =~= Seq::<Seq<char>>::empty());
        r
    }
}

impl ProjectDescriptionDto {
    /// A copy with the same value.
    pub fn duplicate(&self) -> (r: ProjectDescriptionDto)
        ensures
            r@ == self@,
    {
        ProjectDescriptionDto {
            target_kind: self.target_kind,
            package_description: self.package_description.duplicate(),
            starters: copy_strings(&self.starters),
        }
    }
}

} // verus!
