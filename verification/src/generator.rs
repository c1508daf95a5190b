//! The standalone generator: it lays a project out under a folder named after
//! the project's hash, and merges the dependencies of the starters it can
//! read, passing over those it cannot.

use vstd::prelude::*;
use crate::cargo_toml_parser_extensions::{dependency_error_message, DependencyView};
use crate::deps_set::{entries_map, lemma_ordered_entries, ordered_entries, DepsSet};
use crate::manifest::{dependency_set_of, manifest_reading, parse_manifest};
use crate::project::{path_pushed, push_path};
use crate::project_description::{ProjectDescriptionDto, ProjectDescriptionView};
use crate::project_generation_service::{
    contents_view, dependency_section_text, generate_package_section, generation_result,
    merge_conflict, merge_dependency_sets, merged_dependencies, package_section_of, section_or_stop,
    set_views, shared_free, GenerationErrorView, ProjectGeneratingServiceError,
};

verus! {

/// Why the standalone generator could not produce a project.
#[derive(Debug)]
pub enum ProjectGeneratingError {
    /// A section could not be built: what it concerns, and why.
    Section(String, String),
    /// A folder could not be created, with the system's message.
    Directory(String),
    /// A file could not be written: its name, and why.
    File(String, String),
}

/// The value of a `ProjectGeneratingError`.
pub enum ProjectGeneratingErrorView {
    Section(Seq<char>, Seq<char>),
    Directory(Seq<char>),
    File(Seq<char>, Seq<char>),
}

impl View for ProjectGeneratingError {
    type V = ProjectGeneratingErrorView;

    open spec fn view(&self) -> ProjectGeneratingErrorView {
        match self {
            ProjectGeneratingError::Section(a, b) => ProjectGeneratingErrorView::Section(a@, b@),
            ProjectGeneratingError::Directory(m) => ProjectGeneratingErrorView::Directory(m@),
            ProjectGeneratingError::File(a, b) => ProjectGeneratingErrorView::File(a@, b@),
        }
    }
}

/// The dependency sets of the starter texts that were read and can be
/// parsed, in order; the others are passed over.
pub open spec fn readable_sets(contents: Seq<Option<Seq<char>>>) -> Seq<Seq<(Seq<char>, DependencyView)>>
    decreases contents.len(),
{
    if contents.len() == 0 {
        Seq::empty()
    } else {
        let rest = readable_sets(contents.drop_last());
        match contents.last() {
            None => rest,
            Some(t) => match manifest_reading(t) {
                Err(_) => rest,
                Ok(m) => rest.push(ordered_entries(entries_map(m.dependencies))),
            },
        }
    }
}

/// The dependency section the standalone generator writes for the starter
/// texts: the readable starters' dependencies merged in order and written in
/// ascending order of name.  `None` where it cannot: no starter is
/// readable, the merge or the writing meets a dependency left to the
/// workspace, or declarations cannot be combined or written.
pub open spec fn lenient_dependency_section(contents: Seq<Option<Seq<char>>>) -> Option<Seq<char>> {
    let sets = readable_sets(contents);
    if sets.len() == 0 {
        None
    } else {
        match dependency_section_text(sets) {
            Some(Ok(t)) => Some(t),
            _ => None,
        }
    }
}

/// Computes the dependency section the standalone generator writes, where it
/// can.
fn lenient_section(contents: &Vec<Option<String>>) -> (r: Option<String>)
    ensures
        match r {
            Some(t) => lenient_dependency_section(contents_view(contents@)) == Some(t@),
            None => lenient_dependency_section(contents_view(contents@)) is None,
        },
{
    let ghost cv = contents_view(contents@);
    let mut sets: Vec<DepsSet> = Vec::new();
    let mut k: usize = 0;
    assert(set_views(sets@) =~= Seq::<Seq<(Seq<char>, DependencyView)>>::empty());
    while k < contents.len()
        invariant
            cv == contents_view(contents@),
            k <= contents@.len(),
            readable_sets(cv.take(k as int)) == set_views(sets@),
        decreases contents@.len() - k,
    {
        assert(cv.take(k + 1).drop_last() =~= cv.take(k as int));
        assert(cv.take(k + 1).last() == cv[k as int]);
        match &contents[k] {
            None => {},
            Some(text) => {
                match parse_manifest(text.as_str()) {
                    Err(_) => {},
                    Ok(summary) => {
                        let d = dependency_set_of(&summary);
                        proof {
                            use_type_invariant(&d);
                            lemma_ordered_entries(d@);
                        }
                        let ghost before = sets@;
                        let ghost dv = d@;
                        sets.push(d);
                        assert(set_views(sets@) =~= set_views(before).push(dv));
                    },
                }
            },
        }
        k = k + 1;
    }
    assert(cv.take(contents@.len() as int) =~= cv);
    if sets.len() == 0 {
        return None;
    }
    match section_or_stop(&sets) {
        Some(Ok(t)) => Some(t),
        _ => None,
    }
}

/// Something that generates a project on disk and gives the path of its
/// folder.
pub trait Generator {
    /// Generates the project; the path of the project's folder.
    fn generate_project(&self) -> Result<String, ProjectGeneratingError>;
}

/// A project being generated: the folder named after its hash, and what it
/// is generated from.
pub struct ProjectGenerator {
    hashed_dir: String,
    description_dto: ProjectDescriptionDto,
}

impl ProjectGenerator {
    /// The folder named after the project's hash.
    pub closed spec fn hashed_dir(&self) -> Seq<char> {
        self.hashed_dir@
    }

    /// The description the project is generated from.
    pub closed spec fn description(&self) -> ProjectDescriptionView {
        self.description_dto@
    }

    /// A generator for the description, working in the folder `project_hash`
    /// under the folder `temp_dir`.
    pub fn new(temp_dir: &str, project_hash: &str, description_dto: ProjectDescriptionDto) -> (r: ProjectGenerator)
        ensures
            r.hashed_dir() == path_pushed(temp_dir@, project_hash@),
            r.description() == description_dto@,
    {
        ProjectGenerator { hashed_dir: push_path(temp_dir, project_hash), description_dto }
    }

    /// The folder named after the project's hash.
    pub fn get_hashed_dir(&self) -> (r: &String)
        ensures
            r@ == self.hashed_dir(),
    {
        &self.hashed_dir
    }

    /// The project folder, named after the package, inside the hash folder.
    pub fn root_dir_path(&self) -> (r: String)
        ensures
            r@ == path_pushed(self.hashed_dir(), self.description().package_description.name),
    {
        push_path(self.hashed_dir.as_str(), self.description_dto.package_description.name.0.as_str())
    }

    /// The source folder of the project.
    pub fn src_dir_path(&self) -> (r: String)
        ensures
            r@ == path_pushed(path_pushed(self.hashed_dir(), self.description().package_description.name), "src"@),
    {
        let root = self.root_dir_path();
        push_path(root.as_str(), "src")
    }

    /// The path of the source file for the project's target kind: `main.rs`
    /// for a binary, `lib.rs` for a library, in the source folder.
    pub fn source_file_path(&self) -> (r: String)
        ensures
            r@ == path_pushed(
                path_pushed(path_pushed(self.hashed_dir(), self.description().package_description.name), "src"@),
                match self.description().target_kind {
                    crate::project_description::TargetKind::Bin => "main.rs"@,
                    crate::project_description::TargetKind::Lib => "lib.rs"@,
                },
            ),
    {
        let src = self.src_dir_path();
        match self.description_dto.target_kind {
            crate::project_description::TargetKind::Bin => push_path(src.as_str(), "main.rs"),
            crate::project_description::TargetKind::Lib => push_path(src.as_str(), "lib.rs"),
        }
    }

    /// The path of the manifest, in the project folder.
    pub fn cargo_file_path(&self) -> (r: String)
        ensures
            r@ == path_pushed(path_pushed(self.hashed_dir(), self.description().package_description.name), "Cargo.toml"@),
    {
        let root = self.root_dir_path();
        push_path(root.as_str(), "Cargo.toml")
    }

    /// Merges the dependencies of two starters: a name both declare gets the
    /// combination of the two declarations, any other keeps its own; where a
    /// combination fails, the error names the dependency and gives the
    /// reason.
    pub fn proceed_starters(starter_a: DepsSet, starter_b: DepsSet) -> (r: Result<DepsSet, ProjectGeneratingError>)
        requires
            shared_free(starter_a@, starter_b@),
        ensures
            match (r, merged_dependencies(starter_a@, starter_b@)) {
                (Ok(d), Ok(m)) => d.map() == m,
                (Err(e), Err(ev)) => merge_conflict(starter_a@, starter_b.map()) matches Some(k) && e@
                    == ProjectGeneratingErrorView::Section(k, dependency_error_message(ev)),
                _ => false,
            },
    {
        match merge_dependency_sets(starter_a, starter_b) {
            Ok(d) => Ok(d),
            Err((name, e)) => Err(ProjectGeneratingError::Section(name, e.to_string())),
        }
    }

    /// The dependency section for the starter texts (`None` where a text
    /// could not be read): the readable starters' dependencies merged in
    /// order and written in ascending order of name.
    pub fn generate_dependency_section(&self, starter_contents: &Vec<Option<String>>) -> (r: Result<String, ProjectGeneratingError>)
        requires
            lenient_dependency_section(contents_view(starter_contents@)) is Some,
        ensures
            r matches Ok(t) && lenient_dependency_section(contents_view(starter_contents@)) == Some(t@),
    {
        match lenient_section(starter_contents) {
            Some(t) => Ok(t),
            None => {
                proof {
                    assert(false);
                }
                Ok(String::new())
            },
        }
    }

    /// The dependency section for the starter texts where the generator can
    /// write one; `None` where no starter is readable, the merge or the
    /// writing meets a dependency left to the workspace, or declarations
    /// cannot be combined or written.
    pub fn try_generate_dependency_section(&self, starter_contents: &Vec<Option<String>>) -> (r: Option<Result<String, ProjectGeneratingError>>)
        ensures
            match r {
                Some(x) => x matches Ok(t) && lenient_dependency_section(contents_view(starter_contents@)) == Some(t@),
                None => lenient_dependency_section(contents_view(starter_contents@)) is None,
            },
    {
        if lenient_section(starter_contents).is_none() {
            return None;
        }
        Some(self.generate_dependency_section(starter_contents))
    }

    /// The package section of the project's manifest.
    pub fn generate_package_section(&self) -> (r: Result<String, ProjectGeneratingServiceError>)
        ensures
            generation_result(r) == package_section_of(self.description()),
    {
        generate_package_section(&self.description_dto)
    }

    /// The content of the project's manifest: the label as a comment, the
    /// package section, and the dependency section.
    pub fn generate_cargo_toml_content(&self, label: &str, starter_contents: &Vec<Option<String>>) -> (r: Result<String, ProjectGeneratingServiceError>)
        requires
            lenient_dependency_section(contents_view(starter_contents@)) is Some,
        ensures
            generation_result(r) == match package_section_of(self.description()) {
                Ok(p) => Ok(seq!['#'] + label@ + p + lenient_dependency_section(contents_view(starter_contents@))->0),
                Err(e) => Err::<Seq<char>, GenerationErrorView>(e),
            },
    {
        let package_section = match self.generate_package_section() {
            Ok(p) => p,
            Err(e) => {
                return Err(e);
            },
        };
        let dependency_section = match self.generate_dependency_section(starter_contents) {
            Ok(t) => t,
            Err(_) => {
                proof {
                    assert(false);
                }
                String::new()
            },
        };
        let mut content = "#".to_owned();
        content.append(label);
        content.append(package_section.as_str());
        content.append(dependency_section.as_str());
        proof {
            reveal_strlit("#");
        }
        assert(content@ =~= seq!['#'] + label@ + package_section@ + dependency_section@);
        Ok(content)
    }
}

} // verus!
