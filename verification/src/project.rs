//! The files and folders of a generated project, and the decisions about
//! writing into them.

use vstd::prelude::*;
use crate::project_description::TargetKind;
use crate::text::{concat, copy_string};

verus! {

/// The files of a project that content is written into.
#[derive(Clone, Copy, Debug, PartialEq, Eq, Structural)]
pub enum ProjectFileTarget {
    Main,
    Lib,
    Cargo,
}

/// Why a project could not be laid out or written.
#[derive(Debug)]
pub enum ProjectError {
    /// Creating a folder or file failed, with the system's message.
    ProjectCreationFailure(String),
    /// Writing into a file failed: the file's label and the system's message.
    WritingToFile(String, String),
    /// The project has no such file.
    NoSuchFile,
}

/// The value of a `ProjectError`.
pub enum ProjectErrorView {
    ProjectCreationFailure(Seq<char>),
    WritingToFile(Seq<char>, Seq<char>),
    NoSuchFile,
}

impl View for ProjectError {
    type V = ProjectErrorView;

    open spec fn view(&self) -> ProjectErrorView {
        match self {
            ProjectError::ProjectCreationFailure(m) => ProjectErrorView::ProjectCreationFailure(m@),
            ProjectError::WritingToFile(f, m) => ProjectErrorView::WritingToFile(f@, m@),
            ProjectError::NoSuchFile => ProjectErrorView::NoSuchFile,
        }
    }
}


/// `base` extended by the path `part` as `PathBuf::push` extends it on Unix:
/// an absolute `part` replaces `base`; otherwise a `/` goes between them
/// unless `base` is empty or already ends in one.
pub open spec fn path_pushed(base: Seq<char>, part: Seq<char>) -> Seq<char> {
    if part.len() > 0 && part[0] == '/' {
        part
    } else if base.len() == 0 || base.last() == '/' {
        base + part
    } else {
        base + seq!['/'] + part
    }
}

/// Whether `prefix` begins the path `p`.
pub open spec fn begins_with(p: Seq<char>, prefix: Seq<char>) -> bool {
    prefix.len() <= p.len() && p.take(prefix.len() as int) == prefix
}

/// Extending a path by a relative part keeps the path as its beginning.
proof fn lemma_pushed_begins_with(base: Seq<char>, part: Seq<char>)
    requires
        !(part.len() > 0 && part[0] == '/'),
    ensures
        begins_with(path_pushed(base, part), base),
{
    let r = path_pushed(base, part);
    assert(r.take(base.len() as int) =~= base);
}

/// A project lies inside the folder named after its hash: where the
/// package name is a relative path, the project folder, the source folder,
/// the source files and the manifest all begin with the hash folder's path.
pub proof fn lemma_project_inside_hash_folder(temp_dir: Seq<char>, project_hash: Seq<char>, project_name: Seq<char>)
    requires
        !(project_name.len() > 0 && project_name[0] == '/'),
    ensures
        ({
            let hashed = path_pushed(temp_dir, project_hash);
            let root = path_pushed(hashed, project_name);
            let src = path_pushed(root, "src"@);
            &&& begins_with(root, hashed)
            &&& begins_with(src, hashed)
            &&& begins_with(path_pushed(src, "main.rs"@), hashed)
            &&& begins_with(path_pushed(src, "lib.rs"@), hashed)
            &&& begins_with(path_pushed(root, "Cargo.toml"@), hashed)
        }),
{
    reveal_strlit("src");
    reveal_strlit("main.rs");
    reveal_strlit("lib.rs");
    reveal_strlit("Cargo.toml");
    let hashed = path_pushed(temp_dir, project_hash);
    let root = path_pushed(hashed, project_name);
    let src = path_pushed(root, "src"@);
    lemma_pushed_begins_with(hashed, project_name);
    lemma_pushed_begins_with(root, "src"@);
    lemma_pushed_begins_with(src, "main.rs"@);
    lemma_pushed_begins_with(src, "lib.rs"@);
    lemma_pushed_begins_with(root, "Cargo.toml"@);
    assert(src.take(hashed.len() as int) =~= root.take(hashed.len() as int));
    let m = path_pushed(src, "main.rs"@);
    let l = path_pushed(src, "lib.rs"@);
    let c = path_pushed(root, "Cargo.toml"@);
    assert(m.take(hashed.len() as int) =~= src.take(hashed.len() as int));
    assert(l.take(hashed.len() as int) =~= src.take(hashed.len() as int));
    assert(c.take(hashed.len() as int) =~= root.take(hashed.len() as int));
}

/// Extends the path `base` by `part`.
pub fn push_path(base: &str, part: &str) -> (r: String)
    ensures
        r@ == path_pushed(base@, part@),
{
    proof {
        reveal_strlit("/");
    }
    let part_chars = crate::text::chars_of(part);
    if part_chars.len() > 0 && part_chars[0] == '/' {
        return part.to_owned();
    }
    let base_chars = crate::text::chars_of(base);
    if base_chars.len() == 0 || base_chars[base_chars.len() - 1] == '/' {
        concat(base, part)
    } else {
        let mut r = concat(base, "/");
        r.append(part);
        r
    }
}

/// The file that gets the source code for a target kind: `main.rs` for a
/// binary, `lib.rs` for a library.
pub open spec fn source_target(k: TargetKind) -> ProjectFileTarget {
    match k {
        TargetKind::Bin => ProjectFileTarget::Main,
        TargetKind::Lib => ProjectFileTarget::Lib,
    }
}

/// The folders and files of a project: `<temp>/<hash>` holds the project
/// folder named after the package, which holds `src` and `Cargo.toml`; `src`
/// holds `main.rs` for a binary or `lib.rs` for a library.
pub struct Project {
    hashed_dir: String,
    root_dir: String,
    src_dir: String,
    main_file: Option<String>,
    lib_file: Option<String>,
    cargo_file: String,
}

impl Project {
    /// The folder named after the project's hash.
    pub closed spec fn hashed_dir(&self) -> Seq<char> {
        self.hashed_dir@
    }

    /// The project folder.
    pub closed spec fn root_dir(&self) -> Seq<char> {
        self.root_dir@
    }

    /// The source folder.
    pub closed spec fn src_dir(&self) -> Seq<char> {
        self.src_dir@
    }

    /// The path of a file of the project, if the project has it.
    pub closed spec fn file(&self, file: ProjectFileTarget) -> Option<Seq<char>> {
        match file {
            ProjectFileTarget::Main => match self.main_file {
                Some(p) => Some(p@),
                None => None,
            },
            ProjectFileTarget::Lib => match self.lib_file {
                Some(p) => Some(p@),
                None => None,
            },
            ProjectFileTarget::Cargo => Some(self.cargo_file@),
        }
    }

    /// Lays out the project `project_name` with hash `project_hash` under
    /// the folder `temp_dir`.
    pub fn new(temp_dir: &str, project_hash: &str, project_name: &str, target_kind: &TargetKind) -> (r: Project)
        ensures
            r.hashed_dir() == path_pushed(temp_dir@, project_hash@),
            r.root_dir() == path_pushed(r.hashed_dir(), project_name@),
            r.src_dir() == path_pushed(r.root_dir(), "src"@),
            r.file(ProjectFileTarget::Main) == (match *target_kind {
                TargetKind::Bin => Some(path_pushed(r.src_dir(), "main.rs"@)),
                TargetKind::Lib => None,
            }),
            r.file(ProjectFileTarget::Lib) == (match *target_kind {
                TargetKind::Bin => None,
                TargetKind::Lib => Some(path_pushed(r.src_dir(), "lib.rs"@)),
            }),
            r.file(ProjectFileTarget::Cargo) == Some(path_pushed(r.root_dir(), "Cargo.toml"@)),
    {
        let hashed_dir = push_path(temp_dir, project_hash);
        let root_dir = push_path(hashed_dir.as_str(), project_name);
        let src_dir = push_path(root_dir.as_str(), "src");
        let main_file = match target_kind {
            TargetKind::Bin => Some(push_path(src_dir.as_str(), "main.rs")),
            TargetKind::Lib => None,
        };
        let lib_file = match target_kind {
            TargetKind::Bin => None,
            TargetKind::Lib => Some(push_path(src_dir.as_str(), "lib.rs")),
        };
        let cargo_file = push_path(root_dir.as_str(), "Cargo.toml");
        Project { hashed_dir, root_dir, src_dir, main_file, lib_file, cargo_file }
    }

    /// The path of the file content for `file` is written into; an error
    /// where the project has no such file.
    pub fn write_to_file(&self, file: ProjectFileTarget) -> (r: Result<String, ProjectError>)
        ensures
            match (r, self.file(file)) {
                (Ok(p), Some(q)) => p@ == q,
                (Err(e), None) => e@ == ProjectErrorView::NoSuchFile,
                _ => false,
            },
    {
        match file {
            ProjectFileTarget::Main => match &self.main_file {
                Some(p) => Ok(copy_string(p)),
                None => Err(ProjectError::NoSuchFile),
            },
            ProjectFileTarget::Lib => match &self.lib_file {
                Some(p) => Ok(copy_string(p)),
                None => Err(ProjectError::NoSuchFile),
            },
            ProjectFileTarget::Cargo => Ok(copy_string(&self.cargo_file)),
        }
    }

    /// The folder named after the project's hash.
    pub fn get_hashed_dir_path(&self) -> (r: String)
        ensures
            r@ == self.hashed_dir(),
    {
        copy_string(&self.hashed_dir)
    }

    /// The project folder.
    pub fn get_root_dir_path(&self) -> (r: String)
        ensures
            r@ == self.root_dir(),
    {
        copy_string(&self.root_dir)
    }

    /// The source folder.
    pub fn get_src_dir_path(&self) -> (r: String)
        ensures
            r@ == self.src_dir(),
    {
        copy_string(&self.src_dir)
    }
}

/// The path of a starter's manifest in the content folder: the starter's
/// name with `.toml` appended.
pub fn starter_content_path(content_dir: &str, name: &str) -> (r: String)
    ensures
        r@ == path_pushed(content_dir@, name@ + ".toml"@),
{
    let file_name = concat(name, ".toml");
    push_path(content_dir, file_name.as_str())
}

/// The path of the archive of project `name` inside its hash folder.
pub fn zip_file_path(hashed_dir: &str, project_name: &str) -> (r: String)
    ensures
        r@ == path_pushed(hashed_dir@, project_name@ + ".zip"@),
{
    let file_name = concat(project_name, ".zip");
    push_path(hashed_dir, file_name.as_str())
}

} // verus!
