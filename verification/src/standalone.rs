//! The standalone service: it reads its catalogue straight from the starter
//! files on each request and answers with plain-text messages.

use vstd::prelude::*;
use crate::handlers::Status;
use crate::starter::StarterDtoView;
use crate::manifest::workspace_view;
use crate::storage::{
    files_view, read_starter, starter_from_manifest, StarterFile, StarterFileError, StarterFileErrorView, StarterFileView,
};
use crate::text::{copy_string, copy_strings, opt_text, texts};

verus! {

/// Shown when a starter file cannot be read as a manifest.
pub const INVALID_FILES_ERROR_MASSAGE: &'static str = "Unfortunately something went wrong and ours files are invalid.";

/// Shown when the starter folder cannot be walked.
pub const DAMAGED_FILES_ERROR_MASSAGE: &'static str = "Unfortunately something went wrong and ours files are damaged.";

/// Shown when there is no starter at all.
pub const NOTHING_TO_OFFER_ERROR_MASSAGE: &'static str = "Unfortunately something went wrong and we have nothing to offer you :(";

/// A catalogue entry: the starter's name, the crates it brings, and what it
/// is for.
#[derive(Debug)]
pub struct StarterDto {
    pub name: String,
    pub creates: Vec<String>,
    pub common_description: String,
}

impl View for StarterDto {
    type V = StarterDtoView;

    open spec fn view(&self) -> StarterDtoView {
        StarterDtoView { name: self.name@, crates: texts(self.creates@), description: self.common_description@ }
    }
}

impl StarterDto {
    /// A catalogue entry with these fields.
    pub fn new(name: String, creates: Vec<String>, common_description: String) -> (r: StarterDto)
        ensures
            r.name@ == name@,
            r.creates@ == creates@,
            r.common_description@ == common_description@,
    {
        StarterDto { name, creates, common_description }
    }
}

/// The package fields of a description.
#[derive(Debug)]
pub struct PackageDescription {
    pub name: String,
    pub author: Option<String>,
    pub description: Option<String>,
}

/// Why the catalogue could not be read.
#[derive(Debug)]
pub enum StarterServiceError {
    /// The file at this path is no manifest that can be read.
    InvalidStarterManifest(String),
    /// No starter could be read at all.
    NoStartersProvided,
    /// Walking the starter folder failed, with the system's message.
    CannotReadMetadataOfStarterFile(String),
    /// The manifest at this path has no package section.
    MissingPackageSection(String),
}

/// The value of a `StarterServiceError`.
pub enum StarterServiceErrorView {
    InvalidStarterManifest(Seq<char>),
    NoStartersProvided,
    CannotReadMetadataOfStarterFile(Seq<char>),
    MissingPackageSection(Seq<char>),
}

impl View for StarterServiceError {
    type V = StarterServiceErrorView;

    open spec fn view(&self) -> StarterServiceErrorView {
        match self {
            StarterServiceError::InvalidStarterManifest(p) => StarterServiceErrorView::InvalidStarterManifest(p@),
            StarterServiceError::NoStartersProvided => StarterServiceErrorView::NoStartersProvided,
            StarterServiceError::CannotReadMetadataOfStarterFile(m) => StarterServiceErrorView::CannotReadMetadataOfStarterFile(m@),
            StarterServiceError::MissingPackageSection(p) => StarterServiceErrorView::MissingPackageSection(p@),
        }
    }
}

/// Why the generation of a project failed.
#[derive(Debug)]
pub enum DownloadServiceError {
    /// The project's hash could not be made.
    Hashing(String),
    /// The project could not be laid out.
    Generating(String),
    /// The project could not be compressed.
    Compressing(String),
}

/// The catalogue entry the manifest text at `path` describes, with the
/// workspace manifest found above it, as the starter catalogue reads it.
pub open spec fn entry_from_manifest(
    path: Seq<char>,
    text: Seq<char>,
    workspace: Option<(Seq<char>, Seq<char>)>,
) -> Result<StarterDtoView, StarterServiceErrorView> {
    match starter_from_manifest(path, text, workspace) {
        Ok(s) => Ok(s.starter_dto),
        Err(StarterFileErrorView::MissingPackageSection(p)) => Err(StarterServiceErrorView::MissingPackageSection(p)),
        Err(_) => Err(StarterServiceErrorView::InvalidStarterManifest(path)),
    }
}

/// The catalogue entries of the starter files, in order: a file that could
/// not be read (`None`) or does not describe a starter is passed over.
pub open spec fn entries_read(files: Seq<StarterFileView>) -> Seq<StarterDtoView>
    decreases files.len(),
{
    if files.len() == 0 {
        Seq::empty()
    } else {
        let earlier = entries_read(files.drop_last());
        match files.last().1 {
            None => earlier,
            Some(text) => match entry_from_manifest(files.last().0, text, files.last().2) {
                Ok(s) => earlier.push(s),
                Err(_) => earlier,
            },
        }
    }
}

/// Reads the catalogue entry of the manifest text at `stater_path`, with
/// the workspace manifest found above it, if any.
pub fn read_starter_entry(
    stater_path: &str,
    text: &str,
    workspace: &Option<(String, String)>,
) -> (r: Result<StarterDto, StarterServiceError>)
    ensures
        match r {
            Ok(d) => entry_from_manifest(stater_path@, text@, workspace_view(*workspace))
                == Ok::<StarterDtoView, StarterServiceErrorView>(d@),
            Err(e) => entry_from_manifest(stater_path@, text@, workspace_view(*workspace))
                == Err::<StarterDtoView, StarterServiceErrorView>(e@),
        },
{
    match read_starter(stater_path, text, workspace) {
        Ok(s) => Ok(StarterDto::new(
            copy_string(&s.starter_dto.name),
            copy_strings(&s.starter_dto.crates),
            copy_string(&s.starter_dto.description),
        )),
        Err(StarterFileError::MissingPackageSection(p)) => Err(StarterServiceError::MissingPackageSection(p)),
        Err(_) => Err(StarterServiceError::InvalidStarterManifest(stater_path.to_owned())),
    }
}

/// The views of a list of catalogue entries.
pub open spec fn entry_views(v: Seq<StarterDto>) -> Seq<StarterDtoView> {
    v.map_values(|d: StarterDto| d@)
}

/// Reads the catalogue from the starter files (each path with its text,
/// `None` where it could not be read); an error where none is a starter.
pub fn get_starters(files: &Vec<StarterFile>) -> (r: Result<Vec<StarterDto>, StarterServiceError>)
    ensures
        match r {
            Ok(v) => entry_views(v@) == entries_read(files_view(files@)) && v@.len() > 0,
            Err(e) => e@ == StarterServiceErrorView::NoStartersProvided && entries_read(files_view(files@)).len() == 0,
        },
{
    let ghost fv = files_view(files@);
    let mut starters: Vec<StarterDto> = Vec::new();
    let mut i: usize = 0;
    while i < files.len()
        invariant
            fv == files_view(files@),
            i <= files@.len(),
            entry_views(starters@) == entries_read(fv.take(i as int)),
        decreases files@.len() - i,
    {
        assert(fv.take(i + 1).drop_last() =~= fv.take(i as int));
        assert(fv.take(i + 1).last() == fv[i as int]);
        assert(fv[i as int] == (files@[i as int].0@, opt_text(files@[i as int].1), workspace_view(files@[i as int].2)));
        match &files[i].1 {
            Some(t) => match read_starter_entry(files[i].0.as_str(), t.as_str(), &files[i].2) {
                Ok(d) => {
                    let ghost before = starters@;
                    starters.push(d);
                    assert(entry_views(starters@) =~= entry_views(before).push(starters@[before.len() as int]@));
                },
                Err(_) => {},
            },
            None => {},
        }
        i = i + 1;
    }
    assert(fv.take(files@.len() as int) =~= fv);
    if starters.len() == 0 {
        return Err(StarterServiceError::NoStartersProvided);
    }
    Ok(starters)
}

/// What the standalone service answers.
#[derive(Debug)]
pub enum Reply {
    /// Status 200 with the catalogue entries as JSON.
    Starters(Vec<StarterDto>),
    /// Status 200 with a zip archive, offered as an attachment under the
    /// file name.
    Archive { file_name: String, content: Vec<u8> },
    /// An error status with a plain-text message.
    Failure { status: Status, message: String },
}

/// The value of a reply.
pub enum ReplyView {
    Starters(Seq<StarterDtoView>),
    Archive { file_name: Seq<char>, content: Seq<u8> },
    Failure { status: Status, message: Seq<char> },
}

impl View for Reply {
    type V = ReplyView;

    open spec fn view(&self) -> ReplyView {
        match self {
            Reply::Starters(v) => ReplyView::Starters(entry_views(v@)),
            Reply::Archive { file_name, content } => ReplyView::Archive { file_name: file_name@, content: content@ },
            Reply::Failure { status, message } => ReplyView::Failure { status: *status, message: message@ },
        }
    }
}

/// How the catalogue request answers a failure to read the catalogue.
pub open spec fn catalogue_failure(e: StarterServiceErrorView) -> ReplyView {
    match e {
        StarterServiceErrorView::InvalidStarterManifest(_) => ReplyView::Failure {
            status: Status::InternalServerError,
            message: INVALID_FILES_ERROR_MASSAGE@,
        },
        StarterServiceErrorView::NoStartersProvided => ReplyView::Failure {
            status: Status::NotImplemented,
            message: NOTHING_TO_OFFER_ERROR_MASSAGE@,
        },
        StarterServiceErrorView::CannotReadMetadataOfStarterFile(_) => ReplyView::Failure {
            status: Status::InternalServerError,
            message: DAMAGED_FILES_ERROR_MASSAGE@,
        },
        StarterServiceErrorView::MissingPackageSection(_) => ReplyView::Failure {
            status: Status::VariantAlsoNegotiates,
            message: INVALID_FILES_ERROR_MASSAGE@,
        },
    }
}

/// Answers a request for the catalogue, given what reading it returned.
pub fn starters(result: Result<Vec<StarterDto>, StarterServiceError>) -> (r: Reply)
    ensures
        match result {
            Ok(v) => r@ == ReplyView::Starters(entry_views(v@)),
            Err(e) => r@ == catalogue_failure(e@),
        },
{
    match result {
        Ok(v) => Reply::Starters(v),
        Err(e) => match e {
            StarterServiceError::InvalidStarterManifest(_) => Reply::Failure {
                status: Status::InternalServerError,
                message: INVALID_FILES_ERROR_MASSAGE.to_owned(),
            },
            StarterServiceError::NoStartersProvided => Reply::Failure {
                status: Status::NotImplemented,
                message: NOTHING_TO_OFFER_ERROR_MASSAGE.to_owned(),
            },
            StarterServiceError::CannotReadMetadataOfStarterFile(_) => Reply::Failure {
                status: Status::InternalServerError,
                message: DAMAGED_FILES_ERROR_MASSAGE.to_owned(),
            },
            StarterServiceError::MissingPackageSection(_) => Reply::Failure {
                status: Status::VariantAlsoNegotiates,
                message: INVALID_FILES_ERROR_MASSAGE.to_owned(),
            },
        },
    }
}

/// Answers a download request for a project named `project_name`, given
/// what the generation returned: the archive as `<name>.zip`, or status 500
/// with the generation's message.
pub fn download(project_name: &str, result: Result<Vec<u8>, String>) -> (r: Reply)
    ensures
        match result {
            Ok(bytes) => r@ == (ReplyView::Archive { file_name: project_name@ + ".zip"@, content: bytes@ }),
            Err(m) => r@ == (ReplyView::Failure { status: Status::InternalServerError, message: m@ }),
        },
{
    match result {
        Ok(bytes) => {
            let mut file_name = project_name.to_owned();
            file_name.append(".zip");
            Reply::Archive { file_name, content: bytes }
        },
        Err(m) => Reply::Failure { status: Status::InternalServerError, message: m },
    }
}

} // verus!
