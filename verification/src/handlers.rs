//! What the web service answers: the starter list, the generated archive, or
//! an error status with a message for the user.

use vstd::prelude::*;
use crate::project_generation_service::{GenerationErrorView, ProjectGeneratingServiceError};
use crate::starter::{Starter, StarterDto, StarterDtoView};
use crate::storage::{InMemoryStorage, MapStorageError, MapStorageErrorView, StarterService};

verus! {

/// Shown when the starter files cannot be read back.
pub const INVALID_FILES_ERROR_MASSAGE: &'static str = "Unfortunately something went wrong and ours files are invalid.";

/// Shown when a starter's file is missing or broken.
pub const DAMAGED_FILES_ERROR_MASSAGE: &'static str = "Unfortunately something went wrong and ours files are damaged.";

/// Shown when a project cannot be generated.
pub const GENERATION_FAILURE_ERROR_MASSAGE: &'static str = "Unfortunately something went wrong and we cannot generate this project.";

/// Shown when a starter cannot be found.
pub const CANNOT_FIND_FILES_ERROR_MASSAGE: &'static str = "Unfortunately something went wrong and we cannot find starter.";

/// Shown for any other failure.
pub const UNKNOWN_ERROR_MASSAGE: &'static str = "Unfortunately something went wrong.";

/// The state every request shares: the starter service over the starters
/// held in memory.
pub struct AppContext {
    pub starter_service: StarterService<InMemoryStorage>,
}

/// An error status the service answers with.
#[derive(Clone, Copy, Debug, PartialEq, Eq, Structural)]
pub enum Status {
    /// 500.
    InternalServerError,
    /// 501.
    NotImplemented,
    /// 506.
    VariantAlsoNegotiates,
}

impl Status {
    /// The numeric code of the status.
    pub fn code(&self) -> (r: u16)
        ensures
            r == status_code(*self),
    {
        match self {
            Status::InternalServerError => 500,
            Status::NotImplemented => 501,
            Status::VariantAlsoNegotiates => 506,
        }
    }
}

/// The numeric code of a status.
pub open spec fn status_code(s: Status) -> u16 {
    match s {
        Status::InternalServerError => 500,
        Status::NotImplemented => 501,
        Status::VariantAlsoNegotiates => 506,
    }
}

/// What a handler answers.
#[derive(Debug)]
pub enum Reply {
    /// Status 200 with the starters' catalogue entries as JSON.
    Starters(Vec<StarterDto>),
    /// Status 200 with a zip archive, offered as an attachment under the
    /// file name.
    Archive { file_name: String, content: Vec<u8> },
    /// An error status with a message sent as a JSON string.
    Failure { status: Status, message: String },
}

/// The value of a reply.
pub enum ReplyView {
    Starters(Seq<StarterDtoView>),
    Archive { file_name: Seq<char>, content: Seq<u8> },
    Failure { status: Status, message: Seq<char> },
}

impl View for Reply {
    type V = ReplyView;

    open spec fn view(&self) -> ReplyView {
        match self {
            Reply::Starters(v) => ReplyView::Starters(v@.map_values(|d: StarterDto| d@)),
            Reply::Archive { file_name, content } => ReplyView::Archive { file_name: file_name@, content: content@ },
            Reply::Failure { status, message } => ReplyView::Failure { status: *status, message: message@ },
        }
    }
}

/// How the starter list answers a storage failure: status 500 with a message
/// by the kind of failure.
pub open spec fn storage_failure(e: MapStorageErrorView) -> ReplyView {
    ReplyView::Failure {
        status: Status::InternalServerError,
        message: match e {
            MapStorageErrorView::Unknown(_) => UNKNOWN_ERROR_MASSAGE@,
            MapStorageErrorView::DeserializeFailed(_) => INVALID_FILES_ERROR_MASSAGE@,
            MapStorageErrorView::SerializeFailed(_) => INVALID_FILES_ERROR_MASSAGE@,
            MapStorageErrorView::KeyNotFound(_) => CANNOT_FIND_FILES_ERROR_MASSAGE@,
        },
    }
}

/// How the download answers a generation failure: a starter's file that is
/// missing or cannot be parsed gives 506 and the damaged-files message,
/// anything else 500 and the generation-failure message.
pub open spec fn generation_failure(e: GenerationErrorView) -> ReplyView {
    match e {
        GenerationErrorView::CouldNotGetStarterContent(_) => ReplyView::Failure {
            status: Status::VariantAlsoNegotiates,
            message: DAMAGED_FILES_ERROR_MASSAGE@,
        },
        GenerationErrorView::CouldNotParseStarterManifest => ReplyView::Failure {
            status: Status::VariantAlsoNegotiates,
            message: DAMAGED_FILES_ERROR_MASSAGE@,
        },
        _ => ReplyView::Failure { status: Status::InternalServerError, message: GENERATION_FAILURE_ERROR_MASSAGE@ },
    }
}

/// The catalogue entries of starters, in order.
pub open spec fn catalogue(v: Seq<Starter>) -> Seq<StarterDtoView> {
    v.map_values(|s: Starter| s@.starter_dto)
}

/// Answers a request for the starter list, given what the starter service
/// returned: the catalogue entries of the starters, or the error status and
/// message for the failure.
pub fn starters(result: Result<Vec<Starter>, MapStorageError>) -> (r: Reply)
    ensures
        match result {
            Ok(v) => r@ == ReplyView::Starters(catalogue(v@)),
            Err(e) => r@ == storage_failure(e@),
        },
{
    match result {
        Ok(v) => {
            let mut dtos: Vec<StarterDto> = Vec::new();
            let mut i: usize = 0;
            while i < v.len()
                invariant
                    i <= v@.len(),
                    dtos@.map_values(|d: StarterDto| d@) == catalogue(v@).take(i as int),
                decreases v@.len() - i,
            {
                let ghost before = dtos@;
                dtos.push(v[i].starter_dto.duplicate());
                assert(dtos@.map_values(|d: StarterDto| d@) =~= before.map_values(|d: StarterDto| d@).push(
                    v@[i as int]@.starter_dto,
                ));
                assert(catalogue(v@).take(i + 1) =~= catalogue(v@).take(i as int).push(v@[i as int]@.starter_dto));
                i = i + 1;
            }
            assert(catalogue(v@).take(v@.len() as int) =~= catalogue(v@));
            Reply::Starters(dtos)
        },
        Err(e) => {
            let message = match &e {
                MapStorageError::Unknown(_) => UNKNOWN_ERROR_MASSAGE,
                MapStorageError::DeserializeFailed(_) => INVALID_FILES_ERROR_MASSAGE,
                MapStorageError::SerializeFailed(_) => INVALID_FILES_ERROR_MASSAGE,
                MapStorageError::KeyNotFound(_) => CANNOT_FIND_FILES_ERROR_MASSAGE,
            };
            Reply::Failure { status: Status::InternalServerError, message: message.to_owned() }
        },
    }
}

/// Answers a download request for a project named `project_name`, given
/// what the generation returned: the archive as `<name>.zip`, or the error
/// status and message for the failure.
pub fn download(project_name: &str, result: Result<Vec<u8>, ProjectGeneratingServiceError>) -> (r: Reply)
    ensures
        match result {
            Ok(bytes) => r@ == (ReplyView::Archive { file_name: project_name@ + ".zip"@, content: bytes@ }),
            Err(e) => r@ == generation_failure(e@),
        },
{
    match result {
        Ok(bytes) => {
            let mut file_name = project_name.to_owned();
            file_name.append(".zip");
            Reply::Archive { file_name, content: bytes }
        },
        Err(e) => match e {
            ProjectGeneratingServiceError::CouldNotGetStarterContent(_)
            | ProjectGeneratingServiceError::CouldNotParseStarterManifest(_) => Reply::Failure {
                status: Status::VariantAlsoNegotiates,
                message: DAMAGED_FILES_ERROR_MASSAGE.to_owned(),
            },
            _ => Reply::Failure {
                status: Status::InternalServerError,
                message: GENERATION_FAILURE_ERROR_MASSAGE.to_owned(),
            },
        },
    }
}

} // verus!
