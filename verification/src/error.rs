use vstd::prelude::*;

verus! {

/// The step of a file operation that failed.
#[derive(Debug, Clone, Copy, PartialEq, Eq, Structural)]
pub enum IoStage {
    /// The file system could not be queried at that path.
    Stat,
    /// The file could not be opened.
    Open,
    /// The file was opened, but could not be read.
    Read,
    /// The file was opened, but the value was refused.
    Write,
    /// The directory could not be created.
    CreateDir,
    /// The directory could not be removed.
    RemoveDir,
    /// The init system refused a request.
    Request,
}

/// Why the host's hierarchy could not be classified.
#[derive(Debug, Clone, Copy, PartialEq, Eq, Structural)]
pub enum SetupFailure {
    /// The default root does not exist.
    RootMissing,
    /// The default root holds neither a unified hierarchy nor the in-memory
    /// file system under which the per-controller hierarchies are mounted.
    UnknownFilesystem,
}

/// Every way in which an operation of this crate fails. None is retried.
#[derive(Debug, Clone, PartialEq, Eq)]
pub enum CgroupError {
    /// The host's hierarchy cannot be classified.
    Setup(SetupFailure),
    /// A path was to be joined with a component that is neither empty nor
    /// absolute; the component is carried.
    Path(String),
    /// A file operation failed. The path is carried, and with it the error
    /// number by which the host said why, where the host gave one.
    Io(IoStage, String, Option<i32>),
    /// A file did not hold what its format asks for; the path is carried.
    Parse(String),
    /// The backend that was asked for is not part of this build.
    Config,
    /// What was asked for cannot be had: a backend that cannot work on this
    /// host, or a state of the freezer that can only be observed.
    Unsupported,
}

/// What a `CgroupError` says, with each path as the text that it is.
pub enum Failure {
    /// The host's hierarchy cannot be classified.
    Setup(SetupFailure),
    /// A path was to be joined with this component.
    Path(Seq<char>),
    /// A file operation failed at this path, with this error number of the
    /// host where it gave one.
    Io(IoStage, Seq<char>, Option<i32>),
    /// The file at this path did not hold what its format asks for.
    Parse(Seq<char>),
    /// The backend that was asked for is not part of this build.
    Config,
    /// What was asked for cannot be had.
    Unsupported,
}

impl View for CgroupError {
    type V = Failure;

    open spec fn view(&self) -> Failure {
        match *self {
            CgroupError::Setup(why) => Failure::Setup(why),
            CgroupError::Path(suffix) => Failure::Path(suffix@),
            CgroupError::Io(stage, path, errno) => Failure::Io(stage, path@, errno),
            CgroupError::Parse(path) => Failure::Parse(path@),
            CgroupError::Config => Failure::Config,
            CgroupError::Unsupported => Failure::Unsupported,
        }
    }
}

} // verus!
