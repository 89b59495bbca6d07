use vstd::prelude::*;

verus! {

/// The kinds of failure that the checks and plans report. Failures of the
/// disk operations themselves are reported by whoever performs them.
#[derive(Debug, Clone, Copy, PartialEq, Eq, Structural)]
pub enum ErrorKind {
    /// The path does not exist.
    NotFound,
    /// The path exists and creation would overwrite it.
    AlreadyExists,
    /// The path exists but is of the other kind (file vs. directory).
    WrongType,
    /// The source of a rename, move or copy does not exist.
    SourceMissing,
    /// The target of a rename or move already exists.
    DestinationExists,
    /// Every name of the copy naming sequence is taken.
    TooManyCollisions,
    /// The path has no usable final component or parent.
    InvalidPath,
    /// Text handed in as base64 does not decode.
    InvalidData,
}

/// A failure: its kind and the path it concerns.
#[derive(Debug, Clone, PartialEq, Eq)]
pub struct FsError {
    pub kind: ErrorKind,
    pub path: String,
}

/// `r` is a failure of kind `k` that names the path `p`.
pub open spec fn fails_with<T>(r: Result<T, FsError>, k: ErrorKind, p: Seq<char>) -> bool {
    &&& r is Err
    &&& r->Err_0.kind == k
    &&& r->Err_0.path@ == p
}

impl FsError {
    /// A failure of kind `kind` about `path`.
    pub fn new(kind: ErrorKind, path: &str) -> (r: FsError)
        ensures
            r.kind == kind,
            r.path@ == path@,
    {
        FsError { kind, path: String::from_str(path) }
    }
}

/// What a probe of the filesystem found at a path.
#[derive(Debug, Clone, Copy, PartialEq, Eq, Structural)]
pub enum PathStatus {
    Missing,
    File,
    Directory,
    /// Something that is neither a regular file nor a directory.
    Other,
}

impl PathStatus {
    pub open spec fn present(self) -> bool {
        !(self is Missing)
    }

    /// Whether anything is present at the path.
    pub fn is_present(&self) -> (r: bool)
        ensures
            r == self.present(),
    {
        match self {
            PathStatus::Missing => false,
            _ => true,
        }
    }
}

} // verus!
