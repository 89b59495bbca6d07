use vstd::prelude::*;
use crate::error::{ErrorKind, FsError, PathStatus, fails_with};
use crate::paths::{parent_dir, parent_of};

verus! {

/// `read_directory` lists an existing directory and nothing else.
pub fn check_directory(path: &str, status: PathStatus) -> (r: Result<(), FsError>)
    ensures
        status is Missing ==> fails_with(r, ErrorKind::NotFound, path@),
        (status is File || status is Other) ==> fails_with(r, ErrorKind::WrongType, path@),
        status is Directory ==> r is Ok,
{
    match status {
        PathStatus::Missing => Err(FsError::new(ErrorKind::NotFound, path)),
        PathStatus::Directory => Ok(()),
        _ => Err(FsError::new(ErrorKind::WrongType, path)),
    }
}


/// `read_file` and `read_file_binary` read an existing regular file and nothing else.
pub fn check_file(path: &str, status: PathStatus) -> (r: Result<(), FsError>)
    ensures
        status is Missing ==> fails_with(r, ErrorKind::NotFound, path@),
        (status is Directory || status is Other) ==> fails_with(r, ErrorKind::WrongType, path@),
        status is File ==> r is Ok,
{
    match status {
        PathStatus::Missing => Err(FsError::new(ErrorKind::NotFound, path)),
        PathStatus::File => Ok(()),
        _ => Err(FsError::new(ErrorKind::WrongType, path)),
    }
}

/// `create_file` and `create_directory` never replace what is there.
pub fn check_create(path: &str, status: PathStatus) -> (r: Result<(), FsError>)
    ensures
        status.present() ==> fails_with(r, ErrorKind::AlreadyExists, path@),
        !status.present() ==> r is Ok,
{
    if status.is_present() {
        Err(FsError::new(ErrorKind::AlreadyExists, path))
    } else {
        Ok(())
    }
}

/// `rename_path` needs its source present and its target free; it never overwrites.
pub fn check_rename(old_path: &str, old_status: PathStatus, new_path: &str, new_status: PathStatus) -> (r: Result<(), FsError>)
    ensures
        !old_status.present() ==> fails_with(r, ErrorKind::SourceMissing, old_path@),
        old_status.present() && new_status.present() ==> fails_with(r, ErrorKind::DestinationExists, new_path@),
        r is Ok <==> old_status.present() && !new_status.present(),
{
    if !old_status.is_present() {
        Err(FsError::new(ErrorKind::SourceMissing, old_path))
    } else if new_status.is_present() {
        Err(FsError::new(ErrorKind::DestinationExists, new_path))
    } else {
        Ok(())
    }
}

/// How a present path is removed.
#[derive(Debug, Clone, Copy, PartialEq, Eq, Structural)]
pub enum Removal {
    /// The directory and everything below it.
    WholeTree,
    /// The single entry.
    SingleEntry,
}

/// `delete_path` removes directories with their contents, anything else alone.
pub fn plan_delete(path: &str, status: PathStatus) -> (r: Result<Removal, FsError>)
    ensures
        !status.present() ==> fails_with(r, ErrorKind::NotFound, path@),
        status is Directory ==> r == Ok::<Removal, FsError>(Removal::WholeTree),
        (status is File || status is Other) ==> r == Ok::<Removal, FsError>(Removal::SingleEntry),
{
    match status {
        PathStatus::Missing => Err(FsError::new(ErrorKind::NotFound, path)),
        PathStatus::Directory => Ok(Removal::WholeTree),
        _ => Ok(Removal::SingleEntry),
    }
}

/// The directory to create before writing `path`: its parent, if it has one.
pub fn parent_to_create(path: &str) -> (r: Option<String>)
    ensures
        r is Some <==> parent_of(path@) is Some,
        r is Some ==> r->Some_0@ == parent_of(path@)->Some_0,
{
    parent_dir(path)
}

} // verus!
