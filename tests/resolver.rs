use fsops::error::{ErrorKind, FsError, PathStatus};
use fsops::resolver::{check_create, check_directory, check_file, check_rename, parent_to_create, plan_delete, Removal};

fn err(kind: ErrorKind, path: &str) -> FsError {
    FsError { kind, path: path.to_string() }
}

#[test]
fn directory_check_kinds() {
    assert_eq!(check_directory("/x", PathStatus::Missing), Err(err(ErrorKind::NotFound, "/x")));
    assert_eq!(check_directory("/x", PathStatus::File), Err(err(ErrorKind::WrongType, "/x")));
    assert_eq!(check_directory("/x", PathStatus::Directory), Ok(()));
}

#[test]
fn file_check_kinds() {
    assert_eq!(check_file("/f", PathStatus::Missing), Err(err(ErrorKind::NotFound, "/f")));
    assert_eq!(check_file("/f", PathStatus::Directory), Err(err(ErrorKind::WrongType, "/f")));
    assert_eq!(check_file("/f", PathStatus::Other), Err(err(ErrorKind::WrongType, "/f")));
    assert_eq!(check_file("/f", PathStatus::File), Ok(()));
}

#[test]
fn create_twice_is_refused() {
    // first call: nothing there yet
    assert_eq!(check_create("/n.txt", PathStatus::Missing), Ok(()));
    // second call: the first one left a file behind
    assert_eq!(check_create("/n.txt", PathStatus::File), Err(err(ErrorKind::AlreadyExists, "/n.txt")));
    assert_eq!(check_create("/d", PathStatus::Directory), Err(err(ErrorKind::AlreadyExists, "/d")));
}

#[test]
fn rename_onto_existing_is_refused() {
    assert_eq!(
        check_rename("/a", PathStatus::File, "/b", PathStatus::File),
        Err(err(ErrorKind::DestinationExists, "/b"))
    );
    assert_eq!(
        check_rename("/a", PathStatus::Missing, "/b", PathStatus::File),
        Err(err(ErrorKind::SourceMissing, "/a"))
    );
    assert_eq!(check_rename("/a", PathStatus::Directory, "/b", PathStatus::Missing), Ok(()));
}

#[test]
fn delete_plans() {
    assert_eq!(plan_delete("/p", PathStatus::Missing), Err(err(ErrorKind::NotFound, "/p")));
    assert_eq!(plan_delete("/p", PathStatus::Directory), Ok(Removal::WholeTree));
    assert_eq!(plan_delete("/p", PathStatus::File), Ok(Removal::SingleEntry));
    assert!(PathStatus::File.is_present());
    assert!(!PathStatus::Missing.is_present());
}

#[test]
fn parent_of_written_file() {
    assert_eq!(parent_to_create("/home/u/notes/a.md"), Some("/home/u/notes".to_string()));
    assert_eq!(parent_to_create("/"), None);
}
