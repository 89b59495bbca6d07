use fsops::error::{ErrorKind, PathStatus};
use fsops::transfer::{landing_path, plan_copy, plan_move, tree_copy_steps, CopyStep};
use fsops::tree::FileNode;

fn node(name: &str, path: &str, is_directory: bool, children: Option<Vec<FileNode>>) -> FileNode {
    FileNode {
        name: name.to_string(),
        path: path.to_string(),
        is_directory,
        children,
        size: if is_directory { None } else { Some(1) },
        modified: None,
    }
}

#[test]
fn copy_into_directory_with_same_name_is_renamed() {
    let present = ["dest/A.txt", "dest/A (copy).txt"];
    let plan = plan_copy("src/A.txt", PathStatus::File, "dest", PathStatus::Directory, &|p: &str| {
        present.contains(&p)
    })
    .unwrap();
    assert_eq!(plan.target, "dest/A (copy 2).txt");
    assert!(!plan.whole_tree);
}

#[test]
fn copy_of_dotted_directory_keeps_whole_name() {
    let plan = plan_copy("src/my.dir", PathStatus::Directory, "dest", PathStatus::Directory, &|p: &str| {
        p == "dest/my.dir"
    })
    .unwrap();
    assert_eq!(plan.target, "dest/my.dir (copy)");
    assert!(plan.whole_tree);
}

#[test]
fn copy_to_plain_path_keeps_it() {
    let plan = plan_copy("src/D", PathStatus::Directory, "elsewhere/E", PathStatus::Missing, &|_p: &str| false)
        .unwrap();
    assert_eq!(plan.target, "elsewhere/E");
    assert!(plan.whole_tree);
}

#[test]
fn copy_refusals() {
    let e = plan_copy("nope", PathStatus::Missing, "d", PathStatus::Directory, &|_p: &str| false).unwrap_err();
    assert_eq!((e.kind, e.path.as_str()), (ErrorKind::SourceMissing, "nope"));
    let e = plan_copy("fifo", PathStatus::Other, "d", PathStatus::Directory, &|_p: &str| false).unwrap_err();
    assert_eq!((e.kind, e.path.as_str()), (ErrorKind::WrongType, "fifo"));
    let e = plan_copy("/", PathStatus::Directory, "d", PathStatus::Directory, &|_p: &str| false).unwrap_err();
    assert_eq!((e.kind, e.path.as_str()), (ErrorKind::InvalidPath, "/"));
}

#[test]
fn move_onto_existing_entry_is_refused() {
    let e = plan_move("a/S", PathStatus::File, "d", PathStatus::Directory, &|p: &str| p == "d/S").unwrap_err();
    assert_eq!((e.kind, e.path.as_str()), (ErrorKind::DestinationExists, "d/S"));
}

#[test]
fn move_into_directory() {
    let t = plan_move("a/S", PathStatus::Directory, "d", PathStatus::Directory, &|_p: &str| false).unwrap();
    assert_eq!(t, "d/S");
    let t = plan_move("a/S", PathStatus::File, "b/T", PathStatus::Missing, &|_p: &str| false).unwrap();
    assert_eq!(t, "b/T");
    let e = plan_move("a/S", PathStatus::Missing, "d", PathStatus::Directory, &|_p: &str| false).unwrap_err();
    assert_eq!((e.kind, e.path.as_str()), (ErrorKind::SourceMissing, "a/S"));
}

#[test]
fn landing_joins_source_name() {
    assert_eq!(landing_path("x/y/report.pdf", "/tmp", PathStatus::Directory).unwrap(), "/tmp/report.pdf");
    assert_eq!(landing_path("x/y/report.pdf", "/tmp/r.pdf", PathStatus::File).unwrap(), "/tmp/r.pdf");
}

#[test]
fn directory_copy_reproduces_structure() {
    let tree = vec![
        node("a.txt", "D/a.txt", false, None),
        node("sub", "D/sub", true, Some(vec![node("b.txt", "D/sub/b.txt", false, None)])),
    ];
    let steps = tree_copy_steps("dest/D", &tree);
    assert_eq!(
        steps,
        vec![
            CopyStep::MakeDir("dest/D".to_string()),
            CopyStep::CopyFile("D/a.txt".to_string(), "dest/D/a.txt".to_string()),
            CopyStep::MakeDir("dest/D/sub".to_string()),
            CopyStep::CopyFile("D/sub/b.txt".to_string(), "dest/D/sub/b.txt".to_string()),
        ]
    );
}

#[test]
fn empty_directory_copy_only_creates_target() {
    let steps = tree_copy_steps("dest/E", &Vec::new());
    assert_eq!(steps, vec![CopyStep::MakeDir("dest/E".to_string())]);
}
