use fsops::tree::{assemble_level, expands, listed_before_or_with, order_level, EntryInfo, FileNode};

fn entry(name: &str, is_directory: bool, len: u64) -> EntryInfo {
    EntryInfo {
        name: name.to_string(),
        path: format!("/root/{}", name),
        is_directory,
        len,
        modified: Some(1_700_000_000),
    }
}

fn names(nodes: &[FileNode]) -> Vec<&str> {
    nodes.iter().map(|n| n.name.as_str()).collect()
}

#[test]
fn level_is_directories_first_then_case_insensitive() {
    let entries = vec![
        entry("b.txt", false, 3),
        entry("Zeta", true, 4096),
        entry("A.txt", false, 10),
        entry("alpha", true, 4096),
        entry("C.md", false, 0),
    ];
    let level = assemble_level(entries, Vec::new());
    assert_eq!(names(&level), vec!["alpha", "Zeta", "A.txt", "b.txt", "C.md"]);
    for n in &level {
        if n.is_directory {
            assert_eq!(n.size, None);
            assert!(n.children.is_none());
        }
    }
    assert_eq!(level[2].size, Some(10));
    assert_eq!(level[4].size, Some(0));
    assert_eq!(level[0].modified, Some(1_700_000_000));
}

#[test]
fn expanded_children_are_kept() {
    let child = FileNode::from_entry(entry("inner.txt", false, 5), None);
    let entries = vec![entry("f.txt", false, 1), entry("sub", true, 4096)];
    let level = assemble_level(entries, vec![None, Some(vec![child])]);
    assert_eq!(names(&level), vec!["sub", "f.txt"]);
    let kids = level[0].children.as_ref().unwrap();
    assert_eq!(kids.len(), 1);
    assert_eq!(kids[0].name, "inner.txt");
    assert_eq!(level[1].children, None);
}

#[test]
fn files_never_hold_children() {
    let stray = FileNode::from_entry(entry("x", false, 1), None);
    let n = FileNode::from_entry(entry("file", false, 7), Some(vec![stray]));
    assert_eq!(n.children, None);
    assert_eq!(n.size, Some(7));
    let d = FileNode::from_entry(entry("dir", true, 4096), Some(Vec::new()));
    assert_eq!(d.children, Some(Vec::new()));
    assert_eq!(d.size, None);
}

#[test]
fn modified_stays_absent_when_unknown() {
    let mut e = entry("t", false, 1);
    e.modified = None;
    assert_eq!(FileNode::from_entry(e, None).modified, None);
}

#[test]
fn lowercase_decides_between_names() {
    // by code point "B" < "a"; lower-cased, "a" < "b"
    let a = FileNode::from_entry(entry("a", false, 1), None);
    let b = FileNode::from_entry(entry("B", false, 1), None);
    assert!(listed_before_or_with(&a, &b));
    assert!(!listed_before_or_with(&b, &a));
    let ordered = order_level(vec![b, a]);
    assert_eq!(names(&ordered), vec!["a", "B"]);
}

#[test]
fn empty_level() {
    assert!(assemble_level(Vec::new(), Vec::new()).is_empty());
}

#[test]
fn expansion_rule() {
    assert!(expands(true, true));
    assert!(!expands(true, false));
    assert!(!expands(false, true));
}

#[test]
fn equal_names_keep_listing_order() {
    let level = assemble_level(vec![entry("Readme", false, 1), entry("README", false, 2), entry("readme", false, 3)], Vec::new());
    assert_eq!(names(&level), vec!["Readme", "README", "readme"]);
    let level = assemble_level(vec![entry("readme", false, 3), entry("Readme", false, 1)], Vec::new());
    assert_eq!(names(&level), vec!["readme", "Readme"]);
}
