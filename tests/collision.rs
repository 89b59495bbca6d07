use std::collections::BTreeSet;
use fsops::collision::resolve_target;
use fsops::error::ErrorKind;

#[test]
fn copies_get_numbered_names() {
    let mut present: BTreeSet<String> = BTreeSet::new();
    present.insert("dest/A.txt".to_string());
    let first = resolve_target("dest/A.txt", false, &|p: &str| present.contains(p)).unwrap();
    assert_eq!(first, "dest/A (copy).txt");
    present.insert(first);
    let second = resolve_target("dest/A.txt", false, &|p: &str| present.contains(p)).unwrap();
    assert_eq!(second, "dest/A (copy 2).txt");
    present.insert(second);
    let third = resolve_target("dest/A.txt", false, &|p: &str| present.contains(p)).unwrap();
    assert_eq!(third, "dest/A (copy 3).txt");
}

#[test]
fn free_target_is_kept() {
    assert_eq!(resolve_target("dest/B.txt", false, &|_p: &str| false).unwrap(), "dest/B.txt");
}

#[test]
fn directories_use_the_same_names() {
    let present = ["out/photos", "out/photos (copy)"];
    let r = resolve_target("out/photos", true, &|p: &str| present.contains(&p)).unwrap();
    assert_eq!(r, "out/photos (copy 2)");
}

#[test]
fn gives_up_after_the_limit() {
    let count = std::cell::Cell::new(0u32);
    let r = resolve_target("d/x.md", false, &|_p: &str| {
        count.set(count.get() + 1);
        true
    });
    let e = r.unwrap_err();
    assert_eq!(e.kind, ErrorKind::TooManyCollisions);
    assert_eq!(e.path, "d/x.md");
    // the path itself, then copy names 1 to 1000
    assert_eq!(count.get(), 1001);
}

#[test]
fn last_name_tried_is_copy_1000() {
    let r = resolve_target("d/x.md", false, &|p: &str| p != "d/x (copy 1000).md").unwrap();
    assert_eq!(r, "d/x (copy 1000).md");
}

#[test]
fn dotted_directory_keeps_whole_name() {
    let present = ["out/my.dir", "out/my.dir (copy)"];
    let r = resolve_target("out/my.dir", true, &|p: &str| present.contains(&p)).unwrap();
    assert_eq!(r, "out/my.dir (copy 2)");
    let r = resolve_target("out/my.dir", true, &|p: &str| p == "out/my.dir").unwrap();
    assert_eq!(r, "out/my.dir (copy)");
}

#[test]
fn dotted_file_splits_extension() {
    let r = resolve_target("out/my.dir", false, &|p: &str| p == "out/my.dir").unwrap();
    assert_eq!(r, "out/my (copy).dir");
}

#[test]
fn nameless_target_in_use_is_invalid() {
    let e = resolve_target("/", false, &|_p: &str| true).unwrap_err();
    assert_eq!(e.kind, ErrorKind::InvalidPath);
    assert_eq!(e.path, "/");
}
