use hailsplay::fs::{is_contained, join, OwnedDir, OwnedFile, WorkingDirectory};

#[test]
fn working_directory_names_scratch_directories() {
    let root = WorkingDirectory::open_or_create("/var/lib/hailsplay/work".to_string());
    assert_eq!(root.path(), "/var/lib/hailsplay/work");
    let dir = root.create_dir("550e8400-e29b-41d4-a716-446655440000").unwrap();
    assert_eq!(dir.path(), "/var/lib/hailsplay/work/550e8400-e29b-41d4-a716-446655440000");
    assert!(root.create_dir("../elsewhere").is_none());
    assert!(root.create_dir("/elsewhere").is_none());
    assert!(root.create_dir("").is_none());
    assert_eq!(root.clone().path(), root.path());
}

#[test]
fn claimed_file_lies_inside_its_directory() {
    let dir = OwnedDir::create("/work/a".to_string()).into_shared();
    assert_eq!(dir.path(), "/work/a");
    let file = dir.claim_external_file("v1.opus").unwrap();
    assert_eq!(file.path(), "/work/a/v1.opus");
    let nested = dir.claim_external_file("sub/dir/v1.opus").unwrap();
    assert_eq!(nested.path(), "/work/a/sub/dir/v1.opus");
    let shared = file.into_shared();
    assert_eq!(shared.path(), "/work/a/v1.opus");
    assert_eq!(shared.clone().path(), "/work/a/v1.opus");
    assert_eq!(dir.clone().path(), "/work/a");
}

#[test]
fn claim_refuses_names_that_leave_the_directory() {
    let dir = OwnedDir::create("/work/a".to_string()).into_shared();
    for name in ["", "/etc/passwd", "..", "../b", "x/../../b", "x/..", "a/../b"] {
        assert!(dir.claim_external_file(name).is_none(), "{:?}", name);
    }
    for name in ["a..b", "...", "..a", "a..", ".", "./a", "a/.../b", "..a/b", "a/b.."] {
        assert!(dir.claim_external_file(name).is_some(), "{:?}", name);
    }
}

#[test]
fn contained_names() {
    assert!(is_contained("v1.opus"));
    assert!(is_contained("Title [id].info.json"));
    assert!(!is_contained("/v1.opus"));
    assert!(!is_contained("a/../b"));
}

#[test]
fn join_adds_one_separator() {
    assert_eq!(join("/archive", "v1.opus"), "/archive/v1.opus");
    assert_eq!(join("/archive/", "v1.opus"), "/archive/v1.opus");
    assert_eq!(join("", "v1.opus"), "v1.opus");
    assert_eq!(join("/", "v1.opus"), "/v1.opus");
    assert_eq!(join("rel", ""), "rel/");
}

#[test]
fn file_without_directory() {
    let file = OwnedFile::at("/tmp/icon.png".to_string());
    assert_eq!(file.path(), "/tmp/icon.png");
    assert_eq!(file.into_shared().path(), "/tmp/icon.png");
}
