use fastzip::normalize_entry_path;

#[test]
fn test_normalize_no_escape() {
    let p = normalize_entry_path("foo/../etc/passwd");
    assert_eq!(p.last().unwrap().as_str(), "passwd");
    assert_eq!(p.len(), 2);
}

#[test]
fn test_normalize_absolute() {
    let p = normalize_entry_path("/foo/bar");
    assert_eq!(p.last().unwrap().as_str(), "bar");
    assert_eq!(p.len(), 2);
}

#[test]
fn test_normalize_traversal_variants() {
    // A leading parent marker has nothing to pop and vanishes.
    assert_eq!(normalize_entry_path("../etc/passwd"), vec!["etc", "passwd"]);
    // Only parent markers: everything collapses away.
    assert_eq!(normalize_entry_path("../../.."), Vec::<String>::new());
    // Current-directory markers and empty pieces are dropped.
    assert_eq!(normalize_entry_path("./a//b/./c"), vec!["a", "b", "c"]);
    // A parent marker pops the component before it.
    assert_eq!(normalize_entry_path("a/b/../c"), vec!["a", "c"]);
    // Unicode components are kept verbatim.
    assert_eq!(normalize_entry_path("目录/文件.txt"), vec!["目录", "文件.txt"]);
    // No normalized result ever holds a parent marker.
    let p = normalize_entry_path("a/../../../b/../../c");
    for comp in &p {
        assert_ne!(comp, "..");
        assert_ne!(comp, ".");
        assert!(!comp.is_empty());
    }
}

#[test]
fn test_normalize_keeps_ordinary_paths() {
    assert_eq!(normalize_entry_path("root.txt"), vec!["root.txt"]);
    assert_eq!(normalize_entry_path("a/b/file1.txt"), vec!["a", "b", "file1.txt"]);
    assert_eq!(
        normalize_entry_path("x/y/z/deep.txt"),
        vec!["x", "y", "z", "deep.txt"]
    );
}
