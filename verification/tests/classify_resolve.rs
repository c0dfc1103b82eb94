use fastzip::smart_dest::{classify_top_level, resolve_dest_from_entries, resolve_smart_dest};
use fastzip::{ArchiveFormat, CompressOptions, ZipSource};

fn strings(v: Vec<&str>) -> Vec<String> {
    v.into_iter().map(|s| s.to_string()).collect()
}

fn zip_of(names: Vec<(&str, bool)>) -> Vec<u8> {
    let sources: Vec<ZipSource> = names
        .into_iter()
        .map(|(n, is_dir)| ZipSource {
            name: n.to_string(),
            data: if is_dir { Vec::new() } else { b"x".to_vec() },
            is_dir,
        })
        .collect();
    fastzip::compress_to_zip(&sources, &CompressOptions::default()).unwrap()
}

fn unique_base(tag: &str) -> String {
    let nanos = std::time::SystemTime::now()
        .duration_since(std::time::UNIX_EPOCH)
        .unwrap()
        .as_nanos();
    format!("/tmp/fastzip-test-{}-{}", tag, nanos)
}

#[test]
fn test_classification_shapes() {
    // One root-level file.
    let t = classify_top_level(&strings(vec!["hello.txt"]));
    assert!(t.single_file);
    assert!(t.single_root_dir.is_none());
    assert_eq!(t.entries, strings(vec!["hello.txt"]));

    // One member with a nested path: neither single file nor single root.
    let t = classify_top_level(&strings(vec!["dir/file.txt"]));
    assert!(!t.single_file);
    assert!(t.single_root_dir.is_none());
    assert_eq!(t.entries, strings(vec!["dir"]));

    // All members under one shared root.
    let t = classify_top_level(&strings(vec![
        "photos/",
        "photos/img1.jpg",
        "photos/img2.jpg",
    ]));
    assert!(!t.single_file);
    assert_eq!(t.single_root_dir.as_deref(), Some("photos"));
    assert_eq!(t.entries, strings(vec!["photos"]));

    // Multiple roots: entries come out sorted and deduplicated.
    let t = classify_top_level(&strings(vec![
        "b/two.txt",
        "a/one.txt",
        "b/three.txt",
        "root.txt",
    ]));
    assert!(!t.single_file);
    assert!(t.single_root_dir.is_none());
    assert_eq!(t.entries, strings(vec!["a", "b", "root.txt"]));

    // A lone directory entry is not a single file.
    let t = classify_top_level(&strings(vec!["dir/"]));
    assert!(!t.single_file);
    assert!(t.single_root_dir.is_none());
    assert_eq!(t.entries, strings(vec!["dir"]));
}

#[test]
fn test_resolve_single_file_goes_to_base() {
    let t = classify_top_level(&strings(vec!["hello.txt"]));
    let base = unique_base("single");
    let d = resolve_dest_from_entries(&t, "archive.zip", &base).unwrap();
    assert_eq!(d, base);
}

#[test]
fn test_resolve_single_root_goes_to_base() {
    let t = classify_top_level(&strings(vec!["photos/img1.jpg", "photos/img2.jpg"]));
    let base = unique_base("root");
    let d = resolve_dest_from_entries(&t, "photos.zip", &base).unwrap();
    assert_eq!(d, base);
}

#[test]
fn test_resolve_multi_gets_named_subfolder() {
    let t = classify_top_level(&strings(vec!["a/one.txt", "b/two.txt"]));
    let base = unique_base("multi");
    let d = resolve_dest_from_entries(&t, "some/dir/multi.zip", &base).unwrap();
    assert_eq!(d, format!("{}/multi", base));
    // Compound extensions lose both the compression suffix and `.tar`.
    let d = resolve_dest_from_entries(&t, "backup.tar.gz", &base).unwrap();
    assert_eq!(d, format!("{}/backup", base));
}

#[test]
fn test_extract_zip_single_file_smart_dest() {
    let data = zip_of(vec![("hello.txt", false)]);
    let base = unique_base("zipsingle");
    let d = resolve_smart_dest("test.zip", &base, ArchiveFormat::Zip, &Some(data)).unwrap();
    assert_eq!(d, base);
}

#[test]
fn test_smart_single_root_extracts_to_base() {
    let data = zip_of(vec![
        ("photos/", true),
        ("photos/img1.jpg", false),
        ("photos/img2.jpg", false),
    ]);
    let base = unique_base("ziproot");
    let d = resolve_smart_dest("photos.zip", &base, ArchiveFormat::Zip, &Some(data)).unwrap();
    assert_eq!(d, base);
}

#[test]
fn test_smart_multi_top_level_creates_subfolder() {
    let data = zip_of(vec![("a/file1.txt", false), ("b/file2.txt", false)]);
    let base = unique_base("zipmulti");
    let d = resolve_smart_dest("multi.zip", &base, ArchiveFormat::Zip, &Some(data)).unwrap();
    assert_eq!(d, format!("{}/multi", base));
}
