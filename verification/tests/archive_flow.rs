use std::io::Write;

use fastzip::codecs::path_exists;
use fastzip::{
    compress_to_7z, compress_to_zip, extract_many, extract_one, extract_single_compressed,
    plan_compress_target, ArchiveFormat, CompressOptions, ExtractOptions, FastZipError,
    RarExtractor, SevenZExtractor, TarExtractor, ZipExtractor, ZipSource,
};

fn fresh_dir(tag: &str) -> String {
    let nanos = std::time::SystemTime::now()
        .duration_since(std::time::UNIX_EPOCH)
        .unwrap()
        .as_nanos();
    format!("/tmp/fastzip-flow-{}-{}", tag, nanos)
}

fn file_source(name: &str, data: &[u8]) -> ZipSource {
    ZipSource { name: name.to_string(), data: data.to_vec(), is_dir: false }
}

fn dir_source(name: &str) -> ZipSource {
    ZipSource { name: name.to_string(), data: Vec::new(), is_dir: true }
}

fn gzip_bytes(data: &[u8]) -> Vec<u8> {
    let mut e = flate2::write::GzEncoder::new(Vec::new(), flate2::Compression::default());
    e.write_all(data).unwrap();
    e.finish().unwrap()
}

fn tar_bytes(entries: Vec<(&str, &[u8])>) -> Vec<u8> {
    let mut b = tar::Builder::new(Vec::new());
    for (name, data) in entries {
        let mut h = tar::Header::new_gnu();
        h.set_size(data.len() as u64);
        h.set_mode(0o644);
        h.set_cksum();
        b.append_data(&mut h, name, data).unwrap();
    }
    b.into_inner().unwrap()
}

#[test]
fn test_zip_store_round_trip() {
    let sources = vec![
        file_source("a.txt", b"alpha"),
        dir_source("d"),
        file_source("d/b.bin", &[0u8, 1, 2, 255]),
    ];
    let bytes = compress_to_zip(&sources, &CompressOptions::default()).unwrap();
    // Reading every member back (the decrypting path also serves plain
    // archives) reproduces content and relative path exactly, in the
    // order the sources went in.
    let plan = ZipExtractor::extract(&bytes, "out", Some("unused")).unwrap();
    assert_eq!(plan.len(), 3);
    assert_eq!(plan[0].path, "out/a.txt");
    assert!(!plan[0].is_dir);
    assert_eq!(plan[0].data, b"alpha".to_vec());
    assert_eq!(plan[1].path, "out/d");
    assert!(plan[1].is_dir);
    assert_eq!(plan[2].path, "out/d/b.bin");
    assert_eq!(plan[2].data, vec![0u8, 1, 2, 255]);
}

#[test]
fn test_nested_directories_preserved() {
    let sources = vec![
        file_source("root.txt", b"root file"),
        file_source("a/b/file1.txt", b"level 2"),
        file_source("a/b/c/file2.txt", b"level 3"),
        file_source("x/y/z/deep.txt", b"deep nested"),
    ];
    let bytes = compress_to_zip(&sources, &CompressOptions::default()).unwrap();
    let plan = ZipExtractor::extract(&bytes, "out", Some("unused")).unwrap();
    assert_eq!(plan.len(), 4);
    assert_eq!(plan[0].path, "out/root.txt");
    assert_eq!(plan[0].data, b"root file".to_vec());
    assert_eq!(plan[1].path, "out/a/b/file1.txt");
    assert_eq!(plan[1].data, b"level 2".to_vec());
    assert_eq!(plan[2].path, "out/a/b/c/file2.txt");
    assert_eq!(plan[2].data, b"level 3".to_vec());
    assert_eq!(plan[3].path, "out/x/y/z/deep.txt");
    assert_eq!(plan[3].data, b"deep nested".to_vec());
}

#[test]
fn test_extract_zip_smart() {
    let sources = vec![file_source("hello.txt", b"Hello World")];
    let bytes = compress_to_zip(&sources, &CompressOptions::default()).unwrap();
    let dest = fresh_dir("zipsmart");
    let options = ExtractOptions { dest: Some(dest.clone()), ..Default::default() };
    let outcome = extract_one("test.zip", &Some(bytes), &options).unwrap();
    // A single root-level file goes straight into the base directory.
    assert_eq!(outcome.dest_dir, dest);
    assert!(outcome.outputs.is_empty());
    assert!(path_exists(&format!("{}/hello.txt", dest)));
}

#[test]
fn test_smart_duplicate_folder_uses_2_and_3() {
    let sources = vec![
        file_source("a/file1.txt", b"one"),
        file_source("b/file2.txt", b"two"),
    ];
    let bytes = compress_to_zip(&sources, &CompressOptions::default()).unwrap();
    let base = fresh_dir("dup");
    let options = ExtractOptions { dest: Some(base.clone()), ..Default::default() };
    let first = extract_one("multi.zip", &Some(bytes.clone()), &options).unwrap();
    assert_eq!(first.dest_dir, format!("{}/multi", base));
    assert!(path_exists(&format!("{}/multi/a/file1.txt", base)));
    let second = extract_one("multi.zip", &Some(bytes.clone()), &options).unwrap();
    assert_eq!(second.dest_dir, format!("{}/multi (2)", base));
    let third = extract_one("multi.zip", &Some(bytes), &options).unwrap();
    assert_eq!(third.dest_dir, format!("{}/multi (3)", base));
}

#[test]
fn test_tar_gz_extract() {
    let tarred = tar_bytes(vec![("hello.txt", b"Hello World".as_slice())]);
    let data = gzip_bytes(&tarred);
    // Listing sees the lone root-level member.
    let t = TarExtractor::list_top_level(&data, ArchiveFormat::TarGz).unwrap();
    assert!(t.single_file);
    assert_eq!(t.entries, vec!["hello.txt".to_string()]);
    // Extraction lands directly in the base directory.
    let dest = fresh_dir("targz");
    let options = ExtractOptions { dest: Some(dest.clone()), ..Default::default() };
    let outcome = extract_one("test.tar.gz", &Some(data), &options).unwrap();
    assert_eq!(outcome.dest_dir, dest);
    assert!(path_exists(&format!("{}/hello.txt", dest)));
}

#[test]
fn test_single_gz_extract_and_idempotence() {
    let data = gzip_bytes(b"Hello World");
    let dest = fresh_dir("gz");
    let (path, payload) = extract_single_compressed(
        "hello.txt.gz",
        &dest,
        ArchiveFormat::Gz,
        false,
        &Some(data),
    )
    .unwrap();
    assert_eq!(path, format!("{}/hello.txt", dest));
    assert_eq!(payload.unwrap(), b"Hello World".to_vec());

    // When the target already exists and overwrite is off, the same path
    // comes back with nothing to decompress; the bogus bytes prove that
    // the decoder never ran.
    let bogus = vec![1u8, 2, 3];
    let (p1, w1) =
        extract_single_compressed("etc.gz", "/", ArchiveFormat::Gz, false, &Some(bogus.clone()))
            .unwrap();
    assert_eq!(p1, "/etc");
    assert!(w1.is_none());
    let (p2, w2) =
        extract_single_compressed("etc.gz", "/", ArchiveFormat::Gz, false, &Some(bogus.clone()))
            .unwrap();
    assert_eq!(p2, p1);
    assert!(w2.is_none());
    // With overwrite on, the decoder does run and rejects the bogus bytes.
    match extract_single_compressed("etc.gz", "/", ArchiveFormat::Gz, true, &Some(bogus)) {
        Err(FastZipError::Io(_)) => {}
        other => panic!("unexpected: {:?}", other),
    }
}

#[test]
fn test_single_compressed_empty_name_is_rejected() {
    match extract_single_compressed(".tar.gz", "out", ArchiveFormat::Gz, true, &Some(Vec::new())) {
        Err(FastZipError::Other(_)) => {}
        other => panic!("unexpected: {:?}", other),
    }
}

#[test]
fn test_other_single_codecs_round_trip() {
    let dest = fresh_dir("codecs");
    let xz = {
        let mut e = xz2::write::XzEncoder::new(Vec::new(), 6);
        e.write_all(b"Hello World").unwrap();
        e.finish().unwrap()
    };
    let (p, w) =
        extract_single_compressed("h.txt.xz", &dest, ArchiveFormat::Xz, false, &Some(xz)).unwrap();
    assert_eq!(p, format!("{}/h.txt", dest));
    assert_eq!(w.unwrap(), b"Hello World".to_vec());

    let bz = {
        let mut e = bzip2::write::BzEncoder::new(Vec::new(), bzip2::Compression::best());
        e.write_all(b"Hello World").unwrap();
        e.finish().unwrap()
    };
    let (p, w) =
        extract_single_compressed("h.txt.bz2", &dest, ArchiveFormat::Bz2, false, &Some(bz))
            .unwrap();
    assert_eq!(p, format!("{}/h.txt", dest));
    assert_eq!(w.unwrap(), b"Hello World".to_vec());

    let zs = zstd::encode_all(&b"Hello World"[..], 0).unwrap();
    let (p, w) =
        extract_single_compressed("h.txt.zst", &dest, ArchiveFormat::Zst, false, &Some(zs))
            .unwrap();
    assert_eq!(p, format!("{}/h.txt", dest));
    assert_eq!(w.unwrap(), b"Hello World".to_vec());
}

#[test]
fn test_extract_many_isolates_failures() {
    let good = gzip_bytes(b"payload");
    let dest = fresh_dir("many");
    let options = ExtractOptions { dest: Some(dest.clone()), ..Default::default() };
    let archives = vec![
        ("data.txt.gz".to_string(), Some(good)),
        ("missing.zip".to_string(), None),
    ];
    let results = extract_many(&archives, &options);
    assert_eq!(results.len(), 2);
    let ok = results[0].as_ref().unwrap();
    assert_eq!(ok.dest_dir, dest);
    assert_eq!(ok.outputs.len(), 1);
    assert_eq!(ok.outputs[0].data, b"payload".to_vec());
    match results[1].as_ref() {
        Err(FastZipError::FileNotFound(p)) => assert_eq!(p, "missing.zip"),
        other => panic!("unexpected: {:?}", other),
    }
}

#[test]
fn test_sevenz_round_trip() {
    // Materialize a small file on disk through the ZIP codec, pack it as
    // 7z, then list and unpack it again.
    let dir = fresh_dir("sevenz");
    let staging = compress_to_zip(
        &vec![file_source("src.txt", b"seven zip payload")],
        &CompressOptions::default(),
    )
    .unwrap();
    let options = ExtractOptions { dest: Some(dir.clone()), ..Default::default() };
    extract_one("staging.zip", &Some(staging), &options).unwrap();
    let src = format!("{}/src.txt", dir);
    assert!(path_exists(&src));

    let archive = format!("{}/a.7z", dir);
    compress_to_7z(&src, &archive).unwrap();
    assert!(path_exists(&archive));

    let t = SevenZExtractor::list_top_level(&archive).unwrap();
    assert_eq!(t.entries, vec!["src.txt".to_string()]);
    assert!(t.single_file);

    let out = format!("{}/out", dir);
    SevenZExtractor::extract(&archive, &out, None).unwrap();
    assert!(path_exists(&format!("{}/src.txt", out)));
}

#[test]
fn test_compress_to_7z_missing_source() {
    match compress_to_7z("/no/such/source", "/tmp/fastzip-nowhere.7z") {
        Err(FastZipError::FileNotFound(p)) => assert_eq!(p, "/no/such/source"),
        other => panic!("unexpected: {:?}", other),
    }
}

#[test]
fn test_encrypted_zip_requires_password() {
    // Build an AES-encrypted archive with the codec directly.
    let mut w = zip::ZipWriter::new(std::io::Cursor::new(Vec::new()));
    let opts = zip::write::SimpleFileOptions::default()
        .compression_method(zip::CompressionMethod::Stored)
        .with_aes_encryption(zip::AesMode::Aes256, "secret");
    w.start_file("hidden.txt", opts).unwrap();
    w.write_all(b"classified").unwrap();
    let data = w.finish().unwrap().into_inner();

    // Listing needs no password: names come from the central directory.
    let t = ZipExtractor::list_top_level(&data).unwrap();
    assert_eq!(t.entries, vec!["hidden.txt".to_string()]);

    // Reading content without a password fails with PasswordRequired...
    match ZipExtractor::read_entries_decrypted(&data, "out", "wrong-password") {
        Err(FastZipError::PasswordRequired) => {}
        Err(FastZipError::Zip(_)) => {}
        other => panic!("unexpected: {:?}", other),
    }
    // ...and succeeds with the right one.
    let plan = ZipExtractor::extract(&data, "out", Some("secret")).unwrap();
    assert_eq!(plan.len(), 1);
    assert_eq!(plan[0].path, "out/hidden.txt");
    assert_eq!(plan[0].data, b"classified".to_vec());
}

#[test]
fn test_corrupt_streams_report_their_format() {
    let garbage = vec![9u8; 64];
    match ZipExtractor::list_top_level(&garbage) {
        Err(FastZipError::Zip(_)) => {}
        other => panic!("unexpected: {:?}", other),
    }
    match TarExtractor::list_top_level(&garbage, ArchiveFormat::TarGz) {
        Err(FastZipError::Tar(_)) => {}
        other => panic!("unexpected: {:?}", other),
    }
    match SevenZExtractor::list_top_level("/no/such/archive.7z") {
        Err(FastZipError::SevenZ(_)) => {}
        other => panic!("unexpected: {:?}", other),
    }
}

#[test]
fn test_rar_is_reported_unsupported() {
    match RarExtractor::list_top_level("whatever.rar") {
        Err(FastZipError::UnsupportedFormat(m)) => assert_eq!(m, "RAR"),
        other => panic!("unexpected: {:?}", other),
    }
    match RarExtractor::extract("whatever.rar", "out", None) {
        Err(FastZipError::UnsupportedFormat(_)) => {}
        other => panic!("unexpected: {:?}", other),
    }
}

#[test]
fn test_flat_mode_uses_archive_stem() {
    let sources = vec![
        file_source("a/file1.txt", b"one"),
        file_source("b/file2.txt", b"two"),
    ];
    let bytes = compress_to_zip(&sources, &CompressOptions::default()).unwrap();
    let base = fresh_dir("flat");
    let options = ExtractOptions {
        dest: Some(base.clone()),
        smart: false,
        ..Default::default()
    };
    let outcome = extract_one("multi.zip", &Some(bytes), &options).unwrap();
    assert_eq!(outcome.dest_dir, format!("{}/multi", base));
    assert!(path_exists(&format!("{}/multi/b/file2.txt", base)));
}

#[test]
fn test_preview_names_and_entries() {
    assert_eq!(fastzip::format_name(&ArchiveFormat::Zip), "ZIP");
    assert_eq!(fastzip::format_name(&ArchiveFormat::SevenZ), "7z");
    assert_eq!(fastzip::format_name(&ArchiveFormat::TarGz), "TAR.GZ");
    assert_eq!(fastzip::format_name(&ArchiveFormat::Zst), "ZST");
    let sources = vec![
        file_source("b/two.txt", b"2"),
        file_source("a/one.txt", b"1"),
    ];
    let bytes = compress_to_zip(&sources, &CompressOptions::default()).unwrap();
    let (name, entries) = fastzip::list_top_level("p.zip", &Some(bytes)).unwrap();
    assert_eq!(name, "ZIP");
    assert_eq!(entries, vec!["a".to_string(), "b".to_string()]);
}

#[test]
fn test_cli_smart_flag_resolution() {
    let base = fastzip::ExtractArgs {
        archive: vec!["a.zip".to_string()],
        dest: None,
        smart: true,
        flat: false,
        overwrite: false,
        password: None,
        quiet: false,
    };
    assert!(base.smart());
    let flat = fastzip::ExtractArgs { flat: true, ..base.clone() };
    assert!(!flat.smart());
    let neither = fastzip::ExtractArgs { smart: false, ..base };
    assert!(!neither.smart());
}

#[test]
fn test_unicode_names_survive_the_round_trip() {
    let sources = vec![file_source("目录/文件.txt", "内容".as_bytes())];
    let bytes = compress_to_zip(&sources, &CompressOptions::default()).unwrap();
    let plan = ZipExtractor::extract(&bytes, "out", Some("unused")).unwrap();
    assert_eq!(plan.len(), 1);
    assert_eq!(plan[0].path, "out/目录/文件.txt");
    assert_eq!(plan[0].data, "内容".as_bytes().to_vec());
}

#[test]
fn test_default_base_is_archive_parent() {
    let dir = fresh_dir("parent");
    let data = gzip_bytes(b"next to the archive");
    let options = ExtractOptions::default();
    let outcome = extract_one(&format!("{}/data.txt.gz", dir), &Some(data), &options).unwrap();
    assert_eq!(outcome.dest_dir, dir);
    assert_eq!(outcome.outputs.len(), 1);
    assert_eq!(outcome.outputs[0].path, format!("{}/data.txt", dir));
}

#[test]
fn test_compress_refuses_duplicate_names() {
    let sources = vec![
        file_source("same.txt", b"first"),
        file_source("same.txt", b"second"),
    ];
    assert!(compress_to_zip(&sources, &CompressOptions::default()).is_err());
}

#[test]
fn test_compress_deflate_round_trips_too() {
    let sources = vec![file_source("a.txt", b"squeeze me please, repeatedly, repeatedly")];
    let options = CompressOptions { fast: false, ..Default::default() };
    let bytes = compress_to_zip(&sources, &options).unwrap();
    let plan = ZipExtractor::extract(&bytes, "out", Some("unused")).unwrap();
    assert_eq!(plan.len(), 1);
    assert_eq!(plan[0].data, b"squeeze me please, repeatedly, repeatedly".to_vec());
}

#[test]
fn test_plan_compress_target() {
    assert_eq!(plan_compress_target(1, "out.7z").unwrap(), ArchiveFormat::SevenZ);
    assert_eq!(plan_compress_target(1, "dir/out.ZIP").unwrap(), ArchiveFormat::Zip);
    assert_eq!(plan_compress_target(3, "out.zip").unwrap(), ArchiveFormat::Zip);
    assert!(matches!(plan_compress_target(0, "out.zip"), Err(FastZipError::Other(_))));
    assert!(matches!(plan_compress_target(2, "out.7z"), Err(FastZipError::Other(_))));
    assert!(matches!(plan_compress_target(1, "out.rar"), Err(FastZipError::Other(_))));
    assert!(matches!(plan_compress_target(1, "plain"), Err(FastZipError::Other(_))));
}

#[test]
fn test_option_defaults() {
    let e = ExtractOptions::default();
    assert!(e.dest.is_none());
    assert!(e.smart);
    assert!(!e.overwrite);
    assert!(e.password.is_none());
    let c = CompressOptions::default();
    assert!(c.recursive);
    assert!(c.password.is_none());
    assert!(c.fast);
}
