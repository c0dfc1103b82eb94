use fastzip::{detect_format, ArchiveFormat, FastZipError};

#[test]
fn test_format_from_extension() {
    assert_eq!(ArchiveFormat::from_extension("a.zip"), Some(ArchiveFormat::Zip));
    assert_eq!(ArchiveFormat::from_extension("a.7z"), Some(ArchiveFormat::SevenZ));
    assert_eq!(ArchiveFormat::from_extension("a.tar.gz"), Some(ArchiveFormat::TarGz));
    assert_eq!(ArchiveFormat::from_extension("a.tgz"), Some(ArchiveFormat::TarGz));
    assert_eq!(ArchiveFormat::from_extension("a.gz"), Some(ArchiveFormat::Gz));
    assert_eq!(ArchiveFormat::from_extension("a.xz"), Some(ArchiveFormat::Xz));
    assert_eq!(ArchiveFormat::from_extension("a.bz2"), Some(ArchiveFormat::Bz2));
    assert_eq!(ArchiveFormat::from_extension("a.zst"), Some(ArchiveFormat::Zst));
}

#[test]
fn test_tar_gz_format_detection() {
    let format = detect_format("test.tar.gz", &None).unwrap();
    assert_eq!(format, ArchiveFormat::TarGz);
}

#[test]
fn test_detect_zip_format() {
    let sources = vec![fastzip::ZipSource {
        name: "hello.txt".to_string(),
        data: b"Hello World".to_vec(),
        is_dir: false,
    }];
    let bytes = fastzip::compress_to_zip(&sources, &fastzip::CompressOptions::default()).unwrap();
    assert_eq!(detect_format("test.zip", &None).unwrap(), ArchiveFormat::Zip);
    assert_eq!(detect_format("noext", &Some(bytes)).unwrap(), ArchiveFormat::Zip);
}

#[test]
fn test_every_extension_maps_to_its_format() {
    let cases = vec![
        ("a.zip", ArchiveFormat::Zip),
        ("a.ZIP", ArchiveFormat::Zip),
        ("a.7z", ArchiveFormat::SevenZ),
        ("a.tar", ArchiveFormat::Tar),
        ("a.tgz", ArchiveFormat::TarGz),
        ("a.txz", ArchiveFormat::TarXz),
        ("a.tbz2", ArchiveFormat::TarBz2),
        ("a.tb2", ArchiveFormat::TarBz2),
        ("a.tzst", ArchiveFormat::TarZst),
        ("a.gz", ArchiveFormat::Gz),
        ("a.gzip", ArchiveFormat::Gz),
        ("a.xz", ArchiveFormat::Xz),
        ("a.lzma", ArchiveFormat::Xz),
        ("a.bz2", ArchiveFormat::Bz2),
        ("a.bzip2", ArchiveFormat::Bz2),
        ("a.zst", ArchiveFormat::Zst),
        ("a.zstd", ArchiveFormat::Zst),
        ("a.tar.gz", ArchiveFormat::TarGz),
        ("a.tar.tgz", ArchiveFormat::TarGz),
        ("a.tar.xz", ArchiveFormat::TarXz),
        ("a.tar.txz", ArchiveFormat::TarXz),
        ("a.tar.bz2", ArchiveFormat::TarBz2),
        ("a.tar.tbz2", ArchiveFormat::TarBz2),
        ("a.tar.tb2", ArchiveFormat::TarBz2),
        ("a.tar.zst", ArchiveFormat::TarZst),
        ("a.tar.tzst", ArchiveFormat::TarZst),
        ("dir/sub/b.tar.GZ", ArchiveFormat::TarGz),
    ];
    for (path, expected) in cases {
        assert_eq!(ArchiveFormat::from_extension(path), Some(expected));
        assert_eq!(detect_format(path, &None).unwrap(), expected);
    }
    assert_eq!(ArchiveFormat::from_extension("a.txt"), None);
    assert_eq!(ArchiveFormat::from_extension("noext"), None);
    assert_eq!(ArchiveFormat::from_extension("a.tar.rar"), None);
}

#[test]
fn test_every_magic_prefix_maps_to_its_format() {
    let pad = |mut v: Vec<u8>| {
        while v.len() < 8 {
            v.push(0);
        }
        v
    };
    let cases = vec![
        (pad(b"PK\x03\x04".to_vec()), ArchiveFormat::Zip),
        (pad(b"PK\x05\x06".to_vec()), ArchiveFormat::Zip),
        (pad(b"PK\x07\x08".to_vec()), ArchiveFormat::Zip),
        (pad(b"7z\xbc\xaf\x27\x1c".to_vec()), ArchiveFormat::SevenZ),
        (pad(b"\x1f\x8b".to_vec()), ArchiveFormat::Gz),
        (pad(b"\xfd7zXZ\x00".to_vec()), ArchiveFormat::Xz),
        (pad(b"BZh9".to_vec()), ArchiveFormat::Bz2),
        (pad(b"\x28\xb5\x2f\xfd".to_vec()), ArchiveFormat::Zst),
    ];
    for (bytes, expected) in cases {
        assert_eq!(ArchiveFormat::from_magic(&bytes), Some(expected));
        assert_eq!(detect_format("noext", &Some(bytes)).unwrap(), expected);
    }
    // Plain tar: `ustar` at offset 257, needing at least 262 bytes.
    let mut tarish = vec![0u8; 512];
    tarish[257..262].copy_from_slice(b"ustar");
    assert_eq!(ArchiveFormat::from_magic(&tarish), Some(ArchiveFormat::Tar));
    assert_eq!(ArchiveFormat::from_magic(&tarish[..262]), Some(ArchiveFormat::Tar));
    // Too short for the tar marker: nothing matches.
    assert_eq!(ArchiveFormat::from_magic(&tarish[..32]), None);
}

#[test]
fn test_detection_failures() {
    // No extension, no readable head: the file could not be opened.
    match detect_format("noext", &None) {
        Err(FastZipError::FileNotFound(p)) => assert_eq!(p, "noext"),
        other => panic!("unexpected: {:?}", other),
    }
    // A head that matches nothing.
    match detect_format("noext", &Some(vec![0u8; 32])) {
        Err(FastZipError::FormatDetectionFailed) => {}
        other => panic!("unexpected: {:?}", other),
    }
    // Extension wins even over a contradicting head.
    let zip_head = b"PK\x03\x04\0\0\0\0".to_vec();
    assert_eq!(detect_format("a.tar.gz", &Some(zip_head)).unwrap(), ArchiveFormat::TarGz);
}

#[test]
fn test_format_predicates() {
    let archives = vec![
        ArchiveFormat::Zip,
        ArchiveFormat::SevenZ,
        ArchiveFormat::Rar,
        ArchiveFormat::Tar,
        ArchiveFormat::TarGz,
        ArchiveFormat::TarXz,
        ArchiveFormat::TarBz2,
        ArchiveFormat::TarZst,
    ];
    let singles = vec![
        ArchiveFormat::Gz,
        ArchiveFormat::Xz,
        ArchiveFormat::Bz2,
        ArchiveFormat::Zst,
    ];
    for f in archives {
        assert!(f.is_archive());
        assert!(!f.is_single_compressed());
    }
    for f in singles {
        assert!(!f.is_archive());
        assert!(f.is_single_compressed());
    }
}
