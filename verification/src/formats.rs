//! Format detection: by file-name extension first, by leading magic bytes as
//! a fallback.

use vstd::prelude::*;
use vstd::string::StrSliceExecFns;

use crate::error::FastZipError;
use crate::strutil::{
    ends_with, last_index_of, spec_ends_with, spec_last_index_of, spec_to_lower, str_eq,
    to_ascii_lower,
};

verus! {

/// The archive and compression formats this library understands.
///
/// `Rar` is always part of the tag; whether a usable adapter exists for it is
/// a separate, build-level question (the bundled adapter is a stub that
/// reports the format as unsupported).
#[derive(Clone, Copy, Debug, PartialEq, Eq, Structural)]
pub enum ArchiveFormat {
    Zip,
    SevenZ,
    Rar,
    Tar,
    TarGz,
    TarXz,
    TarBz2,
    TarZst,
    Gz,
    Xz,
    Bz2,
    Zst,
}

/// The file-name part of `path`: everything after the last '/'.
pub open spec fn spec_file_name(path: Seq<char>) -> Seq<char> {
    path.skip(spec_last_index_of(path, '/') + 1)
}

/// The stem of a file name: everything before the last '.', or the whole
/// name when there is no '.' past the first character.
pub open spec fn spec_stem_of(name: Seq<char>) -> Seq<char> {
    let d = spec_last_index_of(name, '.');
    if d <= 0 {
        name
    } else {
        name.take(d)
    }
}

/// The extension of a file name: everything after the last '.', absent when
/// there is no '.' past the first character.
pub open spec fn spec_extension_of(name: Seq<char>) -> Option<Seq<char>> {
    let d = spec_last_index_of(name, '.');
    if d <= 0 {
        None
    } else {
        Some(name.skip(d + 1))
    }
}

/// Extension-based detection, lowercasing both the extension and, for
/// compound names such as `archive.tar.gz`, the stem.
pub open spec fn spec_from_extension(path: Seq<char>) -> Option<ArchiveFormat> {
    let name = spec_file_name(path);
    match spec_extension_of(name) {
        None => None,
        Some(e) => {
            let ext = spec_to_lower(e);
            let stem = spec_to_lower(spec_stem_of(name));
            if spec_ends_with(stem, ".tar"@) {
                if ext == "gz"@ || ext == "tgz"@ {
                    Some(ArchiveFormat::TarGz)
                } else if ext == "xz"@ || ext == "txz"@ {
                    Some(ArchiveFormat::TarXz)
                } else if ext == "bz2"@ || ext == "tbz2"@ || ext == "tb2"@ {
                    Some(ArchiveFormat::TarBz2)
                } else if ext == "zst"@ || ext == "tzst"@ {
                    Some(ArchiveFormat::TarZst)
                } else {
                    None
                }
            } else if spec_ends_with(stem, ".tgz"@) {
                Some(ArchiveFormat::TarGz)
            } else if ext == "zip"@ {
                Some(ArchiveFormat::Zip)
            } else if ext == "7z"@ {
                Some(ArchiveFormat::SevenZ)
            } else if ext == "tar"@ {
                Some(ArchiveFormat::Tar)
            } else if ext == "tgz"@ {
                Some(ArchiveFormat::TarGz)
            } else if ext == "txz"@ {
                Some(ArchiveFormat::TarXz)
            } else if ext == "tbz2"@ || ext == "tb2"@ {
                Some(ArchiveFormat::TarBz2)
            } else if ext == "tzst"@ {
                Some(ArchiveFormat::TarZst)
            } else if ext == "gz"@ || ext == "gzip"@ {
                Some(ArchiveFormat::Gz)
            } else if ext == "xz"@ || ext == "lzma"@ {
                Some(ArchiveFormat::Xz)
            } else if ext == "bz2"@ || ext == "bzip2"@ {
                Some(ArchiveFormat::Bz2)
            } else if ext == "zst"@ || ext == "zstd"@ {
                Some(ArchiveFormat::Zst)
            } else {
                None
            }
        },
    }
}

/// Whether `b` begins with `prefix`.
pub open spec fn spec_starts_with_bytes(b: Seq<u8>, prefix: Seq<u8>) -> bool {
    prefix.len() <= b.len() && b.take(prefix.len() as int) == prefix
}

/// Magic-number detection over the archive's leading bytes, mirroring the
/// known signatures: ZIP, 7z, gzip, xz, bzip2, zstd, and the `ustar` marker
/// at offset 257 for plain tar (which therefore needs at least 262 bytes).
pub open spec fn spec_from_magic(b: Seq<u8>) -> Option<ArchiveFormat> {
    if b.len() < 6 {
        None
    } else if spec_starts_with_bytes(b, seq![0x50u8, 0x4bu8, 0x03u8, 0x04u8])
        || spec_starts_with_bytes(b, seq![0x50u8, 0x4bu8, 0x05u8, 0x06u8])
        || spec_starts_with_bytes(b, seq![0x50u8, 0x4bu8, 0x07u8, 0x08u8]) {
        Some(ArchiveFormat::Zip)
    } else if spec_starts_with_bytes(b, seq![0x37u8, 0x7au8, 0xbcu8, 0xafu8, 0x27u8, 0x1cu8]) {
        Some(ArchiveFormat::SevenZ)
    } else if spec_starts_with_bytes(b, seq![0x1fu8, 0x8bu8]) {
        Some(ArchiveFormat::Gz)
    } else if spec_starts_with_bytes(b, seq![0xfdu8, 0x37u8, 0x7au8, 0x58u8, 0x5au8, 0x00u8]) {
        Some(ArchiveFormat::Xz)
    } else if spec_starts_with_bytes(b, seq![0x42u8, 0x5au8]) {
        Some(ArchiveFormat::Bz2)
    } else if spec_starts_with_bytes(b, seq![0x28u8, 0xb5u8, 0x2fu8, 0xfdu8]) {
        Some(ArchiveFormat::Zst)
    } else if b.len() >= 262 && b.subrange(257, 262) == seq![
        0x75u8,
        0x73u8,
        0x74u8,
        0x61u8,
        0x72u8,
    ] {
        Some(ArchiveFormat::Tar)
    } else {
        None
    }
}

impl ArchiveFormat {
    /// True for the multi-entry container formats.
    pub fn is_archive(&self) -> (r: bool)
        ensures
            r == self.spec_is_archive(),
    {
        matches!(
            self,
            Self::Zip | Self::SevenZ | Self::Rar | Self::Tar | Self::TarGz | Self::TarXz
                | Self::TarBz2 | Self::TarZst
        )
    }

    /// True for the wrappers around exactly one compressed payload.
    pub fn is_single_compressed(&self) -> (r: bool)
        ensures
            r == self.spec_is_single_compressed(),
    {
        matches!(self, Self::Gz | Self::Xz | Self::Bz2 | Self::Zst)
    }

    pub open spec fn spec_is_archive(self) -> bool {
        self is Zip || self is SevenZ || self is Rar || self is Tar || self is TarGz
            || self is TarXz || self is TarBz2 || self is TarZst
    }

    pub open spec fn spec_is_single_compressed(self) -> bool {
        self is Gz || self is Xz || self is Bz2 || self is Zst
    }

    /// Detect the format from the extension (and, for compound names, the
    /// stem) of `path`.
    pub fn from_extension(path: &str) -> (r: Option<ArchiveFormat>)
        ensures
            r == spec_from_extension(path@),
    {
        let n: usize = path.unicode_len();
        let slash = last_index_of(path, '/');
        let name_start: usize = match slash {
            Some(i) => i + 1,
            None => 0,
        };
        let name = path.substring_char(name_start, n);
        proof {
            crate::strutil::lemma_last_index_of_props(path@, '/');
            assert(name@ =~= spec_file_name(path@));
        }
        let m: usize = name.unicode_len();
        let dot = last_index_of(name, '.');
        let d: usize = match dot {
            Some(i) => i,
            None => 0,
        };
        if d == 0 {
            return None;
        }
        let ext = to_ascii_lower(name.substring_char(d + 1, m));
        let stem = to_ascii_lower(name.substring_char(0, d));
        proof {
            assert(name@.subrange(d + 1, m as int) =~= name@.skip(d + 1));
            assert(name@.subrange(0, d as int) =~= name@.take(d as int));
        }
        if ends_with(stem.as_str(), ".tar") {
            if str_eq(ext.as_str(), "gz") || str_eq(ext.as_str(), "tgz") {
                Some(ArchiveFormat::TarGz)
            } else if str_eq(ext.as_str(), "xz") || str_eq(ext.as_str(), "txz") {
                Some(ArchiveFormat::TarXz)
            } else if str_eq(ext.as_str(), "bz2") || str_eq(ext.as_str(), "tbz2") || str_eq(
                ext.as_str(),
                "tb2",
            ) {
                Some(ArchiveFormat::TarBz2)
            } else if str_eq(ext.as_str(), "zst") || str_eq(ext.as_str(), "tzst") {
                Some(ArchiveFormat::TarZst)
            } else {
                None
            }
        } else if ends_with(stem.as_str(), ".tgz") {
            Some(ArchiveFormat::TarGz)
        } else if str_eq(ext.as_str(), "zip") {
            Some(ArchiveFormat::Zip)
        } else if str_eq(ext.as_str(), "7z") {
            Some(ArchiveFormat::SevenZ)
        } else if str_eq(ext.as_str(), "tar") {
            Some(ArchiveFormat::Tar)
        } else if str_eq(ext.as_str(), "tgz") {
            Some(ArchiveFormat::TarGz)
        } else if str_eq(ext.as_str(), "txz") {
            Some(ArchiveFormat::TarXz)
        } else if str_eq(ext.as_str(), "tbz2") || str_eq(ext.as_str(), "tb2") {
            Some(ArchiveFormat::TarBz2)
        } else if str_eq(ext.as_str(), "tzst") {
            Some(ArchiveFormat::TarZst)
        } else if str_eq(ext.as_str(), "gz") || str_eq(ext.as_str(), "gzip") {
            Some(ArchiveFormat::Gz)
        } else if str_eq(ext.as_str(), "xz") || str_eq(ext.as_str(), "lzma") {
            Some(ArchiveFormat::Xz)
        } else if str_eq(ext.as_str(), "bz2") || str_eq(ext.as_str(), "bzip2") {
            Some(ArchiveFormat::Bz2)
        } else if str_eq(ext.as_str(), "zst") || str_eq(ext.as_str(), "zstd") {
            Some(ArchiveFormat::Zst)
        } else {
            None
        }
    }

    /// Detect the format from the archive's leading bytes.
    pub fn from_magic(buf: &[u8]) -> (r: Option<ArchiveFormat>)
        ensures
            r == spec_from_magic(buf@),
    {
        let n: usize = buf.len();
        if n < 6 {
            return None;
        }
        if buf[0] == 0x50 && buf[1] == 0x4b && (buf[2] == 0x03 && buf[3] == 0x04 || buf[2] == 0x05
            && buf[3] == 0x06 || buf[2] == 0x07 && buf[3] == 0x08) {
            proof {
                assert(buf@.take(4) =~= seq![buf@[0], buf@[1], buf@[2], buf@[3]]);
            }
            return Some(ArchiveFormat::Zip);
        }
        proof {
            assert(buf@.take(4) =~= seq![buf@[0], buf@[1], buf@[2], buf@[3]]);
        }
        if buf[0] == 0x37 && buf[1] == 0x7a && buf[2] == 0xbc && buf[3] == 0xaf && buf[4] == 0x27
            && buf[5] == 0x1c {
            proof {
                assert(buf@.take(6) =~= seq![buf@[0], buf@[1], buf@[2], buf@[3], buf@[4], buf@[5]]);
            }
            return Some(ArchiveFormat::SevenZ);
        }
        proof {
            assert(buf@.take(6) =~= seq![buf@[0], buf@[1], buf@[2], buf@[3], buf@[4], buf@[5]]);
            assert(buf@.take(2) =~= seq![buf@[0], buf@[1]]);
        }
        if buf[0] == 0x1f && buf[1] == 0x8b {
            return Some(ArchiveFormat::Gz);
        }
        if buf[0] == 0xfd && buf[1] == 0x37 && buf[2] == 0x7a && buf[3] == 0x58 && buf[4] == 0x5a
            && buf[5] == 0x00 {
            return Some(ArchiveFormat::Xz);
        }
        if buf[0] == 0x42 && buf[1] == 0x5a {
            return Some(ArchiveFormat::Bz2);
        }
        if buf[0] == 0x28 && buf[1] == 0xb5 && buf[2] == 0x2f && buf[3] == 0xfd {
            return Some(ArchiveFormat::Zst);
        }
        if n >= 262 && buf[257] == 0x75 && buf[258] == 0x73 && buf[259] == 0x74 && buf[260] == 0x61
            && buf[261] == 0x72 {
            proof {
                assert(buf@.subrange(257, 262) =~= seq![
                    buf@[257],
                    buf@[258],
                    buf@[259],
                    buf@[260],
                    buf@[261],
                ]);
            }
            return Some(ArchiveFormat::Tar);
        }
        proof {
            if n >= 262 {
                assert(buf@.subrange(257, 262) =~= seq![
                    buf@[257],
                    buf@[258],
                    buf@[259],
                    buf@[260],
                    buf@[261],
                ]);
            }
        }
        None
    }
}

/// The views of optionally read leading bytes.
pub open spec fn spec_head(h: Option<Vec<u8>>) -> Option<Seq<u8>> {
    match h {
        Some(v) => Some(v@),
        None => None,
    }
}

/// What detection decides: the extension first; when it says nothing, the
/// magic bytes of the head, if one was read.
pub open spec fn spec_detected(path: Seq<char>, head: Option<Seq<u8>>) -> Option<ArchiveFormat> {
    match spec_from_extension(path) {
        Some(f) => Some(f),
        None => match head {
            Some(h) => spec_from_magic(h),
            None => None,
        },
    }
}

/// Detect the format of the archive at `path`.
///
/// Extension detection runs first and alone decides when it succeeds.
/// `head` carries the archive's leading bytes for the magic-number fallback;
/// `None` means the file could not be opened.
pub fn detect_format(path: &str, head: &Option<Vec<u8>>) -> (r: Result<
    ArchiveFormat,
    FastZipError,
>)
    ensures
        r matches Ok(f) ==> spec_detected(path@, spec_head(*head)) == Some(f),
        r is Err ==> spec_detected(path@, spec_head(*head)) is None,
        spec_from_extension(path@) is Some ==> r == Ok::<ArchiveFormat, FastZipError>(
            spec_from_extension(path@)->0,
        ),
        spec_from_extension(path@) is None && head is None ==> (r matches Err(e) && (e matches
            FastZipError::FileNotFound(p) && p@ == path@)),
        spec_from_extension(path@) is None && head is Some ==> r == (match spec_from_magic(
            head->0@,
        ) {
            Some(f) => Ok::<ArchiveFormat, FastZipError>(f),
            None => Err::<ArchiveFormat, FastZipError>(FastZipError::FormatDetectionFailed),
        }),
{
    if let Some(f) = ArchiveFormat::from_extension(path) {
        return Ok(f);
    }
    match head {
        None => Err(FastZipError::FileNotFound(path.to_owned())),
        Some(h) => match ArchiveFormat::from_magic(h.as_slice()) {
            Some(f) => Ok(f),
            None => Err(FastZipError::FormatDetectionFailed),
        },
    }
}

} // verus!
