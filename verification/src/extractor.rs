//! The extraction coordinator: detect the format, settle the destination,
//! dispatch to the matching adapter, and fan out over many archives with
//! per-archive failure isolation.

use vstd::prelude::*;
use vstd::string::StrSliceExecFns;

use crate::codecs::zip_wf;
use crate::error::FastZipError;
use crate::formats::{
    detect_format, spec_detected, spec_from_extension, spec_from_magic, spec_head, ArchiveFormat,
};
use crate::path_utils::{archive_stem, spec_archive_stem};
use crate::rar_format::RarExtractor;
use crate::sevenz_format::SevenZExtractor;
use crate::single::{extract_single_compressed, spec_single_payload, spec_single_wf};
use crate::smart_dest::{
    resolve_smart_dest, spec_candidate, spec_data_names, spec_resolve_stem, spec_single_file,
    spec_single_root,
};
use crate::strutil::{join_path, spec_join, spec_last_index_of};
use crate::tar_format::TarExtractor;
use crate::zip_format::{spec_zip_plan, spec_zip_readable, ZipExtractor};

verus! {

/// One pending write that the caller performs: a directory to create or a
/// file to fill.
#[derive(Debug)]
pub struct OutputEntry {
    /// Where the entry goes, below the chosen destination directory.
    pub path: String,
    /// The bytes to write; empty for a directory.
    pub data: Vec<u8>,
    /// Whether `path` names a directory rather than a file.
    pub is_dir: bool,
}

/// How one archive is extracted.
#[derive(Debug, Clone)]
pub struct ExtractOptions {
    /// Target base directory; the archive's parent directory when absent.
    pub dest: Option<String>,
    /// Smart destination selection.
    pub smart: bool,
    /// Overwrite an existing output of a single-file compressed stream.
    pub overwrite: bool,
    /// Password for encrypted ZIP/RAR/7z content.
    pub password: Option<String>,
}

impl Default for ExtractOptions {
    /// Smart extraction into the archive's own directory, no overwrite,
    /// no password.
    fn default() -> (r: Self)
        ensures
            r.dest is None,
            r.smart,
            !r.overwrite,
            r.password is None,
    {
        ExtractOptions { dest: None, smart: true, overwrite: false, password: None }
    }
}

/// What extracting one archive produced: the destination directory, and
/// the writes that remain for the caller (empty when the codec itself
/// materialized everything).
#[derive(Debug)]
pub struct ExtractOutcome {
    pub dest_dir: String,
    pub outputs: Vec<OutputEntry>,
}

/// The directory holding `path`: everything before the last '/'; the
/// working directory for a bare file name of an empty path.
pub open spec fn spec_parent_dir(path: Seq<char>) -> Seq<char> {
    let i = spec_last_index_of(path, '/');
    if i == -1 {
        if path.len() == 0 {
            "."@
        } else {
            Seq::empty()
        }
    } else if i == 0 {
        "/"@
    } else {
        path.take(i)
    }
}

/// The base directory an extraction works under.
pub open spec fn spec_base_dir(dest: Option<String>, path: Seq<char>) -> Seq<char> {
    match dest {
        Some(d) => d@,
        None => spec_parent_dir(path),
    }
}

/// The directory holding `path`, per `spec_parent_dir`.
pub fn parent_dir(path: &str) -> (r: String)
    ensures
        r@ == spec_parent_dir(path@),
{
    let n: usize = path.unicode_len();
    match crate::strutil::last_index_of(path, '/') {
        None => {
            if n == 0 {
                ".".to_owned()
            } else {
                String::new()
            }
        },
        Some(i) => {
            if i == 0 {
                "/".to_owned()
            } else {
                let r = path.substring_char(0, i).to_owned();
                proof {
                    assert(r@ =~= path@.take(i as int));
                }
                r
            }
        },
    }
}

/// Everything one extraction promises, stated over the archive's path,
/// the bytes that could be read (`head`), and the options: detection
/// errors pinned; the destination directory in flat and in smart mode
/// (base directory for a lone root-level file, a shared root, or a
/// single-file compressed stream); the remaining write plan per format
/// class; RAR refused; and success owed wherever it is decided by the
/// inputs alone (a decodable single-file stream, a readable ZIP under a
/// password in flat mode — smart mode may still exhaust the name probe).
pub open spec fn spec_extract_one_post(
    path: Seq<char>,
    head: Option<Seq<u8>>,
    options: ExtractOptions,
    r: Result<ExtractOutcome, FastZipError>,
) -> bool {
    let det = spec_detected(path, head);
    let base = spec_base_dir(options.dest, path);
    &&& (det is None ==> r is Err)
    &&& (spec_from_extension(path) is None && head is None ==> (r matches Err(e) && (e matches
        FastZipError::FileNotFound(p) && p@ == path)))
    &&& (spec_from_extension(path) is None && head is Some && spec_from_magic(head->0) is None
        ==> r == Err::<ExtractOutcome, FastZipError>(FastZipError::FormatDetectionFailed))
    &&& (r is Ok ==> det is Some)
    &&& (r is Ok && !options.smart ==> r->Ok_0.dest_dir@ == (if det->0.spec_is_archive() {
        spec_join(base, spec_resolve_stem(path))
    } else {
        base
    }))
    &&& (r is Ok && options.smart ==> (r->Ok_0.dest_dir@ == base || exists|k: nat|
        1 <= k && r->Ok_0.dest_dir@ == spec_candidate(base, spec_resolve_stem(path), k)))
    &&& (r is Ok && options.smart && det->0.spec_is_single_compressed() ==> r->Ok_0.dest_dir@
        == base)
    &&& (r is Ok && options.smart && head is Some && det is Some && spec_data_names(
        det->0,
        head->0,
    ) is Some && spec_single_file(spec_data_names(det->0, head->0)->0) ==> r->Ok_0.dest_dir@
        == base)
    &&& (r is Ok && options.smart && head is Some && det is Some && spec_data_names(
        det->0,
        head->0,
    ) is Some && spec_single_root(spec_data_names(det->0, head->0)->0) ==> r->Ok_0.dest_dir@
        == base)
    &&& (det matches Some(f) && f is Rar ==> (r is Err && r->Err_0 is UnsupportedFormat))
    &&& (det matches Some(f) && (f is Zip || f is Tar || f is TarGz || f is TarXz || f is TarBz2
        || f is TarZst) && head is None ==> (r matches Err(e) && (e matches
        FastZipError::FileNotFound(p) && p@ == path)))
    &&& (r is Ok && det->0.spec_is_single_compressed() ==> (r->Ok_0.outputs@.len() <= 1 && (
    r->Ok_0.outputs@.len() == 1 ==> (!r->Ok_0.outputs@[0].is_dir && r->Ok_0.outputs@[0].path@
        == spec_join(r->Ok_0.dest_dir@, spec_archive_stem(path)) && head is Some && Some(
        r->Ok_0.outputs@[0].data@,
    ) == spec_single_payload(det->0, head->0)))))
    &&& (r is Ok && det == Some(ArchiveFormat::Zip) && options.password is Some && head is Some
        ==> spec_zip_plan(r->Ok_0.outputs@, head->0, r->Ok_0.dest_dir@, options.password->0@))
    &&& (r is Ok && det is Some && !det->0.spec_is_single_compressed() && !(det == Some(
        ArchiveFormat::Zip,
    ) && options.password is Some) ==> r->Ok_0.outputs@.len() == 0)
    &&& (det matches Some(f) && f.spec_is_single_compressed() && spec_archive_stem(path).len() > 0
        && head is Some && spec_single_wf(f, head->0) ==> r is Ok)
    &&& (det == Some(ArchiveFormat::Zip) && options.password is Some && head is Some && zip_wf(
        head->0,
    ) && spec_zip_readable(head->0, options.password->0@) ==> (r is Ok || (options.smart && (
    r matches Err(e) && e is Other))))
}

/// Extract one archive: detect its format, settle the destination
/// directory (smart or flat), and dispatch to the matching adapter.
///
/// `data` carries the archive's bytes (`None` when the file could not be
/// read); the in-memory formats need them, the path-based 7z adapter does
/// not. The whole contract is `spec_extract_one_post`.
pub fn extract_one(archive_path: &str, data: &Option<Vec<u8>>, options: &ExtractOptions) -> (r:
    Result<ExtractOutcome, FastZipError>)
    ensures
        spec_extract_one_post(archive_path@, spec_head(*data), *options, r),
{
    let format = detect_format(archive_path, data)?;
    let base_dir: String = match &options.dest {
        Some(d) => d.clone(),
        None => parent_dir(archive_path),
    };
    let dest_dir: String = if options.smart {
        resolve_smart_dest(archive_path, base_dir.as_str(), format, data)?
    } else {
        if format.is_archive() {
            let st0 = archive_stem(archive_path);
            let stem: String = if st0.unicode_len() == 0 {
                "extracted".to_owned()
            } else {
                st0
            };
            join_path(base_dir.as_str(), stem.as_str())
        } else {
            base_dir.clone()
        }
    };
    let outputs: Vec<OutputEntry> = match format {
        ArchiveFormat::Zip => {
            match data {
                Some(d) => {
                    match &options.password {
                        Some(pw) => ZipExtractor::extract(d, dest_dir.as_str(), Some(pw.as_str()))?,
                        None => ZipExtractor::extract(d, dest_dir.as_str(), None)?,
                    }
                },
                None => {
                    return Err(FastZipError::FileNotFound(archive_path.to_owned()));
                },
            }
        },
        ArchiveFormat::SevenZ => {
            match &options.password {
                Some(pw) => SevenZExtractor::extract(
                    archive_path,
                    dest_dir.as_str(),
                    Some(pw.as_str()),
                )?,
                None => SevenZExtractor::extract(archive_path, dest_dir.as_str(), None)?,
            };
            Vec::new()
        },
        ArchiveFormat::Rar => {
            RarExtractor::extract(archive_path, dest_dir.as_str(), None)?;
            Vec::new()
        },
        ArchiveFormat::Tar | ArchiveFormat::TarGz | ArchiveFormat::TarXz | ArchiveFormat::TarBz2
            | ArchiveFormat::TarZst => {
            match data {
                Some(d) => {
                    TarExtractor::extract(d, dest_dir.as_str(), format)?;
                    Vec::new()
                },
                None => {
                    return Err(FastZipError::FileNotFound(archive_path.to_owned()));
                },
            }
        },
        ArchiveFormat::Gz | ArchiveFormat::Xz | ArchiveFormat::Bz2 | ArchiveFormat::Zst => {
            let (p, w) = extract_single_compressed(
                archive_path,
                dest_dir.as_str(),
                format,
                options.overwrite,
                data,
            )?;
            match w {
                Some(b) => {
                    let mut v: Vec<OutputEntry> = Vec::new();
                    v.push(OutputEntry { path: p, data: b, is_dir: false });
                    v
                },
                None => Vec::new(),
            }
        },
    };
    Ok(ExtractOutcome { dest_dir, outputs })
}

/// Extract many archives independently: the result list has one slot per
/// input, in input order, and slot `i` satisfies the whole one-archive
/// contract for input `i` alone — so one archive's failure leaves every
/// other slot untouched.
pub fn extract_many(archives: &Vec<(String, Option<Vec<u8>>)>, options: &ExtractOptions) -> (r:
    Vec<Result<ExtractOutcome, FastZipError>>)
    ensures
        r@.len() == archives@.len(),
        forall|i: int|
            0 <= i < archives@.len() ==> spec_extract_one_post(
                (#[trigger] archives@[i]).0@,
                spec_head(archives@[i].1),
                *options,
                r@[i],
            ),
{
    let mut results: Vec<Result<ExtractOutcome, FastZipError>> = Vec::new();
    let mut i: usize = 0;
    while i < archives.len()
        invariant
            i <= archives@.len(),
            results@.len() == i,
            forall|j: int|
                0 <= j < i ==> spec_extract_one_post(
                    (#[trigger] archives@[j]).0@,
                    spec_head(archives@[j].1),
                    *options,
                    results@[j],
                ),
        decreases archives@.len() - i,
    {
        let one = extract_one(archives[i].0.as_str(), &archives[i].1, options);
        results.push(one);
        i = i + 1;
    }
    results
}

} // verus!
