//! Extraction of the single-file compressed formats (.gz, .xz, .bz2, .zst):
//! one stream, one output file whose name is the input name with its
//! compression extension (and a trailing `.tar`, if any) stripped.

use vstd::prelude::*;
use vstd::string::StrSliceExecFns;
use vstd::string::StringExecFns;

use crate::codecs::{
    bz2_decode, bz2_plain_of, bz2_wf, gz_decode, gz_plain_of, gz_wf, path_exists, xz_decode,
    xz_plain_of, xz_wf, zst_decode, zst_plain_of, zst_wf,
};
use crate::error::FastZipError;
use crate::formats::ArchiveFormat;
use crate::path_utils::{archive_stem, spec_archive_stem};
use crate::strutil::{join_path, spec_join};

verus! {

/// The payload hidden in a single-file compressed stream, by format.
pub open spec fn spec_single_payload(format: ArchiveFormat, d: Seq<u8>) -> Option<Seq<u8>> {
    match format {
        ArchiveFormat::Gz => Some(gz_plain_of(d)),
        ArchiveFormat::Xz => Some(xz_plain_of(d)),
        ArchiveFormat::Bz2 => Some(bz2_plain_of(d)),
        ArchiveFormat::Zst => Some(zst_plain_of(d)),
        _ => None,
    }
}

/// Whether the single-file stream `d` decodes under `format`; false for
/// formats that are not single-file compressed.
pub open spec fn spec_single_wf(format: ArchiveFormat, d: Seq<u8>) -> bool {
    match format {
        ArchiveFormat::Gz => gz_wf(d),
        ArchiveFormat::Xz => xz_wf(d),
        ArchiveFormat::Bz2 => bz2_wf(d),
        ArchiveFormat::Zst => zst_wf(d),
        _ => false,
    }
}

/// Decompress the single-file stream at `path` into `dest_dir`.
///
/// Returns the output path together with the decoded bytes the caller has
/// to write there, or `None` for the bytes when `overwrite` is off and the
/// output already exists: the call is then an idempotent no-op that
/// reports the existing path as its result without re-decompressing.
///
/// `data` carries the stream's bytes; `None` means the file could not be
/// read.
pub fn extract_single_compressed(
    path: &str,
    dest_dir: &str,
    format: ArchiveFormat,
    overwrite: bool,
    data: &Option<Vec<u8>>,
) -> (r: Result<(String, Option<Vec<u8>>), FastZipError>)
    ensures
        spec_archive_stem(path@).len() == 0 ==> (r matches Err(e) && e is Other),
        r matches Ok(p) ==> p.0@ == spec_join(dest_dir@, spec_archive_stem(path@)),
        r matches Ok(p) ==> (p.1 matches Some(b) ==> data matches Some(d) && Some(b@)
            == spec_single_payload(format, d@)),
        !format.spec_is_single_compressed() && spec_archive_stem(path@).len() > 0 ==> !(r matches
            Ok(p) && p.1 is Some),
        spec_archive_stem(path@).len() > 0 && data is None ==> !(r matches Ok(p) && p.1 is Some),
        spec_archive_stem(path@).len() > 0 && data is Some && spec_single_wf(format, data->0@)
            ==> r is Ok,
        overwrite ==> (r matches Ok(p) ==> p.1 is Some),
{
    let out_name = archive_stem(path);
    if out_name.unicode_len() == 0 {
        return Err(FastZipError::Other("cannot derive an output file name".to_owned()));
    }
    let out_path = join_path(dest_dir, out_name.as_str());
    if !overwrite && path_exists(out_path.as_str()) {
        return Ok((out_path, None));
    }
    let d = match data {
        Some(d) => d,
        None => {
            return Err(FastZipError::FileNotFound(path.to_owned()));
        },
    };
    let decoded = match format {
        ArchiveFormat::Gz => gz_decode(d),
        ArchiveFormat::Xz => xz_decode(d),
        ArchiveFormat::Bz2 => bz2_decode(d),
        ArchiveFormat::Zst => zst_decode(d),
        _ => {
            return Err(FastZipError::UnsupportedFormat("not a single-file compressed stream".to_owned()));
        },
    };
    match decoded {
        Ok(b) => Ok((out_path, Some(b))),
        Err(m) => Err(FastZipError::Io(m)),
    }
}

} // verus!
