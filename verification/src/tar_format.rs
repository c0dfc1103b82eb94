//! The TAR-family adapter: for the compressed variants a decompressing
//! byte-stream step is interposed before the tar listing or unpack.

use vstd::prelude::*;

use crate::codecs::{
    bz2_decode, bz2_plain_of, bz2_wf, gz_decode, gz_plain_of, gz_wf, tar_entry_names,
    tar_names_of, tar_unpack, tar_wf, xz_decode, xz_plain_of, xz_wf, zst_decode, zst_plain_of,
    zst_wf,
};
use crate::error::FastZipError;
use crate::formats::ArchiveFormat;
use crate::smart_dest::{classify_top_level, spec_classified, TopLevelEntries};

verus! {

/// Whether the compression layer of a TAR-family archive decodes; always
/// true for a bare TAR, false for formats outside the family.
pub open spec fn spec_tar_ok(format: ArchiveFormat, d: Seq<u8>) -> bool {
    match format {
        ArchiveFormat::Tar => true,
        ArchiveFormat::TarGz => gz_wf(d),
        ArchiveFormat::TarXz => xz_wf(d),
        ArchiveFormat::TarBz2 => bz2_wf(d),
        ArchiveFormat::TarZst => zst_wf(d),
        _ => false,
    }
}

/// The bare TAR stream inside an archive of the given layered format.
pub open spec fn spec_tar_payload(format: ArchiveFormat, d: Seq<u8>) -> Option<Seq<u8>> {
    match format {
        ArchiveFormat::Tar => Some(d),
        ArchiveFormat::TarGz => Some(gz_plain_of(d)),
        ArchiveFormat::TarXz => Some(xz_plain_of(d)),
        ArchiveFormat::TarBz2 => Some(bz2_plain_of(d)),
        ArchiveFormat::TarZst => Some(zst_plain_of(d)),
        _ => None,
    }
}

/// Undo the compression layer of a TAR-family archive.
fn decode_payload(data: &Vec<u8>, format: ArchiveFormat) -> (r: Result<Vec<u8>, FastZipError>)
    ensures
        (r is Ok) <==> spec_tar_ok(format, data@),
        r matches Ok(v) ==> Some(v@) == spec_tar_payload(format, data@),
        spec_tar_payload(format, data@) is None ==> (r matches Err(e) && e is UnsupportedFormat),
        r matches Err(e) ==> e is Tar || e is UnsupportedFormat,
{
    let decoded: Result<Vec<u8>, String> = match format {
        ArchiveFormat::Tar => {
            return Ok(data.clone());
        },
        ArchiveFormat::TarGz => gz_decode(data),
        ArchiveFormat::TarXz => xz_decode(data),
        ArchiveFormat::TarBz2 => bz2_decode(data),
        ArchiveFormat::TarZst => zst_decode(data),
        _ => {
            return Err(FastZipError::UnsupportedFormat("not a TAR-family archive".to_owned()));
        },
    };
    match decoded {
        Ok(v) => Ok(v),
        Err(m) => Err(FastZipError::Tar(m)),
    }
}

/// TAR-family format adapter.
pub struct TarExtractor;

impl TarExtractor {
    /// List and classify the archive's top-level entries.
    pub fn list_top_level(data: &Vec<u8>, format: ArchiveFormat) -> (r: Result<
        TopLevelEntries,
        FastZipError,
    >)
        ensures
            (r is Ok) <==> (spec_tar_ok(format, data@) && tar_wf(
                spec_tar_payload(format, data@)->0,
            )),
            spec_tar_payload(format, data@) matches Some(p) ==> (r matches Ok(t)
                ==> spec_classified(t, tar_names_of(p))),
            spec_tar_payload(format, data@) is None ==> (r matches Err(e) && e
                is UnsupportedFormat),
            r matches Err(e) ==> e is Tar || e is UnsupportedFormat,
    {
        let payload = decode_payload(data, format)?;
        let names = tar_entry_names(&payload)?;
        let t = classify_top_level(&names);
        proof {
            assert(names.deep_view() =~= names@.map_values(|s: String| s@));
        }
        Ok(t)
    }

    /// Unpack the whole archive into `dest`.
    pub fn extract(data: &Vec<u8>, dest: &str, format: ArchiveFormat) -> (r: Result<
        (),
        FastZipError,
    >)
        ensures
            !spec_tar_ok(format, data@) ==> r is Err,
            spec_tar_payload(format, data@) is None ==> (r matches Err(e) && e
                is UnsupportedFormat),
            r matches Err(e) ==> e is Tar || e is UnsupportedFormat,
    {
        let payload = decode_payload(data, format)?;
        tar_unpack(&payload, dest)
    }
}

} // verus!
