//! Archive preview: a display name for each format and the list of
//! top-level entry names.

use vstd::prelude::*;

use crate::error::FastZipError;
use crate::formats::{spec_detected, spec_head, ArchiveFormat};
use crate::smart_dest::{
    list_archive_top_level, spec_classified, spec_data_listing_ok, spec_data_names,
    TopLevelEntries,
};
use vstd::string::StringExecFns;

verus! {

/// The display name of each format.
pub open spec fn spec_format_name(f: ArchiveFormat) -> Seq<char> {
    match f {
        ArchiveFormat::Zip => "ZIP"@,
        ArchiveFormat::SevenZ => "7z"@,
        ArchiveFormat::Rar => "RAR"@,
        ArchiveFormat::Tar => "TAR"@,
        ArchiveFormat::TarGz => "TAR.GZ"@,
        ArchiveFormat::TarXz => "TAR.XZ"@,
        ArchiveFormat::TarBz2 => "TAR.BZ2"@,
        ArchiveFormat::TarZst => "TAR.ZST"@,
        ArchiveFormat::Gz => "GZ"@,
        ArchiveFormat::Xz => "XZ"@,
        ArchiveFormat::Bz2 => "BZ2"@,
        ArchiveFormat::Zst => "ZST"@,
    }
}

/// The display name of `f`.
pub fn format_name(f: &ArchiveFormat) -> (r: String)
    ensures
        r@ == spec_format_name(*f),
{
    match f {
        ArchiveFormat::Zip => "ZIP".to_owned(),
        ArchiveFormat::SevenZ => "7z".to_owned(),
        ArchiveFormat::Rar => "RAR".to_owned(),
        ArchiveFormat::Tar => "TAR".to_owned(),
        ArchiveFormat::TarGz => "TAR.GZ".to_owned(),
        ArchiveFormat::TarXz => "TAR.XZ".to_owned(),
        ArchiveFormat::TarBz2 => "TAR.BZ2".to_owned(),
        ArchiveFormat::TarZst => "TAR.ZST".to_owned(),
        ArchiveFormat::Gz => "GZ".to_owned(),
        ArchiveFormat::Xz => "XZ".to_owned(),
        ArchiveFormat::Bz2 => "BZ2".to_owned(),
        ArchiveFormat::Zst => "ZST".to_owned(),
    }
}

/// Detect the archive at `path` and hand back its format's display name
/// together with its top-level entry names.
pub fn list_top_level(path: &str, data: &Option<Vec<u8>>) -> (r: Result<
    (String, Vec<String>),
    FastZipError,
>)
    ensures
        spec_detected(path@, spec_head(*data)) is None ==> r is Err,
        spec_detected(path@, spec_head(*data)) matches Some(f) && f.spec_is_single_compressed()
            ==> r is Ok,
        spec_detected(path@, spec_head(*data)) matches Some(f) && data is Some
            && spec_data_listing_ok(f, data->0@) ==> r is Ok,
        r matches Ok(p) ==> spec_detected(path@, spec_head(*data)) is Some && p.0@
            == spec_format_name(spec_detected(path@, spec_head(*data))->0),
        r matches Ok(p) ==> (data is Some && spec_data_names(
            spec_detected(path@, spec_head(*data))->0,
            data->0@,
        ) is Some ==> exists|t: TopLevelEntries|
            spec_classified(
                t,
                spec_data_names(spec_detected(path@, spec_head(*data))->0, data->0@)->0,
            ) && p.1 == t.entries),
{
    let (format, entries) = list_archive_top_level(path, data)?;
    let name = format_name(&format);
    let ghost t0 = entries;
    let r = (name, entries.entries);
    proof {
        assert(r.1 == t0.entries);
    }
    Ok(r)
}

} // verus!
