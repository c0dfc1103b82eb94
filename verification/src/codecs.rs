//! The trusted boundary to the outside codec crates.
//!
//! Every item here either declares an outside type to Verus or wraps exactly
//! one outside operation; the contracts state only what the wrapped crate's
//! source shows. Results that are functions of the input bytes alone are
//! named by bodiless spec functions (`zip_names_of`, `gz_plain_of`, ...);
//! results that depend on the disk get no name and no promise.

use vstd::prelude::*;

use crate::error::FastZipError;

verus! {

// ------------------------------------------------------------------
// Outside types used in signatures.
// ------------------------------------------------------------------

#[verifier::external_type_specification]
#[verifier::external_body]
pub struct ExZipError(zip::result::ZipError);

/// An in-memory ZIP archive being written. Verus refuses the writer type's
/// own generic declaration (its bounds are std I/O traits), so the writer
/// lives behind this opaque struct.
#[verifier::external_body]
pub struct ZipBuilder {
    inner: zip::ZipWriter<std::io::Cursor<Vec<u8>>>,
}

// ------------------------------------------------------------------
// Named results: functions of the argument bytes alone.
// ------------------------------------------------------------------

/// The member names in the central directory of the ZIP archive `data`,
/// in directory order.
pub uninterp spec fn zip_names_of(data: Seq<u8>) -> Seq<Seq<char>>;

/// Whether `data` parses as a ZIP archive (the success of
/// `zip::ZipArchive::new` on these bytes).
pub uninterp spec fn zip_wf(data: Seq<u8>) -> bool;

/// Whether member `i` of the ZIP archive `data` exists and its content can
/// be decrypted and fully read with `password` (the success of
/// `by_index_decrypt` plus the read, a function of the three arguments).
pub uninterp spec fn zip_entry_ok(data: Seq<u8>, i: int, password: Seq<char>) -> bool;

/// Whether member `i` of the ZIP archive `data` is recorded with the
/// `Stored` compression method.
pub uninterp spec fn zip_entry_stored(data: Seq<u8>, i: int) -> bool;

/// The decompressed content of member `i` of the ZIP archive `data`,
/// decrypted with `password`.
pub uninterp spec fn zip_entry_decrypted(data: Seq<u8>, i: int, password: Seq<char>) -> Seq<u8>;

/// The member names of the TAR stream `data`, in entry order.
pub uninterp spec fn tar_names_of(data: Seq<u8>) -> Seq<Seq<char>>;

/// Whether the TAR stream `data` enumerates without error (the success of
/// walking `tar::Archive::entries` and reading each entry's path).
pub uninterp spec fn tar_wf(data: Seq<u8>) -> bool;

/// The payload of the gzip stream `data`.
pub uninterp spec fn gz_plain_of(data: Seq<u8>) -> Seq<u8>;

/// Whether the gzip stream `data` decodes without error.
pub uninterp spec fn gz_wf(data: Seq<u8>) -> bool;

/// The payload of the xz stream `data`.
pub uninterp spec fn xz_plain_of(data: Seq<u8>) -> Seq<u8>;

/// Whether the xz stream `data` decodes without error.
pub uninterp spec fn xz_wf(data: Seq<u8>) -> bool;

/// The payload of the bzip2 stream `data`.
pub uninterp spec fn bz2_plain_of(data: Seq<u8>) -> Seq<u8>;

/// Whether the bzip2 stream `data` decodes without error.
pub uninterp spec fn bz2_wf(data: Seq<u8>) -> bool;

/// The payload of the zstd stream `data`.
pub uninterp spec fn zst_plain_of(data: Seq<u8>) -> Seq<u8>;

/// Whether the zstd stream `data` decodes without error.
pub uninterp spec fn zst_wf(data: Seq<u8>) -> bool;

/// The names already started in a ZIP writer, in the order they were
/// started.
pub uninterp spec fn zw_names(w: ZipBuilder) -> Seq<Seq<char>>;

/// The bytes written into each started entry, in the same order;
/// directory entries hold the empty sequence.
pub uninterp spec fn zw_data(w: ZipBuilder) -> Seq<Seq<u8>>;

/// Per started entry, whether it was started with the `Stored` method
/// (directories always are).
pub uninterp spec fn zw_methods(w: ZipBuilder) -> Seq<bool>;

/// The writer is healthy: backed by the in-memory cursor, not poisoned by
/// an earlier failure, and every recorded entry within the plain-ZIP
/// limits.
pub uninterp spec fn zw_ok(w: ZipBuilder) -> bool;

/// A file entry is currently open for writing (a `start_file` happened
/// last, not an `add_directory` or nothing).
pub uninterp spec fn zw_writing(w: ZipBuilder) -> bool;

/// No two names in `s` are equal.
pub open spec fn spec_unique_names(s: Seq<Seq<char>>) -> bool {
    forall|i: int, j: int| 0 <= i < j < s.len() ==> s[i] != s[j]
}

// ------------------------------------------------------------------
// Filesystem probe.
// ------------------------------------------------------------------

/// Relies on `std::path::Path::exists`. The answer depends on the disk at
/// the moment of the call, so nothing is promised about it.
#[verifier::external_body]
pub fn path_exists(p: &str) -> bool {
    std::path::Path::new(p).exists()
}

// ------------------------------------------------------------------
// ZIP reading (zip crate), over in-memory archive bytes.
// ------------------------------------------------------------------

/// Relies on the `zip` crate's error taxonomy: `InvalidPassword`, and
/// `UnsupportedArchive` carrying its documented password-required text,
/// mean that usable credentials were missing; everything else is a decode
/// or I/O failure.
#[verifier::external_body]
fn zip_err(e: zip::result::ZipError) -> FastZipError {
    match e {
        zip::result::ZipError::InvalidPassword => FastZipError::PasswordRequired,
        zip::result::ZipError::UnsupportedArchive(m) if m
            == zip::result::ZipError::PASSWORD_REQUIRED => FastZipError::PasswordRequired,
        zip::result::ZipError::Io(io) => FastZipError::Io(format!("{}", io)),
        other => FastZipError::Zip(format!("{}", other)),
    }
}

/// Relies on `zip::ZipArchive::new` and `name_for_index`: the member names
/// come from the central directory of `data` alone, in directory order.
#[verifier::external_body]
pub(crate) fn zip_entry_names(data: &Vec<u8>) -> (r: Result<Vec<String>, FastZipError>)
    ensures
        (r is Ok) <==> zip_wf(data@),
        r matches Ok(v) ==> v.deep_view() == zip_names_of(data@),
        r matches Err(e) ==> e is Zip || e is Io || e is PasswordRequired,
{
    let a = zip::ZipArchive::new(std::io::Cursor::new(data.as_slice())).map_err(zip_err)?;
    Ok((0..a.len()).map(|i| a.name_for_index(i).unwrap_or_default().to_string()).collect())
}

/// Relies on `zip::ZipArchive::by_index_decrypt`: the decrypted content of
/// member `i` is a function of the archive bytes, the index and the
/// password alone; a wrong password surfaces as `InvalidPassword`.
#[verifier::external_body]
pub(crate) fn zip_entry_bytes_decrypt(data: &Vec<u8>, i: usize, password: &str) -> (r: Result<
    Vec<u8>,
    FastZipError,
>)
    ensures
        (r is Ok) <==> (zip_wf(data@) && zip_entry_ok(data@, i as int, password@)),
        r matches Ok(v) ==> v@ == zip_entry_decrypted(data@, i as int, password@),
        r matches Err(e) ==> e is Zip || e is Io || e is PasswordRequired,
{
    let mut a = zip::ZipArchive::new(std::io::Cursor::new(data.as_slice())).map_err(zip_err)?;
    let mut f = a.by_index_decrypt(i, password.as_bytes()).map_err(zip_err)?;
    let mut out: Vec<u8> = Vec::new();
    std::io::Read::read_to_end(&mut f, &mut out).map_err(
        |e| FastZipError::Io(format!("{}", e)),
    )?;
    Ok(out)
}

/// Relies on `zip::ZipArchive::extract`: materializes every member under
/// `dest` (creating directories as needed) with the crate's own
/// traversal-safe name handling. Writes to disk, so nothing is promised.
#[verifier::external_body]
pub(crate) fn zip_extract_all(data: &Vec<u8>, dest: &str) -> (r: Result<(), FastZipError>)
    ensures
        r matches Err(e) ==> e is Zip || e is Io || e is PasswordRequired,
{
    let mut a = zip::ZipArchive::new(std::io::Cursor::new(data.as_slice())).map_err(zip_err)?;
    a.extract(std::path::Path::new(dest)).map_err(zip_err)
}

// ------------------------------------------------------------------
// ZIP writing (zip crate), into an in-memory buffer.
// ------------------------------------------------------------------

/// Relies on `zip::ZipWriter::new`: a fresh writer holds no entries, is
/// healthy, and has no file open.
#[verifier::external_body]
pub(crate) fn zw_new() -> (w: ZipBuilder)
    ensures
        zw_names(w) == Seq::<Seq<char>>::empty(),
        zw_data(w) == Seq::<Seq<u8>>::empty(),
        zw_methods(w) == Seq::<bool>::empty(),
        zw_ok(w),
        !zw_writing(w),
{
    ZipBuilder { inner: zip::ZipWriter::new(std::io::Cursor::new(Vec::new())) }
}

/// Relies on `zip::ZipWriter::start_file` with the `Stored` compression
/// method: on success one more entry, under `name`, has been started and
/// is open for writing. Into the in-memory cursor the call fails only on
/// a duplicate name or a name whose UTF-8 form overflows the 16-bit name
/// field of the local header; the stated length bound on characters keeps
/// the latter out.
#[verifier::external_body]
pub(crate) fn zw_start_file_stored(w: &mut ZipBuilder, name: &str) -> (r:
    Result<(), FastZipError>)
    ensures
        r is Ok ==> zw_names(*final(w)) == zw_names(*old(w)).push(name@),
        r is Ok ==> zw_data(*final(w)) == zw_data(*old(w)).push(Seq::<u8>::empty()),
        r is Ok ==> zw_methods(*final(w)) == zw_methods(*old(w)).push(true),
        r is Ok ==> zw_writing(*final(w)),
        zw_ok(*old(w)) && !zw_names(*old(w)).contains(name@) && name@.len() <= 0x3fff ==> r is Ok
            && zw_ok(*final(w)),
{
    let opts = zip::write::SimpleFileOptions::default().compression_method(
        zip::CompressionMethod::Stored,
    );
    w.inner.start_file(name, opts).map_err(zip_err)
}

/// Relies on `zip::ZipWriter::start_file` with the default (Deflate)
/// options: as the stored variant, with the entry recorded as compressed.
#[verifier::external_body]
pub(crate) fn zw_start_file_deflated(w: &mut ZipBuilder, name: &str) -> (r:
    Result<(), FastZipError>)
    ensures
        r is Ok ==> zw_names(*final(w)) == zw_names(*old(w)).push(name@),
        r is Ok ==> zw_data(*final(w)) == zw_data(*old(w)).push(Seq::<u8>::empty()),
        r is Ok ==> zw_methods(*final(w)) == zw_methods(*old(w)).push(false),
        r is Ok ==> zw_writing(*final(w)),
        zw_ok(*old(w)) && !zw_names(*old(w)).contains(name@) && name@.len() <= 0x3fff ==> r is Ok
            && zw_ok(*final(w)),
{
    let opts = zip::write::SimpleFileOptions::default();
    w.inner.start_file(name, opts).map_err(zip_err)
}

/// Relies on `std::io::Write::write_all` as implemented by
/// `zip::ZipWriter`: appends `data` to the open entry and starts no new
/// one. Callers must have started an entry (`write_all` short-circuits an
/// empty buffer, so with no entry at all an empty write would succeed
/// while touching nothing). Into the in-memory cursor the call fails only
/// when no file is open or when the entry crosses the ZIP64 size
/// threshold; health is promised up to that threshold for a stored entry,
/// and with a conservative margin for a deflated one, whose *compressed*
/// size is what the writer later checks and which can exceed the input by
/// a few bytes per 16 KiB block on incompressible data.
#[verifier::external_body]
pub(crate) fn zw_write_all(w: &mut ZipBuilder, data: &Vec<u8>) -> (r: Result<
    (),
    FastZipError,
>)
    requires
        zw_data(*old(w)).len() > 0,
    ensures
        r is Ok ==> zw_names(*final(w)) == zw_names(*old(w)),
        r is Ok ==> zw_methods(*final(w)) == zw_methods(*old(w)),
        r is Ok ==> zw_data(*final(w)) == zw_data(*old(w)).update(
            zw_data(*old(w)).len() - 1,
            zw_data(*old(w)).last() + data@,
        ),
        r is Ok ==> zw_writing(*final(w)) == zw_writing(*old(w)),
        zw_ok(*old(w)) && zw_writing(*old(w)) && zw_data(*old(w)).last().len() + data@.len() <= (
        if zw_methods(*old(w)).last() {
            0xffffffffu64 as int
        } else {
            0xff000000u64 as int
        }) ==> r is Ok && zw_ok(*final(w)),
{
    std::io::Write::write_all(&mut w.inner, data.as_slice()).map_err(|e| FastZipError::Io(format!("{}", e)))
}

/// Relies on `zip::ZipWriter::add_directory`: on success one more entry,
/// under the directory name, has been started (always `Stored`, holding no
/// data, leaving no file open). The writer appends a slash to a name that
/// lacks one, so only names already ending in a separator are accepted
/// here; it fails only on a duplicate or overlong name.
#[verifier::external_body]
pub(crate) fn zw_add_directory(w: &mut ZipBuilder, name: &str) -> (r: Result<
    (),
    FastZipError,
>)
    requires
        name@.len() > 0,
        name@[name@.len() - 1] == '/' || name@[name@.len() - 1] == '\\',
    ensures
        r is Ok ==> zw_names(*final(w)) == zw_names(*old(w)).push(name@),
        r is Ok ==> zw_data(*final(w)) == zw_data(*old(w)).push(Seq::<u8>::empty()),
        r is Ok ==> zw_methods(*final(w)) == zw_methods(*old(w)).push(true),
        r is Ok ==> !zw_writing(*final(w)),
        zw_ok(*old(w)) && !zw_names(*old(w)).contains(name@) && name@.len() <= 0x3fff ==> r is Ok
            && zw_ok(*final(w)),
{
    w.inner.add_directory(name, zip::write::SimpleFileOptions::default()).map_err(zip_err)
}

/// Relies on `zip::ZipWriter::finish`: finalizing into the in-memory
/// cursor cannot fail on a healthy writer (oversized central directories
/// get the ZIP64 footer automatically). The central directory of the
/// produced bytes lists exactly the started entries, in order, with their
/// recorded compression methods, and — the entries being unencrypted —
/// `by_index_decrypt` with any password reads back exactly the bytes that
/// were written into each entry. All of that needs the names to be unique
/// (the reader indexes members by name; the writer refuses duplicates, so
/// a writer built only through these wrappers satisfies it).
#[verifier::external_body]
pub(crate) fn zw_finish(w: ZipBuilder) -> (r: Result<Vec<u8>, FastZipError>)
    ensures
        zw_ok(w) ==> r is Ok,
        r matches Ok(b) ==> (spec_unique_names(zw_names(w)) ==> zip_names_of(b@) == zw_names(w)
            && zip_wf(b@)),
        r matches Ok(b) ==> (spec_unique_names(zw_names(w)) ==> forall|i: int|
            0 <= i < zw_names(w).len() ==> #[trigger] zip_entry_stored(b@, i) == zw_methods(w)[i]),
        r matches Ok(b) ==> (spec_unique_names(zw_names(w)) ==> forall|i: int, pw: Seq<char>|
            0 <= i < zw_names(w).len() ==> #[trigger] zip_entry_ok(b@, i, pw)
                && zip_entry_decrypted(b@, i, pw) == zw_data(w)[i]),
{
    let cursor = w.inner.finish().map_err(zip_err)?;
    Ok(cursor.into_inner())
}

// ------------------------------------------------------------------
// 7z (sevenz_rust), path-based: results depend on the disk.
// ------------------------------------------------------------------

/// Relies on `sevenz_rust::Archive::open`: reads the archive's header table
/// from disk and hands out its entry names. Disk-dependent, so nothing is
/// promised about the names.
#[verifier::external_body]
pub(crate) fn sz_list_names(path: &str) -> (r: Result<Vec<String>, FastZipError>)
    ensures
        r matches Err(e) ==> e is SevenZ,
{
    let archive = sevenz_rust::Archive::open(std::path::Path::new(path)).map_err(
        |e| FastZipError::SevenZ(format!("{}", e)),
    )?;
    Ok(archive.files.iter().map(|f| f.name().to_string()).collect())
}

/// Relies on `sevenz_rust::decompress_file`: unpacks the whole archive
/// under `dest`, creating the directory if needed.
#[verifier::external_body]
pub(crate) fn sz_extract(path: &str, dest: &str) -> (r: Result<(), FastZipError>)
    ensures
        r matches Err(e) ==> e is SevenZ,
{
    sevenz_rust::decompress_file(std::path::Path::new(path), std::path::Path::new(dest)).map_err(
        |e| FastZipError::SevenZ(format!("{}", e)),
    )
}

/// Relies on `sevenz_rust::decompress_file_with_password`: as
/// `decompress_file`, decrypting with the given password.
#[verifier::external_body]
pub(crate) fn sz_extract_with_password(path: &str, dest: &str, password: &str) -> (r: Result<
    (),
    FastZipError,
>)
    ensures
        r matches Err(e) ==> e is SevenZ,
{
    sevenz_rust::decompress_file_with_password(
        std::path::Path::new(path),
        std::path::Path::new(dest),
        sevenz_rust::Password::from(password),
    ).map_err(|e| FastZipError::SevenZ(format!("{}", e)))
}

/// Relies on `sevenz_rust::compress_to_path`: packs the file or directory
/// at `src` into a fresh 7z archive at `dest`.
#[verifier::external_body]
pub(crate) fn sz_compress(src: &str, dest: &str) -> (r: Result<(), FastZipError>)
    ensures
        r matches Err(e) ==> e is SevenZ,
{
    sevenz_rust::compress_to_path(std::path::Path::new(src), std::path::Path::new(dest)).map_err(
        |e| FastZipError::SevenZ(format!("{}", e)),
    )
}

// ------------------------------------------------------------------
// TAR (tar crate), over in-memory stream bytes.
// ------------------------------------------------------------------

/// Relies on `tar::Archive::entries` and `Entry::path`: the member names
/// are a function of the stream bytes alone, in entry order (lossy UTF-8).
#[verifier::external_body]
pub(crate) fn tar_entry_names(data: &Vec<u8>) -> (r: Result<Vec<String>, FastZipError>)
    ensures
        (r is Ok) <==> tar_wf(data@),
        r matches Ok(v) ==> v.deep_view() == tar_names_of(data@),
        r matches Err(e) ==> e is Tar,
{
    let mut a = tar::Archive::new(std::io::Cursor::new(data.as_slice()));
    let entries = a.entries().map_err(|e| FastZipError::Tar(format!("{}", e)))?;
    entries.map(
        |e| {
            let e = e.map_err(|err| FastZipError::Tar(format!("{}", err)))?;
            let p = e.path().map_err(|err| FastZipError::Tar(format!("{}", err)))?;
            Ok(p.to_string_lossy().into_owned())
        },
    ).collect()
}

/// Relies on `tar::Archive::unpack`: materializes every member under
/// `dest` (creating it if needed) with the crate's own path sanitation.
/// Writes to disk, so nothing is promised.
#[verifier::external_body]
pub(crate) fn tar_unpack(data: &Vec<u8>, dest: &str) -> (r: Result<(), FastZipError>)
    ensures
        r matches Err(e) ==> e is Tar,
{
    let mut a = tar::Archive::new(std::io::Cursor::new(data.as_slice()));
    a.unpack(std::path::Path::new(dest)).map_err(|e| FastZipError::Tar(format!("{}", e)))
}

// ------------------------------------------------------------------
// Single-stream decoders, bytes to bytes. Errors carry the codec's
// message; the caller chooses the library error variant.
// ------------------------------------------------------------------

/// Relies on `flate2::read::GzDecoder`: the decompressed payload is a
/// function of the stream bytes alone.
#[verifier::external_body]
pub(crate) fn gz_decode(data: &Vec<u8>) -> (r: Result<Vec<u8>, String>)
    ensures
        (r is Ok) <==> gz_wf(data@),
        r matches Ok(v) ==> v@ == gz_plain_of(data@),
{
    let mut d = flate2::read::GzDecoder::new(data.as_slice());
    let mut out: Vec<u8> = Vec::new();
    std::io::Read::read_to_end(&mut d, &mut out).map_err(|e| format!("{}", e))?;
    Ok(out)
}

/// Relies on `xz2::read::XzDecoder`: the decompressed payload is a
/// function of the stream bytes alone.
#[verifier::external_body]
pub(crate) fn xz_decode(data: &Vec<u8>) -> (r: Result<Vec<u8>, String>)
    ensures
        (r is Ok) <==> xz_wf(data@),
        r matches Ok(v) ==> v@ == xz_plain_of(data@),
{
    let mut d = xz2::read::XzDecoder::new(data.as_slice());
    let mut out: Vec<u8> = Vec::new();
    std::io::Read::read_to_end(&mut d, &mut out).map_err(|e| format!("{}", e))?;
    Ok(out)
}

/// Relies on `bzip2::read::BzDecoder`: the decompressed payload is a
/// function of the stream bytes alone.
#[verifier::external_body]
pub(crate) fn bz2_decode(data: &Vec<u8>) -> (r: Result<Vec<u8>, String>)
    ensures
        (r is Ok) <==> bz2_wf(data@),
        r matches Ok(v) ==> v@ == bz2_plain_of(data@),
{
    let mut d = bzip2::read::BzDecoder::new(data.as_slice());
    let mut out: Vec<u8> = Vec::new();
    std::io::Read::read_to_end(&mut d, &mut out).map_err(|e| format!("{}", e))?;
    Ok(out)
}

/// Relies on `zstd::stream::decode_all`: the decompressed payload is a
/// function of the stream bytes alone.
#[verifier::external_body]
pub(crate) fn zst_decode(data: &Vec<u8>) -> (r: Result<Vec<u8>, String>)
    ensures
        (r is Ok) <==> zst_wf(data@),
        r matches Ok(v) ==> v@ == zst_plain_of(data@),
{
    zstd::stream::decode_all(data.as_slice()).map_err(|e| format!("{}", e))
}

} // verus!
