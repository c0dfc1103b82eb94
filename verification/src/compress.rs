//! Building ZIP and 7z archives.
//!
//! ZIP archives are assembled in memory from already-loaded sources; the
//! caller walks the filesystem, loads file contents, and writes the
//! returned bytes out. 7z archives go through the codec's own path-based
//! packer.

use vstd::prelude::*;
use vstd::string::StrSliceExecFns;
use vstd::string::StringExecFns;

use crate::codecs::{
    path_exists, spec_unique_names, sz_compress, zip_entry_decrypted, zip_entry_ok,
    zip_entry_stored, zip_names_of, zip_wf, zw_add_directory, zw_data, zw_finish, zw_methods,
    zw_names, zw_new, zw_ok, zw_start_file_deflated, zw_start_file_stored, zw_write_all,
};
use crate::error::FastZipError;
use crate::extractor::OutputEntry;
use crate::formats::{spec_extension_of, spec_file_name, ArchiveFormat};
use crate::strutil::{chars_to_string, last_index_of, str_eq, to_ascii_lower};
use crate::zip_format::{spec_entry_out_path, spec_is_dir_name, spec_zip_plan};

verus! {

/// How an archive is built.
#[derive(Debug, Clone)]
pub struct CompressOptions {
    /// Descend into directories when collecting sources.
    pub recursive: bool,
    /// Password (ZIP only; unused by the present ZIP writer path).
    pub password: Option<String>,
    /// Store entries without compressing; otherwise Deflate.
    pub fast: bool,
}

impl Default for CompressOptions {
    /// Recursive, store-only, no password.
    fn default() -> (r: Self)
        ensures
            r.recursive,
            r.password is None,
            r.fast,
    {
        CompressOptions { recursive: true, password: None, fast: true }
    }
}

/// One already-loaded source for a ZIP archive: its relative name inside
/// the archive, its bytes, and whether it is a directory entry.
pub struct ZipSource {
    pub name: String,
    pub data: Vec<u8>,
    pub is_dir: bool,
}

/// `s` with every backslash turned into a forward slash.
pub open spec fn spec_slashes(s: Seq<char>) -> Seq<char> {
    s.map_values(
        |c: char|
            if c == '\\' {
                '/'
            } else {
                c
            },
    )
}

/// The name a source is recorded under inside the archive: separators
/// unified, directories marked by a trailing slash.
pub open spec fn spec_wire_name(src: ZipSource) -> Seq<char> {
    if src.is_dir {
        spec_slashes(src.name@) + "/"@
    } else {
        spec_slashes(src.name@)
    }
}

pub open spec fn spec_wire_names(srcs: Seq<ZipSource>) -> Seq<Seq<char>> {
    srcs.map_values(|s: ZipSource| spec_wire_name(s))
}

/// The bytes each source puts into the archive: its data for a file,
/// nothing for a directory entry.
pub open spec fn spec_wire_data(srcs: Seq<ZipSource>) -> Seq<Seq<u8>> {
    srcs.map_values(
        |s: ZipSource|
            if s.is_dir {
                Seq::<u8>::empty()
            } else {
                s.data@
            },
    )
}

/// The compression method each source is recorded with: directories are
/// always stored; files are stored exactly in fast mode.
pub open spec fn spec_wire_stored(srcs: Seq<ZipSource>, fast: bool) -> Seq<bool> {
    srcs.map_values(|s: ZipSource| s.is_dir || fast)
}

/// The sources fit the plain-ZIP limits the in-memory writer enforces:
/// each name fits the 16-bit name field and each file stays far enough
/// below the ZIP64 size threshold that even deflate's worst-case
/// expansion on incompressible data cannot push the recorded entry over
/// it.
pub open spec fn spec_sources_within_limits(srcs: Seq<ZipSource>) -> bool {
    forall|i: int|
        0 <= i < srcs.len() ==> (#[trigger] srcs[i]).name@.len() + 1 <= 0x3fff
            && srcs[i].data@.len() <= 0xff000000
}

/// `s` with every backslash replaced by a forward slash.
fn to_slashes(s: &str) -> (r: String)
    ensures
        r@ == spec_slashes(s@),
{
    let n: usize = s.unicode_len();
    let mut v: Vec<char> = Vec::new();
    let mut i: usize = 0;
    while i < n
        invariant
            i <= n,
            n == s@.len(),
            v@.len() == i,
            forall|j: int|
                0 <= j < i ==> v@[j] == (if s@[j] == '\\' {
                    '/'
                } else {
                    s@[j]
                }),
        decreases n - i,
    {
        let c = s.get_char(i);
        if c == '\\' {
            v.push('/');
        } else {
            v.push(c);
        }
        i = i + 1;
    }
    let r = chars_to_string(&v);
    proof {
        assert(r@ =~= spec_slashes(s@));
    }
    r
}

/// Pack the given sources into an in-memory ZIP archive: stored when
/// `options.fast` is set, Deflate otherwise. As long as no two sources
/// share a wire name, the produced archive lists exactly those names, in
/// order. (Descending into directories, and so `options.recursive`, is the
/// business of whoever collects the sources.)
pub fn compress_to_zip(sources: &Vec<ZipSource>, options: &CompressOptions) -> (r: Result<
    Vec<u8>,
    FastZipError,
>)
    ensures
        r matches Ok(b) ==> (spec_unique_names(spec_wire_names(sources@)) ==> zip_names_of(b@)
            == spec_wire_names(sources@)),
        r matches Ok(b) ==> (spec_unique_names(spec_wire_names(sources@)) ==> zip_wf(b@)),
        r matches Ok(b) ==> (spec_unique_names(spec_wire_names(sources@)) ==> forall|i: int|
            0 <= i < sources@.len() ==> #[trigger] zip_entry_stored(b@, i) == (
            sources@[i].is_dir || options.fast)),
        r matches Ok(b) ==> (spec_unique_names(spec_wire_names(sources@)) ==> forall|
            i: int,
            pw: Seq<char>,
        |
            0 <= i < sources@.len() ==> #[trigger] zip_entry_decrypted(b@, i, pw)
                == spec_wire_data(sources@)[i] && zip_entry_ok(b@, i, pw)),
        spec_unique_names(spec_wire_names(sources@)) && spec_sources_within_limits(sources@)
            ==> r is Ok,
{
    let ghost wires = spec_wire_names(sources@);
    let ghost all_ok = spec_unique_names(wires) && spec_sources_within_limits(sources@);
    let mut w = zw_new();
    let mut i: usize = 0;
    proof {
        assert(wires.take(0) =~= Seq::<Seq<char>>::empty());
        assert(spec_wire_data(sources@).take(0) =~= Seq::<Seq<u8>>::empty());
        assert(spec_wire_stored(sources@, options.fast).take(0) =~= Seq::<bool>::empty());
    }
    while i < sources.len()
        invariant
            i <= sources@.len(),
            wires == spec_wire_names(sources@),
            all_ok == (spec_unique_names(wires) && spec_sources_within_limits(sources@)),
            zw_names(w) == wires.take(i as int),
            zw_data(w) == spec_wire_data(sources@).take(i as int),
            zw_methods(w) == spec_wire_stored(sources@, options.fast).take(i as int),
            all_ok ==> zw_ok(w),
        decreases sources@.len() - i,
    {
        let src = &sources[i];
        proof {
            assert(wires[i as int] == spec_wire_name(sources@[i as int]));
            if all_ok {
                assert(sources@[i as int].name@.len() + 1 <= 0x3fff);
                if zw_names(w).contains(wires[i as int]) {
                    let j = choose|j: int|
                        0 <= j < wires.take(i as int).len() && wires.take(i as int)[j]
                            == wires[i as int];
                    assert(wires[j] == wires[i as int]);
                    assert(false);
                }
            }
        }
        let base = to_slashes(src.name.as_str());
        if src.is_dir {
            let nm = base.concat("/");
            proof {
                reveal_strlit("/");
                assert(nm@[nm@.len() - 1] == '/');
                assert(nm@ == wires[i as int]);
            }
            let res = zw_add_directory(&mut w, nm.as_str());
            proof {
                if all_ok {
                    assert(res is Ok);
                }
            }
            if let Err(e) = res {
                return Err(e);
            }
        } else {
            proof {
                assert(base@ == wires[i as int]);
            }
            let res = if options.fast {
                zw_start_file_stored(&mut w, base.as_str())
            } else {
                zw_start_file_deflated(&mut w, base.as_str())
            };
            proof {
                if all_ok {
                    assert(res is Ok);
                }
            }
            if let Err(e) = res {
                return Err(e);
            }
            proof {
                assert(zw_data(w).len() > 0);
                if all_ok {
                    assert(zw_data(w).last() =~= Seq::<u8>::empty());
                    assert(sources@[i as int].data@.len() <= 0xff000000);
                }
            }
            let res2 = zw_write_all(&mut w, &src.data);
            proof {
                if all_ok {
                    assert(res2 is Ok);
                }
            }
            if let Err(e) = res2 {
                return Err(e);
            }
        }
        proof {
            assert(wires.take(i + 1) =~= wires.take(i as int).push(wires[i as int]));
            assert(spec_wire_data(sources@).take(i + 1) =~= spec_wire_data(sources@).take(
                i as int,
            ).push(spec_wire_data(sources@)[i as int]));
            assert(spec_wire_stored(sources@, options.fast).take(i + 1) =~= spec_wire_stored(
                sources@,
                options.fast,
            ).take(i as int).push(spec_wire_stored(sources@, options.fast)[i as int]));
            assert(zw_data(w) =~= spec_wire_data(sources@).take(i + 1));
        }
        i = i + 1;
    }
    proof {
        assert(wires.take(sources@.len() as int) =~= wires);
        assert(spec_wire_data(sources@).take(sources@.len() as int) =~= spec_wire_data(sources@));
        assert(spec_wire_stored(sources@, options.fast).take(sources@.len() as int)
            =~= spec_wire_stored(sources@, options.fast));
    }
    let ghost wfin = w;
    let res = zw_finish(w);
    proof {
        if res is Ok && spec_unique_names(wires) {
            let b = res->Ok_0;
            assert(zw_names(wfin) == wires);
            assert forall|i: int, pw: Seq<char>| 0 <= i < sources@.len() implies #[trigger] zip_entry_decrypted(
                b@,
                i,
                pw,
            ) == spec_wire_data(sources@)[i] && zip_entry_ok(b@, i, pw) by {
                assert(spec_unique_names(zw_names(wfin)));
                assert(0 <= i < zw_names(wfin).len());
                assert(zip_entry_ok(b@, i, pw));
                assert(zip_entry_decrypted(b@, i, pw) == zw_data(wfin)[i]);
            }
        }
    }
    res
}

/// Store-mode round trip: whatever `compress_to_zip` promised of an
/// archive built from `sources`, and whatever a decrypting read planned
/// from that archive, every file source's exact bytes reappear in the
/// plan, at the path its wire name normalizes to under the destination.
pub proof fn lemma_zip_round_trip(
    sources: Seq<ZipSource>,
    b: Seq<u8>,
    v: Seq<OutputEntry>,
    dest: Seq<char>,
    pw: Seq<char>,
)
    requires
        spec_unique_names(spec_wire_names(sources)),
        zip_names_of(b) == spec_wire_names(sources),
        forall|i: int, pwx: Seq<char>|
            0 <= i < sources.len() ==> #[trigger] zip_entry_decrypted(b, i, pwx)
                == spec_wire_data(sources)[i],
        spec_zip_plan(v, b, dest, pw),
        forall|i: int|
            0 <= i < sources.len() && !(#[trigger] sources[i]).is_dir ==> !spec_is_dir_name(
                spec_wire_name(sources[i]),
            ),
    ensures
        v.len() == sources.len(),
        forall|i: int|
            0 <= i < sources.len() && !(#[trigger] sources[i]).is_dir ==> v[i].data@
                == sources[i].data@,
        forall|i: int|
            0 <= i < sources.len() ==> (#[trigger] v[i]).path@ == spec_entry_out_path(
                dest,
                spec_wire_name(sources[i]),
            ),
{
    assert(v.len() == sources.len());
    assert forall|i: int| 0 <= i < sources.len() && !(#[trigger] sources[i]).is_dir implies v[i].data@
        == sources[i].data@ by {
        assert(zip_names_of(b)[i] == spec_wire_name(sources[i]));
        assert(v[i].is_dir == spec_is_dir_name(zip_names_of(b)[i]));
        assert(!v[i].is_dir);
        assert(v[i].data@ == zip_entry_decrypted(b, i, pw));
        assert(spec_wire_data(sources)[i] == sources[i].data@);
    }
    assert forall|i: int| 0 <= i < sources.len() implies (#[trigger] v[i]).path@
        == spec_entry_out_path(dest, spec_wire_name(sources[i])) by {
        assert(zip_names_of(b)[i] == spec_wire_name(sources[i]));
    }
}

/// The lowercased extension of the output path, or empty when it has none.
pub open spec fn spec_output_ext(out: Seq<char>) -> Seq<char> {
    match spec_extension_of(spec_file_name(out)) {
        Some(e) => crate::strutil::spec_to_lower(e),
        None => Seq::empty(),
    }
}

/// Validate a compression request: there must be at least one source, the
/// output extension picks the archive format (`.zip` or `.7z`), and 7z
/// takes exactly one source path.
pub fn plan_compress_target(n_sources: usize, output: &str) -> (r: Result<
    ArchiveFormat,
    FastZipError,
>)
    ensures
        n_sources == 0 ==> (r matches Err(e) && e is Other),
        n_sources == 1 && spec_output_ext(output@) == "7z"@ ==> r == Ok::<
            ArchiveFormat,
            FastZipError,
        >(ArchiveFormat::SevenZ),
        n_sources > 1 && spec_output_ext(output@) == "7z"@ ==> (r matches Err(e) && e is Other),
        n_sources > 0 && spec_output_ext(output@) == "zip"@ ==> r == Ok::<
            ArchiveFormat,
            FastZipError,
        >(ArchiveFormat::Zip),
        spec_output_ext(output@) != "zip"@ && spec_output_ext(output@) != "7z"@ ==> (r matches Err(
            e,
        ) && e is Other),
{
    if n_sources == 0 {
        return Err(FastZipError::Other("no source paths".to_owned()));
    }
    let n: usize = output.unicode_len();
    let start: usize = match last_index_of(output, '/') {
        Some(i) => i + 1,
        None => 0,
    };
    let name = output.substring_char(start, n);
    proof {
        crate::strutil::lemma_last_index_of_props(output@, '/');
        assert(name@ =~= spec_file_name(output@));
    }
    let m: usize = name.unicode_len();
    let d: usize = match last_index_of(name, '.') {
        Some(i) => i,
        None => 0,
    };
    let ext: String = if d == 0 {
        String::new()
    } else {
        to_ascii_lower(name.substring_char(d + 1, m))
    };
    proof {
        if d > 0 {
            assert(name@.subrange(d + 1, m as int) =~= name@.skip(d + 1));
        } else {
            assert(Seq::<char>::empty() =~= spec_output_ext(output@));
        }
    }
    proof {
        reveal_strlit("7z");
        reveal_strlit("zip");
        assert(ext@ == spec_output_ext(output@));
    }
    if str_eq(ext.as_str(), "7z") {
        if n_sources > 1 {
            return Err(FastZipError::Other("7z output takes exactly one source path".to_owned()));
        }
        Ok(ArchiveFormat::SevenZ)
    } else if str_eq(ext.as_str(), "zip") {
        Ok(ArchiveFormat::Zip)
    } else {
        Err(FastZipError::Other("the output path must end in .zip or .7z".to_owned()))
    }
}

/// Pack the single file or directory at `source` into a 7z archive at
/// `dest`; a missing source is rejected up front.
pub fn compress_to_7z(source: &str, dest: &str) -> (r: Result<(), FastZipError>)
    ensures
        r matches Err(e) ==> e is FileNotFound || e is SevenZ,
{
    if !path_exists(source) {
        return Err(FastZipError::FileNotFound(source.to_owned()));
    }
    sz_compress(source, dest)
}

} // verus!
