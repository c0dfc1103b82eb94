//! The ZIP adapter: listing from the central directory, bulk extraction
//! through the codec, and a per-member decrypting path that owns each
//! entry's output location.

use vstd::prelude::*;
use vstd::string::StrSliceExecFns;

use crate::codecs::{
    zip_entry_bytes_decrypt, zip_entry_decrypted, zip_entry_names, zip_entry_ok, zip_extract_all,
    zip_names_of, zip_wf,
};
use crate::error::FastZipError;
use crate::extractor::OutputEntry;
use crate::path_utils::{join_components, normalize_entry_path, spec_join_rel, spec_normalize};
use crate::smart_dest::{classify_top_level, spec_classified, spec_is_sep, TopLevelEntries};
use crate::strutil::{join_path, spec_join};

verus! {

/// Where a member named `name` lands below `dest`: its normalized
/// components joined under the destination directory.
pub open spec fn spec_entry_out_path(dest: Seq<char>, name: Seq<char>) -> Seq<char> {
    spec_join(dest, spec_join_rel(spec_normalize(name)))
}

/// A member name denotes a directory when it ends in a separator.
pub open spec fn spec_is_dir_name(n: Seq<char>) -> bool {
    n.len() > 0 && spec_is_sep(n[n.len() - 1])
}

/// Every non-directory member of the ZIP archive `data` can be decrypted
/// and read with `pw`.
pub open spec fn spec_zip_readable(data: Seq<u8>, pw: Seq<char>) -> bool {
    forall|i: int|
        0 <= i < zip_names_of(data).len() && !spec_is_dir_name(#[trigger] zip_names_of(data)[i])
            ==> zip_entry_ok(data, i, pw)
}

/// `v` is the write plan for decrypting every member of the ZIP archive
/// `data` below `dest` with `pw`: one output per member, at its normalized
/// path, directories flagged, file contents as decrypted.
pub open spec fn spec_zip_plan(
    v: Seq<OutputEntry>,
    data: Seq<u8>,
    dest: Seq<char>,
    pw: Seq<char>,
) -> bool {
    &&& v.len() == zip_names_of(data).len()
    &&& (forall|j: int|
        0 <= j < v.len() ==> (#[trigger] v[j]).path@ == spec_entry_out_path(
            dest,
            zip_names_of(data)[j],
        ))
    &&& (forall|j: int|
        0 <= j < v.len() ==> (#[trigger] v[j]).is_dir == spec_is_dir_name(zip_names_of(data)[j]))
    &&& (forall|j: int|
        0 <= j < v.len() && !(#[trigger] v[j]).is_dir ==> v[j].data@ == zip_entry_decrypted(
            data,
            j,
            pw,
        ))
}

/// ZIP format adapter.
pub struct ZipExtractor;

impl ZipExtractor {
    /// List and classify the archive's top-level entries. Listing reads
    /// only the central directory, so it never needs a password.
    pub fn list_top_level(data: &Vec<u8>) -> (r: Result<TopLevelEntries, FastZipError>)
        ensures
            (r is Ok) <==> zip_wf(data@),
            r matches Ok(t) ==> spec_classified(t, zip_names_of(data@)),
            r matches Err(e) ==> e is Zip || e is Io || e is PasswordRequired,
    {
        let names = zip_entry_names(data)?;
        let t = classify_top_level(&names);
        proof {
            assert(names.deep_view() =~= names@.map_values(|s: String| s@));
        }
        Ok(t)
    }

    /// Materialize every member, decrypted with `pw`, as a write plan: the
    /// caller performs the writes. Every output path goes through the
    /// entry-name normalizer.
    pub fn read_entries_decrypted(data: &Vec<u8>, dest: &str, pw: &str) -> (r: Result<
        Vec<OutputEntry>,
        FastZipError,
    >)
        ensures
            zip_wf(data@) && spec_zip_readable(data@, pw@) ==> r is Ok,
            r matches Ok(v) ==> spec_zip_plan(v@, data@, dest@, pw@),
            r matches Err(e) ==> e is Zip || e is Io || e is PasswordRequired,
    {
        let names = zip_entry_names(data)?;
        proof {
            assert(zip_wf(data@));
            assert(names.deep_view() =~= names@.map_values(|s: String| s@));
        }
        let mut out: Vec<OutputEntry> = Vec::new();
        let mut i: usize = 0;
        while i < names.len()
            invariant
                i <= names@.len(),
                zip_wf(data@),
                names@.map_values(|s: String| s@) == zip_names_of(data@),
                out@.len() == i,
                forall|j: int|
                    0 <= j < i ==> (#[trigger] out@[j]).path@ == spec_entry_out_path(
                        dest@,
                        zip_names_of(data@)[j],
                    ),
                forall|j: int|
                    0 <= j < i ==> (#[trigger] out@[j]).is_dir == spec_is_dir_name(
                        zip_names_of(data@)[j],
                    ),
                forall|j: int|
                    0 <= j < i && !(#[trigger] out@[j]).is_dir ==> out@[j].data@
                        == zip_entry_decrypted(data@, j, pw@),
            decreases names@.len() - i,
        {
            let name = &names[i];
            proof {
                assert(zip_names_of(data@)[i as int] == names@[i as int]@);
            }
            let comps = normalize_entry_path(name.as_str());
            let rel = join_components(&comps);
            let p = join_path(dest, rel.as_str());
            let n_len: usize = name.as_str().unicode_len();
            let is_dir: bool = if n_len == 0 {
                false
            } else {
                let c = name.as_str().get_char(n_len - 1);
                c == '/' || c == '\\'
            };
            if is_dir {
                out.push(OutputEntry { path: p, data: Vec::new(), is_dir: true });
            } else {
                let b = match zip_entry_bytes_decrypt(data, i, pw) {
                    Ok(b) => b,
                    Err(e) => {
                        proof {
                            assert(!spec_is_dir_name(zip_names_of(data@)[i as int]));
                            assert(!zip_entry_ok(data@, i as int, pw@));
                        }
                        return Err(e);
                    },
                };
                out.push(OutputEntry { path: p, data: b, is_dir: false });
            }
            i = i + 1;
        }
        Ok(out)
    }

    /// Extract the archive below `dest`. Without a password the codec's
    /// whole-archive extraction does the writes and the plan is empty;
    /// with one, the returned plan holds every member for the caller to
    /// write.
    pub fn extract(data: &Vec<u8>, dest: &str, password: Option<&str>) -> (r: Result<
        Vec<OutputEntry>,
        FastZipError,
    >)
        ensures
            password is None ==> (r matches Ok(v) ==> v@.len() == 0),
            password matches Some(pw) ==> (r matches Ok(v) ==> spec_zip_plan(
                v@,
                data@,
                dest@,
                pw@,
            )),
            password is Some && zip_wf(data@) && spec_zip_readable(data@, password->0@) ==> r
                is Ok,
            r matches Err(e) ==> e is Zip || e is Io || e is PasswordRequired,
    {
        match password {
            Some(pw) => Self::read_entries_decrypted(data, dest, pw),
            None => {
                zip_extract_all(data, dest)?;
                Ok(Vec::new())
            },
        }
    }
}

} // verus!
