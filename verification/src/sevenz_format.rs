//! The 7z adapter: listing through the archive's header table, extraction
//! through the codec's whole-archive unpack.

use vstd::prelude::*;

use crate::codecs::{sz_extract, sz_extract_with_password, sz_list_names};
use crate::error::FastZipError;
use crate::smart_dest::{classify_top_level, spec_classified, TopLevelEntries};

verus! {

/// 7z format adapter.
pub struct SevenZExtractor;

impl SevenZExtractor {
    /// List and classify the archive's top-level entries. The names come
    /// from the disk, so all that is promised is that the result is the
    /// classification of the name list that was read.
    pub fn list_top_level(path: &str) -> (r: Result<TopLevelEntries, FastZipError>)
        ensures
            r matches Ok(t) ==> exists|ns: Seq<Seq<char>>| spec_classified(t, ns),
            r matches Err(e) ==> e is SevenZ,
    {
        let names = match sz_list_names(path) {
            Ok(v) => v,
            Err(e) => {
                return Err(e);
            },
        };
        let t = classify_top_level(&names);
        proof {
            let ns = names@.map_values(|s: String| s@);
            assert(spec_classified(t, ns));
        }
        Ok(t)
    }

    /// Unpack the whole archive into `dest`, decrypting when a password is
    /// given.
    pub fn extract(path: &str, dest: &str, password: Option<&str>) -> (r: Result<(), FastZipError>)
        ensures
            r matches Err(e) ==> e is SevenZ,
    {
        match password {
            Some(pw) => sz_extract_with_password(path, dest, pw),
            None => sz_extract(path, dest),
        }
    }
}

} // verus!
