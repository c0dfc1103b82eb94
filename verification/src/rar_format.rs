//! The RAR adapter. The format tag always includes `Rar`; this build ships
//! the capability-gated stub, which deterministically reports the format as
//! unsupported instead of decoding.

use vstd::prelude::*;

use crate::error::FastZipError;
use crate::smart_dest::TopLevelEntries;

verus! {

/// RAR adapter stub: every operation fails with `UnsupportedFormat`.
pub struct RarExtractor;

impl RarExtractor {
    /// Listing a RAR archive is not available in this build.
    pub fn list_top_level(_path: &str) -> (r: Result<TopLevelEntries, FastZipError>)
        ensures
            r matches Err(e) && e matches FastZipError::UnsupportedFormat(m) && m@ == "RAR"@,
    {
        Err(FastZipError::UnsupportedFormat("RAR".to_owned()))
    }

    /// Extracting a RAR archive is not available in this build.
    pub fn extract(_path: &str, _dest: &str, _password: Option<&str>) -> (r: Result<
        (),
        FastZipError,
    >)
        ensures
            r matches Err(e) && e matches FastZipError::UnsupportedFormat(m) && m@ == "RAR"@,
    {
        Err(FastZipError::UnsupportedFormat("RAR".to_owned()))
    }
}

} // verus!
