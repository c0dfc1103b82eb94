use vstd::prelude::*;

verus! {

/// The error taxonomy of the library.
///
/// Outside codec failures are carried as their message text: `Io` for
/// filesystem-level failures, `Zip`/`SevenZ`/`Tar` for per-format decode
/// failures, `UnsupportedFormat` for a recognized format with no usable
/// adapter, `FileNotFound` for a missing archive or source path,
/// `FormatDetectionFailed` when neither extension nor magic bytes matched,
/// `PasswordRequired` for encrypted content without a usable password, and
/// `Other` for input-validation failures.
#[derive(Debug, Clone, PartialEq, Eq)]
pub enum FastZipError {
    Io(String),
    Zip(String),
    SevenZ(String),
    Tar(String),
    UnsupportedFormat(String),
    FileNotFound(String),
    FormatDetectionFailed,
    PasswordRequired,
    Other(String),
}

} // verus!
