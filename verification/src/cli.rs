//! The command-line surface as plain data: the parsed arguments and the
//! little decision logic they carry. Argument parsing itself happens
//! outside the library and fills these structs.

use vstd::prelude::*;

verus! {

/// Arguments of a compression run.
#[derive(Debug, Clone)]
pub struct CompressArgs {
    /// Files or directories to pack.
    pub sources: Vec<String>,
    /// Output archive path (`.zip` or `.7z`).
    pub output: Option<String>,
    /// Descend into directories.
    pub recursive: bool,
    /// Use Deflate instead of store-only.
    pub no_fast: bool,
    /// Print nothing on success.
    pub quiet: bool,
}

/// Arguments of an extraction run.
#[derive(Debug, Clone)]
pub struct ExtractArgs {
    /// Archives to extract.
    pub archive: Vec<String>,
    /// Target directory.
    pub dest: Option<String>,
    /// Smart destination selection (the default).
    pub smart: bool,
    /// Extract flat into the target, overriding smart mode.
    pub flat: bool,
    /// Overwrite existing files.
    pub overwrite: bool,
    /// Password for encrypted archives.
    pub password: Option<String>,
    /// Print nothing on success.
    pub quiet: bool,
}

impl ExtractArgs {
    /// Whether smart extraction is in effect: `flat` wins over `smart`.
    pub fn smart(&self) -> (r: bool)
        ensures
            r == (!self.flat && self.smart),
    {
        if self.flat {
            false
        } else {
            self.smart
        }
    }
}

/// The chosen subcommand.
#[derive(Debug, Clone)]
pub enum Command {
    /// Extract archives.
    Extract(ExtractArgs),
    /// Shorthand for `Extract`.
    X(ExtractArgs),
    /// Build an archive.
    Compress(CompressArgs),
    /// Shorthand for `Compress`.
    C(CompressArgs),
}

/// The whole command line.
#[derive(Debug, Clone)]
pub struct Cli {
    pub command: Command,
}

} // verus!
