//! Smart archive extraction and creation.
//!
//! The library decides, from an archive's name and leading bytes, what
//! container format it holds; inspects its top-level entries; chooses a
//! sensible destination directory; and dispatches extraction or compression
//! to the per-format codec adapters.

pub mod cli;
pub mod codecs;
pub mod compress;
pub mod error;
pub mod extractor;
pub mod formats;
pub mod path_utils;
pub mod preview;
pub mod rar_format;
pub mod sevenz_format;
pub mod single;
pub mod smart_dest;
pub mod strutil;
pub mod tar_format;
pub mod zip_format;

pub use cli::{Cli, Command, CompressArgs, ExtractArgs};
pub use compress::{compress_to_7z, compress_to_zip, plan_compress_target, CompressOptions, ZipSource};
pub use error::FastZipError;
pub use extractor::{extract_many, extract_one, ExtractOptions, ExtractOutcome, OutputEntry};
pub use formats::{detect_format, ArchiveFormat};
pub use path_utils::normalize_entry_path;
pub use preview::{format_name, list_top_level};
pub use rar_format::RarExtractor;
pub use sevenz_format::SevenZExtractor;
pub use single::extract_single_compressed;
pub use smart_dest::{list_archive_top_level, resolve_smart_dest, TopLevelEntries};
pub use tar_format::TarExtractor;
pub use zip_format::ZipExtractor;
