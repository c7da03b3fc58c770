//! Translation of host-native filesystem paths (drive designators and
//! backslash separators) into the foreign namespace used by a companion
//! environment, where host drives are mounted under `/mnt/<letter>` and
//! forward slashes separate components.

pub mod args;
pub mod classify;
pub mod laws;
pub mod rewrite;
pub mod translate;

pub use classify::get_drive_letter;
pub use classify::is_unix_path;
pub use classify::remove_first;
pub use classify::UnixPathType;
pub use args::escape;
pub use args::file_stem;
pub use rewrite::backslash_to_slash;
pub use rewrite::format_path;
pub use translate::convert_path;
pub use translate::TranslateError;
pub use translate::TranslationContext;
