//! A verified recursive directory enumerator.
//!
//! The traversal logic works on an in-memory snapshot of a directory
//! tree and produces, for each entry, either the path that was found or
//! a description of the error that kept it from being read.  An
//! optional glob pattern, compiled and matched by the `globset` crate,
//! filters the found paths.

pub mod utils;

pub use utils::find::find;
pub use utils::find::find_glob;
pub use utils::find::find_recursive;
pub use utils::glob::Matcher;
pub use utils::result::DirectoryEntry;
pub use utils::result::FindError;
pub use utils::tree::descends_into;
pub use utils::tree::DirChild;
pub use utils::tree::FsNode;
