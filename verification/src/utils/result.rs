//! The entry result model: the per-entry outcome of a traversal and
//! the top-level failure type, together with their textual renderings.

use vstd::prelude::*;
use vstd::string::StringExecFns;

verus! {

/// The mathematical value of a [`DirectoryEntry`]: the path text of a
/// found entry, or the message text of a failed one.
#[verifier::ext_equal]
pub enum EntryModel {
    Found(Seq<char>),
    Failed(Seq<char>),
}

/// One caller-visible outcome slot of a traversal: either a path that
/// was listed successfully, or an opaque description of a recoverable
/// error (for example, missing permissions on one subtree).
#[derive(Debug, PartialEq, Eq)]
pub enum DirectoryEntry {
    /// The textual path of an entry that was found.
    Found(String),
    /// The description of a per-entry read error.
    Failed(String),
}

impl View for DirectoryEntry {
    type V = EntryModel;

    open spec fn view(&self) -> EntryModel {
        match self {
            DirectoryEntry::Found(path) => EntryModel::Found(path@),
            DirectoryEntry::Failed(message) => EntryModel::Failed(message@),
        }
    }
}

/// The text an entry renders to: the path verbatim for a found entry,
/// the stored message verbatim for a failed one.
pub open spec fn entry_text(e: EntryModel) -> Seq<char> {
    match e {
        EntryModel::Found(path) => path,
        EntryModel::Failed(message) => message,
    }
}

impl DirectoryEntry {
    /// Renders the entry for display: a found entry renders as its
    /// path, a failed entry as its message, both verbatim.
    pub fn to_text(&self) -> (r: String)
        ensures
            r@ == entry_text(self@),
    {
        match self {
            DirectoryEntry::Found(path) => path.clone(),
            DirectoryEntry::Failed(message) => message.clone(),
        }
    }
}

/// The mathematical value of a [`FindError`]: the offending path or
/// the underlying cause, tagged by the kind of failure.
#[verifier::ext_equal]
pub enum FindErrorModel {
    NotADirectory(Seq<char>),
    IoError(Seq<char>),
    GlobCompile(Seq<char>),
}

/// The top-level failure of a traversal.  A traversal either fails
/// with one of these at the root, or succeeds with a (possibly empty)
/// sequence of [`DirectoryEntry`] values.
#[derive(Debug, PartialEq, Eq)]
pub enum FindError {
    /// The base path does not exist or is not a directory; carries the
    /// path's textual form.
    NotADirectory(String),
    /// Listing the base directory itself failed before any entries
    /// could be produced; carries the underlying cause.
    IoError(String),
    /// The filter pattern failed to compile; carries the underlying
    /// cause.
    GlobCompile(String),
}

impl View for FindError {
    type V = FindErrorModel;

    open spec fn view(&self) -> FindErrorModel {
        match self {
            FindError::NotADirectory(path) => FindErrorModel::NotADirectory(path@),
            FindError::IoError(cause) => FindErrorModel::IoError(cause@),
            FindError::GlobCompile(cause) => FindErrorModel::GlobCompile(cause@),
        }
    }
}

/// The text a top-level failure renders to: kind-specific, and always
/// containing the offending path or the underlying cause.
pub open spec fn error_text(e: FindErrorModel) -> Seq<char> {
    match e {
        FindErrorModel::NotADirectory(path) => "The path "@ + path + " is not a directory."@,
        FindErrorModel::IoError(cause) => "I/O Error: "@ + cause,
        FindErrorModel::GlobCompile(cause) => "Glob compilation error: "@ + cause,
    }
}

impl FindError {
    /// Renders the failure for display, naming the offending path or
    /// the underlying cause.
    pub fn to_text(&self) -> (r: String)
        ensures
            r@ == error_text(self@),
    {
        match self {
            FindError::NotADirectory(path) => {
                let mut s = String::from_str("The path ");
                s.append(path.as_str());
                s.append(" is not a directory.");
                s
            },
            FindError::IoError(cause) => {
                let mut s = String::from_str("I/O Error: ");
                s.append(cause.as_str());
                s
            },
            FindError::GlobCompile(cause) => {
                let mut s = String::from_str("Glob compilation error: ");
                s.append(cause.as_str());
                s
            },
        }
    }
}

} // verus!
