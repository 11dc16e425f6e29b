//! The snapshot a traversal works on: what one pass over the
//! filesystem reported about a base directory and everything beneath
//! it.  The unverified shell reads the filesystem and materialises one
//! of these trees; the traversal engine is then proved correct for
//! every tree.

use vstd::prelude::*;

verus! {

/// One filesystem object as the snapshot recorded it.
///
/// `File` stands for anything that is neither a real directory nor a
/// symbolic link: a plain file, or any other leaf object.  A symbolic
/// link is always a leaf here, whatever it points to, because the
/// traversal never descends through links.  A directory whose listing
/// succeeded carries its children in directory-read order; one whose
/// listing failed carries the error's description instead.
#[derive(Debug, PartialEq, Eq)]
pub enum FsNode {
    /// A leaf object: a plain file, or anything else that is neither
    /// a real directory nor a symbolic link.
    File { path: String },
    /// A symbolic link, whether it points to a file or a directory.
    Symlink { path: String },
    /// A directory that was listed successfully, with its children in
    /// the order the listing reported them.
    Dir { path: String, children: Vec<DirChild> },
    /// A directory whose listing failed (for example, for missing
    /// permissions), with the error's description.
    UnlistableDir { path: String, error: String },
}

/// One slot of a directory listing: either a resolved child, or the
/// description of the error that kept that one slot from resolving.
#[derive(Debug, PartialEq, Eq)]
pub enum DirChild {
    /// A child that resolved to a filesystem object.
    Present(FsNode),
    /// A listing slot that failed to resolve (for example, the entry
    /// disappeared between listing and resolution).
    Unreadable { error: String },
}

/// The recursion gate: a traversal descends into a child exactly when
/// it is a directory and not a symbolic link.
pub open spec fn spec_descends_into(is_dir: bool, is_symlink: bool) -> bool {
    is_dir && !is_symlink
}

/// The recursion gate as executable code, for the code that builds a
/// snapshot: descend exactly into real, non-symlink directories.
pub fn descends_into(is_dir: bool, is_symlink: bool) -> (r: bool)
    ensures
        r == spec_descends_into(is_dir, is_symlink),
{
    is_dir && !is_symlink
}

/// The path text a snapshot node was recorded under.
pub open spec fn node_path(node: FsNode) -> Seq<char> {
    match node {
        FsNode::File { path } => path@,
        FsNode::Symlink { path } => path@,
        FsNode::Dir { path, children } => path@,
        FsNode::UnlistableDir { path, error } => path@,
    }
}

/// A well-formed snapshot: every recorded error description is
/// non-empty, everywhere in the tree.
pub open spec fn wf_node(node: FsNode) -> bool
    decreases node,
{
    match node {
        FsNode::File { path } => true,
        FsNode::Symlink { path } => true,
        FsNode::Dir { path, children } => wf_children(children@),
        FsNode::UnlistableDir { path, error } => error@.len() > 0,
    }
}

/// Well-formedness of a directory listing: every slot is well-formed.
pub open spec fn wf_children(children: Seq<DirChild>) -> bool
    decreases children,
{
    if children.len() == 0 {
        true
    } else {
        wf_child(children[0]) && wf_children(children.subrange(1, children.len() as int))
    }
}

/// Well-formedness of one listing slot.
pub open spec fn wf_child(child: DirChild) -> bool
    decreases child,
{
    match child {
        DirChild::Present(node) => wf_node(node),
        DirChild::Unreadable { error } => error@.len() > 0,
    }
}

} // verus!
