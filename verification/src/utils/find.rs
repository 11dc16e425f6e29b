//! The recursive traversal engine.
//!
//! `walk_children` is the mathematical model of an unfiltered
//! depth-first walk: every resolved child contributes its own entry,
//! a real directory additionally contributes its whole subtree, and
//! recoverable failures become failed entries or are dropped,
//! depending on the error policy.  `filter_model` then keeps every
//! failed entry and exactly the found entries whose path text the
//! glob matches.  The executable engine is proved to return exactly
//! that model.

use vstd::prelude::*;
use crate::utils::glob::glob_compiles;
use crate::utils::glob::glob_error_of;
use crate::utils::glob::glob_match;
use crate::utils::glob::Matcher;
use crate::utils::result::DirectoryEntry;
use crate::utils::result::EntryModel;
use crate::utils::result::FindError;
use crate::utils::result::FindErrorModel;
use crate::utils::result::error_text;
use crate::utils::tree::DirChild;
use crate::utils::tree::FsNode;

verus! {

/// The model of a sequence of produced entries.
pub open spec fn entries_model(s: Seq<DirectoryEntry>) -> Seq<EntryModel> {
    s.map_values(|e: DirectoryEntry| e@)
}

/// The entries one listing slot contributes, before filtering: an
/// unresolvable slot becomes one failed entry, unless errors are
/// being skipped; a resolved child contributes its node's entries.
pub open spec fn walk_child(child: DirChild, ignore_error: bool) -> Seq<EntryModel>
    decreases child,
{
    match child {
        DirChild::Unreadable { error } => if ignore_error {
            Seq::empty()
        } else {
            seq![EntryModel::Failed(error@)]
        },
        DirChild::Present(node) => walk_node(node, ignore_error),
    }
}

/// The entries one resolved child contributes, before filtering: the
/// child's own found entry always comes first; a real directory is
/// followed by its subtree, and a directory whose listing failed is
/// followed by one failed entry carrying the rendered failure, unless
/// errors are being skipped.
pub open spec fn walk_node(node: FsNode, ignore_error: bool) -> Seq<EntryModel>
    decreases node,
{
    match node {
        FsNode::File { path } => seq![EntryModel::Found(path@)],
        FsNode::Symlink { path } => seq![EntryModel::Found(path@)],
        FsNode::UnlistableDir { path, error } => if ignore_error {
            seq![EntryModel::Found(path@)]
        } else {
            seq![
                EntryModel::Found(path@),
                EntryModel::Failed(error_text(FindErrorModel::IoError(error@))),
            ]
        },
        FsNode::Dir { path, children } => seq![EntryModel::Found(path@)] + walk_children(
            children@,
            ignore_error,
        ),
    }
}

/// The entries a whole listing contributes, in listing order.
pub open spec fn walk_children(children: Seq<DirChild>, ignore_error: bool) -> Seq<EntryModel>
    decreases children,
{
    if children.len() == 0 {
        Seq::empty()
    } else {
        walk_child(children[0], ignore_error) + walk_children(
            children.subrange(1, children.len() as int),
            ignore_error,
        )
    }
}

/// Whether the filter keeps an entry: failed entries are always kept;
/// a found entry is kept exactly when the pattern matches its path
/// text, and always when no pattern was supplied.
pub open spec fn keeps(pattern: Option<Seq<char>>, e: EntryModel) -> bool {
    match e {
        EntryModel::Failed(message) => true,
        EntryModel::Found(path) => match pattern {
            Option::Some(p) => glob_match(p, path),
            Option::None => true,
        },
    }
}

/// The filter step: the subsequence of entries the filter keeps.
pub open spec fn filter_model(entries: Seq<EntryModel>, pattern: Option<Seq<char>>) -> Seq<
    EntryModel,
> {
    entries.filter(|e: EntryModel| keeps(pattern, e))
}

/// A filter without a pattern keeps every entry.
pub proof fn lemma_filter_no_pattern(s: Seq<EntryModel>)
    ensures
        filter_model(s, Option::None) == s,
    decreases s.len(),
{
    reveal(Seq::filter);
    if s.len() > 0 {
        lemma_filter_no_pattern(s.drop_last());
        assert(s.drop_last().push(s.last()) =~= s);
    }
}

/// Filtering one more entry keeps it exactly when the filter does.
pub proof fn lemma_filter_model_snoc(s: Seq<EntryModel>, e: EntryModel, pattern: Option<Seq<char>>)
    ensures
        filter_model(s.push(e), pattern) == filter_model(s, pattern) + (if keeps(pattern, e) {
            seq![e]
        } else {
            Seq::<EntryModel>::empty()
        }),
{
    reveal(Seq::filter);
    assert(s.push(e).drop_last() =~= s);
    if keeps(pattern, e) {
        assert(filter_model(s, pattern).push(e) =~= filter_model(s, pattern) + seq![e]);
    } else {
        assert(filter_model(s, pattern) =~= filter_model(s, pattern) + Seq::<EntryModel>::empty());
    }
}

/// Applies the filter step: keeps every failed entry, and a found
/// entry exactly when the matcher accepts its path text; without a
/// matcher, keeps everything.
fn filter_entries(entries: Vec<DirectoryEntry>, glob: &Option<Matcher>) -> (r: Vec<DirectoryEntry>)
    ensures
        entries_model(r@) == filter_model(entries_model(entries@), pattern_of(*glob)),
{
    match glob {
        Option::None => {
            proof {
                lemma_filter_no_pattern(entries_model(entries@));
            }
            entries
        },
        Option::Some(matcher) => {
            let ghost pattern = pattern_of(*glob);
            let mut out: Vec<DirectoryEntry> = Vec::new();
            let n = entries.len();
            proof {
                assert(entries_model(entries@.subrange(0, 0)) =~= Seq::<EntryModel>::empty());
                reveal(Seq::filter);
            }
            let mut i: usize = 0;
            while i < n
                invariant
                    i <= n,
                    n == entries@.len(),
                    pattern == Option::Some(matcher.pattern_spec()),
                    entries_model(out@) == filter_model(
                        entries_model(entries@.subrange(0, i as int)),
                        pattern,
                    ),
                decreases n - i,
            {
                let ghost previous = out@;
                let kept: bool = match &entries[i] {
                    DirectoryEntry::Failed(message) => {
                        out.push(DirectoryEntry::Failed(message.clone()));
                        true
                    },
                    DirectoryEntry::Found(path) => {
                        if matcher.is_match(path.as_str()) {
                            out.push(DirectoryEntry::Found(path.clone()));
                            true
                        } else {
                            false
                        }
                    },
                };
                proof {
                    assert(kept == keeps(pattern, entries@[i as int]@));
                    if kept {
                        assert(entries_model(out@) =~= entries_model(previous) + seq![
                            entries@[i as int]@,
                        ]);
                    } else {
                        assert(entries_model(out@) =~= entries_model(previous)
                            + Seq::<EntryModel>::empty());
                    }
                    assert(entries_model(entries@.subrange(0, i + 1 as int)) =~= entries_model(
                        entries@.subrange(0, i as int),
                    ).push(entries@[i as int]@));
                    lemma_filter_model_snoc(
                        entries_model(entries@.subrange(0, i as int)),
                        entries@[i as int]@,
                        pattern,
                    );
                }
                i += 1;
            }
            proof {
                assert(entries@.subrange(0, n as int) =~= entries@);
            }
            out
        },
    }
}

/// The pattern text an optional matcher carries.
pub open spec fn pattern_of(glob: Option<Matcher>) -> Option<Seq<char>> {
    match glob {
        Option::Some(m) => Option::Some(m.pattern_spec()),
        Option::None => Option::None,
    }
}

/// Extending a listing by one more slot appends that slot's entries.
pub proof fn lemma_walk_children_snoc(s: Seq<DirChild>, c: DirChild, ignore_error: bool)
    ensures
        walk_children(s.push(c), ignore_error) == walk_children(s, ignore_error) + walk_child(
            c,
            ignore_error,
        ),
    decreases s,
{
    let whole = s.push(c);
    assert(whole.len() == s.len() + 1);
    if s.len() == 0 {
        assert(whole[0] == c);
        assert(whole.subrange(1, whole.len() as int) =~= Seq::<DirChild>::empty());
        assert(walk_children(whole, ignore_error) == walk_child(c, ignore_error) + walk_children(
            Seq::<DirChild>::empty(),
            ignore_error,
        ));
        assert(walk_children(whole, ignore_error) =~= walk_children(s, ignore_error) + walk_child(
            c,
            ignore_error,
        ));
    } else {
        let tail = s.subrange(1, s.len() as int);
        assert(whole[0] == s[0]);
        assert(whole.subrange(1, whole.len() as int) =~= tail.push(c));
        lemma_walk_children_snoc(tail, c, ignore_error);
        assert(walk_children(whole, ignore_error) == walk_child(s[0], ignore_error) + (
        walk_children(tail, ignore_error) + walk_child(c, ignore_error)));
        assert(walk_children(s, ignore_error) == walk_child(s[0], ignore_error) + walk_children(
            tail,
            ignore_error,
        ));
        assert(walk_children(whole, ignore_error) =~= walk_children(s, ignore_error) + walk_child(
            c,
            ignore_error,
        ));
    }
}

/// Walks one listing slot: exactly the entries of [`walk_child`].
fn walk_child_exec(child: &DirChild, ignore_error: bool) -> (r: Vec<DirectoryEntry>)
    ensures
        entries_model(r@) == walk_child(*child, ignore_error),
    decreases *child,
{
    let mut out: Vec<DirectoryEntry> = Vec::new();
    match child {
        DirChild::Unreadable { error } => {
            if !ignore_error {
                out.push(DirectoryEntry::Failed(error.clone()));
            }
            proof {
                assert(entries_model(out@) =~= walk_child(*child, ignore_error));
            }
        },
        DirChild::Present(node) => {
            match node {
                FsNode::File { path } => {
                    out.push(DirectoryEntry::Found(path.clone()));
                    proof {
                        assert(entries_model(out@) =~= walk_child(*child, ignore_error));
                    }
                },
                FsNode::Symlink { path } => {
                    out.push(DirectoryEntry::Found(path.clone()));
                    proof {
                        assert(entries_model(out@) =~= walk_child(*child, ignore_error));
                    }
                },
                FsNode::UnlistableDir { path, error } => {
                    out.push(DirectoryEntry::Found(path.clone()));
                    if !ignore_error {
                        let failure = FindError::IoError(error.clone());
                        out.push(DirectoryEntry::Failed(failure.to_text()));
                    }
                    proof {
                        assert(entries_model(out@) =~= walk_child(*child, ignore_error));
                    }
                },
                FsNode::Dir { path, children } => {
                    proof {
                        let ghost c: DirChild = *child;
                        let ghost n: FsNode = *node;
                        assert(c->Present_0 == n);
                        assert(decreases_to!(c => c->Present_0));
                        assert(n->children == *children);
                        assert(decreases_to!(n => n->children));
                        assert(decreases_to!(n->children => n->children@));
                        assert(decreases_to!(*child => children@));
                    }
                    out.push(DirectoryEntry::Found(path.clone()));
                    let mut sub_entries = walk_children_exec(children, ignore_error);
                    out.append(&mut sub_entries);
                    proof {
                        assert(entries_model(out@) =~= walk_child(*child, ignore_error));
                    }
                },
            }
        },
    }
    out
}

/// Walks a whole listing: exactly the entries of [`walk_children`],
/// in listing order.
fn walk_children_exec(children: &Vec<DirChild>, ignore_error: bool) -> (r: Vec<DirectoryEntry>)
    ensures
        entries_model(r@) == walk_children(children@, ignore_error),
    decreases children@,
{
    let mut out: Vec<DirectoryEntry> = Vec::new();
    let n = children.len();
    proof {
        assert(children@.subrange(0, 0) =~= Seq::<DirChild>::empty());
    }
    let mut i: usize = 0;
    while i < n
        invariant
            i <= n,
            n == children@.len(),
            entries_model(out@) == walk_children(children@.subrange(0, i as int), ignore_error),
        decreases n - i,
    {
        proof {
            assert(decreases_to!(children@ => children@[i as int]));
        }
        let mut part = walk_child_exec(&children[i], ignore_error);
        let ghost part_view = part@;
        let ghost previous = out@;
        out.append(&mut part);
        proof {
            assert(entries_model(out@) =~= entries_model(previous) + entries_model(part_view));
            assert(children@.subrange(0, i + 1 as int) =~= children@.subrange(0, i as int).push(
                children@[i as int],
            ));
            lemma_walk_children_snoc(children@.subrange(0, i as int), children@[i as int], ignore_error);
        }
        i += 1;
    }
    proof {
        assert(children@.subrange(0, n as int) =~= children@);
    }
    out
}

/// The model of one whole traversal: a base that is not a listed
/// directory fails at the root, and nothing else ever does; a listed
/// base yields its walked listing, filtered.
pub open spec fn traverse_model(
    base: FsNode,
    pattern: Option<Seq<char>>,
    ignore_error: bool,
) -> Result<Seq<EntryModel>, FindErrorModel> {
    match base {
        FsNode::Dir { path, children } => Result::Ok(
            filter_model(walk_children(children@, ignore_error), pattern),
        ),
        FsNode::UnlistableDir { path, error } => Result::Err(FindErrorModel::IoError(error@)),
        FsNode::File { path } => Result::Err(FindErrorModel::NotADirectory(path@)),
        FsNode::Symlink { path } => Result::Err(FindErrorModel::NotADirectory(path@)),
    }
}

/// The subsequence of found entries: what remains when every failed
/// entry is dropped.
pub open spec fn found_only(s: Seq<EntryModel>) -> Seq<EntryModel>
    decreases s.len(),
{
    if s.len() == 0 {
        Seq::empty()
    } else if s.last() is Found {
        found_only(s.drop_last()).push(s.last())
    } else {
        found_only(s.drop_last())
    }
}

/// Dropping failed entries from one more entry keeps it exactly when
/// it is a found entry.
pub proof fn lemma_found_only_snoc(s: Seq<EntryModel>, e: EntryModel)
    ensures
        found_only(s.push(e)) == found_only(s) + (if e is Found {
            seq![e]
        } else {
            Seq::<EntryModel>::empty()
        }),
{
    assert(s.push(e).drop_last() =~= s);
    if e is Found {
        assert(found_only(s).push(e) =~= found_only(s) + seq![e]);
    } else {
        assert(found_only(s) =~= found_only(s) + Seq::<EntryModel>::empty());
    }
}

/// Dropping failed entries acts on each part of a concatenation
/// separately.
pub proof fn lemma_found_only_distributes(a: Seq<EntryModel>, b: Seq<EntryModel>)
    ensures
        found_only(a + b) == found_only(a) + found_only(b),
    decreases b.len(),
{
    if b.len() == 0 {
        assert(a + b =~= a);
        assert(found_only(a) + found_only(b) =~= found_only(a));
    } else {
        let front = b.drop_last();
        let last = b.last();
        lemma_found_only_distributes(a, front);
        assert((a + front).push(last) =~= a + b);
        lemma_found_only_snoc(a + front, last);
        lemma_found_only_snoc(front, last);
        if last is Found {
            assert((found_only(a) + found_only(front)) + seq![last] =~= found_only(a) + (
            found_only(front) + seq![last]));
        } else {
            assert((found_only(a) + found_only(front)) + Seq::<EntryModel>::empty()
                =~= found_only(a) + (found_only(front) + Seq::<EntryModel>::empty()));
        }
    }
}

/// An existing directory whose listing succeeded never fails fatally,
/// whatever the pattern and the error policy.
pub proof fn lemma_existing_directory_succeeds(
    base: FsNode,
    pattern: Option<Seq<char>>,
    ignore_error: bool,
)
    requires
        base is Dir,
    ensures
        traverse_model(base, pattern, ignore_error) is Ok,
{
}

/// A base that is not a directory fails with `NotADirectory` carrying
/// its path, and produces no entries, whatever the pattern and the
/// error policy.
pub proof fn lemma_non_directory_fails(
    base: FsNode,
    pattern: Option<Seq<char>>,
    ignore_error: bool,
)
    requires
        base is File || base is Symlink,
    ensures
        traverse_model(base, pattern, ignore_error) == Result::<
            Seq<EntryModel>,
            FindErrorModel,
        >::Err(FindErrorModel::NotADirectory(crate::utils::tree::node_path(base))),
{
}

/// Traversal is a pure function of the snapshot, the pattern and the
/// error policy: repeated traversals of an unmodified tree produce
/// the same entries, in the same order.
pub proof fn lemma_traverse_repeatable(
    base: FsNode,
    pattern: Option<Seq<char>>,
    ignore_error: bool,
    first: Result<Seq<EntryModel>, FindErrorModel>,
    second: Result<Seq<EntryModel>, FindErrorModel>,
)
    requires
        first == traverse_model(base, pattern, ignore_error),
        second == traverse_model(base, pattern, ignore_error),
    ensures
        first == second,
{
}

/// Filter correctness: when a pattern is supplied, every entry of a
/// successful traversal is either a failed entry or a found entry
/// whose path text the pattern matches.
pub proof fn lemma_found_entries_match(base: FsNode, pattern: Seq<char>, ignore_error: bool)
    ensures
        traverse_model(base, Option::Some(pattern), ignore_error) matches Result::Ok(entries)
            ==> forall|i: int|
            0 <= i < entries.len() ==> ((#[trigger] entries[i]) matches EntryModel::Found(path)
                ==> glob_match(pattern, path)),
{
    broadcast use vstd::seq_lib::group_filter_ensures;

    if base is Dir {
        let walked = walk_children(base->children@, ignore_error);
        let entries = filter_model(walked, Option::Some(pattern));
        assert forall|i: int| 0 <= i < entries.len() implies keeps(
            Option::Some(pattern),
            entries[i],
        ) by {}
    }
}

/// Symbolic links are never descended into: a symlink contributes
/// exactly its own found entry to the walk, whatever it points to.
pub proof fn lemma_symlink_never_descended(node: FsNode, ignore_error: bool)
    requires
        node is Symlink,
    ensures
        walk_node(node, ignore_error) == seq![
            EntryModel::Found(crate::utils::tree::node_path(node)),
        ],
{
}

/// Dropping failed entries from a single entry keeps it exactly when
/// it is a found entry.
proof fn lemma_found_only_single(e: EntryModel)
    ensures
        found_only(seq![e]) == (if e is Found {
            seq![e]
        } else {
            Seq::<EntryModel>::empty()
        }),
{
    reveal_with_fuel(found_only, 2);
    assert(seq![e].drop_last() =~= Seq::<EntryModel>::empty());
    if e is Found {
        assert(found_only(Seq::<EntryModel>::empty()).push(e) =~= seq![e]);
    }
}

/// Skipping errors drops exactly the failed entries of one slot's walk.
proof fn lemma_walk_child_skip(child: DirChild)
    ensures
        walk_child(child, true) == found_only(walk_child(child, false)),
    decreases child,
{
    match child {
        DirChild::Unreadable { error } => {
            lemma_found_only_single(EntryModel::Failed(error@));
        },
        DirChild::Present(node) => {
            lemma_walk_node_skip(node);
        },
    }
}

/// Skipping errors drops exactly the failed entries of one node's walk.
proof fn lemma_walk_node_skip(node: FsNode)
    ensures
        walk_node(node, true) == found_only(walk_node(node, false)),
    decreases node,
{
    match node {
        FsNode::File { path } => {
            lemma_found_only_single(EntryModel::Found(path@));
        },
        FsNode::Symlink { path } => {
            lemma_found_only_single(EntryModel::Found(path@));
        },
        FsNode::UnlistableDir { path, error } => {
            let own = EntryModel::Found(path@);
            let failed = EntryModel::Failed(error_text(FindErrorModel::IoError(error@)));
            lemma_found_only_single(own);
            assert(seq![own].push(failed) =~= seq![own, failed]);
            lemma_found_only_snoc(seq![own], failed);
            assert(seq![own] + Seq::<EntryModel>::empty() =~= seq![own]);
            assert(walk_node(node, true) =~= found_only(walk_node(node, false)));
        },
        FsNode::Dir { path, children } => {
            lemma_walk_children_skip(children@);
            let own = seq![EntryModel::Found(path@)];
            lemma_found_only_single(EntryModel::Found(path@));
            lemma_found_only_distributes(own, walk_children(children@, false));
            assert(walk_node(node, true) =~= found_only(walk_node(node, false)));
        },
    }
}

/// Skipping errors drops exactly the failed entries of a listing's walk.
pub proof fn lemma_walk_children_skip(children: Seq<DirChild>)
    ensures
        walk_children(children, true) == found_only(walk_children(children, false)),
    decreases children,
{
    if children.len() == 0 {
    } else {
        let head = children[0];
        let tail = children.subrange(1, children.len() as int);
        lemma_walk_child_skip(head);
        lemma_walk_children_skip(tail);
        lemma_found_only_distributes(walk_child(head, false), walk_children(tail, false));
        assert(walk_children(children, true) =~= found_only(walk_children(children, false)));
    }
}

/// The filter step commutes with dropping failed entries: failed
/// entries pass every filter, so it does not matter whether they are
/// dropped before or after matching.
proof fn lemma_filter_model_found_commutes(s: Seq<EntryModel>, pattern: Option<Seq<char>>)
    ensures
        filter_model(found_only(s), pattern) == found_only(filter_model(s, pattern)),
    decreases s.len(),
{
    reveal(Seq::filter);
    if s.len() == 0 {
        assert(found_only(s) =~= Seq::<EntryModel>::empty());
        assert(filter_model(s, pattern) =~= Seq::<EntryModel>::empty());
    } else {
        let sub = s.drop_last();
        let last = s.last();
        assert(sub.push(last) =~= s);
        lemma_filter_model_found_commutes(sub, pattern);
        lemma_found_only_snoc(sub, last);
        lemma_filter_model_snoc(sub, last, pattern);
        if last is Found {
            if keeps(pattern, last) {
                assert(found_only(sub) + seq![last] =~= found_only(sub).push(last));
                lemma_filter_model_snoc(found_only(sub), last, pattern);
                assert(filter_model(sub, pattern) + seq![last] =~= filter_model(
                    sub,
                    pattern,
                ).push(last));
                lemma_found_only_snoc(filter_model(sub, pattern), last);
            } else {
                assert(found_only(sub) + seq![last] =~= found_only(sub).push(last));
                lemma_filter_model_snoc(found_only(sub), last, pattern);
                assert(filter_model(s, pattern) == filter_model(sub, pattern) + Seq::<
                    EntryModel,
                >::empty());
                assert(filter_model(sub, pattern) + Seq::<EntryModel>::empty() =~= filter_model(
                    sub,
                    pattern,
                ));
            }
        } else {
            assert(found_only(s) == found_only(sub) + Seq::<EntryModel>::empty());
            assert(found_only(sub) + Seq::<EntryModel>::empty() =~= found_only(sub));
            assert(filter_model(s, pattern) == filter_model(sub, pattern) + seq![last]);
            assert(filter_model(sub, pattern) + seq![last] =~= filter_model(sub, pattern).push(
                last,
            ));
            lemma_found_only_snoc(filter_model(sub, pattern), last);
            assert(found_only(filter_model(sub, pattern)) + Seq::<EntryModel>::empty()
                =~= found_only(filter_model(sub, pattern)));
        }
    }
}

/// Whether every failed entry of a sequence carries a non-empty
/// message.
pub open spec fn failed_messages_nonempty(s: Seq<EntryModel>) -> bool {
    forall|i: int|
        0 <= i < s.len() ==> (#[trigger] s[i] matches EntryModel::Failed(message)
            ==> message.len() > 0)
}

/// The walk of one slot of a well-formed snapshot never produces a
/// failed entry with an empty message.
proof fn lemma_walk_child_messages(child: DirChild, ignore_error: bool)
    requires
        crate::utils::tree::wf_child(child),
    ensures
        failed_messages_nonempty(walk_child(child, ignore_error)),
    decreases child,
{
    match child {
        DirChild::Unreadable { error } => {},
        DirChild::Present(node) => {
            lemma_walk_node_messages(node, ignore_error);
        },
    }
}

/// The walk of one node of a well-formed snapshot never produces a
/// failed entry with an empty message: recorded errors are non-empty
/// by well-formedness, and a rendered subtree failure always starts
/// with its kind's prefix.
proof fn lemma_walk_node_messages(node: FsNode, ignore_error: bool)
    requires
        crate::utils::tree::wf_node(node),
    ensures
        failed_messages_nonempty(walk_node(node, ignore_error)),
    decreases node,
{
    match node {
        FsNode::File { path } => {},
        FsNode::Symlink { path } => {},
        FsNode::UnlistableDir { path, error } => {
            reveal_strlit("I/O Error: ");
        },
        FsNode::Dir { path, children } => {
            lemma_walk_children_messages(children@, ignore_error);
        },
    }
}

/// The walk of a well-formed listing never produces a failed entry
/// with an empty message.
proof fn lemma_walk_children_messages(children: Seq<DirChild>, ignore_error: bool)
    requires
        crate::utils::tree::wf_children(children),
    ensures
        failed_messages_nonempty(walk_children(children, ignore_error)),
    decreases children,
{
    if children.len() > 0 {
        lemma_walk_child_messages(children[0], ignore_error);
        lemma_walk_children_messages(children.subrange(1, children.len() as int), ignore_error);
    }
}

/// The filter step never makes a failed entry's message empty: what
/// it keeps, it keeps verbatim.
proof fn lemma_filter_model_messages(s: Seq<EntryModel>, pattern: Option<Seq<char>>)
    requires
        failed_messages_nonempty(s),
    ensures
        failed_messages_nonempty(filter_model(s, pattern)),
    decreases s.len(),
{
    reveal(Seq::filter);
    if s.len() == 0 {
        assert(filter_model(s, pattern) =~= Seq::<EntryModel>::empty());
    } else {
        let sub = s.drop_last();
        let last = s.last();
        assert(sub.push(last) =~= s);
        assert(failed_messages_nonempty(sub)) by {
            assert(forall|i: int| 0 <= i < sub.len() ==> sub[i] == s[i]);
        }
        lemma_filter_model_messages(sub, pattern);
        lemma_filter_model_snoc(sub, last, pattern);
    }
}

/// Every failed entry a traversal of a well-formed snapshot returns
/// carries a non-empty message.
pub proof fn lemma_traverse_messages_nonempty(
    base: FsNode,
    pattern: Option<Seq<char>>,
    ignore_error: bool,
)
    requires
        crate::utils::tree::wf_node(base),
    ensures
        traverse_model(base, pattern, ignore_error) matches Result::Ok(entries)
            ==> failed_messages_nonempty(entries),
{
    match base {
        FsNode::Dir { path, children } => {
            lemma_walk_children_messages(children@, ignore_error);
            lemma_filter_model_messages(walk_children(children@, ignore_error), pattern);
        },
        _ => {},
    }
}

/// Error-skipping monotonicity: with the same base and pattern, the
/// entries of an error-skipping traversal are exactly the found
/// entries of the error-surfacing one — skipping never invents a
/// match, it only removes failed entries; and both fail fatally in
/// the same way.
pub proof fn lemma_skip_errors_subsequence(base: FsNode, pattern: Option<Seq<char>>)
    ensures
        match (traverse_model(base, pattern, true), traverse_model(base, pattern, false)) {
            (Result::Ok(skipped), Result::Ok(full)) => skipped == found_only(full),
            (Result::Err(first), Result::Err(second)) => first == second,
            _ => false,
        },
{
    match base {
        FsNode::Dir { path, children } => {
            lemma_walk_children_skip(children@);
            lemma_filter_model_found_commutes(walk_children(children@, false), pattern);
        },
        _ => {},
    }
}

/// Traverses the snapshot depth-first and returns the filtered
/// entries, or the one fatal failure.
///
/// The result is pinned to [`traverse_model`]: a base that is not a
/// directory fails with `NotADirectory` and its path; a directory
/// whose own listing failed fails with `IoError` and its cause; a
/// listed directory always succeeds, with the walked entries of its
/// whole subtree, filtered by `glob`.
pub fn find_recursive(base: &FsNode, glob: &Option<Matcher>, ignore_error: bool) -> (r: Result<
    Vec<DirectoryEntry>,
    FindError,
>)
    ensures
        match traverse_model(*base, pattern_of(*glob), ignore_error) {
            Result::Ok(entries) => r matches Result::Ok(found) && entries_model(found@) == entries,
            Result::Err(failure) => r matches Result::Err(e) && e@ == failure,
        },
        base is Dir <==> r is Ok,
{
    match base {
        FsNode::Dir { children, .. } => {
            let unfiltered = walk_children_exec(children, ignore_error);
            Result::Ok(filter_entries(unfiltered, glob))
        },
        FsNode::UnlistableDir { error, .. } => Result::Err(FindError::IoError(error.clone())),
        FsNode::File { path } => Result::Err(FindError::NotADirectory(path.clone())),
        FsNode::Symlink { path } => Result::Err(FindError::NotADirectory(path.clone())),
    }
}

/// Traverses the snapshot without a filter: every walked entry is
/// returned.  The error behaviour is that of [`find_recursive`].
pub fn find(base: &FsNode, ignore_error: bool) -> (r: Result<Vec<DirectoryEntry>, FindError>)
    ensures
        match traverse_model(*base, Option::None, ignore_error) {
            Result::Ok(entries) => r matches Result::Ok(found) && entries_model(found@) == entries,
            Result::Err(failure) => r matches Result::Err(e) && e@ == failure,
        },
        base is Dir <==> r is Ok,
{
    find_recursive(base, &Option::None, ignore_error)
}

/// Compiles `pattern` and traverses the snapshot filtered by it.
///
/// A pattern `globset` rejects fails with `GlobCompile` carrying the
/// compiler's own never-empty description, before the base is even
/// looked at; a pattern it accepts gives exactly the result of
/// [`find_recursive`] with that pattern.
pub fn find_glob(base: &FsNode, pattern: &str, ignore_error: bool) -> (r: Result<
    Vec<DirectoryEntry>,
    FindError,
>)
    ensures
        !glob_compiles(pattern@) ==> (r matches Result::Err(e) && e@
            == FindErrorModel::GlobCompile(glob_error_of(pattern@)) && glob_error_of(
            pattern@,
        ).len() > 0),
        glob_compiles(pattern@) ==> match traverse_model(
            *base,
            Option::Some(pattern@),
            ignore_error,
        ) {
            Result::Ok(entries) => r matches Result::Ok(found) && entries_model(found@) == entries,
            Result::Err(failure) => r matches Result::Err(e) && e@ == failure,
        },
        glob_compiles(pattern@) ==> (base is Dir <==> r is Ok),
{
    match Matcher::new(pattern) {
        Result::Ok(matcher) => find_recursive(base, &Option::Some(matcher), ignore_error),
        Result::Err(cause) => Result::Err(FindError::GlobCompile(cause)),
    }
}

} // verus!
