//! The traversal policy: which entries a recursive directory walk visits,
//! and what is done with each.  Hidden entries are skipped (subtrees
//! included) unless hidden entries are asked for; a symbolic link is never
//! followed unless symbolic links are asked for, and then only a link whose
//! target is a regular file is searched.

use vstd::prelude::*;

verus! {

use crate::utils::spec_is_hidden;

/// The kind of a filesystem entry met during a walk.
#[derive(Clone, Copy, PartialEq, Eq, Structural, Debug)]
pub enum EntryKind {
    File,
    Dir,
    Symlink,
}

/// What the walk does with an entry.
#[derive(Clone, Copy, PartialEq, Eq, Structural, Debug)]
pub enum WalkAction {
    /// Search the entry itself.
    SearchThis,
    /// Resolve the symbolic link and search its target if that is a regular
    /// file.
    SearchTarget,
    /// Recurse into the directory.
    Descend,
    /// Neither search nor recurse.
    Skip,
}

/// The traversal rule: a hidden entry is skipped outright unless hidden
/// entries are included; otherwise a file is searched, a directory is
/// descended into, and a symbolic link is resolved only when symbolic links
/// are included.
pub open spec fn spec_entry_action(
    kind: EntryKind,
    name: Seq<char>,
    include_hidden: bool,
    include_symlinks: bool,
) -> WalkAction {
    if !include_hidden && spec_is_hidden(name) {
        WalkAction::Skip
    } else {
        match kind {
            EntryKind::File => WalkAction::SearchThis,
            EntryKind::Dir => WalkAction::Descend,
            EntryKind::Symlink => if include_symlinks {
                WalkAction::SearchTarget
            } else {
                WalkAction::Skip
            },
        }
    }
}

/// Decides what the walk does with one entry, from its kind and name.
pub fn entry_action(
    kind: EntryKind,
    name: &str,
    include_hidden: bool,
    include_symlinks: bool,
) -> (r: WalkAction)
    ensures
        r == spec_entry_action(kind, name@, include_hidden, include_symlinks),
{
    if !include_hidden && crate::utils::is_hidden(name) {
        WalkAction::Skip
    } else {
        match kind {
            EntryKind::File => WalkAction::SearchThis,
            EntryKind::Dir => WalkAction::Descend,
            EntryKind::Symlink => if include_symlinks {
                WalkAction::SearchTarget
            } else {
                WalkAction::Skip
            },
        }
    }
}

/// Whether a walk may visit an entry at all: hidden entries are pruned, with
/// the whole subtree beneath them, unless hidden entries are included.
pub fn should_visit(name: &str, include_hidden: bool) -> (r: bool)
    ensures
        r == (include_hidden || !spec_is_hidden(name@)),
{
    include_hidden || !crate::utils::is_hidden(name)
}

/// Whether a resolved symbolic-link target is searched: only a regular file
/// is; a directory target is not recursed into through the link.
pub fn symlink_target_qualifies(target_kind: EntryKind) -> (r: bool)
    ensures
        r == (target_kind == EntryKind::File),
{
    match target_kind {
        EntryKind::File => true,
        EntryKind::Dir => false,
        EntryKind::Symlink => false,
    }
}

/// An entry is visited exactly when its action is not an outright skip for
/// hiddenness: pruning with `should_visit` and deciding with `entry_action`
/// agree on hidden entries.
pub proof fn lemma_hidden_entries_skipped(
    kind: EntryKind,
    name: Seq<char>,
    include_hidden: bool,
    include_symlinks: bool,
)
    ensures
        !include_hidden && spec_is_hidden(name) ==> spec_entry_action(
            kind,
            name,
            include_hidden,
            include_symlinks,
        ) == WalkAction::Skip,
        include_hidden && kind == EntryKind::File ==> spec_entry_action(
            kind,
            name,
            include_hidden,
            include_symlinks,
        ) == WalkAction::SearchThis,
{
}

} // verus!
