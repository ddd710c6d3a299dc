use vstd::prelude::*;

verus! {

/// The kinds of archive entry that the extraction policy tells apart.
#[derive(Clone, Copy, Debug, PartialEq, Eq, Structural)]
pub enum EntryKind {
    File,
    Directory,
    Symlink,
    HardLink,
    Other,
}

/// What the sink does with an archive entry.
#[derive(Clone, Copy, Debug, PartialEq, Eq, Structural)]
pub enum EntryAction {
    /// Unpack it now, beneath the destination.
    Unpack,
    /// Unpack it after every other entry.
    Defer,
    /// Leave it out.
    Skip,
}

/// The extraction policy: directories are applied last, so that their
/// permissions cannot block their contents; links are left out where asked.
pub open spec fn entry_action_spec(kind: EntryKind, ignore_symlinks: bool) -> EntryAction {
    match kind {
        EntryKind::Directory => EntryAction::Defer,
        EntryKind::Symlink | EntryKind::HardLink => if ignore_symlinks {
            EntryAction::Skip
        } else {
            EntryAction::Unpack
        },
        _ => EntryAction::Unpack,
    }
}

/// What to do with an entry of `kind`.
pub fn entry_action(kind: EntryKind, ignore_symlinks: bool) -> (r: EntryAction)
    ensures
        r == entry_action_spec(kind, ignore_symlinks),
        ignore_symlinks && (kind == EntryKind::Symlink || kind == EntryKind::HardLink) ==> r
            == EntryAction::Skip,
        kind == EntryKind::File ==> r == EntryAction::Unpack,
{
    match kind {
        EntryKind::Directory => EntryAction::Defer,
        EntryKind::Symlink | EntryKind::HardLink => if ignore_symlinks {
            EntryAction::Skip
        } else {
            EntryAction::Unpack
        },
        _ => EntryAction::Unpack,
    }
}

} // verus!
