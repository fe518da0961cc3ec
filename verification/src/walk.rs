//! The decisions of the source-tree walk. Reading directories happens
//! outside this library; for each directory entry it reports, the walk
//! decides whether to skip it, descend into it, or consider it as a source
//! file, and it enforces the depth and file-count limits.
//!
//! Directories are explored last-in first-out, as a stack.

use vstd::prelude::*;
use crate::syntax::{grammar_for, grammar_for_spec};
use crate::text::{chars_of, str_eq};

verus! {

broadcast use vstd::string::group_string_axioms;

/// The most source files a walk may collect.
pub const MAX_SOURCE_FILES: usize = 10000;

/// Source files larger than this many bytes are left out.
pub const MAX_SOURCE_FILE_BYTES: u64 = 2097152;

/// The deepest directory level a walk may enter (the root is level 0).
pub const MAX_SCAN_DEPTH: usize = 32;

/// What kind of filesystem entry a directory entry is.
#[derive(Debug, Clone, Copy, PartialEq, Eq, Structural)]
pub enum EntryKind {
    Symlink,
    Directory,
    File,
    Other,
}

/// What the walk does with a directory entry.
#[derive(Debug, Clone, Copy, PartialEq, Eq, Structural)]
pub enum EntryAction {
    Skip,
    Descend,
    Consider,
}

/// Why a walk stops.
#[derive(Debug, Clone, Copy, PartialEq, Eq, Structural)]
pub enum WalkError {
    DepthExceeded,
    TooManyFiles,
}

/// Names never entered or scored: hidden entries, `node_modules`, `target`.
pub open spec fn skipped_name(name: Seq<char>) -> bool {
    (name.len() > 0 && name[0] == '.') || name == "node_modules"@ || name == "target"@
}

/// What the walk does with the entry `name` at `path`: symbolic links and
/// skipped names are passed over, directories entered, and regular files
/// with a grammar considered.
pub open spec fn entry_action_spec(name: Seq<char>, path: Seq<char>, kind: EntryKind) -> EntryAction {
    if kind == EntryKind::Symlink || skipped_name(name) {
        EntryAction::Skip
    } else if kind == EntryKind::Directory {
        EntryAction::Descend
    } else if kind == EntryKind::File && grammar_for_spec(path) is Some {
        EntryAction::Consider
    } else {
        EntryAction::Skip
    }
}

/// Decides what the walk does with one directory entry.
pub fn classify_entry(name: &str, path: &str, kind: EntryKind) -> (r: EntryAction)
    ensures
        r == entry_action_spec(name@, path@, kind),
{
    if kind == EntryKind::Symlink {
        return EntryAction::Skip;
    }
    let chars = chars_of(name);
    let hidden = chars.len() > 0 && chars[0] == '.';
    if hidden || str_eq(name, "node_modules") || str_eq(name, "target") {
        return EntryAction::Skip;
    }
    if kind == EntryKind::Directory {
        EntryAction::Descend
    } else if kind == EntryKind::File && grammar_for(path).is_some() {
        EntryAction::Consider
    } else {
        EntryAction::Skip
    }
}

/// The state of a walk: directories still to read, each with its depth,
/// and the source files collected so far.
pub struct SourceWalk {
    pending: Vec<(String, usize)>,
    found: Vec<String>,
}

/// A `SourceWalk` as plain values.
pub struct SourceWalkView {
    pub pending: Seq<(Seq<char>, usize)>,
    pub found: Seq<Seq<char>>,
}

impl View for SourceWalk {
    type V = SourceWalkView;

    closed spec fn view(&self) -> SourceWalkView {
        SourceWalkView {
            pending: self.pending@.map_values(|e: (String, usize)| (e.0@, e.1)),
            found: self.found@.map_values(|s: String| s@),
        }
    }
}

impl SourceWalk {
    /// A walk that starts at `root`, at depth 0.
    pub fn new(root: String) -> (r: SourceWalk)
        ensures
            r@.pending == seq![(root@, 0usize)],
            r@.found == Seq::<Seq<char>>::empty(),
    {
        let mut pending: Vec<(String, usize)> = Vec::new();
        let ghost root_view = root@;
        pending.push((root, 0));
        let r = SourceWalk { pending, found: Vec::new() };
        assert(r@.pending =~= seq![(root_view, 0usize)]);
        assert(r@.found =~= Seq::<Seq<char>>::empty());
        r
    }

    /// The next directory to read: the one added last. A directory deeper
    /// than `MAX_SCAN_DEPTH` stops the walk.
    pub fn next_dir(&mut self) -> (r: Result<Option<(String, usize)>, WalkError>)
        ensures
            final(self)@.found == old(self)@.found,
            old(self)@.pending.len() == 0 ==> r == Ok::<Option<(String, usize)>, WalkError>(None)
                && final(self)@.pending == old(self)@.pending,
            old(self)@.pending.len() > 0 ==> final(self)@.pending == old(self)@.pending.drop_last()
                && match r {
                Ok(Some((dir, depth))) => (dir@, depth) == old(self)@.pending.last() && depth
                    <= MAX_SCAN_DEPTH,
                Ok(None) => false,
                Err(e) => e == WalkError::DepthExceeded && old(self)@.pending.last().1
                    > MAX_SCAN_DEPTH,
            },
    {
        let ghost before = self.pending@;
        match self.pending.pop() {
            None => Ok(None),
            Some((dir, depth)) => {
                assert(self.pending@ == before.drop_last());
                assert(self@.pending =~= old(self)@.pending.drop_last());
                if depth > MAX_SCAN_DEPTH {
                    Err(WalkError::DepthExceeded)
                } else {
                    Ok(Some((dir, depth)))
                }
            },
        }
    }

    /// Queues the subdirectory `path` of a directory at `parent_depth`.
    pub fn add_dir(&mut self, path: String, parent_depth: usize)
        requires
            parent_depth <= MAX_SCAN_DEPTH,
        ensures
            final(self)@.pending == old(self)@.pending.push((path@, (parent_depth + 1) as usize)),
            final(self)@.found == old(self)@.found,
    {
        let ghost p = path@;
        self.pending.push((path, parent_depth + 1));
        assert(self@.pending =~= old(self)@.pending.push((p, (parent_depth + 1) as usize)));
    }

    /// Collects the source file `path` of `size` bytes, unless it is larger
    /// than `MAX_SOURCE_FILE_BYTES`. Collecting more than
    /// `MAX_SOURCE_FILES` files stops the walk.
    pub fn add_file(&mut self, path: String, size: u64) -> (r: Result<(), WalkError>)
        requires
            old(self)@.found.len() <= MAX_SOURCE_FILES,
        ensures
            final(self)@.pending == old(self)@.pending,
            size > MAX_SOURCE_FILE_BYTES ==> final(self)@.found == old(self)@.found && r is Ok,
            size <= MAX_SOURCE_FILE_BYTES ==> final(self)@.found == old(self)@.found.push(path@),
            r is Err <==> final(self)@.found.len() > MAX_SOURCE_FILES,
            r matches Err(e) ==> e == WalkError::TooManyFiles,
    {
        if size > MAX_SOURCE_FILE_BYTES {
            return Ok(());
        }
        let ghost p = path@;
        self.found.push(path);
        assert(self@.found =~= old(self)@.found.push(p));
        if self.found.len() > MAX_SOURCE_FILES {
            Err(WalkError::TooManyFiles)
        } else {
            Ok(())
        }
    }

    /// The source files collected, in the order they were found.
    pub fn into_files(self) -> (r: Vec<String>)
        ensures
            r@.map_values(|s: String| s@) == self@.found,
    {
        self.found
    }
}

} // verus!
