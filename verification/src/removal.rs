//! Removing an entry: the file first, then every ancestor directory that the
//! removal left empty, up to the cache root and never the root itself.
//!
//! A removal is a state machine.  Each state names one thing for the driver
//! to do on the filesystem; the driver does it and calls the state's one
//! method, which gives the next state.  A step that fails on the filesystem
//! ends the removal with the driver's error.
//!
//! Directories are told apart by their components, so the root is known
//! however it is spelled.  A directory is deleted only after it was looked
//! into and found empty.

use vstd::prelude::*;

use crate::path::{
    are_well_formed, components, components_of, cur_dir, is_name, join, joined, root_dir,
    same_parts, views, SEPARATOR,
};
use crate::path_lemmas::{lemma_components_are_well_formed, lemma_components_of_joined};

verus! {

/// Where a removal stands, as plain values.
pub enum RemovalView {
    /// Nothing is left to do.
    Done,
    /// The file at `path` is to be deleted.
    DeleteFile { path: Seq<u8>, root: Seq<Seq<u8>>, trail: Seq<Seq<u8>> },
    /// The directory spelled by `trail` is to be looked into.
    Inspect { root: Seq<Seq<u8>>, trail: Seq<Seq<u8>> },
    /// The directory spelled by `trail`, found empty, is to be deleted.
    DeleteDirectory { root: Seq<Seq<u8>>, trail: Seq<Seq<u8>> },
}

/// What follows once the file or directory with the components `trail` is
/// gone, below a cache root with the components `root`: its parent is looked
/// into next, unless it has none or the parent is the root.
pub open spec fn after_deleting(root: Seq<Seq<u8>>, trail: Seq<Seq<u8>>) -> RemovalView {
    if trail.len() == 0 || trail.last() == root_dir() {
        RemovalView::Done
    } else if trail.drop_last() == root {
        RemovalView::Done
    } else {
        RemovalView::Inspect { root, trail: trail.drop_last() }
    }
}

/// What follows once a directory was looked into: an empty one is deleted, a
/// populated one ends the removal.
pub open spec fn after_inspecting(root: Seq<Seq<u8>>, trail: Seq<Seq<u8>>, empty: bool) -> RemovalView {
    if empty {
        RemovalView::DeleteDirectory { root, trail }
    } else {
        RemovalView::Done
    }
}

/// How a removal starts for the entry at `path` below `cache_root`: with the
/// file where there is one, with nothing where there is none.
pub open spec fn removal_of(path: Seq<u8>, cache_root: Seq<u8>, present: bool) -> RemovalView {
    if present {
        RemovalView::DeleteFile {
            path,
            root: components_of(cache_root),
            trail: components_of(path),
        }
    } else {
        RemovalView::Done
    }
}

/// The state in which the entry's file is to be deleted.
pub struct FileStep {
    path: Vec<u8>,
    root: Vec<Vec<u8>>,
    trail: Vec<Vec<u8>>,
}

/// The state in which a directory is to be looked into.
pub struct InspectStep {
    directory: Vec<u8>,
    root: Vec<Vec<u8>>,
    trail: Vec<Vec<u8>>,
}

/// The state in which an empty directory is to be deleted.
pub struct DirectoryStep {
    directory: Vec<u8>,
    root: Vec<Vec<u8>>,
    trail: Vec<Vec<u8>>,
}

/// Where a removal stands.
pub enum Removal {
    /// Nothing is left to do.
    Done,
    /// Delete the file at [`FileStep::path`], then call [`FileStep::deleted`].
    DeleteFile(FileStep),
    /// Find out whether the directory at [`InspectStep::directory`] is empty,
    /// then call [`InspectStep::observed`].
    Inspect(InspectStep),
    /// Delete the directory at [`DirectoryStep::directory`], then call
    /// [`DirectoryStep::deleted`].
    DeleteDirectory(DirectoryStep),
}

impl View for FileStep {
    type V = RemovalView;

    closed spec fn view(&self) -> RemovalView {
        RemovalView::DeleteFile { path: self.path@, root: views(self.root@), trail: views(self.trail@) }
    }
}

impl View for InspectStep {
    type V = RemovalView;

    closed spec fn view(&self) -> RemovalView {
        RemovalView::Inspect { root: views(self.root@), trail: views(self.trail@) }
    }
}

impl View for DirectoryStep {
    type V = RemovalView;

    closed spec fn view(&self) -> RemovalView {
        RemovalView::DeleteDirectory { root: views(self.root@), trail: views(self.trail@) }
    }
}

impl View for Removal {
    type V = RemovalView;

    open spec fn view(&self) -> RemovalView {
        match self {
            Removal::Done => RemovalView::Done,
            Removal::DeleteFile(step) => step@,
            Removal::Inspect(step) => step@,
            Removal::DeleteDirectory(step) => step@,
        }
    }
}

/// The state after the file or directory with the components `trail` is gone.
fn climb(root: Vec<Vec<u8>>, trail: Vec<Vec<u8>>) -> (next: Removal)
    ensures
        next@ == after_deleting(views(root@), views(trail@)),
{
    let mut trail = trail;
    let ghost before = views(trail@);
    let len = trail.len();
    if len == 0 {
        return Removal::Done;
    }
    let last = &trail[len - 1];
    if last.len() == 1 && last[0] == SEPARATOR {
        assert(last@ =~= root_dir());
        return Removal::Done;
    }
    assert(before.last() != root_dir()) by {
        if before.last() == root_dir() {
            assert(before.last().len() == 1 && before.last()[0] == SEPARATOR);
        }
    }
    trail.pop();
    assert(views(trail@) =~= before.drop_last());
    if same_parts(&trail, &root) {
        Removal::Done
    } else {
        let directory = join(&trail);
        Removal::Inspect(InspectStep { directory, root, trail })
    }
}

impl FileStep {
    /// The state in which the file at `path`, below `cache_root`, is to be
    /// deleted.
    pub(crate) fn new(path: &[u8], cache_root: &[u8]) -> (step: FileStep)
        ensures
            step@ == removal_of(path@, cache_root@, true),
    {
        FileStep {
            path: vstd::slice::slice_to_vec(path),
            root: components(cache_root),
            trail: components(path),
        }
    }

    /// The file to delete.
    pub fn path(&self) -> (path: &Vec<u8>)
        ensures
            (self@ matches RemovalView::DeleteFile { path: p, .. } && path@ == p),
    {
        &self.path
    }

    /// The state after the file was deleted.
    pub fn deleted(self) -> (next: Removal)
        ensures
            (self@ matches RemovalView::DeleteFile { root, trail, .. } && next@ == after_deleting(
                root,
                trail,
            )),
    {
        climb(self.root, self.trail)
    }
}

impl InspectStep {
    #[verifier::type_invariant]
    spec fn consistent(self) -> bool {
        self.directory@ == joined(views(self.trail@))
    }

    /// The directory to look into.
    pub fn directory(&self) -> (directory: &Vec<u8>)
        ensures
            (self@ matches RemovalView::Inspect { trail, .. } && directory@ == joined(trail)),
    {
        proof {
            use_type_invariant(self);
        }
        &self.directory
    }

    /// The state after the directory was found `empty` or not.
    pub fn observed(self, empty: bool) -> (next: Removal)
        ensures
            (self@ matches RemovalView::Inspect { root, trail } && next@ == after_inspecting(
                root,
                trail,
                empty,
            )),
    {
        proof {
            use_type_invariant(&self);
        }
        if empty {
            Removal::DeleteDirectory(
                DirectoryStep { directory: self.directory, root: self.root, trail: self.trail },
            )
        } else {
            Removal::Done
        }
    }
}

impl DirectoryStep {
    #[verifier::type_invariant]
    spec fn consistent(self) -> bool {
        self.directory@ == joined(views(self.trail@))
    }

    /// The directory to delete.
    pub fn directory(&self) -> (directory: &Vec<u8>)
        ensures
            (self@ matches RemovalView::DeleteDirectory { trail, .. } && directory@ == joined(trail)),
    {
        proof {
            use_type_invariant(self);
        }
        &self.directory
    }

    /// The state after the directory was deleted.
    pub fn deleted(self) -> (next: Removal)
        ensures
            (self@ matches RemovalView::DeleteDirectory { root, trail } && next@ == after_deleting(
                root,
                trail,
            )),
    {
        climb(self.root, self.trail)
    }
}

/// Whether the components `root` open the components `trail` and are fewer:
/// whether what `trail` spells lies strictly below what `root` spells.
pub open spec fn is_strictly_below(trail: Seq<Seq<u8>>, root: Seq<Seq<u8>>) -> bool {
    root.is_prefix_of(trail) && root.len() < trail.len()
}

/// The path that a removal in `state` hands to its driver, if it hands one.
pub open spec fn target_of(state: RemovalView) -> Option<Seq<u8>> {
    match state {
        RemovalView::Done => None,
        RemovalView::DeleteFile { path, .. } => Some(path),
        RemovalView::Inspect { trail, .. } => Some(joined(trail)),
        RemovalView::DeleteDirectory { trail, .. } => Some(joined(trail)),
    }
}

/// Whether a removal in `state` belongs to a cache root with the components
/// `root` and is about something strictly below that root.
pub open spec fn stays_below(state: RemovalView, root: Seq<Seq<u8>>) -> bool {
    match state {
        RemovalView::Done => true,
        RemovalView::DeleteFile { path, root: r, trail } => {
            &&& r == root
            &&& trail == components_of(path)
            &&& is_strictly_below(trail, root)
        },
        RemovalView::Inspect { root: r, trail } => {
            &&& r == root
            &&& are_well_formed(trail)
            &&& is_strictly_below(trail, root)
        },
        RemovalView::DeleteDirectory { root: r, trail } => {
            &&& r == root
            &&& are_well_formed(trail)
            &&& is_strictly_below(trail, root)
        },
    }
}

/// The removal of an entry that lies strictly below its cache root starts
/// below the root.
pub proof fn lemma_removal_starts_below_root(path: Seq<u8>, cache_root: Seq<u8>, present: bool)
    requires
        is_strictly_below(components_of(path), components_of(cache_root)),
    ensures
        stays_below(removal_of(path, cache_root, present), components_of(cache_root)),
{
}

/// A removal that is below the root stays there.  With every deletion it
/// climbs by one component, and it stops before the root.  A populated
/// directory ends it at once.
pub proof fn lemma_removal_stays_below_root(state: RemovalView, root: Seq<Seq<u8>>, empty: bool)
    requires
        stays_below(state, root),
    ensures
        (match state {
            RemovalView::Done => true,
            RemovalView::DeleteFile { trail, .. } => {
                &&& stays_below(after_deleting(root, trail), root)
                &&& after_deleting(root, trail) matches RemovalView::Inspect { trail: above, .. }
                    ==> above == trail.drop_last()
            },
            RemovalView::Inspect { trail, .. } => {
                &&& stays_below(after_inspecting(root, trail, empty), root)
                &&& !empty ==> after_inspecting(root, trail, empty) == RemovalView::Done
            },
            RemovalView::DeleteDirectory { trail, .. } => {
                &&& stays_below(after_deleting(root, trail), root)
                &&& after_deleting(root, trail) matches RemovalView::Inspect { trail: above, .. }
                    ==> above == trail.drop_last()
            },
        }),
{
    match state {
        RemovalView::Done => {},
        RemovalView::Inspect { .. } => {},
        RemovalView::DeleteFile { path, trail, .. } => {
            lemma_components_are_well_formed(path, trail.len() - 1);
            lemma_climb_stays_below_root(root, trail);
        },
        RemovalView::DeleteDirectory { trail, .. } => {
            lemma_climb_stays_below_root(root, trail);
        },
    }
}

/// One step up from something strictly below the root is the root or is
/// strictly below the root.
proof fn lemma_climb_stays_below_root(root: Seq<Seq<u8>>, trail: Seq<Seq<u8>>)
    requires
        is_strictly_below(trail, root),
    ensures
        trail.drop_last() == root || is_strictly_below(trail.drop_last(), root),
        are_well_formed(trail) ==> are_well_formed(trail.drop_last()),
{
    let above = trail.drop_last();
    assert(above.subrange(0, root.len() as int) =~= trail.subrange(0, root.len() as int));
    if above.len() == root.len() {
        assert(above =~= root);
    }
    if are_well_formed(trail) {
        assert forall|k: int| 0 <= k < above.len() implies is_name(#[trigger] above[k]) || (k == 0
            && (above[k] == root_dir() || above[k] == cur_dir())) by {
            assert(above[k] == trail[k]);
        }
    }
}

/// An upper bound on the steps that a removal in `state` still takes.
pub open spec fn steps_left(state: RemovalView) -> nat {
    match state {
        RemovalView::Done => 0,
        RemovalView::DeleteFile { trail, .. } => 2 * trail.len() + 1,
        RemovalView::Inspect { trail, .. } => 2 * trail.len() + 2,
        RemovalView::DeleteDirectory { trail, .. } => 2 * trail.len() + 1,
    }
}

/// Every removal comes to an end: each step leaves fewer steps to take, so a
/// removal is over after at most two steps for every component of the
/// entry's path, and one more.
pub proof fn lemma_removal_ends(root: Seq<Seq<u8>>, trail: Seq<Seq<u8>>, empty: bool)
    ensures
        steps_left(after_deleting(root, trail)) < 2 * trail.len() + 1,
        steps_left(after_inspecting(root, trail, empty)) < 2 * trail.len() + 2,
{
}

/// Whatever a removal below the root hands to its driver lies strictly below
/// the root: the root itself is never deleted and never looked into, nor is
/// anything beside or above it.
pub proof fn lemma_removal_targets_lie_below_root(state: RemovalView, root: Seq<Seq<u8>>)
    requires
        stays_below(state, root),
    ensures
        target_of(state) matches Some(target) ==> is_strictly_below(components_of(target), root),
{
    match state {
        RemovalView::Done => {},
        RemovalView::DeleteFile { .. } => {},
        RemovalView::Inspect { trail, .. } => {
            lemma_components_of_joined(trail);
        },
        RemovalView::DeleteDirectory { trail, .. } => {
            lemma_components_of_joined(trail);
        },
    }
}

} // verus!
