//! The path sandbox: from a caller's relative path to an absolute path that
//! lies inside the cache root.
//!
//! The relative path is first judged by its text alone: it has to name a
//! file.  Then its directories are walked one at a time, starting at the
//! root.  For each, the driver tells whether the directory exists, creates
//! it where it does not, and reports where it really is, links resolved; a
//! directory that is not at or below the root ends the walk.  Checking after
//! every step, and not once at the end, is what stops a linked directory
//! from leading later steps outside.  Directories made before a walk fails
//! are left in place.
//!
//! The walk is a state machine.  Each state names one thing for the driver
//! to do; the driver does it and calls the state's one method, which gives
//! the next state.

use vstd::prelude::*;
use vstd::utf8::{decode_utf8, valid_utf8};

use crate::name::{is_blank, is_file_name, legible, lemma_blank_text_is_bare};
use crate::path::{
    components, components_of, cur_dir, has_root, head_of, is_name, is_plain_name,
    is_separator_free, is_under, named, push, pushed, pushed_all, root_dir, segments_of,
    starts_with, views, DOT, SEPARATOR,
};
use crate::path_lemmas::{
    lemma_components_are_names, lemma_components_of_pushed_all, lemma_named_of_pushed,
    lemma_nothing_has_no_components, lemma_segments_of_appended,
};
use crate::result::Error;

verus! {

/// Whether `path` ends in a separator, and so names a directory.
pub open spec fn ends_in_separator(path: Seq<u8>) -> bool {
    path.len() > 0 && path.last() == SEPARATOR
}

/// Whether the relative path `path` names a file: it does not end in a
/// separator, and its last component is a legible plain name.
pub open spec fn names_a_file(path: Seq<u8>) -> bool {
    &&& !ends_in_separator(path)
    &&& components_of(path).len() > 0
    &&& is_file_name(components_of(path).last())
}

/// A walk as plain values.
pub struct WalkView {
    /// The cache root.
    pub root: Seq<u8>,
    /// The components that lead to the file, in order.
    pub parents: Seq<Seq<u8>>,
    /// The name of the file.
    pub name: Seq<u8>,
    /// How many of `parents` were found inside the root; fewer than all.
    pub checked: nat,
}

impl WalkView {
    /// The directory that the driver has to look at next: the root with the
    /// components up to the first unchecked one pushed onto it.
    pub open spec fn directory(self) -> Seq<u8> {
        pushed_all(self.root, self.parents.take(self.checked as int + 1))
    }

    /// The path of the file: the root with every component and the name
    /// pushed onto it.
    pub open spec fn file(self) -> Seq<u8> {
        pushed(pushed_all(self.root, self.parents), self.name)
    }

    /// The walk with one more directory found inside the root.
    pub open spec fn next(self) -> WalkView {
        WalkView { checked: self.checked + 1, ..self }
    }

    /// What follows once the driver found [`WalkView::directory`] there or
    /// missing: a missing directory is created, a present one is checked.
    pub open spec fn observed(self, present: bool) -> LookupView {
        if present {
            LookupView::Check(self)
        } else {
            LookupView::Make(self)
        }
    }

    /// What follows once [`WalkView::directory`] was created: it is checked.
    pub open spec fn made(self) -> LookupView {
        LookupView::Check(self)
    }

    /// What follows once [`WalkView::directory`] was found inside the root:
    /// the next directory, or the file where none is left.
    pub open spec fn advanced(self) -> LookupView {
        if self.checked + 1 < self.parents.len() {
            LookupView::Probe(self.next())
        } else {
            LookupView::Resolved(self.file())
        }
    }
}

/// A lookup as plain values.
pub enum LookupView {
    /// The driver is to tell whether the walk's directory exists.
    Probe(WalkView),
    /// The driver is to create the walk's directory.
    Make(WalkView),
    /// The driver is to resolve the canonical path of the walk's directory.
    Check(WalkView),
    /// Every directory was checked: the path of the file.
    Resolved(Seq<u8>),
}

/// How the lookup of a `path` that names a file starts below `root`.
pub open spec fn lookup_of(root: Seq<u8>, path: Seq<u8>) -> LookupView {
    let components = components_of(path);
    let walk = WalkView { root, parents: components.drop_last(), name: components.last(), checked: 0 };
    if walk.parents.len() == 0 {
        LookupView::Resolved(walk.file())
    } else {
        LookupView::Probe(walk)
    }
}

/// A lookup with a directory left to check: the state in which the driver
/// is to tell whether that directory exists.
pub struct Walk {
    root: Vec<u8>,
    parents: Vec<Vec<u8>>,
    name: Vec<u8>,
    checked: usize,
    directory: Vec<u8>,
}

/// The state in which the driver is to create the walk's directory.
pub struct Making {
    walk: Walk,
}

/// The state in which the driver is to resolve the canonical path of the
/// walk's directory.
pub struct Checking {
    walk: Walk,
}

/// The absolute path of an entry, every directory of which was found inside
/// the cache root.
pub struct Resolved {
    path: Vec<u8>,
}

/// Where a lookup stands.
pub enum Lookup {
    /// Find out whether the directory at [`Walk::directory`] exists, then
    /// call [`Walk::observed`].
    Probe(Walk),
    /// Create the directory at [`Making::directory`], then call
    /// [`Making::made`].
    Make(Making),
    /// Resolve the canonical path of the directory at
    /// [`Checking::directory`], then call [`Checking::advance`].
    Check(Checking),
    /// Every directory is checked.
    Resolved(Resolved),
}

impl View for Walk {
    type V = WalkView;

    closed spec fn view(&self) -> WalkView {
        WalkView {
            root: self.root@,
            parents: views(self.parents@),
            name: self.name@,
            checked: self.checked as nat,
        }
    }
}

impl View for Making {
    type V = WalkView;

    closed spec fn view(&self) -> WalkView {
        self.walk@
    }
}

impl View for Checking {
    type V = WalkView;

    closed spec fn view(&self) -> WalkView {
        self.walk@
    }
}

impl View for Resolved {
    type V = Seq<u8>;

    closed spec fn view(&self) -> Seq<u8> {
        self.path@
    }
}

impl View for Lookup {
    type V = LookupView;

    open spec fn view(&self) -> LookupView {
        match self {
            Lookup::Probe(walk) => LookupView::Probe(walk@),
            Lookup::Make(step) => LookupView::Make(step@),
            Lookup::Check(step) => LookupView::Check(step@),
            Lookup::Resolved(resolved) => LookupView::Resolved(resolved@),
        }
    }
}

impl Resolved {
    /// The path.
    pub fn path(&self) -> (path: &Vec<u8>)
        ensures
            path@ == self@,
    {
        &self.path
    }

    /// The path, by value.
    pub fn into_path(self) -> (path: Vec<u8>)
        ensures
            path@ == self@,
    {
        self.path
    }
}

impl Walk {
    #[verifier::type_invariant]
    spec fn consistent(self) -> bool {
        &&& self.checked < self.parents.len()
        &&& self.directory@ == self@.directory()
    }

    /// Starts the lookup of the relative path `path` below `root`: judges
    /// the path by its text, and names the first directory to check.
    pub(crate) fn begin(root: &[u8], path: &[u8]) -> (lookup: Result<Lookup, Error>)
        ensures
            (match lookup {
                Ok(l) => names_a_file(path@) && l@ == lookup_of(root@, path@),
                Err(Error::InvalidPath { path: p }) => !names_a_file(path@) && p@ == path@,
                Err(_) => false,
            }),
    {
        let len = path.len();
        if len > 0 && path[len - 1] == SEPARATOR {
            return Err(Error::InvalidPath { path: vstd::slice::slice_to_vec(path) });
        }
        let mut parents = components(path);
        let ghost all = views(parents@);
        let name = match parents.pop() {
            Some(name) => name,
            None => {
                return Err(Error::InvalidPath { path: vstd::slice::slice_to_vec(path) });
            },
        };
        assert(views(parents@) =~= all.drop_last());
        assert(name@ == all.last());
        if !is_plain_name(name.as_slice()) || !legible(name.as_slice()) {
            return Err(Error::InvalidPath { path: vstd::slice::slice_to_vec(path) });
        }
        let mut directory = vstd::slice::slice_to_vec(root);
        if parents.len() == 0 {
            assert(pushed_all(root@, views(parents@)) == root@);
            push(&mut directory, name.as_slice());
            Ok(Lookup::Resolved(Resolved { path: directory }))
        } else {
            push(&mut directory, parents[0].as_slice());
            proof {
                let first = views(parents@).take(1);
                assert(first.drop_last() =~= Seq::empty());
                assert(first.last() == parents@[0]@);
                assert(pushed_all(root@, first.drop_last()) == root@);
            }
            Ok(
                Lookup::Probe(
                    Walk { root: vstd::slice::slice_to_vec(root), parents, name, checked: 0, directory },
                ),
            )
        }
    }

    /// The directory to tell the presence of.
    pub fn directory(&self) -> (directory: &Vec<u8>)
        ensures
            directory@ == self@.directory(),
    {
        proof {
            use_type_invariant(self);
        }
        &self.directory
    }

    /// The state after the driver found the directory `present` or missing.
    pub fn observed(self, present: bool) -> (lookup: Lookup)
        ensures
            lookup@ == self@.observed(present),
    {
        if present {
            Lookup::Check(Checking { walk: self })
        } else {
            Lookup::Make(Making { walk: self })
        }
    }

    /// The state after the directory was found inside the root.
    fn advanced(self) -> (lookup: Lookup)
        ensures
            lookup@ == self@.advanced(),
    {
        proof {
            use_type_invariant(&self);
        }
        let Walk { root, parents, name, checked, directory } = self;
        let mut directory = directory;
        let next = checked + 1;
        if next < parents.len() {
            push(&mut directory, parents[next].as_slice());
            proof {
                let upto = views(parents@).take(next + 1);
                assert(upto.drop_last() =~= views(parents@).take(next as int));
                assert(upto.last() == parents@[next as int]@);
            }
            Lookup::Probe(Walk { root, parents, name, checked: next, directory })
        } else {
            proof {
                assert(views(parents@).take(next as int) =~= views(parents@));
            }
            push(&mut directory, name.as_slice());
            Lookup::Resolved(Resolved { path: directory })
        }
    }
}

impl Making {
    /// The directory to create.
    pub fn directory(&self) -> (directory: &Vec<u8>)
        ensures
            directory@ == self@.directory(),
    {
        self.walk.directory()
    }

    /// The state after the directory was created.
    pub fn made(self) -> (lookup: Lookup)
        ensures
            lookup@ == self@.made(),
    {
        Lookup::Check(Checking { walk: self.walk })
    }
}

impl Checking {
    /// The directory to resolve the canonical path of.
    pub fn directory(&self) -> (directory: &Vec<u8>)
        ensures
            directory@ == self@.directory(),
    {
        self.walk.directory()
    }

    /// Takes the driver's report on the directory, which exists and really
    /// is at `canonical`.  A directory that is not at or below the root ends
    /// the lookup; otherwise the lookup moves on to the next directory, or
    /// to the file once there is none.
    pub fn advance(self, canonical: &[u8]) -> (lookup: Result<Lookup, Error>)
        ensures
            (match lookup {
                Ok(l) => is_under(canonical@, self@.root) && l@ == self@.advanced(),
                Err(Error::PathTraversal { path, cache_dir }) => {
                    &&& !is_under(canonical@, self@.root)
                    &&& path@ == self@.directory()
                    &&& cache_dir@ == self@.root
                },
                Err(_) => false,
            }),
    {
        if starts_with(canonical, self.walk.root.as_slice()) {
            Ok(self.walk.advanced())
        } else {
            proof {
                use_type_invariant(&self.walk);
            }
            let Walk { root, directory, .. } = self.walk;
            Err(Error::PathTraversal { path: directory, cache_dir: root })
        }
    }
}

/// How a lookup ends whose driver reports `reports[i]` as the canonical path
/// of the directory that the `i`-th component leads to: with the path of the
/// file, or, at the first directory reported outside the root, with that
/// directory.  Whether a directory was there or had to be created makes no
/// difference.
pub open spec fn end_of(walk: WalkView, reports: Seq<Seq<u8>>) -> Result<Seq<u8>, Seq<u8>>
    decreases walk.parents.len() - walk.checked,
{
    if !is_under(reports[walk.checked as int], walk.root) {
        Err(walk.directory())
    } else if walk.checked + 1 < walk.parents.len() {
        end_of(walk.next(), reports)
    } else {
        Ok(walk.file())
    }
}

/// A lookup ends with the path of the file exactly when every directory on
/// the way is reported at or below the root.  It then ends with the root and
/// every component of the relative path pushed onto it.  Otherwise it ends
/// at the first directory that is reported elsewhere.
pub proof fn lemma_lookup_ends_at_first_escape(walk: WalkView, reports: Seq<Seq<u8>>)
    requires
        walk.checked < walk.parents.len(),
    ensures
        end_of(walk, reports) is Ok <==> forall|i: int|
            walk.checked <= i < walk.parents.len() ==> is_under(#[trigger] reports[i], walk.root),
        end_of(walk, reports) matches Ok(file) ==> file == walk.file(),
        (end_of(walk, reports) matches Err(directory) ==> exists|i: int|
            {
                &&& walk.checked <= i < walk.parents.len()
                &&& !is_under(#[trigger] reports[i], walk.root)
                &&& directory == pushed_all(walk.root, walk.parents.take(i + 1))
                &&& forall|j: int| walk.checked <= j < i ==> is_under(#[trigger] reports[j], walk.root)
            }),
    decreases walk.parents.len() - walk.checked,
{
    let here = walk.checked as int;
    if !is_under(reports[here], walk.root) {
    } else if walk.checked + 1 < walk.parents.len() {
        let next = walk.next();
        lemma_lookup_ends_at_first_escape(next, reports);
        assert(next.file() == walk.file());
        if end_of(next, reports) is Ok {
            assert forall|i: int| walk.checked <= i < walk.parents.len() implies is_under(
                #[trigger] reports[i],
                walk.root,
            ) by {
                if i > here {
                    assert(next.checked <= i);
                }
            }
        } else {
            let i = choose|i: int|
                {
                    &&& next.checked <= i < next.parents.len()
                    &&& !is_under(#[trigger] reports[i], next.root)
                    &&& end_of(next, reports)->Err_0 == pushed_all(
                        next.root,
                        next.parents.take(i + 1),
                    )
                    &&& forall|j: int|
                        next.checked <= j < i ==> is_under(#[trigger] reports[j], next.root)
                };
            assert(walk.checked <= i < walk.parents.len());
            assert forall|j: int| walk.checked <= j < i implies is_under(
                #[trigger] reports[j],
                walk.root,
            ) by {
                if j > here {
                    assert(next.checked <= j);
                }
            }
        }
    } else {
        assert forall|i: int| walk.checked <= i < walk.parents.len() implies is_under(
            #[trigger] reports[i],
            walk.root,
        ) by {
            assert(i == here);
        }
    }
}

/// The steps of a lookup follow its walk: however the driver answers, the
/// states after a directory was looked for or created are about that same
/// directory, and the state after it was found inside the root is about
/// the next one or is the end.  A directory is created only after it was
/// found missing, and checked whether it was created or not.
pub proof fn lemma_lookup_steps_in_order(walk: WalkView)
    requires
        walk.checked < walk.parents.len(),
    ensures
        walk.observed(true) == LookupView::Check(walk),
        walk.observed(false) == LookupView::Make(walk),
        walk.made() == walk.observed(true),
        walk.advanced() matches LookupView::Probe(next) ==> next.checked == walk.checked + 1
            && next.checked < next.parents.len() && next.file() == walk.file(),
        walk.advanced() matches LookupView::Resolved(file) ==> file == walk.file() && walk.checked
            + 1 == walk.parents.len(),
        !(walk.advanced() is Make) && !(walk.advanced() is Check),
{
}

/// A path that ends in a separator names no file.
pub proof fn lemma_directory_names_no_file(path: Seq<u8>)
    requires
        ends_in_separator(path),
    ensures
        !names_a_file(path),
{
}

/// The empty path names no file.
pub proof fn lemma_empty_path_names_no_file()
    ensures
        !names_a_file(Seq::empty()),
{
    lemma_nothing_has_no_components();
}

/// A path of nothing but white space names no file.
pub proof fn lemma_blank_path_names_no_file(path: Seq<u8>)
    requires
        valid_utf8(path),
        is_blank(decode_utf8(path)),
    ensures
        !names_a_file(path),
{
    lemma_blank_text_is_bare(path);
    if path.len() == 0 {
        lemma_empty_path_names_no_file();
        assert(path =~= Seq::<u8>::empty());
    } else {
        assert(path[0] != SEPARATOR && path[0] != DOT);
        assert(is_separator_free(path));
        lemma_segments_of_appended(Seq::empty(), path);
        assert(Seq::<u8>::empty() + path =~= path);
        let none = segments_of(Seq::empty());
        assert(none.drop_last() =~= Seq::<Seq<u8>>::empty());
        assert(none.last() + path =~= path);
        let segments = segments_of(path);
        assert(segments =~= seq![path]);
        assert(segments.drop_last() =~= Seq::<Seq<u8>>::empty());
        assert(named(segments.drop_last()) =~= Seq::<Seq<u8>>::empty());
        assert(head_of(path) =~= Seq::<Seq<u8>>::empty());
        assert(path != cur_dir()) by {
            if path == cur_dir() {
                assert(path[0] == DOT);
            }
        }
        assert(named(segments) =~= seq![path]);
        assert(components_of(path) =~= seq![path]);
        assert(components_of(path).last() == path);
    }
}

/// The file that the lookup of `path` below `root` leads to.
pub open spec fn destination(root: Seq<u8>, path: Seq<u8>) -> Seq<u8> {
    pushed_all(root, components_of(path))
}

/// The lookup of a relative path leads below the root, to the letter: the
/// components of the file's path are those of the root followed by the
/// names in the relative path, the file's own name last.
pub proof fn lemma_destination_is_below_root(root: Seq<u8>, path: Seq<u8>)
    requires
        root.len() > 0,
        !has_root(path),
        names_a_file(path),
    ensures
        (match lookup_of(root, path) {
            LookupView::Probe(walk) => walk.file() == destination(root, path),
            LookupView::Resolved(file) => file == destination(root, path),
            _ => false,
        }),
        components_of(destination(root, path)) == components_of(root) + named(components_of(path)),
        is_under(destination(root, path), root),
        components_of(root).len() < components_of(destination(root, path)).len(),
{
    let components = components_of(path);
    let parents = components.drop_last();
    let name = components.last();
    assert(parents.push(name) =~= components);
    assert(components.drop_last() =~= parents);
    lemma_components_are_names(path);
    assert forall|k: int| 0 <= k < components.len() implies is_name(#[trigger] components[k])
        || components[k] == cur_dir() by {
        if k < head_of(path).len() {
            assert(components[k] == head_of(path)[k]);
        }
    }
    lemma_components_of_pushed_all(root, components);
    lemma_named_of_pushed(parents, name);
    let added = named(components);
    assert(added.len() >= 1);
    let whole = components_of(root) + added;
    assert(whole.subrange(0, components_of(root).len() as int) =~= components_of(root));
}

/// The lookup of a path that starts at the root of the filesystem begins
/// there, whatever the cache root: the first directory that the driver is
/// asked about is `/`.
pub proof fn lemma_absolute_path_is_walked_from_the_top(root: Seq<u8>, path: Seq<u8>)
    requires
        has_root(path),
        names_a_file(path),
    ensures
        lookup_of(root, path) matches LookupView::Probe(walk) && walk.directory() == root_dir(),
{
    let components = components_of(path);
    assert(components[0] == root_dir());
    assert(components.len() >= 2) by {
        if components.len() == 1 {
            assert(components.last() == root_dir());
        }
    }
    let parents = components.drop_last();
    assert(parents[0] == root_dir());
    let first = parents.take(1);
    assert(first.drop_last() =~= Seq::<Seq<u8>>::empty());
    assert(first.last() == root_dir());
    assert(pushed_all(root, first.drop_last()) == root);
    assert(has_root(root_dir()));
}

} // verus!
