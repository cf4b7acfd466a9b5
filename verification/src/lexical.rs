//! What a lookup comes to on a disk without links.
//!
//! Where no directory is a link, the canonical path of a directory follows
//! from its spelling alone: every `..` leads to the parent of what comes
//! before it.  On such a disk a lookup succeeds exactly when the relative
//! path never climbs above the cache root.

use vstd::prelude::*;

use crate::path::{
    are_well_formed, components_of, cur_dir, has_root, head_of, is_name, is_under, joined, named,
    names_something, parent_dir, pushed_all, root_dir,
};
use crate::path_lemmas::{
    lemma_components_are_names, lemma_components_of_joined, lemma_components_of_pushed_all,
    lemma_named_of_pushed,
};
use crate::resolve::{end_of, lemma_lookup_ends_at_first_escape, names_a_file, WalkView};

verus! {

/// Where the components `parts` of an absolute path lead on a disk without
/// links: `..` takes the last step back, and stays where it is at the top.
pub open spec fn settled(parts: Seq<Seq<u8>>) -> Seq<Seq<u8>>
    decreases parts.len(),
{
    if parts.len() == 0 {
        Seq::empty()
    } else {
        let before = settled(parts.drop_last());
        if parts.last() != parent_dir() {
            before.push(parts.last())
        } else if before.len() > 1 {
            before.drop_last()
        } else {
            before
        }
    }
}

/// How many directories below its start the walk along `steps` ends, for a
/// walk that never climbs above its start; nothing for one that does.
pub open spec fn descent(steps: Seq<Seq<u8>>) -> Option<nat>
    decreases steps.len(),
{
    if steps.len() == 0 {
        Some(0)
    } else {
        match descent(steps.drop_last()) {
            None => None,
            Some(depth) => if steps.last() != parent_dir() {
                Some(depth + 1)
            } else if depth > 0 {
                Some((depth - 1) as nat)
            } else {
                None
            },
        }
    }
}

/// Whether `root` are the components of a canonical directory below the top
/// of the filesystem: they start at the top, go on with names, and hold no
/// `..`.
pub open spec fn is_canonical_root(root: Seq<Seq<u8>>) -> bool {
    &&& root.len() >= 2
    &&& root[0] == root_dir()
    &&& forall|k: int| 1 <= k < root.len() ==> is_name(#[trigger] root[k]) && root[k] != parent_dir()
}

/// What a driver on a disk without links reports of the directories that a
/// walk asks about.
pub open spec fn reports_without_links(walk: WalkView) -> Seq<Seq<u8>> {
    Seq::new(
        walk.parents.len(),
        |i: int| joined(settled(components_of(pushed_all(walk.root, walk.parents.take(i + 1))))),
    )
}

/// A walk that never climbs above the root leads to a place at or below the
/// root, as many directories below it as the walk descends.
proof fn lemma_settled_below_root(root: Seq<Seq<u8>>, steps: Seq<Seq<u8>>)
    requires
        is_canonical_root(root),
        forall|k: int| 0 <= k < steps.len() ==> is_name(#[trigger] steps[k]),
        descent(steps) is Some,
    ensures
        root.is_prefix_of(settled(root + steps)),
        settled(root + steps).len() == root.len() + descent(steps)->0,
        are_well_formed(settled(root + steps)),
    decreases steps.len(),
{
    if steps.len() == 0 {
        assert(root + steps =~= root);
        lemma_canonical_root_is_settled(root, root.len() as int);
        assert(root.take(root.len() as int) =~= root);
        assert(root.subrange(0, root.len() as int) =~= root);
    } else {
        let front = steps.drop_last();
        let last = steps.last();
        assert forall|k: int| 0 <= k < front.len() implies is_name(#[trigger] front[k]) by {
            assert(front[k] == steps[k]);
        }
        lemma_settled_below_root(root, front);
        let whole = root + steps;
        assert(whole.drop_last() =~= root + front);
        assert(whole.last() == last);
        let before = settled(root + front);
        let after = settled(whole);
        assert(is_name(steps[steps.len() - 1]));
        if last != parent_dir() {
            assert(after == before.push(last));
            assert(after.subrange(0, root.len() as int) =~= before.subrange(0, root.len() as int));
            assert forall|k: int| 0 <= k < after.len() implies is_name(#[trigger] after[k]) || (k
                == 0 && (after[k] == root_dir() || after[k] == cur_dir())) by {
                if k < before.len() {
                    assert(after[k] == before[k]);
                }
            }
        } else {
            assert(before.len() > root.len());
            assert(after == before.drop_last());
            assert(after.subrange(0, root.len() as int) =~= before.subrange(0, root.len() as int));
            assert forall|k: int| 0 <= k < after.len() implies is_name(#[trigger] after[k]) || (k
                == 0 && (after[k] == root_dir() || after[k] == cur_dir())) by {
                assert(after[k] == before[k]);
            }
        }
    }
}

/// A canonical root leads to itself.
proof fn lemma_canonical_root_is_settled(root: Seq<Seq<u8>>, count: int)
    requires
        is_canonical_root(root),
        0 <= count <= root.len(),
    ensures
        settled(root.take(count)) == root.take(count),
        are_well_formed(root.take(count)),
    decreases count,
{
    let front = root.take(count);
    if count == 0 {
        assert(front =~= Seq::<Seq<u8>>::empty());
    } else {
        lemma_canonical_root_is_settled(root, count - 1);
        assert(front.drop_last() =~= root.take(count - 1));
        assert(front.last() == root[count - 1]);
        assert(front.last() != parent_dir()) by {
            if count == 1 {
                assert(root_dir().len() == 1);
                assert(parent_dir().len() == 2);
            }
        }
        assert(root.take(count - 1).push(root[count - 1]) =~= front);
        assert forall|k: int| 0 <= k < front.len() implies is_name(#[trigger] front[k]) || (k == 0
            && (front[k] == root_dir() || front[k] == cur_dir())) by {
            assert(front[k] == root[k]);
        }
    }
}

/// The first step above the root leads out of the root.
proof fn lemma_settled_above_root(root: Seq<Seq<u8>>, steps: Seq<Seq<u8>>)
    requires
        is_canonical_root(root),
        forall|k: int| 0 <= k < steps.len() ==> is_name(#[trigger] steps[k]),
        descent(steps) == Some(0nat),
    ensures
        settled(root + steps.push(parent_dir())) == root.drop_last(),
        !root.is_prefix_of(settled(root + steps.push(parent_dir()))),
        are_well_formed(settled(root + steps.push(parent_dir()))),
{
    lemma_settled_below_root(root, steps);
    let before = settled(root + steps);
    assert(before =~= root) by {
        assert(before.subrange(0, root.len() as int) =~= before);
    }
    let whole = root + steps.push(parent_dir());
    assert(whole.drop_last() =~= root + steps);
    assert(whole.last() == parent_dir());
    lemma_canonical_root_is_settled(root, root.len() - 1);
    assert(root.take(root.len() - 1) =~= root.drop_last());
}

/// The names that lead to a directory of a walk, with the step that leads
/// to the next directory added.
proof fn lemma_steps_grow(parents: Seq<Seq<u8>>, i: int)
    requires
        0 <= i < parents.len(),
    ensures
        named(parents.take(i + 1)) == if names_something(parents[i]) {
            named(parents.take(i)).push(parents[i])
        } else {
            named(parents.take(i))
        },
{
    assert(parents.take(i + 1) =~= parents.take(i).push(parents[i]));
    lemma_named_of_pushed(parents.take(i), parents[i]);
}

/// Named steps are names.
proof fn lemma_steps_are_names(parents: Seq<Seq<u8>>, count: int)
    requires
        0 <= count <= parents.len(),
        forall|k: int| 0 <= k < parents.len() ==> is_name(#[trigger] parents[k]) || parents[k]
            == cur_dir(),
    ensures
        forall|k: int|
            0 <= k < named(parents.take(count)).len() ==> is_name(
                #[trigger] named(parents.take(count))[k],
            ),
    decreases count,
{
    if count == 0 {
        assert(parents.take(0) =~= Seq::<Seq<u8>>::empty());
    } else {
        lemma_steps_are_names(parents, count - 1);
        lemma_steps_grow(parents, count - 1);
        assert(is_name(parents[count - 1]) || parents[count - 1] == cur_dir());
    }
}

/// On a disk without links, the directories of a walk up to the `count`-th
/// all lie at or below the root exactly when the steps to the last of them
/// never climb above the root.
proof fn lemma_walk_without_links(walk: WalkView, count: int)
    requires
        walk.root.len() > 0,
        is_canonical_root(components_of(walk.root)),
        0 <= count <= walk.parents.len(),
        forall|k: int| 0 <= k < walk.parents.len() ==> is_name(#[trigger] walk.parents[k])
            || walk.parents[k] == cur_dir(),
    ensures
        descent(named(walk.parents.take(count))) is Some <==> forall|i: int|
            0 <= i < count ==> is_under(#[trigger] reports_without_links(walk)[i], walk.root),
    decreases count,
{
    let root = components_of(walk.root);
    let reports = reports_without_links(walk);
    if count == 0 {
        assert(walk.parents.take(0) =~= Seq::<Seq<u8>>::empty());
    } else {
        let i = count - 1;
        lemma_walk_without_links(walk, i);
        lemma_steps_grow(walk.parents, i);
        lemma_steps_are_names(walk.parents, i);
        lemma_steps_are_names(walk.parents, count);
        let before = named(walk.parents.take(i));
        let steps = named(walk.parents.take(count));
        let upto = walk.parents.take(count);
        assert forall|k: int| 0 <= k < upto.len() implies is_name(#[trigger] upto[k]) || upto[k]
            == cur_dir() by {
            assert(upto[k] == walk.parents[k]);
        }
        lemma_components_of_pushed_all(walk.root, upto);
        let place = settled(root + steps);
        assert(reports[i] == joined(place));
        if descent(before) is Some {
            if descent(steps) is Some {
                lemma_settled_below_root(root, steps);
                lemma_components_of_joined(place);
                assert(is_under(reports[i], walk.root));
                assert forall|j: int| 0 <= j < count implies is_under(
                    #[trigger] reports[j],
                    walk.root,
                ) by {
                    if j < i {
                        assert(is_under(reports[j], walk.root));
                    }
                }
            } else {
                assert(steps == before.push(walk.parents[i]));
                assert(steps.drop_last() =~= before);
                assert(walk.parents[i] == parent_dir());
                assert(descent(before) == Some(0nat));
                lemma_settled_above_root(root, before);
                lemma_components_of_joined(place);
                assert(!is_under(reports[i], walk.root));
            }
        } else {
            if steps != before {
                assert(steps.drop_last() =~= before);
            }
            assert(descent(steps) is None);
            let j = choose|j: int| 0 <= j < i && !is_under(#[trigger] reports[j], walk.root);
            assert(0 <= j < count && !is_under(reports[j], walk.root));
        }
    }
}

/// On a disk without links the lookup of a relative path succeeds exactly
/// when the path never climbs above the cache root: at no point has it taken
/// more steps up than steps down.  A path that does climb above the root is
/// refused at the first directory that lies outside.
pub proof fn lemma_lookup_without_links(walk: WalkView)
    requires
        walk.root.len() > 0,
        is_canonical_root(components_of(walk.root)),
        walk.checked == 0,
        0 < walk.parents.len(),
        forall|k: int| 0 <= k < walk.parents.len() ==> is_name(#[trigger] walk.parents[k])
            || walk.parents[k] == cur_dir(),
    ensures
        end_of(walk, reports_without_links(walk)) is Ok <==> descent(named(walk.parents)) is Some,
{
    lemma_lookup_ends_at_first_escape(walk, reports_without_links(walk));
    lemma_walk_without_links(walk, walk.parents.len() as int);
    assert(walk.parents.take(walk.parents.len() as int) =~= walk.parents);
}

/// The same of a relative path that names a file in some directory: below
/// a canonical root on a disk without links its lookup succeeds exactly
/// when the directories it names never climb above the root.
pub proof fn lemma_relative_path_without_links(root: Seq<u8>, path: Seq<u8>)
    requires
        root.len() > 0,
        is_canonical_root(components_of(root)),
        !has_root(path),
        names_a_file(path),
        components_of(path).len() > 1,
    ensures
        ({
            let parents = components_of(path).drop_last();
            let walk = WalkView { root, parents, name: components_of(path).last(), checked: 0 };
            end_of(walk, reports_without_links(walk)) is Ok <==> descent(named(parents)) is Some
        }),
{
    let components = components_of(path);
    let parents = components.drop_last();
    let walk = WalkView { root, parents, name: components.last(), checked: 0 };
    lemma_components_are_names(path);
    assert forall|k: int| 0 <= k < parents.len() implies is_name(#[trigger] parents[k])
        || parents[k] == cur_dir() by {
        assert(parents[k] == components[k]);
        if k < head_of(path).len() {
            assert(components[k] == head_of(path)[k]);
        }
    }
    lemma_lookup_without_links(walk);
}

} // verus!
