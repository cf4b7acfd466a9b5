//! What holds of paths: how splitting, pushing and joining go together.

use vstd::prelude::*;

use crate::path::{
    are_well_formed, components_of, cur_dir, head_of, is_name, is_separator_free, is_under, joined,
    named, names_something, pushed, pushed_all, rejoined, root_dir, segments_of,
    starts_in_cur_dir, DOT, SEPARATOR,
};

verus! {

/// Splitting loses nothing: a path has at least one segment, no segment
/// holds a separator, and the segments put together again are the path.
pub proof fn lemma_segments_rejoin(path: Seq<u8>)
    ensures
        segments_of(path).len() >= 1,
        forall|k: int| 0 <= k < segments_of(path).len() ==> is_separator_free(
            #[trigger] segments_of(path)[k],
        ),
        rejoined(segments_of(path)) == path,
    decreases path.len(),
{
    if path.len() == 0 {
        assert(rejoined(segments_of(path)) =~= path);
    } else {
        let front = path.drop_last();
        let before = segments_of(front);
        lemma_segments_rejoin(front);
        if path.last() == SEPARATOR {
            let all = before.push(Seq::empty());
            assert(all.drop_last() =~= before);
            assert(rejoined(all) =~= front.push(SEPARATOR));
            assert(front.push(SEPARATOR) =~= path);
        } else {
            let grown = before.last().push(path.last());
            let all = before.drop_last().push(grown);
            assert(all.drop_last() =~= before.drop_last());
            if before.len() == 1 {
                assert(before[0] == front);
                assert(grown =~= path);
            } else {
                assert(rejoined(before) == rejoined(before.drop_last()).push(SEPARATOR)
                    + before.last());
                assert(rejoined(all) =~= rejoined(before).push(path.last()));
                assert(front.push(path.last()) =~= path);
            }
            assert forall|k: int| 0 <= k < all.len() implies is_separator_free(#[trigger] all[k]) by {
                if k < all.len() - 1 {
                    assert(all[k] == before[k]);
                } else {
                    assert(is_separator_free(before[k]));
                    assert forall|i: int| 0 <= i < grown.len() implies #[trigger] grown[i]
                        != SEPARATOR by {
                        if i < grown.len() - 1 {
                            assert(grown[i] == before.last()[i]);
                        }
                    }
                }
            }
        }
    }
}

/// Appending bytes without a separator to a path lengthens its last segment
/// and leaves the others alone.
pub proof fn lemma_segments_of_appended(path: Seq<u8>, tail: Seq<u8>)
    requires
        is_separator_free(tail),
    ensures
        segments_of(path).len() >= 1,
        segments_of(path + tail) == segments_of(path).drop_last().push(
            segments_of(path).last() + tail,
        ),
    decreases tail.len(),
{
    lemma_segments_rejoin(path);
    let segments = segments_of(path);
    if tail.len() == 0 {
        assert(path + tail =~= path);
        assert(segments.last() + tail =~= segments.last());
        assert(segments.drop_last().push(segments.last()) =~= segments);
    } else {
        let shorter = tail.drop_last();
        assert(is_separator_free(shorter)) by {
            assert forall|i: int| 0 <= i < shorter.len() implies #[trigger] shorter[i]
                != SEPARATOR by {
                assert(shorter[i] == tail[i]);
            }
        }
        lemma_segments_of_appended(path, shorter);
        let whole = path + tail;
        assert(whole.drop_last() =~= path + shorter);
        assert(whole.last() == tail.last());
        assert(tail.last() != SEPARATOR) by {
            assert(tail[tail.len() - 1] != SEPARATOR);
        }
        let before = segments_of(path + shorter);
        assert(before.drop_last() =~= segments.drop_last());
        assert(before.last() == segments.last() + shorter);
        assert((segments.last() + shorter).push(tail.last()) =~= segments.last() + tail);
    }
}

/// The named segments of a sequence with one more segment at its end.
pub proof fn lemma_named_of_pushed(segments: Seq<Seq<u8>>, last: Seq<u8>)
    ensures
        (named(segments.push(last)) == if names_something(last) {
            named(segments).push(last)
        } else {
            named(segments)
        }),
{
    assert(segments.push(last).drop_last() =~= segments);
}

/// Pushing a name onto a path adds that name to its components and changes
/// none of the others.
pub proof fn lemma_components_of_pushed(base: Seq<u8>, part: Seq<u8>)
    requires
        is_name(part),
    ensures
        components_of(pushed(base, part)) == components_of(base).push(part),
        pushed(base, part).len() > 0,
{
    assert(part[0] != SEPARATOR);
    assert(part.len() >= 2 ==> part[1] != SEPARATOR);
    assert(!starts_in_cur_dir(part)) by {
        if part.len() == 1 && part[0] == DOT {
            assert(part =~= cur_dir());
        }
    }
    let path = pushed(base, part);
    if base.len() == 0 {
        assert(path =~= part);
        lemma_segments_of_appended(Seq::empty(), part);
        assert(Seq::<u8>::empty() + part =~= part);
        let none = segments_of(Seq::empty());
        assert(none =~= seq![Seq::<u8>::empty()]);
        assert(none.drop_last() =~= Seq::<Seq<u8>>::empty());
        assert(none.last() + part =~= part);
        assert(segments_of(part) =~= Seq::<Seq<u8>>::empty().push(part));
        lemma_named_of_pushed(Seq::empty(), part);
        assert(named(none) =~= Seq::<Seq<u8>>::empty()) by {
            assert(none.drop_last() =~= Seq::<Seq<u8>>::empty());
        }
        assert(components_of(path) =~= components_of(base).push(part));
    } else if base.last() != SEPARATOR {
        let stem = base.push(SEPARATOR);
        assert(stem.drop_last() =~= base);
        assert(segments_of(stem) == segments_of(base).push(Seq::empty()));
        lemma_segments_of_appended(stem, part);
        let opened = segments_of(base).push(Seq::empty());
        assert(opened.drop_last() =~= segments_of(base));
        assert(opened.last() + part =~= part);
        assert(segments_of(path) == segments_of(base).push(part));
        lemma_named_of_pushed(segments_of(base), part);
        assert(path[0] == base[0]);
        assert(base.len() >= 2 ==> path[1] == base[1]);
        assert(base.len() == 1 ==> path[1] == SEPARATOR);
        assert(head_of(path) == head_of(base));
        assert(components_of(path) =~= components_of(base).push(part));
    } else {
        let front = base.drop_last();
        assert(segments_of(base) == segments_of(front).push(Seq::empty()));
        lemma_segments_of_appended(base, part);
        let opened = segments_of(front).push(Seq::empty());
        assert(opened.drop_last() =~= segments_of(front));
        assert(opened.last() + part =~= part);
        assert(segments_of(path) == segments_of(front).push(part));
        lemma_named_of_pushed(segments_of(front), part);
        lemma_named_of_pushed(segments_of(front), Seq::empty());
        assert(path[0] == base[0]);
        assert(base.len() >= 2 ==> path[1] == base[1]);
        assert(head_of(path) == head_of(base));
        assert(components_of(path) =~= components_of(base).push(part));
    }
}

/// Pushing `.` onto a path that is not empty leaves its components as they
/// are.
pub proof fn lemma_components_of_pushed_cur_dir(base: Seq<u8>)
    requires
        base.len() > 0,
    ensures
        components_of(pushed(base, cur_dir())) == components_of(base),
        pushed(base, cur_dir()).len() > 0,
{
    let part = cur_dir();
    assert(is_separator_free(part));
    let path = pushed(base, part);
    if base.last() != SEPARATOR {
        let stem = base.push(SEPARATOR);
        assert(stem.drop_last() =~= base);
        lemma_segments_of_appended(stem, part);
        let opened = segments_of(base).push(Seq::empty());
        assert(opened.drop_last() =~= segments_of(base));
        assert(opened.last() + part =~= part);
        lemma_named_of_pushed(segments_of(base), part);
        assert(path[0] == base[0]);
        assert(base.len() >= 2 ==> path[1] == base[1]);
        assert(base.len() == 1 ==> path[1] == SEPARATOR);
        assert(head_of(path) == head_of(base));
    } else {
        let front = base.drop_last();
        lemma_segments_of_appended(base, part);
        let opened = segments_of(front).push(Seq::empty());
        assert(opened.drop_last() =~= segments_of(front));
        assert(opened.last() + part =~= part);
        lemma_named_of_pushed(segments_of(front), part);
        lemma_named_of_pushed(segments_of(front), Seq::empty());
        assert(path[0] == base[0]);
        assert(base.len() >= 2 ==> path[1] == base[1]);
        assert(head_of(path) == head_of(base));
    }
}

/// Those of separator-free segments that name something are names.
pub proof fn lemma_named_are_names(segments: Seq<Seq<u8>>)
    requires
        forall|k: int| 0 <= k < segments.len() ==> is_separator_free(#[trigger] segments[k]),
    ensures
        forall|k: int| 0 <= k < named(segments).len() ==> is_name(#[trigger] named(segments)[k]),
        named(segments).len() <= segments.len(),
    decreases segments.len(),
{
    if segments.len() > 0 {
        let front = segments.drop_last();
        assert forall|k: int| 0 <= k < front.len() implies is_separator_free(#[trigger] front[k]) by {
            assert(front[k] == segments[k]);
        }
        lemma_named_are_names(front);
        assert(is_separator_free(segments[segments.len() - 1]));
    }
}

/// Every component of a path is a name, but for the root or the `.` that a
/// path may open with.
pub proof fn lemma_components_are_names(path: Seq<u8>)
    ensures
        head_of(path).len() <= 1,
        head_of(path).len() <= components_of(path).len(),
        forall|k: int|
            head_of(path).len() <= k < components_of(path).len() ==> is_name(
                #[trigger] components_of(path)[k],
            ),
{
    lemma_segments_rejoin(path);
    lemma_named_are_names(segments_of(path));
    let names = named(segments_of(path));
    assert forall|k: int| head_of(path).len() <= k < components_of(path).len() implies is_name(
        #[trigger] components_of(path)[k],
    ) by {
        assert(components_of(path)[k] == names[k - head_of(path).len()]);
    }
}

/// Pushing names and `.` onto a path that is not empty adds the names to its
/// components, in order, and nothing else.
pub proof fn lemma_components_of_pushed_all(base: Seq<u8>, parts: Seq<Seq<u8>>)
    requires
        base.len() > 0,
        forall|k: int| 0 <= k < parts.len() ==> is_name(#[trigger] parts[k]) || parts[k] == cur_dir(),
    ensures
        components_of(pushed_all(base, parts)) == components_of(base) + named(parts),
        pushed_all(base, parts).len() > 0,
    decreases parts.len(),
{
    if parts.len() == 0 {
        assert(components_of(base) + named(parts) =~= components_of(base));
    } else {
        let front = parts.drop_last();
        let last = parts.last();
        assert forall|k: int| 0 <= k < front.len() implies is_name(#[trigger] front[k]) || front[k]
            == cur_dir() by {
            assert(front[k] == parts[k]);
        }
        lemma_components_of_pushed_all(base, front);
        let stem = pushed_all(base, front);
        assert(is_name(parts[parts.len() - 1]) || parts[parts.len() - 1] == cur_dir());
        if last == cur_dir() {
            lemma_components_of_pushed_cur_dir(stem);
        } else {
            lemma_components_of_pushed(stem, last);
            assert(components_of(base) + named(front).push(last) =~= (components_of(base) + named(
                front,
            )).push(last));
        }
    }
}

/// The empty path has no components.
pub proof fn lemma_nothing_has_no_components()
    ensures
        components_of(Seq::empty()) == Seq::<Seq<u8>>::empty(),
{
    let segments = segments_of(Seq::empty());
    assert(segments.drop_last() =~= Seq::<Seq<u8>>::empty());
    assert(named(segments.drop_last()) =~= Seq::<Seq<u8>>::empty());
    assert(components_of(Seq::empty()) =~= Seq::<Seq<u8>>::empty());
}

/// The components of a path are well formed, and so is any number of them
/// from the front.
pub proof fn lemma_components_are_well_formed(path: Seq<u8>, count: int)
    requires
        0 <= count <= components_of(path).len(),
    ensures
        are_well_formed(components_of(path)),
        are_well_formed(components_of(path).take(count)),
{
    lemma_components_are_names(path);
    let components = components_of(path);
    assert forall|k: int| 0 <= k < components.len() implies is_name(#[trigger] components[k]) || (k
        == 0 && (components[k] == root_dir() || components[k] == cur_dir())) by {
        if k < head_of(path).len() {
            assert(components[k] == head_of(path)[k]);
        }
    }
    assert forall|k: int| 0 <= k < count implies is_name(#[trigger] components.take(count)[k]) || (k
        == 0 && (components.take(count)[k] == root_dir() || components.take(count)[k]
        == cur_dir())) by {
        assert(components.take(count)[k] == components[k]);
    }
}

/// Spelling components out and reading them again gives the same
/// components.
pub proof fn lemma_components_of_joined(parts: Seq<Seq<u8>>)
    requires
        are_well_formed(parts),
    ensures
        components_of(joined(parts)) == parts,
    decreases parts.len(),
{
    let nothing = Seq::<u8>::empty();
    if parts.len() == 0 {
        lemma_nothing_has_no_components();
        assert(parts =~= Seq::<Seq<u8>>::empty());
    } else {
        let front = parts.drop_last();
        let last = parts.last();
        assert(are_well_formed(front)) by {
            assert forall|k: int| 0 <= k < front.len() implies is_name(#[trigger] front[k]) || (k
                == 0 && (front[k] == root_dir() || front[k] == cur_dir())) by {
                assert(front[k] == parts[k]);
            }
        }
        lemma_components_of_joined(front);
        assert(parts[parts.len() - 1] == last);
        assert(front.push(last) =~= parts);
        if is_name(last) {
            lemma_components_of_pushed(joined(front), last);
        } else {
            assert(parts.len() == 1);
            assert(front =~= Seq::<Seq<u8>>::empty());
            assert(joined(front) == nothing);
            let one = segments_of(last);
            if last == root_dir() {
                assert(last.drop_last() =~= nothing);
                assert(one =~= seq![nothing, nothing]);
            } else {
                assert(last.drop_last() =~= nothing);
                assert(segments_of(nothing).drop_last().push(segments_of(nothing).last().push(DOT))
                    =~= seq![cur_dir()]);
                assert(one =~= seq![cur_dir()]);
            }
            assert(named(one) =~= Seq::<Seq<u8>>::empty()) by {
                reveal_with_fuel(named, 3);
                if last == root_dir() {
                    assert(one.drop_last() =~= seq![nothing]);
                    assert(one.drop_last().drop_last() =~= Seq::<Seq<u8>>::empty());
                } else {
                    assert(one.drop_last() =~= Seq::<Seq<u8>>::empty());
                }
            }
            assert(pushed(nothing, last) =~= last);
            assert(components_of(last) =~= parts);
        }
    }
}

/// Spelling the components of a path out gives a path with the same
/// components: the same location, written without empty segments and
/// without `.` in the middle.
pub proof fn lemma_joined_components_name_the_same(path: Seq<u8>)
    ensures
        components_of(joined(components_of(path))) == components_of(path),
{
    lemma_components_are_well_formed(path, 0);
    lemma_components_of_joined(components_of(path));
}

/// Lying at or below is an order on locations: every path lies at or below
/// itself, what lies below something that lies below a third lies below the
/// third, and two paths that lie below each other are the same location.
pub proof fn lemma_is_under_orders_locations(a: Seq<u8>, b: Seq<u8>, c: Seq<u8>)
    ensures
        is_under(a, a),
        is_under(a, b) && is_under(b, c) ==> is_under(a, c),
        is_under(a, b) && is_under(b, a) ==> components_of(a) == components_of(b),
{
    let (x, y, z) = (components_of(a), components_of(b), components_of(c));
    assert(x.subrange(0, x.len() as int) =~= x);
    if is_under(a, b) && is_under(b, c) {
        assert(z =~= x.subrange(0, z.len() as int)) by {
            assert forall|k: int| 0 <= k < z.len() implies z[k] == x[k] by {
                assert(z[k] == y.subrange(0, z.len() as int)[k]);
                assert(y[k] == x.subrange(0, y.len() as int)[k]);
            }
        }
    }
    if is_under(a, b) && is_under(b, a) {
        assert(y.subrange(0, x.len() as int) =~= y);
    }
}

} // verus!
