//! Paths as byte strings, read the way a Unix filesystem reads them.
//!
//! A path is a sequence of bytes.  Separators cut it into segments, and the
//! segments that name something are its components: a leading separator is
//! the root component, `.` counts only at the very start of a relative path,
//! `..` always counts, and empty segments never do.  Two paths are the same
//! location when they have the same components.

use vstd::prelude::*;

verus! {

/// The byte that separates the segments of a path.
pub const SEPARATOR: u8 = 0x2f;

/// The byte of which the segments `.` and `..` are made.
pub const DOT: u8 = 0x2e;

/// The root component, `/`.
pub open spec fn root_dir() -> Seq<u8> {
    seq![SEPARATOR]
}

/// The current-directory component, `.`.
pub open spec fn cur_dir() -> Seq<u8> {
    seq![DOT]
}

/// The parent-directory component, `..`.
pub open spec fn parent_dir() -> Seq<u8> {
    seq![DOT, DOT]
}

/// The byte strings that a sequence of vectors holds.
pub open spec fn views(parts: Seq<Vec<u8>>) -> Seq<Seq<u8>> {
    Seq::new(parts.len(), |i: int| parts[i]@)
}

/// The segments of `path`: the runs of bytes between its separators, empty
/// ones included.  A path with `n` separators has `n + 1` segments.
pub open spec fn segments_of(path: Seq<u8>) -> Seq<Seq<u8>>
    decreases path.len(),
{
    if path.len() == 0 {
        seq![Seq::empty()]
    } else {
        let before = segments_of(path.drop_last());
        if path.last() == SEPARATOR {
            before.push(Seq::empty())
        } else {
            before.drop_last().push(before.last().push(path.last()))
        }
    }
}

/// Whether a segment is a component wherever it stands: it is neither empty
/// nor `.`.
pub open spec fn names_something(segment: Seq<u8>) -> bool {
    segment.len() > 0 && segment != cur_dir()
}

/// Those of `segments` that name something, in order.
pub open spec fn named(segments: Seq<Seq<u8>>) -> Seq<Seq<u8>>
    decreases segments.len(),
{
    if segments.len() == 0 {
        Seq::empty()
    } else if names_something(segments.last()) {
        named(segments.drop_last()).push(segments.last())
    } else {
        named(segments.drop_last())
    }
}

/// Whether `path` starts at the root.
pub open spec fn has_root(path: Seq<u8>) -> bool {
    path.len() > 0 && path[0] == SEPARATOR
}

/// Whether `path` is `.` or begins with `./`.
pub open spec fn starts_in_cur_dir(path: Seq<u8>) -> bool {
    path.len() > 0 && path[0] == DOT && (path.len() == 1 || path[1] == SEPARATOR)
}

/// The component that `path` opens with before any named segment: the root
/// for an absolute path, `.` for a relative path that spells it out.
pub open spec fn head_of(path: Seq<u8>) -> Seq<Seq<u8>> {
    if has_root(path) {
        seq![root_dir()]
    } else if starts_in_cur_dir(path) {
        seq![cur_dir()]
    } else {
        Seq::empty()
    }
}

/// The components of `path`.
pub open spec fn components_of(path: Seq<u8>) -> Seq<Seq<u8>> {
    head_of(path) + named(segments_of(path))
}

/// Whether a component is a plain name: not the root, `.` or `..`.
pub open spec fn is_plain(component: Seq<u8>) -> bool {
    component != root_dir() && component != cur_dir() && component != parent_dir()
}

/// Whether `path` lies at or below `base`: the components of `base` open
/// those of `path`.
pub open spec fn is_under(path: Seq<u8>, base: Seq<u8>) -> bool {
    components_of(base).is_prefix_of(components_of(path))
}

/// `base` with `part` appended as further segments.  A `part` that starts at
/// the root replaces `base`; otherwise one separator is put between the two
/// unless `base` is empty or already ends in one.
pub open spec fn pushed(base: Seq<u8>, part: Seq<u8>) -> Seq<u8> {
    if has_root(part) {
        part
    } else if base.len() > 0 && base.last() != SEPARATOR {
        base.push(SEPARATOR) + part
    } else {
        base + part
    }
}

/// `base` with each of `parts` appended in turn.
pub open spec fn pushed_all(base: Seq<u8>, parts: Seq<Seq<u8>>) -> Seq<u8>
    decreases parts.len(),
{
    if parts.len() == 0 {
        base
    } else {
        pushed(pushed_all(base, parts.drop_last()), parts.last())
    }
}

/// The path spelled by `components`: each pushed in turn, from nothing.
pub open spec fn joined(components: Seq<Seq<u8>>) -> Seq<u8> {
    pushed_all(Seq::empty(), components)
}

/// The last component of `path` where it is a plain name.
pub open spec fn file_name_of(path: Seq<u8>) -> Option<Seq<u8>> {
    let components = components_of(path);
    if components.len() > 0 && is_plain(components.last()) {
        Some(components.last())
    } else {
        None
    }
}

/// Whether `bytes` hold no separator.
pub open spec fn is_separator_free(bytes: Seq<u8>) -> bool {
    forall|i: int| 0 <= i < bytes.len() ==> #[trigger] bytes[i] != SEPARATOR
}

/// Whether `part` is a name: a segment that is a component wherever it
/// stands.  `..` is one.
pub open spec fn is_name(part: Seq<u8>) -> bool {
    is_separator_free(part) && names_something(part)
}

/// `segments` put together again, with one separator between neighbours.
pub open spec fn rejoined(segments: Seq<Seq<u8>>) -> Seq<u8>
    decreases segments.len(),
{
    if segments.len() == 0 {
        Seq::empty()
    } else if segments.len() == 1 {
        segments[0]
    } else {
        rejoined(segments.drop_last()).push(SEPARATOR) + segments.last()
    }
}

/// Whether `parts` are well formed as the components of a path: the first is
/// a name, the root or `.`, and every other is a name.
pub open spec fn are_well_formed(parts: Seq<Seq<u8>>) -> bool {
    forall|k: int|
        0 <= k < parts.len() ==> is_name(#[trigger] parts[k]) || (k == 0 && (parts[k] == root_dir()
            || parts[k] == cur_dir()))
}

/// Whether two byte strings are equal.
pub fn same_bytes(a: &[u8], b: &[u8]) -> (same: bool)
    ensures
        same == (a@ == b@),
{
    if a.len() != b.len() {
        return false;
    }
    let mut i: usize = 0;
    while i < a.len()
        invariant
            i <= a.len(),
            a.len() == b.len(),
            a@.take(i as int) == b@.take(i as int),
        decreases a.len() - i,
    {
        if a[i] != b[i] {
            return false;
        }
        proof {
            assert(a@.take(i + 1) =~= a@.take(i as int).push(a@[i as int]));
            assert(b@.take(i + 1) =~= b@.take(i as int).push(b@[i as int]));
        }
        i += 1;
    }
    proof {
        assert(a@.take(a.len() as int) =~= a@);
        assert(b@.take(b.len() as int) =~= b@);
    }
    true
}

/// Whether `segment` is `.`.
fn is_cur_dir(segment: &[u8]) -> (cur: bool)
    ensures
        cur == (segment@ == cur_dir()),
{
    let cur = segment.len() == 1 && segment[0] == DOT;
    proof {
        if cur {
            assert(segment@ =~= cur_dir());
        }
    }
    cur
}

/// Whether `component` is a plain name.
pub fn is_plain_name(component: &[u8]) -> (plain: bool)
    ensures
        plain == is_plain(component@),
{
    let root = component.len() == 1 && component[0] == SEPARATOR;
    let cur = component.len() == 1 && component[0] == DOT;
    let parent = component.len() == 2 && component[0] == DOT && component[1] == DOT;
    proof {
        if root {
            assert(component@ =~= root_dir());
        }
        if cur {
            assert(component@ =~= cur_dir());
        }
        if parent {
            assert(component@ =~= parent_dir());
        }
    }
    !root && !cur && !parent
}

/// Adds `segment` to `parts` where it names something.
fn keep_named(parts: &mut Vec<Vec<u8>>, segment: Vec<u8>)
    ensures
        views(final(parts)@) == if names_something(segment@) {
            views(old(parts)@).push(segment@)
        } else {
            views(old(parts)@)
        },
{
    let cur = is_cur_dir(segment.as_slice());
    if segment.len() > 0 && !cur {
        parts.push(segment);
        assert(views(parts@) =~= views(old(parts)@).push(segment@));
    }
}

/// The components of `path`, in order.
pub fn components(path: &[u8]) -> (parts: Vec<Vec<u8>>)
    ensures
        views(parts@) == components_of(path@),
{
    let mut parts: Vec<Vec<u8>> = Vec::new();
    if path.len() > 0 && path[0] == SEPARATOR {
        let mut root: Vec<u8> = Vec::new();
        root.push(SEPARATOR);
        assert(root@ =~= root_dir());
        parts.push(root);
    } else if path.len() > 0 && path[0] == DOT && (path.len() == 1 || path[1] == SEPARATOR) {
        let mut cur: Vec<u8> = Vec::new();
        cur.push(DOT);
        assert(cur@ =~= cur_dir());
        parts.push(cur);
    }
    assert(views(parts@) =~= head_of(path@));
    let ghost done: Seq<Seq<u8>> = Seq::empty();
    let mut current: Vec<u8> = Vec::new();
    let mut i: usize = 0;
    assert(path@.take(0) =~= Seq::empty());
    assert(done.push(current@) =~= seq![Seq::<u8>::empty()]);
    while i < path.len()
        invariant
            i <= path.len(),
            segments_of(path@.take(i as int)) == done.push(current@),
            views(parts@) == head_of(path@) + named(done),
        decreases path.len() - i,
    {
        let byte = path[i];
        proof {
            let prefix = path@.take(i + 1);
            assert(prefix.drop_last() =~= path@.take(i as int));
            assert(prefix.last() == byte);
            assert(done.push(current@).drop_last() =~= done);
        }
        if byte == SEPARATOR {
            let ghost before = views(parts@);
            keep_named(&mut parts, current);
            proof {
                assert(head_of(path@) + named(done).push(current@) =~= before.push(current@));
                done = done.push(current@);
            }
            current = Vec::new();
        } else {
            current.push(byte);
        }
        i += 1;
    }
    proof {
        assert(path@.take(path.len() as int) =~= path@);
        assert(done.push(current@).drop_last() =~= done);
        assert(head_of(path@) + named(done).push(current@) =~= views(parts@).push(current@));
    }
    keep_named(&mut parts, current);
    parts
}

/// Appends the bytes of `tail` to `path`.
pub fn append(path: &mut Vec<u8>, tail: &[u8])
    ensures
        final(path)@ == old(path)@ + tail@,
{
    let mut i: usize = 0;
    while i < tail.len()
        invariant
            i <= tail.len(),
            path@ == old(path)@ + tail@.take(i as int),
        decreases tail.len() - i,
    {
        path.push(tail[i]);
        proof {
            assert(tail@.take(i + 1) =~= tail@.take(i as int).push(tail@[i as int]));
            assert(path@ =~= old(path)@ + tail@.take(i + 1));
        }
        i += 1;
    }
    proof {
        assert(tail@.take(tail.len() as int) =~= tail@);
    }
}

/// Appends `part` to `base` as further segments, as [`pushed`] says.
pub fn push(base: &mut Vec<u8>, part: &[u8])
    ensures
        final(base)@ == pushed(old(base)@, part@),
{
    if part.len() > 0 && part[0] == SEPARATOR {
        base.clear();
        append(base, part);
        assert(base@ =~= part@);
    } else {
        let len = base.len();
        if len > 0 && base[len - 1] != SEPARATOR {
            base.push(SEPARATOR);
        }
        append(base, part);
    }
}

/// Whether the byte strings of `prefix` open those of `whole`.
fn opens(prefix: &Vec<Vec<u8>>, whole: &Vec<Vec<u8>>) -> (open: bool)
    ensures
        open == views(prefix@).is_prefix_of(views(whole@)),
{
    if prefix.len() > whole.len() {
        return false;
    }
    let mut i: usize = 0;
    while i < prefix.len()
        invariant
            i <= prefix.len() <= whole.len(),
            forall|k: int| 0 <= k < i ==> prefix@[k]@ == whole@[k]@,
        decreases prefix.len() - i,
    {
        if !same_bytes(prefix[i].as_slice(), whole[i].as_slice()) {
            proof {
                let cut = views(whole@).subrange(0, prefix.len() as int);
                assert(cut[i as int] == whole@[i as int]@);
                assert(views(prefix@)[i as int] == prefix@[i as int]@);
            }
            return false;
        }
        i += 1;
    }
    proof {
        assert(views(prefix@) =~= views(whole@).subrange(0, prefix.len() as int));
    }
    true
}

/// Whether two lists of components hold the same byte strings.
pub fn same_parts(a: &Vec<Vec<u8>>, b: &Vec<Vec<u8>>) -> (same: bool)
    ensures
        same == (views(a@) == views(b@)),
{
    let same = a.len() == b.len() && opens(a, b);
    proof {
        let (l, r) = (views(a@), views(b@));
        if l.len() == r.len() {
            assert(r.subrange(0, l.len() as int) =~= r);
        }
    }
    same
}

/// The path that `parts` spell.
pub fn join(parts: &Vec<Vec<u8>>) -> (path: Vec<u8>)
    ensures
        path@ == joined(views(parts@)),
{
    let mut path: Vec<u8> = Vec::new();
    let mut i: usize = 0;
    proof {
        assert(views(parts@).take(0) =~= Seq::empty());
    }
    while i < parts.len()
        invariant
            i <= parts.len(),
            path@ == joined(views(parts@).take(i as int)),
        decreases parts.len() - i,
    {
        push(&mut path, parts[i].as_slice());
        proof {
            let next = views(parts@).take(i + 1);
            assert(next.drop_last() =~= views(parts@).take(i as int));
            assert(next.last() == parts@[i as int]@);
        }
        i += 1;
    }
    proof {
        assert(views(parts@).take(parts.len() as int) =~= views(parts@));
    }
    path
}

/// Whether `path` lies at or below `base`, component by component.
pub fn starts_with(path: &[u8], base: &[u8]) -> (under: bool)
    ensures
        under == is_under(path@, base@),
{
    let whole = components(path);
    let prefix = components(base);
    opens(&prefix, &whole)
}

} // verus!
