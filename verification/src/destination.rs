//! The name of the destination that an upload is stored under.
//!
//! It is the last non-empty segment of the request path, taken as it is:
//! nothing is unescaped, and no name is refused for where it may lead.

use vstd::prelude::*;
use vstd::string::*;

verus! {

/// `path` without the slashes that end it.
pub open spec fn trim_slashes(path: Seq<char>) -> Seq<char>
    decreases path.len(),
{
    if path.len() > 0 && path.last() == '/' {
        trim_slashes(path.drop_last())
    } else {
        path
    }
}

/// The longest suffix of `path` that holds no slash.
pub open spec fn last_segment(path: Seq<char>) -> Seq<char>
    decreases path.len(),
{
    if path.len() > 0 && path.last() != '/' {
        last_segment(path.drop_last()).push(path.last())
    } else {
        Seq::empty()
    }
}

/// The destination name of `path`: its last non-empty segment, or `None`
/// where every segment is empty.
pub open spec fn destination_of(path: Seq<char>) -> Option<Seq<char>> {
    let name = last_segment(trim_slashes(path));
    if name.len() > 0 {
        Some(name)
    } else {
        None
    }
}

/// Whether `name` stands in `path` from `start` on as its last non-empty
/// segment: it holds no slash, a slash or nothing stands before it, and
/// nothing but slashes behind it.
pub open spec fn is_last_segment_at(path: Seq<char>, name: Seq<char>, start: int) -> bool {
    &&& name.len() > 0
    &&& 0 <= start
    &&& start + name.len() <= path.len()
    &&& path.subrange(start, start + name.len()) == name
    &&& forall|i: int| 0 <= i < name.len() ==> name[i] != '/'
    &&& start == 0 || path[start - 1] == '/'
    &&& forall|i: int| start + name.len() <= i < path.len() ==> path[i] == '/'
}

/// The trimmed path is the path up to its last character that is no slash.
proof fn lemma_trimmed(path: Seq<char>)
    ensures
        trim_slashes(path).len() <= path.len(),
        trim_slashes(path) == path.take(trim_slashes(path).len() as int),
        trim_slashes(path).len() > 0 ==> trim_slashes(path).last() != '/',
        forall|i: int| trim_slashes(path).len() <= i < path.len() ==> path[i] == '/',
    decreases path.len(),
{
    if path.len() > 0 && path.last() == '/' {
        lemma_trimmed(path.drop_last());
        let kept = trim_slashes(path).len() as int;
        assert(path.drop_last().take(kept) =~= path.take(kept));
        assert forall|i: int| kept <= i < path.len() implies path[i] == '/' by {
            if i < path.len() - 1 {
                assert(path[i] == path.drop_last()[i]);
            }
        }
    } else {
        assert(path.take(path.len() as int) =~= path);
    }
}

/// The last segment is the part of the path behind its last slash.
proof fn lemma_segment(path: Seq<char>)
    ensures
        last_segment(path).len() <= path.len(),
        last_segment(path) == path.skip(path.len() - last_segment(path).len()),
        forall|i: int| 0 <= i < last_segment(path).len() ==> last_segment(path)[i] != '/',
        last_segment(path).len() == path.len() || path[path.len() - last_segment(path).len() - 1]
            == '/',
    decreases path.len(),
{
    if path.len() > 0 && path.last() != '/' {
        let shorter = path.drop_last();
        lemma_segment(shorter);
        let from = shorter.len() - last_segment(shorter).len();
        assert(shorter.skip(from).push(path.last()) =~= path.skip(from));
    } else {
        assert(path.skip(path.len() as int) =~= Seq::<char>::empty());
    }
}

/// A path that ends in slashes from `end` on, and in no slash before that,
/// is trimmed to its first `end` characters.
proof fn lemma_trims_to(path: Seq<char>, end: int)
    requires
        0 < end <= path.len(),
        path[end - 1] != '/',
        forall|i: int| end <= i < path.len() ==> path[i] == '/',
    ensures
        trim_slashes(path) == path.take(end),
    decreases path.len(),
{
    if end < path.len() {
        lemma_trims_to(path.drop_last(), end);
        assert(path.drop_last().take(end) =~= path.take(end));
    } else {
        assert(path.take(end) =~= path);
    }
}

/// A path that holds no slash from `start` on, and a slash or nothing
/// before that, has the part from `start` on as its last segment.
proof fn lemma_segment_from(path: Seq<char>, start: int)
    requires
        0 <= start <= path.len(),
        forall|i: int| start <= i < path.len() ==> path[i] != '/',
        start == 0 || path[start - 1] == '/',
    ensures
        last_segment(path) == path.skip(start),
    decreases path.len(),
{
    if start < path.len() {
        lemma_segment_from(path.drop_last(), start);
        assert(path.drop_last().skip(start).push(path.last()) =~= path.skip(start));
    } else {
        assert(path.skip(start) =~= Seq::<char>::empty());
    }
}

/// A destination name is the last non-empty segment of the path, standing
/// in it from the place that the proof hands back, and a path has none only
/// where it holds nothing but slashes.
pub proof fn destination_is_the_last_segment(path: Seq<char>) -> (start: int)
    ensures
        destination_of(path) matches Some(name) ==> is_last_segment_at(path, name, start),
        destination_of(path) is None ==> forall|i: int| 0 <= i < path.len() ==> path[i] == '/',
{
    let trimmed = trim_slashes(path);
    let name = last_segment(trimmed);
    lemma_trimmed(path);
    lemma_segment(trimmed);
    let start = trimmed.len() - name.len();
    if name.len() > 0 {
        assert(path.subrange(start, start + name.len()) =~= name);
        assert(start > 0 ==> path[start - 1] == trimmed[start - 1]);
    } else if trimmed.len() > 0 {
        assert(name == last_segment(trimmed.drop_last()).push(trimmed.last()));
    }
    start
}

/// The last non-empty segment of a path, wherever it stands, is its
/// destination name.
pub proof fn last_segment_is_the_destination(path: Seq<char>, name: Seq<char>, start: int)
    requires
        is_last_segment_at(path, name, start),
    ensures
        destination_of(path) == Some(name),
{
    let end = start + name.len();
    assert(path[end - 1] == name[name.len() - 1]);
    lemma_trims_to(path, end);
    let trimmed = path.take(end);
    assert forall|i: int| start <= i < trimmed.len() implies trimmed[i] != '/' by {
        assert(trimmed[i] == name[i - start]);
    }
    lemma_segment_from(trimmed, start);
    assert(trimmed.skip(start) =~= name);
}

/// One more character read: how the trimmed path and its last segment go
/// from the first `i` characters of `path` to the first `i + 1`.
proof fn lemma_extend(path: Seq<char>, i: int, start: int, end: int)
    requires
        0 <= start <= end <= i < path.len(),
        trim_slashes(path.take(i)) == path.take(end),
        last_segment(path.take(end)) == path.subrange(start, end),
    ensures
        path[i] == '/' ==> trim_slashes(path.take(i + 1)) == path.take(end),
        path[i] != '/' ==> trim_slashes(path.take(i + 1)) == path.take(i + 1),
        path[i] != '/' && end == i ==> last_segment(path.take(i + 1)) == path.subrange(
            start,
            i + 1,
        ),
        path[i] != '/' && end < i ==> last_segment(path.take(i + 1)) == path.subrange(i, i + 1),
{
    let before = path.take(i);
    let after = path.take(i + 1);
    assert(after.drop_last() =~= before);
    assert(after.last() == path[i]);
    if path[i] != '/' {
        if end == i {
            assert(path.subrange(start, end).push(path[i]) =~= path.subrange(start, i + 1));
        } else {
            assert(before.len() > end);
            assert(trim_slashes(before).len() != before.len());
            assert(last_segment(before) =~= Seq::<char>::empty());
            assert(Seq::<char>::empty().push(path[i]) =~= path.subrange(i, i + 1));
        }
    }
}

/// The destination name of a request path.
pub fn destination_name(path: &str) -> (name: Option<String>)
    ensures
        match destination_of(path@) {
            Some(expected) => name matches Some(found) && found@ == expected,
            None => name is None,
        },
{
    let mut start: usize = 0;
    let mut end: usize = 0;
    let mut i: usize = 0;
    let len: usize = path.unicode_len();
    let chars = path.chars();
    proof {
        broadcast use group_string_axioms;
        assert(path@.take(0) =~= Seq::<char>::empty());
        assert(path@.subrange(0, 0) =~= Seq::<char>::empty());
    }
    for c in it: chars
        invariant
            it.seq() == path@,
            i == it.index(),
            len == path@.len(),
            start <= end <= i <= len,
            end > 0 ==> start < end,
            trim_slashes(path@.take(i as int)) == path@.take(end as int),
            last_segment(path@.take(end as int)) == path@.subrange(start as int, end as int),
    {
        proof {
            lemma_extend(path@, i as int, start as int, end as int);
        }
        if c != '/' {
            if end < i {
                start = i;
            }
            end = i + 1;
        }
        i = i + 1;
    }
    proof {
        assert(path@.take(i as int) =~= path@);
    }
    if end == 0 {
        None
    } else {
        Some(String::from_str(path.substring_char(start, end)))
    }
}

} // verus!
