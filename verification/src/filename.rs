//! Naming the file that a downloaded photo is saved under.

use vstd::prelude::*;
use crate::text::chars_of;

verus! {

/// Whether `path[start..end]` is a component of `path`: a run of characters
/// between separators that is not empty and cannot be made longer.
pub open spec fn is_component(path: Seq<char>, start: int, end: int) -> bool {
    &&& 0 <= start < end <= path.len()
    &&& (start == 0 || path[start - 1] == '/')
    &&& (end == path.len() || path[end] == '/')
    &&& forall|k: int| start <= k < end ==> path[k] != '/'
}

/// The component that stands for the directory itself.
pub open spec fn current_dir() -> Seq<char> {
    seq!['.']
}

/// The component that stands for the directory above.
pub open spec fn parent_dir() -> Seq<char> {
    seq!['.', '.']
}

/// Whether `path[start..end]` is a component other than `.`, which names nothing.
pub open spec fn is_named(path: Seq<char>, start: int, end: int) -> bool {
    is_component(path, start, end) && path.subrange(start, end) != current_dir()
}

/// Whether `path[start..end]` is the last component of `path` other than `.`.
pub open spec fn is_last_named(path: Seq<char>, start: int, end: int) -> bool {
    &&& is_named(path, start, end)
    &&& forall|s: int, e: int| #[trigger] is_named(path, s, e) ==> s <= start
}

/// Whether `path` has a component other than `.`.
pub open spec fn has_named(path: Seq<char>) -> bool {
    exists|s: int, e: int| is_last_named(path, s, e)
}

/// Where the last component of `path` other than `.` lies, meaningful where
/// there is one.
pub open spec fn last_named(path: Seq<char>) -> (int, int) {
    choose|s: int, e: int| is_last_named(path, s, e)
}

/// The file name that `path` ends in: its last component, where separators
/// at the end and components `.` are passed over. A path without such a
/// component, or whose last one is `..`, ends in no file name.
pub open spec fn file_name(path: Seq<char>) -> Option<Seq<char>> {
    if has_named(path) {
        let (start, end) = last_named(path);
        let name = path.subrange(start, end);
        if name == parent_dir() {
            None
        } else {
            Some(name)
        }
    } else {
        None
    }
}

/// Whether `i` is where the query of `name` starts: at its first question
/// mark, or at its end where it has none.
pub open spec fn is_query_start(name: Seq<char>, i: int) -> bool {
    &&& 0 <= i <= name.len()
    &&& i < name.len() ==> name[i] == '?'
    &&& forall|j: int| 0 <= j < i ==> name[j] != '?'
}

/// Where the query of `name` starts.
pub open spec fn query_start(name: Seq<char>) -> int {
    choose|i: int| is_query_start(name, i)
}

/// `name` up to its first question mark.
pub open spec fn without_query(name: Seq<char>) -> Seq<char> {
    name.take(query_start(name))
}

/// The name for a photo whose download path ends in no file name.
pub open spec fn fallback_name(photo_guid: Seq<char>) -> Seq<char> {
    photo_guid + seq!['.', 'j', 'p', 'g']
}

/// The name of the file that the photo `photo_guid`, downloaded from
/// `url_path`, is saved under: the file name that the path ends in, without
/// its query. Where the path ends in no file name, or nothing of it is left
/// without the query, the name is made from the photo's identifier.
pub open spec fn filename_for(url_path: Seq<char>, photo_guid: Seq<char>) -> Seq<char> {
    match file_name(url_path) {
        Some(name) => if without_query(name).len() > 0 {
            without_query(name)
        } else {
            fallback_name(photo_guid)
        },
        None => fallback_name(photo_guid),
    }
}

/// Two components that share a character are the same component.
pub proof fn lemma_components_overlap(path: Seq<char>, s1: int, e1: int, s2: int, e2: int, k: int)
    requires
        is_component(path, s1, e1),
        is_component(path, s2, e2),
        s1 <= k < e1,
        s2 <= k < e2,
    ensures
        s1 == s2,
        e1 == e2,
{
    if s1 < s2 {
        assert(path[s2 - 1] != '/');
    }
    if s2 < s1 {
        assert(path[s1 - 1] != '/');
    }
    if e1 < e2 {
        assert(path[e1] != '/');
    }
    if e2 < e1 {
        assert(path[e2] != '/');
    }
}

/// A path has at most one last component other than `.`.
pub proof fn lemma_last_named_unique(path: Seq<char>, start: int, end: int)
    requires
        is_last_named(path, start, end),
    ensures
        has_named(path),
        last_named(path) == (start, end),
{
    let (s, e) = last_named(path);
    assert(is_last_named(path, s, e));
    assert(is_named(path, s, e));
    assert(is_named(path, start, end));
    lemma_components_overlap(path, s, e, start, end, start);
}

/// The query of a name starts at one place only.
pub proof fn lemma_query_start_unique(name: Seq<char>, i: int)
    requires
        is_query_start(name, i),
    ensures
        query_start(name) == i,
{
    let q = query_start(name);
    assert(is_query_start(name, q));
    if q < i {
        assert(name[q] != '?');
    }
    if i < q {
        assert(name[i] != '?');
    }
}

/// Every name has a place where its query starts.
pub proof fn lemma_query_start_exists(name: Seq<char>)
    ensures
        is_query_start(name, query_start(name)),
        without_query(name).len() == query_start(name),
        forall|j: int| 0 <= j < without_query(name).len() ==> without_query(name)[j] != '?',
{
    let i = first_mark(name, 0);
    assert(is_query_start(name, i));
}

/// The first question mark of `name` at or after `from`, or the end of the name.
proof fn first_mark(name: Seq<char>, from: int) -> (i: int)
    requires
        0 <= from <= name.len(),
        forall|j: int| 0 <= j < from ==> name[j] != '?',
    ensures
        is_query_start(name, i),
    decreases name.len() - from,
{
    if from == name.len() || name[from] == '?' {
        from
    } else {
        first_mark(name, from + 1)
    }
}

/// A photo is never saved under an empty name.
pub proof fn lemma_filename_not_empty(url_path: Seq<char>, photo_guid: Seq<char>)
    ensures
        filename_for(url_path, photo_guid).len() > 0,
{
}

/// Finds the last component of `path` other than `.`.
fn last_named_range(path: &Vec<char>) -> (r: Option<(usize, usize)>)
    ensures
        match r {
            Some((start, end)) => is_last_named(path@, start as int, end as int),
            None => forall|s: int, e: int| !is_named(path@, s, e),
        },
{
    let n: usize = path.len();
    let mut end: usize = n;
    loop
        invariant
            n == path@.len(),
            end <= n,
            end == n || end == 0 || path@[end - 1] == '/',
            forall|s: int, e: int| #[trigger] is_named(path@, s, e) ==> e <= end,
        decreases end,
    {
        let ghost top: int = end as int;
        while end > 0 && path[end - 1] == '/'
            invariant
                n == path@.len(),
                end <= top <= n,
                end == top || path@[end as int] == '/',
                forall|s: int, e: int| #[trigger] is_named(path@, s, e) ==> e <= end,
            decreases end,
        {
            proof {
                assert forall|s: int, e: int| #[trigger] is_named(path@, s, e) implies e <= end
                    - 1 by {
                    if e == end {
                        assert(path@[e - 1] != '/');
                    }
                }
            }
            end -= 1;
        }
        if end == 0 {
            return None;
        }
        let mut start: usize = end - 1;
        while start > 0 && path[start - 1] != '/'
            invariant
                start < end <= n,
                n == path@.len(),
                forall|k: int| start <= k < end ==> path@[k] != '/',
            decreases start,
        {
            start -= 1;
        }
        assert(is_component(path@, start as int, end as int));
        if end - start == 1 && path[start] == '.' {
            proof {
                assert(path@.subrange(start as int, end as int) =~= current_dir());
                assert forall|s: int, e: int| #[trigger] is_named(path@, s, e) implies e
                    <= start by {
                    if e > start {
                        lemma_components_overlap(path@, s, e, start as int, end as int, e - 1);
                    }
                }
            }
            end = start;
        } else {
            proof {
                let name = path@.subrange(start as int, end as int);
                if name == current_dir() {
                    assert(name.len() == 1);
                    assert(name[0] == '.');
                }
                assert forall|s: int, e: int| #[trigger] is_named(path@, s, e) implies s
                    <= start by {
                    if s > start {
                        assert(path@[s - 1] != '/');
                    }
                }
            }
            return Some((start, end));
        }
    }
}

/// Derives the name of the file that a photo is saved under from the path it
/// is downloaded from.
pub fn derive_filename(url_path: &str, photo_guid: &str) -> (r: String)
    ensures
        r@ == filename_for(url_path@, photo_guid@),
{
    let path = chars_of(url_path);
    match last_named_range(&path) {
        Some((start, end)) => {
            proof {
                lemma_last_named_unique(path@, start as int, end as int);
            }
            let ghost name = path@.subrange(start as int, end as int);
            if end - start == 2 && path[start] == '.' && path[start + 1] == '.' {
                assert(name =~= parent_dir());
                fallback(photo_guid)
            } else {
                proof {
                    if name == parent_dir() {
                        assert(name.len() == 2);
                        assert(name[0] == '.');
                        assert(name[1] == '.');
                    }
                }
                let mut stop: usize = start;
                while stop < end && path[stop] != '?'
                    invariant
                        start <= stop <= end <= path@.len(),
                        forall|k: int| start <= k < stop ==> path@[k] != '?',
                    decreases end - stop,
                {
                    stop += 1;
                }
                proof {
                    assert(is_query_start(name, stop - start)) by {
                        assert forall|j: int| 0 <= j < stop - start implies name[j] != '?' by {
                            assert(name[j] == path@[start + j]);
                        }
                    }
                    lemma_query_start_unique(name, stop - start);
                    assert(path@.subrange(start as int, stop as int) =~= without_query(name));
                }
                if stop == start {
                    fallback(photo_guid)
                } else {
                    url_path.substring_char(start, stop).to_owned()
                }
            }
        },
        None => {
            proof {
                if has_named(path@) {
                    let (s, e) = last_named(path@);
                    assert(is_last_named(path@, s, e));
                    assert(is_named(path@, s, e));
                }
            }
            fallback(photo_guid)
        },
    }
}

/// The name made from a photo's identifier.
fn fallback(photo_guid: &str) -> (r: String)
    ensures
        r@ == fallback_name(photo_guid@),
{
    proof {
        reveal_strlit(".jpg");
    }
    let mut name: String = photo_guid.to_owned();
    name.append(".jpg");
    assert(name@ =~= fallback_name(photo_guid@));
    name
}

} // verus!
