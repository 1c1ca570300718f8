//! Choosing which rendition of a photo to download.

use vstd::prelude::*;
use crate::album::Variant;
use crate::number::{parse_u32, parse_u32_spec};
use crate::text_map::TextMap;

verus! {

/// The size that a label stands for: the number it spells, or zero where it
/// spells none.
pub open spec fn label_size(label: Seq<char>) -> nat {
    match parse_u32_spec(label) {
        Some(n) => n as nat,
        None => 0,
    }
}

/// The size that the label of entry `i` stands for.
pub open spec fn size_at<T>(entries: Seq<(Seq<char>, T)>, i: int) -> nat {
    label_size(entries[i].0)
}

/// Whether entry `i` is the one to choose: no entry is larger, and every
/// entry before it is smaller.
pub open spec fn is_best<T>(entries: Seq<(Seq<char>, T)>, i: int) -> bool {
    &&& 0 <= i < entries.len()
    &&& forall|j: int| 0 <= j < entries.len() ==> #[trigger] size_at(entries, j) <= size_at(entries, i)
    &&& forall|j: int| 0 <= j < i ==> #[trigger] size_at(entries, j) < size_at(entries, i)
}

/// The position of the entry to choose, meaningful where there is an entry.
pub open spec fn best_index<T>(entries: Seq<(Seq<char>, T)>) -> int {
    choose|i: int| is_best(entries, i)
}

/// The rendition to download: the first of those with the largest size, or
/// none where there is no rendition at all.
pub open spec fn selected<T>(entries: Seq<(Seq<char>, T)>) -> Option<T> {
    if entries.len() == 0 {
        None
    } else {
        Some(entries[best_index(entries)].1)
    }
}

/// At most one entry is the one to choose.
pub proof fn lemma_best_unique<T>(entries: Seq<(Seq<char>, T)>, i: int)
    requires
        is_best(entries, i),
    ensures
        best_index(entries) == i,
        selected(entries) == Some(entries[i].1),
{
    let b = best_index(entries);
    assert(is_best(entries, b));
    if b < i {
        assert(size_at(entries, b) < size_at(entries, i));
        assert(size_at(entries, i) <= size_at(entries, b));
    } else if i < b {
        assert(size_at(entries, i) < size_at(entries, b));
        assert(size_at(entries, b) <= size_at(entries, i));
    }
}

/// Among the first `n` entries there is one to choose.
proof fn lemma_best_of_prefix<T>(entries: Seq<(Seq<char>, T)>, n: int) -> (i: int)
    requires
        0 < n <= entries.len(),
    ensures
        is_best(entries.take(n), i),
    decreases n,
{
    let prefix = entries.take(n);
    if n == 1 {
        assert(size_at(prefix, 0) == size_at(prefix, 0));
        0
    } else {
        let shorter = entries.take(n - 1);
        let b = lemma_best_of_prefix(entries, n - 1);
        assert forall|j: int| 0 <= j < n - 1 implies size_at(shorter, j) == size_at(prefix, j) by {
            assert(shorter[j] == prefix[j]);
        }
        let winner = if size_at(prefix, n - 1) > size_at(prefix, b) {
            n - 1
        } else {
            b
        };
        assert forall|j: int| 0 <= j < n implies #[trigger] size_at(prefix, j) <= size_at(
            prefix,
            winner,
        ) by {
            if j < n - 1 {
                assert(size_at(shorter, j) <= size_at(shorter, b));
            }
        }
        assert forall|j: int| 0 <= j < winner implies #[trigger] size_at(prefix, j) < size_at(
            prefix,
            winner,
        ) by {
            if winner == b {
                assert(size_at(shorter, j) < size_at(shorter, b));
            } else {
                assert(size_at(shorter, j) <= size_at(shorter, b));
            }
        }
        winner
    }
}

/// Where there is a rendition, there is one to choose: it is at least as
/// large as every other, and larger than every one before it.
pub proof fn lemma_best_exists<T>(entries: Seq<(Seq<char>, T)>)
    requires
        entries.len() > 0,
    ensures
        is_best(entries, best_index(entries)),
        selected(entries) == Some(entries[best_index(entries)].1),
{
    let i = lemma_best_of_prefix(entries, entries.len() as int);
    assert(entries.take(entries.len() as int) == entries);
}

/// The size that `label` stands for.
pub fn size_of_label(label: &str) -> (r: u32)
    ensures
        r == label_size(label@),
{
    match parse_u32(label) {
        Some(n) => n,
        None => 0,
    }
}

/// Picks the rendition with the numerically largest size label. A label that
/// spells no number counts as size zero. Among equally large renditions the
/// one stored first wins.
pub fn select_variant(derivatives: &TextMap<Variant>) -> (r: Option<&Variant>)
    ensures
        match r {
            Some(v) => selected(derivatives@) == Some(v@),
            None => selected(derivatives@) is None,
        },
{
    let n: usize = derivatives.len();
    if n == 0 {
        return None;
    }
    let mut best: usize = 0;
    let mut best_size: u32 = size_of_label(derivatives.key_at(0).as_str());
    let mut i: usize = 1;
    while i < n
        invariant
            n == derivatives@.len(),
            1 <= i <= n,
            best < i,
            best_size == size_at(derivatives@, best as int),
            forall|j: int| 0 <= j < i ==> #[trigger] size_at(derivatives@, j) <= best_size,
            forall|j: int| 0 <= j < best ==> #[trigger] size_at(derivatives@, j) < best_size,
        decreases n - i,
    {
        let size: u32 = size_of_label(derivatives.key_at(i).as_str());
        if size > best_size {
            best = i;
            best_size = size;
        }
        i += 1;
    }
    proof {
        lemma_best_unique(derivatives@, best as int);
    }
    Some(derivatives.value_at(best))
}

} // verus!
