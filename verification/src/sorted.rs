//! Ordering machinery shared by hands, gem pools, and creature rows:
//! what it means for a sequence to be sorted under a key, where a
//! stable sorted insertion puts a new item, and the law that such an
//! insertion keeps the sequence sorted.

use vstd::prelude::*;

verus! {

/// The sequence is non-decreasing under `key`.
pub open spec fn sorted_by_key<T>(s: Seq<T>, key: spec_fn(T) -> int) -> bool {
    forall|i: int, j: int| 0 <= i <= j < s.len() ==> key(s[i]) <= key(s[j])
}

/// `new` is `prev` with `item` inserted at position `i`, and `i` is the
/// first position whose existing key is not below the new key: every
/// earlier element has a strictly smaller key, and the element the
/// insertion displaced, if any, has a key at least as large. Equal keys
/// therefore end up behind the new item.
pub open spec fn inserted_at<T>(
    prev: Seq<T>,
    new: Seq<T>,
    item: T,
    key: spec_fn(T) -> int,
    i: int,
) -> bool {
    &&& 0 <= i <= prev.len()
    &&& new == prev.insert(i, item)
    &&& forall|j: int| 0 <= j < i ==> key(#[trigger] prev[j]) < key(item)
    &&& i < prev.len() ==> key(prev[i]) >= key(item)
}

/// Law of the sorted collections: a stable sorted insertion into a
/// sequence that is sorted under its key leaves it sorted under that
/// key, so any run of such insertions keeps a collection non-decreasing.
pub proof fn lemma_sorted_insert<T>(
    prev: Seq<T>,
    new: Seq<T>,
    item: T,
    key: spec_fn(T) -> int,
    i: int,
)
    requires
        sorted_by_key(prev, key),
        inserted_at(prev, new, item, key, i),
    ensures
        sorted_by_key(new, key),
{
    assert forall|p: int, q: int| 0 <= p <= q < new.len() implies key(new[p]) <= key(new[q]) by {
        if p < i && q < i {
            assert(new[p] == prev[p] && new[q] == prev[q]);
        } else if p < i && q == i {
            assert(new[p] == prev[p]);
        } else if p < i && q > i {
            assert(new[p] == prev[p] && new[q] == prev[q - 1]);
            if q - 1 >= i {
                assert(key(prev[i]) >= key(item));
                assert(key(prev[p]) < key(item));
            }
        } else if p == i && q > i {
            assert(new[q] == prev[q - 1]);
            assert(q - 1 >= i);
            assert(key(prev[i]) <= key(prev[q - 1]));
        } else if p > i && q > i {
            assert(new[p] == prev[p - 1] && new[q] == prev[q - 1]);
        }
    }
}

/// Inserting an item anywhere adds exactly that item to the sequence's
/// multiset of elements.
pub proof fn lemma_insert_multiset<T>(prev: Seq<T>, item: T, i: int)
    requires
        0 <= i <= prev.len(),
    ensures
        prev.insert(i, item).to_multiset() == prev.to_multiset().insert(item),
{
    vstd::seq_lib::to_multiset_insert(prev, i, item);
}

} // verus!
