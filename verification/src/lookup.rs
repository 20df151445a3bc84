//! Shared facts about first occurrences in key sequences, used by every
//! "find by id" lookup in the library.

use vstd::prelude::*;

verus! {

/// A key found at `i` with no equal key before it is the first
/// occurrence.
pub proof fn lemma_first_occurrence_at<A>(keys: Seq<A>, key: A, i: int)
    requires
        0 <= i < keys.len(),
        keys[i] == key,
        forall|j: int| 0 <= j < i ==> keys[j] != key,
    ensures
        keys.index_of_first(key) == Some(i),
{
    keys.index_of_first_ensures(key);
    assert(keys.contains(key));
    let k = keys.index_of_first(key)->0;
    if k > i {
        assert(forall|j: int| 0 <= j < k ==> keys[j] != key);
        assert(keys[i] == key);
    }
}

/// When no key equals the needle there is no first occurrence.
pub proof fn lemma_no_occurrence<A>(keys: Seq<A>, key: A)
    requires
        forall|j: int| 0 <= j < keys.len() ==> keys[j] != key,
    ensures
        keys.index_of_first(key) is None,
{
    keys.index_of_first_ensures(key);
    if keys.contains(key) {
        let j = choose|j: int| 0 <= j < keys.len() && keys[j] == key;
        assert(false);
    }
}

} // verus!
