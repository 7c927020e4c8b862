//! Facts about sequences without repeated items that the tree index relies on.

use vstd::prelude::*;

verus! {

/// Inserting an item adds exactly that item to what a sequence contains.
pub proof fn lemma_insert_contains<A>(s: Seq<A>, pos: int, a: A, x: A)
    requires
        0 <= pos <= s.len(),
    ensures
        s.insert(pos, a).contains(x) <==> (s.contains(x) || x == a),
{
    let t = s.insert(pos, a);
    s.insert_ensures(pos, a);
    if s.contains(x) {
        let i = choose|i: int| 0 <= i < s.len() && s[i] == x;
        if i < pos {
            assert(t[i] == x);
        } else {
            assert(t[i + 1] == x);
        }
    }
    if x == a {
        assert(t[pos] == x);
    }
    if t.contains(x) {
        let j = choose|j: int| 0 <= j < t.len() && t[j] == x;
        if j < pos {
            assert(s[j] == x);
        } else if j > pos {
            assert(s[j - 1] == t[j - 1 + 1]);
            assert(s[j - 1] == x);
        }
    }
}

/// Inserting an item that is not yet there keeps a sequence free of repeats.
pub proof fn lemma_insert_no_duplicates<A>(s: Seq<A>, pos: int, a: A)
    requires
        0 <= pos <= s.len(),
        s.no_duplicates(),
        !s.contains(a),
    ensures
        s.insert(pos, a).no_duplicates(),
{
    let t = s.insert(pos, a);
    s.insert_ensures(pos, a);
    assert forall|i: int, j: int| 0 <= i < t.len() && 0 <= j < t.len() && i != j implies t[i]
        != t[j] by {
        let si = if i < pos { i } else { i - 1 };
        let sj = if j < pos { j } else { j - 1 };
        if i != pos {
            assert(t[i] == s[si]) by {
                if i > pos {
                    assert(s[i - 1] == t[i - 1 + 1]);
                }
            }
        }
        if j != pos {
            assert(t[j] == s[sj]) by {
                if j > pos {
                    assert(s[j - 1] == t[j - 1 + 1]);
                }
            }
        }
    }
}

/// In a sequence without repeats, removing the item at `pos` removes exactly
/// that item from what the sequence contains.
pub proof fn lemma_remove_contains<A>(s: Seq<A>, pos: int, x: A)
    requires
        0 <= pos < s.len(),
        s.no_duplicates(),
    ensures
        s.remove(pos).contains(x) <==> (s.contains(x) && x != s[pos]),
{
    let t = s.remove(pos);
    s.remove_ensures(pos);
    if s.contains(x) && x != s[pos] {
        let i = choose|i: int| 0 <= i < s.len() && s[i] == x;
        if i < pos {
            assert(t[i] == x);
        } else {
            assert(t[i - 1] == s[i - 1 + 1]);
            assert(t[i - 1] == x);
        }
    }
    if t.contains(x) {
        let j = choose|j: int| 0 <= j < t.len() && t[j] == x;
        if j < pos {
            assert(s[j] == x);
        } else {
            assert(s[j + 1] == x);
        }
    }
}

/// Removing an item keeps a sequence free of repeats.
pub proof fn lemma_remove_no_duplicates<A>(s: Seq<A>, pos: int)
    requires
        0 <= pos < s.len(),
        s.no_duplicates(),
    ensures
        s.remove(pos).no_duplicates(),
{
    let t = s.remove(pos);
    s.remove_ensures(pos);
    assert forall|i: int, j: int| 0 <= i < t.len() && 0 <= j < t.len() && i != j implies t[i]
        != t[j] by {
        let si = if i < pos { i } else { i + 1 };
        let sj = if j < pos { j } else { j + 1 };
        assert(t[i] == s[si]);
        assert(t[j] == s[sj]);
    }
}

/// In a sequence without repeats an item has one index only.
pub proof fn lemma_index_of_unique<A>(s: Seq<A>, i: int)
    requires
        0 <= i < s.len(),
        s.no_duplicates(),
    ensures
        s.index_of(s[i]) == i,
        s.contains(s[i]),
{
    let k = s.index_of(s[i]);
    assert(0 <= k < s.len() && s[k] == s[i]);
}

} // verus!
