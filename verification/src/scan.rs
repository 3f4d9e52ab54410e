//! Finding the first occurrence of an element in a sequence.

use vstd::prelude::*;

verus! {

/// Whether `at` is the place of the first `x` in `s`.
pub open spec fn is_first_index_of<T>(s: Seq<T>, x: T, at: int) -> bool {
    &&& 0 <= at < s.len()
    &&& s[at] == x
    &&& forall|j: int| 0 <= j < at ==> #[trigger] s[j] != x
}

/// Whether `x` occurs in `s`.
pub open spec fn occurs<T>(s: Seq<T>, x: T) -> bool {
    exists|at: int| is_first_index_of(s, x, at)
}

/// The place of the first `x` in `s`, where `x` occurs in `s`.
pub open spec fn first_index_of<T>(s: Seq<T>, x: T) -> int {
    choose|at: int| is_first_index_of(s, x, at)
}

/// A sequence has at most one first occurrence of an element.
pub proof fn lemma_first_index_found<T>(s: Seq<T>, x: T, at: int)
    requires
        is_first_index_of(s, x, at),
    ensures
        occurs(s, x),
        first_index_of(s, x) == at,
{
    let found = first_index_of(s, x);
    assert(is_first_index_of(s, x, found));
    if found < at {
        assert(s[found] != x);
    } else if at < found {
        assert(s[at] != x);
    }
}

/// An element that sits nowhere in a sequence does not occur in it.
pub proof fn lemma_absent<T>(s: Seq<T>, x: T)
    requires
        forall|j: int| 0 <= j < s.len() ==> #[trigger] s[j] != x,
    ensures
        !occurs(s, x),
{
    assert forall|at: int| !is_first_index_of(s, x, at) by {
        if 0 <= at < s.len() {
            assert(s[at] != x);
        }
    }
}

/// In `head + [x] + tail`, where `x` is not in `head`, the first `x` sits
/// right after `head`.
pub proof fn lemma_first_index_of_join<T>(head: Seq<T>, x: T, tail: Seq<T>)
    requires
        forall|j: int| 0 <= j < head.len() ==> #[trigger] head[j] != x,
    ensures
        occurs(head + seq![x] + tail, x),
        first_index_of(head + seq![x] + tail, x) == head.len(),
        (head + seq![x] + tail).take(head.len() as int) == head,
        (head + seq![x] + tail).skip(head.len() as int + 1) == tail,
{
    let s = head + seq![x] + tail;
    let at = head.len() as int;
    assert forall|j: int| 0 <= j < at implies #[trigger] s[j] != x by {
        assert(s[j] == head[j]);
    }
    lemma_first_index_found(s, x, at);
    assert(s.take(at) =~= head);
    assert(s.skip(at + 1) =~= tail);
}

/// A sequence in which `x` occurs is what stands before the first `x`, then
/// `x`, then what stands after it.
pub proof fn lemma_split_at_first<T>(s: Seq<T>, x: T)
    requires
        occurs(s, x),
    ensures
        is_first_index_of(s, x, first_index_of(s, x)),
        s == s.take(first_index_of(s, x)) + seq![x] + s.skip(first_index_of(s, x) + 1),
{
    let at = first_index_of(s, x);
    assert(s =~= s.take(at) + seq![x] + s.skip(at + 1));
}

} // verus!
