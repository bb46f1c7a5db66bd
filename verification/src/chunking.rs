//! The batching policy: splitting an ordered sequence of pending operations
//! into consecutive groups of at most a fixed size, preserving order.

use vstd::prelude::*;
use vstd::arithmetic::div_mod::lemma_basic_div;
use vstd::arithmetic::div_mod::lemma_div_plus_one;

verus! {

/// The consecutive groups of at most `size` elements that `s` splits into,
/// in order. Every group is non-empty, and only the last may be short.
pub open spec fn chunks_of<T>(s: Seq<T>, size: int) -> Seq<Seq<T>>
    decreases s.len(),
        when size >= 1
{
    if s.len() == 0 {
        Seq::empty()
    } else if s.len() <= size {
        seq![s]
    } else {
        seq![s.take(size)] + chunks_of(s.skip(size), size)
    }
}

/// A non-empty sequence splits into its first group of at most `size`
/// elements followed by the groups of the remainder.
pub proof fn lemma_chunks_of_step<T>(s: Seq<T>, size: int)
    requires
        1 <= size,
        s.len() > 0,
    ensures
        ({
            let n = if s.len() <= size { s.len() as int } else { size };
            chunks_of(s, size) == seq![s.subrange(0, n)] + chunks_of(
                s.subrange(n, s.len() as int),
                size,
            )
        }),
{
    if s.len() <= size {
        let n = s.len() as int;
        assert(s.subrange(0, n) =~= s);
        assert(s.subrange(n, n).len() == 0);
        assert(chunks_of(s.subrange(n, n), size) =~= Seq::<Seq<T>>::empty());
        assert(seq![s] + Seq::<Seq<T>>::empty() =~= seq![s]);
    }
}

/// There are exactly ceiling(len / size) groups.
pub proof fn lemma_chunks_of_count<T>(s: Seq<T>, size: int)
    requires
        1 <= size,
    ensures
        chunks_of(s, size).len() == (s.len() + size - 1) / size,
    decreases s.len(),
{
    if s.len() == 0 {
        lemma_basic_div(size - 1, size);
    } else if s.len() <= size {
        lemma_div_plus_one(s.len() - 1, size);
        lemma_basic_div(s.len() - 1, size);
    } else {
        lemma_chunks_of_count(s.skip(size), size);
        assert(s.skip(size).len() == s.len() - size);
        lemma_div_plus_one(s.len() - 1, size);
    }
}

/// Concatenating the groups gives back the original sequence: every element
/// is covered, in its original order.
pub proof fn lemma_chunks_of_flatten<T>(s: Seq<T>, size: int)
    requires
        1 <= size,
    ensures
        chunks_of(s, size).flatten() == s,
    decreases s.len(),
{
    if s.len() == 0 {
        assert(chunks_of(s, size).flatten() =~= s);
    } else if s.len() <= size {
        let c = chunks_of(s, size);
        assert(c.first() == s);
        assert(c.drop_first() =~= Seq::<Seq<T>>::empty());
        assert(c.drop_first().flatten() =~= Seq::<T>::empty());
        assert(c.flatten() =~= s);
    } else {
        lemma_chunks_of_flatten(s.skip(size), size);
        let c = chunks_of(s, size);
        assert(c.first() == s.take(size));
        assert(c.drop_first() =~= chunks_of(s.skip(size), size));
        assert(c.flatten() == s.take(size) + c.drop_first().flatten());
        assert(s.take(size) + s.skip(size) =~= s);
    }
}

/// Every group holds between one and `size` elements.
pub proof fn lemma_chunks_of_each_len<T>(s: Seq<T>, size: int)
    requires
        1 <= size,
    ensures
        forall|i: int|
            0 <= i < chunks_of(s, size).len() ==> 1 <= (#[trigger] chunks_of(s, size)[i]).len()
                <= size,
    decreases s.len(),
{
    if s.len() == 0 {
    } else if s.len() <= size {
    } else {
        lemma_chunks_of_each_len(s.skip(size), size);
        let c = chunks_of(s, size);
        assert forall|i: int| 0 <= i < c.len() implies 1 <= (#[trigger] c[i]).len() <= size by {
            if i > 0 {
                assert(c[i] == chunks_of(s.skip(size), size)[i - 1]);
            }
        }
    }
}

} // verus!
