//! Properties of the queues that concern several operations together.
use vstd::multiset::Multiset;
use vstd::prelude::*;

use crate::fifo::Fifo;
use crate::lifo::Lifo;
use crate::queue::{lemma_put_all_len, peeked, put_all, Queue};

verus! {

/// Putting items into an empty queue, never more than its capacity `cap`,
/// leaves exactly as many items as were put, and the queue is full exactly
/// when that count equals the capacity.
pub proof fn lemma_count_after_puts<T, Q: Queue<T>>(cap: nat, xs: Seq<T>)
    requires
        xs.len() <= cap,
    ensures
        put_all::<T, Q>(Seq::empty(), xs).len() == xs.len(),
        (put_all::<T, Q>(Seq::empty(), xs).len() == cap) <==> (xs.len() == cap),
{
    lemma_put_all_len::<T, Q>(Seq::empty(), xs);
}

/// Putting items never drops or duplicates one: whatever the order, the
/// queue then holds the items it held and each item put, once per put.
pub proof fn lemma_puts_keep_items<T, Q: Queue<T>>(s: Seq<T>, xs: Seq<T>)
    ensures
        put_all::<T, Q>(s, xs).to_multiset() == s.to_multiset().add(xs.to_multiset()),
    decreases xs.len(),
{
    if xs.len() == 0 {
        vstd::seq_lib::to_multiset_len(xs);
        vstd::multiset::lemma_multiset_empty_len(xs.to_multiset());
        assert(s.to_multiset().add(Multiset::<T>::empty()) =~= s.to_multiset());
    } else {
        let front = xs.drop_last();
        lemma_puts_keep_items::<T, Q>(s, front);
        Q::lemma_enqueued_items(put_all::<T, Q>(s, front), xs.last());
        vstd::seq_lib::to_multiset_build(front, xs.last());
        assert(front.push(xs.last()) =~= xs);
        assert(s.to_multiset().add(front.to_multiset()).insert(xs.last()) =~= s.to_multiset().add(
            front.to_multiset().insert(xs.last()),
        ));
    }
}

/// First in, first out: items put into a FIFO queue leave after those it
/// already held, in the order they were put.
pub proof fn lemma_fifo_order<T>(s: Seq<T>, xs: Seq<T>)
    ensures
        put_all::<T, Fifo<T>>(s, xs) == s + xs,
    decreases xs.len(),
{
    if xs.len() == 0 {
        assert(s + xs =~= s);
    } else {
        lemma_fifo_order(s, xs.drop_last());
        assert((s + xs.drop_last()).push(xs.last()) =~= s + xs);
    }
}

/// Last in, first out: items put into a LIFO queue leave before those it
/// already held, newest first.
pub proof fn lemma_lifo_order<T>(s: Seq<T>, xs: Seq<T>)
    ensures
        put_all::<T, Lifo<T>>(s, xs) == xs.reverse() + s,
    decreases xs.len(),
{
    if xs.len() == 0 {
        assert(xs.reverse() + s =~= s);
    } else {
        lemma_lifo_order(s, xs.drop_last());
        assert(seq![xs.last()] + (xs.drop_last().reverse() + s) =~= xs.reverse() + s);
    }
}

/// Loading a sequence into a queue and draining it gives the sequence back
/// for a FIFO queue, and the sequence reversed for a LIFO queue.
pub proof fn lemma_round_trip<T>(s: Seq<T>)
    ensures
        put_all::<T, Fifo<T>>(Seq::empty(), s) == s,
        put_all::<T, Lifo<T>>(Seq::empty(), s) == s.reverse(),
{
    lemma_fifo_order(Seq::<T>::empty(), s);
    lemma_lifo_order(Seq::<T>::empty(), s);
    assert(Seq::<T>::empty() + s =~= s);
    assert(s.reverse() + Seq::<T>::empty() =~= s.reverse());
}

/// `peek` has no effect to observe: two calls on the same items give the
/// same answer.
pub proof fn lemma_peek_repeatable<T>(s: Seq<T>, a: Option<&T>, b: Option<&T>)
    requires
        peeked(s, a),
        peeked(s, b),
    ensures
        a == b,
{
}

/// A queue of capacity zero holds nothing, ever: it is both empty and full,
/// so every `put` fails and every `pop` or `peek` finds nothing.
pub proof fn lemma_zero_capacity<T, Q: Queue<T>>(q: Q)
    requires
        q.inv(),
        q.bound() == 0,
    ensures
        q.pending().len() == 0,
        q.pending().len() == q.bound(),
{
    q.lemma_inv_len();
}

} // verus!
