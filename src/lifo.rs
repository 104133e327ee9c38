//! The last-in-first-out queue: a stack of bounded height.
use vstd::prelude::*;

use crate::laws::lemma_round_trip;
use crate::queue::{load, Error, Queue};

verus! {

/// A bounded stack. The items sit in `items` from the oldest, at index 0, to
/// the newest, at the top; `put` and `pop` both work at the top.
pub struct Lifo<T> {
    items: Vec<T>,
    cap: usize,
}

impl<T: Copy> Lifo<T> {
    /// Makes a queue of the items of `s`, with capacity `s.len()`, putting
    /// them in order, so that the last of them leaves first: draining it
    /// gives back `s` reversed.
    pub fn from_slice(s: &[T]) -> (r: Self)
        ensures
            r.inv(),
            r.bound() == s@.len(),
            r.pending() == s@.reverse(),
    {
        proof {
            lemma_round_trip(s@);
        }
        load(s)
    }
}

impl<T> Queue<T> for Lifo<T> {
    closed spec fn pending(&self) -> Seq<T> {
        self.items@.reverse()
    }

    closed spec fn bound(&self) -> nat {
        self.cap as nat
    }

    closed spec fn inv(&self) -> bool {
        self.items@.len() <= self.cap
    }

    /// The newest item leaves first: it goes in front of all others.
    open spec fn enqueued(s: Seq<T>, x: T) -> Seq<T> {
        seq![x] + s
    }

    proof fn lemma_enqueued_len(s: Seq<T>, x: T) {
    }

    proof fn lemma_enqueued_items(s: Seq<T>, x: T) {
        vstd::seq_lib::to_multiset_insert(s, 0, x);
        assert(s.insert(0, x) =~= seq![x] + s);
    }

    proof fn lemma_inv_len(&self) {
    }

    fn with_capacity(cap: usize) -> (r: Self) {
        let r = Lifo { items: Vec::with_capacity(cap), cap };
        assert(r.items@.reverse() =~= Seq::<T>::empty());
        r
    }

    fn peek(&self) -> (r: Option<&T>) {
        let n = self.items.len();
        if n == 0 {
            None
        } else {
            Some(&self.items[n - 1])
        }
    }

    fn pop(&mut self) -> (r: Option<T>) {
        let r = self.items.pop();
        proof {
            if old(self).items@.len() > 0 {
                assert(self.items@.reverse() =~= old(self).items@.reverse().drop_first());
            }
        }
        r
    }

    fn put(&mut self, item: T) -> (r: Result<(), Error>) {
        if self.items.len() >= self.cap {
            Err(Error::QueueFull)
        } else {
            self.items.push(item);
            assert(self.items@.reverse() =~= seq![item] + old(self).items@.reverse());
            Ok(())
        }
    }

    fn is_empty(&self) -> (r: bool) {
        self.items.len() == 0
    }

    fn is_full(&self) -> (r: bool) {
        self.items.len() == self.cap
    }

    fn len(&self) -> (r: usize) {
        self.items.len()
    }

    fn capacity(&self) -> (r: usize) {
        self.cap
    }
}

} // verus!
