//! The first-in-first-out queue: a ring buffer of fixed size.
use vstd::prelude::*;

use crate::laws::lemma_round_trip;
use crate::queue::{load, Error, Queue};

verus! {

/// Where the item `k` places behind the front sits in a ring of `cap` slots
/// whose front is at `head` (for `head < cap` and `k < cap`).
pub open spec fn ring_index(head: int, cap: int, k: int) -> int {
    if head + k < cap {
        head + k
    } else {
        head + k - cap
    }
}

/// A bounded queue that hands items out in the order they came in.
///
/// `slots` is a ring whose length is the capacity. The `len` items held
/// occupy the slots from `head` onward, wrapping round at the end; the other
/// slots are empty. `tail` is the slot that the next item goes into. Keeping
/// `len` apart from `head` and `tail` tells a full ring from an empty one,
/// which share `head == tail`.
pub struct Fifo<T> {
    slots: Vec<Option<T>>,
    head: usize,
    tail: usize,
    len: usize,
}

impl<T> Fifo<T> {
    /// The slot of the item `k` places behind the front.
    closed spec fn slot(&self, k: int) -> int {
        ring_index(self.head as int, self.slots@.len() as int, k)
    }

    /// Advances a slot index by one round the ring.
    fn next_index(&self, i: usize) -> (r: usize)
        requires
            i < self.slots@.len(),
        ensures
            r == ring_index(i as int, self.slots@.len() as int, 1),
    {
        let cap = self.slots.len();
        proof {
            if i + 1 < cap {
                vstd::arithmetic::div_mod::lemma_small_mod((i + 1) as nat, cap as nat);
            } else {
                vstd::arithmetic::div_mod::lemma_mod_self_0(cap as int);
            }
        }
        (i + 1) % cap
    }
}

impl<T: Copy> Fifo<T> {
    /// Makes a queue of the items of `s`, with capacity `s.len()`, putting
    /// them in order: draining it gives back `s`.
    pub fn from_slice(s: &[T]) -> (r: Self)
        ensures
            r.inv(),
            r.bound() == s@.len(),
            r.pending() == s@,
    {
        proof {
            lemma_round_trip(s@);
        }
        load(s)
    }
}

impl<T> Queue<T> for Fifo<T> {
    closed spec fn pending(&self) -> Seq<T> {
        Seq::new(self.len as nat, |k: int| self.slots@[self.slot(k)]->Some_0)
    }

    closed spec fn bound(&self) -> nat {
        self.slots@.len()
    }

    closed spec fn inv(&self) -> bool {
        let cap = self.slots@.len();
        &&& cap <= usize::MAX
        &&& self.len <= cap
        &&& cap == 0 ==> self.head == 0 && self.tail == 0
        &&& cap > 0 ==> self.head < cap && self.tail == self.slot(self.len as int)
        &&& forall|k: int| 0 <= k < self.len ==> (#[trigger] self.slots@[self.slot(k)]) is Some
        &&& forall|k: int| self.len <= k < cap ==> (#[trigger] self.slots@[self.slot(k)]) is None
    }

    /// The newest item leaves last: it goes behind all others.
    open spec fn enqueued(s: Seq<T>, x: T) -> Seq<T> {
        s.push(x)
    }

    proof fn lemma_enqueued_len(s: Seq<T>, x: T) {
    }

    proof fn lemma_enqueued_items(s: Seq<T>, x: T) {
        vstd::seq_lib::to_multiset_build(s, x);
    }

    proof fn lemma_inv_len(&self) {
    }

    fn with_capacity(cap: usize) -> (r: Self) {
        let mut slots: Vec<Option<T>> = Vec::with_capacity(cap);
        let mut i: usize = 0;
        while i < cap
            invariant
                i <= cap,
                slots@.len() == i,
                forall|j: int| 0 <= j < i ==> (#[trigger] slots@[j]) is None,
            decreases cap - i,
        {
            slots.push(None);
            i = i + 1;
        }
        let r = Fifo { slots, head: 0, tail: 0, len: 0 };
        assert(r.pending() =~= Seq::<T>::empty());
        r
    }

    fn peek(&self) -> (r: Option<&T>) {
        if self.len == 0 {
            None
        } else {
            assert(self.slot(0) == self.head);
            self.slots[self.head].as_ref()
        }
    }

    fn pop(&mut self) -> (r: Option<T>) {
        if self.len == 0 {
            return None;
        }
        let ghost prev = *self;
        let ghost cap = self.slots@.len() as int;
        assert(self.slot(0) == self.head);
        let h = self.head;
        let item = self.slots[h].take();
        self.head = self.next_index(h);
        self.len = self.len - 1;
        proof {
            // Each item moves one place nearer the front; the emptied slot
            // becomes the last one of the ring.
            assert forall|k: int| 0 <= k < cap implies #[trigger] self.slot(k) == if k + 1 < cap {
                prev.slot(k + 1)
            } else {
                h as int
            } by {}
            assert forall|k: int| 0 <= k < self.len implies (#[trigger] self.slots@[self.slot(k)]) is Some by {
                assert(prev.slots@[prev.slot(k + 1)] is Some);
            }
            assert forall|k: int| self.len <= k < cap implies (#[trigger] self.slots@[self.slot(k)]) is None by {
                if k + 1 < cap {
                    assert(prev.slots@[prev.slot(k + 1)] is None);
                }
            }
        }
        assert(self.pending() =~= prev.pending().drop_first());
        item
    }

    fn put(&mut self, item: T) -> (r: Result<(), Error>) {
        if self.len == self.slots.len() {
            return Err(Error::QueueFull);
        }
        let ghost prev = *self;
        let ghost cap = self.slots@.len() as int;
        let t = self.tail;
        self.slots[t] = Some(item);
        self.tail = self.next_index(t);
        self.len = self.len + 1;
        proof {
            assert forall|k: int| 0 <= k < self.len implies (#[trigger] self.slots@[self.slot(k)]) is Some by {
                if k + 1 < self.len {
                    assert(prev.slots@[prev.slot(k)] is Some);
                }
            }
            assert forall|k: int| self.len <= k < cap implies (#[trigger] self.slots@[self.slot(k)]) is None by {
                assert(prev.slots@[prev.slot(k)] is None);
            }
        }
        assert(self.pending() =~= prev.pending().push(item));
        Ok(())
    }

    fn is_empty(&self) -> (r: bool) {
        self.len == 0
    }

    fn is_full(&self) -> (r: bool) {
        self.len == self.slots.len()
    }

    fn len(&self) -> (r: usize) {
        self.len
    }

    fn capacity(&self) -> (r: usize) {
        self.slots.len()
    }
}

} // verus!
