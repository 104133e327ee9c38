//! The contract shared by every bounded queue, whatever order it hands its
//! items out in.
use vstd::prelude::*;

verus! {

/// The one way a queue operation can fail: `put` on a queue that already
/// holds as many items as its capacity.
#[derive(Debug, Clone, Copy, PartialEq, Eq, Structural)]
pub enum Error {
    QueueFull,
}

/// What `peek` may return for a queue whose pending items are `s`: nothing
/// when `s` is empty, else the item that `pop` would hand out next.
pub open spec fn peeked<T>(s: Seq<T>, r: Option<&T>) -> bool {
    match r {
        None => s.len() == 0,
        Some(v) => s.len() > 0 && *v == s[0],
    }
}

/// The pending items of a queue of kind `Q` whose pending items were `s`,
/// after each of `xs` is put into it in turn, every put succeeding.
pub open spec fn put_all<T, Q: Queue<T>>(s: Seq<T>, xs: Seq<T>) -> Seq<T>
    decreases xs.len(),
{
    if xs.len() == 0 {
        s
    } else {
        Q::enqueued(put_all::<T, Q>(s, xs.drop_last()), xs.last())
    }
}

/// Putting `xs` adds exactly `xs.len()` items.
pub proof fn lemma_put_all_len<T, Q: Queue<T>>(s: Seq<T>, xs: Seq<T>)
    ensures
        put_all::<T, Q>(s, xs).len() == s.len() + xs.len(),
    decreases xs.len(),
{
    if xs.len() > 0 {
        lemma_put_all_len::<T, Q>(s, xs.drop_last());
        Q::lemma_enqueued_len(put_all::<T, Q>(s, xs.drop_last()), xs.last());
    }
}

/// A queue of at most a fixed number of items, set at construction.
///
/// Every implementation is described by `pending`, the items it holds in the
/// order in which `pop` will hand them out, and `bound`, its capacity. The
/// two implementations differ only in where `put` places a new item in that
/// order, which `enqueued` states.
pub trait Queue<T>: Sized {
    /// The items held, the next one to leave first.
    spec fn pending(&self) -> Seq<T>;

    /// The capacity, fixed when the queue is made.
    spec fn bound(&self) -> nat;

    /// Consistency of the representation; every operation keeps it.
    spec fn inv(&self) -> bool;

    /// The pending items after `x` is put into a queue whose pending items
    /// are `s`.
    spec fn enqueued(s: Seq<T>, x: T) -> Seq<T>;

    /// A put adds exactly one item.
    proof fn lemma_enqueued_len(s: Seq<T>, x: T)
        ensures
            Self::enqueued(s, x).len() == s.len() + 1,
    ;

    /// A put loses no item and adds no other: the items held afterwards are
    /// those held before, and `x` once more.
    proof fn lemma_enqueued_items(s: Seq<T>, x: T)
        ensures
            Self::enqueued(s, x).to_multiset() == s.to_multiset().insert(x),
    ;

    /// A consistent queue never holds more items than its capacity.
    proof fn lemma_inv_len(&self)
        requires
            self.inv(),
        ensures
            self.pending().len() <= self.bound() <= usize::MAX,
    ;

    /// Makes an empty queue of capacity `cap`. A capacity of zero gives a
    /// queue that is always both empty and full.
    fn with_capacity(cap: usize) -> (r: Self)
        ensures
            r.inv(),
            r.pending() == Seq::<T>::empty(),
            r.bound() == cap,
    ;

    /// The item that `pop` would hand out next, left in place.
    fn peek(&self) -> (r: Option<&T>)
        requires
            self.inv(),
        ensures
            peeked(self.pending(), r),
    ;

    /// Removes and returns the next item; nothing on an empty queue.
    fn pop(&mut self) -> (r: Option<T>)
        requires
            old(self).inv(),
        ensures
            final(self).inv(),
            final(self).bound() == old(self).bound(),
            old(self).pending().len() == 0 ==> {
                &&& r is None
                &&& final(self).pending() == old(self).pending()
            },
            old(self).pending().len() > 0 ==> {
                &&& r == Some(old(self).pending()[0])
                &&& final(self).pending() == old(self).pending().drop_first()
            },
    ;

    /// Adds `item`, or fails with `QueueFull`, leaving the queue as it was,
    /// when the queue is at capacity.
    fn put(&mut self, item: T) -> (r: Result<(), Error>)
        requires
            old(self).inv(),
        ensures
            final(self).inv(),
            final(self).bound() == old(self).bound(),
            old(self).pending().len() < old(self).bound() ==> {
                &&& r is Ok
                &&& final(self).pending() == Self::enqueued(old(self).pending(), item)
            },
            old(self).pending().len() >= old(self).bound() ==> {
                &&& r == Err::<(), Error>(Error::QueueFull)
                &&& final(self).pending() == old(self).pending()
            },
    ;

    /// Whether the queue holds no item.
    fn is_empty(&self) -> (r: bool)
        requires
            self.inv(),
        ensures
            r == (self.pending().len() == 0),
    ;

    /// Whether the queue holds as many items as its capacity.
    fn is_full(&self) -> (r: bool)
        requires
            self.inv(),
        ensures
            r == (self.pending().len() == self.bound()),
    ;

    /// The number of items held.
    fn len(&self) -> (r: usize)
        requires
            self.inv(),
        ensures
            r == self.pending().len(),
    ;

    /// The capacity.
    fn capacity(&self) -> (r: usize)
        requires
            self.inv(),
        ensures
            r == self.bound(),
    ;

    /// Pops every item, in order, into a vector. The queue is left empty,
    /// with its capacity, and can be used again.
    fn drain(&mut self) -> (r: Vec<T>)
        requires
            old(self).inv(),
        ensures
            final(self).inv(),
            final(self).bound() == old(self).bound(),
            final(self).pending() == Seq::<T>::empty(),
            r@ == old(self).pending(),
    {
        let mut out: Vec<T> = Vec::new();
        while !self.is_empty()
            invariant
                self.inv(),
                self.bound() == old(self).bound(),
                out@ + self.pending() == old(self).pending(),
            decreases self.pending().len(),
        {
            let next = self.pop();
            match next {
                Some(x) => {
                    out.push(x);
                    assert(out@ + self.pending() =~= old(self).pending());
                },
                None => {},
            }
        }
        assert(out@ =~= old(self).pending());
        out
    }

    /// Consumes the queue into a vector of its items, in the order `pop`
    /// would hand them out.
    fn into_vec(self) -> (r: Vec<T>)
        requires
            self.inv(),
        ensures
            r@ == self.pending(),
    {
        let mut q = self;
        q.drain()
    }
}

/// Makes a queue whose capacity is the length of `s` and puts each item of
/// `s` into it, in order. No put can fail, since the capacity matches.
pub fn load<T: Copy, Q: Queue<T>>(s: &[T]) -> (r: Q)
    ensures
        r.inv(),
        r.bound() == s@.len(),
        r.pending() == put_all::<T, Q>(Seq::empty(), s@),
{
    let n = s.len();
    let mut q = Q::with_capacity(n);
    let mut i: usize = 0;
    while i < n
        invariant
            n == s@.len(),
            i <= n,
            q.inv(),
            q.bound() == n,
            q.pending() == put_all::<T, Q>(Seq::empty(), s@.take(i as int)),
        decreases n - i,
    {
        proof {
            lemma_put_all_len::<T, Q>(Seq::empty(), s@.take(i as int));
            assert(s@.take(i as int + 1).drop_last() =~= s@.take(i as int));
        }
        let _ = q.put(s[i]);
        i = i + 1;
    }
    assert(s@.take(n as int) =~= s@);
    q
}

} // verus!
