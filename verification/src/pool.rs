//! The receive-buffer pool: a bounded container of idle [`ReceiveBuffer`]s
//! shared between interrupt-context reclamation and normal-context
//! replenishment.
//!
//! The storage is `mpmc::Queue`, a lock-free bounded multi-producer
//! multi-consumer FIFO queue, so neither side ever blocks on a lock; this
//! crate reasons about it through the trusted contracts below, which state
//! the queue's sequential first-in-first-out behaviour as its source shows
//! it.

use vstd::prelude::*;

use crate::buffers::BufView;
use crate::buffers::ReceiveBuffer;

verus! {

#[verifier::external_type_specification]
#[verifier::external_body]
#[verifier::reject_recursive_types(T)]
pub struct ExQueue<T>(mpmc::Queue<T>);

/// The buffers stored in the queue, oldest first.
pub uninterp spec fn queue_contents(q: mpmc::Queue<ReceiveBuffer>) -> Seq<BufView>;

/// The fixed number of slots the queue was created with.
pub uninterp spec fn queue_capacity(q: mpmc::Queue<ReceiveBuffer>) -> nat;

/// Relies on mpmc::Queue::with_capacity: the queue starts empty, and holds at
/// least the requested number of slots (the source rounds the capacity up to
/// at least 2 and to a power of two).
#[verifier::external_body]
fn queue_with_capacity(capacity: usize) -> (q: mpmc::Queue<ReceiveBuffer>)
    requires
        capacity <= usize::MAX / 2 + 1,
    ensures
        queue_contents(q) == Seq::<BufView>::empty(),
        queue_capacity(q) >= capacity,
{
    mpmc::Queue::with_capacity(capacity)
}

/// Relies on mpmc::Queue::push: appends the value at the tail, or returns it
/// back unchanged when the queue is full.
#[verifier::external_body]
fn queue_push(q: &mut mpmc::Queue<ReceiveBuffer>, buffer: ReceiveBuffer) -> (r: Result<
    (),
    ReceiveBuffer,
>)
    ensures
        queue_capacity(*final(q)) == queue_capacity(*old(q)),
        queue_contents(*old(q)).len() < queue_capacity(*old(q)) ==> (r is Ok && queue_contents(
            *final(q),
        ) == queue_contents(*old(q)).push(buffer@)),
        queue_contents(*old(q)).len() >= queue_capacity(*old(q)) ==> (r matches Err(b) && b
            == buffer && queue_contents(*final(q)) == queue_contents(*old(q))),
{
    q.push(buffer)
}

/// Relies on mpmc::Queue::pop: removes and returns the oldest value, or
/// returns nothing when the queue is empty.
#[verifier::external_body]
fn queue_pop(q: &mut mpmc::Queue<ReceiveBuffer>) -> (r: Option<ReceiveBuffer>)
    ensures
        queue_capacity(*final(q)) == queue_capacity(*old(q)),
        queue_contents(*old(q)).len() == 0 ==> (r is None && queue_contents(*final(q))
            == queue_contents(*old(q))),
        queue_contents(*old(q)).len() > 0 ==> (r matches Some(b) && b@ == queue_contents(
            *old(q),
        )[0] && queue_contents(*final(q)) == queue_contents(*old(q)).drop_first()),
{
    q.pop()
}

/// Pool capacity invariant: a well-formed pool never holds more buffers
/// than its configured capacity. Every pool starts well formed, and
/// [`BufferPool::acquire`] and [`BufferPool::release`] each preserve
/// well-formedness, so the bound holds across any sequence of calls.
pub proof fn lemma_pool_capacity_invariant(pool: &BufferPool)
    requires
        pool.wf(),
    ensures
        pool@.len() <= pool.capacity_spec(),
{
}

/// A bounded pool of idle receive buffers with a fixed capacity chosen at
/// creation. Acquiring from an empty pool returns nothing; releasing into a
/// full pool fails and hands the buffer back, so no buffer is ever silently
/// lost and the pool never holds more buffers than its capacity.
///
/// An `mpmc::Queue` value is a shared handle to its storage, and cloning one
/// would alias it; the pool keeps the only handle ever created for its
/// queue, so the sequential contracts above describe every access.
pub struct BufferPool {
    queue: mpmc::Queue<ReceiveBuffer>,
    count: usize,
    cap: usize,
}

impl View for BufferPool {
    type V = Seq<BufView>;

    closed spec fn view(&self) -> Seq<BufView> {
        queue_contents(self.queue)
    }
}

impl BufferPool {
    /// The fixed capacity the pool was created with.
    pub closed spec fn capacity_spec(&self) -> usize {
        self.cap
    }

    /// The pool never holds more buffers than its capacity, and every buffer
    /// it holds is well formed.
    pub open spec fn wf(&self) -> bool {
        &&& self@.len() <= self.capacity_spec()
        &&& self.count_matches()
        &&& forall|i: int| 0 <= i < self@.len() ==> (#[trigger] self@[i]).wf()
    }

    /// Internal bookkeeping agrees with the queue's contents.
    pub closed spec fn count_matches(&self) -> bool {
        &&& self.count == self@.len()
        &&& self.cap as nat <= queue_capacity(self.queue)
    }

    /// An empty pool with the given capacity.
    pub fn with_capacity(capacity: usize) -> (p: Self)
        requires
            capacity <= usize::MAX / 2 + 1,
        ensures
            p.wf(),
            p@ == Seq::<BufView>::empty(),
            p.capacity_spec() == capacity,
    {
        BufferPool { queue: queue_with_capacity(capacity), count: 0, cap: capacity }
    }

    /// The fixed capacity the pool was created with.
    pub fn capacity(&self) -> (c: usize)
        ensures
            c == self.capacity_spec(),
    {
        self.cap
    }

    /// How many idle buffers the pool currently holds.
    pub fn len(&self) -> (n: usize)
        requires
            self.wf(),
        ensures
            n == self@.len(),
    {
        self.count
    }

    /// Removes and returns the oldest idle buffer, or returns nothing when
    /// the pool is empty; emptiness is a normal condition, not a fault.
    pub fn acquire(&mut self) -> (r: Option<ReceiveBuffer>)
        requires
            old(self).wf(),
        ensures
            final(self).wf(),
            final(self).capacity_spec() == old(self).capacity_spec(),
            old(self)@.len() == 0 ==> (r is None && final(self)@ == old(self)@),
            old(self)@.len() > 0 ==> (r matches Some(b) && b@ == old(self)@[0] && b.wf()
                && final(self)@ == old(self)@.drop_first()),
    {
        match queue_pop(&mut self.queue) {
            Some(b) => {
                self.count = self.count - 1;
                Some(b)
            },
            None => None,
        }
    }

    /// Returns a buffer to the pool. Fails, handing the buffer back
    /// unchanged, only when the pool is already at capacity: that signals a
    /// pool sized smaller than the number of buffers in circulation, and must
    /// be surfaced rather than swallowed.
    pub fn release(&mut self, buffer: ReceiveBuffer) -> (r: Result<(), ReceiveBuffer>)
        requires
            old(self).wf(),
            buffer.wf(),
        ensures
            final(self).wf(),
            final(self).capacity_spec() == old(self).capacity_spec(),
            old(self)@.len() < old(self).capacity_spec() ==> (r is Ok
                && final(self)@ == old(self)@.push(buffer@)),
            old(self)@.len() >= old(self).capacity_spec() ==> (r matches Err(b) && b == buffer
                && final(self)@ == old(self)@),
    {
        if self.count >= self.cap {
            return Err(buffer);
        }
        match queue_push(&mut self.queue, buffer) {
            Ok(()) => {
                self.count = self.count + 1;
                Ok(())
            },
            Err(b) => {
                // Unreachable: the queue holds fewer buffers than the
                // capacity it was created with, so the push succeeds.
                Err(b)
            },
        }
    }
}

} // verus!
