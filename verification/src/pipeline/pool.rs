//! Pools of things that one request at a time may use.
//!
//! A pipeline needs exclusive access during a run, and so does an inference
//! session. Idle ones are kept up to a capacity; when none is idle a request
//! gets one made for it, and what would exceed the capacity afterwards is
//! dropped.

use vstd::prelude::*;

verus! {

/// The larger of `capacity` and one.
pub open spec fn at_least_one(capacity: usize) -> usize {
    if capacity == 0 {
        1
    } else {
        capacity
    }
}

/// Idle items, never more than a capacity.
#[derive(Debug)]
pub struct IdlePool<T> {
    slots: Vec<T>,
    capacity: usize,
}

impl<T> IdlePool<T> {
    /// The idle items; the last one is handed out next.
    pub closed spec fn idle(self) -> Seq<T> {
        self.slots@
    }

    /// The largest number of idle items.
    pub closed spec fn limit(self) -> usize {
        self.capacity
    }

    /// True if the pool keeps no more items than it may, and may keep one.
    pub open spec fn well_formed(self) -> bool {
        self.idle().len() <= self.limit() && self.limit() >= 1
    }

    /// Makes a pool without items that keeps `capacity` of them, at least one.
    pub fn with_capacity(capacity: usize) -> (pool: Self)
        ensures
            pool.well_formed(),
            pool.idle() == Seq::<T>::empty(),
            pool.limit() == at_least_one(capacity),
    {
        let capacity: usize = if capacity == 0 {
            1
        } else {
            capacity
        };
        IdlePool { slots: Vec::new(), capacity }
    }

    /// The largest number of idle items.
    pub fn capacity(&self) -> (capacity: usize)
        ensures
            capacity == self.limit(),
    {
        self.capacity
    }

    /// The number of idle items.
    pub fn idle_count(&self) -> (count: usize)
        ensures
            count == self.idle().len(),
    {
        self.slots.len()
    }

    /// Hands out the item that was returned last, if one is idle.
    pub fn take(&mut self) -> (item: Option<T>)
        ensures
            final(self).limit() == old(self).limit(),
            old(self).idle().len() == 0 ==> item is None && final(self).idle() == old(
                self,
            ).idle(),
            old(self).idle().len() > 0 ==> item == Some(old(self).idle().last())
                && final(self).idle() == old(self).idle().drop_last(),
            old(self).well_formed() ==> final(self).well_formed(),
    {
        self.slots.pop()
    }

    /// Keeps an item if there is room for it; otherwise drops it.
    pub fn give_back(&mut self, item: T)
        ensures
            final(self).limit() == old(self).limit(),
            final(self).idle() == (if old(self).idle().len() < old(self).limit() {
                old(self).idle().push(item)
            } else {
                old(self).idle()
            }),
            old(self).well_formed() ==> final(self).well_formed(),
    {
        if self.slots.len() < self.capacity {
            self.slots.push(item);
        }
    }
}

/// A pool of pipelines for concurrent request serving.
#[verifier::reject_recursive_types(P)]
pub struct PipelinePool<P, F: Fn() -> P> {
    pool: IdlePool<P>,
    factory: F,
}

impl<P, F: Fn() -> P> PipelinePool<P, F> {
    /// The idle pipelines; the last one is handed out next.
    pub closed spec fn idle(self) -> Seq<P> {
        self.pool.idle()
    }

    /// The largest number of idle pipelines.
    pub closed spec fn limit(self) -> usize {
        self.pool.limit()
    }

    /// What makes a pipeline when none is idle.
    pub closed spec fn maker(self) -> F {
        self.factory
    }

    /// True if the pool keeps no more pipelines than it may, and can make one.
    pub open spec fn well_formed(self) -> bool {
        &&& self.idle().len() <= self.limit()
        &&& self.limit() >= 1
        &&& call_requires(self.maker(), ())
    }

    /// Creates a pool filled to `capacity` slots.
    ///
    /// `first` is the initial slot and the factory fills the rest. With a
    /// capacity of 0 or 1 the factory is never called.
    pub fn new(first: P, capacity: usize, factory: F) -> (pool: Self)
        requires
            call_requires(factory, ()),
        ensures
            pool.well_formed(),
            pool.maker() == factory,
            pool.limit() == at_least_one(capacity),
            pool.idle().len() == at_least_one(capacity),
            pool.idle()[0] == first,
            forall|i: int|
                1 <= i < capacity ==> call_ensures(factory, (), #[trigger] pool.idle()[i]),
    {
        let mut pool = IdlePool::with_capacity(capacity);
        pool.give_back(first);
        let mut made: usize = 1;
        while made < capacity
            invariant
                call_requires(factory, ()),
                pool.well_formed(),
                pool.limit() == at_least_one(capacity),
                1 <= made <= at_least_one(capacity),
                pool.idle().len() == made,
                pool.idle()[0] == first,
                forall|i: int|
                    1 <= i < made ==> call_ensures(factory, (), #[trigger] pool.idle()[i]),
            decreases capacity - made,
        {
            let pipeline = factory();
            pool.give_back(pipeline);
            made = made + 1;
        }
        PipelinePool { pool, factory }
    }

    /// Checks out a pipeline: an idle one, or a new one if none is idle.
    pub fn acquire(&mut self) -> (pipeline: P)
        requires
            old(self).well_formed(),
        ensures
            final(self).well_formed(),
            final(self).limit() == old(self).limit(),
            final(self).maker() == old(self).maker(),
            old(self).idle().len() > 0 ==> pipeline == old(self).idle().last()
                && final(self).idle() == old(self).idle().drop_last(),
            old(self).idle().len() == 0 ==> call_ensures(old(self).maker(), (), pipeline)
                && final(self).idle() == old(self).idle(),
    {
        match self.pool.take() {
            Some(pipeline) => pipeline,
            None => (self.factory)(),
        }
    }

    /// Returns a pipeline: it is kept if there is room for it, and dropped
    /// otherwise.
    pub fn release(&mut self, pipeline: P)
        requires
            old(self).well_formed(),
        ensures
            final(self).well_formed(),
            final(self).limit() == old(self).limit(),
            final(self).maker() == old(self).maker(),
            final(self).idle() == (if old(self).idle().len() < old(self).limit() {
                old(self).idle().push(pipeline)
            } else {
                old(self).idle()
            }),
    {
        self.pool.give_back(pipeline);
    }

    /// The number of idle pipelines.
    pub fn idle_count(&self) -> (count: usize)
        ensures
            count == self.idle().len(),
    {
        self.pool.idle_count()
    }
}

/// Law: a pipeline that is checked out of a pool with idle ones and returned
/// leaves the pool as it was.
pub proof fn law_acquire_then_release<P, F: Fn() -> P>(
    before: PipelinePool<P, F>,
    out: PipelinePool<P, F>,
    after: PipelinePool<P, F>,
    pipeline: P,
)
    requires
        before.well_formed(),
        before.idle().len() > 0,
        pipeline == before.idle().last(),
        out.idle() == before.idle().drop_last(),
        out.limit() == before.limit(),
        after.idle() == (if out.idle().len() < out.limit() {
            out.idle().push(pipeline)
        } else {
            out.idle()
        }),
    ensures
        after.idle() == before.idle(),
{
    assert(after.idle() =~= before.idle());
}

/// Law: a pool keeps as many as it is told to, and one at least.
pub proof fn law_at_least_one(capacity: usize)
    ensures
        at_least_one(capacity) >= 1,
        capacity >= 1 ==> at_least_one(capacity) == capacity,
        at_least_one(0) == 1,
{
}

/// Law: a pool is as it should be exactly if it may keep one and keeps no more
/// than it may.
pub proof fn law_bounded_pool<T>(pool: IdlePool<T>)
    ensures
        pool.well_formed() <==> 1 <= pool.limit() && pool.idle().len() <= pool.limit(),
{
}

} // verus!
