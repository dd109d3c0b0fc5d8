//! The checkout pool core: a first-in-first-out queue of pre-partitioned
//! generators. A caller borrows one exclusively and returns it when done;
//! up to the pool's size borrows proceed at once, and the next caller has
//! to wait until a generator comes back. The waiting itself is a blocking
//! concern for the host; this core decides exactly when a borrow succeeds.

use vstd::prelude::*;

verus! {

use crate::Generator;
use crate::pool::GeneratorPoolOptions;
use crate::pool::is_pool_worker;
use crate::pool::unpack_pool_index;
use crate::pool::unpack_pool_node;
use crate::pool::unpack_pool_seq;
use crate::pool::unpack_pool_ts;
use vstd::arithmetic::power2::pow2;

/// A pool of `size` independent generators, held in a FIFO queue while not
/// borrowed. Each slot's generator carries its slot index in the pool
/// field, so concurrent borrowers can never produce equal identifiers.
pub struct CheckoutPool {
    /// The generators currently available, oldest first.
    pub free: Vec<Generator>,
    /// Number of generators owned by the pool, borrowed or not.
    pub size: usize,
    /// The frozen pool configuration.
    pub opts: GeneratorPoolOptions,
}

impl CheckoutPool {
    /// The generators currently available, oldest first.
    pub open spec fn spec_free(&self) -> Seq<Generator> {
        self.free@
    }

    /// A usable pool: a usable configuration, no more generators queued
    /// than the pool owns, and every queued generator usable.
    pub open spec fn wf(&self) -> bool {
        &&& self.opts.wf()
        &&& self.spec_free().len() <= self.size
        &&& forall|i: int|
            0 <= i < self.spec_free().len() ==> (#[trigger] self.spec_free()[i]).wf()
    }

    /// How many generators can be borrowed right now without waiting.
    pub fn available(&self) -> (n: usize)
        ensures
            n == self.spec_free().len(),
    {
        self.free.len()
    }

    /// A pool of `size` fresh generators, the one at slot `index` bound to
    /// the disjoint node value `worker_node(opts, index)`.
    pub fn new(size: usize, opts: GeneratorPoolOptions) -> (p: CheckoutPool)
        requires
            opts.wf(),
            size <= pow2(opts.pool_bits()),
        ensures
            p.wf(),
            p.size == size,
            p.opts == opts,
            p.spec_free().len() == size,
            forall|i: int|
                0 <= i < size ==> is_pool_worker(opts, (#[trigger] p.spec_free()[i]).opts, i)
                    && p.spec_free()[i].last_ts == 0 && p.spec_free()[i].seq == 0,
    {
        let mut free: Vec<Generator> = Vec::new();
        let mut i: usize = 0;
        while i < size
            invariant
                opts.wf(),
                size <= pow2(opts.pool_bits()),
                i <= size,
                free@.len() == i,
                forall|j: int| 0 <= j < free@.len() ==> (#[trigger] free@[j]).wf(),
                forall|j: int|
                    0 <= j < free@.len() ==> is_pool_worker(opts, (#[trigger] free@[j]).opts, j)
                        && free@[j].last_ts == 0 && free@[j].seq == 0,
            decreases size - i,
        {
            let w = opts.worker_opts(i);
            free.push(Generator::new(w));
            i = i + 1;
        }
        CheckoutPool { free, size, opts }
    }

    /// Borrows the oldest available generator exclusively, or reports that
    /// none is available — exactly when the queue is empty — so the caller
    /// must wait for a return.
    pub fn try_get_generator(&mut self) -> (r: Option<Generator>)
        requires
            old(self).wf(),
        ensures
            final(self).wf(),
            final(self).opts == old(self).opts,
            final(self).size == old(self).size,
            old(self).spec_free().len() == 0 ==> r is None && *final(self) == *old(self),
            old(self).spec_free().len() > 0 ==> r == Some(old(self).spec_free()[0])
                && old(self).spec_free()[0].wf() && final(self).spec_free() == old(
                self,
            ).spec_free().skip(1),
    {
        if self.free.len() == 0 {
            None
        } else {
            Some(self.free.remove(0))
        }
    }

    /// Returns a borrowed generator to the back of the queue, making one
    /// more borrow possible.
    pub fn return_generator(&mut self, g: Generator)
        requires
            old(self).wf(),
            g.wf(),
            old(self).spec_free().len() < old(self).size,
        ensures
            final(self).wf(),
            final(self).opts == old(self).opts,
            final(self).size == old(self).size,
            final(self).spec_free() == old(self).spec_free().push(g),
    {
        self.free.push(g);
    }

    /// Decodes a pool identifier into its `(elapsed, pool index, node,
    /// sequence)` fields. Decoding needs only the configuration, not the
    /// slot that produced the identifier.
    pub fn extract(&self, id: u64) -> (r: (u64, u64, u64, u64))
        requires
            self.wf(),
        ensures
            r.0 == unpack_pool_ts(self.opts, id),
            r.1 == unpack_pool_index(self.opts, id),
            r.2 == unpack_pool_node(self.opts, id),
            r.3 == unpack_pool_seq(self.opts, id),
    {
        self.opts.extract(id)
    }
}

} // verus!
