//! The shared-lock wrapper: one generator behind an exclusive lock, for use
//! from many threads. Every caller sees one global stream of identifiers;
//! the lock guarantees that the generator's state is only ever advanced by
//! one holder at a time.

use vstd::prelude::*;

verus! {

use crate::Error;
use crate::Generator;
use crate::GeneratorOptions;
use crate::step;
use crate::unpack_node;
use crate::unpack_seq;
use crate::unpack_ts;
use vstd::rwlock::RwLock;
use vstd::rwlock::RwLockPredicate;

/// The lock invariant: whatever generator sits behind the lock is usable
/// and runs the configuration the wrapper was built with.
pub struct GeneratorInv {
    /// The configuration every state behind the lock carries.
    pub opts: GeneratorOptions,
}

impl RwLockPredicate<Generator> for GeneratorInv {
    open spec fn inv(self, g: Generator) -> bool {
        g.wf() && g.opts == self.opts
    }
}

/// One generator behind an exclusive lock. `generate` acquires the lock,
/// advances the generator and releases it, on the fault paths too.
pub struct SharedGenerator {
    lock: RwLock<Generator, GeneratorInv>,
}

impl SharedGenerator {
    /// The configuration this wrapper was built with.
    pub closed spec fn spec_opts(&self) -> GeneratorOptions {
        self.lock.pred().opts
    }

    /// Wraps a fresh generator on `opts` behind a lock.
    pub fn new(opts: GeneratorOptions) -> (s: SharedGenerator)
        requires
            opts.wf(),
        ensures
            s.spec_opts() == opts,
    {
        let ghost pred = GeneratorInv { opts };
        let g = Generator::new(opts);
        SharedGenerator { lock: RwLock::new(g, Ghost(pred)) }
    }

    /// One generation step under the lock: the outcome is a [`step`] of a
    /// usable generator carrying this wrapper's configuration, on whatever
    /// reading the clock produced.
    pub fn generate(&self) -> (r: Result<u64, Error>)
        ensures
            exists|g: Generator, now: u64|
                g.wf() && g.opts == self.spec_opts() && (#[trigger] step(g, now)).1 == r,
    {
        let (mut g, handle) = self.lock.acquire_write();
        let ghost g0 = g;
        let r = g.generate();
        proof {
            let now0 = choose|now: u64| (g, r) == #[trigger] step(g0, now);
            assert(g0.wf() && g0.opts == self.spec_opts() && step(g0, now0).1 == r);
        }
        handle.release_write(g);
        r
    }

    /// Decodes an identifier under this wrapper's configuration; takes the
    /// lock only to read the field widths.
    pub fn extract(&self, id: u64) -> (r: (u64, u64, u64))
        ensures
            r.0 == unpack_ts(self.spec_opts(), id),
            r.1 == unpack_node(self.spec_opts(), id),
            r.2 == unpack_seq(self.spec_opts(), id),
    {
        let handle = self.lock.acquire_read();
        let r = handle.borrow().extract(id);
        handle.release_read();
        r
    }
}

} // verus!
