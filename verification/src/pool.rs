//! The dispatch worker pool: `size` background workers, each owning a
//! private generator bound to a disjoint slice of the node field, served
//! over a request/reply queue. Identifiers from different workers can never
//! collide because each worker's node value carries its pool index.

use vstd::prelude::*;

verus! {

use crate::Clock;
use crate::Error;
use crate::Generator;
use crate::GeneratorOptions;
use crate::bitmask;
use crate::max;
use crate::pack;
use crate::unpack_node;
use crate::unpack_seq;
use crate::unpack_ts;
use crate::lemma_round_trip;
use vstd::arithmetic::power2::pow2;
use vstd::arithmetic::power2::lemma_pow2_adds;
use vstd::arithmetic::power2::lemma_pow2_pos;
use vstd::arithmetic::power2::lemma2_to64;
use vstd::arithmetic::power2::lemma2_to64_rest;
use vstd::arithmetic::div_mod::lemma_div_denominator;
use vstd::arithmetic::div_mod::lemma_fundamental_div_mod_converse;
use vstd::arithmetic::div_mod::lemma_mod_bound;
use vstd::arithmetic::div_mod::lemma_mod_breakdown;
use vstd::arithmetic::div_mod::lemma_mod_multiples_vanish;
use vstd::arithmetic::div_mod::lemma_small_mod;
use vstd::arithmetic::mul::lemma_mul_inequality;
use vstd::arithmetic::mul::lemma_mul_is_distributive_sub_other_way;
use vstd::bits::low_bits_mask;
use vstd::bits::lemma_u64_low_bits_mask_is_mod;
use vstd::bits::lemma_u64_pow2_no_overflow;
use vstd::bits::lemma_u64_shl_is_mul;
use vstd::bits::lemma_u64_shr_is_div;

/// Describes a dispatch or checkout pool: four field widths (timestamp,
/// pool, node, sequence), the epoch offset, the node number shared by every
/// worker, and the clock.
pub struct GeneratorPoolOptions {
    /// Widths in bits of the timestamp, pool, node and sequence fields.
    pub bits: (u8, u8, u8, u8),
    /// Epoch offset, in the clock's tick unit.
    pub base_ts: u64,
    /// Node number shared by the pool's workers.
    pub node: u64,
    /// The time source read by every worker.
    pub time_fn: Clock,
}

impl Clone for GeneratorPoolOptions {
    /// The copy reads the same clock and keeps every configured value.
    fn clone(&self) -> (r: Self)
        ensures
            r.bits == self.bits,
            r.base_ts == self.base_ts,
            r.node == self.node,
    {
        GeneratorPoolOptions {
            bits: self.bits,
            base_ts: self.base_ts,
            node: self.node,
            time_fn: self.time_fn.clone(),
        }
    }
}

impl GeneratorPoolOptions {
    /// Width of the timestamp field.
    pub open spec fn ts_bits(&self) -> nat {
        self.bits.0 as nat
    }

    /// Width of the pool-index field.
    pub open spec fn pool_bits(&self) -> nat {
        self.bits.1 as nat
    }

    /// Width of the node field.
    pub open spec fn node_bits(&self) -> nat {
        self.bits.2 as nat
    }

    /// Width of the sequence field.
    pub open spec fn seq_bits(&self) -> nat {
        self.bits.3 as nat
    }

    /// A usable pool configuration: the four widths split the 64-bit word
    /// with a non-degenerate timestamp field, and the epoch offset and node
    /// number fit their fields.
    pub open spec fn wf(&self) -> bool {
        &&& self.bits.0 + self.bits.1 + self.bits.2 + self.bits.3 == 64
        &&& 1 <= self.bits.0 <= 63
        &&& self.base_ts < pow2(self.ts_bits())
        &&& self.node < pow2(self.node_bits())
    }
}

impl Default for GeneratorPoolOptions {
    /// The default split 42/4/6/12, epoch 2017-01-01T00:00:00Z in
    /// milliseconds, node 0, and the system clock in milliseconds.
    fn default() -> (r: Self)
        ensures
            r.bits == (42u8, 4u8, 6u8, 12u8),
            r.base_ts == 1483228800000u64,
            r.node == 0u64,
            r.wf(),
    {
        proof {
            lemma2_to64();
            lemma2_to64_rest();
        }
        GeneratorPoolOptions {
            bits: (42, 4, 6, 12),
            base_ts: 1483228800000,
            node: 0,
            time_fn: Clock::system(),
        }
    }
}

impl GeneratorPoolOptions {
    /// Sets the four field widths. The widths must split the word and the
    /// already-set epoch offset and node number must fit the new fields.
    pub fn bits(self, ts_bits: u8, pool_bits: u8, node_bits: u8, seq_bits: u8) -> (r: Self)
        requires
            ts_bits + pool_bits + node_bits + seq_bits == 64,
            1 <= ts_bits <= 63,
            self.base_ts < pow2(ts_bits as nat),
            self.node < pow2(node_bits as nat),
        ensures
            r.bits == (ts_bits, pool_bits, node_bits, seq_bits),
            r.base_ts == self.base_ts,
            r.node == self.node,
            r.time_fn == self.time_fn,
            r.wf(),
    {
        GeneratorPoolOptions { bits: (ts_bits, pool_bits, node_bits, seq_bits), ..self }
    }

    /// Sets the epoch offset, which must fit the already-set timestamp field.
    pub fn base_ts(self, base_ts: u64) -> (r: Self)
        requires
            base_ts < pow2(self.ts_bits()),
        ensures
            r.bits == self.bits,
            r.base_ts == base_ts,
            r.node == self.node,
            r.time_fn == self.time_fn,
    {
        GeneratorPoolOptions { base_ts, ..self }
    }

    /// Sets the node number, which must fit the already-set node field.
    pub fn node(self, node: u64) -> (r: Self)
        requires
            node < pow2(self.node_bits()),
        ensures
            r.bits == self.bits,
            r.base_ts == self.base_ts,
            r.node == node,
            r.time_fn == self.time_fn,
    {
        GeneratorPoolOptions { node, ..self }
    }

    /// Replaces the clock; the widths, epoch offset and node are kept.
    pub fn time_fn<F: Fn() -> u64 + Send + Sync + 'static>(self, f: F) -> (r: Self)
        ensures
            r.bits == self.bits,
            r.base_ts == self.base_ts,
            r.node == self.node,
    {
        GeneratorPoolOptions { time_fn: Clock::from_fn(f), ..self }
    }

    /// Whether this pool configuration is usable. Lets an unverified caller
    /// test validity at run time.
    pub fn is_valid(&self) -> (r: bool)
        ensures
            r == self.wf(),
    {
        let (ts_bits, pool_bits, node_bits, seq_bits) = self.bits;
        let total: u64 = ts_bits as u64 + pool_bits as u64 + node_bits as u64 + seq_bits as u64;
        if !(total == 64 && 1 <= ts_bits && ts_bits <= 63) {
            return false;
        }
        if self.base_ts > max(ts_bits) {
            return false;
        }
        if self.node > max(node_bits) {
            return false;
        }
        proof {
            lemma_pow2_pos(ts_bits as nat);
            lemma_pow2_pos(node_bits as nat);
        }
        true
    }
}

/// The node value run by the worker at `index`: the index in the pool slice
/// of the node field, the configured node number below it.
pub open spec fn worker_node(opts: GeneratorPoolOptions, index: int) -> int {
    index * pow2(opts.node_bits()) as int + opts.node
}

/// Whether `g` is the generator configuration of the worker at `index` in a
/// pool configured by `opts`: merged pool-and-node widths, the same epoch
/// offset, and the worker's disjoint slice of the node field.
pub open spec fn is_pool_worker(opts: GeneratorPoolOptions, g: GeneratorOptions, index: int) -> bool {
    &&& g.bits.0 == opts.bits.0
    &&& g.bits.1 == opts.bits.1 + opts.bits.2
    &&& g.bits.2 == opts.bits.3
    &&& g.base_ts == opts.base_ts
    &&& g.node == worker_node(opts, index)
}

/// The timestamp field of a pool identifier.
pub open spec fn unpack_pool_ts(opts: GeneratorPoolOptions, id: u64) -> int {
    id as int / pow2((opts.bits.1 + opts.bits.2 + opts.bits.3) as nat) as int
}

/// The pool-index field of a pool identifier.
pub open spec fn unpack_pool_index(opts: GeneratorPoolOptions, id: u64) -> int {
    (id as int / pow2((opts.bits.2 + opts.bits.3) as nat) as int) % pow2(opts.pool_bits()) as int
}

/// The node field of a pool identifier.
pub open spec fn unpack_pool_node(opts: GeneratorPoolOptions, id: u64) -> int {
    (id as int / pow2(opts.seq_bits()) as int) % pow2(opts.node_bits()) as int
}

/// The sequence field of a pool identifier.
pub open spec fn unpack_pool_seq(opts: GeneratorPoolOptions, id: u64) -> int {
    id as int % pow2(opts.seq_bits()) as int
}

/// Splitting a remainder: taking a value below `y * z` apart at position
/// `y` divides it into its upper `z`-range part and its lower `y`-range
/// part.
proof fn lemma_split_field(x: int, y: int, z: int)
    requires
        0 <= x,
        0 < y,
        0 < z,
    ensures
        (x % (y * z)) / y == (x / y) % z,
        (x % (y * z)) % y == x % y,
{
    lemma_mod_breakdown(x, y, z);
    lemma_mod_bound(x, y);
    lemma_mod_bound(x / y, z);
    vstd::arithmetic::mul::lemma_mul_is_commutative(y, (x / y) % z);
    lemma_fundamental_div_mod_converse(x % (y * z), y, (x / y) % z, x % y);
}

/// The worker-node computed by shift-and-mask equals the arithmetic form
/// and fits the merged pool-and-node field.
proof fn lemma_worker_node_exec(b1: u64, b2: u64, i: u64, node: u64)
    requires
        b1 + b2 <= 63,
        i < pow2(b1 as nat),
        node < pow2(b2 as nat),
    ensures
        ((i << b2) & (u64::MAX << b2)) | (node & !(u64::MAX << b2)) == i * pow2(b2 as nat) + node,
        i * pow2(b2 as nat) + node < pow2((b1 + b2) as nat),
{
    lemma_u64_pow2_no_overflow(b1 as nat);
    lemma_u64_pow2_no_overflow(b2 as nat);
    lemma_u64_pow2_no_overflow((b1 + b2) as nat);
    lemma_u64_shl_is_mul(1u64, b1);
    lemma_u64_shl_is_mul(1u64, b2);
    let pb1 = 1u64 << b1;
    let pb2 = 1u64 << b2;
    // Bit-level: the two masked parts occupy disjoint bits and add exactly.
    assert(((i << b2) & (u64::MAX << b2)) | (node & !(u64::MAX << b2)) == (i << b2) + node)
        by (bit_vector)
        requires
            b1 + b2 <= 63u64,
            pb1 == 1u64 << b1,
            pb2 == 1u64 << b2,
            i < pb1,
            node < pb2,
    ;
    // Arithmetic: the shift is a multiplication and the sum stays in range.
    lemma_pow2_adds(b1 as nat, b2 as nat);
    lemma_mul_inequality(i as int, pow2(b1 as nat) - 1, pow2(b2 as nat) as int);
    lemma_mul_is_distributive_sub_other_way(pow2(b2 as nat) as int, pow2(b1 as nat) as int, 1);
    lemma_u64_shl_is_mul(i, b2);
}

/// Law: a worker's identifier decodes to its own pool index, the shared
/// node number, and the elapsed ticks and sequence it was packed from —
/// `extract` recovers exactly which worker produced an identifier, so
/// distinct workers can never produce equal identifiers.
pub proof fn lemma_pool_round_trip(
    opts: GeneratorPoolOptions,
    gopts: GeneratorOptions,
    index: int,
    elapsed: int,
    seq: int,
)
    requires
        opts.wf(),
        is_pool_worker(opts, gopts, index),
        0 <= index < pow2(opts.pool_bits()),
        0 <= elapsed < pow2(opts.ts_bits()),
        0 <= seq < pow2(opts.seq_bits()),
    ensures
        unpack_pool_ts(opts, pack(gopts, elapsed, seq) as u64) == elapsed,
        unpack_pool_index(opts, pack(gopts, elapsed, seq) as u64) == index,
        unpack_pool_node(opts, pack(gopts, elapsed, seq) as u64) == opts.node,
        unpack_pool_seq(opts, pack(gopts, elapsed, seq) as u64) == seq,
{
    let b1 = opts.pool_bits();
    let b2 = opts.node_bits();
    let b3 = opts.seq_bits();
    let pb1 = pow2(b1) as int;
    let pb2 = pow2(b2) as int;
    let pb3 = pow2(b3) as int;
    lemma_pow2_pos(b1);
    lemma_pow2_pos(b2);
    lemma_pow2_pos(b3);
    lemma_pow2_adds(b1, b2);
    lemma_pow2_adds(b2, b1);
    lemma_pow2_adds(b2, b3);
    lemma_pow2_adds(b3, b2);
    // The merged node value fits its field, so the generator round trip
    // applies.
    lemma_mul_inequality(index, pb1 - 1, pb2);
    lemma_mul_is_distributive_sub_other_way(pb2, pb1, 1);
    assert(gopts.wf());
    lemma_round_trip(gopts, elapsed, seq);
    let id = pack(gopts, elapsed, seq) as u64;
    // The three-field decode agrees with the four-field one on timestamp
    // and sequence outright.
    assert(unpack_pool_ts(opts, id) == unpack_ts(gopts, id));
    assert(unpack_pool_seq(opts, id) == unpack_seq(gopts, id));
    // The merged node field splits at the node width into index and node.
    let x = id as int / pb3;
    vstd::arithmetic::div_mod::lemma_div_pos_is_pos(id as int, pb3);
    lemma_split_field(x, pb2, pb1);
    assert(x % (pb2 * pb1) == worker_node(opts, index));
    lemma_fundamental_div_mod_converse(worker_node(opts, index), pb2, index, opts.node as int);
    lemma_mod_multiples_vanish(index, opts.node as int, pb2);
    lemma_small_mod(opts.node as nat, pow2(b2));
    lemma_small_mod(index as nat, pow2(b1));
    // The pool index is the upper split of the quotient past the sequence.
    lemma_div_denominator(id as int, pb3, pb2);
    assert((opts.bits.2 + opts.bits.3) as nat == b2 + b3);
    assert(unpack_pool_index(opts, id) == (x / pb2) % pb1);
    assert(unpack_pool_node(opts, id) == x % pb2);
}

/// Declares crossbeam's channel sender so that it can stand in fields and
/// trusted calls; a value of it is opaque to the verifier.
#[verifier::external_type_specification]
#[verifier::external_body]
#[verifier::reject_recursive_types(T)]
pub struct ExSender<T>(crossbeam::channel::Sender<T>);

/// Declares crossbeam's channel receiver.
#[verifier::external_type_specification]
#[verifier::external_body]
#[verifier::reject_recursive_types(T)]
pub struct ExReceiver<T>(crossbeam::channel::Receiver<T>);

/// Declares crossbeam's send error, which carries the undelivered message.
#[verifier::external_type_specification]
#[verifier::external_body]
#[verifier::reject_recursive_types(T)]
pub struct ExSendError<T>(crossbeam::channel::SendError<T>);

/// Declares crossbeam's receive error.
#[verifier::external_type_specification]
#[verifier::external_body]
pub struct ExRecvError(crossbeam::channel::RecvError);

/// Relies on crossbeam's `unbounded`: a connected sender/receiver pair over
/// a new queue without capacity bound, so sending never blocks.
#[verifier::external_body]
fn channel_unbounded<T>() -> (crossbeam::channel::Sender<T>, crossbeam::channel::Receiver<T>) {
    crossbeam::channel::unbounded()
}

/// Relies on crossbeam's `Sender::send`: appends the message to the queue,
/// or fails once every receiver is gone. Which callers' messages interleave
/// is outside this library's control, so nothing more is stated.
#[verifier::external_body]
fn channel_send<T>(tx: &crossbeam::channel::Sender<T>, msg: T) -> Result<
    (),
    crossbeam::channel::SendError<T>,
> {
    tx.send(msg)
}

/// Relies on crossbeam's `Receiver::recv`: blocks until a message arrives
/// and yields it, or fails once the queue is empty and every sender is
/// gone. Which message arrives is outside this library's control.
#[verifier::external_body]
fn channel_recv<T>(rx: &crossbeam::channel::Receiver<T>) -> Result<
    T,
    crossbeam::channel::RecvError,
> {
    rx.recv()
}

/// Relies on crossbeam's `Receiver::clone`: another receiving handle on the
/// same queue; each message is delivered to exactly one handle.
#[verifier::external_body]
fn channel_receiver_clone<T>(rx: &crossbeam::channel::Receiver<T>) -> crossbeam::channel::Receiver<
    T,
> {
    rx.clone()
}

/// A request to a worker: generate one identifier and reply on the carried
/// channel.
pub enum Message {
    /// Generate one identifier and send the outcome to this channel.
    Job(crossbeam::channel::Sender<Result<u64, Error>>),
}

impl GeneratorPoolOptions {
    /// The three-field configuration a pooled generator runs: the pool and
    /// node fields merge into one node field, to be assigned per worker.
    pub fn generator_opts(&self) -> (r: GeneratorOptions)
        requires
            self.wf(),
        ensures
            r.bits.0 == self.bits.0,
            r.bits.1 == self.bits.1 + self.bits.2,
            r.bits.2 == self.bits.3,
            r.base_ts == self.base_ts,
            r.node == 0,
            r.wf(),
    {
        proof {
            lemma_pow2_pos((self.bits.1 + self.bits.2) as nat);
        }
        GeneratorOptions {
            bits: (self.bits.0, self.bits.1 + self.bits.2, self.bits.3),
            base_ts: self.base_ts,
            node: 0,
            time_fn: self.time_fn.clone(),
        }
    }

    /// The configuration of the worker at `index`: the merged node field
    /// holds the worker's pool index above the shared node number, so
    /// distinct workers hold disjoint node values and can never collide.
    pub fn worker_opts(&self, index: usize) -> (r: GeneratorOptions)
        requires
            self.wf(),
            index < pow2(self.pool_bits()),
        ensures
            is_pool_worker(*self, r, index as int),
            r.wf(),
    {
        let (_, pool_bits, node_bits, _) = self.bits;
        let pool_mask = bitmask(node_bits);
        let node_mask = max(node_bits);
        let wnode = (((index as u64) << (node_bits as u64)) & pool_mask) | (self.node & node_mask);
        proof {
            lemma_worker_node_exec(pool_bits as u64, node_bits as u64, index as u64, self.node);
        }
        self.generator_opts().node(wnode)
    }

    /// Decodes a pool identifier into its `(elapsed, pool index, node,
    /// sequence)` fields. Pure: decoding needs only the field widths, not
    /// the worker that produced the identifier.
    pub fn extract(&self, id: u64) -> (r: (u64, u64, u64, u64))
        requires
            self.wf(),
        ensures
            r.0 == unpack_pool_ts(*self, id),
            r.1 == unpack_pool_index(*self, id),
            r.2 == unpack_pool_node(*self, id),
            r.3 == unpack_pool_seq(*self, id),
    {
        let g = Generator::new(self.generator_opts());
        let (_, pool_bits, node_bits, _) = self.bits;
        let (ts, poolnode, seq) = g.extract(id);
        let pool = (poolnode >> (node_bits as u64)) & max(pool_bits);
        let node = poolnode & max(node_bits);
        proof {
            lemma_split_extract(*self, g.opts, id, poolnode);
        }
        (ts, pool, node, seq)
    }
}

/// One round of a pool worker's service loop: wait for a job on the shared
/// queue and reply with the outcome of one generation step of the worker's
/// private generator. Returns whether the queue is still open; the caller
/// loops until it is not.
pub fn serve_one(generator: &mut Generator, rx: &crossbeam::channel::Receiver<Message>) -> (more:
    bool)
    requires
        old(generator).wf(),
    ensures
        final(generator).wf(),
        final(generator).opts == old(generator).opts,
        !more ==> *final(generator) == *old(generator),
{
    match channel_recv(rx) {
        Ok(msg) => {
            match msg {
                Message::Job(reply) => {
                    let out = generator.generate();
                    let _ = channel_send(&reply, out);
                },
            }
            true
        },
        Err(_) => false,
    }
}

/// One request against a worker queue: enqueue a job with a fresh reply
/// channel and wait for the outcome. A closed queue or reply channel is
/// reported as a delivery fault, never as an identifier; the identifier
/// itself arrives over a channel, outside the verifier's sight.
pub fn request_id(tx: &crossbeam::channel::Sender<Message>) -> Result<u64, Error> {
    let (reply_tx, reply_rx) = channel_unbounded::<Result<u64, Error>>();
    match channel_send(tx, Message::Job(reply_tx)) {
        Ok(_) => {},
        Err(_) => {
            return Err(Error::DeliveryFailed);
        },
    }
    match channel_recv(&reply_rx) {
        Ok(out) => out,
        Err(_) => Err(Error::DeliveryFailed),
    }
}

/// Opens the unbounded job queue a pool serves: the sending half for the
/// pool handle, the receiving half to be cloned into each worker.
pub fn job_queue() -> (crossbeam::channel::Sender<Message>, crossbeam::channel::Receiver<Message>) {
    channel_unbounded::<Message>()
}

/// Another receiving handle on a job queue, for one more worker.
pub fn job_queue_handle(rx: &crossbeam::channel::Receiver<Message>) -> crossbeam::channel::Receiver<
    Message,
> {
    channel_receiver_clone(rx)
}

/// The exec split of the merged pool-and-node field agrees with the
/// four-field decode.
proof fn lemma_split_extract(
    opts: GeneratorPoolOptions,
    gopts: GeneratorOptions,
    id: u64,
    poolnode: u64,
)
    requires
        opts.wf(),
        gopts.bits.0 == opts.bits.0,
        gopts.bits.1 == opts.bits.1 + opts.bits.2,
        gopts.bits.2 == opts.bits.3,
        poolnode == unpack_node(gopts, id),
    ensures
        unpack_ts(gopts, id) == unpack_pool_ts(opts, id),
        unpack_seq(gopts, id) == unpack_pool_seq(opts, id),
        (poolnode >> (opts.bits.2 as u64)) & ((pow2(opts.pool_bits()) - 1) as u64)
            == unpack_pool_index(opts, id),
        poolnode & ((pow2(opts.node_bits()) - 1) as u64) == unpack_pool_node(opts, id),
{
    let b1 = opts.pool_bits();
    let b2 = opts.node_bits();
    let b3 = opts.seq_bits();
    let pb1 = pow2(b1) as int;
    let pb2 = pow2(b2) as int;
    let pb3 = pow2(b3) as int;
    lemma_pow2_pos(b1);
    lemma_pow2_pos(b2);
    lemma_pow2_pos(b3);
    lemma_u64_pow2_no_overflow(b1);
    lemma_u64_pow2_no_overflow(b2);
    lemma_pow2_adds(b2, b1);
    lemma_pow2_adds(b3, b2);
    let x = id as int / pb3;
    vstd::arithmetic::div_mod::lemma_div_pos_is_pos(id as int, pb3);
    // poolnode holds the merged field: split it at the node width.
    lemma_split_field(x, pb2, pb1);
    assert(poolnode == x % (pb2 * pb1));
    // The lower part is the node field.
    lemma_u64_low_bits_mask_is_mod(poolnode, b2);
    assert(poolnode & (low_bits_mask(b2) as u64) == poolnode as int % pb2);
    // The upper part is the pool index.
    lemma_u64_shr_is_div(poolnode, opts.bits.2 as u64);
    assert(poolnode >> (opts.bits.2 as u64) == poolnode as int / pb2);
    lemma_mod_bound(x / pb2, pb1);
    lemma_u64_low_bits_mask_is_mod((poolnode >> (opts.bits.2 as u64)) as u64, b1);
    lemma_small_mod(((x / pb2) % pb1) as nat, pow2(b1));
    lemma_div_denominator(id as int, pb3, pb2);
    assert((opts.bits.2 + opts.bits.3) as nat == b2 + b3);
}

} // verus!
