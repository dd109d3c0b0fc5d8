//! Process-local, coordination-free 64-bit identifier generation in the
//! Snowflake style: each identifier packs, from most- to least-significant
//! bits, the ticks elapsed since a configured epoch, an operator-assigned
//! node number, and a per-tick sequence counter, with configurable widths.
//!
//! The packing codec and the generator state machine are verified: contracts
//! pin down the exact value of every identifier and the exact conditions under
//! which a fault is reported instead.

use vstd::prelude::*;

pub mod checkout;
pub mod clock;
pub mod pool;
pub mod shared;

pub use checkout::CheckoutPool;
pub use clock::Clock;
pub use pool::GeneratorPoolOptions;
pub use shared::SharedGenerator;

verus! {

use vstd::arithmetic::power2::pow2;
use vstd::arithmetic::power2::lemma_pow2_adds;
use vstd::arithmetic::power2::lemma_pow2_pos;
use vstd::arithmetic::power2::lemma2_to64;
use vstd::arithmetic::power2::lemma2_to64_rest;
use vstd::arithmetic::div_mod::lemma_fundamental_div_mod_converse;
use vstd::arithmetic::div_mod::lemma_mod_bound;
use vstd::arithmetic::div_mod::lemma_mod_multiples_vanish;
use vstd::arithmetic::div_mod::lemma_small_mod;
use vstd::arithmetic::div_mod::lemma_multiply_divide_lt;
use vstd::arithmetic::mul::lemma_mul_inequality;
use vstd::arithmetic::mul::lemma_mul_is_associative;
use vstd::arithmetic::mul::lemma_mul_is_distributive_add_other_way;
use vstd::arithmetic::mul::lemma_mul_is_distributive_sub_other_way;
use vstd::bits::low_bits_mask;
use vstd::bits::lemma_u64_pow2_no_overflow;
use vstd::bits::lemma_u64_shl_is_mul;
use vstd::bits::lemma_u64_shr_is_div;
use vstd::bits::lemma_u64_low_bits_mask_is_mod;

/// The faults this library reports instead of panicking: configuration
/// faults, per-call generation faults, and delivery faults of the
/// message-passing wrappers.
#[derive(Clone, Copy, Debug, PartialEq, Eq, Structural)]
pub enum Error {
    /// Field widths do not describe a usable 64-bit split.
    FieldWidthMismatch,
    /// The epoch offset does not fit the timestamp field.
    BaseExceedsWidth,
    /// The node number does not fit the node field.
    NodeExceedsWidth,
    /// The clock read a time at or before the configured epoch.
    ClockBeforeEpoch,
    /// The clock read a time earlier than the last observed tick.
    ClockRegression,
    /// The sequence counter overflowed its field within one tick.
    SequenceExhausted,
    /// A reply channel closed before a response was delivered.
    DeliveryFailed,
}

/// A mask of ones above bit `shift`: the complement of the low `shift` bits.
pub fn bitmask(shift: u8) -> (r: u64)
    requires
        shift < 64,
    ensures
        r == pow2(64) - pow2(shift as nat),
        r == u64::MAX << (shift as u64),
{
    let s: u64 = shift as u64;
    proof {
        lemma_u64_pow2_no_overflow(s as nat);
        lemma_u64_shl_is_mul(1u64, s);
        lemma2_to64();
        lemma2_to64_rest();
        assert(u64::MAX << s == u64::MAX - ((1u64 << s) - 1)) by (bit_vector)
            requires
                s < 64u64,
        ;
    }
    u64::MAX << s
}

/// The largest value that fits in a field `shift` bits wide.
pub fn max(shift: u8) -> (r: u64)
    requires
        shift < 64,
    ensures
        r == pow2(shift as nat) - 1,
        r == !(u64::MAX << (shift as u64)),
{
    let m = bitmask(shift);
    proof {
        lemma_u64_pow2_no_overflow(shift as nat);
        lemma2_to64();
        lemma2_to64_rest();
        assert(!m == u64::MAX - m) by (bit_vector);
    }
    !m
}

/// Describes one generator: the three field widths (timestamp, node,
/// sequence), the epoch offset subtracted from every clock reading, the node
/// number packed into every identifier, and the clock to read.
pub struct GeneratorOptions {
    /// Widths in bits of the timestamp, node and sequence fields.
    pub bits: (u8, u8, u8),
    /// Epoch offset, in the clock's tick unit.
    pub base_ts: u64,
    /// Node number of this generator.
    pub node: u64,
    /// The time source read by `generate`.
    pub time_fn: Clock,
}

impl Clone for GeneratorOptions {
    /// The copy reads the same clock and keeps every configured value.
    fn clone(&self) -> (r: Self)
        ensures
            r.bits == self.bits,
            r.base_ts == self.base_ts,
            r.node == self.node,
    {
        GeneratorOptions {
            bits: self.bits,
            base_ts: self.base_ts,
            node: self.node,
            time_fn: self.time_fn.clone(),
        }
    }
}

impl GeneratorOptions {
    /// Width of the timestamp field.
    pub open spec fn ts_bits(&self) -> nat {
        self.bits.0 as nat
    }

    /// Width of the node field.
    pub open spec fn node_bits(&self) -> nat {
        self.bits.1 as nat
    }

    /// Width of the sequence field.
    pub open spec fn seq_bits(&self) -> nat {
        self.bits.2 as nat
    }

    /// Bit position of the node field: just above the sequence field.
    pub open spec fn node_shift(&self) -> nat {
        self.seq_bits()
    }

    /// Bit position of the timestamp field: above node and sequence.
    pub open spec fn ts_shift(&self) -> nat {
        (self.bits.1 + self.bits.2) as nat
    }

    /// A usable configuration: the widths split the 64-bit word with a
    /// non-degenerate timestamp field, and the epoch offset and node number
    /// fit their fields.
    pub open spec fn wf(&self) -> bool {
        &&& self.bits.0 + self.bits.1 + self.bits.2 == 64
        &&& 1 <= self.bits.0 <= 63
        &&& self.base_ts < pow2(self.ts_bits())
        &&& self.node < pow2(self.node_bits())
    }
}

impl Default for GeneratorOptions {
    /// The default split 42/10/12, epoch 2017-01-01T00:00:00Z in
    /// milliseconds, node 0, and the system clock in milliseconds.
    fn default() -> (r: Self)
        ensures
            r.bits == (42u8, 10u8, 12u8),
            r.base_ts == 1483228800000u64,
            r.node == 0u64,
            r.wf(),
    {
        proof {
            lemma2_to64();
            lemma2_to64_rest();
        }
        GeneratorOptions {
            bits: (42, 10, 12),
            base_ts: 1483228800000,
            node: 0,
            time_fn: Clock::system(),
        }
    }
}

impl GeneratorOptions {
    /// Replaces the clock; the widths, epoch offset and node are kept.
    pub fn time_fn<F: Fn() -> u64 + Send + Sync + 'static>(self, f: F) -> (r: Self)
        ensures
            r.bits == self.bits,
            r.base_ts == self.base_ts,
            r.node == self.node,
    {
        GeneratorOptions { time_fn: Clock::from_fn(f), ..self }
    }

    /// Sets the three field widths. The widths must split the word and the
    /// already-set epoch offset and node number must fit the new fields, so
    /// set those bounds first when narrowing below the defaults.
    pub fn bits(self, ts_bits: u8, node_bits: u8, seq_bits: u8) -> (r: Self)
        requires
            ts_bits + node_bits + seq_bits == 64,
            1 <= ts_bits <= 63,
            self.base_ts < pow2(ts_bits as nat),
            self.node < pow2(node_bits as nat),
        ensures
            r.bits == (ts_bits, node_bits, seq_bits),
            r.base_ts == self.base_ts,
            r.node == self.node,
            r.time_fn == self.time_fn,
            r.wf(),
    {
        GeneratorOptions { bits: (ts_bits, node_bits, seq_bits), ..self }
    }

    /// Sets the epoch offset, which must fit the already-set timestamp field.
    pub fn base_ts(self, base_ts: u64) -> (r: Self)
        requires
            base_ts < pow2(self.ts_bits()),
        ensures
            r.bits == self.bits,
            r.base_ts == base_ts,
            r.node == self.node,
            r.time_fn == self.time_fn,
    {
        GeneratorOptions { base_ts, ..self }
    }

    /// Sets the node number, which must fit the already-set node field.
    pub fn node(self, node: u64) -> (r: Self)
        requires
            node < pow2(self.node_bits()),
        ensures
            r.bits == self.bits,
            r.base_ts == self.base_ts,
            r.node == node,
            r.time_fn == self.time_fn,
    {
        GeneratorOptions { node, ..self }
    }

    /// Whether this configuration is usable: the widths split the word with
    /// a non-degenerate timestamp field and the epoch offset and node fit
    /// their fields. Lets an unverified caller test validity at run time.
    pub fn is_valid(&self) -> (r: bool)
        ensures
            r == self.wf(),
    {
        let (ts_bits, node_bits, seq_bits) = self.bits;
        let total: u64 = ts_bits as u64 + node_bits as u64 + seq_bits as u64;
        if !(total == 64 && 1 <= ts_bits && ts_bits <= 63) {
            return false;
        }
        if self.base_ts > max(ts_bits) {
            return false;
        }
        if self.node > max(node_bits) {
            return false;
        }
        proof {
            lemma_pow2_pos(ts_bits as nat);
            lemma_pow2_pos(node_bits as nat);
        }
        true
    }

    /// Checked form of [`GeneratorOptions::bits`]: reports the configuration
    /// fault instead of demanding validity up front.
    pub fn try_bits(self, ts_bits: u8, node_bits: u8, seq_bits: u8) -> (r: Result<Self, Error>)
        ensures
            r == if !(ts_bits + node_bits + seq_bits == 64 && 1 <= ts_bits <= 63) {
                Err::<GeneratorOptions, Error>(Error::FieldWidthMismatch)
            } else if self.base_ts >= pow2(ts_bits as nat) {
                Err::<GeneratorOptions, Error>(Error::BaseExceedsWidth)
            } else if self.node >= pow2(node_bits as nat) {
                Err::<GeneratorOptions, Error>(Error::NodeExceedsWidth)
            } else {
                Ok::<GeneratorOptions, Error>(
                    GeneratorOptions { bits: (ts_bits, node_bits, seq_bits), ..self },
                )
            },
    {
        let total: u64 = ts_bits as u64 + node_bits as u64 + seq_bits as u64;
        if !(total == 64 && 1 <= ts_bits && ts_bits <= 63) {
            return Err(Error::FieldWidthMismatch);
        }
        if self.base_ts > max(ts_bits) {
            return Err(Error::BaseExceedsWidth);
        }
        if self.node > max(node_bits) {
            return Err(Error::NodeExceedsWidth);
        }
        proof {
            lemma_pow2_pos(ts_bits as nat);
            lemma_pow2_pos(node_bits as nat);
        }
        Ok(self.bits(ts_bits, node_bits, seq_bits))
    }

    /// Checked form of [`GeneratorOptions::base_ts`].
    pub fn try_base_ts(self, base_ts: u64) -> (r: Result<Self, Error>)
        requires
            self.wf(),
        ensures
            r == if base_ts >= pow2(self.ts_bits()) {
                Err::<GeneratorOptions, Error>(Error::BaseExceedsWidth)
            } else {
                Ok::<GeneratorOptions, Error>(GeneratorOptions { base_ts, ..self })
            },
    {
        let (ts_bits, _, _) = self.bits;
        if base_ts > max(ts_bits) {
            return Err(Error::BaseExceedsWidth);
        }
        proof {
            lemma_pow2_pos(ts_bits as nat);
        }
        Ok(self.base_ts(base_ts))
    }

    /// Checked form of [`GeneratorOptions::node`].
    pub fn try_node(self, node: u64) -> (r: Result<Self, Error>)
        requires
            self.wf(),
        ensures
            r == if node >= pow2(self.node_bits()) {
                Err::<GeneratorOptions, Error>(Error::NodeExceedsWidth)
            } else {
                Ok::<GeneratorOptions, Error>(GeneratorOptions { node, ..self })
            },
    {
        let (_, node_bits, _) = self.bits;
        if node > max(node_bits) {
            return Err(Error::NodeExceedsWidth);
        }
        proof {
            lemma_pow2_pos(node_bits as nat);
        }
        Ok(self.node(node))
    }
}

/// The identifier that packs `elapsed` ticks, the configured node number and
/// a sequence value: each field masked to its width and placed at its bit
/// position, read as one number.
pub open spec fn pack(opts: GeneratorOptions, elapsed: int, seq: int) -> int {
    (elapsed % pow2(opts.ts_bits()) as int) * pow2(opts.ts_shift()) as int
        + opts.node * pow2(opts.node_shift()) as int + seq
}

/// The timestamp field of an identifier: its topmost `ts_bits` bits.
pub open spec fn unpack_ts(opts: GeneratorOptions, id: u64) -> int {
    id as int / pow2(opts.ts_shift()) as int
}

/// The node field of an identifier: `node_bits` bits above the sequence.
pub open spec fn unpack_node(opts: GeneratorOptions, id: u64) -> int {
    (id as int / pow2(opts.node_shift()) as int) % pow2(opts.node_bits()) as int
}

/// The sequence field of an identifier: its lowest `seq_bits` bits.
pub open spec fn unpack_seq(opts: GeneratorOptions, id: u64) -> int {
    id as int % pow2(opts.seq_bits()) as int
}

/// Bounds on a packed identifier and on its addends: the timestamp addend
/// leaves room for the node addend, which leaves room for the sequence, so
/// the whole value fits 64 bits.
proof fn lemma_pack_bounds(opts: GeneratorOptions, elapsed: int, seq: int)
    requires
        opts.wf(),
        0 <= elapsed,
        0 <= seq < pow2(opts.seq_bits()),
    ensures
        0 <= pack(opts, elapsed, seq) < pow2(64),
        (elapsed % pow2(opts.ts_bits()) as int) * pow2(opts.ts_shift()) as int <= pow2(64) - pow2(
            opts.ts_shift(),
        ),
        opts.node * pow2(opts.node_shift()) as int <= pow2(opts.ts_shift()) - pow2(
            opts.node_shift(),
        ),
{
    let tb = opts.ts_bits();
    let nb = opts.node_bits();
    let sb = opts.seq_bits();
    let k = opts.ts_shift();
    assert(k == nb + sb);
    lemma_pow2_pos(tb);
    lemma_pow2_pos(nb);
    lemma_pow2_pos(sb);
    lemma_pow2_pos(k);
    lemma_pow2_adds(tb, k);
    lemma_pow2_adds(nb, sb);
    let em = elapsed % pow2(tb) as int;
    lemma_mod_bound(elapsed, pow2(tb) as int);
    lemma_mul_inequality(em, pow2(tb) - 1, pow2(k) as int);
    lemma_mul_is_distributive_sub_other_way(pow2(k) as int, pow2(tb) as int, 1);
    lemma_mul_inequality(opts.node as int, pow2(nb) - 1, pow2(sb) as int);
    lemma_mul_is_distributive_sub_other_way(pow2(sb) as int, pow2(nb) as int, 1);
}

/// The bitwise packing that `generate` computes equals the arithmetic form:
/// shift-and-mask of the three fields is the sum of their scaled values.
proof fn lemma_pack_exec(tb: u64, nb: u64, sb: u64, k: u64, elapsed: u64, node: u64, seq: u64)
    requires
        tb + nb + sb == 64,
        1 <= tb <= 63,
        k == nb + sb,
        node < pow2(nb as nat),
        seq < pow2(sb as nat),
    ensures
        ((elapsed << k) & (u64::MAX << k)) | ((node << sb) & ((u64::MAX << sb) ^ (u64::MAX << k)))
            | (seq & !(u64::MAX << sb)) == (elapsed as int % pow2(tb as nat) as int) * pow2(
            k as nat,
        ) + node * pow2(sb as nat) + seq,
{
    lemma_u64_pow2_no_overflow(tb as nat);
    lemma_u64_pow2_no_overflow(nb as nat);
    lemma_u64_pow2_no_overflow(sb as nat);
    lemma_u64_pow2_no_overflow(k as nat);
    lemma_u64_shl_is_mul(1u64, tb);
    lemma_u64_shl_is_mul(1u64, nb);
    lemma_u64_shl_is_mul(1u64, sb);
    lemma_u64_shl_is_mul(1u64, k);
    let ptb = 1u64 << tb;
    let pnb = 1u64 << nb;
    let psb = 1u64 << sb;
    let em = elapsed & !(u64::MAX << tb);
    // The low-bits mask keeps exactly `elapsed mod 2^tb`.
    assert(!(u64::MAX << tb) == (1u64 << tb) - 1) by (bit_vector)
        requires
            1 <= tb <= 63u64,
    ;
    assert(!(u64::MAX << tb) == low_bits_mask(tb as nat) as u64);
    lemma_u64_low_bits_mask_is_mod(elapsed, tb as nat);
    assert(em == elapsed as int % pow2(tb as nat) as int);
    assert(em < ptb) by (bit_vector)
        requires
            1 <= tb <= 63u64,
            em == elapsed & !(u64::MAX << tb),
            ptb == 1u64 << tb,
    ;
    // The masked, shifted timestamp keeps exactly the masked elapsed value.
    assert((elapsed << k) & (u64::MAX << k) == (elapsed & !(u64::MAX << tb)) << k) by (bit_vector)
        requires
            tb + nb + sb == 64u64,
            1 <= tb <= 63u64,
            k == nb + sb,
    ;
    // The node mask keeps a node value that fits its field unchanged.
    assert((node << sb) & ((u64::MAX << sb) ^ (u64::MAX << k)) == node << sb) by (bit_vector)
        requires
            tb + nb + sb == 64u64,
            1 <= tb <= 63u64,
            k == nb + sb,
            pnb == 1u64 << nb,
            node < pnb,
    ;
    // The sequence mask keeps a sequence value that fits its field unchanged.
    assert(seq & !(u64::MAX << sb) == seq) by (bit_vector)
        requires
            sb < 64u64,
            psb == 1u64 << sb,
            seq < psb,
    ;
    // The three shifted fields occupy disjoint bits, so their disjunction is
    // their exact (non-wrapping) sum.
    assert((em << k) | (node << sb) | seq == (em << k) + (node << sb) + seq) by (bit_vector)
        requires
            tb + nb + sb == 64u64,
            1 <= tb <= 63u64,
            k == nb + sb,
            ptb == 1u64 << tb,
            pnb == 1u64 << nb,
            psb == 1u64 << sb,
            em < ptb,
            node < pnb,
            seq < psb,
    ;
    // Turn the two shifts into multiplications by powers of two.
    lemma2_to64();
    lemma2_to64_rest();
    lemma_pow2_adds(tb as nat, k as nat);
    lemma_mul_inequality(em as int, pow2(tb as nat) - 1, pow2(k as nat) as int);
    lemma_mul_is_distributive_sub_other_way(pow2(k as nat) as int, pow2(tb as nat) as int, 1);
    lemma_u64_shl_is_mul(em, k);
    lemma_pow2_adds(nb as nat, sb as nat);
    lemma_mul_inequality(node as int, pow2(nb as nat) - 1, pow2(sb as nat) as int);
    lemma_mul_is_distributive_sub_other_way(pow2(sb as nat) as int, pow2(nb as nat) as int, 1);
    lemma_u64_shl_is_mul(node, sb);
}

/// The shift-and-mask decode that `extract` computes equals the arithmetic
/// division-and-remainder form of the three fields.
proof fn lemma_unpack_exec(tb: u64, nb: u64, sb: u64, k: u64, id: u64)
    requires
        tb + nb + sb == 64,
        1 <= tb <= 63,
        k == nb + sb,
    ensures
        (id >> k) & ((pow2(tb as nat) - 1) as u64) == id as int / pow2(k as nat) as int,
        (id >> sb) & ((pow2(nb as nat) - 1) as u64) == (id as int / pow2(sb as nat) as int) % pow2(
            nb as nat,
        ) as int,
        id & ((pow2(sb as nat) - 1) as u64) == id as int % pow2(sb as nat) as int,
{
    lemma_u64_pow2_no_overflow(tb as nat);
    lemma_u64_pow2_no_overflow(nb as nat);
    lemma_u64_pow2_no_overflow(sb as nat);
    lemma_u64_pow2_no_overflow(k as nat);
    lemma_pow2_pos(tb as nat);
    lemma_pow2_pos(k as nat);
    lemma_u64_shr_is_div(id, k);
    lemma_u64_shr_is_div(id, sb);
    // The top field needs no masking: after the shift it already fits.
    lemma_pow2_adds(tb as nat, k as nat);
    lemma2_to64();
    lemma2_to64_rest();
    lemma_multiply_divide_lt(id as int, pow2(k as nat) as int, pow2(tb as nat) as int);
    lemma_u64_low_bits_mask_is_mod(id >> k, tb as nat);
    lemma_small_mod((id >> k) as nat, pow2(tb as nat));
    // Node and sequence fields are a shift (division) and a mask (remainder).
    lemma_u64_low_bits_mask_is_mod(id >> sb, nb as nat);
    lemma_u64_low_bits_mask_is_mod(id, sb as nat);
}

/// One generator: a configuration plus the per-tick state that `generate`
/// advances. `last_ts` is the last accepted clock reading and `seq` the last
/// sequence number handed out on that tick.
pub struct Generator {
    /// The frozen configuration.
    pub opts: GeneratorOptions,
    /// Last accepted clock reading; 0 before any identifier was produced.
    pub last_ts: u64,
    /// Sequence number used by the most recent identifier of `last_ts`.
    pub seq: u64,
}

/// What one `generate` call does to generator `g` on clock reading `now`:
/// the successor state and the outcome, exactly as specified — a fault
/// leaves the state unchanged, a success packs the masked elapsed ticks, the
/// node and the advanced sequence.
pub open spec fn step(g: Generator, now: u64) -> (Generator, Result<u64, Error>) {
    if now <= g.opts.base_ts {
        (g, Err(Error::ClockBeforeEpoch))
    } else if now < g.last_ts {
        (g, Err(Error::ClockRegression))
    } else if now == g.last_ts && g.seq + 1 >= pow2(g.opts.seq_bits()) {
        (g, Err(Error::SequenceExhausted))
    } else {
        let s: u64 = if now == g.last_ts {
            (g.seq + 1) as u64
        } else {
            0u64
        };
        let id = pack(g.opts, now - g.opts.base_ts, s as int) as u64;
        (Generator { last_ts: now, seq: s, ..g }, Ok(id))
    }
}

impl Generator {
    /// A usable generator: its configuration is usable and its sequence
    /// counter fits the sequence field.
    pub open spec fn wf(&self) -> bool {
        &&& self.opts.wf()
        &&& self.seq < pow2(self.opts.seq_bits())
    }

    /// A fresh generator on a frozen configuration, before any tick.
    pub fn new(opts: GeneratorOptions) -> (g: Generator)
        requires
            opts.wf(),
        ensures
            g.opts == opts,
            g.last_ts == 0,
            g.seq == 0,
            g.wf(),
    {
        proof {
            lemma_pow2_pos(opts.seq_bits());
        }
        Generator { opts, last_ts: 0, seq: 0 }
    }

    /// One generation step on an explicit clock reading `now`: the outcome
    /// and the state change are exactly those of [`step`].
    pub fn generate_at(&mut self, now: u64) -> (r: Result<u64, Error>)
        requires
            old(self).wf(),
        ensures
            final(self).wf(),
            final(self).opts == old(self).opts,
            (*final(self), r) == step(*old(self), now),
    {
        if now <= self.opts.base_ts {
            return Err(Error::ClockBeforeEpoch);
        }
        if now < self.last_ts {
            return Err(Error::ClockRegression);
        }
        let (ts_bits, node_bits, seq_bits) = self.opts.bits;
        proof {
            lemma_u64_pow2_no_overflow(seq_bits as nat);
        }
        let seq: u64 = if now == self.last_ts {
            self.seq + 1
        } else {
            0
        };
        if seq > max(seq_bits) {
            return Err(Error::SequenceExhausted);
        }
        let elapsed = now - self.opts.base_ts;
        let kb: u8 = node_bits + seq_bits;
        let k: u64 = kb as u64;
        let ts_mask = bitmask(kb);
        let node_mask = bitmask(seq_bits) ^ ts_mask;
        let id = ((elapsed << k) & ts_mask) | ((self.opts.node << (seq_bits as u64)) & node_mask)
            | (seq & max(seq_bits));
        proof {
            lemma_pack_exec(
                ts_bits as u64,
                node_bits as u64,
                seq_bits as u64,
                k,
                elapsed,
                self.opts.node,
                seq,
            );
            lemma_pack_bounds(self.opts, elapsed as int, seq as int);
            lemma2_to64();
            lemma2_to64_rest();
        }
        self.last_ts = now;
        self.seq = seq;
        Ok(id)
    }

    /// One generation step on the configured clock. The clock's reading is
    /// outside this library's control, so the contract promises that the
    /// outcome and state change are those of [`step`] on whatever reading
    /// the clock produced.
    pub fn generate(&mut self) -> (r: Result<u64, Error>)
        requires
            old(self).wf(),
        ensures
            final(self).wf(),
            final(self).opts == old(self).opts,
            exists|now: u64| (*final(self), r) == #[trigger] step(*old(self), now),
    {
        let now = self.opts.time_fn.read();
        let r = self.generate_at(now);
        proof {
            assert((*self, r) == step(*old(self), now));
        }
        r
    }

    /// Decodes an identifier into its `(elapsed, node, sequence)` fields
    /// under this generator's configuration. Pure: any identifier produced
    /// under the same field widths decodes to the fields it was packed from.
    pub fn extract(&self, id: u64) -> (r: (u64, u64, u64))
        requires
            self.opts.wf(),
        ensures
            r.0 == unpack_ts(self.opts, id),
            r.1 == unpack_node(self.opts, id),
            r.2 == unpack_seq(self.opts, id),
    {
        let (ts_bits, node_bits, seq_bits) = self.opts.bits;
        let kb: u8 = node_bits + seq_bits;
        let ts = (id >> (kb as u64)) & max(ts_bits);
        let node = (id >> (seq_bits as u64)) & max(node_bits);
        let seq = id & max(seq_bits);
        proof {
            lemma_unpack_exec(ts_bits as u64, node_bits as u64, seq_bits as u64, kb as u64, id);
        }
        (ts, node, seq)
    }
}

/// Law: every usable generator's field widths split the 64-bit word exactly;
/// a configuration violating this cannot reach a generator, since every
/// constructor demands a usable configuration.
pub proof fn lemma_widths_total(g: Generator)
    requires
        g.wf(),
    ensures
        g.opts.bits.0 + g.opts.bits.1 + g.opts.bits.2 == 64,
{
}

/// Law: a step from a usable generator leaves a usable generator with the
/// same configuration, whatever the clock read.
pub proof fn lemma_step_wf(g: Generator, now: u64)
    requires
        g.wf(),
    ensures
        step(g, now).0.wf(),
        step(g, now).0.opts == g.opts,
        step(g, now).1 is Err ==> step(g, now).0 == g,
{
    lemma_u64_pow2_no_overflow(g.opts.seq_bits());
    lemma_pow2_pos(g.opts.seq_bits());
}

/// Law: decoding inverts encoding. For any usable configuration, an
/// identifier packed from in-range `elapsed` and `seq` decodes to exactly
/// those fields and the configured node.
pub proof fn lemma_round_trip(opts: GeneratorOptions, elapsed: int, seq: int)
    requires
        opts.wf(),
        0 <= elapsed < pow2(opts.ts_bits()),
        0 <= seq < pow2(opts.seq_bits()),
    ensures
        unpack_ts(opts, pack(opts, elapsed, seq) as u64) == elapsed,
        unpack_node(opts, pack(opts, elapsed, seq) as u64) == opts.node,
        unpack_seq(opts, pack(opts, elapsed, seq) as u64) == seq,
{
    let tb = opts.ts_bits();
    let nb = opts.node_bits();
    let sb = opts.seq_bits();
    let k = opts.ts_shift();
    let tbp = pow2(tb) as int;
    let nbp = pow2(nb) as int;
    let sbp = pow2(sb) as int;
    let kp = pow2(k) as int;
    lemma_pow2_pos(tb);
    lemma_pow2_pos(nb);
    lemma_pow2_pos(sb);
    lemma_pow2_pos(k);
    lemma2_to64();
    lemma2_to64_rest();
    lemma_pack_bounds(opts, elapsed, seq);
    lemma_small_mod(elapsed as nat, pow2(tb));
    let id = pack(opts, elapsed, seq);
    assert(id == elapsed * kp + (opts.node * sbp + seq));
    // Divide out the timestamp position: the rest fits below it.
    lemma_pow2_adds(nb, sb);
    lemma_fundamental_div_mod_converse(id, kp, elapsed, opts.node * sbp + seq);
    // Regroup to divide out the sequence position.
    lemma_mul_is_associative(elapsed, nbp, sbp);
    lemma_mul_is_distributive_add_other_way(sbp, elapsed * nbp, opts.node as int);
    assert(id == (elapsed * nbp + opts.node) * sbp + seq);
    lemma_mul_inequality(elapsed, tbp - 1, nbp);
    lemma_fundamental_div_mod_converse(id, sbp, elapsed * nbp + opts.node, seq);
    // The node field is what is left of that quotient below its width.
    lemma_mod_multiples_vanish(elapsed, opts.node as int, nbp);
    lemma_small_mod(opts.node as nat, pow2(nb));
}

/// Law: packing is injective. Two identifiers packed under the same field
/// widths coincide only if they came from the same elapsed ticks, the same
/// node number and the same sequence value — the ground of pool-wide
/// uniqueness: distinct nodes can never collide.
pub proof fn lemma_pack_injective(
    o1: GeneratorOptions,
    o2: GeneratorOptions,
    e1: int,
    s1: int,
    e2: int,
    s2: int,
)
    requires
        o1.wf(),
        o2.wf(),
        o1.bits == o2.bits,
        0 <= e1 < pow2(o1.ts_bits()),
        0 <= s1 < pow2(o1.seq_bits()),
        0 <= e2 < pow2(o2.ts_bits()),
        0 <= s2 < pow2(o2.seq_bits()),
        pack(o1, e1, s1) == pack(o2, e2, s2),
    ensures
        e1 == e2,
        o1.node == o2.node,
        s1 == s2,
{
    lemma_round_trip(o1, e1, s1);
    lemma_round_trip(o2, e2, s2);
}

/// Law: decoding what a step produced recovers the step's own fields —
/// the elapsed ticks of the accepted clock reading, the configured node,
/// and the sequence number the step advanced to — as long as the elapsed
/// ticks fit the timestamp field.
pub proof fn lemma_step_round_trip(g: Generator, now: u64)
    requires
        g.wf(),
        step(g, now).1 is Ok,
        now - g.opts.base_ts < pow2(g.opts.ts_bits()),
    ensures
        unpack_ts(g.opts, step(g, now).1->Ok_0) == now - g.opts.base_ts,
        unpack_node(g.opts, step(g, now).1->Ok_0) == g.opts.node,
        unpack_seq(g.opts, step(g, now).1->Ok_0) == step(g, now).0.seq,
{
    lemma_step_wf(g, now);
    lemma_round_trip(g.opts, now - g.opts.base_ts, step(g, now).0.seq as int);
}

/// Law: generators holding distinct node values never produce equal
/// identifiers, whatever their clocks read and however their states differ
/// — the ground of uniqueness across a fleet of disjointly numbered nodes,
/// as long as each one's elapsed ticks fit the timestamp field.
pub proof fn lemma_distinct_nodes_distinct_ids(g1: Generator, g2: Generator, n1: u64, n2: u64)
    requires
        g1.wf(),
        g2.wf(),
        g1.opts.bits == g2.opts.bits,
        g1.opts.node != g2.opts.node,
        step(g1, n1).1 is Ok,
        step(g2, n2).1 is Ok,
        n1 - g1.opts.base_ts < pow2(g1.opts.ts_bits()),
        n2 - g2.opts.base_ts < pow2(g2.opts.ts_bits()),
    ensures
        step(g1, n1).1->Ok_0 != step(g2, n2).1->Ok_0,
{
    let e1 = n1 - g1.opts.base_ts;
    let e2 = n2 - g2.opts.base_ts;
    let s1 = step(g1, n1).0.seq;
    let s2 = step(g2, n2).0.seq;
    lemma_step_wf(g1, n1);
    lemma_step_wf(g2, n2);
    lemma_pack_bounds(g1.opts, e1 as int, s1 as int);
    lemma_pack_bounds(g2.opts, e2 as int, s2 as int);
    lemma2_to64();
    lemma2_to64_rest();
    if step(g1, n1).1->Ok_0 == step(g2, n2).1->Ok_0 {
        lemma_pack_injective(g1.opts, g2.opts, e1 as int, s1 as int, e2 as int, s2 as int);
    }
}

/// Law: on one tick the sequence advances by exactly one. If a generator
/// yields an identifier and, on the same clock reading, yields another, the
/// second identifier is the first plus one.
pub proof fn lemma_same_tick_increment(g: Generator, now: u64)
    requires
        g.wf(),
        step(g, now).1 is Ok,
        step(step(g, now).0, now).1 is Ok,
    ensures
        step(step(g, now).0, now).1->Ok_0 == step(g, now).1->Ok_0 + 1,
{
    let g1 = step(g, now).0;
    let el = now - g.opts.base_ts;
    lemma_step_wf(g, now);
    lemma_step_wf(g1, now);
    lemma2_to64();
    lemma2_to64_rest();
    lemma_pack_bounds(g.opts, el as int, g1.seq as int);
    lemma_pack_bounds(g.opts, el as int, g1.seq + 1);
}

/// The generator after `k` requests on one fixed clock reading.
pub open spec fn run_same_tick(g: Generator, now: u64, k: nat) -> Generator
    decreases k,
{
    if k == 0 {
        g
    } else {
        step(run_same_tick(g, now, (k - 1) as nat), now).0
    }
}

/// Law: on a fresh tick, request number `k` (counting from zero) yields
/// the identifier whose sequence field is exactly `k`, for every
/// `k < 2^seq_bits` — the requests of one tick return consecutive
/// identifiers, each one more than the last.
pub proof fn lemma_same_tick_run(g: Generator, now: u64, k: nat)
    requires
        g.wf(),
        now > g.opts.base_ts,
        now > g.last_ts,
        k < pow2(g.opts.seq_bits()),
    ensures
        run_same_tick(g, now, k).wf(),
        run_same_tick(g, now, k).opts == g.opts,
        step(run_same_tick(g, now, k), now).1 == Ok::<u64, Error>(
            pack(g.opts, now - g.opts.base_ts, k as int) as u64,
        ),
        run_same_tick(g, now, k + 1).wf(),
        run_same_tick(g, now, k + 1).opts == g.opts,
        run_same_tick(g, now, k + 1).last_ts == now,
        run_same_tick(g, now, k + 1).seq == k,
    decreases k,
{
    lemma_u64_pow2_no_overflow(g.opts.seq_bits());
    if k == 0 {
        lemma_step_wf(g, now);
    } else {
        lemma_same_tick_run(g, now, (k - 1) as nat);
        lemma_step_wf(run_same_tick(g, now, k), now);
    }
}

/// Law: a fresh tick serves exactly `2^seq_bits` requests; the next one on
/// the same clock reading faults with a sequence exhaustion.
pub proof fn lemma_same_tick_run_exhausts(g: Generator, now: u64)
    requires
        g.wf(),
        now > g.opts.base_ts,
        now > g.last_ts,
    ensures
        step(run_same_tick(g, now, pow2(g.opts.seq_bits())), now).1 == Err::<u64, Error>(
            Error::SequenceExhausted,
        ),
{
    let sb = g.opts.seq_bits();
    lemma_pow2_pos(sb);
    lemma_same_tick_run(g, now, (pow2(sb) - 1) as nat);
    lemma_sequence_exhaustion(run_same_tick(g, now, pow2(sb)), now);
}

/// Law: a tick is exhausted after `2^seq_bits` identifiers. Once the
/// sequence counter has reached the top of its field, one more request on
/// the same clock reading faults instead of producing an identifier.
pub proof fn lemma_sequence_exhaustion(g: Generator, now: u64)
    requires
        g.wf(),
        now > g.opts.base_ts,
        now == g.last_ts,
        g.seq + 1 == pow2(g.opts.seq_bits()),
    ensures
        step(g, now).1 == Err::<u64, Error>(Error::SequenceExhausted),
{
}

/// Law: identifiers of one generator increase strictly while the clock does
/// not decrease and the elapsed ticks still fit the timestamp field.
/// A clock reading below the last observed tick faults instead ([`step`]).
pub proof fn lemma_monotonic(g: Generator, now1: u64, now2: u64)
    requires
        g.wf(),
        now1 <= now2,
        now2 - g.opts.base_ts < pow2(g.opts.ts_bits()),
        step(g, now1).1 is Ok,
        step(step(g, now1).0, now2).1 is Ok,
    ensures
        step(g, now1).1->Ok_0 < step(step(g, now1).0, now2).1->Ok_0,
{
    let g1 = step(g, now1).0;
    let g2 = step(g1, now2).0;
    let el1 = now1 - g.opts.base_ts;
    let el2 = now2 - g.opts.base_ts;
    let s1 = g1.seq;
    let s2 = g2.seq;
    let k = g.opts.ts_shift();
    let kp = pow2(k) as int;
    lemma_pow2_pos(k);
    lemma_step_wf(g, now1);
    lemma_step_wf(g1, now2);
    lemma2_to64();
    lemma2_to64_rest();
    lemma_pack_bounds(g.opts, el1 as int, s1 as int);
    lemma_pack_bounds(g.opts, el2 as int, s2 as int);
    lemma_small_mod(el1 as nat, pow2(g.opts.ts_bits()));
    lemma_small_mod(el2 as nat, pow2(g.opts.ts_bits()));
    if now2 == now1 {
        // Same tick: only the sequence grew, by exactly one.
        assert(s2 == s1 + 1);
    } else {
        // Later tick: everything below the timestamp field is outweighed.
        assert(pack(g.opts, el1 as int, s1 as int) < el1 as int * kp + kp);
        lemma_mul_is_distributive_add_other_way(kp, el1 as int, 1);
        lemma_mul_inequality(el1 as int + 1, el2 as int, kp);
    }
}

} // verus!
