use vstd::prelude::*;
use vstd::arithmetic::power2::{pow2, lemma2_to64};
use vstd::arithmetic::div_mod::{
    lemma_fundamental_div_mod, lemma_fundamental_div_mod_converse, lemma_add_mod_noop_right,
    lemma_mod_bound, lemma_small_mod,
};
use crate::capacity::{next_pow2, next_power_of_two, ceil_log2, lemma_mask_is_mod};
use crate::delay_line::fill;

verus! {

/// Capacity that `RingBuffer::with_min_capacity` picks for a request of
/// `min_cap` samples: the next power of two of at least two.
pub open spec fn ring_buffer_capacity(min_cap: nat) -> nat {
    next_pow2(if min_cap < 2 { 2 } else { min_cap })
}

/// A buffer asked for `n` samples holds at least `n`, and at least two: its
/// length is the least power of two that is at least `max(n, 2)`.
pub proof fn lemma_ring_buffer_capacity(n: nat)
    ensures
        ring_buffer_capacity(n) >= n,
        ring_buffer_capacity(n) >= 2,
        exists|k: nat| pow2(k) == ring_buffer_capacity(n),
        forall|k: nat|
            #[trigger] pow2(k) >= n && pow2(k) >= 2 ==> pow2(k) >= ring_buffer_capacity(n),
{
    let m: nat = if n < 2 { 2 } else { n };
    crate::capacity::lemma_next_pow2_least(m);
}

/// Circular sample history whose length is a power of two. `write` first
/// advances the write head and then stores there, so the head always holds
/// the newest sample; positions are read modulo the length, negative ones
/// included.
pub struct RingBuffer<T: Copy> {
    data: Vec<T>,
    write_pos: usize,
    mask: usize,
    silence: T,
    exp: Ghost<nat>,
}

impl<T: Copy> RingBuffer<T> {
    /// The buffer's internal invariant: a power-of-two length of at least
    /// two, the matching mask, and a write head inside the buffer.
    #[verifier::type_invariant]
    closed spec fn wf(&self) -> bool {
        &&& self.data.len() as nat == pow2(self.exp@)
        &&& self.data.len() >= 2
        &&& self.data.len() <= usize::MAX / 2 + 1
        &&& self.mask == self.data.len() - 1
        &&& self.write_pos < self.data.len()
    }

    /// The stored samples, indexed by buffer position.
    pub closed spec fn samples(&self) -> Seq<T> {
        self.data@
    }

    /// The write head: the position of the newest sample.
    pub closed spec fn pos(&self) -> int {
        self.write_pos as int
    }

    /// The value the buffer holds after creation or `clear`.
    pub closed spec fn silence(&self) -> T {
        self.silence
    }

    /// Number of samples the buffer holds.
    pub open spec fn cap(&self) -> int {
        self.samples().len() as int
    }

    /// The sample at position `i`, taken modulo the capacity.
    pub open spec fn at(&self, i: int) -> T {
        self.samples()[i % self.cap()]
    }

    /// The sample written `d` writes before the newest one (`d == 0` is the
    /// newest).
    pub open spec fn recent(&self, d: int) -> T {
        self.at(self.pos() - d)
    }

    /// Creates a buffer of `next_power_of_two(max(min_cap, 2))` samples, all
    /// equal to `silence`, with the write head at position 0.
    pub fn with_min_capacity(min_cap: usize, silence: T) -> (r: Self)
        requires
            min_cap <= usize::MAX / 2 + 1,
        ensures
            r.cap() == ring_buffer_capacity(min_cap as nat),
            r.cap() >= min_cap,
            r.cap() >= 2,
            exists|k: nat| pow2(k) == r.cap(),
            r.samples() == Seq::new(r.cap() as nat, |i: int| silence),
            r.pos() == 0,
            r.silence() == silence,
    {
        let m: usize = if min_cap < 2 { 2 } else { min_cap };
        let cap = next_power_of_two(m);
        proof {
            lemma2_to64();
            crate::capacity::lemma_next_pow2_bounds(m as nat);
        }
        let mut data: Vec<T> = Vec::new();
        while data.len() < cap
            invariant
                data.len() <= cap,
                forall|i: int| 0 <= i < data.len() ==> data@[i] == silence,
            decreases cap - data.len(),
        {
            data.push(silence);
        }
        let r = RingBuffer {
            data,
            write_pos: 0,
            mask: cap - 1,
            silence,
            exp: Ghost(ceil_log2(m as nat)),
        };
        assert(r.samples() =~= Seq::new(r.cap() as nat, |i: int| silence));
        proof {
            lemma_ring_buffer_capacity(min_cap as nat);
        }
        r
    }

    /// Moves the write head forward by one, wrapping, and stores `x` there.
    /// Afterwards `x` is the newest sample, and every older sample is one
    /// write further back.
    pub fn write(&mut self, x: T)
        ensures
            final(self).cap() == old(self).cap(),
            final(self).silence() == old(self).silence(),
            final(self).pos() == (old(self).pos() + 1) % old(self).cap(),
            final(self).samples() == old(self).samples().update(final(self).pos(), x),
            final(self).recent(0) == x,
            forall|d: int| 1 <= d < old(self).cap() ==> #[trigger] final(self).recent(d) == old(self).recent(d - 1),
        no_unwind
    {
        proof {
            use_type_invariant(&*self);
        }
        let ghost old_self = *self;
        let wp = self.write_pos;
        proof {
            lemma_mask_is_mod((wp + 1) as usize, self.data.len(), self.exp@);
        }
        let np = (wp + 1) & self.mask;
        self.write_pos = np;
        self.data[np] = x;
        proof {
            let c = old_self.cap();
            let p = old_self.pos();
            let q = self.pos();
            assert(q == (p + 1) % c);
            lemma_small_mod(q as nat, c as nat);
            assert(self.recent(0) == x);
            assert forall|d: int| 1 <= d < c implies #[trigger] self.recent(d) == old_self.recent(d - 1) by {
                lemma_add_mod_noop_right(-d, p + 1, c);
                lemma_mod_bound(p + 1 - d, c);
                lemma_mod_bound(p - (d - 1), c);
                if (p + 1 - d) % c == q {
                    lemma_fundamental_div_mod(p + 1 - d, c);
                    lemma_fundamental_div_mod(p + 1, c);
                    assert(false) by (nonlinear_arith)
                        requires
                            p + 1 - d == c * ((p + 1 - d) / c) + q,
                            p + 1 == c * ((p + 1) / c) + q,
                            1 <= d < c,
                    ;
                }
            }
        }
    }

    /// Fills the buffer with silence and moves the write head back to 0.
    pub fn clear(&mut self)
        ensures
            final(self).cap() == old(self).cap(),
            final(self).samples() == Seq::new(old(self).cap() as nat, |i: int| old(self).silence()),
            final(self).pos() == 0,
            final(self).silence() == old(self).silence(),
        no_unwind
    {
        proof {
            use_type_invariant(&*self);
        }
        let s = self.silence;
        fill(&mut self.data, s);
        self.write_pos = 0;
        assert(self.samples() =~= Seq::new(old(self).cap() as nat, |i: int| old(self).silence()));
    }

    /// Position of the newest sample.
    pub fn write_pos(&self) -> (r: usize)
        ensures
            r == self.pos(),
            r < self.cap(),
    {
        proof {
            use_type_invariant(self);
        }
        self.write_pos
    }

    /// The sample at position `idx`, wrapped into the buffer the way
    /// two's-complement masking wraps it: the Euclidean remainder by the
    /// capacity, so `-1` is the last slot.
    fn get_safe(&self, idx: isize) -> (r: T)
        ensures
            r == self.at(idx as int),
    {
        proof {
            use_type_invariant(self);
        }
        let ghost c = self.cap();
        if idx >= 0 {
            let u = idx as usize;
            proof {
                lemma_mask_is_mod(u, self.data.len(), self.exp@);
            }
            self.data[u & self.mask]
        } else {
            let n = (-(idx + 1)) as usize;
            let m = n & self.mask;
            proof {
                lemma_mask_is_mod(n, self.data.len(), self.exp@);
                lemma_fundamental_div_mod(n as int, c);
                lemma_mod_bound(n as int, c);
                let q = (n as int) / c;
                let r = (n as int) % c;
                assert(idx as int == (-(q + 1)) * c + (c - 1 - r)) by (nonlinear_arith)
                    requires
                        n as int == c * q + r,
                        idx as int == -(n as int) - 1,
                ;
                lemma_fundamental_div_mod_converse(idx as int, c, -(q + 1), c - 1 - r);
            }
            self.data[self.mask - m]
        }
    }

    /// The four samples at positions `i - 1`, `i`, `i + 1` and `i + 2`, each
    /// wrapped into the buffer: the neighbourhood a cubic interpolator reads
    /// around position `i`.
    pub fn cubic_taps(&self, i: isize) -> (r: (T, T, T, T))
        requires
            i > isize::MIN,
            i < isize::MAX - 1,
        ensures
            r.0 == self.at(i - 1),
            r.1 == self.at(i as int),
            r.2 == self.at(i + 1),
            r.3 == self.at(i + 2),
    {
        let s0 = self.get_safe(i - 1);
        let s1 = self.get_safe(i);
        let s2 = self.get_safe(i + 1);
        let s3 = self.get_safe(i + 2);
        (s0, s1, s2, s3)
    }
}

} // verus!
