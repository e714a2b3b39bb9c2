use vstd::prelude::*;
use vstd::arithmetic::power2::{pow2, lemma2_to64};
use crate::capacity::{
    next_pow2, next_power_of_two, lemma_mask_is_mod, lemma_wrapping_sub_mask,
};

verus! {

/// Capacity that `DelayLine::with_min_capacity` picks for a request of
/// `min_cap` samples: the next power of two, but never fewer than four.
pub open spec fn delay_line_capacity(min_cap: nat) -> nat {
    if next_pow2(min_cap) < 4 {
        4
    } else {
        next_pow2(min_cap)
    }
}

/// A line asked for `n` samples holds at least `n`, and at least four: its
/// length is the least power of two that is at least `max(n, 4)`.
pub proof fn lemma_delay_line_capacity(n: nat)
    ensures
        delay_line_capacity(n) >= n,
        delay_line_capacity(n) >= 4,
        exists|k: nat| pow2(k) == delay_line_capacity(n),
        forall|k: nat|
            #[trigger] pow2(k) >= n && pow2(k) >= 4 ==> pow2(k) >= delay_line_capacity(n),
{
    crate::capacity::lemma_next_pow2_least(n);
    lemma2_to64();
    if next_pow2(n) < 4 {
        assert(pow2(2) == 4);
    }
}

/// Circular delay line whose length is a power of two, so that every index is
/// wrapped with a mask. `write` stores at the write head and then advances it;
/// a delay of `d` samples therefore reads the sample written `d` writes ago.
pub struct DelayLine<T: Copy> {
    data: Vec<T>,
    write_pos: usize,
    mask: usize,
    silence: T,
    exp: Ghost<nat>,
}

impl<T: Copy> DelayLine<T> {
    /// The line's internal invariant: a power-of-two length of at least four,
    /// the matching mask, and a write head inside the buffer.
    #[verifier::type_invariant]
    closed spec fn wf(&self) -> bool {
        &&& self.data.len() as nat == pow2(self.exp@)
        &&& self.data.len() >= 4
        &&& self.data.len() <= usize::MAX / 2 + 1
        &&& self.mask == self.data.len() - 1
        &&& self.write_pos < self.data.len()
    }

    /// The stored samples, indexed by buffer position.
    pub closed spec fn samples(&self) -> Seq<T> {
        self.data@
    }

    /// The write head: the position the next `write` fills.
    pub closed spec fn pos(&self) -> int {
        self.write_pos as int
    }

    /// The value the line holds after creation or `clear`.
    pub closed spec fn silence(&self) -> T {
        self.silence
    }

    /// Number of samples the line holds.
    pub open spec fn cap(&self) -> int {
        self.samples().len() as int
    }

    /// The sample written `d` writes ago (for `1 <= d <= cap`).
    pub open spec fn delayed(&self, d: int) -> T {
        self.samples()[(self.pos() - d) % self.cap()]
    }

    /// Creates a line of `max(next_power_of_two(min_cap), 4)` samples, all
    /// equal to `silence`, with the write head at position 0.
    pub fn with_min_capacity(min_cap: usize, silence: T) -> (r: Self)
        requires
            min_cap <= usize::MAX / 2 + 1,
        ensures
            r.cap() == delay_line_capacity(min_cap as nat),
            r.cap() >= min_cap,
            r.cap() >= 4,
            exists|k: nat| pow2(k) == r.cap(),
            r.samples() == Seq::new(r.cap() as nat, |i: int| silence),
            r.pos() == 0,
            r.silence() == silence,
    {
        let p = next_power_of_two(min_cap);
        let ghost exp = crate::capacity::ceil_log2(min_cap as nat);
        let cap: usize = if p < 4 {
            proof {
                lemma2_to64();
            }
            4
        } else {
            p
        };
        let ghost exp: nat = if p < 4 { 2 } else { exp };
        proof {
            lemma2_to64();
        }
        let mut data: Vec<T> = Vec::new();
        while data.len() < cap
            invariant
                data.len() <= cap,
                forall|i: int| 0 <= i < data.len() ==> data@[i] == silence,
            decreases cap - data.len(),
        {
            data.push(silence);
        }
        let r = DelayLine { data, write_pos: 0, mask: cap - 1, silence, exp: Ghost(exp) };
        assert(r.samples() =~= Seq::new(r.cap() as nat, |i: int| silence));
        proof {
            lemma_delay_line_capacity(min_cap as nat);
        }
        r
    }

    /// Fills the line with silence and moves the write head back to 0.
    pub fn clear(&mut self)
        ensures
            final(self).cap() == old(self).cap(),
            final(self).samples() == Seq::new(old(self).cap() as nat, |i: int| old(self).silence()),
            final(self).pos() == 0,
            final(self).silence() == old(self).silence(),
        no_unwind
    {
        proof {
            use_type_invariant(&*self);
        }
        let s = self.silence;
        fill(&mut self.data, s);
        self.write_pos = 0;
        assert(self.samples() =~= Seq::new(old(self).cap() as nat, |i: int| old(self).silence()));
    }

    /// Number of samples the line holds.
    pub fn capacity(&self) -> (r: usize)
        ensures
            r == self.cap(),
            r >= 4,
    {
        proof {
            use_type_invariant(self);
        }
        self.data.len()
    }

    /// Stores `x` at the write head and advances the head by one, wrapping.
    /// Afterwards `x` is the sample one write ago, and every older sample is
    /// one write further back.
    pub fn write(&mut self, x: T)
        ensures
            final(self).cap() == old(self).cap(),
            final(self).silence() == old(self).silence(),
            final(self).samples() == old(self).samples().update(old(self).pos(), x),
            final(self).pos() == (old(self).pos() + 1) % old(self).cap(),
            final(self).delayed(1) == x,
            forall|d: int| 2 <= d <= old(self).cap() ==> #[trigger] final(self).delayed(d) == old(self).delayed(d - 1),
        no_unwind
    {
        proof {
            use_type_invariant(&*self);
        }
        let ghost old_self = *self;
        let wp = self.write_pos;
        self.data[wp] = x;
        proof {
            lemma_mask_is_mod((wp + 1) as usize, self.data.len(), self.exp@);
        }
        self.write_pos = (wp + 1) & self.mask;
        proof {
            let c = old_self.cap();
            let p = old_self.pos();
            assert(self.pos() == (p + 1) % c);
            assert(self.delayed(1) == x) by {
                vstd::arithmetic::div_mod::lemma_add_mod_noop_right(-1, p + 1, c);
                vstd::arithmetic::div_mod::lemma_small_mod(p as nat, c as nat);
            }
            assert forall|d: int| 2 <= d <= c implies #[trigger] self.delayed(d) == old_self.delayed(d - 1) by {
                vstd::arithmetic::div_mod::lemma_add_mod_noop_right(-d, p + 1, c);
                vstd::arithmetic::div_mod::lemma_mod_bound(p + 1 - d, c);
                if (p + 1 - d) % c == p {
                    vstd::arithmetic::div_mod::lemma_fundamental_div_mod(p + 1 - d, c);
                    assert(false) by (nonlinear_arith)
                        requires
                            p + 1 - d == c * ((p + 1 - d) / c) + p,
                            2 <= d <= c,
                    ;
                }
            }
        }
    }

    /// The four samples around a whole delay of `int_part` writes, as a
    /// cubic interpolator reads them for a delay between `int_part` and
    /// `int_part + 1`: delays `int_part - 1`, `int_part`, `int_part + 1` and
    /// `int_part + 2`, all taken modulo the capacity.
    pub fn taps(&self, int_part: usize) -> (r: (T, T, T, T))
        ensures
            r.0 == self.delayed(int_part - 1),
            r.1 == self.delayed(int_part as int),
            r.2 == self.delayed(int_part + 1),
            r.3 == self.delayed(int_part + 2),
    {
        proof {
            use_type_invariant(self);
        }
        let c = self.data.len();
        let ghost base = self.pos() - int_part;
        let i1 = self.write_pos.wrapping_sub(int_part) & self.mask;
        proof {
            lemma_wrapping_sub_mask(self.write_pos, int_part, c, self.exp@);
        }
        let i0 = (i1 + 1) & self.mask;
        proof {
            lemma_mask_is_mod((i1 + 1) as usize, c, self.exp@);
            vstd::arithmetic::div_mod::lemma_add_mod_noop(base, 1, c as int);
            vstd::arithmetic::div_mod::lemma_small_mod(1, c as nat);
        }
        let i2 = i1.wrapping_sub(1) & self.mask;
        proof {
            lemma_wrapping_sub_mask(i1, 1, c, self.exp@);
            vstd::arithmetic::div_mod::lemma_sub_mod_noop(base, 1, c as int);
        }
        let i3 = i1.wrapping_sub(2) & self.mask;
        proof {
            lemma_wrapping_sub_mask(i1, 2, c, self.exp@);
            vstd::arithmetic::div_mod::lemma_sub_mod_noop(base, 2, c as int);
            vstd::arithmetic::div_mod::lemma_small_mod(2, c as nat);
        }
        (self.data[i0], self.data[i1], self.data[i2], self.data[i3])
    }
}

/// Overwrites every element of `data` with `s`.
pub(crate) fn fill<T: Copy>(data: &mut Vec<T>, s: T)
    ensures
        final(data)@ == Seq::new(old(data)@.len(), |i: int| s),
    no_unwind
{
    let n = data.len();
    let mut i: usize = 0;
    while i < n
        invariant
            data.len() == n,
            i <= n,
            forall|j: int| 0 <= j < i ==> data@[j] == s,
        decreases n - i,
    {
        data[i] = s;
        i = i + 1;
    }
    assert(data@ =~= Seq::new(n as nat, |i: int| s));
}

} // verus!
