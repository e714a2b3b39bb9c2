use vstd::prelude::*;
use vstd::relations::injective_on;
use vstd::set_lib::{lemma_int_range, lemma_len_subset, lemma_map_size, set_int_range};

verus! {

/// The state that a seed selects: zero is replaced by a fixed odd constant,
/// because xorshift never leaves the all-zero state.
pub open spec fn seed_state(seed: u32) -> u32 {
    if seed == 0 {
        0x9E37_79B9u32
    } else {
        seed
    }
}

/// One step of Marsaglia's xorshift32 (shifts 13, 17, 5).
pub open spec fn xorshift32(x: u32) -> u32 {
    let a = x ^ (x << 13u32);
    let b = a ^ (a >> 17u32);
    b ^ (b << 5u32)
}

/// The generator's state after `n` draws from `seed`; it is also the `n`-th
/// value that `next_u32` hands out (counting from one).
pub open spec fn stream_state(seed: u32, n: nat) -> u32
    decreases n,
{
    if n == 0 {
        seed_state(seed)
    } else {
        xorshift32(stream_state(seed, (n - 1) as nat))
    }
}

/// Tiny realtime-safe pseudo random generator (xorshift32). It is not
/// cryptographically secure, but it is deterministic: the same seed always
/// gives the same sequence.
pub struct Rng {
    state: u32,
    seed: Ghost<u32>,
    draws: Ghost<nat>,
}

/// What a generator is, mathematically: the seed it was created with, how
/// many values it has handed out, and its current state (the last value
/// handed out, or the seed state before the first draw).
pub struct RngView {
    pub seed: u32,
    pub draws: nat,
    pub state: u32,
}

impl View for Rng {
    type V = RngView;

    closed spec fn view(&self) -> RngView {
        RngView { seed: self.seed@, draws: self.draws@, state: self.state }
    }
}

impl Rng {
    #[verifier::type_invariant]
    closed spec fn wf(self) -> bool {
        self.state == stream_state(self.seed@, self.draws@)
    }

    /// Creates a generator from `seed`; a zero seed is replaced by `0x9E37_79B9`.
    pub fn new(seed: u32) -> (r: Self)
        ensures
            r@.seed == seed,
            r@.draws == 0,
            r@.state == seed_state(seed),
            r@.state != 0,
            seed != 0 ==> r@.state == seed,
            seed == 0 ==> r@.state == 0x9E37_79B9u32,
    {
        Rng {
            state: if seed == 0 { 0x9E37_79B9 } else { seed },
            seed: Ghost(seed),
            draws: Ghost(0),
        }
    }

    /// Advances the generator by one xorshift32 step and returns the new state.
    pub fn next_u32(&mut self) -> (r: u32)
        ensures
            r == xorshift32(old(self)@.state),
            r == stream_state(old(self)@.seed, old(self)@.draws + 1),
            r != 0,
            final(self)@ == (RngView { seed: old(self)@.seed, draws: old(self)@.draws + 1, state: r }),
    {
        proof {
            use_type_invariant(&*self);
            lemma_stream_never_zero(self.seed@, self.draws@);
            lemma_xorshift32_nonzero(self.state);
        }
        let mut x = self.state;
        x ^= x << 13u32;
        x ^= x >> 17u32;
        x ^= x << 5u32;
        *self = Rng { state: x, seed: self.seed, draws: Ghost(self.draws@ + 1) };
        x
    }

    /// Draws the next value and keeps its top 24 bits: the numerator of a
    /// fraction with denominator `2^24`, so the fraction lies in `[0, 1)`.
    pub fn next_u24(&mut self) -> (r: u32)
        ensures
            r == xorshift32(old(self)@.state) >> 8u32,
            r == stream_state(old(self)@.seed, old(self)@.draws + 1) >> 8u32,
            r < 0x100_0000,
            final(self)@ == (RngView {
                seed: old(self)@.seed,
                draws: old(self)@.draws + 1,
                state: xorshift32(old(self)@.state),
            }),
    {
        let x = self.next_u32();
        assert(x >> 8u32 < 0x100_0000u32) by (bit_vector);
        x >> 8u32
    }
}

/// xorshift32 maps every non-zero state to a non-zero state: each of its three
/// steps `x ^ (x << k)` / `x ^ (x >> k)` is zero only for `x == 0`.
pub proof fn lemma_xorshift32_nonzero(x: u32)
    requires
        x != 0,
    ensures
        xorshift32(x) != 0,
{
    let a = x ^ (x << 13u32);
    assert(x != 0 ==> x ^ (x << 13u32) != 0) by (bit_vector);
    let b = a ^ (a >> 17u32);
    assert(a != 0 ==> a ^ (a >> 17u32) != 0) by (bit_vector);
    assert(b != 0 ==> b ^ (b << 5u32) != 0) by (bit_vector);
}

/// Whatever the seed, the generator never reaches the all-zero state, so its
/// stream never degenerates into a constant.
pub proof fn lemma_stream_never_zero(seed: u32, n: nat)
    ensures
        stream_state(seed, n) != 0,
    decreases n,
{
    if n > 0 {
        lemma_stream_never_zero(seed, (n - 1) as nat);
        lemma_xorshift32_nonzero(stream_state(seed, (n - 1) as nat));
    }
}

/// xorshift32 is one-to-one: each of its three steps can be undone, so two
/// different states never step to the same state. Together with
/// `lemma_xorshift32_nonzero` (and `xorshift32(0) == 0`) it permutes the
/// non-zero states.
pub proof fn lemma_xorshift32_injective(x: u32, y: u32)
    requires
        xorshift32(x) == xorshift32(y),
    ensures
        x == y,
{
    let ax = x ^ (x << 13u32);
    let ay = y ^ (y << 13u32);
    let b_x = ax ^ (ax >> 17u32);
    let b_y = ay ^ (ay >> 17u32);
    assert(b_x ^ (b_x << 5u32) == b_y ^ (b_y << 5u32) ==> b_x == b_y) by (bit_vector);
    assert(ax ^ (ax >> 17u32) == ay ^ (ay >> 17u32) ==> ax == ay) by (bit_vector);
    assert(x ^ (x << 13u32) == y ^ (y << 13u32) ==> x == y) by (bit_vector);
}

/// If the stream takes the same value at draws `i <= j`, stepping back `i`
/// times shows that it already took its starting value at draw `j - i`.
pub proof fn lemma_stream_back(seed: u32, i: nat, j: nat)
    requires
        i <= j,
        stream_state(seed, i) == stream_state(seed, j),
    ensures
        stream_state(seed, (j - i) as nat) == seed_state(seed),
    decreases i,
{
    if i > 0 {
        lemma_xorshift32_injective(
            stream_state(seed, (i - 1) as nat),
            stream_state(seed, (j - 1) as nat),
        );
        lemma_stream_back(seed, (i - 1) as nat, (j - 1) as nat);
    }
}

/// Once the stream is back at its starting value after `p` draws, it repeats
/// itself with period `p`.
pub proof fn lemma_stream_repeats(seed: u32, p: nat, n: nat)
    requires
        stream_state(seed, p) == seed_state(seed),
    ensures
        stream_state(seed, n + p) == stream_state(seed, n),
    decreases n,
{
    if n > 0 {
        lemma_stream_repeats(seed, p, (n - 1) as nat);
        assert(stream_state(seed, n + p) == xorshift32(stream_state(seed, ((n - 1) + p) as nat)));
    }
}

/// Whatever the seed, the stream is purely periodic: it comes back to its
/// starting value within `2^32 - 1` draws (there are only that many non-zero
/// states, and the step is one-to-one on them), and from then on repeats.
pub proof fn lemma_stream_periodic(seed: u32)
    ensures
        exists|p: nat|
            1 <= p < 0x1_0000_0000 && #[trigger] stream_state(seed, p) == seed_state(seed),
{
    let n: int = 0x1_0000_0000;
    let x = set_int_range(0, n);
    let f = |i: int| stream_state(seed, i as nat) as int;
    let y = x.map(f);
    let nonzero = set_int_range(1, n);
    lemma_int_range(0, n);
    lemma_int_range(1, n);
    assert(y.subset_of(nonzero)) by {
        assert forall|a: int| y.contains(a) implies nonzero.contains(a) by {
            let i = choose|i: int| x.contains(i) && a == f(i);
            lemma_stream_never_zero(seed, i as nat);
        }
    }
    lemma_len_subset(y, nonzero);
    if injective_on(f, x) {
        lemma_map_size(x, y, f);
        assert(false);
    }
    let (i1, i2) = choose|i1: int, i2: int|
        x.contains(i1) && x.contains(i2) && #[trigger] f(i1) == #[trigger] f(i2) && i1 != i2;
    let (i, j) = if i1 < i2 { (i1, i2) } else { (i2, i1) };
    assert(stream_state(seed, i as nat) == stream_state(seed, j as nat));
    lemma_stream_back(seed, i as nat, j as nat);
    let p = (j - i) as nat;
    assert(1 <= p < 0x1_0000_0000 && stream_state(seed, p) == seed_state(seed));
}

/// A non-zero seed is the generator's initial state as given; only the zero
/// seed, from which xorshift could never move, is replaced, by `0x9E37_79B9`.
pub proof fn lemma_seed_state(seed: u32)
    ensures
        seed != 0 ==> seed_state(seed) == seed,
        seed == 0 ==> seed_state(seed) == 0x9E37_79B9u32,
        stream_state(seed, 0) == seed_state(seed),
        stream_state(seed, 1) == xorshift32(seed_state(seed)),
{
    assert(stream_state(seed, 0) == seed_state(seed));
    assert(stream_state(seed, 1) == xorshift32(stream_state(seed, 0)));
}

/// One draw is linear over GF(2): the step of `x ^ y` is the exclusive or of
/// the steps of `x` and `y`. With `lemma_xorshift32_on_bits` this fixes the
/// step on every state.
pub proof fn lemma_xorshift32_linear(x: u32, y: u32)
    ensures
        xorshift32(x ^ y) == xorshift32(x) ^ xorshift32(y),
{
    assert(((x ^ y) ^ ((x ^ y) << 13u32)) == ((x ^ (x << 13u32)) ^ (y ^ (y << 13u32)))) by (bit_vector);
    let ax = x ^ (x << 13u32);
    let ay = y ^ (y << 13u32);
    assert(((ax ^ ay) ^ ((ax ^ ay) >> 17u32)) == ((ax ^ (ax >> 17u32)) ^ (ay ^ (ay >> 17u32)))) by (bit_vector);
    let bx = ax ^ (ax >> 17u32);
    let b2 = ay ^ (ay >> 17u32);
    assert(((bx ^ b2) ^ ((bx ^ b2) << 5u32)) == ((bx ^ (bx << 5u32)) ^ (b2 ^ (b2 << 5u32)))) by (bit_vector);
}

/// The step on each single-bit state: the columns of Marsaglia's
/// xorshift32 matrix `(I + L^5)(I + R^17)(I + L^13)`. Every state is the
/// exclusive or of its bits, so with `lemma_xorshift32_linear` these values
/// determine the step everywhere.
pub proof fn lemma_xorshift32_on_bits()
    ensures
        xorshift32(0x1u32) == 0x42021u32,
        xorshift32(0x2u32) == 0x84042u32,
        xorshift32(0x4u32) == 0x108084u32,
        xorshift32(0x8u32) == 0x210108u32,
        xorshift32(0x10u32) == 0x420231u32,
        xorshift32(0x20u32) == 0x840462u32,
        xorshift32(0x40u32) == 0x10808c4u32,
        xorshift32(0x80u32) == 0x2101188u32,
        xorshift32(0x100u32) == 0x4202310u32,
        xorshift32(0x200u32) == 0x8404620u32,
        xorshift32(0x400u32) == 0x10808c40u32,
        xorshift32(0x800u32) == 0x21011880u32,
        xorshift32(0x1000u32) == 0x42023100u32,
        xorshift32(0x2000u32) == 0x84046200u32,
        xorshift32(0x4000u32) == 0x808c400u32,
        xorshift32(0x8000u32) == 0x10118800u32,
        xorshift32(0x10000u32) == 0x20231000u32,
        xorshift32(0x20000u32) == 0x40462021u32,
        xorshift32(0x40000u32) == 0x808c4042u32,
        xorshift32(0x80000u32) == 0x1080084u32,
        xorshift32(0x100000u32) == 0x2100108u32,
        xorshift32(0x200000u32) == 0x4200210u32,
        xorshift32(0x400000u32) == 0x8400420u32,
        xorshift32(0x800000u32) == 0x10800840u32,
        xorshift32(0x1000000u32) == 0x21001080u32,
        xorshift32(0x2000000u32) == 0x42002100u32,
        xorshift32(0x4000000u32) == 0x84004200u32,
        xorshift32(0x8000000u32) == 0x8008400u32,
        xorshift32(0x10000000u32) == 0x10010800u32,
        xorshift32(0x20000000u32) == 0x20021000u32,
        xorshift32(0x40000000u32) == 0x40042000u32,
        xorshift32(0x80000000u32) == 0x80084000u32,
{
    assert(xorshift32(0x1u32) == 0x42021u32 && xorshift32(0x2u32) == 0x84042u32 && xorshift32(0x4u32) == 0x108084u32 && xorshift32(0x8u32) == 0x210108u32 && xorshift32(0x10u32) == 0x420231u32 && xorshift32(0x20u32) == 0x840462u32 && xorshift32(0x40u32) == 0x10808c4u32 && xorshift32(0x80u32) == 0x2101188u32 && xorshift32(0x100u32) == 0x4202310u32 && xorshift32(0x200u32) == 0x8404620u32 && xorshift32(0x400u32) == 0x10808c40u32 && xorshift32(0x800u32) == 0x21011880u32 && xorshift32(0x1000u32) == 0x42023100u32 && xorshift32(0x2000u32) == 0x84046200u32 && xorshift32(0x4000u32) == 0x808c400u32 && xorshift32(0x8000u32) == 0x10118800u32 && xorshift32(0x10000u32) == 0x20231000u32 && xorshift32(0x20000u32) == 0x40462021u32 && xorshift32(0x40000u32) == 0x808c4042u32 && xorshift32(0x80000u32) == 0x1080084u32 && xorshift32(0x100000u32) == 0x2100108u32 && xorshift32(0x200000u32) == 0x4200210u32 && xorshift32(0x400000u32) == 0x8400420u32 && xorshift32(0x800000u32) == 0x10800840u32 && xorshift32(0x1000000u32) == 0x21001080u32 && xorshift32(0x2000000u32) == 0x42002100u32 && xorshift32(0x4000000u32) == 0x84004200u32 && xorshift32(0x8000000u32) == 0x8008400u32 && xorshift32(0x10000000u32) == 0x10010800u32 && xorshift32(0x20000000u32) == 0x20021000u32 && xorshift32(0x40000000u32) == 0x40042000u32 && xorshift32(0x80000000u32) == 0x80084000u32) by (bit_vector);
}

/// The grain pool's seed: its first draw.
pub proof fn lemma_grain_pool_first_draw()
    ensures
        stream_state(0xC0FFEEu32, 1) == 4170923632u32,
{
    assert(xorshift32(0xC0FFEEu32) == 4170923632u32) by (bit_vector);
    assert(stream_state(0xC0FFEEu32, 0) == 0xC0FFEEu32);
    assert(stream_state(0xC0FFEEu32, 1) == xorshift32(stream_state(0xC0FFEEu32, 0)));
}

} // verus!
