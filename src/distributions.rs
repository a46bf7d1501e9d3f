use vstd::prelude::*;
use crate::source::RngCore;

verus! {

/// A value distribution: a pure mapping from a bit source's output to a value.
///
/// The sample is a function of the distribution's parameters and the source's
/// state alone, as is the state the source is left in.
pub trait Distribution<T, R: RngCore> {
    /// The value drawn from `rng`, and the state that `rng` is left in.
    spec fn sample_spec(&self, rng: R) -> (T, R);

    /// Draws one value from `rng`.
    fn sample(&self, rng: &mut R) -> (r: T)
        ensures
            (r, *final(rng)) == self.sample_spec(*old(rng)),
    ;
}

/// The default distribution of a type: integers over their whole range, `bool`
/// as a fair coin, `Option` as a fair coin then a value, tuples element by element.
#[derive(Clone, Copy, Debug)]
pub struct Standard;

impl<R: RngCore> Distribution<u32, R> for Standard {
    open spec fn sample_spec(&self, rng: R) -> (u32, R) {
        (rng.peek_u32(), rng.after_u32())
    }

    fn sample(&self, rng: &mut R) -> (r: u32) {
        rng.next_u32()
    }
}


impl<R: RngCore> Distribution<u8, R> for Standard {
    open spec fn sample_spec(&self, rng: R) -> (u8, R) {
        (rng.peek_u32() as u8, rng.after_u32())
    }

    fn sample(&self, rng: &mut R) -> (r: u8) {
        rng.next_u32() as u8
    }
}

impl<R: RngCore> Distribution<i8, R> for Standard {
    open spec fn sample_spec(&self, rng: R) -> (i8, R) {
        (rng.peek_u32() as i8, rng.after_u32())
    }

    fn sample(&self, rng: &mut R) -> (r: i8) {
        rng.next_u32() as i8
    }
}

impl<R: RngCore> Distribution<u16, R> for Standard {
    open spec fn sample_spec(&self, rng: R) -> (u16, R) {
        (rng.peek_u32() as u16, rng.after_u32())
    }

    fn sample(&self, rng: &mut R) -> (r: u16) {
        rng.next_u32() as u16
    }
}

impl<R: RngCore> Distribution<i16, R> for Standard {
    open spec fn sample_spec(&self, rng: R) -> (i16, R) {
        (rng.peek_u32() as i16, rng.after_u32())
    }

    fn sample(&self, rng: &mut R) -> (r: i16) {
        rng.next_u32() as i16
    }
}

impl<R: RngCore> Distribution<i32, R> for Standard {
    open spec fn sample_spec(&self, rng: R) -> (i32, R) {
        (rng.peek_u32() as i32, rng.after_u32())
    }

    fn sample(&self, rng: &mut R) -> (r: i32) {
        rng.next_u32() as i32
    }
}

impl<R: RngCore> Distribution<u64, R> for Standard {
    open spec fn sample_spec(&self, rng: R) -> (u64, R) {
        (rng.peek_u64(), rng.after_u64())
    }

    fn sample(&self, rng: &mut R) -> (r: u64) {
        rng.next_u64()
    }
}

impl<R: RngCore> Distribution<i64, R> for Standard {
    open spec fn sample_spec(&self, rng: R) -> (i64, R) {
        (rng.peek_u64() as i64, rng.after_u64())
    }

    fn sample(&self, rng: &mut R) -> (r: i64) {
        rng.next_u64() as i64
    }
}

impl<R: RngCore> Distribution<usize, R> for Standard {
    open spec fn sample_spec(&self, rng: R) -> (usize, R) {
        (rng.peek_u64() as usize, rng.after_u64())
    }

    fn sample(&self, rng: &mut R) -> (r: usize) {
        rng.next_u64() as usize
    }
}

impl<R: RngCore> Distribution<isize, R> for Standard {
    open spec fn sample_spec(&self, rng: R) -> (isize, R) {
        (rng.peek_u64() as isize, rng.after_u64())
    }

    fn sample(&self, rng: &mut R) -> (r: isize) {
        rng.next_u64() as isize
    }
}

impl<R: RngCore> Distribution<bool, R> for Standard {
    open spec fn sample_spec(&self, rng: R) -> (bool, R) {
        ((rng.peek_u32() as i32) < 0, rng.after_u32())
    }

    fn sample(&self, rng: &mut R) -> (r: bool) {
        (rng.next_u32() as i32) < 0
    }
}

impl<T, R: RngCore> Distribution<Option<T>, R> for Standard where Standard: Distribution<T, R> {
    open spec fn sample_spec(&self, rng: R) -> (Option<T>, R) {
        let (b, r1) = Distribution::<bool, R>::sample_spec(self, rng);
        if b {
            let (v, r2) = Distribution::<T, R>::sample_spec(self, r1);
            (Some(v), r2)
        } else {
            (None, r1)
        }
    }

    fn sample(&self, rng: &mut R) -> (r: Option<T>) {
        let b: bool = Distribution::<bool, R>::sample(self, rng);
        if b {
            Some(Distribution::<T, R>::sample(self, rng))
        } else {
            None
        }
    }
}

impl<R: RngCore> Distribution<(), R> for Standard {
    open spec fn sample_spec(&self, rng: R) -> ((), R) {
        ((), rng)
    }

    fn sample(&self, rng: &mut R) -> (r: ()) {
    }
}

impl<A, R: RngCore> Distribution<(A,), R> for Standard where Standard: Distribution<A, R> {
    open spec fn sample_spec(&self, rng: R) -> ((A,), R) {
        let (x0, r0) = Distribution::<A, R>::sample_spec(self, rng);
        ((x0,), r0)
    }

    fn sample(&self, rng: &mut R) -> (r: (A,)) {
        let x0: A = Distribution::<A, R>::sample(self, rng);
        (x0,)
    }
}

impl<A, B, R: RngCore> Distribution<(A, B), R> for Standard where Standard: Distribution<A, R>, Standard: Distribution<B, R> {
    open spec fn sample_spec(&self, rng: R) -> ((A, B), R) {
        let (x0, r0) = Distribution::<A, R>::sample_spec(self, rng);
        let (x1, r1) = Distribution::<B, R>::sample_spec(self, r0);
        ((x0, x1), r1)
    }

    fn sample(&self, rng: &mut R) -> (r: (A, B)) {
        let x0: A = Distribution::<A, R>::sample(self, rng);
        let x1: B = Distribution::<B, R>::sample(self, rng);
        (x0, x1)
    }
}

impl<A, B, C, R: RngCore> Distribution<(A, B, C), R> for Standard where Standard: Distribution<A, R>, Standard: Distribution<B, R>, Standard: Distribution<C, R> {
    open spec fn sample_spec(&self, rng: R) -> ((A, B, C), R) {
        let (x0, r0) = Distribution::<A, R>::sample_spec(self, rng);
        let (x1, r1) = Distribution::<B, R>::sample_spec(self, r0);
        let (x2, r2) = Distribution::<C, R>::sample_spec(self, r1);
        ((x0, x1, x2), r2)
    }

    fn sample(&self, rng: &mut R) -> (r: (A, B, C)) {
        let x0: A = Distribution::<A, R>::sample(self, rng);
        let x1: B = Distribution::<B, R>::sample(self, rng);
        let x2: C = Distribution::<C, R>::sample(self, rng);
        (x0, x1, x2)
    }
}

impl<A, B, C, D, R: RngCore> Distribution<(A, B, C, D), R> for Standard where Standard: Distribution<A, R>, Standard: Distribution<B, R>, Standard: Distribution<C, R>, Standard: Distribution<D, R> {
    open spec fn sample_spec(&self, rng: R) -> ((A, B, C, D), R) {
        let (x0, r0) = Distribution::<A, R>::sample_spec(self, rng);
        let (x1, r1) = Distribution::<B, R>::sample_spec(self, r0);
        let (x2, r2) = Distribution::<C, R>::sample_spec(self, r1);
        let (x3, r3) = Distribution::<D, R>::sample_spec(self, r2);
        ((x0, x1, x2, x3), r3)
    }

    fn sample(&self, rng: &mut R) -> (r: (A, B, C, D)) {
        let x0: A = Distribution::<A, R>::sample(self, rng);
        let x1: B = Distribution::<B, R>::sample(self, rng);
        let x2: C = Distribution::<C, R>::sample(self, rng);
        let x3: D = Distribution::<D, R>::sample(self, rng);
        (x0, x1, x2, x3)
    }
}

impl<A, B, C, D, E, F, G, H, R: RngCore> Distribution<(A, B, C, D, E, F, G, H), R> for Standard where Standard: Distribution<A, R>, Standard: Distribution<B, R>, Standard: Distribution<C, R>, Standard: Distribution<D, R>, Standard: Distribution<E, R>, Standard: Distribution<F, R>, Standard: Distribution<G, R>, Standard: Distribution<H, R> {
    open spec fn sample_spec(&self, rng: R) -> ((A, B, C, D, E, F, G, H), R) {
        let (x0, r0) = Distribution::<A, R>::sample_spec(self, rng);
        let (x1, r1) = Distribution::<B, R>::sample_spec(self, r0);
        let (x2, r2) = Distribution::<C, R>::sample_spec(self, r1);
        let (x3, r3) = Distribution::<D, R>::sample_spec(self, r2);
        let (x4, r4) = Distribution::<E, R>::sample_spec(self, r3);
        let (x5, r5) = Distribution::<F, R>::sample_spec(self, r4);
        let (x6, r6) = Distribution::<G, R>::sample_spec(self, r5);
        let (x7, r7) = Distribution::<H, R>::sample_spec(self, r6);
        ((x0, x1, x2, x3, x4, x5, x6, x7), r7)
    }

    fn sample(&self, rng: &mut R) -> (r: (A, B, C, D, E, F, G, H)) {
        let x0: A = Distribution::<A, R>::sample(self, rng);
        let x1: B = Distribution::<B, R>::sample(self, rng);
        let x2: C = Distribution::<C, R>::sample(self, rng);
        let x3: D = Distribution::<D, R>::sample(self, rng);
        let x4: E = Distribution::<E, R>::sample(self, rng);
        let x5: F = Distribution::<F, R>::sample(self, rng);
        let x6: G = Distribution::<G, R>::sample(self, rng);
        let x7: H = Distribution::<H, R>::sample(self, rng);
        (x0, x1, x2, x3, x4, x5, x6, x7)
    }
}

/// The fixed-point probability that stands for certainty in a [`Bernoulli`].
pub const ALWAYS_TRUE: u64 = 0xFFFF_FFFF_FFFF_FFFF;

/// A boolean trial with a fixed-point probability: `true` with probability
/// `p_int / 2^64`, or always when `p_int` is [`ALWAYS_TRUE`].
#[derive(Clone, Copy, Debug, PartialEq, Eq, Structural)]
pub struct Bernoulli {
    pub p_int: u64,
}

impl Bernoulli {
    /// A trial whose probability is `p_int / 2^64` (certainty for [`ALWAYS_TRUE`]).
    pub fn from_int(p_int: u64) -> (r: Bernoulli)
        ensures
            r.p_int == p_int,
    {
        Bernoulli { p_int }
    }
}

impl<R: RngCore> Distribution<bool, R> for Bernoulli {
    /// Certainty draws nothing; any other trial draws one 64-bit word.
    open spec fn sample_spec(&self, rng: R) -> (bool, R) {
        if self.p_int == ALWAYS_TRUE {
            (true, rng)
        } else {
            (rng.peek_u64() < self.p_int, rng.after_u64())
        }
    }

    fn sample(&self, rng: &mut R) -> (r: bool) {
        if self.p_int == ALWAYS_TRUE {
            return true;
        }
        let v = rng.next_u64();
        v < self.p_int
    }
}

/// A trial of probability zero is never true, and one of certainty always is,
/// whatever the state of the source.
pub proof fn lemma_bernoulli_extremes<R: RngCore>(rng: R)
    ensures
        !Distribution::<bool, R>::sample_spec(&(Bernoulli { p_int: 0 }), rng).0,
        Distribution::<bool, R>::sample_spec(&(Bernoulli { p_int: ALWAYS_TRUE }), rng).0,
{
}

} // verus!
