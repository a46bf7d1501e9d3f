use vstd::prelude::*;
use crate::distributions::{Distribution, Standard};
use crate::error::Error;
use crate::fill::AsByteSliceMut;
use crate::source::RngCore;
use crate::uniform::{SampleUniform, range_draw, sample_span_u32};

verus! {

/// The ratio trial: `true` with probability `numerator / denominator`, decided on
/// a uniform draw in `[0, denominator)`; and the source's next state. The two
/// certain cases, `numerator == 0` and `numerator == denominator`, draw nothing.
pub open spec fn ratio_trial<R: RngCore>(rng: R, numerator: u32, denominator: u32) -> (bool, R) {
    if numerator == denominator {
        (true, rng)
    } else if numerator == 0 {
        (false, rng)
    } else {
        let (off, next) = range_draw(rng, false, denominator as int);
        (off < numerator, next)
    }
}

/// A zeroed byte buffer of length `n`.
pub(crate) fn zeroed(n: usize) -> (r: Vec<u8>)
    ensures
        r@.len() == n,
{
    let mut v: Vec<u8> = Vec::with_capacity(n);
    let mut i: usize = 0;
    while i < n
        invariant
            i <= n,
            v@.len() == i,
        decreases n - i,
    {
        v.push(0);
        i = i + 1;
    }
    v
}

/// Relies on std's `<[T]>::swap`: it exchanges the elements at `i` and `j`.
#[verifier::external_body]
fn slice_swap<T>(values: &mut [T], i: usize, j: usize)
    requires
        i < old(values)@.len(),
        j < old(values)@.len(),
    ensures
        final(values)@ == old(values)@.update(i as int, old(values)@[j as int]).update(j as int, old(values)@[i as int]),
{
    values.swap(i, j)
}

/// Exchanging two elements keeps the multiset of elements.
proof fn lemma_swap_keeps_multiset<T>(s: Seq<T>, i: int, j: int)
    requires
        0 <= i < s.len(),
        0 <= j < s.len(),
    ensures
        s.update(i, s[j]).update(j, s[i]).to_multiset() == s.to_multiset(),
{
    broadcast use vstd::seq_lib::to_multiset_update, vstd::seq_lib::to_multiset_contains;
    broadcast use vstd::multiset::group_multiset_axioms;
    let t = s.update(i, s[j]);
    let m = s.to_multiset();
    assert(t[j] == s[j]);
    assert(m.count(s[i]) > 0);
    assert(m.insert(s[j]).remove(s[i]).insert(s[i]).remove(s[j]) =~= m);
}

/// The Fisher-Yates shuffle of `s`, with the draws taken from `rng`: the first
/// `k` positions are still to be placed; position `k - 1` is exchanged with a
/// uniform position in `[0, k)`.
pub open spec fn shuffled<T, R: RngCore>(s: Seq<T>, rng: R, k: nat) -> (Seq<T>, R)
    decreases k,
{
    if k <= 1 {
        (s, rng)
    } else {
        let (j, next) = range_draw(rng, true, k as int);
        let last = (k - 1) as int;
        shuffled(s.update(last, s[j]).update(j, s[last]), next, (k - 1) as nat)
    }
}

/// The sampling operations, built once over any bit source.
pub trait Rng: RngCore {
    /// A value of the type's default distribution ([`Standard`]).
    fn gen<T>(&mut self) -> (r: T)
        where Standard: Distribution<T, Self>
        ensures
            (r, *final(self)) == Distribution::<T, Self>::sample_spec(&Standard, *old(self)),
    {
        Distribution::<T, Self>::sample(&Standard, self)
    }

    /// A uniform value in `[low, high)`, free of modulo bias.
    fn gen_range<T: SampleUniform>(&mut self, low: T, high: T) -> (r: T)
        requires
            low.as_int() < high.as_int(),
        ensures
            low.as_int() <= r.as_int() < high.as_int(),
            r.as_int() == low.as_int() + range_draw(*old(self), T::wide(), high.as_int() - low.as_int()).0,
            *final(self) == range_draw(*old(self), T::wide(), high.as_int() - low.as_int()).1,
    {
        T::sample_single(low, high, self)
    }

    /// A value of the distribution `distr`.
    fn sample<T, D: Distribution<T, Self>>(&mut self, distr: D) -> (r: T)
        ensures
            (r, *final(self)) == distr.sample_spec(*old(self)),
    {
        distr.sample(self)
    }

    /// `n` values of the distribution `distr`, drawn one after the other.
    fn sample_iter<T, D: Distribution<T, Self>>(&mut self, distr: &D, n: usize) -> (r: Vec<T>)
        ensures
            r@.len() == n,
            forall|i: int| 0 <= i < n ==> r@[i] == #[trigger] distr.sample_spec(draws_before(*old(self), *distr, i)).0,
            *final(self) == draws_before(*old(self), *distr, n as int),
    {
        let mut out: Vec<T> = Vec::with_capacity(n);
        let mut i: usize = 0;
        while i < n
            invariant
                i <= n,
                out@.len() == i,
                forall|j: int| 0 <= j < i ==> out@[j] == #[trigger] distr.sample_spec(draws_before(*old(self), *distr, j)).0,
                *self == draws_before(*old(self), *distr, i as int),
            decreases n - i,
        {
            let v = distr.sample(self);
            out.push(v);
            i = i + 1;
        }
        out
    }

    /// Fills `dest` with random values: the source's bytes for exactly the
    /// buffer's size, each value read from its chunk in little-endian order.
    fn fill<T: AsByteSliceMut + ?Sized>(&mut self, dest: &mut T)
        requires
            old(dest).byte_count() <= usize::MAX,
        ensures
            final(dest).byte_count() == old(dest).byte_count(),
            final(dest).reads_le(old(self).peek_bytes(old(dest).byte_count())),
            *final(self) == old(self).after_bytes(old(dest).byte_count()),
            old(dest).byte_count() == 0 ==> *final(self) == *old(self),
    {
        let n = dest.byte_len();
        let mut buf = zeroed(n);
        proof {
            old(self).lemma_fill_shape(n as nat);
        }
        self.fill_bytes(buf.as_mut_slice());
        dest.set_le_bytes(buf.as_slice());
    }

    /// Fills `dest` as [`Rng::fill`] does through the source's fallible byte
    /// fill; when that fill fails, returns its error and leaves `dest` as it was.
    fn try_fill<T: AsByteSliceMut + ?Sized>(&mut self, dest: &mut T) -> (r: Result<(), Error>)
        requires
            old(dest).byte_count() <= usize::MAX,
        ensures
            final(dest).byte_count() == old(dest).byte_count(),
            r is Ok == !old(self).fill_fails(old(dest).byte_count()),
            r is Err ==> r == Err::<(), Error>(old(self).fill_error(old(dest).byte_count())),
            r is Err ==> final(dest).same_values(old(dest)),
            r is Ok ==> final(dest).reads_le(old(self).peek_bytes(old(dest).byte_count())),
            r is Ok ==> *final(self) == old(self).after_bytes(old(dest).byte_count()),
    {
        let n = dest.byte_len();
        let mut buf = zeroed(n);
        proof {
            old(self).lemma_fill_shape(n as nat);
        }
        match self.try_fill_bytes(buf.as_mut_slice()) {
            Ok(()) => {
                dest.set_le_bytes(buf.as_slice());
                Ok(())
            },
            Err(e) => {
                proof {
                    dest.lemma_same_values_refl();
                }
                Err(e)
            },
        }
    }

    /// `true` with probability `numerator / denominator`, exactly: no rounding
    /// through floating point.
    fn gen_ratio(&mut self, numerator: u32, denominator: u32) -> (r: bool)
        requires
            0 < denominator,
            numerator <= denominator,
        ensures
            r == ratio_trial(*old(self), numerator, denominator).0,
            *final(self) == ratio_trial(*old(self), numerator, denominator).1,
            numerator == denominator ==> r,
            numerator == 0 ==> !r,
    {
        if numerator == denominator {
            return true;
        }
        if numerator == 0 {
            return false;
        }
        let off = sample_span_u32(self, denominator);
        off < numerator
    }

    /// A uniformly chosen element of `values`, or `None` when it is empty (and
    /// then nothing is drawn).
    fn choose_element<'a, T>(&mut self, values: &'a [T]) -> (r: Option<&'a T>)
        ensures
            match r {
                None => values@.len() == 0 && *final(self) == *old(self),
                Some(v) => values@.len() > 0
                    && *v == values@[range_draw(*old(self), true, values@.len() as int).0]
                    && *final(self) == range_draw(*old(self), true, values@.len() as int).1,
            },
    {
        let n = values.len();
        if n == 0 {
            None
        } else {
            let i: usize = self.gen_range(0usize, n);
            Some(&values[i])
        }
    }

    /// A uniformly chosen element of `values`, to modify in place, or `None` when
    /// it is empty (and then nothing is drawn).
    fn choose_element_mut<'a, T>(&mut self, values: &'a mut [T]) -> (r: Option<&'a mut T>)
        ensures
            match r {
                None => old(values)@.len() == 0 && *final(self) == *old(self) && final(values)@ == old(values)@,
                Some(v) => old(values)@.len() > 0
                    && *v == old(values)@[range_draw(*old(self), true, old(values)@.len() as int).0]
                    && *final(self) == range_draw(*old(self), true, old(values)@.len() as int).1
                    && final(values)@ == old(values)@.update(range_draw(*old(self), true, old(values)@.len() as int).0, *final(v)),
            },
    {
        let n = values.len();
        if n == 0 {
            None
        } else {
            let i: usize = self.gen_range(0usize, n);
            Some(&mut values[i])
        }
    }

    /// Shuffles `values` in place: a uniform permutation, by Fisher-Yates.
    fn shuffle<T>(&mut self, values: &mut [T])
        ensures
            final(values)@.to_multiset() == old(values)@.to_multiset(),
            final(values)@ == shuffled(old(values)@, *old(self), old(values)@.len()).0,
            *final(self) == shuffled(old(values)@, *old(self), old(values)@.len()).1,
    {
        let n = values.len();
        let mut k: usize = n;
        while k > 1
            invariant
                k <= n,
                n == values@.len(),
                values@.to_multiset() == old(values)@.to_multiset(),
                shuffled(old(values)@, *old(self), n as nat) == shuffled(values@, *self, k as nat),
            decreases k,
        {
            let j: usize = self.gen_range(0usize, k);
            proof {
                lemma_swap_keeps_multiset(values@, (k - 1) as int, j as int);
            }
            slice_swap(values, k - 1, j);
            k = k - 1;
        }
    }
}

/// The state a source reaches after `k` draws from `distr`.
pub open spec fn draws_before<T, R: RngCore, D: Distribution<T, R>>(rng: R, distr: D, k: int) -> R
    decreases k,
{
    if k <= 0 {
        rng
    } else {
        distr.sample_spec(draws_before(rng, distr, k - 1)).1
    }
}

impl<R: RngCore> Rng for R {}

} // verus!
