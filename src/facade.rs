use vstd::prelude::*;
use crate::distributions::{Distribution, Standard};
use crate::error::{Error, ErrorKind};
use crate::prng::XorShiftRng;
use crate::rng::Rng;
use crate::seed::{FromEntropy, SeedableRng};

verus! {

/// A per-thread (or per-task) generator context. It holds no generator until
/// first use; the first draw seeds one from operating-system entropy, and later
/// draws continue that generator's stream. It is torn down with its owner.
#[derive(Debug)]
pub struct ThreadRng {
    inner: Option<XorShiftRng>,
}

impl ThreadRng {
    /// The generator that later draws continue, once there is one.
    pub closed spec fn engine(self) -> Option<XorShiftRng> {
        self.inner
    }

    /// An empty context: nothing is seeded until the first draw.
    pub fn new() -> (r: ThreadRng)
        ensures
            r.engine() is None,
    {
        ThreadRng { inner: None }
    }

    /// One value of `T`'s default distribution, from this context's generator.
    /// On first use the generator is seeded from operating-system entropy; if the
    /// OS source fails, its error is returned and the context stays empty.
    pub fn try_gen<T>(&mut self) -> (r: Result<T, Error>)
        where Standard: Distribution<T, XorShiftRng>
        ensures
            old(self).engine() is Some ==> r is Ok && final(self).engine() is Some
                && (r->Ok_0, final(self).engine().unwrap())
                    == Distribution::<T, XorShiftRng>::sample_spec(&Standard, old(self).engine().unwrap()),
            old(self).engine() is None ==> match r {
                Ok(v) => final(self).engine() is Some && exists|s: Seq<u8>|
                    s.len() == XorShiftRng::seed_size()
                        && (v, final(self).engine().unwrap())
                            == Distribution::<T, XorShiftRng>::sample_spec(&Standard, XorShiftRng::seeded(s)),
                Err(e) => e.kind == ErrorKind::Unavailable && final(self).engine() is None,
            },
    {
        let mut rng = match self.inner {
            Some(rng) => rng,
            None => match XorShiftRng::try_from_entropy() {
                Ok(rng) => rng,
                Err(e) => {
                    return Err(e);
                },
            },
        };
        let v: T = rng.gen();
        self.inner = Some(rng);
        Ok(v)
    }
}

/// One value of `T`'s default distribution, drawn from a fresh [`ThreadRng`]
/// context, whose generator is seeded with operating-system entropy; or the OS
/// source's error. Each call seeds a new generator: a caller that wants one
/// cached generator per thread keeps a [`ThreadRng`] for the thread (as the
/// thread-local `thread_random` entry point around this library does).
pub fn random<T>() -> (r: Result<T, Error>)
    where Standard: Distribution<T, XorShiftRng>
    ensures
        match r {
            Ok(v) => exists|s: Seq<u8>|
                s.len() == XorShiftRng::seed_size()
                    && v == Distribution::<T, XorShiftRng>::sample_spec(&Standard, XorShiftRng::seeded(s)).0,
            Err(e) => e.kind == ErrorKind::Unavailable,
        },
{
    let mut ctx = ThreadRng::new();
    ctx.try_gen()
}

} // verus!
