use vstd::prelude::*;
use crate::error::{Error, ErrorKind};
use crate::fill::{le_value, read_le};
use crate::mock::StepRng;
use crate::os::os_try_fill_bytes;
use crate::rng::{ratio_trial, zeroed};
use crate::source::RngCore;
use crate::uniform::range_draw;

verus! {

/// The library's error for a failure of the operating-system entropy source,
/// with the OS error code when there is one.
pub fn os_error(code: Option<i32>) -> (r: Error)
    ensures
        r.kind == ErrorKind::Unavailable,
        r.code == code,
{
    Error { kind: ErrorKind::Unavailable, code }
}

/// A source that can be built from a seed: the same seed gives the same source.
pub trait SeedableRng: RngCore {
    /// The length of a seed, in bytes.
    spec fn seed_size() -> nat;

    /// The source built from `seed`.
    spec fn seeded(seed: Seq<u8>) -> Self;

    /// The length of a seed, in bytes.
    fn seed_len() -> (r: usize)
        ensures
            r == Self::seed_size(),
    ;

    /// The source built from `seed`.
    fn from_seed(seed: &[u8]) -> (r: Self)
        requires
            seed@.len() == Self::seed_size(),
        ensures
            r == Self::seeded(seed@),
    ;

    /// A source seeded from the bytes that `rng`'s fallible fill yields, or that
    /// fill's error, unchanged.
    fn from_rng<S: RngCore>(rng: &mut S) -> (r: Result<Self, Error>)
        ensures
            r is Ok == !old(rng).fill_fails(Self::seed_size()),
            match r {
                Ok(v) => v == Self::seeded(old(rng).peek_bytes(Self::seed_size()))
                    && *final(rng) == old(rng).after_bytes(Self::seed_size()),
                Err(e) => e == old(rng).fill_error(Self::seed_size()),
            },
    {
        let n = Self::seed_len();
        let mut buf = zeroed(n);
        match rng.try_fill_bytes(buf.as_mut_slice()) {
            Ok(()) => Ok(Self::from_seed(buf.as_slice())),
            Err(e) => Err(e),
        }
    }
}

/// Construction from fresh operating-system entropy.
pub trait FromEntropy: SeedableRng {
    /// A source seeded from operating-system entropy, or the OS source's failure.
    /// Exactly one request is made of the OS source, with no retry; a caller
    /// that treats the failure as fatal panics on the `Err`.
    fn try_from_entropy() -> (r: Result<Self, Error>)
        ensures
            match r {
                Ok(v) => exists|s: Seq<u8>| s.len() == Self::seed_size() && v == Self::seeded(s),
                Err(e) => e.kind == ErrorKind::Unavailable,
            },
    ;
}

impl<R: SeedableRng> FromEntropy for R {
    fn try_from_entropy() -> (r: Result<R, Error>) {
        let n = R::seed_len();
        let mut buf = zeroed(n);
        match os_try_fill_bytes(buf.as_mut_slice()) {
            Ok(()) => Ok(R::from_seed(buf.as_slice())),
            Err(code) => Err(os_error(code)),
        }
    }
}

impl SeedableRng for StepRng {
    /// The first word, then the increment, each in little-endian order.
    open spec fn seed_size() -> nat {
        16
    }

    open spec fn seeded(seed: Seq<u8>) -> StepRng {
        StepRng {
            v: le_value(seed.subrange(0, 8)) as u64,
            a: le_value(seed.subrange(8, 16)) as u64,
        }
    }

    fn seed_len() -> (r: usize) {
        16
    }

    fn from_seed(seed: &[u8]) -> (r: StepRng) {
        StepRng { v: read_le(seed, 0, 8), a: read_le(seed, 8, 8) }
    }
}

/// One operation on a bit source, as a caller performs it: a 32-bit or 64-bit
/// word, a fill of `n` bytes, a range draw, or a ratio trial.
pub enum Op {
    NextU32,
    NextU64,
    Fill(nat),
    Range(bool, int),
    Ratio(u32, u32),
}

/// What an operation hands back.
pub enum Out {
    Word(int),
    Bytes(Seq<u8>),
    Flag(bool),
}

/// The output of `op` on `rng`, and the state it leaves `rng` in.
pub open spec fn apply_op<R: RngCore>(rng: R, op: Op) -> (Out, R) {
    match op {
        Op::NextU32 => (Out::Word(rng.peek_u32() as int), rng.after_u32()),
        Op::NextU64 => (Out::Word(rng.peek_u64() as int), rng.after_u64()),
        Op::Fill(n) => (Out::Bytes(rng.peek_bytes(n)), rng.after_bytes(n)),
        Op::Range(wide, span) => {
            let (off, next) = range_draw(rng, wide, span);
            (Out::Word(off), next)
        },
        Op::Ratio(numerator, denominator) => {
            let (b, next) = ratio_trial(rng, numerator, denominator);
            (Out::Flag(b), next)
        },
    }
}

/// The outputs of `ops` performed on `rng` one after the other.
pub open spec fn run_ops<R: RngCore>(rng: R, ops: Seq<Op>) -> Seq<Out>
    decreases ops.len(),
{
    if ops.len() == 0 {
        Seq::empty()
    } else {
        let (out, next) = apply_op(rng, ops[0]);
        seq![out] + run_ops(next, ops.drop_first())
    }
}

/// Two sources built from the same seed produce the same outputs for any
/// sequence of operations performed on both.
pub proof fn lemma_same_seed_same_outputs<R: SeedableRng>(s1: Seq<u8>, s2: Seq<u8>, ops: Seq<Op>)
    requires
        s1.len() == R::seed_size(),
        s1 == s2,
    ensures
        R::seeded(s1) == R::seeded(s2),
        run_ops(R::seeded(s1), ops) == run_ops(R::seeded(s2), ops),
{
}

} // verus!
