use vstd::prelude::*;
use crate::error::{Error, ErrorKind};
use crate::fill::{le_value, read_le};
use crate::mock::{le_byte, le_prefix};
use crate::seed::SeedableRng;
use crate::source::RngCore;

verus! {

/// Writes the first `m` little-endian bytes of `w` into `dest` from `at`.
fn put_le(dest: &mut [u8], at: usize, w: u64, m: usize)
    requires
        m <= 8,
        at + m <= old(dest)@.len(),
    ensures
        final(dest)@.len() == old(dest)@.len(),
        final(dest)@.subrange(0, at as int) == old(dest)@.subrange(0, at as int),
        final(dest)@.subrange(at as int, at + m) == le_prefix(w, m as nat),
{
    let total = dest.len();
    let mut k: usize = 0;
    while k < m
        invariant
            total == dest@.len(),
            k <= m <= 8,
            at + m <= dest@.len(),
            dest@.len() == old(dest)@.len(),
            forall|j: int| 0 <= j < at ==> dest@[j] == old(dest)@[j],
            forall|j: int| 0 <= j < k ==> dest@[at + j] == le_byte(w, j),
        decreases m - k,
    {
        dest[at + k] = ((w >> ((8 * k) as u64)) & 0xff) as u8;
        k = k + 1;
    }
    assert(dest@.subrange(0, at as int) =~= old(dest)@.subrange(0, at as int));
    assert(dest@.subrange(at as int, at + m) =~= le_prefix(w, m as nat));
}

/// The xorshift generator of Marsaglia, on four 32-bit words. Fast, small, and not
/// suitable for cryptography.
#[derive(Clone, Copy, Debug, PartialEq, Eq, Structural)]
pub struct XorShiftRng {
    pub x: u32,
    pub y: u32,
    pub z: u32,
    pub w: u32,
}

/// The state that stands in for an all-zero seed, which xorshift cannot leave.
pub const ZERO_SEED_WORD: u32 = 0x0BAD_5EED;

impl XorShiftRng {
    /// One step of the generator; its output is the new `w`.
    pub open spec fn step(self) -> XorShiftRng {
        let t = self.x ^ (self.x << 11u32);
        XorShiftRng { x: self.y, y: self.z, z: self.w, w: self.w ^ (self.w >> 19u32) ^ (t ^ (t >> 8u32)) }
    }

    pub open spec fn out32(self) -> u32 {
        self.step().w
    }

    /// Two steps: the first output is the low half, the second the high half.
    pub open spec fn out64(self) -> u64 {
        ((self.step().step().w as u64) << 32u64) | (self.step().w as u64)
    }

    /// The bytes of a fill of length `n`: whole 64-bit words in little-endian
    /// order, then the start of one more word, of a 32-bit one for 4 bytes or fewer.
    pub open spec fn bytes(self, n: nat) -> Seq<u8>
        decreases n,
    {
        if n >= 8 {
            le_prefix(self.out64(), 8) + self.step().step().bytes((n - 8) as nat)
        } else if n > 4 {
            le_prefix(self.out64(), n)
        } else if n > 0 {
            le_prefix(self.out32() as u64, n)
        } else {
            Seq::empty()
        }
    }

    /// The state after a fill of length `n`.
    pub open spec fn after_fill(self, n: nat) -> XorShiftRng
        decreases n,
    {
        if n >= 8 {
            self.step().step().after_fill((n - 8) as nat)
        } else if n > 4 {
            self.step().step()
        } else if n > 0 {
            self.step()
        } else {
            self
        }
    }

    proof fn lemma_bytes_len(self, n: nat)
        ensures
            self.bytes(n).len() == n,
        decreases n,
    {
        if n >= 8 {
            self.step().step().lemma_bytes_len((n - 8) as nat);
        }
    }
}

impl RngCore for XorShiftRng {
    open spec fn peek_u32(&self) -> u32 {
        self.out32()
    }

    open spec fn after_u32(&self) -> Self {
        self.step()
    }

    open spec fn peek_u64(&self) -> u64 {
        self.out64()
    }

    open spec fn after_u64(&self) -> Self {
        self.step().step()
    }

    open spec fn peek_bytes(&self, n: nat) -> Seq<u8> {
        self.bytes(n)
    }

    open spec fn after_bytes(&self, n: nat) -> Self {
        self.after_fill(n)
    }

    /// This source never fails.
    open spec fn fill_fails(&self, n: nat) -> bool {
        false
    }

    open spec fn fill_error(&self, n: nat) -> Error {
        Error { kind: ErrorKind::Unexpected, code: None }
    }

    proof fn lemma_fill_shape(&self, n: nat) {
        self.lemma_bytes_len(n);
    }

    fn next_u32(&mut self) -> (r: u32) {
        let x = self.x;
        let t = x ^ (x << 11u32);
        self.x = self.y;
        self.y = self.z;
        self.z = self.w;
        let w = self.w;
        self.w = w ^ (w >> 19u32) ^ (t ^ (t >> 8u32));
        self.w
    }

    fn next_u64(&mut self) -> (r: u64) {
        let lo = self.next_u32() as u64;
        let hi = self.next_u32() as u64;
        (hi << 32u64) | lo
    }

    fn fill_bytes(&mut self, dest: &mut [u8]) {
        let ghost s0 = *self;
        let n = dest.len();
        let mut i: usize = 0;
        proof {
            s0.lemma_bytes_len(n as nat);
        }
        while n - i >= 8
            invariant
                i <= n,
                n == dest@.len(),
                dest@.subrange(0, i as int) + self.bytes((n - i) as nat) == s0.bytes(n as nat),
                self.after_fill((n - i) as nat) == s0.after_fill(n as nat),
            decreases n - i,
        {
            let ghost before = dest@;
            let w = self.next_u64();
            put_le(dest, i, w, 8);
            assert(dest@.subrange(0, i + 8) =~= before.subrange(0, i as int) + le_prefix(w, 8));
            assert(((n - i) as nat - 8) as nat == (n - (i + 8)) as nat);
            i = i + 8;
        }
        let m = n - i;
        let ghost before = dest@;
        if m > 4 {
            let w = self.next_u64();
            put_le(dest, i, w, m);
        } else if m > 0 {
            let w = self.next_u32();
            put_le(dest, i, w as u64, m);
        }
        assert(dest@ =~= dest@.subrange(0, i as int) + dest@.subrange(i as int, n as int));
        assert(dest@ =~= s0.bytes(n as nat));
    }

    fn try_fill_bytes(&mut self, dest: &mut [u8]) -> (r: Result<(), Error>) {
        proof {
            self.lemma_bytes_len(dest@.len());
        }
        self.fill_bytes(dest);
        Ok(())
    }
}

impl SeedableRng for XorShiftRng {
    /// Four little-endian 32-bit words; an all-zero seed stands for four
    /// copies of [`ZERO_SEED_WORD`].
    open spec fn seed_size() -> nat {
        16
    }

    open spec fn seeded(seed: Seq<u8>) -> XorShiftRng {
        XorShiftRng::from_words(
            le_value(seed.subrange(0, 4)) as u32,
            le_value(seed.subrange(4, 8)) as u32,
            le_value(seed.subrange(8, 12)) as u32,
            le_value(seed.subrange(12, 16)) as u32,
        )
    }

    fn seed_len() -> (r: usize) {
        16
    }

    fn from_seed(seed: &[u8]) -> (r: XorShiftRng) {
        let x = read_le(seed, 0, 4) as u32;
        let y = read_le(seed, 4, 4) as u32;
        let z = read_le(seed, 8, 4) as u32;
        let w = read_le(seed, 12, 4) as u32;
        if x == 0 && y == 0 && z == 0 && w == 0 {
            XorShiftRng { x: ZERO_SEED_WORD, y: ZERO_SEED_WORD, z: ZERO_SEED_WORD, w: ZERO_SEED_WORD }
        } else {
            XorShiftRng { x, y, z, w }
        }
    }
}

impl XorShiftRng {
    /// The generator whose state is the four words, the all-zero state replaced.
    pub open spec fn from_words(x: u32, y: u32, z: u32, w: u32) -> XorShiftRng {
        if x == 0 && y == 0 && z == 0 && w == 0 {
            XorShiftRng { x: ZERO_SEED_WORD, y: ZERO_SEED_WORD, z: ZERO_SEED_WORD, w: ZERO_SEED_WORD }
        } else {
            XorShiftRng { x, y, z, w }
        }
    }
}

} // verus!
