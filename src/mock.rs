use vstd::prelude::*;
use vstd::arithmetic::div_mod::{lemma_add_mod_noop, lemma_mod_breakdown, lemma_small_mod};
use crate::error::{Error, ErrorKind};
use crate::fill::{chunk, le_value, lemma_pow256_pos, pow256};
use crate::source::RngCore;

verus! {

/// The byte `j` (0 for the least significant) of the word `w`.
pub open spec fn le_byte(w: u64, j: int) -> u8 {
    ((w >> ((8 * j) as u64)) & 0xff) as u8
}

/// The first `m` bytes of `w` in little-endian order.
pub open spec fn le_prefix(w: u64, m: nat) -> Seq<u8> {
    Seq::new(m, |j: int| le_byte(w, j))
}

/// A source that yields an arithmetic progression of 64-bit words: `initial`,
/// `initial + increment`, ... (wrapping). For tests and for fixed-output checks.
#[derive(Clone, Copy, Debug, PartialEq, Eq, Structural)]
pub struct StepRng {
    pub v: u64,
    pub a: u64,
}

impl StepRng {
    /// The `k`th word that this source yields from its current state.
    pub open spec fn word(self, k: int) -> u64 {
        ((self.v as int + k * self.a as int) % 0x1_0000_0000_0000_0000) as u64
    }

    /// A source whose first word is `initial` and whose words step by `increment`.
    pub fn new(initial: u64, increment: u64) -> (r: StepRng)
        ensures
            r.v == initial,
            r.a == increment,
    {
        StepRng { v: initial, a: increment }
    }

    proof fn lemma_word_step(self, k: int)
        requires
            k >= 0,
        ensures
            self.word(k + 1) == (self.word(k) as int + self.a as int) % 0x1_0000_0000_0000_0000,
            self.word(0) == self.v,
    {
        let m: int = 0x1_0000_0000_0000_0000;
        let x: int = self.v as int + k * self.a as int;
        assert(self.v as int + k * self.a as int + self.a as int == self.v as int + (k + 1) * self.a as int) by (nonlinear_arith);
        lemma_small_mod(self.a as nat, m as nat);
        lemma_add_mod_noop(x, self.a as int, m);
        lemma_small_mod(self.v as nat, m as nat);
    }
}

impl RngCore for StepRng {
    open spec fn peek_u32(&self) -> u32 {
        self.v as u32
    }

    open spec fn after_u32(&self) -> Self {
        StepRng { v: self.word(1), a: self.a }
    }

    open spec fn peek_u64(&self) -> u64 {
        self.v
    }

    open spec fn after_u64(&self) -> Self {
        StepRng { v: self.word(1), a: self.a }
    }

    open spec fn peek_bytes(&self, n: nat) -> Seq<u8> {
        Seq::new(n, |i: int| le_byte(self.word(i / 8), i % 8))
    }

    open spec fn after_bytes(&self, n: nat) -> Self {
        StepRng { v: self.word(((n + 7) / 8) as int), a: self.a }
    }

    /// This source never fails.
    open spec fn fill_fails(&self, n: nat) -> bool {
        false
    }

    open spec fn fill_error(&self, n: nat) -> Error {
        Error { kind: ErrorKind::Unexpected, code: None }
    }

    proof fn lemma_fill_shape(&self, n: nat) {
        self.lemma_word_step(0);
    }

    fn next_u32(&mut self) -> (r: u32) {
        self.next_u64() as u32
    }

    fn next_u64(&mut self) -> (r: u64) {
        proof {
            self.lemma_word_step(0);
        }
        let r = self.v;
        self.v = self.v.wrapping_add(self.a);
        r
    }

    fn fill_bytes(&mut self, dest: &mut [u8]) {
        let ghost s0 = *self;
        let n = dest.len();
        let mut i: usize = 0;
        let mut w: u64 = 0;
        proof {
            s0.lemma_word_step(0);
        }
        while i < n
            invariant
                n == dest@.len(),
                n == old(dest)@.len(),
                i <= n,
                self.a == s0.a,
                self.v == s0.word(((i + 7) / 8) as int),
                i % 8 != 0 ==> w == s0.word((i / 8) as int),
                forall|j: int| 0 <= j < i ==> dest@[j] == le_byte(s0.word(j / 8), j % 8),
            decreases n - i,
        {
            if i % 8 == 0 {
                proof {
                    s0.lemma_word_step(((i + 7) / 8) as int);
                }
                w = self.next_u64();
            }
            dest[i] = ((w >> ((8 * (i % 8)) as u64)) & 0xff) as u8;
            i = i + 1;
        }
        assert(dest@ =~= s0.peek_bytes(n as nat));
    }

    fn try_fill_bytes(&mut self, dest: &mut [u8]) -> (r: Result<(), Error>) {
        self.fill_bytes(dest);
        Ok(())
    }
}

proof fn lemma_byte_of_shift(x: u64, j: u64, s: u64)
    requires
        j + s < 8,
    ensures
        (x >> (8 * (j + s))) & 0xff == ((x >> (8 * s)) >> (8 * j)) & 0xff,
{
    assert((x >> (8 * (j + s))) & 0xff == ((x >> (8 * s)) >> (8 * j)) & 0xff) by (bit_vector)
        requires
            j + s < 8,
    ;
}

/// Reading the first `m` little-endian bytes of `x` gives `x` modulo `256^m`.
pub proof fn lemma_le_value_of_prefix(x: u64, m: nat)
    requires
        m <= 8,
    ensures
        le_value(le_prefix(x, m)) == x as int % pow256(m) as int,
    decreases m,
{
    if m == 0 {
        assert(le_prefix(x, m) =~= Seq::<u8>::empty());
    } else {
        let k = (m - 1) as nat;
        let y: u64 = x >> 8u64;
        lemma_le_value_of_prefix(y, k);
        assert forall|j: int| 0 <= j < k implies le_prefix(x, m).drop_first()[j] == le_prefix(y, k)[j] by {
            lemma_byte_of_shift(x, j as u64, 1);
            assert((8 * (j + 1)) as u64 == 8 * ((j as u64) + 1u64));
        }
        assert(le_prefix(x, m).drop_first() =~= le_prefix(y, k));
        assert(x & 0xff == x % 256 && x >> 8u64 == x / 256) by (bit_vector);
        assert(le_byte(x, 0) == x % 256) by {
            assert(x >> 0u64 == x) by (bit_vector);
        }
        lemma_pow256_pos(k);
        lemma_mod_breakdown(x as int, 256, pow256(k) as int);
    }
}

/// A source that repeats one word: filling a buffer of 64-bit words from it reads
/// the word back into every element, on any host byte order.
pub proof fn lemma_fill_round_trip_u64(x: u64, n: nat, i: int)
    requires
        0 <= i < n,
    ensures
        le_value(chunk((StepRng { v: x, a: 0 }).peek_bytes(8 * n), i, 8)) == x,
{
    let s = StepRng { v: x, a: 0 };
    assert forall|k: int| 0 <= k < 8 implies chunk(s.peek_bytes(8 * n), i, 8)[k] == le_prefix(x, 8)[k] by {
        assert((i * 8 + k) / 8 == i && (i * 8 + k) % 8 == k) by (nonlinear_arith)
            requires
                0 <= k < 8,
        ;
        assert(i * 8 + k < 8 * n) by (nonlinear_arith)
            requires
                0 <= k < 8,
                0 <= i < n,
        ;
        assert(s.word(i) == x) by (nonlinear_arith)
            requires
                s.a == 0,
                s.v == x,
                s.word(i) == ((s.v as int + i * s.a as int) % 0x1_0000_0000_0000_0000) as u64,
        ;
    }
    assert(chunk(s.peek_bytes(8 * n), i, 8) =~= le_prefix(x, 8));
    lemma_le_value_of_prefix(x, 8);
    reveal_with_fuel(pow256, 9);
}

/// A source that repeats one word: filling a buffer of 32-bit words from it reads
/// the word's low half into the even elements and its high half into the odd ones,
/// on any host byte order.
pub proof fn lemma_fill_round_trip_u32(x: u64, n: nat, i: int)
    requires
        0 <= i < 2 * n,
    ensures
        le_value(chunk((StepRng { v: x, a: 0 }).peek_bytes(8 * n), i, 4))
            == if i % 2 == 0 { x as int % 0x1_0000_0000 } else { x as int / 0x1_0000_0000 },
{
    let s = StepRng { v: x, a: 0 };
    let h: int = i % 2;
    let y: u64 = if h == 0 { x } else { x >> 32u64 };
    assert forall|k: int| 0 <= k < 4 implies chunk(s.peek_bytes(8 * n), i, 4)[k] == le_prefix(y, 4)[k] by {
        assert((i * 4 + k) / 8 == i / 2 && (i * 4 + k) % 8 == 4 * (i % 2) + k) by (nonlinear_arith)
            requires
                0 <= k < 4,
                0 <= i,
        ;
        assert(i * 4 + k < 8 * n) by (nonlinear_arith)
            requires
                0 <= k < 4,
                0 <= i < 2 * n,
        ;
        assert(s.word(i / 2) == x) by (nonlinear_arith)
            requires
                s.a == 0,
                s.v == x,
                s.word(i / 2) == ((s.v as int + (i / 2) * s.a as int) % 0x1_0000_0000_0000_0000) as u64,
        ;
        if h == 1 {
            lemma_byte_of_shift(x, k as u64, 4);
            assert((8 * (4 + k)) as u64 == 8 * ((k as u64) + 4u64));
        } else {
            assert((8 * (0 + k)) as u64 == 8 * (k as u64));
        }
    }
    assert(chunk(s.peek_bytes(8 * n), i, 4) =~= le_prefix(y, 4));
    lemma_le_value_of_prefix(y, 4);
    reveal_with_fuel(pow256, 5);
    assert(pow256(4) == 0x1_0000_0000);
    assert(x >> 32u64 == x / 0x1_0000_0000) by (bit_vector);
    assert(x / 0x1_0000_0000 < 0x1_0000_0000) by (bit_vector);
    if h == 1 {
        lemma_small_mod((x / 0x1_0000_0000) as nat, 0x1_0000_0000);
    }
}

} // verus!
