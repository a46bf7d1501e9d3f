use vstd::prelude::*;
use vstd::arithmetic::div_mod::{lemma_mod_sub_multiples_vanish, lemma_fundamental_div_mod, lemma_mod_pos_bound};
use crate::source::RngCore;

verus! {

/// How many raw words a range draw rejects in a row before it reduces the last
/// one anyway. Each word is accepted with probability above one half, so reaching
/// this bound has probability below 2^-4294967295: the result is uniform in practice.
pub const MAX_REDRAWS: u32 = 0xFFFF_FFFF;

/// The largest accepted 32-bit word for a span: `zone32(span) + 1` is the largest
/// multiple of `span` that is at most 2^32.
pub open spec fn zone32(span: int) -> int {
    0xFFFF_FFFFint - (0x1_0000_0000int % span)
}

/// The largest accepted 64-bit word for a span.
pub open spec fn zone64(span: int) -> int {
    0xFFFF_FFFF_FFFF_FFFFint - (0x1_0000_0000_0000_0000int % span)
}

/// Rejection sampling on 32-bit words: the offset in `[0, span)` and the source's
/// next state, with at most `fuel` redraws.
pub open spec fn draw32<R: RngCore>(rng: R, span: int, fuel: nat) -> (int, R)
    decreases fuel,
{
    let v = rng.peek_u32() as int;
    if v <= zone32(span) || fuel == 0 {
        (v % span, rng.after_u32())
    } else {
        draw32(rng.after_u32(), span, (fuel - 1) as nat)
    }
}

/// Rejection sampling on 64-bit words.
pub open spec fn draw64<R: RngCore>(rng: R, span: int, fuel: nat) -> (int, R)
    decreases fuel,
{
    let v = rng.peek_u64() as int;
    if v <= zone64(span) || fuel == 0 {
        (v % span, rng.after_u64())
    } else {
        draw64(rng.after_u64(), span, (fuel - 1) as nat)
    }
}

/// A uniform offset in `[0, span)` drawn from `rng`, on 64-bit words when `wide`,
/// else on 32-bit words; and the source's next state.
pub open spec fn range_draw<R: RngCore>(rng: R, wide: bool, span: int) -> (int, R) {
    if wide {
        draw64(rng, span, MAX_REDRAWS as nat)
    } else {
        draw32(rng, span, MAX_REDRAWS as nat)
    }
}

/// The offset of a range draw lies in `[0, span)`.
pub proof fn lemma_range_draw_bound<R: RngCore>(rng: R, wide: bool, span: int)
    requires
        span > 0,
    ensures
        0 <= range_draw(rng, wide, span).0 < span,
{
    lemma_draw32_bound(rng, span, MAX_REDRAWS as nat);
    lemma_draw64_bound(rng, span, MAX_REDRAWS as nat);
}

proof fn lemma_draw32_bound<R: RngCore>(rng: R, span: int, fuel: nat)
    requires
        span > 0,
    ensures
        0 <= draw32(rng, span, fuel).0 < span,
    decreases fuel,
{
    lemma_mod_pos_bound(rng.peek_u32() as int, span);
    if fuel > 0 {
        lemma_draw32_bound(rng.after_u32(), span, (fuel - 1) as nat);
    }
}

proof fn lemma_draw64_bound<R: RngCore>(rng: R, span: int, fuel: nat)
    requires
        span > 0,
    ensures
        0 <= draw64(rng, span, fuel).0 < span,
    decreases fuel,
{
    lemma_mod_pos_bound(rng.peek_u64() as int, span);
    if fuel > 0 {
        lemma_draw64_bound(rng.after_u64(), span, (fuel - 1) as nat);
    }
}

/// The acceptance zone is exact: the accepted 32-bit words `0..=zone32(span)` are a
/// whole number of spans, so every offset is reached by equally many of them, and
/// fewer than `span` words are ever rejected.
pub proof fn lemma_zone32_whole_spans(span: int)
    requires
        0 < span <= 0x1_0000_0000,
    ensures
        (zone32(span) + 1) % span == 0,
        0x1_0000_0000 - span < zone32(span) + 1 <= 0x1_0000_0000,
{
    let m: int = 0x1_0000_0000;
    lemma_fundamental_div_mod(m, span);
    lemma_mod_pos_bound(m, span);
    assert((span * (m / span)) % span == 0) by {
        vstd::arithmetic::div_mod::lemma_mod_multiples_basic(m / span, span);
        vstd::arithmetic::mul::lemma_mul_is_commutative(m / span, span);
    }
}

/// The acceptance zone on 64-bit words is a whole number of spans too.
pub proof fn lemma_zone64_whole_spans(span: int)
    requires
        0 < span <= 0x1_0000_0000_0000_0000,
    ensures
        (zone64(span) + 1) % span == 0,
        0x1_0000_0000_0000_0000 - span < zone64(span) + 1 <= 0x1_0000_0000_0000_0000,
{
    let m: int = 0x1_0000_0000_0000_0000;
    lemma_fundamental_div_mod(m, span);
    lemma_mod_pos_bound(m, span);
    assert((span * (m / span)) % span == 0) by {
        vstd::arithmetic::div_mod::lemma_mod_multiples_basic(m / span, span);
        vstd::arithmetic::mul::lemma_mul_is_commutative(m / span, span);
    }
}

/// Draws a uniform offset in `[0, span)` by rejection sampling on 32-bit words.
pub fn sample_span_u32<R: RngCore>(rng: &mut R, span: u32) -> (r: u32)
    requires
        span > 0,
    ensures
        r < span,
        r as int == draw32(*old(rng), span as int, MAX_REDRAWS as nat).0,
        *final(rng) == draw32(*old(rng), span as int, MAX_REDRAWS as nat).1,
{
    proof {
        lemma_mod_sub_multiples_vanish(0x1_0000_0000, span as int);
    }
    let reject: u32 = (u32::MAX - span + 1) % span;
    let zone: u32 = u32::MAX - reject;
    let mut left: u32 = MAX_REDRAWS;
    loop
        invariant
            span > 0,
            zone as int == zone32(span as int),
            draw32(*old(rng), span as int, MAX_REDRAWS as nat) == draw32(*rng, span as int, left as nat),
        decreases left,
    {
        let v = rng.next_u32();
        if v <= zone || left == 0 {
            return v % span;
        }
        left = left - 1;
    }
}

/// Draws a uniform offset in `[0, span)` by rejection sampling on 64-bit words.
pub fn sample_span_u64<R: RngCore>(rng: &mut R, span: u64) -> (r: u64)
    requires
        span > 0,
    ensures
        r < span,
        r as int == draw64(*old(rng), span as int, MAX_REDRAWS as nat).0,
        *final(rng) == draw64(*old(rng), span as int, MAX_REDRAWS as nat).1,
{
    proof {
        lemma_mod_sub_multiples_vanish(0x1_0000_0000_0000_0000, span as int);
    }
    let reject: u64 = (u64::MAX - span + 1) % span;
    let zone: u64 = u64::MAX - reject;
    let mut left: u32 = MAX_REDRAWS;
    loop
        invariant
            span > 0,
            zone as int == zone64(span as int),
            draw64(*old(rng), span as int, MAX_REDRAWS as nat) == draw64(*rng, span as int, left as nat),
        decreases left,
    {
        let v = rng.next_u64();
        if v <= zone || left == 0 {
            return v % span;
        }
        left = left - 1;
    }
}

} // verus!

verus! {

/// An integer type that ranges can be sampled over.
pub trait SampleUniform: Sized + Copy {
    /// The value as a mathematical integer.
    spec fn as_int(self) -> int;

    /// Whether a draw for this type consumes 64-bit words (else 32-bit words).
    spec fn wide() -> bool;

    /// A uniform value in `[low, high)`.
    fn sample_single<R: RngCore>(low: Self, high: Self, rng: &mut R) -> (r: Self)
        requires
            low.as_int() < high.as_int(),
        ensures
            low.as_int() <= r.as_int() < high.as_int(),
            r.as_int() == low.as_int() + range_draw(*old(rng), Self::wide(), high.as_int() - low.as_int()).0,
            *final(rng) == range_draw(*old(rng), Self::wide(), high.as_int() - low.as_int()).1,
    ;
}

impl SampleUniform for u8 {
    open spec fn as_int(self) -> int {
        self as int
    }

    open spec fn wide() -> bool {
        false
    }

    fn sample_single<R: RngCore>(low: u8, high: u8, rng: &mut R) -> (r: u8) {
        let off = sample_span_u32(rng, (high - low) as u32);
        low + off as u8
    }
}

impl SampleUniform for i8 {
    open spec fn as_int(self) -> int {
        self as int
    }

    open spec fn wide() -> bool {
        false
    }

    fn sample_single<R: RngCore>(low: i8, high: i8, rng: &mut R) -> (r: i8) {
        let off = sample_span_u32(rng, (high as i32 - low as i32) as u32);
        (low as i32 + off as i32) as i8
    }
}

impl SampleUniform for u16 {
    open spec fn as_int(self) -> int {
        self as int
    }

    open spec fn wide() -> bool {
        false
    }

    fn sample_single<R: RngCore>(low: u16, high: u16, rng: &mut R) -> (r: u16) {
        let off = sample_span_u32(rng, (high - low) as u32);
        low + off as u16
    }
}

impl SampleUniform for i16 {
    open spec fn as_int(self) -> int {
        self as int
    }

    open spec fn wide() -> bool {
        false
    }

    fn sample_single<R: RngCore>(low: i16, high: i16, rng: &mut R) -> (r: i16) {
        let off = sample_span_u32(rng, (high as i32 - low as i32) as u32);
        (low as i32 + off as i32) as i16
    }
}

impl SampleUniform for u32 {
    open spec fn as_int(self) -> int {
        self as int
    }

    open spec fn wide() -> bool {
        false
    }

    fn sample_single<R: RngCore>(low: u32, high: u32, rng: &mut R) -> (r: u32) {
        let off = sample_span_u32(rng, high - low);
        low + off
    }
}

impl SampleUniform for i32 {
    open spec fn as_int(self) -> int {
        self as int
    }

    open spec fn wide() -> bool {
        false
    }

    fn sample_single<R: RngCore>(low: i32, high: i32, rng: &mut R) -> (r: i32) {
        let off = sample_span_u32(rng, (high as i64 - low as i64) as u32);
        (low as i64 + off as i64) as i32
    }
}

impl SampleUniform for u64 {
    open spec fn as_int(self) -> int {
        self as int
    }

    open spec fn wide() -> bool {
        true
    }

    fn sample_single<R: RngCore>(low: u64, high: u64, rng: &mut R) -> (r: u64) {
        let off = sample_span_u64(rng, high - low);
        low + off
    }
}

impl SampleUniform for i64 {
    open spec fn as_int(self) -> int {
        self as int
    }

    open spec fn wide() -> bool {
        true
    }

    fn sample_single<R: RngCore>(low: i64, high: i64, rng: &mut R) -> (r: i64) {
        let off = sample_span_u64(rng, (high as i128 - low as i128) as u64);
        (low as i128 + off as i128) as i64
    }
}

impl SampleUniform for usize {
    open spec fn as_int(self) -> int {
        self as int
    }

    open spec fn wide() -> bool {
        true
    }

    fn sample_single<R: RngCore>(low: usize, high: usize, rng: &mut R) -> (r: usize) {
        let off = sample_span_u64(rng, (high - low) as u64);
        low + off as usize
    }
}

impl SampleUniform for isize {
    open spec fn as_int(self) -> int {
        self as int
    }

    open spec fn wide() -> bool {
        true
    }

    fn sample_single<R: RngCore>(low: isize, high: isize, rng: &mut R) -> (r: isize) {
        let off = sample_span_u64(rng, (high as i128 - low as i128) as u64);
        (low as i128 + off as i128) as isize
    }
}

} // verus!
