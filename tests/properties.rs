use rand::{
    Bernoulli, Error, ErrorKind, FromEntropy, Rng, RngCore, SeedableRng, Standard, StepRng, ThreadRng,
    XorShiftRng, ALWAYS_TRUE,
};

fn seeded(seed: u8) -> XorShiftRng {
    let mut bytes = [0u8; 16];
    for (i, b) in bytes.iter_mut().enumerate() {
        *b = seed.wrapping_mul(31).wrapping_add(i as u8 * 7 + 1);
    }
    XorShiftRng::from_seed(&bytes)
}

#[test]
fn range_sample_stays_in_bounds_and_fills_buckets_evenly() {
    let mut r = seeded(1);
    let mut buckets = [0u32; 10];
    for _ in 0..100_000 {
        let v = r.gen_range(0u32, 10);
        assert!(v < 10);
        buckets[v as usize] += 1;
    }
    for &count in buckets.iter() {
        assert!(count > 9_000 && count < 11_000, "bucket count {}", count);
    }
    let mut wide = [0u32; 4];
    for _ in 0..40_000 {
        let v = r.gen_range(-2i64, 2);
        assert!(v >= -2 && v < 2);
        wide[(v + 2) as usize] += 1;
    }
    for &count in wide.iter() {
        assert!(count > 9_000 && count < 11_000, "bucket count {}", count);
    }
}

#[test]
fn range_sample_rejects_words_outside_the_zone() {
    // 0xFFFF_FFFF lies above the zone for a span of 5 and is redrawn; the next
    // word's low half is 2.
    let mut r = StepRng::new(0xFFFF_FFFF, 3);
    assert_eq!(r.gen_range(0u32, 5), 2);
}

#[test]
fn range_sample_exact_values() {
    assert_eq!(StepRng::new(17, 0).gen_range(0u64, 10), 7);
    assert_eq!(StepRng::new(17, 0).gen_range(100i64, 110), 107);
    assert_eq!(StepRng::new(5, 0).gen_range(-4711, 17), -4706);
    assert_eq!(StepRng::new(300, 0).gen_range(-128i8, 127), -128 + (300 % 255) as i8);
    assert_eq!(StepRng::new(9, 0).gen_range(3usize, 7), 4);
}

#[test]
fn same_seed_gives_same_stream() {
    let mut a = seeded(42);
    let mut b = seeded(42);
    for i in 0..200u32 {
        assert_eq!(a.next_u32(), b.next_u32());
        assert_eq!(a.next_u64(), b.next_u64());
        assert_eq!(a.gen_range(-50, 50 + i as i32), b.gen_range(-50, 50 + i as i32));
        assert_eq!(a.gen_ratio(3, 7), b.gen_ratio(3, 7));
        let mut x = [0u8; 13];
        let mut y = [0u8; 13];
        a.fill_bytes(&mut x);
        b.fill_bytes(&mut y);
        assert_eq!(x, y);
    }
    assert_ne!(seeded(42).next_u64(), seeded(43).next_u64());
}

#[test]
fn fill_reads_little_endian_values() {
    let mut r = StepRng::new(0x0102_0304_0506_0708, 0);
    let mut halves = [0u16; 4];
    r.fill(&mut halves);
    assert_eq!(halves, [0x0708, 0x0506, 0x0304, 0x0102]);

    let mut r = StepRng::new(0xFFFF_FFFF_8000_0000, 0);
    let mut signed = [0i32; 2];
    r.fill(&mut signed[..]);
    assert_eq!(signed, [i32::MIN, -1]);

    let mut r = StepRng::new(0x0102_0304_0506_0708, 0);
    let mut bytes = [0u8; 3];
    r.fill(&mut bytes);
    assert_eq!(bytes, [0x08, 0x07, 0x06]);
}

#[test]
fn zero_length_fill_draws_nothing() {
    let mut r = StepRng::new(5, 1);
    let mut empty: [u64; 0] = [];
    r.fill(&mut empty);
    r.fill(&mut empty[..]);
    let mut no_bytes: [u8; 0] = [];
    r.fill_bytes(&mut no_bytes);
    assert!(r.try_fill(&mut no_bytes).is_ok());
    assert_eq!(r.next_u64(), 5);
}

#[test]
fn ratio_trial_boundaries_and_exact_values() {
    let mut r = StepRng::new(5, 1);
    for _ in 0..10 {
        assert!(!r.gen_ratio(0, 7));
        assert!(r.gen_ratio(7, 7));
    }
    assert_eq!(r.next_u64(), 5);
    assert!(StepRng::new(2, 0).gen_ratio(3, 10));
    assert!(!StepRng::new(5, 0).gen_ratio(3, 10));
}

#[test]
fn bernoulli_fixed_point_trials() {
    let mut r = seeded(7);
    for _ in 0..100 {
        assert!(!r.sample(Bernoulli::from_int(0)));
        assert!(r.sample(Bernoulli::from_int(ALWAYS_TRUE)));
    }
    let half = Bernoulli::from_int(1 << 63);
    assert!(StepRng::new(0, 0).sample(half));
    assert!(!StepRng::new(1 << 63, 0).sample(half));
}

#[test]
fn standard_values_are_exact() {
    assert_eq!(StepRng::new(0x1_0000_0005, 0).gen::<u32>(), 5);
    assert_eq!(StepRng::new(0x1_0000_0105, 0).gen::<u8>(), 5);
    assert_eq!(StepRng::new(0xFFFF_FFFF, 0).gen::<i32>(), -1);
    assert_eq!(StepRng::new(7, 0).gen::<u64>(), 7);
    assert!(!StepRng::new(5, 0).gen::<bool>());
    assert!(StepRng::new(0x8000_0000, 0).gen::<bool>());
    assert_eq!(StepRng::new(0x8000_0001, 0).gen::<Option<u8>>(), Some(1));
    assert_eq!(StepRng::new(1, 0).gen::<Option<u8>>(), None);
    assert_eq!(StepRng::new(1, 1).gen::<(u64, u64, u64)>(), (1, 2, 3));
}

#[test]
fn sample_iter_draws_in_order() {
    let mut r = StepRng::new(1, 1);
    let v: Vec<u64> = r.sample_iter(&Standard, 3);
    assert_eq!(v, vec![1, 2, 3]);
    assert_eq!(r.next_u64(), 4);
}

#[test]
fn choose_and_shuffle() {
    let mut r = StepRng::new(4, 0);
    let empty: [u32; 0] = [];
    assert_eq!(r.choose_element(&empty), None);
    assert_eq!(r.choose_element(&[10, 20, 30]), Some(&20));

    let mut values = [1, 2, 3];
    if let Some(v) = r.choose_element_mut(&mut values) {
        *v = 9;
    }
    assert_eq!(values, [1, 9, 3]);

    let mut values = [1, 2, 3];
    StepRng::new(0, 0).shuffle(&mut values);
    assert_eq!(values, [2, 3, 1]);

    let mut r = seeded(3);
    let mut many: Vec<u32> = (0..100).collect();
    r.shuffle(&mut many);
    assert_ne!(many, (0..100).collect::<Vec<u32>>());
    many.sort();
    assert_eq!(many, (0..100).collect::<Vec<u32>>());
}

#[test]
fn errors_carry_their_kind() {
    let e = Error::new(ErrorKind::Transient);
    assert_eq!(e.kind, ErrorKind::Transient);
    assert_eq!(e.code, None);
    assert!(ErrorKind::Transient.should_retry());
    assert!(ErrorKind::NotReady.should_retry());
    assert!(!ErrorKind::Unavailable.should_retry());
    assert!(!ErrorKind::Unexpected.should_retry());
    assert!(!ErrorKind::Unsupported.should_retry());
}

#[test]
fn seeding_from_bytes_and_from_another_source() {
    let seed = [1u8, 0, 0, 0, 0, 0, 0, 0, 2, 0, 0, 0, 0, 0, 0, 0];
    let mut s = StepRng::from_seed(&seed);
    assert_eq!(s.next_u64(), 1);
    assert_eq!(s.next_u64(), 3);

    let mut src = StepRng::new(0x0807_0605_0403_0201, 0x0808_0808_0808_0808);
    let x = XorShiftRng::from_rng(&mut src).unwrap();
    let bytes: Vec<u8> = (1..=16).collect();
    assert_eq!(x, XorShiftRng::from_seed(&bytes));

    let zero = XorShiftRng::from_seed(&[0u8; 16]);
    let word = 0x0BAD_5EEDu32.to_le_bytes();
    let replaced: Vec<u8> = word.iter().cycle().take(16).cloned().collect();
    assert_eq!(zero, XorShiftRng::from_seed(&replaced));
}

#[test]
fn xorshift_matches_its_recurrence() {
    let words = [1u32, 2, 3, 4];
    let mut seed = Vec::new();
    for w in words.iter() {
        seed.extend_from_slice(&w.to_le_bytes());
    }
    let mut r = XorShiftRng::from_seed(&seed);
    let (mut x, mut y, mut z, mut w) = (1u32, 2u32, 3u32, 4u32);
    for _ in 0..10 {
        let t = x ^ (x << 11);
        x = y;
        y = z;
        z = w;
        w = w ^ (w >> 19) ^ (t ^ (t >> 8));
        assert_eq!(r.next_u32(), w);
    }
}

#[test]
fn entropy_seeding_gives_fresh_generators() {
    let zero = XorShiftRng::from_seed(&[0u8; 16]);
    let a = XorShiftRng::try_from_entropy().unwrap();
    let b = XorShiftRng::try_from_entropy().unwrap();
    assert_ne!(a, zero);
    assert_ne!(b, zero);
    assert_ne!(a, b);
}

#[test]
fn thread_context_seeds_once_and_continues() {
    let mut ctx = ThreadRng::new();
    let first: u64 = ctx.try_gen().unwrap();
    let second: u64 = ctx.try_gen().unwrap();
    let third: (u32, u32) = ctx.try_gen().unwrap();
    assert_ne!(first, second);
    assert_ne!((first, second), (third.0 as u64, third.1 as u64));
}

#[test]
fn try_fill_matches_fill_when_the_source_succeeds() {
    let mut a = StepRng::new(0x0102_0304_0506_0708, 0x1111);
    let mut b = a;
    let mut da = [0u32; 5];
    let mut db = [0u32; 5];
    assert_eq!(a.try_fill(&mut da[..]), Ok(()));
    b.fill(&mut db[..]);
    assert_eq!(da, db);
    assert_eq!(a, b);
    assert_eq!(da[0], 0x0506_0708);
    assert_eq!(da[1], 0x0102_0304);

    let mut seeded_a = XorShiftRng::from_seed(&[9u8; 16]);
    let mut seeded_b = XorShiftRng::from_seed(&[9u8; 16]);
    let mut xa = [0i64; 3];
    let mut xb = [0i64; 3];
    assert!(seeded_a.try_fill(&mut xa).is_ok());
    seeded_b.fill(&mut xb);
    assert_eq!(xa, xb);
    assert_eq!(seeded_a.next_u64(), seeded_b.next_u64());
}

#[test]
fn fill_reads_pointer_sized_values() {
    let x: u64 = 0x8000_0000_0000_0001;
    let mut r = StepRng::new(x, 0);
    let mut words = [0usize; 2];
    r.fill(&mut words);
    let mut signed = [0isize; 1];
    r.fill(&mut signed[..]);
    if core::mem::size_of::<usize>() == 8 {
        assert_eq!(words, [x as usize, x as usize]);
        assert_eq!(signed, [x as i64 as isize]);
    } else {
        assert_eq!(words, [x as u32 as usize, (x >> 32) as u32 as usize]);
    }
}
