use rand::{random, Bernoulli, Rng, RngCore, SeedableRng, StepRng, XorShiftRng, ALWAYS_TRUE};

fn rng(seed: u64) -> XorShiftRng {
    let mut state = seed;
    let mut bytes = [0u8; 16];
    for x in bytes.iter_mut() {
        const MUL: u64 = 6364136223846793005;
        const INC: u64 = 11634580027462260723;
        let oldstate = state;
        state = oldstate.wrapping_mul(MUL).wrapping_add(INC);

        let xorshifted = (((oldstate >> 18) ^ oldstate) >> 27) as u32;
        let rot = (oldstate >> 59) as u32;
        *x = xorshifted.rotate_right(rot) as u8;
    }
    XorShiftRng::from_seed(&bytes)
}

fn bernoulli(p: f64) -> Bernoulli {
    assert!(p >= 0.0 && p <= 1.0);
    if p == 1.0 {
        Bernoulli::from_int(ALWAYS_TRUE)
    } else {
        Bernoulli::from_int((p * 18446744073709551616.0) as u64)
    }
}

#[test]
fn test_fill_bytes_default() {
    let mut r = StepRng::new(0x11_22_33_44_55_66_77_88, 0);

    let lengths = [0, 1, 2, 3, 4, 5, 6, 7, 80, 81, 82, 83, 84, 85, 86, 87];
    for &n in lengths.iter() {
        let mut buffer = [0u8; 87];
        let v = &mut buffer[0..n];
        r.fill_bytes(v);

        for (i, &byte) in v.iter().enumerate() {
            if byte == 0 {
                panic!("byte {} of {} is zero", i, n)
            }
        }
    }
}

#[test]
fn test_fill() {
    let x = 9041086907909331047;
    let mut rng = StepRng::new(x, 0);

    let mut array = [0u64; 2];
    rng.fill(&mut array[..]);
    assert_eq!(array, [x, x]);
    assert_eq!(rng.next_u64(), x);

    let mut array = [0u32; 2];
    rng.fill(&mut array[..]);
    assert_eq!(array, [x as u32, (x >> 32) as u32]);
    assert_eq!(rng.next_u32(), x as u32);
}

#[test]
fn test_fill_empty() {
    let mut array = [0u32; 0];
    let mut rng = StepRng::new(0, 1);
    rng.fill(&mut array);
    rng.fill(&mut array[..]);
}

#[test]
fn test_gen_range() {
    let mut r = rng(101);
    for _ in 0..1000 {
        let a = r.gen_range(-4711, 17);
        assert!(a >= -4711 && a < 17);
        let a = r.gen_range(-3i8, 42);
        assert!(a >= -3i8 && a < 42i8);
        let a = r.gen_range(10u16, 99);
        assert!(a >= 10u16 && a < 99u16);
        let a = r.gen_range(-100i32, 2000);
        assert!(a >= -100i32 && a < 2000i32);
        let a = r.gen_range(12u32, 24u32);
        assert!(a >= 12u32 && a < 24u32);

        assert_eq!(r.gen_range(0u32, 1), 0u32);
        assert_eq!(r.gen_range(-12i64, -11), -12i64);
        assert_eq!(r.gen_range(3_000_000, 3_000_001), 3_000_000);
    }
}

#[test]
fn test_gen_bool() {
    let mut r = rng(105);
    for _ in 0..5 {
        assert_eq!(r.sample(bernoulli(0.0)), false);
        assert_eq!(r.sample(bernoulli(1.0)), true);
    }
}

#[test]
fn test_random() {
    let _n: usize = random().unwrap();
    let _o: Option<Option<i8>> = random().unwrap();
    let _many: ((),
                (usize,
                 isize,
                 Option<(u32, (bool,))>),
                (u8, i8, u16, i16, u32, i32, u64, i64)) = random().unwrap();
}

#[test]
fn test_gen_ratio_average() {
    const NUM: u32 = 3;
    const DENOM: u32 = 10;
    const N: u32 = 100_000;

    let mut sum: u32 = 0;
    let mut rng = rng(111);
    for _ in 0..N {
        if rng.gen_ratio(NUM, DENOM) {
            sum += 1;
        }
    }
    let avg = (sum as f64) / (N as f64);
    assert!((avg - (NUM as f64) / (DENOM as f64)).abs() < 1e-3);
}
