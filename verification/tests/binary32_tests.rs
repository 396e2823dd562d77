use html2pdf::types::F32Bits;

fn rng(state: &mut u64) -> u64 {
    *state = state.wrapping_mul(6364136223846793005).wrapping_add(1442695040888963407);
    *state >> 11
}

fn sample(state: &mut u64) -> u32 {
    let r = rng(state);
    match r % 8 {
        0 => (r >> 8) as u32,
        1 => ((r >> 8) as u32) & 0x807F_FFFF,
        2 => 0x7F80_0000 | (((r >> 8) as u32) & 0x8000_0000),
        3 => ((r >> 8) as u32 & 0x8000_0000) | (((r >> 20) as u32 % 256) << 23),
        4 => (((r >> 8) as u32) & 0x8000_0000) | (((r >> 16) as u32 % 8 + 120) << 23) | ((r >> 30) as u32 & 0x7F_FFFF),
        5 => (((r >> 8) as u32) & 0x8000_0000) | (((r >> 16) as u32 % 4 + 250) << 23) | ((r >> 30) as u32 & 0x7F_FFFF),
        6 => (r >> 8) as u32 & 0x8000_0000,
        _ => (((r >> 8) as u32) & 0x8000_0000) | (((r >> 16) as u32 % 3 + 1) << 23) | ((r >> 30) as u32 & 0x7F_FFFF),
    }
}

fn check_sum(a: u32, b: u32) {
    let expect = f32::from_bits(a) + f32::from_bits(b);
    let got = F32Bits(a).sum(&F32Bits(b)).0;
    if expect.is_nan() {
        assert!(f32::from_bits(got).is_nan(), "{:#x} + {:#x}", a, b);
    } else {
        assert_eq!(got, expect.to_bits(), "{:#x} + {:#x}", a, b);
    }
    let expect = f32::from_bits(a) - f32::from_bits(b);
    let got = F32Bits(a).difference(&F32Bits(b)).0;
    if expect.is_nan() {
        assert!(f32::from_bits(got).is_nan(), "{:#x} - {:#x}", a, b);
    } else {
        assert_eq!(got, expect.to_bits(), "{:#x} - {:#x}", a, b);
    }
}

#[test]
fn test_sum_matches_hardware() {
    let mut state = 0x5eed_u64;
    for _ in 0..200_000 {
        let a = sample(&mut state);
        let b = sample(&mut state);
        check_sum(a, b);
        // a nearby operand, to exercise cancellation and ties
        let c = a ^ ((rng(&mut state) as u32) & 0x8000_00FF);
        check_sum(a, c);
    }
}

#[test]
fn test_sum_edge_cases() {
    let cases: [f32; 14] = [
        0.0, -0.0, 1.0, -1.0, 0.5, 3.0e38, -3.0e38, f32::MAX, f32::MIN_POSITIVE, 1.0e-45, 16777216.0, 1.0e20,
        f32::INFINITY, f32::NEG_INFINITY,
    ];
    for x in cases {
        for y in cases {
            check_sum(x.to_bits(), y.to_bits());
        }
        check_sum(x.to_bits(), f32::NAN.to_bits());
    }
    assert_eq!(F32Bits(0.0f32.to_bits()).sum(&F32Bits((-0.0f32).to_bits())), F32Bits(0));
    assert_eq!(F32Bits((-0.0f32).to_bits()).sum(&F32Bits((-0.0f32).to_bits())), F32Bits(0x8000_0000));
    assert_eq!(F32Bits(1.0f32.to_bits()).difference(&F32Bits(1.0f32.to_bits())), F32Bits(0));
    assert_eq!(F32Bits(f32::MAX.to_bits()).sum(&F32Bits(f32::MAX.to_bits())), F32Bits(f32::INFINITY.to_bits()));
    assert_eq!(F32Bits(100.0f32.to_bits()).sum(&F32Bits(50.0f32.to_bits())), F32Bits(150.0f32.to_bits()));
}

#[test]
fn test_max_and_order() {
    let mut state = 0xabcd_u64;
    for _ in 0..100_000 {
        let a = sample(&mut state);
        let b = sample(&mut state);
        let (x, y) = (f32::from_bits(a), f32::from_bits(b));
        assert_eq!(F32Bits(a).le(&F32Bits(b)), x <= y);
        assert_eq!(F32Bits(a).lt(&F32Bits(b)), x < y);
        assert_eq!(F32Bits(a).gt(&F32Bits(b)), x > y);
        let m = f32::from_bits(F32Bits(a).max(&F32Bits(b)).0);
        let e = x.max(y);
        if e.is_nan() {
            assert!(m.is_nan());
        } else {
            assert_eq!(m, e);
        }
    }
    assert_eq!(F32Bits(f32::NAN.to_bits()).max(&F32Bits(2.0f32.to_bits())), F32Bits(2.0f32.to_bits()));
    assert_eq!(F32Bits(2.0f32.to_bits()).max(&F32Bits(f32::NAN.to_bits())), F32Bits(2.0f32.to_bits()));
}

fn check_product(a: u32, b: u32) {
    let expect = f32::from_bits(a) * f32::from_bits(b);
    let got = F32Bits(a).product(&F32Bits(b)).0;
    if expect.is_nan() {
        assert!(f32::from_bits(got).is_nan(), "{:#x} * {:#x}", a, b);
    } else {
        assert_eq!(got, expect.to_bits(), "{:#x} * {:#x}", a, b);
    }
}

#[test]
fn test_product_matches_hardware() {
    let mut state = 0x7777_u64;
    for _ in 0..200_000 {
        let a = sample(&mut state);
        let b = sample(&mut state);
        check_product(a, b);
        // operands whose product lands near the subnormal range
        let c = (a & 0x807F_FFFF) | ((((rng(&mut state) % 60) as u32) + 30) << 23);
        let d = (b & 0x807F_FFFF) | ((((rng(&mut state) % 60) as u32) + 30) << 23);
        check_product(c, d);
    }
    let cases: [f32; 12] = [0.0, -0.0, 1.0, -1.5, 0.8, 12.0, f32::MAX, f32::MIN_POSITIVE, 1.0e-45, 3.0e-39,
        f32::INFINITY, f32::NEG_INFINITY];
    for x in cases {
        for y in cases {
            check_product(x.to_bits(), y.to_bits());
        }
    }
    assert_eq!(F32Bits(12.0f32.to_bits()).product(&F32Bits(0.8f32.to_bits())), F32Bits((12.0f32 * 0.8f32).to_bits()));
}

fn check_quotient(a: u32, b: u32) {
    let expect = f32::from_bits(a) / f32::from_bits(b);
    let got = F32Bits(a).quotient(&F32Bits(b)).0;
    if expect.is_nan() {
        assert!(f32::from_bits(got).is_nan(), "{:#x} / {:#x}", a, b);
    } else {
        assert_eq!(got, expect.to_bits(), "{:#x} / {:#x}", a, b);
    }
}

#[test]
fn test_quotient_matches_hardware() {
    let mut state = 0x4242_u64;
    for _ in 0..200_000 {
        let a = sample(&mut state);
        let b = sample(&mut state);
        check_quotient(a, b);
        let c = (a & 0x807F_FFFF) | ((((rng(&mut state) % 80) as u32) + 1) << 23);
        let d = (b & 0x807F_FFFF) | ((((rng(&mut state) % 80) as u32) + 170) << 23);
        check_quotient(c, d);
        check_quotient(d, c);
    }
    let cases: [f32; 13] = [0.0, -0.0, 1.0, -3.0, 0.1, 100.0, 2.0, f32::MAX, f32::MIN_POSITIVE, 1.0e-45, 3.0e-39,
        f32::INFINITY, f32::NEG_INFINITY];
    for x in cases {
        for y in cases {
            check_quotient(x.to_bits(), y.to_bits());
        }
    }
    assert_eq!(F32Bits(1.0f32.to_bits()).quotient(&F32Bits(3.0f32.to_bits())), F32Bits((1.0f32 / 3.0f32).to_bits()));
}
