use tvm_serve::float_bits::{narrow, to_i64, to_u64, widen};

fn samples() -> Vec<f64> {
    let mut v = vec![
        0.0,
        -0.0,
        0.5,
        -0.5,
        1.0,
        -1.0,
        1.5,
        2.5,
        -2.75,
        0.1,
        1.0 / 3.0,
        f64::MIN_POSITIVE,
        5e-324,
        f64::MAX,
        f64::MIN,
        f32::MAX as f64,
        f32::MIN_POSITIVE as f64,
        f32::from_bits(1) as f64,
        3.4028235677973366e38,
        3.4028235677973362e38,
        9.007199254740993e15,
        9.223372036854775e18,
        9.223372036854776e18,
        -9.223372036854776e18,
        -9.223372036854778e18,
        1.8446744073709552e19,
        1.844674407370955e19,
        1e300,
        -1e300,
        1e-300,
        7.006492321624085e-46,
        7.006492321624086e-46,
        2.1019476964872256e-45,
        1.1754942807573642e-38,
    ];
    let mut x: u64 = 0x9e3779b97f4a7c15;
    for _ in 0..20000 {
        x = x.wrapping_mul(6364136223846793005).wrapping_add(1442695040888963407);
        let f = f64::from_bits(x);
        if f.is_finite() {
            v.push(f);
        }
        // the same digits near the range of singles
        let e = 860 + (x >> 32) % 300;
        let near = f64::from_bits((x & 0x800f_ffff_ffff_ffff) | (e << 52));
        v.push(near);
        // ties between two singles
        v.push(f64::from_bits((near.to_bits() >> 29 << 29) | 0x1000_0000));
    }
    v
}

#[test]
fn narrowing_rounds_as_the_hardware_does() {
    for x in samples() {
        assert_eq!(narrow(x.to_bits()), (x as f32).to_bits(), "{:e}", x);
    }
}

#[test]
fn widening_is_what_the_hardware_does() {
    for b in 0..=0xffffu32 {
        for s in [b, b << 16, (b << 16) | 0x1234, b.wrapping_mul(0x9e37_79b9)] {
            let f = f32::from_bits(s);
            if f.is_finite() {
                assert_eq!(widen(s), (f as f64).to_bits(), "{:x}", s);
                assert_eq!(narrow(widen(s)), s);
            }
        }
    }
}

#[test]
fn integers_are_cut_and_clamped() {
    for x in samples() {
        assert_eq!(to_i64(x.to_bits()), x as i64, "{:e}", x);
        assert_eq!(to_u64(x.to_bits()), x as u64, "{:e}", x);
    }
    assert_eq!(to_i64(1e300f64.to_bits()), i64::MAX);
    assert_eq!(to_i64((-1e300f64).to_bits()), i64::MIN);
    assert_eq!(to_u64((-3.5f64).to_bits()), 0);
}
