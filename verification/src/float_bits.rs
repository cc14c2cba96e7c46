//! IEEE 754 numbers by their bit patterns.
//!
//! Tensor elements of type FP32 and FP64 travel through this crate as the bits
//! of the numbers. This module holds the conversions that the wire formats need:
//! truncation to an integer, rounding to single precision, and the exact
//! widening back to double precision.
//!
//! Magnitudes are counted in units of `2^-1074`, the smallest positive double:
//! in that unit every finite number of either format is a natural number.
use vstd::arithmetic::div_mod::{
    lemma_div_by_multiple, lemma_div_denominator, lemma_fundamental_div_mod,
    lemma_fundamental_div_mod_converse,
};
use vstd::arithmetic::mul::{lemma_mul_is_associative, lemma_mul_is_commutative};
use vstd::arithmetic::power2::{
    lemma2_to64, lemma2_to64_rest, lemma_pow2_adds, lemma_pow2_pos, lemma_pow2_strictly_increases,
    lemma_pow2_unfold, pow2,
};
use vstd::bits::{lemma_u64_shl_is_mul, lemma_u64_shr_is_div};
use vstd::prelude::*;

verus! {

/// The bit pattern of positive infinity in single precision.
pub const INFINITY_32: u32 = 0x7f80_0000;

/// `2^52`, the implicit leading bit of a double's significand.
pub const LEAD_64: u64 = 0x10_0000_0000_0000;

/// `2^23`, the implicit leading bit of a single's significand.
pub const LEAD_32: u32 = 0x80_0000;

/// The sign of a double: set for negative numbers and negative zero.
pub open spec fn negative64(b: u64) -> bool {
    b >= 0x8000_0000_0000_0000
}

/// The eleven exponent bits of a double.
pub open spec fn exponent64(b: u64) -> nat {
    ((b / LEAD_64) % 2048) as nat
}

/// The fraction bits of a double.
pub open spec fn fraction64(b: u64) -> nat {
    (b % LEAD_64) as nat
}

/// Neither an infinity nor a NaN.
pub open spec fn finite64(b: u64) -> bool {
    exponent64(b) < 2047
}

/// The significand of a finite double, with its leading bit.
pub open spec fn significand64(b: u64) -> nat {
    if exponent64(b) == 0 {
        fraction64(b)
    } else {
        (LEAD_64 + fraction64(b)) as nat
    }
}

/// The exponent of a finite double, one for the subnormal ones.
pub open spec fn scale64(b: u64) -> nat {
    if exponent64(b) == 0 {
        1
    } else {
        exponent64(b)
    }
}

/// The magnitude of a finite double, in units of `2^-1074`.
pub open spec fn magnitude64(b: u64) -> nat {
    significand64(b) * pow2((scale64(b) - 1) as nat)
}

/// The sign of a single.
pub open spec fn negative32(b: u32) -> bool {
    b >= 0x8000_0000
}

/// The eight exponent bits of a single.
pub open spec fn exponent32(b: u32) -> nat {
    ((b / LEAD_32) % 256) as nat
}

/// The fraction bits of a single.
pub open spec fn fraction32(b: u32) -> nat {
    (b % LEAD_32) as nat
}

/// Neither an infinity nor a NaN.
pub open spec fn finite32(b: u32) -> bool {
    exponent32(b) < 255
}

/// The magnitude, in units of `2^-1074`, of the single whose bits without the
/// sign are `a`. Infinity counts as `2^128`, the value that would come next.
pub open spec fn magnitude32(a: nat) -> nat {
    if a < LEAD_32 {
        a * pow2(925)
    } else {
        ((LEAD_32 + a % LEAD_32 as nat) as nat) * pow2((924 + a / LEAD_32 as nat) as nat)
    }
}

/// `n / d` rounded to the nearest integer, a tie to the even one.
pub open spec fn round_even(n: nat, d: nat) -> nat {
    let q = n / d;
    let rem = n % d;
    if 2 * rem < d || (2 * rem == d && q % 2 == 0) {
        q
    } else {
        q + 1
    }
}

/// The integer part of a finite double, with its sign.
pub open spec fn truncated(b: u64) -> int {
    let t = magnitude64(b) / pow2(1074);
    if negative64(b) {
        -(t as int)
    } else {
        t as int
    }
}

/// `v`, or the nearer bound where it lies outside of `lo..=hi`.
pub open spec fn clamped(v: int, lo: int, hi: int) -> int {
    if v < lo {
        lo
    } else if v > hi {
        hi
    } else {
        v
    }
}

/// The single nearest to a finite double, a tie going to the even one, by its
/// bits without the sign. The significand keeps 24 bits, or as many as stand
/// above `2^-149`; what is too large for the format becomes infinity.
pub open spec fn rounded32(b: u64) -> nat {
    let a = if scale64(b) >= 897 {
        ((scale64(b) - 897) * LEAD_32 + round_even(significand64(b), pow2(29))) as nat
    } else {
        round_even(significand64(b), pow2((926 - scale64(b)) as nat))
    };
    if a > INFINITY_32 {
        INFINITY_32 as nat
    } else {
        a
    }
}

/// A finite double rounded to single precision.
pub open spec fn narrowed(b: u64) -> u32 {
    if negative64(b) {
        (0x8000_0000 + rounded32(b)) as u32
    } else {
        rounded32(b) as u32
    }
}

/// How often a subnormal significand is doubled to reach its leading bit.
pub open spec fn doublings(m: nat) -> nat
    decreases 2 * LEAD_32 - m,
{
    if m == 0 || m >= LEAD_32 {
        0
    } else {
        1 + doublings(2 * m)
    }
}

/// The double that equals a finite single, by its bits without the sign.
pub open spec fn widened_magnitude(a: nat) -> nat {
    let m = a % LEAD_32 as nat;
    let e = a / LEAD_32 as nat;
    if a == 0 {
        0
    } else if e == 0 {
        let k = doublings(m);
        ((896 - k) * LEAD_64 + m * pow2(k) * pow2(29)) as nat
    } else {
        (896 + e) * (LEAD_64 as nat) + m * pow2(29)
    }
}

/// A finite single in double precision.
pub open spec fn widened(b: u32) -> u64 {
    if negative32(b) {
        (0x8000_0000_0000_0000 + widened_magnitude((b - 0x8000_0000) as nat)) as u64
    } else {
        widened_magnitude(b as nat) as u64
    }
}

/// The number of binary digits of `n`.
pub open spec fn bit_length(n: nat) -> nat
    decreases n,
{
    if n == 0 {
        0
    } else {
        1 + bit_length(n / 2)
    }
}

/// The double nearest to a natural number, a tie going to the even one.
pub open spec fn nat_to_double(n: nat) -> nat {
    let k = bit_length(n);
    if n == 0 {
        0
    } else if k <= 53 {
        (k + 1021) * (LEAD_64 as nat) + n * pow2((53 - k) as nat)
    } else {
        (k + 1021) * (LEAD_64 as nat) + round_even(n, pow2((k - 53) as nat))
    }
}

/// The double nearest to an integer.
pub open spec fn int_to_double(i: int) -> u64 {
    if i < 0 {
        (0x8000_0000_0000_0000 + nat_to_double((-i) as nat)) as u64
    } else {
        nat_to_double(i as nat) as u64
    }
}

/// `2^53` bounds the significands of doubles.
pub(crate) proof fn significand64_bounds(b: u64)
    ensures
        significand64(b) < 2 * LEAD_64,
        exponent64(b) > 0 ==> significand64(b) >= LEAD_64,
{
}

proof fn integer_part_of(m: nat, e: nat)
    requires
        m < 2 * LEAD_64,
        e >= 1,
    ensures
        e <= 1022 ==> m * pow2((e - 1) as nat) / pow2(1074) == 0,
        1023 <= e <= 1074 ==> m * pow2((e - 1) as nat) / pow2(1074) == m / pow2((1075 - e) as nat),
        e >= 1075 ==> m * pow2((e - 1) as nat) / pow2(1074) == m * pow2((e - 1075) as nat),
{
    let p = pow2((e - 1) as nat);
    let unit = pow2(1074);
    lemma_pow2_pos((e - 1) as nat);
    lemma_pow2_pos(1074);
    lemma2_to64();
    lemma2_to64_rest();
    if e <= 1022 {
        lemma_pow2_adds(53, (e - 1) as nat);
        if e < 1022 {
            lemma_pow2_strictly_increases((53 + e - 1) as nat, 1074);
        }
        assert(m * p < pow2(53) * p) by (nonlinear_arith)
            requires
                m < pow2(53),
                p > 0,
        ;
        assert(m * p < unit);
        vstd::arithmetic::div_mod::lemma_basic_div((m * p) as int, unit as int);
    } else if e <= 1074 {
        let d = pow2((1075 - e) as nat);
        lemma_pow2_pos((1075 - e) as nat);
        lemma_pow2_adds((e - 1) as nat, (1075 - e) as nat);
        lemma_div_denominator((m * p) as int, p as int, d as int);
        lemma_div_by_multiple(m as int, p as int);
    } else {
        let d = pow2((e - 1075) as nat);
        lemma_pow2_adds((e - 1075) as nat, 1074);
        lemma_mul_is_associative(m as int, d as int, unit as int);
        lemma_div_by_multiple((m * d) as int, unit as int);
    }
}

/// The integer part of a finite double's magnitude; `None` from `2^64` on.
fn integer_part(b: u64) -> (r: Option<u64>)
    requires
        finite64(b),
    ensures
        match r {
            Some(t) => t == magnitude64(b) / pow2(1074),
            None => magnitude64(b) / pow2(1074) > u64::MAX,
        },
{
    let e: u64 = (b / LEAD_64) % 2048;
    let f: u64 = b % LEAD_64;
    if e < 1023 {
        proof {
            significand64_bounds(b);
            integer_part_of(significand64(b), scale64(b));
        }
        return Some(0);
    }
    let m: u64 = LEAD_64 + f;
    proof {
        significand64_bounds(b);
        integer_part_of(m as nat, e as nat);
        lemma2_to64();
        lemma2_to64_rest();
    }
    if e < 1075 {
        proof {
            lemma_u64_shr_is_div(m, (1075 - e) as u64);
        }
        Some(m >> (1075 - e))
    } else if e < 1087 {
        proof {
            let k = (e - 1075) as nat;
            if k < 11 {
                lemma_pow2_strictly_increases(k, 11);
            }
            assert(m * pow2(k) <= u64::MAX) by (nonlinear_arith)
                requires
                    m < 0x20_0000_0000_0000,
                    pow2(k) <= 2048,
            ;
            lemma_u64_shl_is_mul(m, (e - 1075) as u64);
        }
        Some(m << (e - 1075))
    } else {
        proof {
            let k = (e - 1075) as nat;
            if k > 12 {
                lemma_pow2_strictly_increases(12, k);
            }
            assert(m * pow2(k) > u64::MAX) by (nonlinear_arith)
                requires
                    m >= 0x10_0000_0000_0000,
                    pow2(k) >= 4096,
            ;
        }
        None
    }
}

/// A finite double as a signed integer: the fraction is dropped, and numbers out
/// of range become the nearest bound.
pub fn to_i64(b: u64) -> (r: i64)
    requires
        finite64(b),
    ensures
        r == clamped(truncated(b), i64::MIN as int, i64::MAX as int),
{
    let t = integer_part(b);
    if b >= 0x8000_0000_0000_0000 {
        match t {
            Some(t) => if t > 0x7fff_ffff_ffff_ffff {
                i64::MIN
            } else {
                -(t as i64)
            },
            None => i64::MIN,
        }
    } else {
        match t {
            Some(t) => if t > 0x7fff_ffff_ffff_ffff {
                i64::MAX
            } else {
                t as i64
            },
            None => i64::MAX,
        }
    }
}

/// A finite double as an unsigned integer: the fraction is dropped, and numbers
/// out of range become the nearest bound.
pub fn to_u64(b: u64) -> (r: u64)
    requires
        finite64(b),
    ensures
        r == clamped(truncated(b), 0, u64::MAX as int),
{
    if b >= 0x8000_0000_0000_0000 {
        proof {
            lemma_pow2_pos(1074);
            vstd::arithmetic::div_mod::lemma_div_pos_is_pos(
                magnitude64(b) as int,
                pow2(1074) as int,
            );
        }
        return 0;
    }
    match integer_part(b) {
        Some(t) => t,
        None => u64::MAX,
    }
}

/// `n / d` rounded to the nearest integer, a tie to the even one.
fn div_round_even(n: u64, d: u64) -> (r: u64)
    requires
        1 < d <= 0x8000_0000_0000_0000,
    ensures
        r == round_even(n as nat, d as nat),
{
    let q = n / d;
    let rem = n % d;
    assert(q < u64::MAX) by (nonlinear_arith)
        requires
            q == n / d,
            d > 1,
    ;
    if rem < d - rem || (rem == d - rem && q % 2 == 0) {
        q
    } else {
        q + 1
    }
}

/// Rounds a finite double to single precision.
pub fn narrow(b: u64) -> (r: u32)
    requires
        finite64(b),
    ensures
        r == narrowed(b),
{
    let e: u64 = (b / LEAD_64) % 2048;
    let f: u64 = b % LEAD_64;
    let scale: u64 = if e == 0 {
        1
    } else {
        e
    };
    let m: u64 = if e == 0 {
        f
    } else {
        LEAD_64 + f
    };
    proof {
        lemma2_to64();
        lemma2_to64_rest();
    }
    let a: u64 = if scale >= 897 {
        (scale - 897) * 0x80_0000 + div_round_even(m, 0x2000_0000)
    } else if scale > 871 {
        let shift: u64 = 926 - scale;
        proof {
            if shift < 55 {
                lemma_pow2_strictly_increases(shift as nat, 55);
            }
            lemma_pow2_strictly_increases(29, shift as nat);
            lemma_u64_shl_is_mul(1, shift);
        }
        div_round_even(m, 1u64 << shift)
    } else {
        proof {
            let shift = (926 - scale) as nat;
            if shift > 55 {
                lemma_pow2_strictly_increases(55, shift);
            }
            vstd::arithmetic::div_mod::lemma_basic_div(m as int, pow2(shift) as int);
            vstd::arithmetic::div_mod::lemma_small_mod(m as nat, pow2(shift));
        }
        0
    };
    let magnitude: u32 = if a > INFINITY_32 as u64 {
        INFINITY_32
    } else {
        a as u32
    };
    if b >= 0x8000_0000_0000_0000 {
        0x8000_0000 + magnitude
    } else {
        magnitude
    }
}

proof fn doublings_reach(m: nat)
    requires
        0 < m < LEAD_32,
    ensures
        1 <= doublings(m) <= 23,
        LEAD_32 <= m * pow2(doublings(m)) < 2 * LEAD_32,
{
    lemma2_to64();
    doublings_bound(m, 23);
    doublings_normalize(m);
    if doublings(m) == 0 {
        assert(m * pow2(0) == m);
    }
}

proof fn doublings_bound(m: nat, k: nat)
    requires
        0 < m,
        m * pow2(k) >= LEAD_32,
    ensures
        doublings(m) <= k,
    decreases k,
{
    lemma2_to64();
    if m < LEAD_32 {
        assert(k > 0) by {
            if k == 0 {
                assert(m * pow2(0) == m);
            }
        }
        lemma_pow2_unfold(k);
        assert(2 * m * pow2((k - 1) as nat) == m * pow2(k)) by (nonlinear_arith)
            requires
                pow2(k) == 2 * pow2((k - 1) as nat),
        ;
        doublings_bound(2 * m, (k - 1) as nat);
    }
}

proof fn doublings_normalize(m: nat)
    requires
        0 < m < 2 * LEAD_32,
    ensures
        LEAD_32 <= m * pow2(doublings(m)) < 2 * LEAD_32,
    decreases 2 * LEAD_32 - m,
{
    lemma2_to64();
    if m < LEAD_32 {
        doublings_normalize(2 * m);
        lemma_pow2_unfold(doublings(m));
        assert(2 * m * pow2(doublings(2 * m)) == m * pow2(doublings(m))) by (nonlinear_arith)
            requires
                pow2(doublings(m)) == 2 * pow2(doublings(2 * m)),
        ;
    } else {
        assert(m * pow2(0) == m);
    }
}

/// The widened bits stay below those of infinity.
proof fn widened_bounds(a: nat)
    requires
        a < INFINITY_32,
    ensures
        widened_magnitude(a) < 2047 * LEAD_64,
{
    lemma2_to64();
    lemma2_to64_rest();
    let m = a % LEAD_32 as nat;
    if a > 0 && a < LEAD_32 {
        assert(m == a);
        doublings_reach(m);
    }
}

/// Writes a finite single in double precision.
pub fn widen(b: u32) -> (r: u64)
    requires
        finite32(b),
    ensures
        r == widened(b),
{
    let a: u32 = if b >= 0x8000_0000 {
        b - 0x8000_0000
    } else {
        b
    };
    assert(a < INFINITY_32);
    let m: u32 = a % LEAD_32;
    let e: u32 = a / LEAD_32;
    proof {
        lemma2_to64();
        lemma2_to64_rest();
        widened_bounds(a as nat);
    }
    let magnitude: u64 = if a == 0 {
        0
    } else if e == 0 {
        assert(a == m);
        let mut sig: u64 = m as u64;
        let mut k: u64 = 0;
        proof {
            doublings_reach(m as nat);
        }
        assert(m * pow2(0) == m);
        while sig < LEAD_32 as u64
            invariant
                0 < sig < 2 * LEAD_32,
                sig == m * pow2(k as nat),
                doublings(m as nat) == k + doublings(sig as nat),
                1 <= doublings(m as nat) <= 23,
            decreases 2 * LEAD_32 - sig,
        {
            proof {
                lemma_pow2_unfold((k + 1) as nat);
                assert(m * pow2((k + 1) as nat) == 2 * (m * pow2(k as nat))) by (nonlinear_arith)
                    requires
                        pow2((k + 1) as nat) == 2 * pow2(k as nat),
                ;
            }
            sig = sig * 2;
            k = k + 1;
        }
        (896 - k) * LEAD_64 + sig * 0x2000_0000
    } else {
        (896 + e as u64) * LEAD_64 + m as u64 * 0x2000_0000
    };
    if b >= 0x8000_0000 {
        0x8000_0000_0000_0000 + magnitude
    } else {
        magnitude
    }
}

/// The parts of a double that was put together from an exponent and a fraction.
pub(crate) proof fn double_parts(b: u64, e: nat, f: nat)
    requires
        e < 2048,
        f < LEAD_64,
        b == e * LEAD_64 + f || b == 0x8000_0000_0000_0000 + e * LEAD_64 + f,
    ensures
        exponent64(b) == e,
        fraction64(b) == f,
        negative64(b) == (b == 0x8000_0000_0000_0000 + e * LEAD_64 + f),
{
}

/// Splits the widened bits of a single into the parts of the double.
proof fn widened_parts(b: u32)
    requires
        finite32(b),
    ensures
        ({
            let a: nat = if negative32(b) {
                (b - 0x8000_0000) as nat
            } else {
                b as nat
            };
            let w = widened(b);
            let m = a % LEAD_32 as nat;
            let e = a / LEAD_32 as nat;
            &&& negative64(w) == negative32(b)
            &&& finite64(w)
            &&& a == 0 ==> exponent64(w) == 0 && fraction64(w) == 0
            &&& e > 0 ==> exponent64(w) == 896 + e && fraction64(w) == m * pow2(29)
            &&& a > 0 && e == 0 ==> {
                &&& 1 <= doublings(a) <= 23
                &&& exponent64(w) == 897 - doublings(a)
                &&& significand64(w) == a * pow2(doublings(a)) * pow2(29)
            }
        }),
{
    lemma2_to64();
    lemma2_to64_rest();
    let a: nat = if negative32(b) {
        (b - 0x8000_0000) as nat
    } else {
        b as nat
    };
    widened_bounds(a);
    let w = widened(b);
    let m = a % LEAD_32 as nat;
    let e = a / LEAD_32 as nat;
    if a == 0 {
        double_parts(w, 0, 0);
    } else if e > 0 {
        double_parts(w, 896 + e, m * pow2(29));
    } else {
        assert(a == m);
        doublings_reach(a);
        let k = doublings(a);
        let sig = a * pow2(k);
        double_parts(w, (897 - k) as nat, ((sig - LEAD_32) * pow2(29)) as nat);
    }
}

/// Widening is exact: the double has the sign and the magnitude of the single.
pub proof fn widening_is_exact(b: u32)
    requires
        finite32(b),
    ensures
        finite64(widened(b)),
        negative64(widened(b)) == negative32(b),
        magnitude64(widened(b)) == magnitude32((b % 0x8000_0000) as nat),
{
    lemma2_to64();
    lemma2_to64_rest();
    widened_parts(b);
    let a = (b % 0x8000_0000) as nat;
    let w = widened(b);
    let m = a % LEAD_32 as nat;
    let e = a / LEAD_32 as nat;
    if a == 0 {
        assert(0 * pow2(0) == 0);
        assert(0 * pow2(925) == 0);
    } else if e > 0 {
        lemma_pow2_adds(29, (895 + e) as nat);
        assert(significand64(w) == (LEAD_32 + m) * pow2(29));
        lemma_mul_is_associative(
            (LEAD_32 + m) as int,
            pow2(29) as int,
            pow2((895 + e) as nat) as int,
        );
    } else {
        let k = doublings(a);
        lemma_pow2_adds(29, (896 - k) as nat);
        lemma_pow2_adds(k, (925 - k) as nat);
        lemma_mul_is_associative(
            (a * pow2(k)) as int,
            pow2(29) as int,
            pow2((896 - k) as nat) as int,
        );
        lemma_mul_is_associative(a as int, pow2(k) as int, pow2((925 - k) as nat) as int);
    }
}

proof fn round_even_multiple(q: nat, d: nat)
    requires
        d > 0,
    ensures
        round_even(q * d, d) == q,
{
    lemma_fundamental_div_mod_converse((q * d) as int, d as int, q as int, 0);
}

/// Rounding to single precision gives back every single that was widened.
pub proof fn narrowing_undoes_widening(b: u32)
    requires
        finite32(b),
    ensures
        narrowed(widened(b)) == b,
{
    lemma2_to64();
    lemma2_to64_rest();
    widened_parts(b);
    let a = (b % 0x8000_0000) as nat;
    let w = widened(b);
    let m = a % LEAD_32 as nat;
    let e = a / LEAD_32 as nat;
    if a == 0 {
        lemma_pow2_pos(925);
        assert(0 * pow2(925) == 0);
        round_even_multiple(0, pow2(925));
    } else if e > 0 {
        assert(significand64(w) == (LEAD_32 + m) * pow2(29));
        round_even_multiple((LEAD_32 + m) as nat, pow2(29));
        assert(rounded32(w) == a);
    } else {
        let k = doublings(a);
        lemma_pow2_adds(k, 29);
        lemma_pow2_pos(k + 29);
        lemma_mul_is_associative(a as int, pow2(k) as int, pow2(29) as int);
        round_even_multiple(a, pow2(k + 29));
        assert(926 - scale64(w) == k + 29);
        assert(rounded32(w) == a);
    }
}

/// Consecutive singles are `ulp` apart within one binade.
pub(crate) proof fn magnitude32_steps(e: nat, q: nat)
    requires
        LEAD_32 <= q <= 2 * LEAD_32,
    ensures
        magnitude32(e * (LEAD_32 as nat) + q) == q * pow2(925 + e),
{
    let a = e * (LEAD_32 as nat) + q;
    lemma_pow2_unfold(926 + e);
    if q < 2 * LEAD_32 {
        assert(a / LEAD_32 as nat == e + 1);
        assert(a % LEAD_32 as nat == q - LEAD_32);
    } else {
        assert(a / LEAD_32 as nat == e + 2);
        assert(a % LEAD_32 as nat == 0);
        assert(LEAD_32 * (2 * pow2(925 + e)) == q * pow2(925 + e)) by (nonlinear_arith)
            requires
                q == 2 * LEAD_32,
        ;
    }
}

proof fn magnitude32_next(a: nat)
    ensures
        magnitude32(a) < magnitude32(a + 1),
{
    if a < LEAD_32 {
        lemma_pow2_pos(925);
        assert(a * pow2(925) < (a + 1) * pow2(925)) by (nonlinear_arith)
            requires
                pow2(925) > 0,
        ;
        assert(LEAD_32 * pow2(925) == magnitude32(LEAD_32 as nat));
    } else {
        let e = (a / LEAD_32 as nat - 1) as nat;
        let q = (a % LEAD_32 as nat + LEAD_32) as nat;
        assert(a == e * (LEAD_32 as nat) + q);
        magnitude32_steps(e, q);
        magnitude32_steps(e, q + 1);
        lemma_pow2_pos(925 + e);
        assert(q * pow2(925 + e) < (q + 1) * pow2(925 + e)) by (nonlinear_arith)
            requires
                pow2(925 + e) > 0,
        ;
    }
}

proof fn magnitude32_increases(a: nat, b: nat)
    requires
        a < b,
    ensures
        magnitude32(a) < magnitude32(b),
    decreases b - a,
{
    magnitude32_next(a);
    if a + 1 < b {
        magnitude32_increases(a + 1, b);
    }
}

/// The distance between two natural numbers.
pub open spec fn distance(a: nat, b: nat) -> nat {
    if a <= b {
        (b - a) as nat
    } else {
        (a - b) as nat
    }
}

proof fn split_product(m: int, q: int, d: int, rem: int, unit: int)
    by (nonlinear_arith)
    requires
        m == q * d + rem,
    ensures
        m * unit == q * (d * unit) + rem * unit,
        (q + 1) * (d * unit) == m * unit + (d - rem) * unit,
{
}

/// The two singles around a double, and where between them it lies.
proof fn neighbours(b: u64) -> (r: (nat, nat, nat, nat))
    requires
        finite64(b),
    ensures
        ({
            let (low, rem, d, unit) = r;
            &&& d > 0 && unit > 0 && rem < d
            &&& magnitude64(b) == magnitude32(low) + rem * unit
            &&& magnitude32(low + 1) == magnitude64(b) + (d - rem) * unit
            &&& rounded32(b) == if low >= INFINITY_32 {
                INFINITY_32 as nat
            } else if 2 * rem < d || (2 * rem == d && low % 2 == 0) {
                low
            } else {
                low + 1
            }
        }),
{
    lemma2_to64();
    lemma2_to64_rest();
    significand64_bounds(b);
    let m = significand64(b);
    let scale = scale64(b);
    let unit = pow2((scale - 1) as nat);
    lemma_pow2_pos((scale - 1) as nat);
    if scale >= 897 {
        let d = pow2(29);
        let q = m / d;
        let e = (scale - 897) as nat;
        let low = e * (LEAD_32 as nat) + q;
        lemma_pow2_adds(29, (scale - 1) as nat);
        magnitude32_steps(e, q);
        magnitude32_steps(e, q + 1);
        assert(m == q * d + m % d);
        split_product(m as int, q as int, d as int, (m % d) as int, unit as int);
        assert(low % 2 == q % 2) by {
            assert(low == 2 * (e * 0x40_0000) + q);
        }
        (low, m % d, d, unit)
    } else {
        let shift = (926 - scale) as nat;
        let d = pow2(shift);
        lemma_pow2_pos(shift);
        lemma_pow2_adds(shift, (scale - 1) as nat);
        let q = m / d;
        lemma_fundamental_div_mod(m as int, d as int);
        if shift > 30 {
            lemma_pow2_strictly_increases(30, shift);
        }
        assert(q < LEAD_32) by (nonlinear_arith)
            requires
                m == d * q + m % d,
                m % d >= 0,
                m < 0x20_0000_0000_0000,
                d >= 0x4000_0000,
        ;
        lemma_mul_is_commutative(d as int, q as int);
        split_product(m as int, q as int, d as int, (m % d) as int, unit as int);
        assert(magnitude32(q + 1) == (q + 1) * pow2(925));
        (q, m % d, d, unit)
    }
}

/// Rounding to single precision picks a nearest single: no other one is closer,
/// and where two are equally close the one with the even bit pattern is taken.
pub proof fn narrowing_is_nearest(b: u64, other: nat)
    requires
        finite64(b),
        other <= INFINITY_32,
    ensures
        rounded32(b) <= INFINITY_32,
        distance(magnitude64(b), magnitude32(rounded32(b))) <= distance(
            magnitude64(b),
            magnitude32(other),
        ),
        distance(magnitude64(b), magnitude32(rounded32(b))) == distance(
            magnitude64(b),
            magnitude32(other),
        ) && other != rounded32(b) ==> rounded32(b) % 2 == 0,
{
    let (low, rem, d, unit) = neighbours(b);
    let r = rounded32(b);
    let n = magnitude64(b);
    if other < low {
        magnitude32_increases(other, low);
    }
    if other > low + 1 {
        magnitude32_increases(low + 1, other);
    }
    if other < r {
        magnitude32_increases(other, r);
    }
    if r < other {
        magnitude32_increases(r, other);
    }
    if low > INFINITY_32 {
        magnitude32_increases(INFINITY_32 as nat, low);
    }
    assert(0 <= rem * unit) by (nonlinear_arith);
    assert(0 < (d - rem) * unit) by (nonlinear_arith)
        requires
            rem < d,
            unit > 0,
    ;
    if 2 * rem < d {
        assert(rem * unit < (d - rem) * unit) by (nonlinear_arith)
            requires
                2 * rem < d,
                unit > 0,
        ;
    } else if 2 * rem == d {
        assert(rem * unit == (d - rem) * unit) by (nonlinear_arith)
            requires
                2 * rem == d,
        ;
    } else {
        assert(rem * unit > (d - rem) * unit) by (nonlinear_arith)
            requires
                2 * rem > d,
                unit > 0,
        ;
    }
}

pub(crate) proof fn bit_length_bounds(n: nat)
    requires
        n > 0,
    ensures
        bit_length(n) >= 1,
        pow2((bit_length(n) - 1) as nat) <= n < pow2(bit_length(n)),
    decreases n,
{
    lemma2_to64();
    if n == 1 {
        assert(bit_length(0) == 0);
        assert(bit_length(1) == 1);
    } else {
        bit_length_bounds(n / 2);
        lemma_pow2_unfold(bit_length(n));
        lemma_pow2_unfold((bit_length(n) - 1) as nat);
    }
}

pub(crate) proof fn bit_length_at_most(n: nat, k: nat)
    requires
        n < pow2(k),
    ensures
        bit_length(n) <= k,
{
    if n > 0 {
        bit_length_bounds(n);
        if bit_length(n) > k {
            if bit_length(n) - 1 > k {
                lemma_pow2_strictly_increases(k, (bit_length(n) - 1) as nat);
            }
        }
    }
}

/// Integers of up to 53 bits are doubles: read back from the double, the integer
/// is the same one.
pub proof fn small_integers_are_exact(i: int)
    requires
        -0x20_0000_0000_0000 < i < 0x20_0000_0000_0000,
    ensures
        finite64(int_to_double(i)),
        truncated(int_to_double(i)) == i,
{
    lemma2_to64();
    lemma2_to64_rest();
    let n: nat = if i < 0 {
        (-i) as nat
    } else {
        i as nat
    };
    let b = int_to_double(i);
    if n == 0 {
        double_parts(b, 0, 0);
        integer_part_of(0, 1);
    } else {
        bit_length_bounds(n);
        bit_length_at_most(n, 53);
        let k = bit_length(n);
        let m = n * pow2((53 - k) as nat);
        lemma_pow2_adds((k - 1) as nat, (53 - k) as nat);
        lemma_pow2_adds(k, (53 - k) as nat);
        lemma_pow2_pos((53 - k) as nat);
        assert(LEAD_64 <= m < 2 * LEAD_64) by (nonlinear_arith)
            requires
                m == n * pow2((53 - k) as nat),
                pow2((k - 1) as nat) <= n < pow2(k),
                pow2((k - 1) as nat) * pow2((53 - k) as nat) == LEAD_64,
                pow2(k) * pow2((53 - k) as nat) == 2 * LEAD_64,
                pow2((53 - k) as nat) > 0,
        ;
        double_parts(b, k + 1022, (m - LEAD_64) as nat);
        integer_part_of(m, k + 1022);
        lemma_div_by_multiple(n as int, pow2((53 - k) as nat) as int);
        if k == 53 {
            assert(m == n * 1);
            assert(m * pow2(0) == m);
        }
        assert(magnitude64(b) / pow2(1074) == n);
    }
}

/// Whole numbers beyond the signed range become its upper bound on the way
/// through a double.
pub proof fn large_integers_saturate(i: int)
    requires
        i64::MAX < i <= u64::MAX,
    ensures
        finite64(int_to_double(i)),
        clamped(truncated(int_to_double(i)), i64::MIN as int, i64::MAX as int) == i64::MAX,
{
    lemma2_to64();
    lemma2_to64_rest();
    let n = i as nat;
    bit_length_bounds(n);
    bit_length_at_most(n, 64);
    if bit_length(n) < 64 {
        if bit_length(n) < 63 {
            lemma_pow2_strictly_increases(bit_length(n), 63);
        }
        assert(false);
    }
    let m = round_even(n, pow2(11));
    let b = int_to_double(i);
    if m < 2 * LEAD_64 {
        double_parts(b, 1086, (m - LEAD_64) as nat);
        integer_part_of(m, 1086);
        assert(m * pow2(11) == m * 2048);
        assert(magnitude64(b) / pow2(1074) == m * 2048);
    } else {
        double_parts(b, 1087, 0);
        integer_part_of(LEAD_64 as nat, 1087);
        assert(LEAD_64 * pow2(12) == LEAD_64 * 4096);
        assert(magnitude64(b) / pow2(1074) == LEAD_64 * 4096);
    }
}

/// Negative integers become zero in an unsigned slot.
pub proof fn negative_integers_become_zero(i: int)
    requires
        i64::MIN <= i < 0,
    ensures
        finite64(int_to_double(i)),
        clamped(truncated(int_to_double(i)), 0, u64::MAX as int) == 0,
{
    double_of_magnitude((-i) as nat, int_to_double(i));
    lemma_pow2_pos(1074);
    vstd::arithmetic::div_mod::lemma_div_pos_is_pos(
        magnitude64(int_to_double(i)) as int,
        pow2(1074) as int,
    );
}

pub(crate) proof fn double_of_magnitude(n: nat, b: u64)
    requires
        n < 0x1_0000_0000_0000_0000,
        b == nat_to_double(n) || b == 0x8000_0000_0000_0000 + nat_to_double(n) || b
            == nat_to_double(n) as u64 || b == (0x8000_0000_0000_0000 + nat_to_double(n)) as u64,
    ensures
        nat_to_double(n) < 1088 * LEAD_64,
        finite64(b),
{
    lemma2_to64();
    lemma2_to64_rest();
    if n > 0 {
        bit_length_bounds(n);
        bit_length_at_most(n, 64);
        let k = bit_length(n);
        if k <= 53 {
            let p = pow2((53 - k) as nat);
            lemma_pow2_adds(k, (53 - k) as nat);
            lemma_pow2_pos((53 - k) as nat);
            assert(n * p < 2 * LEAD_64) by (nonlinear_arith)
                requires
                    n < pow2(k),
                    pow2(k) * p == 2 * LEAD_64,
                    p > 0,
            ;
        } else {
            let d = pow2((k - 53) as nat);
            lemma_pow2_adds(53, (k - 53) as nat);
            lemma_pow2_pos((k - 53) as nat);
            lemma_fundamental_div_mod(n as int, d as int);
            assert(n / d < 2 * LEAD_64) by (nonlinear_arith)
                requires
                    n == d * (n / d) + n % d,
                    n % d >= 0,
                    n < 2 * LEAD_64 * d,
                    d > 0,
            ;
        }
    }
}

} // verus!
