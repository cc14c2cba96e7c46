//! Laws of the number conversions: integers, doubles and singles, and the numbers
//! of JSON data.
use crate::float_bits::{
    bit_length, bit_length_at_most, bit_length_bounds, clamped, distance, double_of_magnitude,
    double_parts, finite32, finite64, int_to_double, large_integers_saturate, magnitude32,
    magnitude32_steps, magnitude64, narrowed, narrowing_is_nearest, nat_to_double,
    negative32, negative64, negative_integers_become_zero, round_even, rounded32, scale64,
    significand64, significand64_bounds, truncated, INFINITY_32, LEAD_32, LEAD_64,
};
use crate::json::{
    flattened, flattened_items, json_view, json_views, leading_numbers,
    leading_numbers_are_all_without_a_fault,
    leading_numbers_of_items, number_f64, number_i64, number_u64, number_view, number_views,
    JsonView, NumberView,
};
use vstd::arithmetic::div_mod::{
    lemma_fundamental_div_mod, lemma_fundamental_div_mod_converse,
};
use vstd::arithmetic::mul::{lemma_mul_is_associative, lemma_mul_is_commutative};
use vstd::arithmetic::power2::{
    lemma2_to64, lemma2_to64_rest, lemma_pow2_adds, lemma_pow2_pos, lemma_pow2_strictly_increases,
    pow2,
};
use vstd::prelude::*;

verus! {

/// The size of an integer.
pub open spec fn size(i: int) -> nat {
    if i < 0 {
        (-i) as nat
    } else {
        i as nat
    }
}

proof fn round_even_is_nearest(n: int, d: int, q: int)
    requires
        n >= 0,
        d > 0,
    ensures
        ({
            let m = round_even(n as nat, d as nat) as int;
            let own = if m * d >= n {
                m * d - n
            } else {
                n - m * d
            };
            let other = if q * d >= n {
                q * d - n
            } else {
                n - q * d
            };
            &&& own <= other
            &&& own == other && q != m ==> m % 2 == 0
        }),
{
    let a = n / d;
    let r = n % d;
    lemma_fundamental_div_mod(n, d);
    lemma_mul_is_commutative(d, a);
    assert((a + 1) * d == a * d + d) by (nonlinear_arith);
    if q <= a {
        assert((a - q) * d >= 0 && (a - q) * d == a * d - q * d) by (nonlinear_arith)
            requires
                q <= a,
                d > 0,
        ;
        if q < a {
            assert((a - q) * d >= d) by (nonlinear_arith)
                requires
                    q < a,
                    d > 0,
            ;
        }
    } else {
        assert((q - a - 1) * d >= 0 && (q - a - 1) * d == q * d - a * d - d) by (nonlinear_arith)
            requires
                q > a,
                d > 0,
        ;
        if q > a + 1 {
            assert((q - a - 1) * d >= d) by (nonlinear_arith)
                requires
                    q > a + 1,
                    d > 0,
            ;
        }
    }
}

/// The magnitude of the double of an integer of at most 53 bits.
proof fn short_integer(n: nat, b: u64)
    requires
        0 < n,
        bit_length(n) <= 53,
        b == nat_to_double(n) || b == 0x8000_0000_0000_0000 + nat_to_double(n),
    ensures
        magnitude64(b) == n * pow2(1074),
        significand64(b) == n * pow2((53 - bit_length(n)) as nat),
        scale64(b) == bit_length(n) + 1022,
        negative64(b) == (b == 0x8000_0000_0000_0000 + nat_to_double(n)),
{
    lemma2_to64();
    lemma2_to64_rest();
    bit_length_bounds(n);
    let k = bit_length(n);
    let p = pow2((53 - k) as nat);
    let m = n * p;
    lemma_pow2_adds((k - 1) as nat, (53 - k) as nat);
    lemma_pow2_adds(k, (53 - k) as nat);
    lemma_pow2_pos((53 - k) as nat);
    assert(LEAD_64 <= m < 2 * LEAD_64) by (nonlinear_arith)
        requires
            m == n * p,
            pow2((k - 1) as nat) <= n < pow2(k),
            pow2((k - 1) as nat) * p == LEAD_64,
            pow2(k) * p == 2 * LEAD_64,
            p > 0,
    ;
    double_parts(b, k + 1022, (m - LEAD_64) as nat);
    lemma_pow2_adds((53 - k) as nat, k + 1021);
    lemma_mul_is_associative(n as int, p as int, pow2(k + 1021) as int);
}

/// The magnitude of the double of an integer of 54 to 64 bits.
proof fn long_integer(n: nat, b: u64)
    requires
        53 < bit_length(n) <= 64,
        n > 0,
        b == nat_to_double(n) || b == 0x8000_0000_0000_0000 + nat_to_double(n),
    ensures
        ({
            let d = pow2((bit_length(n) - 53) as nat);
            let m = round_even(n, d);
            &&& magnitude64(b) == m * pow2(bit_length(n) + 1021)
            &&& pow2(bit_length(n) + 1021) == d * pow2(1074)
            &&& b % 2 == m % 2
            &&& d > 0
            &&& finite64(b)
            &&& negative64(b) == (b == 0x8000_0000_0000_0000 + nat_to_double(n))
            &&& (LEAD_64 as nat) * d <= n
        }),
{
    lemma2_to64();
    lemma2_to64_rest();
    bit_length_bounds(n);
    let k = bit_length(n);
    let d = pow2((k - 53) as nat);
    let m = round_even(n, d);
    let q = n / d;
    lemma_pow2_pos((k - 53) as nat);
    lemma_pow2_adds((k - 53) as nat, 1074);
    lemma_pow2_adds(52, (k - 53) as nat);
    lemma_pow2_adds(53, (k - 53) as nat);
    lemma_fundamental_div_mod(n as int, d as int);
    assert(LEAD_64 <= q < 2 * LEAD_64) by (nonlinear_arith)
        requires
            n == d * q + n % d,
            0 <= n % d < d,
            LEAD_64 * d <= n < 2 * LEAD_64 * d,
            d > 0,
    ;
    if m < 2 * LEAD_64 {
        double_parts(b, k + 1022, (m - LEAD_64) as nat);
    } else {
        double_parts(b, k + 1023, 0);
        lemma_pow2_adds(1, k + 1021);
        assert(LEAD_64 * (2 * pow2(k + 1021)) == m * pow2(k + 1021)) by (nonlinear_arith)
            requires
                m == 2 * LEAD_64,
        ;
    }
}

/// An integer becomes a double of its sign, and no other double is nearer; of two
/// that are equally near it becomes the one with the even bit pattern. Magnitudes
/// are in units of `2^-1074`.
pub proof fn integers_become_the_nearest_double(i: int, other: u64)
    requires
        i64::MIN <= i <= u64::MAX,
        finite64(other),
    ensures
        finite64(int_to_double(i)),
        negative64(int_to_double(i)) == (i < 0),
        distance(size(i) * pow2(1074), magnitude64(int_to_double(i))) <= distance(
            size(i) * pow2(1074),
            magnitude64(other),
        ),
        distance(size(i) * pow2(1074), magnitude64(int_to_double(i))) == distance(
            size(i) * pow2(1074),
            magnitude64(other),
        ) && magnitude64(other) != magnitude64(int_to_double(i)) ==> int_to_double(i) % 2 == 0,
{
    let n = size(i);
    let b = int_to_double(i);
    lemma2_to64();
    lemma2_to64_rest();
    double_of_magnitude(n, nat_to_double(n) as u64);
    assert(b == nat_to_double(n) || b == 0x8000_0000_0000_0000 + nat_to_double(n));
    if n == 0 {
        double_parts(b, 0, 0);
        assert(0 * pow2(0) == 0);
        assert(0 * pow2(1074) == 0);
    } else {
        bit_length_bounds(n);
        bit_length_at_most(n, 64);
        double_of_magnitude(n, b);
        let k = bit_length(n);
        if k <= 53 {
            short_integer(n, b);
        } else {
            long_integer(n, b);
            let d = pow2((k - 53) as nat) as int;
            let unit = pow2(k + 1021) as int;
            let u = pow2(1074) as int;
            let m = round_even(n, d as nat) as int;
            let sig = significand64(other);
            let scale = scale64(other);
            significand64_bounds(other);
            lemma_pow2_pos(1074);
            lemma_mul_is_associative(m, d, u);
            if scale - 1 >= k + 1021 {
                let e = (scale - 1 - (k + 1021)) as nat;
                let q = (sig * pow2(e)) as int;
                lemma_pow2_adds(e, k + 1021);
                lemma_mul_is_associative(sig as int, pow2(e) as int, unit);
                assert(magnitude64(other) == q * unit);
                round_even_is_nearest(n as int, d, q);
                lemma_mul_is_associative(q, d, u);
                scaled_distance(n as int, m * d, q * d, u);
            } else {
                let low = pow2((scale - 1) as nat) as int;
                lemma_pow2_pos((scale - 1) as nat);
                lemma_pow2_adds(1, (k + 1020) as nat);
                if scale - 1 < k + 1020 {
                    lemma_pow2_strictly_increases((scale - 1) as nat, (k + 1020) as nat);
                }
                let half = pow2((k + 1020) as nat) as int;
                assert(sig * low < LEAD_64 * unit) by (nonlinear_arith)
                    requires
                        sig < 2 * LEAD_64,
                        low <= half,
                        low > 0,
                        unit == 2 * half,
                ;
                let q = LEAD_64 as int;
                round_even_is_nearest(n as int, d, q);
                lemma_mul_is_associative(q, d, u);
                scaled_distance(n as int, m * d, q * d, u);
                assert(q * d * u <= n * u) by (nonlinear_arith)
                    requires
                        q * d <= n,
                        u > 0,
                ;
            }
        }
    }
}

proof fn scaled_distance(n: int, a: int, b: int, u: int)
    requires
        u > 0,
        n >= 0,
        a >= 0,
        b >= 0,
    ensures
        ({
            let own = if a >= n {
                a - n
            } else {
                n - a
            };
            let other = if b >= n {
                b - n
            } else {
                n - b
            };
            &&& n * u >= 0 && a * u >= 0 && b * u >= 0
            &&& distance((n * u) as nat, (a * u) as nat) == own * u
            &&& distance((n * u) as nat, (b * u) as nat) == other * u
            &&& own <= other ==> own * u <= other * u
            &&& own * u == other * u ==> own == other
        }),
{
    assert(n * u >= 0 && a * u >= 0 && b * u >= 0) by (nonlinear_arith)
        requires
            u > 0,
            n >= 0,
            a >= 0,
            b >= 0,
    ;
    let own = if a >= n {
        a - n
    } else {
        n - a
    };
    let other = if b >= n {
        b - n
    } else {
        n - b
    };
    assert((a - n) * u == a * u - n * u) by (nonlinear_arith);
    assert((n - a) * u == n * u - a * u) by (nonlinear_arith);
    assert((b - n) * u == b * u - n * u) by (nonlinear_arith);
    assert((n - b) * u == n * u - b * u) by (nonlinear_arith);
    assert(own * u >= 0 && other * u >= 0) by (nonlinear_arith)
        requires
            u > 0,
            own >= 0,
            other >= 0,
    ;
    assert(own <= other ==> own * u <= other * u) by (nonlinear_arith)
        requires
            u > 0,
    ;
    assert(own < other ==> own * u < other * u) by (nonlinear_arith)
        requires
            u > 0,
    ;
    assert(other < own ==> other * u < own * u) by (nonlinear_arith)
        requires
            u > 0,
    ;
}

/// Integers of up to 53 bits are held exactly by a double.
pub proof fn short_integers_keep_their_value(i: int)
    requires
        -0x20_0000_0000_0000 < i < 0x20_0000_0000_0000,
    ensures
        finite64(int_to_double(i)),
        negative64(int_to_double(i)) == (i < 0),
        magnitude64(int_to_double(i)) == size(i) * pow2(1074),
{
    let n = size(i);
    let b = int_to_double(i);
    lemma2_to64();
    lemma2_to64_rest();
    double_of_magnitude(n, nat_to_double(n) as u64);
    if n == 0 {
        double_parts(b, 0, 0);
        assert(0 * pow2(0) == 0);
        assert(0 * pow2(1074) == 0);
    } else {
        bit_length_at_most(n, 53);
        short_integer(n, b);
        double_of_magnitude(n, b);
    }
}

/// A double becomes a single of its sign, and no other single is nearer; of two
/// that are equally near it becomes the one with the even bit pattern. Infinity
/// counts as the value that would come next.
pub proof fn doubles_become_the_nearest_single(b: u64, other: nat)
    requires
        finite64(b),
        other <= INFINITY_32,
    ensures
        negative32(narrowed(b)) == negative64(b),
        narrowed(b) % 0x8000_0000 <= INFINITY_32,
        ({
            let own = magnitude32((narrowed(b) % 0x8000_0000) as nat);
            &&& distance(magnitude64(b), own) <= distance(magnitude64(b), magnitude32(other))
            &&& distance(magnitude64(b), own) == distance(magnitude64(b), magnitude32(other))
                && other != narrowed(b) % 0x8000_0000 ==> narrowed(b) % 2 == 0
        }),
{
    narrowing_is_nearest(b, other);
    assert(narrowed(b) % 0x8000_0000 == rounded32(b));
}

/// Integers of up to 24 bits are held exactly by a single.
pub proof fn small_integers_keep_their_value_in_a_single(i: int)
    requires
        -0x100_0000 <= i <= 0x100_0000,
    ensures
        finite32(narrowed(int_to_double(i))),
        negative32(narrowed(int_to_double(i))) == (i < 0),
        magnitude32((narrowed(int_to_double(i)) % 0x8000_0000) as nat) == size(i) * pow2(1074),
{
    let n = size(i);
    let b = int_to_double(i);
    lemma2_to64();
    lemma2_to64_rest();
    short_integers_keep_their_value(i);
    doubles_become_the_nearest_single(b, 0);
    double_of_magnitude(n, nat_to_double(n) as u64);
    if n == 0 {
        double_parts(b, 0, 0);
        lemma_pow2_pos(925);
        lemma_fundamental_div_mod_converse(0, pow2(925) as int, 0, 0);
        assert(0 * pow2(925) == 0);
        assert(0 * pow2(1074) == 0);
    } else {
        bit_length_bounds(n);
        bit_length_at_most(n, 25);
        let k = bit_length(n);
        short_integer(n, b);
        let q = if k <= 24 {
            lemma_pow2_adds((24 - k) as nat, 29);
            lemma_mul_is_associative(n as int, pow2((24 - k) as nat) as int, pow2(29) as int);
            n * pow2((24 - k) as nat)
        } else {
            assert(n == 0x100_0000);
            assert(pow2((53 - k) as nat) == pow2(28));
            LEAD_32 as nat
        };
        assert(significand64(b) == q * pow2(29));
        significand64_bounds(b);
        double_of_magnitude(n, b);
        lemma_fundamental_div_mod_converse(
            significand64(b) as int,
            pow2(29) as int,
            q as int,
            0,
        );
        let e = (scale64(b) - 897) as nat;
        assert(LEAD_32 <= q < 2 * LEAD_32);
        assert(rounded32(b) == e * (LEAD_32 as nat) + q);
        magnitude32_steps(e, q);
        lemma_pow2_adds(29, (scale64(b) - 1) as nat);
        lemma_mul_is_associative(
            q as int,
            pow2(29) as int,
            pow2((scale64(b) - 1) as nat) as int,
        );
    }
}

/// The magnitude that the bits of a double stand for: eleven bits of exponent over
/// fifty-two bits of fraction, with a leading one unless the exponent is zero. In units
/// of `2^-1074`.
pub proof fn doubles_have_this_magnitude(b: u64)
    ensures
        ({
            let e = (b / 0x10_0000_0000_0000) % 2048;
            let f = b % 0x10_0000_0000_0000;
            &&& e == 0 ==> magnitude64(b) == f
            &&& e > 0 ==> magnitude64(b) == (0x10_0000_0000_0000 + f) * pow2((e - 1) as nat)
        }),
{
    lemma2_to64();
    let f = (b % 0x10_0000_0000_0000) as nat;
    assert(f * pow2(0) == f);
}

/// The magnitude that the bits of a single without its sign stand for: eight bits of
/// exponent over twenty-three bits of fraction, in the same unit as for doubles.
pub proof fn singles_have_this_magnitude(a: nat)
    ensures
        ({
            let e = a / 0x80_0000;
            let f = a % 0x80_0000;
            &&& e == 0 ==> magnitude32(a) == f * pow2(925)
            &&& e > 0 ==> magnitude32(a) == (0x80_0000 + f) * pow2(924 + e)
        }),
{
}

/// Truncation drops the fraction and nothing else: the integer is not larger than
/// the double, less than one away from it, and of its sign.
pub proof fn truncation_drops_the_fraction(b: u64)
    requires
        finite64(b),
    ensures
        size(truncated(b)) * pow2(1074) <= magnitude64(b) < (size(truncated(b)) + 1) * pow2(1074),
        negative64(b) ==> truncated(b) <= 0,
        !negative64(b) ==> truncated(b) >= 0,
{
    let u = pow2(1074) as int;
    let m = magnitude64(b) as int;
    lemma_pow2_pos(1074);
    lemma_fundamental_div_mod(m, u);
    vstd::arithmetic::div_mod::lemma_div_pos_is_pos(m, u);
    let t = m / u;
    lemma_mul_is_commutative(u, t);
    assert((t + 1) * u == t * u + u) by (nonlinear_arith);
    assert(size(truncated(b)) == t);
}

/// Clamping keeps what is in range and moves the rest to the nearer bound.
pub proof fn clamping_keeps_what_is_in_range(v: int, lo: int, hi: int)
    requires
        lo <= hi,
    ensures
        lo <= clamped(v, lo, hi) <= hi,
        lo <= v <= hi ==> clamped(v, lo, hi) == v,
        v < lo ==> clamped(v, lo, hi) == lo,
        v > hi ==> clamped(v, lo, hi) == hi,
{
}

/// A number in a signed slot: an integer as it is, or the upper bound where it is
/// too large; a double without its fraction, or the nearer bound.
pub proof fn numbers_in_signed_slots(n: NumberView)
    ensures
        n matches NumberView::Int(i) ==> {
            &&& i64::MIN <= i <= i64::MAX ==> number_i64(n) == i
            &&& i64::MAX < i <= u64::MAX ==> number_i64(n) == i64::MAX
        },
        n matches NumberView::Float(b) ==> {
            &&& i64::MIN <= truncated(b) <= i64::MAX ==> number_i64(n) == truncated(b)
            &&& truncated(b) < i64::MIN ==> number_i64(n) == i64::MIN
            &&& truncated(b) > i64::MAX ==> number_i64(n) == i64::MAX
        },
{
    if let NumberView::Int(i) = n {
        if i64::MAX < i <= u64::MAX {
            large_integers_saturate(i);
        }
    }
}

/// A number in an unsigned slot: an integer as it is, or zero where it is negative;
/// a double without its fraction, or the nearer bound.
pub proof fn numbers_in_unsigned_slots(n: NumberView)
    ensures
        n matches NumberView::Int(i) ==> {
            &&& 0 <= i <= u64::MAX ==> number_u64(n) == i
            &&& i64::MIN <= i < 0 ==> number_u64(n) == 0
        },
        n matches NumberView::Float(b) ==> {
            &&& 0 <= truncated(b) <= u64::MAX ==> number_u64(n) == truncated(b)
            &&& truncated(b) < 0 ==> number_u64(n) == 0
            &&& truncated(b) > u64::MAX ==> number_u64(n) == u64::MAX
        },
{
    if let NumberView::Int(i) = n {
        if i64::MIN <= i < 0 {
            negative_integers_become_zero(i);
        }
    }
}

/// A number in double precision: a double as it is, and an integer as the double
/// that holds it.
pub proof fn numbers_in_double_slots(n: NumberView)
    ensures
        n matches NumberView::Int(i) ==> number_f64(n) == int_to_double(i),
        n matches NumberView::Float(b) ==> number_f64(n) == b,
{
}

/// Nesting does not matter: a number counts by itself, an array counts as its items
/// one after the other, and an item that is neither is reported.
pub proof fn nesting_does_not_matter(n: NumberView, t: Seq<char>, item: JsonView)
    ensures
        flattened(JsonView::Number(n)) == Ok::<Seq<NumberView>, Seq<char>>(seq![n]),
        flattened(JsonView::Other(t)) == Err::<Seq<NumberView>, Seq<char>>(
            "unsupported element in data: "@ + t,
        ),
        flattened(JsonView::Array(Seq::empty())) == Ok::<Seq<NumberView>, Seq<char>>(Seq::empty()),
        flattened(JsonView::Array(seq![item])) == flattened(item),
{
    reveal_with_fuel(flattened_items, 2);
    let one = seq![item];
    assert(flattened_items(one, 0) == Ok::<Seq<NumberView>, Seq<char>>(Seq::empty()));
    assert(one[0] == item);
    if let Ok(ns) = flattened(item) {
        assert(Seq::<NumberView>::empty() + ns =~= ns);
    }
}

/// The numbers of two lists of items put together are those of the first list, then
/// those of the second; a fault in the first list is reported before one in the
/// second.
pub proof fn items_are_read_in_order(a: Seq<JsonView>, b: Seq<JsonView>)
    ensures
        flattened(JsonView::Array(a + b)) == (match (
            flattened(JsonView::Array(a)),
            flattened(JsonView::Array(b)),
        ) {
            (Err(m), _) => Err(m),
            (Ok(_), Err(m)) => Err(m),
            (Ok(x), Ok(y)) => Ok::<Seq<NumberView>, Seq<char>>(x + y),
        }),
{
    joined_items(a, b, b.len());
}

proof fn joined_items(a: Seq<JsonView>, b: Seq<JsonView>, n: nat)
    requires
        n <= b.len(),
    ensures
        flattened_items(a + b, a.len() + n) == (match (
            flattened_items(a, a.len()),
            flattened_items(b, n),
        ) {
            (Err(m), _) => Err(m),
            (Ok(_), Err(m)) => Err(m),
            (Ok(x), Ok(y)) => Ok::<Seq<NumberView>, Seq<char>>(x + y),
        }),
    decreases n,
{
    if n == 0 {
        same_prefix(a, b, a.len());
        if let Ok(x) = flattened_items(a, a.len()) {
            assert(x + Seq::empty() =~= x);
        }
    } else {
        joined_items(a, b, (n - 1) as nat);
        assert((a + b)[a.len() + n - 1] == b[n - 1]);
        if let (Ok(x), Ok(y)) = (flattened_items(a, a.len()), flattened_items(b, (n - 1) as nat)) {
            if let Ok(z) = flattened(b[n - 1]) {
                assert((x + y) + z =~= x + (y + z));
            }
        }
    }
}

proof fn same_prefix(a: Seq<JsonView>, b: Seq<JsonView>, n: nat)
    requires
        n <= a.len(),
    ensures
        flattened_items(a + b, n) == flattened_items(a, n),
    decreases n,
{
    if n > 0 {
        same_prefix(a, b, (n - 1) as nat);
        assert((a + b)[n - 1] == a[n - 1]);
    }
}

/// The numbers read before a fault are those of the items in front of it, and those
/// in front of it within the item that holds it.
pub proof fn numbers_before_a_fault(
    n: NumberView,
    t: Seq<char>,
    item: JsonView,
    a: Seq<JsonView>,
    b: Seq<JsonView>,
)
    ensures
        leading_numbers(JsonView::Number(n)) == seq![n],
        leading_numbers(JsonView::Other(t)) == Seq::<NumberView>::empty(),
        leading_numbers(JsonView::Array(seq![item])) == leading_numbers(item),
        leading_numbers(JsonView::Array(a + b)) == (match flattened(JsonView::Array(a)) {
            Ok(x) => x + leading_numbers(JsonView::Array(b)),
            Err(_) => leading_numbers(JsonView::Array(a)),
        }),
{
    reveal_with_fuel(leading_numbers_of_items, 2);
    let one = seq![item];
    assert(flattened_items(one, 0) == Ok::<Seq<NumberView>, Seq<char>>(Seq::empty()));
    assert(one[0] == item);
    assert(Seq::<NumberView>::empty() + leading_numbers(item) =~= leading_numbers(item));
    assert(leading_numbers_of_items(one, 0) =~= Seq::<NumberView>::empty());
    assert(leading_numbers_of_items(one, 1) =~= leading_numbers(item));
    joined_leading(a, b, b.len());
}

proof fn joined_leading(a: Seq<JsonView>, b: Seq<JsonView>, n: nat)
    requires
        n <= b.len(),
    ensures
        leading_numbers_of_items(a + b, a.len() + n) == (match flattened_items(a, a.len()) {
            Ok(x) => x + leading_numbers_of_items(b, n),
            Err(_) => leading_numbers_of_items(a, a.len()),
        }),
    decreases n,
{
    if n == 0 {
        same_leading_prefix(a, b, a.len());
        leading_numbers_are_all_without_a_fault(JsonView::Array(a));
        if let Ok(x) = flattened_items(a, a.len()) {
            assert(x + Seq::empty() =~= x);
        }
    } else {
        joined_leading(a, b, (n - 1) as nat);
        joined_items(a, b, (n - 1) as nat);
        assert((a + b)[a.len() + n - 1] == b[n - 1]);
        if let Ok(x) = flattened_items(a, a.len()) {
            let y = leading_numbers_of_items(b, (n - 1) as nat);
            assert((x + y) + leading_numbers(b[n - 1]) =~= x + (y + leading_numbers(b[n - 1])));
        }
    }
}

proof fn same_leading_prefix(a: Seq<JsonView>, b: Seq<JsonView>, n: nat)
    requires
        n <= a.len(),
    ensures
        leading_numbers_of_items(a + b, n) == leading_numbers_of_items(a, n),
    decreases n,
{
    if n > 0 {
        same_leading_prefix(a, b, (n - 1) as nat);
        same_prefix(a, b, (n - 1) as nat);
        assert((a + b)[n - 1] == a[n - 1]);
    }
}

/// The contents of lists of JSON values and numbers are those of their items, in
/// order.
pub proof fn lists_show_their_items(items: Seq<serde_json::Value>, ns: Seq<&serde_json::Number>)
    ensures
        json_views(items).len() == items.len(),
        forall|i: int| 0 <= i < items.len() ==> #[trigger] json_views(items)[i] == json_view(
            items[i],
        ),
        number_views(ns).len() == ns.len(),
        forall|i: int| 0 <= i < ns.len() ==> #[trigger] number_views(ns)[i] == number_view(*ns[i]),
{
}

} // verus!
