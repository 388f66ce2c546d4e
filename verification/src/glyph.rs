//! The luma-to-glyph lookup table.
//!
//! A limited-range luma code is normalised to `[0, 1]`, shaped by the
//! smoothstep curve `c²(3 − 2c)` and scaled to the glyph index range. Every
//! step is a single-precision IEEE 754 operation (round to nearest, ties to
//! even) and the index is rounded half away from zero. The steps are carried
//! out here in exact integer arithmetic: a value is a pair `(m, s)` that
//! stands for `m / 2^s`.

use vstd::prelude::*;
use vstd::arithmetic::power2::{
    pow2, lemma2_to64, lemma2_to64_rest, lemma_pow2_adds, lemma_pow2_pos, lemma_pow2_strictly_increases,
    lemma_pow2_unfold,
};

verus! {

/// The smallest exponent from `s` on that lifts `a / b` to at least `2^23`.
pub open spec fn scale_from(a: nat, b: nat, s: nat) -> nat
    decreases 128 - s,
{
    if s >= 128 || a * pow2(s) >= pow2(23) * b {
        s
    } else {
        scale_from(a, b, s + 1)
    }
}

/// `a / b` rounded to single precision (nearest, ties to even), as `(m, s)`
/// meaning `m / 2^s` with `2^23 <= m < 2^24`, or `(0, 0)` for zero.
/// Stated for values below `2^23`.
pub open spec fn f32_round(a: nat, b: nat) -> (nat, nat) {
    if a == 0 {
        (0, 0)
    } else {
        let s = scale_from(a, b, 0);
        let q = a * pow2(s) / b;
        let r = a * pow2(s) % b;
        let m = if 2 * r > b || (2 * r == b && q % 2 == 1) { q + 1 } else { q };
        if m == pow2(24) { (pow2(23), (s - 1) as nat) } else { (m, s) }
    }
}

/// `m / 2^s` rounded half away from zero.
pub open spec fn round_half_away(m: nat, s: nat) -> nat {
    (2 * m + pow2(s)) / (2 * pow2(s))
}

/// The normalised, clamped luma step: `t / 219` in single precision, or
/// exactly one from `t = 219` on (where the quotient reaches or passes one).
pub open spec fn normalized(t: nat) -> (nat, nat) {
    if t >= 219 { (pow2(23), 23) } else { f32_round(t, 219) }
}

pub open spec fn square(c: (nat, nat)) -> (nat, nat) {
    f32_round(c.0 * c.0, pow2(2 * c.1))
}

/// `3 − 2c`.
pub open spec fn weight(c: (nat, nat)) -> (nat, nat) {
    f32_round((3 * pow2(c.1) - 2 * c.0) as nat, pow2(c.1))
}

/// `c²(3 − 2c)` with each operation in single precision.
pub open spec fn curve(t: nat) -> (nat, nat) {
    let c = normalized(t);
    let c2 = square(c);
    let w = weight(c);
    f32_round(c2.0 * w.0, pow2(c2.1 + w.1))
}

/// Luma codes up to 16 are black; 235 and above are white.
pub open spec fn luma_step(v: nat) -> nat {
    if v < 16 { 0 } else { (v - 16) as nat }
}

/// Glyph index of luma code `v` for `n` glyphs: the curve scaled by `n − 1`
/// in single precision, rounded half away from zero.
pub open spec fn lut_entry(n: nat, v: nat) -> nat {
    let cu = curve(luma_step(v));
    let p = f32_round(cu.0 * ((n - 1) as nat), pow2(cu.1));
    round_half_away(p.0, p.1)
}

proof fn lemma_scale_facts(a: nat, b: nat, s: nat)
    requires
        s <= 128,
    ensures
        s <= scale_from(a, b, s) <= 128,
        scale_from(a, b, s) < 128 ==> a * pow2(scale_from(a, b, s)) >= pow2(23) * b,
        forall|x: nat| s <= x < scale_from(a, b, s) ==> a * #[trigger] pow2(x) < pow2(23) * b,
    decreases 128 - s,
{
    if s < 128 && a * pow2(s) < pow2(23) * b {
        lemma_scale_facts(a, b, s + 1);
    }
}

proof fn lemma_scale_upper(a: nat, b: nat, s: nat, top: nat)
    requires
        s <= top < 128,
        a * pow2(top) >= pow2(23) * b,
    ensures
        scale_from(a, b, s) <= top,
    decreases top - s,
{
    if a * pow2(s) < pow2(23) * b {
        lemma_scale_upper(a, b, s + 1, top);
    }
}

proof fn lemma_pow2_mono(x: nat, y: nat)
    requires
        x <= y,
    ensures
        pow2(x) <= pow2(y),
{
    if x < y {
        lemma_pow2_strictly_increases(x, y);
    }
}

/// `q * b + r >= k * b` with `r < b` gives `q >= k`; `q * b <= x < k * b` gives `q < k`.
proof fn lemma_quotient_bounds(x: int, b: int, q: int, r: int, k: int)
    requires
        b > 0,
        x == q * b + r,
        0 <= r < b,
    ensures
        x >= k * b ==> q >= k,
        x < k * b ==> q < k,
{
    if x >= k * b && q < k {
        assert(q * b <= (k - 1) * b) by (nonlinear_arith) requires q <= k - 1, b > 0;
        assert((k - 1) * b + b == k * b) by (nonlinear_arith);
    }
    if x < k * b && q >= k {
        assert(q * b >= k * b) by (nonlinear_arith) requires q >= k, b > 0;
    }
}

/// Facts on rounding a positive value below `2^23`: the significand is
/// normalised, the exponent is the one the search finds (or one less), and
/// the result is within a factor `1 ± 2^-23` of the exact value.
proof fn lemma_round_facts(a: nat, b: nat)
    requires
        0 < a,
        0 < b <= pow2(100),
        a < pow2(23) * b,
    ensures
        1 <= scale_from(a, b, 0) <= 123,
        pow2(23) <= f32_round(a, b).0 < pow2(24),
        f32_round(a, b).1 <= scale_from(a, b, 0),
        f32_round(a, b).0 * b <= 2 * a * pow2(f32_round(a, b).1),
        f32_round(a, b).0 * b * pow2(23) <= a * pow2(f32_round(a, b).1) * (pow2(23) + 1),
        f32_round(a, b).0 * b * pow2(23) >= a * pow2(f32_round(a, b).1) * (pow2(23) - 1),
{
    lemma2_to64();
    lemma_pow2_adds(23, 100);
    lemma_pow2_pos(100);
    lemma_pow2_pos(123);
    assert(a * pow2(123) >= pow2(23) * b) by (nonlinear_arith)
        requires a >= 1, pow2(123) == pow2(23) * pow2(100), b <= pow2(100), pow2(23) > 0;
    lemma_scale_facts(a, b, 0);
    lemma_scale_upper(a, b, 0, 123);
    let s = scale_from(a, b, 0);
    assert(s >= 1) by {
        if s == 0 {
            assert(a * pow2(0) >= pow2(23) * b);
        }
    }
    let sm = (s - 1) as nat;
    assert(a * pow2(sm) < pow2(23) * b);
    lemma_pow2_unfold(s);
    lemma_pow2_pos(s);
    lemma_pow2_pos(sm);
    let x = a * pow2(s);
    assert(x == 2 * (a * pow2(sm))) by (nonlinear_arith) requires x == a * pow2(s), pow2(s) == 2 * pow2(sm);
    assert(x < pow2(24) * b) by (nonlinear_arith)
        requires x == 2 * (a * pow2(sm)), a * pow2(sm) < pow2(23) * b, pow2(24) == 2 * pow2(23);
    let q = x / b;
    let r = x % b;
    assert(x == q * b + r && 0 <= r < b) by (nonlinear_arith) requires b > 0, q == x / b, r == x % b;
    lemma_quotient_bounds(x as int, b as int, q as int, r as int, pow2(23) as int);
    lemma_quotient_bounds(x as int, b as int, q as int, r as int, pow2(24) as int);
    let m = if 2 * r > b || (2 * r == b && q % 2 == 1) { q + 1 } else { q };
    assert(f32_round(a, b) == (if m == pow2(24) { (pow2(23), sm) } else { (m, s) }));
    assert(x >= pow2(23) * b);
    assert(m * b * pow2(23) >= x * (pow2(23) - 1)) by (nonlinear_arith)
        requires m >= q, x == q * b + r, 0 <= r < b, x >= pow2(23) * b, b > 0, pow2(23) > 0;
    assert(x * (pow2(23) - 1) == a * pow2(s) * (pow2(23) - 1)) by (nonlinear_arith) requires x == a * pow2(s);
    if m == pow2(24) {
        assert(pow2(23) * b * pow2(23) >= a * pow2(sm) * (pow2(23) - 1)) by (nonlinear_arith)
            requires m * b * pow2(23) >= x * (pow2(23) - 1), m == pow2(24), pow2(24) == 2 * pow2(23),
                x == 2 * (a * pow2(sm));
    }
    assert(m * b <= 2 * x) by (nonlinear_arith)
        requires m <= q + 1, q >= pow2(23), pow2(23) == 0x800000, q * b <= x, b > 0;
    assert(2 * x == 2 * a * pow2(s)) by (nonlinear_arith) requires x == a * pow2(s);
    assert(x * (pow2(23) + 1) == a * pow2(s) * (pow2(23) + 1)) by (nonlinear_arith) requires x == a * pow2(s);
    assert(m * b * pow2(23) <= x * (pow2(23) + 1)) by (nonlinear_arith)
        requires m <= q + 1, q >= pow2(23), q * b <= x, b > 0, pow2(23) > 0;
    if m == pow2(24) {
        assert(pow2(23) * b <= 2 * a * pow2(sm)) by (nonlinear_arith)
            requires x == 2 * (a * pow2(sm)), x >= pow2(23) * b;
        assert(pow2(23) * b * pow2(23) <= a * pow2(sm) * (pow2(23) + 1)) by (nonlinear_arith)
            requires m * b * pow2(23) <= x * (pow2(23) + 1), m == pow2(24), pow2(24) == 2 * pow2(23),
                x == 2 * (a * pow2(sm));
    }
}

/// `2^124` fits in a `u128`.
proof fn lemma_pow2_124_fits()
    ensures
        pow2(124) == 2 * pow2(123),
        pow2(124) < u128::MAX,
{
    lemma2_to64();
    lemma2_to64_rest();
    lemma_pow2_unfold(124);
    lemma_pow2_strictly_increases(124, 127);
    lemma_pow2_adds(64, 63);
    assert(pow2(64) * pow2(63) <= u128::MAX) by (nonlinear_arith)
        requires pow2(64) == 0x10000000000000000, pow2(63) == 0x8000000000000000;
}

/// Rounding an integer `k < 2^23` (written as `k·2^e / 2^e`) is exact.
proof fn lemma_round_integer(k: nat, e: nat)
    requires
        0 < k < pow2(23),
        e <= 77,
    ensures
        f32_round(k * pow2(e), pow2(e)).0 == k * pow2(f32_round(k * pow2(e), pow2(e)).1),
        round_half_away(f32_round(k * pow2(e), pow2(e)).0, f32_round(k * pow2(e), pow2(e)).1) == k,
{
    lemma2_to64();
    lemma_pow2_pos(e);
    lemma_pow2_mono(e, 100);
    let a = k * pow2(e);
    let b = pow2(e);
    assert(0 < a < pow2(23) * b) by (nonlinear_arith) requires a == k * b, 0 < k < pow2(23), b > 0;
    lemma_round_facts(a, b);
    let s = scale_from(a, b, 0);
    lemma_pow2_pos(s);
    let x = a * pow2(s);
    assert(x == (k * pow2(s)) * b) by (nonlinear_arith) requires x == a * pow2(s), a == k * b;
    assert(x / b == k * pow2(s) && x % b == 0) by (nonlinear_arith)
        requires x == (k * pow2(s)) * b, b > 0;
    let r = f32_round(a, b);
    if k * pow2(s) == pow2(24) {
        lemma_pow2_unfold(s);
        assert(k * pow2((s - 1) as nat) == pow2(23)) by (nonlinear_arith)
            requires k * pow2(s) == pow2(24), pow2(s) == 2 * pow2((s - 1) as nat), pow2(24) == 2 * pow2(23);
    }
    assert(r.0 == k * pow2(r.1));
    lemma_pow2_pos(r.1);
    let p = pow2(r.1);
    assert((2 * (k * p) + p) / (2 * p) == k) by (nonlinear_arith)
        requires p > 0, k >= 0;
}

/// Luma codes up to 16 give the first glyph; codes from 235 on give the last.
pub proof fn lemma_lut_endpoints(n: nat, v: nat)
    requires
        0 < n <= 65535,
    ensures
        v <= 16 ==> lut_entry(n, v) == 0,
        235 <= v ==> lut_entry(n, v) == (n - 1) as nat,
{
    lemma2_to64();
    if v <= 16 {
        let z = normalized(0);
        assert(z == (0nat, 0nat));
        assert(z.0 * z.0 == 0) by (nonlinear_arith) requires z.0 == 0;
        assert(square(z) == (0nat, 0nat));
        let w = weight(z);
        assert(square(z).0 * w.0 == 0);
        assert(curve(0) == (0nat, 0nat));
        assert(luma_step(v) == 0);
        let k = (n - 1) as nat;
        assert(0 * k == 0) by (nonlinear_arith);
        assert(f32_round(0 * k, pow2(0)) == (0nat, 0nat));
        assert((2 * 0 + pow2(0)) / (2 * pow2(0)) == 0) by (nonlinear_arith) requires pow2(0) == 1;
    }
    if 235 <= v {
        let one = normalized(luma_step(v));
        assert(one == (pow2(23), 23nat));
        lemma_pow2_adds(23, 23);
        lemma_round_integer(1, 46);
        let c2 = square(one);
        assert(c2 == f32_round(1 * pow2(46), pow2(46)));
        lemma_pow2_mono(46, 100);
        lemma_pow2_pos(46);
        lemma_round_facts(pow2(46), pow2(46));
        assert(c2.1 == 23) by {
            if c2.1 < 23 { lemma_pow2_strictly_increases(c2.1, 23); }
            if c2.1 > 23 { lemma_pow2_strictly_increases(23, c2.1); lemma_pow2_strictly_increases(23, 24); lemma_pow2_mono(24, c2.1); }
        }
        lemma_round_integer(1, 23);
        let w = weight(one);
        assert(w == f32_round(1 * pow2(23), pow2(23)));
        lemma_pow2_mono(23, 100);
        lemma_round_facts(pow2(23), pow2(23));
        assert(w.1 == 23) by {
            if w.1 < 23 { lemma_pow2_strictly_increases(w.1, 23); }
            if w.1 > 23 { lemma_pow2_strictly_increases(23, 24); lemma_pow2_mono(24, w.1); }
        }
        let cu = curve(luma_step(v));
        assert(cu == f32_round(1 * pow2(46), pow2(46)));
        let k = (n - 1) as nat;
        if k > 0 {
            lemma_round_integer(k, 23);
            assert(cu.0 * k == k * pow2(23)) by (nonlinear_arith) requires cu.0 == pow2(23);
        } else {
            assert(cu.0 * k == 0) by (nonlinear_arith) requires k == 0;
            assert(f32_round(cu.0 * k, pow2(cu.1)) == (0nat, 0nat));
            assert(pow2(0) == 1);
            assert((2 * 0 + pow2(0)) / (2 * pow2(0)) == 0) by (nonlinear_arith) requires pow2(0) == 1;
            assert(round_half_away(0, 0) == 0);
        }
    }
}

/// `2^e` as a machine integer.
fn pow2_exec(e: u32) -> (p: u128)
    requires
        e <= 126,
    ensures
        p == pow2(e as nat),
{
    proof { lemma2_to64(); }
    let mut p: u128 = 1;
    let mut i: u32 = 0;
    while i < e
        invariant
            i <= e <= 126,
            p == pow2(i as nat),
        decreases e - i,
    {
        proof {
            lemma_pow2_unfold((i + 1) as nat);
            lemma_pow2_mono((i + 1) as nat, 126);
            lemma_pow2_adds(63, 63);
            lemma_pow2_strictly_increases(126, 127);
            lemma_pow2_adds(64, 63);
            lemma2_to64_rest();
        }
        assert(pow2(127) <= u128::MAX) by {
            assert(pow2(64) * pow2(63) <= u128::MAX) by (nonlinear_arith)
                requires pow2(64) == 0x10000000000000000, pow2(63) == 0x8000000000000000;
        }
        p = p * 2;
        i = i + 1;
    }
    p
}

/// Rounds `a / b` to single precision.
fn round_exec(a: u128, b: u128) -> (r: (u128, u32))
    requires
        0 < b <= pow2(100),
        a < pow2(23) * b,
    ensures
        r.0 == f32_round(a as nat, b as nat).0,
        r.1 == f32_round(a as nat, b as nat).1,
        r.1 <= 123,
{
    if a == 0 {
        return (0, 0);
    }
    proof {
        lemma2_to64();
        lemma_pow2_adds(23, 100);
        lemma_round_facts(a as nat, b as nat);
        lemma_pow2_pos(123);
        lemma2_to64_rest();
        lemma_pow2_adds(64, 59);
        lemma_pow2_adds(123, 1);
        lemma_pow2_strictly_increases(124, 127);
        lemma_pow2_adds(64, 63);
    }
    assert(pow2(23) * b <= pow2(123)) by (nonlinear_arith)
        requires b <= pow2(100), pow2(123) == pow2(23) * pow2(100), pow2(23) > 0;
    assert(pow2(124) < u128::MAX) by (nonlinear_arith)
        requires pow2(124) < pow2(127), pow2(127) == pow2(64) * pow2(63),
            pow2(64) == 0x10000000000000000, pow2(63) == 0x8000000000000000;
    let target: u128 = b * 0x80_0000;
    let mut s: u32 = 0;
    let mut p: u128 = 1;
    while a * p < target
        invariant
            0 < a < target,
            0 < b,
            target == pow2(23) * b,
            target <= pow2(123),
            pow2(124) == pow2(123) * 2,
            pow2(124) < u128::MAX,
            p == pow2(s as nat),
            s <= 123,
            a * p < 2 * target,
            scale_from(a as nat, b as nat, 0) == scale_from(a as nat, b as nat, s as nat),
        decreases 123 - s,
    {
        proof {
            lemma_pow2_unfold((s + 1) as nat);
            lemma_pow2_pos(s as nat);
            if s >= 123 {
                lemma_pow2_mono(123, s as nat);
            }
        }
        assert(a * p >= p && p >= 1) by (nonlinear_arith) requires a >= 1, p == pow2(s as nat), p > 0;
        let ghost before = a * p;
        let ghost old_p = p;
        p = p * 2;
        s = s + 1;
        assert(a * p == 2 * before) by (nonlinear_arith) requires p == old_p * 2, before == a * old_p;
    }
    assert(a * p <= pow2(124)) by (nonlinear_arith) requires a * p < 2 * target, target <= pow2(123), pow2(124) == pow2(123) * 2;
    let x: u128 = a * p;
    let q: u128 = x / b;
    let rem: u128 = x % b;
    let m: u128 = if 2 * rem > b || (2 * rem == b && q % 2 == 1) { q + 1 } else { q };
    if m == 0x100_0000 {
        assert(s >= 1) by {
            if s == 0 {
                assert(a * p == a) by (nonlinear_arith) requires p == 1;
            }
        }
        (0x80_0000, s - 1)
    } else {
        (m, s)
    }
}

/// Zero, or a normalised value in `(0, 1]` with a small exponent.
pub open spec fn unit_value(c: (nat, nat)) -> bool {
    (c.0 == 0 && c.1 == 0) || (pow2(23) <= c.0 <= pow2(c.1) && c.1 <= 31)
}

/// Zero, or a normalised value of at most `bound`.
pub open spec fn bounded_value(c: (nat, nat), bound: nat, top: nat) -> bool {
    (c.0 == 0 && c.1 == 0) || (pow2(23) <= c.0 <= bound * pow2(c.1) && c.1 <= top)
}

/// The normalised luma step is zero or a normalised value in `(0, 1]`.
proof fn lemma_normalized_unit(t: nat)
    ensures
        unit_value(normalized(t)),
{
    lemma2_to64();
    if t < 219 && 0 < t {
        lemma_pow2_mono(8, 100);
        lemma_round_facts(t, 219);
        lemma_scale_upper(t, 219, 0, 31);
        let c = normalized(t);
        lemma_pow2_pos(c.1);
        assert(c.0 < pow2(c.1)) by (nonlinear_arith)
            requires c.0 * 219 * pow2(23) <= t * pow2(c.1) * (pow2(23) + 1), t <= 218,
                pow2(23) == 0x800000, pow2(c.1) > 0;
    }
}

/// `0 <= a <= b` and `0 <= c <= d` give `a * c <= b * d`.
proof fn lemma_mul_both(a: int, b: int, c: int, d: int)
    requires
        0 <= a <= b,
        0 <= c <= d,
    ensures
        a * c <= b * d,
{
    assert(a * c <= b * c) by (nonlinear_arith) requires 0 <= a <= b, 0 <= c;
    assert(b * c <= b * d) by (nonlinear_arith) requires 0 <= b, 0 <= c <= d;
}

/// `a * c <= b * c` with `c > 0` gives `a <= b`.
proof fn lemma_cancel(a: int, b: int, c: int)
    requires
        a * c <= b * c,
        c > 0,
    ensures
        a <= b,
{
    if a > b {
        assert(a * c > b * c) by (nonlinear_arith) requires a > b, c > 0;
    }
}

/// `x²(3 − 2x) <= 1` on `[0, 1]`, scaled by `p`: `c²(3p − 2c) <= p³`.
proof fn lemma_smoothstep_at_most_one(c: int, p: int)
    requires
        0 <= c <= p,
    ensures
        c * c * (3 * p - 2 * c) <= p * p * p,
{
    assert(p * p * p - c * c * (3 * p - 2 * c) == (p - c) * (p - c) * (p + 2 * c)) by (nonlinear_arith);
    assert((p - c) * (p - c) * (p + 2 * c) >= 0) by (nonlinear_arith) requires 0 <= c <= p;
}

/// The single-precision curve value is at most `(1 + 2^-23)^3`.
proof fn lemma_curve_ceiling(t: nat)
    ensures
        ({
            let u = curve(t);
            (u.0 == 0 && u.1 == 0) || (u.0 * pow2(23) * pow2(23) * pow2(23)
                <= pow2(u.1) * (pow2(23) + 1) * (pow2(23) + 1) * (pow2(23) + 1) && u.1 <= 39)
        }),
{
    lemma2_to64();
    lemma_normalized_unit(t);
    let c = normalized(t);
    let e: int = pow2(23) as int;
    if c.0 == 0 {
        assert(c.0 * c.0 == 0) by (nonlinear_arith) requires c.0 == 0;
        assert(square(c) == (0nat, 0nat));
        let w = weight(c);
        assert(square(c).0 * w.0 == 0) by (nonlinear_arith) requires square(c).0 == 0;
        assert(curve(t) == (0nat, 0nat));
        return;
    }
    let p = pow2(c.1);
    lemma_pow2_pos(c.1);
    lemma_pow2_adds(c.1, c.1);
    lemma_pow2_mono(c.1, 31);
    lemma_pow2_mono(2 * c.1, 62);
    lemma_pow2_mono(62, 100);
    lemma_pow2_mono(c.1, 100);
    // c² in single precision
    let cc = c.0 * c.0;
    let pp = p * p;
    assert(pow2(2 * c.1) == pp);
    assert(0 < cc <= pp) by (nonlinear_arith)
        requires pow2(23) <= c.0 <= p, cc == c.0 * c.0, pp == p * p, pow2(23) == 0x800000;
    assert(cc < pow2(23) * pp) by (nonlinear_arith) requires cc <= pp, pp > 0, pow2(23) == 0x800000;
    lemma_round_facts(cc, pp);
    let q = square(c);
    lemma_pow2_adds(23, 62);
    lemma_pow2_adds(46, 39);
    lemma_pow2_adds(23, 23);
    lemma_pow2_pos(39);
    assert(cc * pow2(39) >= pow2(23) * pp) by (nonlinear_arith)
        requires c.0 >= pow2(23), cc == c.0 * c.0, pow2(46) == pow2(23) * pow2(23), pow2(85) == pow2(46) * pow2(39),
            pow2(85) == pow2(23) * pow2(62), pp <= pow2(62), pow2(39) > 0;
    lemma_scale_upper(cc, pp, 0, 39);
    let qq = pow2(q.1);
    lemma_pow2_pos(q.1);
    assert(q.0 <= 2 * qq) by (nonlinear_arith) requires q.0 * pp <= 2 * cc * qq, cc <= pp, pp > 0;
    // 3 - 2c in single precision
    let wa = (3 * p - 2 * c.0) as nat;
    assert(p <= wa <= 3 * p);
    assert(wa < pow2(23) * p) by (nonlinear_arith) requires wa <= 3 * p, p > 0, pow2(23) == 0x800000;
    lemma_round_facts(wa, p);
    let w = weight(c);
    assert(wa * pow2(23) >= pow2(23) * p) by (nonlinear_arith) requires wa >= p;
    lemma_scale_upper(wa, p, 0, 23);
    let ww = pow2(w.1);
    lemma_pow2_pos(w.1);
    assert(w.0 <= 6 * ww) by (nonlinear_arith) requires w.0 * p <= 2 * wa * ww, wa <= 3 * p, p > 0;
    // their product in single precision
    let b = pow2(q.1 + w.1);
    lemma_pow2_adds(q.1, w.1);
    lemma_pow2_mono(q.1 + w.1, 62);
    let a = q.0 * w.0;
    assert(a > 0) by (nonlinear_arith) requires q.0 >= pow2(23), w.0 >= pow2(23), pow2(23) > 0, a == q.0 * w.0;
    assert(a <= 12 * b) by (nonlinear_arith) requires q.0 <= 2 * qq, w.0 <= 6 * ww, b == qq * ww, a == q.0 * w.0, q.0 >= 0, w.0 >= 0;
    assert(a < pow2(23) * b) by (nonlinear_arith) requires a <= 12 * b, b > 0, pow2(23) == 0x800000;
    lemma_round_facts(a, b);
    let u = curve(t);
    assert(u == f32_round(a, b));
    assert(a * pow2(39) >= pow2(23) * b) by (nonlinear_arith)
        requires q.0 >= pow2(23), w.0 >= pow2(23), a == q.0 * w.0, pow2(46) == pow2(23) * pow2(23),
            pow2(85) == pow2(46) * pow2(39), pow2(85) == pow2(23) * pow2(62), b <= pow2(62), pow2(39) > 0;
    lemma_scale_upper(a, b, 0, 39);
    let uu = pow2(u.1);
    lemma_pow2_pos(u.1);
    // chain the three upper bounds
    let e1 = e + 1;
    let x = q.0 * pp * e;
    let y = w.0 * p * e;
    assert(x <= cc * qq * e1);
    assert(y <= wa * ww * e1);
    assert(x >= 0 && y >= 0) by (nonlinear_arith) requires x == q.0 * pp * e, y == w.0 * p * e, e > 0;
    lemma_mul_both(x, cc * qq * e1, y, wa * ww * e1);
    assert(u.0 * b * e <= a * uu * e1);
    let m = pp * e * p * e;
    assert(m > 0) by (nonlinear_arith) requires pp > 0, p > 0, e > 0, m == pp * e * p * e;
    assert((u.0 * b * e) * m <= (a * uu * e1) * m) by (nonlinear_arith)
        requires u.0 * b * e <= a * uu * e1, m > 0;
    assert(x * y == a * m) by (nonlinear_arith)
        requires a == q.0 * w.0, x == q.0 * pp * e, y == w.0 * p * e, m == pp * e * p * e;
    assert((a * uu * e1) * m == (a * m) * (uu * e1)) by (nonlinear_arith);
    assert((x * y) * (uu * e1) <= ((cc * qq * e1) * (wa * ww * e1)) * (uu * e1)) by (nonlinear_arith)
        requires x * y <= (cc * qq * e1) * (wa * ww * e1), uu > 0, e1 > 0;
    assert((u.0 * b * e) * m == (u.0 * e * e * e * (p * p * p)) * (qq * ww)) by (nonlinear_arith)
        requires b == qq * ww, m == pp * e * p * e, pp == p * p;
    assert(((cc * qq * e1) * (wa * ww * e1)) * (uu * e1) == (cc * wa * uu * e1 * e1 * e1) * (qq * ww)) by (nonlinear_arith);
    assert(qq * ww > 0) by (nonlinear_arith) requires qq > 0, ww > 0;
    lemma_cancel(u.0 * e * e * e * (p * p * p), cc * wa * uu * e1 * e1 * e1, (qq * ww) as int);
    lemma_smoothstep_at_most_one(c.0 as int, p as int);
    assert(cc * wa == c.0 * c.0 * (3 * p - 2 * c.0));
    assert(cc * wa * (uu * e1 * e1 * e1) <= (p * p * p) * (uu * e1 * e1 * e1)) by (nonlinear_arith)
        requires cc * wa <= p * p * p, uu > 0, e1 > 0;
    assert(cc * wa * uu * e1 * e1 * e1 == cc * wa * (uu * e1 * e1 * e1)) by (nonlinear_arith);
    assert(u.0 * e * e * e * (p * p * p) == (u.0 * e * e * e) * (p * p * p)) by (nonlinear_arith);
    assert((p * p * p) * (uu * e1 * e1 * e1) == (uu * e1 * e1 * e1) * (p * p * p)) by (nonlinear_arith);
    assert(p * p * p > 0) by (nonlinear_arith) requires p > 0;
    lemma_cancel(u.0 * e * e * e, uu * e1 * e1 * e1, (p * p * p) as int);
    assert(u.0 * pow2(23) * pow2(23) * pow2(23) == u.0 * e * e * e);
    assert(pow2(u.1) * (pow2(23) + 1) * (pow2(23) + 1) * (pow2(23) + 1) == uu * e1 * e1 * e1);
}

/// Every entry of the table names a glyph: the index is below the glyph
/// count.
pub proof fn lemma_lut_below_count(n: nat, v: nat)
    requires
        0 < n <= 65535,
    ensures
        lut_entry(n, v) < n,
{
    lemma2_to64();
    let t = luma_step(v);
    lemma_curve_ceiling(t);
    let u = curve(t);
    let k = (n - 1) as nat;
    let e: int = pow2(23) as int;
    let e1 = e + 1;
    let a = u.0 * k;
    let pr = f32_round(a, pow2(u.1));
    if a == 0 {
        assert(pr == (0nat, 0nat));
        assert((2 * 0 + pow2(0)) / (2 * pow2(0)) == 0) by (nonlinear_arith) requires pow2(0) == 1;
        return;
    }
    let uu = pow2(u.1);
    lemma_pow2_pos(u.1);
    lemma_pow2_mono(u.1, 100);
    assert(u.0 > 0) by (nonlinear_arith) requires a == u.0 * k, a != 0;
    assert(u.0 * e * e * e <= uu * e1 * e1 * e1);
    assert(u.0 <= 2 * uu) by (nonlinear_arith)
        requires u.0 * e * e * e <= uu * e1 * e1 * e1, e == 0x800000, e1 == e + 1, uu > 0, u.0 >= 0;
    assert(a < pow2(23) * uu) by (nonlinear_arith)
        requires a == u.0 * k, u.0 <= 2 * uu, k <= 65534, uu > 0, pow2(23) == 0x800000;
    lemma_round_facts(a, uu);
    let vv = pow2(pr.1);
    lemma_pow2_pos(pr.1);
    // pr.0 * uu * e <= a * vv * e1, and u.0 * e³ <= uu * e1³
    assert(pr.0 * uu * e <= a * vv * e1);
    assert((pr.0 * uu * e) * (e * e * e) <= (a * vv * e1) * (e * e * e)) by (nonlinear_arith)
        requires pr.0 * uu * e <= a * vv * e1, e > 0;
    assert((a * vv * e1) * (e * e * e) == (u.0 * e * e * e) * (k * vv * e1)) by (nonlinear_arith)
        requires a == u.0 * k;
    assert((u.0 * e * e * e) * (k * vv * e1) <= (uu * e1 * e1 * e1) * (k * vv * e1)) by (nonlinear_arith)
        requires u.0 * e * e * e <= uu * e1 * e1 * e1, k >= 0, vv > 0, e1 > 0;
    assert((pr.0 * uu * e) * (e * e * e) == (pr.0 * e * e * e * e) * uu) by (nonlinear_arith);
    assert((uu * e1 * e1 * e1) * (k * vv * e1) == (k * vv * e1 * e1 * e1 * e1) * uu) by (nonlinear_arith);
    lemma_cancel(pr.0 * e * e * e * e, k * vv * e1 * e1 * e1 * e1, uu as int);
    // so 2 * pr.0 < vv * (2k + 1), and the half-away rounding stays below k + 1
    assert(2 * pr.0 < vv * (2 * k + 1)) by (nonlinear_arith)
        requires pr.0 * e * e * e * e <= k * vv * e1 * e1 * e1 * e1, e == 0x800000, e1 == e + 1, k <= 65534,
            vv > 0, pr.0 >= 0;
    assert((2 * pr.0 + vv) / (2 * vv) <= k) by (nonlinear_arith)
        requires 2 * pr.0 < vv * (2 * k + 1), vv > 0, pr.0 >= 0, k >= 0;
}

/// `(2^23 + 1)^6 (2^23 + 2)`: with `2^23` to the seventh below it, the
/// largest factor by which the table's roundings can raise a value.
pub open spec fn err_hi() -> int {
    let e = pow2(23) as int;
    (e + 1) * (e + 1) * (e + 1) * (e + 1) * (e + 1) * (e + 1) * (e + 2)
}

/// `(2^23 − 1)^6 (2^23 − 2)`: the matching lower factor.
pub open spec fn err_lo() -> int {
    let e = pow2(23) as int;
    (e - 1) * (e - 1) * (e - 1) * (e - 1) * (e - 1) * (e - 1) * (e - 2)
}

/// `t²(657 − 2t)`: the smoothstep numerator of luma step `t` over `219³`.
pub open spec fn smooth_num(t: nat) -> int {
    (t * t) * (657 - 2 * t)
}

/// The normalised step is within a factor `1 ± 2^-23` of `t / 219`.
proof fn lemma_normalized_bounds(t: nat)
    requires
        0 < t <= 219,
    ensures
        unit_value(normalized(t)),
        normalized(t).0 > 0,
        normalized(t).0 * 219 * pow2(23) <= t * pow2(normalized(t).1) * (pow2(23) + 1),
        normalized(t).0 * 219 * pow2(23) >= t * pow2(normalized(t).1) * (pow2(23) - 1),
{
    lemma2_to64();
    lemma_normalized_unit(t);
    let c = normalized(t);
    if t < 219 {
        lemma_pow2_mono(8, 100);
        lemma_round_facts(t, 219);
    } else {
        assert(c == (pow2(23), 23nat));
        assert(pow2(23) * 219 * pow2(23) <= 219 * pow2(23) * (pow2(23) + 1)) by (nonlinear_arith)
            requires pow2(23) == 0x800000;
        assert(pow2(23) * 219 * pow2(23) >= 219 * pow2(23) * (pow2(23) - 1)) by (nonlinear_arith)
            requires pow2(23) == 0x800000;
    }
}

/// `c²` in single precision is within `(1 ± 2^-23)³` of `t² / 219²`.
proof fn lemma_square_bounds(t: nat)
    requires
        0 < t <= 219,
    ensures
        ({
            let q = square(normalized(t));
            let e = pow2(23) as int;
            &&& pow2(23) <= q.0 <= 2 * pow2(q.1)
            &&& q.1 <= 39
            &&& q.0 * (219 * 219) * (e * e * e) <= (t * t) * pow2(q.1) * ((e + 1) * (e + 1) * (e + 1))
            &&& q.0 * (219 * 219) * (e * e * e) >= (t * t) * pow2(q.1) * ((e - 1) * (e - 1) * (e - 1))
        }),
{
    lemma2_to64();
    lemma_normalized_bounds(t);
    let c = normalized(t);
    let e: int = pow2(23) as int;
    let p = pow2(c.1);
    lemma_pow2_pos(c.1);
    lemma_pow2_adds(c.1, c.1);
    lemma_pow2_mono(2 * c.1, 62);
    lemma_pow2_mono(62, 100);
    let cc = c.0 * c.0;
    let pp = p * p;
    assert(0 < cc <= pp) by (nonlinear_arith)
        requires pow2(23) <= c.0 <= p, cc == c.0 * c.0, pp == p * p, pow2(23) == 0x800000;
    assert(cc < pow2(23) * pp) by (nonlinear_arith) requires cc <= pp, pp > 0, pow2(23) == 0x800000;
    lemma_round_facts(cc, pp);
    let q = square(c);
    lemma_pow2_adds(23, 62);
    lemma_pow2_adds(46, 39);
    lemma_pow2_adds(23, 23);
    lemma_pow2_pos(39);
    assert(cc * pow2(39) >= pow2(23) * pp) by (nonlinear_arith)
        requires c.0 >= pow2(23), cc == c.0 * c.0, pow2(46) == pow2(23) * pow2(23), pow2(85) == pow2(46) * pow2(39),
            pow2(85) == pow2(23) * pow2(62), pp <= pow2(62), pow2(39) > 0;
    lemma_scale_upper(cc, pp, 0, 39);
    let qq = pow2(q.1);
    lemma_pow2_pos(q.1);
    assert(q.0 <= 2 * qq) by (nonlinear_arith) requires q.0 * pp <= 2 * cc * qq, cc <= pp, pp > 0;
    let hi = t * p * (e + 1);
    let lo = t * p * (e - 1);
    let mid = c.0 * 219 * e;
    assert(0 <= lo <= mid <= hi);
    lemma_mul_both(mid, hi, mid, hi);
    lemma_mul_both(lo, mid, lo, mid);
    let dde = 219 * 219 * (e * e);
    assert(dde > 0);
    // upper
    assert((q.0 * pp * e) * dde <= (cc * qq * (e + 1)) * dde) by (nonlinear_arith)
        requires q.0 * pp * e <= cc * qq * (e + 1), dde > 0;
    assert((cc * qq * (e + 1)) * dde == (mid * mid) * (qq * (e + 1))) by (nonlinear_arith)
        requires cc == c.0 * c.0, mid == c.0 * 219 * e, dde == 219 * 219 * (e * e);
    assert((mid * mid) * (qq * (e + 1)) <= (hi * hi) * (qq * (e + 1))) by (nonlinear_arith)
        requires mid * mid <= hi * hi, qq > 0, e > 0;
    assert((hi * hi) * (qq * (e + 1)) == ((t * t) * qq * ((e + 1) * (e + 1) * (e + 1))) * pp) by (nonlinear_arith)
        requires hi == t * p * (e + 1), pp == p * p;
    assert((q.0 * pp * e) * dde == (q.0 * (219 * 219) * (e * e * e)) * pp) by (nonlinear_arith)
        requires dde == 219 * 219 * (e * e);
    lemma_cancel(q.0 * (219 * 219) * (e * e * e), (t * t) * qq * ((e + 1) * (e + 1) * (e + 1)), pp as int);
    // lower
    assert((q.0 * pp * e) * dde >= (cc * qq * (e - 1)) * dde) by (nonlinear_arith)
        requires q.0 * pp * e >= cc * qq * (e - 1), dde > 0;
    assert((cc * qq * (e - 1)) * dde == (mid * mid) * (qq * (e - 1))) by (nonlinear_arith)
        requires cc == c.0 * c.0, mid == c.0 * 219 * e, dde == 219 * 219 * (e * e);
    assert((mid * mid) * (qq * (e - 1)) >= (lo * lo) * (qq * (e - 1))) by (nonlinear_arith)
        requires lo * lo <= mid * mid, qq > 0, e > 1;
    assert((lo * lo) * (qq * (e - 1)) == ((t * t) * qq * ((e - 1) * (e - 1) * (e - 1))) * pp) by (nonlinear_arith)
        requires lo == t * p * (e - 1), pp == p * p;
    lemma_cancel((t * t) * qq * ((e - 1) * (e - 1) * (e - 1)), q.0 * (219 * 219) * (e * e * e), pp as int);
}

/// `3 − 2c` in single precision is within `(1 ± 2^-23)(1 ± 2^-22)` of
/// `(657 − 2t) / 219`.
proof fn lemma_weight_bounds(t: nat)
    requires
        0 < t <= 219,
    ensures
        ({
            let w = weight(normalized(t));
            let e = pow2(23) as int;
            &&& pow2(23) <= w.0 <= 6 * pow2(w.1)
            &&& w.1 <= 23
            &&& w.0 * 219 * (e * e) <= (657 - 2 * t) * pow2(w.1) * ((e + 2) * (e + 1))
            &&& w.0 * 219 * (e * e) >= (657 - 2 * t) * pow2(w.1) * ((e - 2) * (e - 1))
        }),
{
    lemma2_to64();
    lemma_normalized_bounds(t);
    let c = normalized(t);
    let e: int = pow2(23) as int;
    let p = pow2(c.1);
    lemma_pow2_pos(c.1);
    lemma_pow2_mono(c.1, 100);
    let wa = (3 * p - 2 * c.0) as nat;
    assert(p <= wa <= 3 * p);
    assert(wa < pow2(23) * p) by (nonlinear_arith) requires wa <= 3 * p, p > 0, pow2(23) == 0x800000;
    lemma_round_facts(wa, p);
    let w = weight(c);
    assert(wa * pow2(23) >= pow2(23) * p) by (nonlinear_arith) requires wa >= p;
    lemma_scale_upper(wa, p, 0, 23);
    let ww = pow2(w.1);
    lemma_pow2_pos(w.1);
    assert(w.0 <= 6 * ww) by (nonlinear_arith) requires w.0 * p <= 2 * wa * ww, wa <= 3 * p, p > 0;
    // wa·219·e against (657 − 2t)·p
    assert(wa * 219 * e <= (657 - 2 * t) * p * (e + 2)) by (nonlinear_arith)
        requires wa == 3 * p - 2 * c.0, c.0 * 219 * e >= t * p * (e - 1), 0 < t <= 219, p > 0, e > 2;
    assert(wa * 219 * e >= (657 - 2 * t) * p * (e - 2)) by (nonlinear_arith)
        requires wa == 3 * p - 2 * c.0, c.0 * 219 * e <= t * p * (e + 1), 0 < t <= 219, p > 0, e > 2;
    // upper
    assert((w.0 * p * e) * (219 * e) <= (wa * ww * (e + 1)) * (219 * e)) by (nonlinear_arith)
        requires w.0 * p * e <= wa * ww * (e + 1), e > 0;
    assert((wa * ww * (e + 1)) * (219 * e) == (wa * 219 * e) * (ww * (e + 1))) by (nonlinear_arith);
    assert((wa * 219 * e) * (ww * (e + 1)) <= ((657 - 2 * t) * p * (e + 2)) * (ww * (e + 1))) by (nonlinear_arith)
        requires wa * 219 * e <= (657 - 2 * t) * p * (e + 2), ww > 0, e > 0;
    assert(((657 - 2 * t) * p * (e + 2)) * (ww * (e + 1)) == ((657 - 2 * t) * ww * ((e + 2) * (e + 1))) * p) by (nonlinear_arith);
    assert((w.0 * p * e) * (219 * e) == (w.0 * 219 * (e * e)) * p) by (nonlinear_arith);
    lemma_cancel(w.0 * 219 * (e * e), (657 - 2 * t) * ww * ((e + 2) * (e + 1)), p as int);
    // lower
    assert((w.0 * p * e) * (219 * e) >= (wa * ww * (e - 1)) * (219 * e)) by (nonlinear_arith)
        requires w.0 * p * e >= wa * ww * (e - 1), e > 0;
    assert((wa * ww * (e - 1)) * (219 * e) == (wa * 219 * e) * (ww * (e - 1))) by (nonlinear_arith);
    assert((wa * 219 * e) * (ww * (e - 1)) >= ((657 - 2 * t) * p * (e - 2)) * (ww * (e - 1))) by (nonlinear_arith)
        requires wa * 219 * e >= (657 - 2 * t) * p * (e - 2), ww > 0, e > 1;
    assert(((657 - 2 * t) * p * (e - 2)) * (ww * (e - 1)) == ((657 - 2 * t) * ww * ((e - 2) * (e - 1))) * p) by (nonlinear_arith);
    lemma_cancel((657 - 2 * t) * ww * ((e - 2) * (e - 1)), w.0 * 219 * (e * e), p as int);
}

/// The single-precision curve value is within `(1 ± 2^-23)^5 (1 ± 2^-22)`
/// of `t²(657 − 2t) / 219³`.
proof fn lemma_curve_bounds(t: nat)
    requires
        0 < t <= 219,
    ensures
        ({
            let u = curve(t);
            let e = pow2(23) as int;
            &&& pow2(23) <= u.0 <= 24 * pow2(u.1)
            &&& u.1 <= 39
            &&& u.0 * (219 * 219 * 219) * (e * e * e * e * e * e)
                <= smooth_num(t) * pow2(u.1) * ((e + 1) * (e + 1) * (e + 1) * (e + 1) * (e + 1) * (e + 2))
            &&& u.0 * (219 * 219 * 219) * (e * e * e * e * e * e)
                >= smooth_num(t) * pow2(u.1) * ((e - 1) * (e - 1) * (e - 1) * (e - 1) * (e - 1) * (e - 2))
        }),
{
    lemma2_to64();
    lemma_square_bounds(t);
    lemma_weight_bounds(t);
    let c = normalized(t);
    let q = square(c);
    let w = weight(c);
    let e: int = pow2(23) as int;
    let qq = pow2(q.1);
    let ww = pow2(w.1);
    lemma_pow2_pos(q.1);
    lemma_pow2_pos(w.1);
    let b = pow2(q.1 + w.1);
    lemma_pow2_adds(q.1, w.1);
    lemma_pow2_mono(q.1 + w.1, 62);
    lemma_pow2_mono(62, 100);
    let a = q.0 * w.0;
    assert(a > 0) by (nonlinear_arith) requires q.0 >= pow2(23), w.0 >= pow2(23), pow2(23) > 0, a == q.0 * w.0;
    assert(a <= 12 * b) by (nonlinear_arith)
        requires q.0 <= 2 * qq, w.0 <= 6 * ww, b == qq * ww, a == q.0 * w.0, q.0 >= 0, w.0 >= 0;
    assert(a < pow2(23) * b) by (nonlinear_arith) requires a <= 12 * b, b > 0, pow2(23) == 0x800000;
    lemma_round_facts(a, b);
    let u = curve(t);
    assert(u == f32_round(a, b));
    lemma_pow2_adds(23, 62);
    lemma_pow2_adds(46, 39);
    lemma_pow2_adds(23, 23);
    lemma_pow2_pos(39);
    assert(a * pow2(39) >= pow2(23) * b) by (nonlinear_arith)
        requires q.0 >= pow2(23), w.0 >= pow2(23), a == q.0 * w.0, pow2(46) == pow2(23) * pow2(23),
            pow2(85) == pow2(46) * pow2(39), pow2(85) == pow2(23) * pow2(62), b <= pow2(62), pow2(39) > 0;
    lemma_scale_upper(a, b, 0, 39);
    let uu = pow2(u.1);
    lemma_pow2_pos(u.1);
    assert(u.0 <= 24 * uu) by (nonlinear_arith) requires u.0 * b <= 2 * a * uu, a <= 12 * b, b > 0;
    let n = smooth_num(t);
    assert(n >= 0) by (nonlinear_arith) requires n == (t * t) * (657 - 2 * t), t <= 219;
    // q and w against their exact values
    let qh = (t * t) * qq * ((e + 1) * (e + 1) * (e + 1));
    let ql = (t * t) * qq * ((e - 1) * (e - 1) * (e - 1));
    let qm = q.0 * (219 * 219) * (e * e * e);
    let wh = (657 - 2 * t) * ww * ((e + 2) * (e + 1));
    let wl = (657 - 2 * t) * ww * ((e - 2) * (e - 1));
    let wm = w.0 * 219 * (e * e);
    assert(0 <= ql <= qm <= qh) by (nonlinear_arith)
        requires ql == (t * t) * qq * ((e - 1) * (e - 1) * (e - 1)), qm >= ql, qm <= qh, qq > 0, e > 1;
    assert(0 <= wl <= wm <= wh) by (nonlinear_arith)
        requires wl == (657 - 2 * t) * ww * ((e - 2) * (e - 1)), wm >= wl, wm <= wh, ww > 0, e > 2, t <= 219;
    lemma_mul_both(qm, qh, wm, wh);
    lemma_mul_both(ql, qm, wl, wm);
    let f = 219 * 219 * 219 * (e * e * e * e * e);
    assert(qm * wm == (a * f) ) by (nonlinear_arith)
        requires qm == q.0 * (219 * 219) * (e * e * e), wm == w.0 * 219 * (e * e), a == q.0 * w.0,
            f == 219 * 219 * 219 * (e * e * e * e * e);
    assert(qh * wh == (n * ((e + 1) * (e + 1) * (e + 1) * (e + 1) * (e + 2))) * b) by (nonlinear_arith)
        requires qh == (t * t) * qq * ((e + 1) * (e + 1) * (e + 1)), wh == (657 - 2 * t) * ww * ((e + 2) * (e + 1)),
            n == (t * t) * (657 - 2 * t), b == qq * ww;
    assert(ql * wl == (n * ((e - 1) * (e - 1) * (e - 1) * (e - 2) * (e - 1))) * b) by (nonlinear_arith)
        requires ql == (t * t) * qq * ((e - 1) * (e - 1) * (e - 1)), wl == (657 - 2 * t) * ww * ((e - 2) * (e - 1)),
            n == (t * t) * (657 - 2 * t), b == qq * ww;
    // u against a
    let hi5 = (e + 1) * (e + 1) * (e + 1) * (e + 1) * (e + 1) * (e + 2);
    let lo5 = (e - 1) * (e - 1) * (e - 1) * (e - 1) * (e - 1) * (e - 2);
    assert(f > 0) by (nonlinear_arith) requires f == 219 * 219 * 219 * (e * e * e * e * e), e > 0;
    assert((u.0 * b * e) * f <= (a * uu * (e + 1)) * f) by (nonlinear_arith)
        requires u.0 * b * e <= a * uu * (e + 1), f > 0;
    assert((a * uu * (e + 1)) * f == (a * f) * (uu * (e + 1))) by (nonlinear_arith);
    assert((a * f) * (uu * (e + 1)) <= ((n * ((e + 1) * (e + 1) * (e + 1) * (e + 1) * (e + 2))) * b) * (uu * (e + 1)))
        by (nonlinear_arith)
        requires a * f <= (n * ((e + 1) * (e + 1) * (e + 1) * (e + 1) * (e + 2))) * b, uu > 0, e > 0;
    assert(((n * ((e + 1) * (e + 1) * (e + 1) * (e + 1) * (e + 2))) * b) * (uu * (e + 1)) == (n * uu * hi5) * b)
        by (nonlinear_arith) requires hi5 == (e + 1) * (e + 1) * (e + 1) * (e + 1) * (e + 1) * (e + 2);
    assert((u.0 * b * e) * f == (u.0 * (219 * 219 * 219) * (e * e * e * e * e * e)) * b) by (nonlinear_arith)
        requires f == 219 * 219 * 219 * (e * e * e * e * e);
    lemma_cancel(u.0 * (219 * 219 * 219) * (e * e * e * e * e * e), n * uu * hi5, b as int);
    assert((u.0 * b * e) * f >= (a * uu * (e - 1)) * f) by (nonlinear_arith)
        requires u.0 * b * e >= a * uu * (e - 1), f > 0;
    assert((a * uu * (e - 1)) * f == (a * f) * (uu * (e - 1))) by (nonlinear_arith);
    assert((a * f) * (uu * (e - 1)) >= ((n * ((e - 1) * (e - 1) * (e - 1) * (e - 2) * (e - 1))) * b) * (uu * (e - 1)))
        by (nonlinear_arith)
        requires a * f >= (n * ((e - 1) * (e - 1) * (e - 1) * (e - 2) * (e - 1))) * b, uu > 0, e > 1;
    assert(((n * ((e - 1) * (e - 1) * (e - 1) * (e - 2) * (e - 1))) * b) * (uu * (e - 1)) == (n * uu * lo5) * b)
        by (nonlinear_arith) requires lo5 == (e - 1) * (e - 1) * (e - 1) * (e - 1) * (e - 1) * (e - 2);
    lemma_cancel(n * uu * lo5, u.0 * (219 * 219 * 219) * (e * e * e * e * e * e), b as int);
}

/// Consecutive smoothstep numerators differ by more than the rounding
/// error of the whole computation.
proof fn lemma_smooth_margin(t: nat)
    requires
        t <= 218,
    ensures
        smooth_num(t) * err_hi() <= smooth_num(t + 1) * err_lo(),
{
    lemma2_to64();
    let e: int = pow2(23) as int;
    let n0 = smooth_num(t);
    let n1 = smooth_num(t + 1);
    assert(n1 - n0 == -6 * t * t + 1308 * t + 655) by (nonlinear_arith)
        requires n0 == (t * t) * (657 - 2 * t), n1 == ((t + 1) * (t + 1)) * (657 - 2 * (t + 1));
    assert(-6 * t * t + 1308 * t + 655 >= 655) by (nonlinear_arith) requires t <= 218;
    lemma_smoothstep_at_most_one(t as int, 219);
    assert(0 <= n0 <= 10503459) by (nonlinear_arith)
        requires n0 == (t * t) * (657 - 2 * t), t * t * (3 * 219 - 2 * t) <= 219 * 219 * 219, t <= 218;
    let hi = err_hi();
    let lo = err_lo();
    assert(655 * lo >= (hi - lo) * 10503459 && lo > 0) by (nonlinear_arith)
        requires
            hi == (e + 1) * (e + 1) * (e + 1) * (e + 1) * (e + 1) * (e + 1) * (e + 2),
            lo == (e - 1) * (e - 1) * (e - 1) * (e - 1) * (e - 1) * (e - 1) * (e - 2),
            e == 0x800000;
    assert(n0 * hi <= n1 * lo) by (nonlinear_arith)
        requires 0 <= n0 <= 10503459, n1 >= n0 + 655, 655 * lo >= (hi - lo) * 10503459, lo > 0;
}

/// The glyph index of luma step `t` for `k + 1` glyphs.
pub open spec fn step_entry(k: nat, t: nat) -> nat {
    let cu = curve(t);
    let p = f32_round(cu.0 * k, pow2(cu.1));
    round_half_away(p.0, p.1)
}

/// Scaling by `k` in single precision keeps the curve's error bounds, one
/// rounding wider.
proof fn lemma_scaled_bounds(t: nat, k: nat)
    requires
        0 < t <= 219,
        0 < k <= 65534,
    ensures
        ({
            let u = curve(t);
            let p = f32_round(u.0 * k, pow2(u.1));
            let e = pow2(23) as int;
            &&& p.0 * (219 * 219 * 219) * (e * e * e * e * e * e * e)
                <= k * smooth_num(t) * pow2(p.1) * err_hi()
            &&& p.0 * (219 * 219 * 219) * (e * e * e * e * e * e * e)
                >= k * smooth_num(t) * pow2(p.1) * err_lo()
        }),
{
    lemma2_to64();
    lemma_curve_bounds(t);
    let u = curve(t);
    let e: int = pow2(23) as int;
    let uu = pow2(u.1);
    lemma_pow2_pos(u.1);
    lemma_pow2_mono(u.1, 100);
    let a = u.0 * k;
    assert(0 < a < pow2(23) * uu) by (nonlinear_arith)
        requires a == u.0 * k, pow2(23) <= u.0 <= 24 * uu, 0 < k <= 65534, uu > 0, pow2(23) == 0x800000;
    lemma_round_facts(a, uu);
    let p = f32_round(a, uu);
    let vv = pow2(p.1);
    lemma_pow2_pos(p.1);
    let n = smooth_num(t);
    let g = 219 * 219 * 219 * (e * e * e * e * e * e);
    let hi5 = (e + 1) * (e + 1) * (e + 1) * (e + 1) * (e + 1) * (e + 2);
    let lo5 = (e - 1) * (e - 1) * (e - 1) * (e - 1) * (e - 1) * (e - 2);
    assert(u.0 * g <= n * uu * hi5) by (nonlinear_arith)
        requires u.0 * (219 * 219 * 219) * (e * e * e * e * e * e) <= n * uu * hi5,
            g == 219 * 219 * 219 * (e * e * e * e * e * e);
    assert(u.0 * g >= n * uu * lo5) by (nonlinear_arith)
        requires u.0 * (219 * 219 * 219) * (e * e * e * e * e * e) >= n * uu * lo5,
            g == 219 * 219 * 219 * (e * e * e * e * e * e);
    assert(hi5 * (e + 1) == err_hi()) by (nonlinear_arith)
        requires hi5 == (e + 1) * (e + 1) * (e + 1) * (e + 1) * (e + 1) * (e + 2), e == pow2(23) as int;
    assert(lo5 * (e - 1) == err_lo()) by (nonlinear_arith)
        requires lo5 == (e - 1) * (e - 1) * (e - 1) * (e - 1) * (e - 1) * (e - 2), e == pow2(23) as int;
    assert(g > 0) by (nonlinear_arith) requires g == 219 * 219 * 219 * (e * e * e * e * e * e), e > 0;
    // upper
    assert((p.0 * uu * e) * g <= (a * vv * (e + 1)) * g) by (nonlinear_arith)
        requires p.0 * uu * e <= a * vv * (e + 1), g > 0;
    assert((a * vv * (e + 1)) * g == (u.0 * g) * (k * vv * (e + 1))) by (nonlinear_arith) requires a == u.0 * k;
    assert((u.0 * g) * (k * vv * (e + 1)) <= (n * uu * hi5) * (k * vv * (e + 1))) by (nonlinear_arith)
        requires u.0 * g <= n * uu * hi5, k > 0, vv > 0, e > 0;
    assert((n * uu * hi5) * (k * vv * (e + 1)) == (k * n * vv * (hi5 * (e + 1))) * uu) by (nonlinear_arith);
    assert((p.0 * uu * e) * g == (p.0 * (219 * 219 * 219) * (e * e * e * e * e * e * e)) * uu) by (nonlinear_arith)
        requires g == 219 * 219 * 219 * (e * e * e * e * e * e);
    lemma_cancel(p.0 * (219 * 219 * 219) * (e * e * e * e * e * e * e), k * n * vv * (hi5 * (e + 1)), uu as int);
    // lower
    assert((p.0 * uu * e) * g >= (a * vv * (e - 1)) * g) by (nonlinear_arith)
        requires p.0 * uu * e >= a * vv * (e - 1), g > 0;
    assert((a * vv * (e - 1)) * g == (u.0 * g) * (k * vv * (e - 1))) by (nonlinear_arith) requires a == u.0 * k;
    assert((u.0 * g) * (k * vv * (e - 1)) >= (n * uu * lo5) * (k * vv * (e - 1))) by (nonlinear_arith)
        requires u.0 * g >= n * uu * lo5, k > 0, vv > 0, e > 1;
    assert((n * uu * lo5) * (k * vv * (e - 1)) == (k * n * vv * (lo5 * (e - 1))) * uu) by (nonlinear_arith);
    lemma_cancel(k * n * vv * (lo5 * (e - 1)), p.0 * (219 * 219 * 219) * (e * e * e * e * e * e * e), uu as int);
}

/// Rounding half away from zero is monotone in the value `m / 2^s`.
proof fn lemma_round_half_away_monotone(m0: nat, s0: nat, m1: nat, s1: nat)
    requires
        m0 * pow2(s1) <= m1 * pow2(s0),
    ensures
        round_half_away(m0, s0) <= round_half_away(m1, s1),
{
    let p0 = pow2(s0);
    let p1 = pow2(s1);
    lemma_pow2_pos(s0);
    lemma_pow2_pos(s1);
    let f = (2 * m0 + p0) / (2 * p0);
    assert(f * (2 * p0) <= 2 * m0 + p0) by (nonlinear_arith) requires f == (2 * m0 + p0) / (2 * p0), p0 > 0;
    assert(f * (2 * p1) * p0 <= (2 * m1 + p1) * p0) by (nonlinear_arith)
        requires f * (2 * p0) <= 2 * m0 + p0, m0 * p1 <= m1 * p0, p0 > 0, p1 > 0, f >= 0;
    lemma_cancel((f * (2 * p1)) as int, (2 * m1 + p1) as int, p0 as int);
    assert(f <= (2 * m1 + p1) / (2 * p1)) by (nonlinear_arith)
        requires f * (2 * p1) <= 2 * m1 + p1, p1 > 0;
}

/// One luma step up never lowers the glyph index.
proof fn lemma_step_monotone(k: nat, t: nat)
    requires
        k <= 65534,
        t <= 218,
    ensures
        step_entry(k, t) <= step_entry(k, t + 1),
{
    lemma2_to64();
    if k == 0 || t == 0 {
        if k == 0 {
            assert(curve(t).0 * k == 0) by (nonlinear_arith) requires k == 0;
        } else {
            let z = normalized(0);
            assert(z == (0nat, 0nat));
            assert(z.0 * z.0 == 0) by (nonlinear_arith) requires z.0 == 0;
            assert(square(z) == (0nat, 0nat));
            assert(square(z).0 * weight(z).0 == 0) by (nonlinear_arith) requires square(z).0 == 0;
            assert(curve(0) == (0nat, 0nat));
            assert(curve(0).0 * k == 0) by (nonlinear_arith) requires curve(0).0 == 0;
        }
        assert(f32_round(curve(t).0 * k, pow2(curve(t).1)) == (0nat, 0nat));
        assert(step_entry(k, t) == round_half_away(0, 0));
        assert((2 * 0 + pow2(0)) / (2 * pow2(0)) == 0) by (nonlinear_arith) requires pow2(0) == 1;
        return;
    }
    lemma_scaled_bounds(t, k);
    lemma_scaled_bounds(t + 1, k);
    lemma_smooth_margin(t);
    let e: int = pow2(23) as int;
    let h: int = err_hi();
    let l: int = err_lo();
    let u0 = curve(t);
    let u1 = curve(t + 1);
    let p0 = f32_round(u0.0 * k, pow2(u0.1));
    let p1 = f32_round(u1.0 * k, pow2(u1.1));
    let v0 = pow2(p0.1);
    let v1 = pow2(p1.1);
    lemma_pow2_pos(p0.1);
    lemma_pow2_pos(p1.1);
    let g = 219 * 219 * 219 * (e * e * e * e * e * e * e);
    assert(g > 0) by (nonlinear_arith) requires g == 219 * 219 * 219 * (e * e * e * e * e * e * e), e > 0;
    let n0 = smooth_num(t);
    let n1 = smooth_num(t + 1);
    assert(p0.0 * g <= k * n0 * v0 * h) by (nonlinear_arith)
        requires p0.0 * (219 * 219 * 219) * (e * e * e * e * e * e * e) <= k * n0 * v0 * h,
            g == 219 * 219 * 219 * (e * e * e * e * e * e * e);
    assert(p1.0 * g >= k * n1 * v1 * l) by (nonlinear_arith)
        requires p1.0 * (219 * 219 * 219) * (e * e * e * e * e * e * e) >= k * n1 * v1 * l,
            g == 219 * 219 * 219 * (e * e * e * e * e * e * e);
    assert((p0.0 * g) * v1 <= (k * n0 * v0 * h) * v1) by (nonlinear_arith) requires p0.0 * g <= k * n0 * v0 * h, v1 > 0;
    assert((k * n0 * v0 * h) * v1 == (n0 * h) * (k * v0 * v1)) by (nonlinear_arith);
    assert((n0 * h) * (k * v0 * v1) <= (n1 * l) * (k * v0 * v1)) by (nonlinear_arith)
        requires n0 * h <= n1 * l, k > 0, v0 > 0, v1 > 0;
    assert((n1 * l) * (k * v0 * v1) == (k * n1 * v1 * l) * v0) by (nonlinear_arith);
    assert((k * n1 * v1 * l) * v0 <= (p1.0 * g) * v0) by (nonlinear_arith) requires p1.0 * g >= k * n1 * v1 * l, v0 > 0;
    assert((p0.0 * g) * v1 == (p0.0 * v1) * g) by (nonlinear_arith);
    assert((p1.0 * g) * v0 == (p1.0 * v0) * g) by (nonlinear_arith);
    lemma_cancel((p0.0 * v1) as int, (p1.0 * v0) as int, g);
    lemma_round_half_away_monotone(p0.0, p0.1, p1.0, p1.1);
}

/// Steps from `219` on are clamped to white and share one glyph.
proof fn lemma_step_clamped(k: nat, t: nat)
    requires
        t >= 219,
    ensures
        step_entry(k, t) == step_entry(k, 219),
{
    assert(normalized(t) == normalized(219));
}

/// Between two steps the glyph index never falls.
proof fn lemma_steps_monotone(k: nat, t0: nat, t1: nat)
    requires
        k <= 65534,
        t0 <= t1,
    ensures
        step_entry(k, t0) <= step_entry(k, t1),
    decreases t1 - t0,
{
    if t1 >= 220 {
        lemma_step_clamped(k, t1);
        if t0 >= 219 {
            lemma_step_clamped(k, t0);
        } else {
            lemma_steps_monotone(k, t0, 219);
        }
    } else if t0 < t1 {
        lemma_steps_monotone(k, t0, (t1 - 1) as nat);
        lemma_step_monotone(k, (t1 - 1) as nat);
    }
}

/// A brighter luma code never maps to an earlier glyph: the table is
/// monotone.
pub proof fn lemma_lut_monotone(n: nat, v0: nat, v1: nat)
    requires
        0 < n <= 65535,
        v0 <= v1,
    ensures
        lut_entry(n, v0) <= lut_entry(n, v1),
{
    let k = (n - 1) as nat;
    assert(lut_entry(n, v0) == step_entry(k, luma_step(v0)));
    assert(lut_entry(n, v1) == step_entry(k, luma_step(v1)));
    lemma_steps_monotone(k, luma_step(v0), luma_step(v1));
}

fn normalized_exec(t: u128) -> (c: (u128, u32))
    requires
        t <= 239,
    ensures
        (c.0 as nat, c.1 as nat) == normalized(t as nat),
        unit_value((c.0 as nat, c.1 as nat)),
{
    proof { lemma2_to64(); }
    if t >= 219 {
        return (0x80_0000, 23);
    }
    proof { lemma_pow2_mono(8, 100); }
    let (c0, c1) = round_exec(t, 219);
    proof { lemma_normalized_unit(t as nat); }
    (c0, c1)
}

fn square_exec(c0: u128, c1: u32) -> (q: (u128, u32))
    requires
        unit_value((c0 as nat, c1 as nat)),
    ensures
        (q.0 as nat, q.1 as nat) == square((c0 as nat, c1 as nat)),
        bounded_value((q.0 as nat, q.1 as nat), 2, 39),
        c0 == 0 <==> q.0 == 0,
{
    proof { lemma2_to64(); }
    let pc1 = pow2_exec(c1);
    let pc1sq = pow2_exec(2 * c1);
    proof {
        lemma_pow2_adds(c1 as nat, c1 as nat);
        lemma_pow2_mono((2 * c1) as nat, 100);
        lemma_pow2_pos((2 * c1) as nat);
    }
    assert(c0 * c0 <= pc1sq) by (nonlinear_arith)
        requires c0 <= pc1, pc1sq == pc1 * pc1, c0 >= 0;
    assert(c0 * c0 < pow2(23) * pc1sq) by (nonlinear_arith)
        requires c0 * c0 <= pc1sq, pc1sq > 0, pow2(23) == 0x800000;
    let (q0, q1) = round_exec(c0 * c0, pc1sq);
    proof {
        if c0 != 0 {
            assert(c0 * c0 > 0) by (nonlinear_arith) requires c0 >= 1;
            lemma_round_facts((c0 * c0) as nat, pc1sq as nat);
            lemma_pow2_adds(23, 62);
            lemma_pow2_adds(46, 39);
            lemma_pow2_adds(23, 23);
            lemma_pow2_mono((2 * c1) as nat, 62);
            assert((c0 * c0) * pow2(39) >= pow2(23) * pc1sq) by (nonlinear_arith)
                requires c0 >= pow2(23), pow2(46) == pow2(23) * pow2(23), pow2(85) == pow2(46) * pow2(39),
                    pow2(85) == pow2(23) * pow2(62), pc1sq <= pow2(62), pow2(39) > 0;
            lemma_scale_upper((c0 * c0) as nat, pc1sq as nat, 0, 39);
            lemma_pow2_pos(q1 as nat);
            assert(q0 <= 2 * pow2(q1 as nat)) by (nonlinear_arith)
                requires q0 * pc1sq <= 2 * (c0 * c0) * pow2(q1 as nat), c0 * c0 <= pc1sq, pc1sq > 0;
        } else {
            assert(c0 * c0 == 0) by (nonlinear_arith) requires c0 == 0;
        }
    }
    (q0, q1)
}

fn weight_exec(c0: u128, c1: u32) -> (w: (u128, u32))
    requires
        unit_value((c0 as nat, c1 as nat)),
    ensures
        (w.0 as nat, w.1 as nat) == weight((c0 as nat, c1 as nat)),
        pow2(23) <= w.0 <= 6 * pow2(w.1 as nat),
        w.1 <= 23,
{
    proof { lemma2_to64(); }
    let pc1 = pow2_exec(c1);
    proof {
        lemma_pow2_mono(c1 as nat, 100);
        lemma_pow2_pos(c1 as nat);
    }
    let wa: u128 = 3 * pc1 - 2 * c0;
    assert(pc1 <= wa <= 3 * pc1);
    assert(wa < pow2(23) * pc1) by (nonlinear_arith) requires wa <= 3 * pc1, pc1 > 0, pow2(23) == 0x800000;
    let (w0, w1) = round_exec(wa, pc1);
    proof {
        lemma_round_facts(wa as nat, pc1 as nat);
        assert(wa * pow2(23) >= pow2(23) * pc1) by (nonlinear_arith) requires wa >= pc1;
        lemma_scale_upper(wa as nat, pc1 as nat, 0, 23);
        lemma_pow2_pos(w1 as nat);
        assert(w0 <= 6 * pow2(w1 as nat)) by (nonlinear_arith)
            requires w0 * pc1 <= 2 * wa * pow2(w1 as nat), wa <= 3 * pc1, pc1 > 0;
    }
    (w0, w1)
}

fn product_exec(q0: u128, q1: u32, w0: u128, w1: u32) -> (u: (u128, u32))
    requires
        bounded_value((q0 as nat, q1 as nat), 2, 39),
        pow2(23) <= w0 <= 6 * pow2(w1 as nat),
        w1 <= 23,
    ensures
        (u.0 as nat, u.1 as nat) == f32_round((q0 * w0) as nat, pow2((q1 + w1) as nat)),
        bounded_value((u.0 as nat, u.1 as nat), 24, 39),
{
    proof { lemma2_to64(); lemma2_to64_rest(); }
    let pb = pow2_exec(q1 + w1);
    proof {
        lemma_pow2_adds(q1 as nat, w1 as nat);
        lemma_pow2_mono((q1 + w1) as nat, 62);
        lemma_pow2_mono(62, 100);
        lemma_pow2_pos((q1 + w1) as nat);
        lemma_pow2_pos(q1 as nat);
        lemma_pow2_pos(w1 as nat);
    }
    assert(q0 * w0 <= 12 * pb) by (nonlinear_arith)
        requires q0 <= 2 * pow2(q1 as nat), w0 <= 6 * pow2(w1 as nat), pb == pow2(q1 as nat) * pow2(w1 as nat),
            q0 >= 0, w0 >= 0;
    assert(q0 * w0 < pow2(23) * pb) by (nonlinear_arith)
        requires q0 * w0 <= 12 * pb, pb > 0, pow2(23) == 0x800000;
    assert(q0 * w0 <= 12 * pow2(62)) by (nonlinear_arith) requires q0 * w0 <= 12 * pb, pb <= pow2(62);
    let (u0, u1) = round_exec(q0 * w0, pb);
    proof {
        if q0 != 0 {
            assert(q0 * w0 > 0) by (nonlinear_arith) requires q0 >= 1, w0 >= 1;
            lemma_round_facts((q0 * w0) as nat, pb as nat);
            lemma_pow2_adds(23, 62);
            lemma_pow2_adds(46, 39);
            lemma_pow2_adds(23, 23);
            assert((q0 * w0) * pow2(39) >= pow2(23) * pb) by (nonlinear_arith)
                requires q0 >= pow2(23), w0 >= pow2(23), pow2(46) == pow2(23) * pow2(23),
                    pow2(85) == pow2(46) * pow2(39), pow2(85) == pow2(23) * pow2(62), pb <= pow2(62),
                    pow2(39) > 0;
            lemma_scale_upper((q0 * w0) as nat, pb as nat, 0, 39);
            lemma_pow2_pos(u1 as nat);
            assert(u0 <= 24 * pow2(u1 as nat)) by (nonlinear_arith)
                requires u0 * pb <= 2 * (q0 * w0) * pow2(u1 as nat), q0 * w0 <= 12 * pb, pb > 0;
        } else {
            assert(q0 * w0 == 0) by (nonlinear_arith) requires q0 == 0;
        }
    }
    (u0, u1)
}

fn scaled_exec(u0: u128, u1: u32, k: u128) -> (r: u32)
    requires
        bounded_value((u0 as nat, u1 as nat), 24, 39),
        k <= 65534,
    ensures
        r == ({
            let p = f32_round((u0 * k) as nat, pow2(u1 as nat));
            round_half_away(p.0, p.1)
        }),
{
    proof { lemma2_to64(); lemma2_to64_rest(); }
    let pu = pow2_exec(u1);
    proof {
        lemma_pow2_mono(u1 as nat, 100);
        lemma_pow2_mono(u1 as nat, 39);
        lemma_pow2_pos(u1 as nat);
    }
    assert(u0 * k <= 24 * pow2(39) * 65534) by (nonlinear_arith)
        requires u0 <= 24 * pu, pu <= pow2(39), k <= 65534, u0 >= 0;
    assert(u0 * k < pow2(23) * pu) by (nonlinear_arith)
        requires u0 <= 24 * pu, k <= 65534, pu > 0, pow2(23) == 0x800000, u0 >= 0;
    let (p0, p1) = round_exec(u0 * k, pu);
    proof {
        if u0 * k != 0 {
            lemma_round_facts((u0 * k) as nat, pu as nat);
        }
    }
    assert(p0 < pow2(24));
    let pp = pow2_exec(p1);
    proof { lemma_pow2_pos(p1 as nat); lemma_pow2_mono(p1 as nat, 123); lemma_pow2_124_fits(); }
    assert(2 * pp <= pow2(124)) by (nonlinear_arith)
        requires pp <= pow2(123), pow2(124) == pow2(123) * 2;
    let rounded: u128 = (2 * p0 + pp) / (2 * pp);
    assert(rounded <= p0 + 1) by (nonlinear_arith)
        requires rounded == (2 * p0 + pp) / (2 * pp), pp >= 1, p0 >= 0;
    rounded as u32
}

/// Glyph index of luma code `v` for `k + 1` glyphs.
fn glyph_entry(k: u128, v: u32) -> (r: u32)
    requires
        k <= 65534,
        v < 256,
    ensures
        r == lut_entry((k + 1) as nat, v as nat),
{
    let t: u128 = if v < 16 { 0 } else { (v - 16) as u128 };
    let (c0, c1) = normalized_exec(t);
    let (q0, q1) = square_exec(c0, c1);
    let (w0, w1) = weight_exec(c0, c1);
    let (u0, u1) = product_exec(q0, q1, w0, w1);
    assert((u0 as nat, u1 as nat) == curve(luma_step(v as nat)));
    scaled_exec(u0, u1, k)
}

/// Glyph index for every 8-bit luma code, for `glyph_count` glyphs.
pub fn glyph_lookup_table(glyph_count: usize) -> (lut: [u32; 256])
    requires
        0 < glyph_count <= 65535,
    ensures
        forall|v: int| 0 <= v < 256 ==> lut[v] == lut_entry(glyph_count as nat, v as nat),
{
    let mut lut = [0u32; 256];
    let k: u128 = (glyph_count - 1) as u128;
    let mut v: usize = 0;
    while v < 256
        invariant
            v <= 256,
            k + 1 == glyph_count,
            k <= 65534,
            forall|i: int| 0 <= i < v ==> lut[i] == lut_entry(glyph_count as nat, i as nat),
        decreases 256 - v,
    {
        let e = glyph_entry(k, v as u32);
        lut[v] = e;
        v = v + 1;
    }
    lut
}

} // verus!
