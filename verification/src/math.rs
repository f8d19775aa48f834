//! Fixed-point arithmetic helpers shared by the engine: Q16 scaling, linear
//! interpolation, the output soft clipper, an integer square root, a rational
//! sine approximation, and the semitone-to-rate table.

use vstd::prelude::*;

verus! {

/// Multiplies a Q16 value by a non-negative Q16 gain, truncating toward zero.
pub open spec fn scale_q16_spec(v: int, g: int) -> int {
    if v >= 0 {
        (v * g) / 65536
    } else {
        -(((-v) * g) / 65536)
    }
}

/// Executable Q16 multiply; `g` is a gain in `[0, Q16_ONE]`.
pub fn scale_q16(v: i64, g: i64) -> (r: i64)
    requires
        -0x100_0000_0000 <= v <= 0x100_0000_0000,
        0 <= g <= 65536,
    ensures
        r == scale_q16_spec(v as int, g as int),
        -0x100_0000_0000 <= r <= 0x100_0000_0000,
        v >= 0 ==> 0 <= r <= v,
        v < 0 ==> v <= r <= 0,
{
    if v >= 0 {
        assert(0 <= v * g <= 0x100_0000_0000 * 65536 && v * g <= v * 65536) by (nonlinear_arith)
            requires 0 <= v <= 0x100_0000_0000 && 0 <= g <= 65536;
        let p: i64 = v * g;
        let r: i64 = p / 65536;
        assert(0 <= r <= v) by (nonlinear_arith)
            requires 0 <= p <= v * 65536 && 0 <= v && r == p / 65536;
        r
    } else {
        assert(0 <= (-v) * g <= 0x100_0000_0000 * 65536 && (-v) * g <= (-v) * 65536) by (nonlinear_arith)
            requires 0 <= -v <= 0x100_0000_0000 && 0 <= g <= 65536;
        let p: i64 = (-v) * g;
        let r: i64 = p / 65536;
        assert(0 <= r <= -v) by (nonlinear_arith)
            requires 0 <= p <= (-v) * 65536 && 0 <= -v && r == p / 65536;
        -r
    }
}

/// Linear interpolation between two Q16 samples at fractional offset
/// `frac / 65536` (with `0 <= frac < 65536`).
pub open spec fn lerp_spec(s1: int, s2: int, frac: int) -> int {
    s1 + scale_q16_spec(s2 - s1, frac)
}

/// Executable interpolation between two Q16 samples.
pub fn lerp(s1: i32, s2: i32, frac: i64) -> (r: i64)
    requires
        0 <= frac < 65536,
    ensures
        r == lerp_spec(s1 as int, s2 as int, frac as int),
        -0x1_8000_0000 <= r <= 0x1_8000_0000,
{
    let d: i64 = s2 as i64 - s1 as i64;
    s1 as i64 + scale_q16(d, frac)
}

/// `round(65536 * exp(-n))` for small integer exponents; zero from 12 on.
pub open spec fn inv_exp_table_spec(n: int) -> int {
    if n == 0 { 65536 }
    else if n == 1 { 24109 }
    else if n == 2 { 8869 }
    else if n == 3 { 3263 }
    else if n == 4 { 1200 }
    else if n == 5 { 442 }
    else if n == 6 { 162 }
    else if n == 7 { 60 }
    else if n == 8 { 22 }
    else if n == 9 { 8 }
    else if n == 10 { 3 }
    else if n == 11 { 1 }
    else { 0 }
}

/// Q16 approximation of `exp(-f / 65536)` for a fractional exponent,
/// by four alternating series terms; always lands in `[1, 65536]`.
pub open spec fn exp_neg_frac_spec(f: int) -> int {
    let b = (f * f) / 131072;
    let c = (b * f) / 196608;
    let d = (c * f) / 262144;
    65536 - f + b - c + d
}

/// Q16 approximation of `0.5 * exp(-e / 65536)` for a non-negative Q16
/// exponent `e`, floored at 1 so the clipper never reaches the rail.
pub open spec fn half_exp_neg_spec(e: int) -> int {
    let n = e / 65536;
    let f = e % 65536;
    if n >= 12 {
        1
    } else {
        let raw = (inv_exp_table_spec(n) * exp_neg_frac_spec(f)) / 131072;
        if raw < 1 { 1 } else { raw }
    }
}

proof fn lemma_exp_neg_frac_bounds(f: int)
    requires
        0 <= f < 65536,
    ensures
        1 <= exp_neg_frac_spec(f) <= 65536,
{
    let b = (f * f) / 131072;
    let c = (b * f) / 196608;
    let d = (c * f) / 262144;
    assert(0 <= f * f <= f * 65536) by (nonlinear_arith)
        requires 0 <= f < 65536;
    assert(0 <= b <= f / 2) by (nonlinear_arith)
        requires 0 <= f * f <= f * 65536 && b == (f * f) / 131072;
    assert(0 <= b * f <= b * 65536) by (nonlinear_arith)
        requires 0 <= b && 0 <= f < 65536;
    assert(0 <= c <= b / 3) by (nonlinear_arith)
        requires 0 <= b * f <= b * 65536 && c == (b * f) / 196608 && 0 <= b;
    assert(0 <= c * f <= c * 65536) by (nonlinear_arith)
        requires 0 <= c && 0 <= f < 65536;
    assert(0 <= d <= c / 4) by (nonlinear_arith)
        requires 0 <= c * f <= c * 65536 && d == (c * f) / 262144 && 0 <= c;
}

/// Q16 soft clipper: the identity inside `[-0.5, 0.5]`, an exponential
/// saturation toward (but never reaching) `+-1.0` outside it.
pub open spec fn soft_clip_spec(s: int) -> int {
    if -32768 <= s <= 32768 {
        s
    } else if s > 32768 {
        65536 - half_exp_neg_spec(2 * (s - 32768))
    } else {
        -(65536 - half_exp_neg_spec(2 * ((-s) - 32768)))
    }
}

proof fn lemma_half_exp_neg_bounds(e: int)
    requires
        e >= 0,
    ensures
        1 <= half_exp_neg_spec(e) <= 32768,
        e == 0 ==> half_exp_neg_spec(e) == 32768,
{
    let n = e / 65536;
    let f = e % 65536;
    if n < 12 {
        lemma_exp_neg_frac_bounds(f);
        let t = inv_exp_table_spec(n);
        assert(0 <= t * exp_neg_frac_spec(f) <= 65536 * 65536) by (nonlinear_arith)
            requires 0 <= t <= 65536 && 1 <= exp_neg_frac_spec(f) <= 65536;
    }
    if e == 0 {
        assert(exp_neg_frac_spec(0) == 65536 - 0 + (0int * 0) / 131072 - (((0int * 0) / 131072) * 0) / 196608
            + ((((0int * 0) / 131072) * 0) / 196608 * 0) / 262144);
        assert(exp_neg_frac_spec(0) == 65536);
        assert((65536int * 65536) / 131072 == 32768) by (nonlinear_arith);
    }
}

/// The soft clipper maps zero to zero, is the identity on `[-0.5, 0.5]`,
/// and keeps every output strictly inside the `(-1.0, 1.0)` rails.
pub proof fn lemma_soft_clip_bounds(s: int)
    ensures
        soft_clip_spec(0) == 0,
        -32768 <= s <= 32768 ==> soft_clip_spec(s) == s,
        -65536 < soft_clip_spec(s) < 65536,
{
    if s > 32768 {
        lemma_half_exp_neg_bounds(2 * (s - 32768));
    } else if s < -32768 {
        lemma_half_exp_neg_bounds(2 * ((-s) - 32768));
    }
}

/// The soft clipper is odd-symmetric: negating the input negates the output.
pub proof fn lemma_soft_clip_odd(s: int)
    ensures
        soft_clip_spec(-s) == -soft_clip_spec(s),
{
}

/// Executable soft clipper over Q16 samples.
pub fn soft_clip(s: i64) -> (r: i32)
    requires
        -0x100_0000_0000 <= s <= 0x100_0000_0000,
    ensures
        r == soft_clip_spec(s as int),
        -65536 < r < 65536,
{
    proof {
        lemma_soft_clip_bounds(s as int);
    }
    if -32768 <= s && s <= 32768 {
        s as i32
    } else if s > 32768 {
        (65536 - half_exp_neg(2 * (s - 32768))) as i32
    } else {
        -((65536 - half_exp_neg(2 * ((-s) - 32768))) as i32)
    }
}

/// Executable `0.5 * exp(-e / 65536)` in Q16, floored at 1.
fn half_exp_neg(e: i64) -> (r: i64)
    requires
        0 <= e <= 0x400_0000_0000,
    ensures
        r == half_exp_neg_spec(e as int),
        1 <= r <= 32768,
{
    proof {
        lemma_half_exp_neg_bounds(e as int);
    }
    let n: i64 = e / 65536;
    let f: i64 = e % 65536;
    if n >= 12 {
        1
    } else {
        let t: i64 = inv_exp_table(n);
        let v: i64 = exp_neg_frac(f);
        assert(0 <= t * v <= 65536 * 65536) by (nonlinear_arith)
            requires 0 <= t <= 65536 && 0 <= v <= 65536;
        let raw: i64 = (t * v) / 131072;
        if raw < 1 {
            1
        } else {
            raw
        }
    }
}

/// Executable table of `round(65536 * exp(-n))`.
fn inv_exp_table(n: i64) -> (r: i64)
    requires
        0 <= n <= 11,
    ensures
        r == inv_exp_table_spec(n as int),
        0 <= r <= 65536,
{
    if n == 0 { 65536 }
    else if n == 1 { 24109 }
    else if n == 2 { 8869 }
    else if n == 3 { 3263 }
    else if n == 4 { 1200 }
    else if n == 5 { 442 }
    else if n == 6 { 162 }
    else if n == 7 { 60 }
    else if n == 8 { 22 }
    else if n == 9 { 8 }
    else if n == 10 { 3 }
    else { 1 }
}

/// Executable fractional exponential decay.
fn exp_neg_frac(f: i64) -> (r: i64)
    requires
        0 <= f < 65536,
    ensures
        r == exp_neg_frac_spec(f as int),
        1 <= r <= 65536,
{
    proof {
        lemma_exp_neg_frac_bounds(f as int);
    }
    assert(0 <= f * f < 65536 * 65536) by (nonlinear_arith)
        requires 0 <= f < 65536;
    let b: i64 = (f * f) / 131072;
    assert(0 <= b * f < 65536 * 65536) by (nonlinear_arith)
        requires 0 <= b < 65536 && 0 <= f < 65536;
    let c: i64 = (b * f) / 196608;
    assert(0 <= c * f < 65536 * 65536) by (nonlinear_arith)
        requires 0 <= c < 65536 && 0 <= f < 65536;
    let d: i64 = (c * f) / 262144;
    65536 - f + b - c + d
}

/// Floor of the square root of a natural number, defined by counting up.
pub open spec fn sqrt_floor(n: nat) -> nat
    decreases n,
{
    if n == 0 {
        0
    } else {
        let p = sqrt_floor((n - 1) as nat);
        if (p + 1) * (p + 1) <= n {
            p + 1
        } else {
            p
        }
    }
}

/// `sqrt_floor(n)` is the unique `r` with `r * r <= n < (r + 1) * (r + 1)`.
pub proof fn lemma_sqrt_floor_props(n: nat)
    ensures
        sqrt_floor(n) * sqrt_floor(n) <= n,
        n < (sqrt_floor(n) + 1) * (sqrt_floor(n) + 1),
    decreases n,
{
    if n == 0 {
        assert(sqrt_floor(0) == 0);
        assert((sqrt_floor(0) + 1) * (sqrt_floor(0) + 1) == 1) by (nonlinear_arith)
            requires sqrt_floor(0) == 0;
    } else {
        lemma_sqrt_floor_props((n - 1) as nat);
        let p = sqrt_floor((n - 1) as nat);
        if (p + 1) * (p + 1) <= n {
            assert(sqrt_floor(n) == p + 1);
            assert(n <= (p + 1) * (p + 1));
            assert(n < (p + 1 + 1) * (p + 1 + 1)) by (nonlinear_arith)
                requires n <= (p + 1) * (p + 1) && p >= 0;
        } else {
            assert(sqrt_floor(n) == p);
            assert(p * p <= n - 1);
        }
    }
}

proof fn lemma_sqrt_floor_unique(n: nat, r: nat)
    requires
        r * r <= n,
        n < (r + 1) * (r + 1),
    ensures
        r == sqrt_floor(n),
{
    lemma_sqrt_floor_props(n);
    let s = sqrt_floor(n);
    assert(r == s) by (nonlinear_arith)
        requires
            r * r <= n && n < (r + 1) * (r + 1) && s * s <= n && n < (s + 1) * (s + 1),
    ;
}

/// Executable integer square root by bisection.
pub fn isqrt(n: u64) -> (r: u64)
    requires
        n < 0x1_0000_0000_0000,
    ensures
        r == sqrt_floor(n as nat),
        r * r <= n,
{
    let mut lo: u64 = 0;
    let mut hi: u64 = 0x100_0000;
    assert(n < hi * hi) by (nonlinear_arith)
        requires n < 0x1_0000_0000_0000 && hi == 0x100_0000;
    while lo + 1 < hi
        invariant
            lo < hi <= 0x100_0000,
            lo * lo <= n,
            n < hi * hi,
        decreases hi - lo,
    {
        let mid: u64 = lo + (hi - lo) / 2;
        assert(mid * mid <= 0x100_0000 * 0x100_0000) by (nonlinear_arith)
            requires mid <= 0x100_0000;
        if mid * mid <= n {
            lo = mid;
        } else {
            hi = mid;
        }
    }
    proof {
        assert(n < (lo + 1) * (lo + 1)) by (nonlinear_arith)
            requires n < hi * hi && hi <= lo + 1 && 0 <= lo;
        lemma_sqrt_floor_unique(n as nat, lo as nat);
    }
    lo
}

/// One full cycle of a rational sine approximation: the argument is the
/// cycle fraction `num / den`, the result a Q16 value in `[-1.0, 1.0]`.
/// The positive half-wave is `16 h (1 - h) / (5 - 4 h (1 - h))` for the
/// half-cycle fraction `h`; the second half-cycle is its mirror image.
pub open spec fn sine_cycle_spec(num: int, den: int) -> int {
    if 2 * num < den {
        sine_half_spec(2 * num, den)
    } else {
        -sine_half_spec(2 * num - den, den)
    }
}

/// Positive half-wave of the rational sine approximation.
pub open spec fn sine_half_spec(y: int, den: int) -> int {
    let u = y * (den - y);
    (16 * u * 65536) / (5 * (den * den) - 4 * u)
}

proof fn lemma_sine_half_bounds(y: int, den: int)
    requires
        0 < den,
        0 <= y < den,
    ensures
        0 <= sine_half_spec(y, den) <= 65536,
{
    assert(0 <= 4 * (y * (den - y)) <= den * den && 1 <= den * den) by (nonlinear_arith)
        requires 0 < den && 0 <= y < den;
    let u = y * (den - y);
    assert(0 <= (16 * u * 65536) / (5 * (den * den) - 4 * u) <= 65536) by (nonlinear_arith)
        requires 0 <= 4 * u <= den * den && 1 <= den * den;
}

/// The sine approximation stays inside the Q16 unit range.
pub proof fn lemma_sine_cycle_bounds(num: int, den: int)
    requires
        0 < den,
        0 <= num < den,
    ensures
        -65536 <= sine_cycle_spec(num, den) <= 65536,
        num == 0 ==> sine_cycle_spec(num, den) == 0,
{
    if 2 * num < den {
        lemma_sine_half_bounds(2 * num, den);
    } else {
        lemma_sine_half_bounds(2 * num - den, den);
    }
    if num == 0 {
        assert(0 * (den - 0) == 0);
        assert(5 * (den * den) - 4 * 0 > 0) by (nonlinear_arith)
            requires den > 0;
        assert(sine_half_spec(0, den) == 0);
    }
}

/// Executable rational sine over one cycle.
pub fn sine_cycle(num: u64, den: u64) -> (r: i32)
    requires
        0 < den <= 1_000_000,
        num < den,
    ensures
        r == sine_cycle_spec(num as int, den as int),
        -65536 <= r <= 65536,
{
    proof {
        lemma_sine_cycle_bounds(num as int, den as int);
    }
    if 2 * num < den {
        sine_half(2 * num, den)
    } else {
        let r: i32 = sine_half(2 * num - den, den);
        -r
    }
}

/// Executable positive half-wave.
fn sine_half(y: u64, den: u64) -> (r: i32)
    requires
        0 < den <= 1_000_000,
        y < den,
    ensures
        r == sine_half_spec(y as int, den as int),
        0 <= r <= 65536,
{
    proof {
        lemma_sine_half_bounds(y as int, den as int);
    }
    assert(0 <= y * (den - y) && 4 * (y * (den - y)) <= den * den && 1 <= den * den <= 1_000_000 * 1_000_000)
        by (nonlinear_arith)
        requires 0 < den <= 1_000_000 && 0 <= y < den;
    let u: u64 = y * (den - y);
    let q: u64 = (16 * u * 65536) / (5 * (den * den) - 4 * u);
    assert(q <= 65536);
    q as i32
}

/// `round(2^(r/12) * 65536)` for one octave of semitone steps.
pub open spec fn twelfth_table_spec(r: int) -> int {
    if r == 0 { 65536 }
    else if r == 1 { 69433 }
    else if r == 2 { 73562 }
    else if r == 3 { 77936 }
    else if r == 4 { 82570 }
    else if r == 5 { 87480 }
    else if r == 6 { 92682 }
    else if r == 7 { 98193 }
    else if r == 8 { 104032 }
    else if r == 9 { 110218 }
    else if r == 10 { 116772 }
    else { 123715 }
}

/// Spec-level power of two for octave shifts.
pub open spec fn pow2_spec(q: nat) -> int
    decreases q,
{
    if q == 0 { 1 } else { 2 * pow2_spec((q - 1) as nat) }
}

/// Q16 playback-rate multiplier for a semitone offset in `[-24, 24]`:
/// `round(2^(s/12) * 65536)`, exact at whole octaves.
pub open spec fn pitch_factor_spec(s: int) -> int {
    let q = ((s + 24) / 12) as nat;
    let r = (s + 24) % 12;
    (twelfth_table_spec(r) * pow2_spec(q)) / 4
}

/// Small powers of two, spelled out for use beside `pow2_spec`.
pub proof fn lemma_pow2_small()
    ensures
        pow2_spec(0) == 1,
        pow2_spec(1) == 2,
        pow2_spec(2) == 4,
        pow2_spec(3) == 8,
        pow2_spec(4) == 16,
{
    assert(pow2_spec(0) == 1);
    assert(pow2_spec(1) == 2);
    assert(pow2_spec(2) == 4);
    assert(pow2_spec(3) == 8);
    assert(pow2_spec(4) == 16);
}

/// A whole octave up doubles the playback rate and a whole octave down
/// halves it, exactly.
pub proof fn lemma_pitch_factor_octaves()
    ensures
        pitch_factor_spec(12) == 2 * 65536,
        pitch_factor_spec(-12) == 65536int / 2,
        pitch_factor_spec(0) == 65536,
        pitch_factor_spec(24) == 4 * 65536,
        pitch_factor_spec(-24) == 65536int / 4,
{
    lemma_pow2_small();
}

/// Executable pitch table; the result always lies in `[16384, 262144]`.
pub fn pitch_factor(s: i8) -> (r: u32)
    requires
        -24 <= s <= 24,
    ensures
        r == pitch_factor_spec(s as int),
        16384 <= r <= 262144,
{
    let shifted: u32 = (s as i32 + 24) as u32;
    let q: u32 = shifted / 12;
    let rem: u32 = shifted % 12;
    let base: u32 = twelfth_table(rem);
    let mut p: u32 = 1;
    let mut i: u32 = 0;
    while i < q
        invariant
            i <= q <= 4,
            p == pow2_spec(i as nat),
            1 <= p <= 16,
        decreases q - i,
    {
        proof {
            lemma_pow2_small();
        }
        p = p * 2;
        i = i + 1;
    }
    proof {
        lemma_pow2_small();
        if q == 4 {
            assert(rem == 0);
            assert(base * p == 65536 * 16) by (nonlinear_arith)
                requires base == 65536 && p == 16;
        } else {
            assert(p <= 8);
            assert(65536 <= base * p <= 123715 * 8) by (nonlinear_arith)
                requires 65536 <= base <= 123715 && 1 <= p <= 8;
        }
        assert(65536 <= base * p <= 1048576);
    }
    (base * p) / 4
}

/// Executable twelfth-root-of-two table.
fn twelfth_table(r: u32) -> (v: u32)
    requires
        r < 12,
    ensures
        v == twelfth_table_spec(r as int),
        65536 <= v <= 123715,
{
    if r == 0 { 65536 }
    else if r == 1 { 69433 }
    else if r == 2 { 73562 }
    else if r == 3 { 77936 }
    else if r == 4 { 82570 }
    else if r == 5 { 87480 }
    else if r == 6 { 92682 }
    else if r == 7 { 98193 }
    else if r == 8 { 104032 }
    else if r == 9 { 110218 }
    else if r == 10 { 116772 }
    else { 123715 }
}

} // verus!
