//! The part of IEEE 754 double arithmetic that byte sizes go through:
//! converting a `u64`, dividing by 1000, comparing with 1000, and rounding to
//! tenths. A positive double is a pair `(m, e)` standing for `m * 2^e` with
//! a 53-bit significand `2^52 <= m < 2^53`; every operation rounds to the
//! nearest such value, ties to an even significand.

use vstd::prelude::*;

verus! {

/// `2^52`, the smallest 53-bit significand.
pub open spec fn sig_min() -> nat {
    0x10_0000_0000_0000
}

/// `2^53`, one past the largest 53-bit significand.
pub open spec fn sig_end() -> nat {
    0x20_0000_0000_0000
}

/// 2 to the `k`.
pub open spec fn pow2n(k: nat) -> nat
    decreases k,
{
    if k == 0 { 1 } else { 2 * pow2n((k - 1) as nat) }
}

/// `n / d` rounded to the nearest integer, ties to even.
pub open spec fn round_even(n: nat, d: nat) -> nat {
    let q = n / d;
    let r = n % d;
    if 2 * r > d || (2 * r == d && q % 2 == 1) { q + 1 } else { q }
}

/// Distance of `m` below `2^52`.
pub open spec fn gap(m: nat) -> nat {
    if m < sig_min() { (sig_min() - m) as nat } else { 0 }
}

/// `m * 2^e` with `m` doubled (and `e` lowered) until it has 53 bits.
pub open spec fn norm_up(m: nat, e: int) -> (nat, int)
    decreases gap(m),
{
    if m == 0 || m >= sig_min() { (m, e) } else { norm_up(2 * m, e - 1) }
}

/// The first shift `s` from the given one on at which `b / 2^s` has fewer
/// than 54 bits.
pub open spec fn shift_down(b: nat, s: nat) -> nat
    decreases 64 - s,
{
    if s >= 64 || b / pow2n(s) < sig_end() { s } else { shift_down(b, s + 1) }
}

/// The double nearest to the integer `b`.
pub open spec fn from_int(b: nat) -> (nat, int) {
    if b < sig_end() {
        norm_up(b, 0)
    } else {
        let s = shift_down(b, 1);
        let m = round_even(b, pow2n(s));
        if m == sig_end() { (sig_min(), s + 1int) } else { (m, s as int) }
    }
}

/// The double nearest to `m * 2^e / 1000`, for a 53-bit `m`: the quotient
/// lies in the binade found by comparing `m * 2^20` with `1000 * 2^63`.
pub open spec fn div1000(m: nat, e: int) -> (nat, int) {
    let n = m * 0x10_0000;
    let s: int = if n >= 1000 * 0x8000_0000_0000_0000 { 11 } else { 10 };
    let d: nat = if s == 11 { 2048000 } else { 1024000 };
    let q = round_even(n, d);
    if q == sig_end() { (sig_min(), e - 20 + s + 1) } else { (q, e - 20 + s) }
}

/// `m * 2^e >= 1000`.
pub open spec fn at_least_1000(m: nat, e: int) -> bool {
    if e >= 0 { m * pow2n(e as nat) >= 1000 } else { m >= 1000 * pow2n((-e) as nat) }
}

/// `m * 2^e` rounded to tenths (ties to even), counted in tenths.
pub open spec fn tenths(m: nat, e: int) -> nat {
    if e >= 0 { 10 * m * pow2n(e as nat) } else { round_even(10 * m, pow2n((-e) as nat)) }
}

pub proof fn lemma_pow2n_mono(a: nat, b: nat)
    requires
        a <= b,
    ensures
        pow2n(a) <= pow2n(b),
        pow2n(a) >= 1,
    decreases b,
{
    if a < b {
        lemma_pow2n_mono(a, (b - 1) as nat);
    } else if a > 0 {
        lemma_pow2n_mono((a - 1) as nat, (a - 1) as nat);
    }
}

pub proof fn lemma_pow2n_add(a: nat, b: nat)
    ensures
        pow2n(a + b) == pow2n(a) * pow2n(b),
    decreases b,
{
    if b == 0 {
        assert(pow2n(0) == 1);
        assert(pow2n(a) * 1 == pow2n(a));
    } else {
        lemma_pow2n_add(a, (b - 1) as nat);
        assert(pow2n(b) == 2 * pow2n((b - 1) as nat));
        assert(pow2n(a + b) == 2 * pow2n((a + b - 1) as nat));
        assert((a + b - 1) as nat == a + (b - 1) as nat);
        assert(pow2n(a) * (2 * pow2n((b - 1) as nat)) == 2 * (pow2n(a) * pow2n((b - 1) as nat))) by (nonlinear_arith);
    }
}

/// The powers of two that bound the arithmetic here.
pub proof fn lemma_pow2n_values()
    ensures
        pow2n(1) == 2,
        pow2n(11) == 2048,
        pow2n(20) == 0x10_0000,
        pow2n(44) == 0x1000_0000_0000,
        pow2n(100) == 0x10_0000_0000_0000_0000_0000_0000,
        pow2n(120) == 0x100_0000_0000_0000_0000_0000_0000_0000,
{
    reveal_with_fuel(pow2n, 21);
    assert(pow2n(11) == 2048);
    assert(pow2n(20) == 0x10_0000);
    lemma_pow2n_add(20, 20);
    lemma_pow2n_add(40, 4);
    assert(pow2n(4) == 16);
    lemma_pow2n_add(40, 40);
    lemma_pow2n_add(80, 20);
    lemma_pow2n_add(100, 20);
}

/// `2^k` for `k <= 120`.
pub fn pow2_u128(k: u32) -> (r: u128)
    requires
        k <= 120,
    ensures
        r == pow2n(k as nat),
{
    proof {
        lemma_pow2n_values();
    }
    let mut r: u128 = 1;
    let mut i: u32 = 0;
    while i < k
        invariant
            i <= k <= 120,
            r == pow2n(i as nat),
            pow2n(120) == 0x100_0000_0000_0000_0000_0000_0000_0000u128,
        decreases k - i,
    {
        proof {
            lemma_pow2n_mono((i + 1) as nat, 120);
        }
        r = r * 2;
        i = i + 1;
    }
    r
}

/// `n / d` rounded to the nearest integer, ties to even.
pub fn round_even_u128(n: u128, d: u128) -> (r: u128)
    requires
        d > 0,
        n < 0x8000_0000_0000_0000_0000_0000_0000_0000,
        d < 0x8000_0000_0000_0000_0000_0000_0000_0000,
    ensures
        r == round_even(n as nat, d as nat),
{
    let q = n / d;
    let rem = n % d;
    assert(q <= n) by (nonlinear_arith)
        requires
            d > 0,
            q == n / d,
    ;
    if 2 * rem > d || (2 * rem == d && q % 2 == 1) {
        q + 1
    } else {
        q
    }
}

/// If `lo * d <= n < hi * d`, the rounded quotient lies in `[lo, hi]`.
pub proof fn lemma_round_even_bounds(n: nat, d: nat, lo: nat, hi: nat)
    requires
        d > 0,
        lo * d <= n,
        n < hi * d,
    ensures
        lo <= round_even(n, d) <= hi,
{
    let q = n / d;
    assert(lo <= q) by (nonlinear_arith)
        requires
            d > 0,
            lo * d <= n,
            q == n / d,
    ;
    assert(q < hi) by (nonlinear_arith)
        requires
            d > 0,
            n < hi * d,
            q == n / d,
    ;
}

/// The double nearest to `b`, for `b >= 1000`.
pub fn from_int_exec(b: u64) -> (r: (u128, i32))
    requires
        b >= 1000,
    ensures
        r.0 == from_int(b as nat).0,
        r.1 == from_int(b as nat).1,
        sig_min() <= r.0 < sig_end(),
        -43 <= r.1 <= 12,
{
    if (b as u128) < 0x20_0000_0000_0000 {
        let mut m: u128 = b as u128;
        let mut e: i32 = 0;
        let ghost mut k: nat = 0;
        proof {
            lemma_pow2n_mono(0, 0);
        }
        while m < 0x10_0000_0000_0000
            invariant
                norm_up(m as nat, e as int) == norm_up(b as nat, 0),
                m > 0,
                m >= 512 * pow2n(k),
                m < sig_end(),
                e == -k,
                k <= 43,
            decreases gap(m as nat),
        {
            proof {
                assert(pow2n(k + 1) == 2 * pow2n(k));
                if k + 1 > 43 {
                    lemma_pow2n_mono(44, k + 1);
                    lemma_pow2n_values();
                }
            }
            m = m * 2;
            e = e - 1;
            proof {
                k = k + 1;
            }
        }
        (m, e)
    } else {
        let mut s: u32 = 1;
        let mut p: u128 = 2;
        proof {
            lemma_pow2n_values();
        }
        while s < 11 && (b as u128) / p >= 0x20_0000_0000_0000
            invariant
                1 <= s <= 11,
                p == pow2n(s as nat),
                p >= 2,
                shift_down(b as nat, s as nat) == shift_down(b as nat, 1),
                b >= sig_min() * pow2n(s as nat),
                pow2n(11) == 2048,
            decreases 11 - s,
        {
            proof {
                assert(b >= sig_end() * pow2n(s as nat)) by (nonlinear_arith)
                    requires
                        b as nat / pow2n(s as nat) >= sig_end(),
                        pow2n(s as nat) > 0,
                ;
                assert(pow2n((s + 1) as nat) == 2 * pow2n(s as nat));
                lemma_pow2n_mono((s + 1) as nat, 11);
            }
            assert(p * 2 <= 2048) by {
                lemma_pow2n_mono((s + 1) as nat, 11);
            }
            p = p * 2;
            s = s + 1;
        }
        proof {
            lemma_pow2n_mono(s as nat, 11);
            if s == 11 {
                assert((b as nat) / 2048 < sig_end());
            }
            assert(b < sig_end() * pow2n(s as nat)) by (nonlinear_arith)
                requires
                    b as nat / pow2n(s as nat) < sig_end(),
                    pow2n(s as nat) > 0,
            ;
            lemma_round_even_bounds(b as nat, pow2n(s as nat), sig_min(), sig_end());
        }
        let m = round_even_u128(b as u128, p);
        if m == 0x20_0000_0000_0000 {
            (0x10_0000_0000_0000, (s + 1) as i32)
        } else {
            (m, s as i32)
        }
    }
}

/// The double nearest to `m * 2^e / 1000`.
pub fn div1000_exec(m: u128, e: i32) -> (r: (u128, i32))
    requires
        sig_min() <= m < sig_end(),
        -1000 <= e <= 1000,
    ensures
        r.0 == div1000(m as nat, e as int).0,
        r.1 == div1000(m as nat, e as int).1,
        sig_min() <= r.0 < sig_end(),
        e - 10 <= r.1 <= e - 8,
{
    let n: u128 = m * 0x10_0000;
    let (s, d): (i32, u128) = if n >= 1000 * 0x8000_0000_0000_0000 {
        (11, 2048000)
    } else {
        (10, 1024000)
    };
    proof {
        lemma_round_even_bounds(n as nat, d as nat, sig_min(), sig_end());
    }
    let q = round_even_u128(n, d);
    if q == 0x20_0000_0000_0000 {
        (0x10_0000_0000_0000, e - 20 + s + 1)
    } else {
        (q, e - 20 + s)
    }
}

/// `m * 2^e >= 1000`.
pub fn at_least_1000_exec(m: u128, e: i32) -> (r: bool)
    requires
        sig_min() <= m < sig_end(),
        -100 <= e <= 20,
    ensures
        r == at_least_1000(m as nat, e as int),
{
    if e >= 0 {
        let p = pow2_u128(e as u32);
        proof {
            lemma_pow2n_mono(e as nat, 20);
            lemma_pow2n_values();
        }
        assert(m * p < 0x20_0000_0000_0000 * 0x10_0001) by (nonlinear_arith)
            requires
                m < 0x20_0000_0000_0000,
                p <= 0x10_0000,
        ;
        m * p >= 1000
    } else {
        let p = pow2_u128((-e) as u32);
        proof {
            lemma_pow2n_mono((-e) as nat, 100);
            lemma_pow2n_values();
        }
        m >= 1000 * p
    }
}

/// `m * 2^e` in tenths, for a value below `2^52` (so `e < 0`).
pub fn tenths_exec(m: u128, e: i32) -> (r: u64)
    requires
        sig_min() <= m < sig_end(),
        -100 <= e < 0,
    ensures
        r == tenths(m as nat, e as int),
{
    let p = pow2_u128((-e) as u32);
    proof {
        lemma_pow2n_mono(1, (-e) as nat);
        lemma_pow2n_mono((-e) as nat, 100);
        lemma_pow2n_values();
        assert(10 * m < 0x100_0000_0000_0000 * p) by (nonlinear_arith)
            requires
                m < 0x20_0000_0000_0000,
                p >= 2,
        ;
        lemma_round_even_bounds((10 * m) as nat, p as nat, 0, 0x100_0000_0000_0000);
    }
    let t = round_even_u128(10 * m, p);
    t as u64
}

} // verus!
