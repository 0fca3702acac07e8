//! An exact integer model of the IEEE 754 binary64 operations that the byte-size
//! label goes through: conversion of a `u64` to `f64`, division of two such values
//! (both rounded to nearest, ties to even), and rounding a binary value to a fixed
//! number of decimals with ties to even.
use vstd::arithmetic::div_mod::*;
use vstd::arithmetic::mul::*;
use vstd::arithmetic::power2::*;
use vstd::prelude::*;

verus! {

/// `a / b` rounded to the nearest integer, ties to the even neighbour.
pub open spec fn round_half_even(a: nat, b: nat) -> nat
    recommends
        b > 0,
{
    let q = a / b;
    let r = a % b;
    if 2 * r > b || (2 * r == b && q % 2 == 1) {
        q + 1
    } else {
        q
    }
}

/// The position of the highest set bit of `n` (zero for `n <= 1`).
pub open spec fn ilog2(n: nat) -> nat
    decreases n,
{
    if n <= 1 {
        0
    } else {
        1 + ilog2(n / 2)
    }
}

/// The value of `n as f64`: integers below 2^53 are exact; larger ones keep their 53
/// leading bits, rounded to nearest with ties to even.
pub open spec fn u64_as_f64(n: nat) -> nat {
    if n < pow2(53) {
        n
    } else {
        let s = (ilog2(n) - 52) as nat;
        round_half_even(n, pow2(s)) * pow2(s)
    }
}

/// Scaling `a / b` by `2^p` puts its integer part into the binade `[2^52, 2^53)`.
pub open spec fn in_binade(a: nat, b: nat, p: nat) -> bool {
    &&& pow2(52) <= (a * pow2(p)) / b
    &&& (a * pow2(p)) / b < pow2(53)
}

/// The scaling of the quotient `a / b` that `in_binade` describes.
pub open spec fn quotient_shift(a: nat, b: nat) -> nat {
    choose|p: nat| in_binade(a, b, p)
}

/// The significand of the binary64 quotient `a / b` (for `0 < a / b < 2^53`): the
/// quotient as an `f64` equals `quotient_significand(a, b) / 2^quotient_shift(a, b)`.
pub open spec fn quotient_significand(a: nat, b: nat) -> nat {
    round_half_even(a * pow2(quotient_shift(a, b)), b)
}

pub proof fn lemma_ilog2_of_binade(n: nat, k: nat)
    requires
        pow2(k) <= n < pow2(k + 1),
    ensures
        ilog2(n) == k,
    decreases k,
{
    lemma_pow2_unfold(k + 1);
    if k == 0 {
        lemma2_to64();
    } else {
        lemma_pow2_unfold(k);
        assert(pow2((k - 1) as nat) <= n / 2 < pow2(k));
        lemma_ilog2_of_binade(n / 2, (k - 1) as nat);
    }
}

pub proof fn lemma_in_binade_unique(a: nat, b: nat, p: nat, q: nat)
    requires
        b > 0,
        in_binade(a, b, p),
        in_binade(a, b, q),
    ensures
        p == q,
{
    if p != q {
        let (lo, hi) = if p < q {
            (p, q)
        } else {
            (q, p)
        };
        let k = pow2((hi - lo) as nat);
        lemma_pow2_adds(lo, (hi - lo) as nat);
        lemma_pow2_strictly_increases(0, (hi - lo) as nat);
        lemma2_to64();
        let x = a * pow2(lo);
        assert(a * pow2(hi) == x * k) by {
            lemma_mul_is_associative(a as int, pow2(lo) as int, k as int);
        }
        lemma_mul_hoist_inequality(k as int, x as int, b as int);
        lemma_mul_is_commutative(k as int, x as int);
        assert(k * (x / b) >= 2 * pow2(52)) by {
            lemma_mul_inequality(2, k as int, (x / b) as int);
            lemma_mul_inequality(pow2(52) as int, (x / b) as int, 2);
        }
        lemma_pow2_unfold(53);
    }
}

proof fn lemma_below_scaled(x: nat, b: nat, n: nat)
    requires
        b >= 1,
        x / b < n,
    ensures
        x < n * b,
{
    lemma_fundamental_div_mod(x as int, b as int);
    lemma_mod_pos_bound(x as int, b as int);
    lemma_mul_inequality((x / b + 1) as int, n as int, b as int);
    lemma_mul_is_distributive_add(b as int, (x / b) as int, 1);
    lemma_mul_is_commutative(b as int, (x / b + 1) as int);
}

proof fn lemma_binade_from(a: nat, b: nat, p: nat)
    requires
        a >= 1,
        b >= 1,
        (a * pow2(p)) / b < pow2(53),
    ensures
        exists|q: nat| in_binade(a, b, q),
    decreases pow2(53) * b - a * pow2(p),
{
    let x = a * pow2(p);
    lemma_pow2_pos(p);
    lemma_below_scaled(x, b, pow2(53));
    if x / b < pow2(52) {
        lemma_pow2_unfold(p + 1);
        lemma_pow2_unfold(53);
        let y = a * pow2(p + 1);
        assert(y == 2 * x) by {
            lemma_mul_is_associative(a as int, 2, pow2(p) as int);
            lemma_mul_is_commutative(a as int, 2);
            lemma_mul_is_associative(2, a as int, pow2(p) as int);
        }
        lemma_fundamental_div_mod(x as int, b as int);
        lemma_mod_pos_bound(x as int, b as int);
        assert(y / b <= 2 * (x / b) + 1) by {
            lemma_fundamental_div_mod(y as int, b as int);
            lemma_mod_pos_bound(y as int, b as int);
            assert(y == b * (2 * (x / b)) + 2 * (x % b)) by {
                lemma_mul_is_associative(b as int, 2, (x / b) as int);
                lemma_mul_is_commutative(b as int, 2);
                lemma_mul_is_associative(2, b as int, (x / b) as int);
            }
            assert(2 * (x % b) < 2 * b);
            if y / b > 2 * (x / b) + 1 {
                lemma_mul_inequality((2 * (x / b) + 2) as int, (y / b) as int, b as int);
                lemma_mul_is_distributive_add(b as int, (2 * (x / b)) as int, 2);
                lemma_mul_is_commutative(b as int, (2 * (x / b) + 2) as int);
                lemma_mul_is_commutative(b as int, (y / b) as int);
            }
        }
        lemma_below_scaled(y, b, pow2(53));
        lemma_mul_inequality(1, a as int, pow2(p) as int);
        lemma_binade_from(a, b, p + 1);
    } else {
        assert(in_binade(a, b, p));
    }
}

/// A quotient below `2^53` has a scaling into the binade `[2^52, 2^53)`: the one that
/// `quotient_shift` names.
pub proof fn lemma_binade_exists(a: nat, b: nat)
    requires
        a >= 1,
        b >= 1,
        a < pow2(53) * b,
    ensures
        in_binade(a, b, quotient_shift(a, b)),
{
    lemma_fundamental_div_mod(a as int, b as int);
    lemma_mod_pos_bound(a as int, b as int);
    assert(a / b < pow2(53)) by (nonlinear_arith)
        requires
            a == b * (a / b) + a % b,
            0 <= a % b,
            a < pow2(53) * b,
            b >= 1,
    ;
    assert(a * pow2(0) == a) by {
        lemma2_to64();
    }
    lemma_binade_from(a, b, 0);
}

/// `a / b` rounded to the nearest integer with ties to even, on machine integers.
pub fn round_half_even_u128(a: u128, b: u128) -> (r: u128)
    requires
        b > 0,
    ensures
        r == round_half_even(a as nat, b as nat),
        r <= a,
        r >= a / b,
        r <= a / b + 1,
{
    let q = a / b;
    let rem = a % b;
    proof {
        lemma_fundamental_div_mod(a as int, b as int);
        lemma_mod_pos_bound(a as int, b as int);
        if rem > 0 {
            lemma_mul_inequality(1, b as int, q as int);
        } else {
            lemma_mul_inequality(1, b as int, q as int);
        }
    }
    if rem > b - rem || (rem == b - rem && q % 2 == 1) {
        q + 1
    } else {
        q
    }
}

/// The value of `n as f64`, exactly.
pub fn u64_to_f64_exact(n: u64) -> (r: u128)
    ensures
        r == u64_as_f64(n as nat),
        r <= pow2(64),
        n >= 1 ==> r >= 1,
{
    proof {
        lemma2_to64();
        lemma2_to64_rest();
    }
    if n < 0x20_0000_0000_0000 {
        return n as u128;
    }
    let mut s: u32 = 0;
    let mut t: u64 = n;
    let mut pw: u64 = 1;
    while t >= 0x20_0000_0000_0000
        invariant
            pow2(53) <= n,
            pw == pow2(s as nat),
            t == n / pw,
            t >= 0x10_0000_0000_0000,
            pw * t <= n,
            pw <= 0x1000,
            s <= 12,
        decreases t,
    {
        proof {
            lemma_pow2_pos(s as nat);
            lemma_div_denominator(n as int, pw as int, 2);
            lemma_pow2_unfold((s + 1) as nat);
            assert(pw * 0x20_0000_0000_0000 <= pw * t) by {
                lemma_mul_inequality(0x20_0000_0000_0000, t as int, pw as int);
                lemma_mul_is_commutative(pw as int, t as int);
                lemma_mul_is_commutative(pw as int, 0x20_0000_0000_0000);
            }
            assert(pw < 0x800) by (nonlinear_arith)
                requires
                    pw * 0x20_0000_0000_0000 <= n,
                    n <= 0xffff_ffff_ffff_ffff,
            ;
            if s >= 11 {
                if s > 11 {
                    lemma_pow2_strictly_increases(11, s as nat);
                }
                lemma2_to64();
            }
            assert(pw * 2 * (t / 2) <= pw * t) by (nonlinear_arith)
                requires
                    pw >= 0,
                    t >= 0,
            ;
        }
        t = t / 2;
        pw = pw * 2;
        s = s + 1;
    }
    proof {
        lemma_pow2_pos(s as nat);
        lemma_fundamental_div_mod(n as int, pw as int);
        lemma_mod_pos_bound(n as int, pw as int);
        lemma_pow2_adds(52, s as nat);
        lemma_pow2_adds(53, s as nat);
        assert(pow2(52) * pw <= n) by (nonlinear_arith)
            requires
                pw * t <= n,
                t >= pow2(52),
                pw >= 0,
        ;
        assert(n < pow2(53) * pw) by (nonlinear_arith)
            requires
                n == pw * t + n % pw,
                n % pw < pw,
                t < pow2(53),
        ;
        lemma_mul_is_commutative(pow2(52) as int, pw as int);
        lemma_mul_is_commutative(pow2(53) as int, pw as int);
        lemma_ilog2_of_binade(n as nat, (52 + s) as nat);
        assert((ilog2(n as nat) - 52) as nat == s as nat);
    }
    let m = round_half_even_u128(n as u128, pw as u128);
    proof {
        assert(m <= t + 1);
        lemma_mul_inequality(m as int, pow2(53) as int, pw as int);
        lemma_mul_inequality(pw as int, 0x1000, pow2(53) as int);
        lemma_mul_inequality(1, m as int, pw as int);
    }
    m * (pw as u128)
}

/// The binary64 quotient `a / b` as its significand and scaling: the quotient equals
/// `significand / 2^shift`; `scale` is `2^shift`.
pub fn f64_quotient(a: u128, b: u128) -> (res: (u128, u32, u128))
    requires
        1 <= a <= pow2(64),
        1 <= b <= 0x100_0000_0000,
        a < 0x20_0000_0000_0000 * b,
    ensures
        res.1 == quotient_shift(a as nat, b as nat),
        res.0 == quotient_significand(a as nat, b as nat),
        res.2 == pow2(res.1 as nat),
        res.0 <= pow2(53),
        res.1 < 94,
        in_binade(a as nat, b as nat, res.1 as nat),
{
    proof {
        lemma2_to64();
        lemma2_to64_rest();
        lemma_pow2_adds(53, 40);
        lemma_pow2_adds(53, 41);
        lemma_pow2_adds(64, 29);
        assert(pow2(40) == 0x100_0000_0000) by {
            lemma_pow2_adds(32, 8);
        }
    }
    let mut p: u32 = 0;
    let mut pw: u128 = 1;
    let bound: u128 = 0x20_0000_0000_0000u128 * b;
    while (a * pw) / b < 0x10_0000_0000_0000
        invariant
            1 <= a <= pow2(64),
            1 <= b <= 0x100_0000_0000,
            bound == 0x20_0000_0000_0000 * b,
            pw == pow2(p as nat),
            a * pw < bound,
            pw <= a * pw,
            pw >= 1,
            p < 94,
        decreases bound - a * pw,
    {
        proof {
            assert(a * pw >= 1) by (nonlinear_arith)
                requires
                    a >= 1,
                    pw >= 1,
            ;
            lemma_pow2_unfold((p + 1) as nat);
            lemma_fundamental_div_mod((a * pw) as int, b as int);
            lemma_mod_pos_bound((a * pw) as int, b as int);
            assert(a * pw < 0x10_0000_0000_0000 * b) by (nonlinear_arith)
                requires
                    a * pw == b * ((a * pw) / (b as int)) + (a * pw) % (b as int),
                    (a * pw) % (b as int) < b,
                    (a * pw) / (b as int) < 0x10_0000_0000_0000,
            ;
            assert(a * (pw * 2) == (a * pw) * 2) by (nonlinear_arith);
            if p + 1 >= 94 {
                lemma_pow2_strictly_increases(93, (p + 1) as nat);
                lemma_pow2_adds(53, 40);
                assert(pow2(93) == pow2(53) * pow2(40));
                lemma2_to64_rest();
                lemma2_to64();
                assert(pow2(40) == 0x100_0000_0000) by {
                    lemma_pow2_adds(32, 8);
                }
                assert(pow2(93) >= 0x20_0000_0000_0000 * 0x100_0000_0000);
                assert(false) by (nonlinear_arith)
                    requires
                        pw * 2 >= pow2(93),
                        pow2(93) >= 0x20_0000_0000_0000 * 0x100_0000_0000,
                        pw <= a * pw,
                        a * pw < 0x10_0000_0000_0000 * b,
                        b <= 0x100_0000_0000,
                ;
            }
        }
        pw = pw * 2;
        p = p + 1;
    }
    proof {
        lemma_fundamental_div_mod((a * pw) as int, b as int);
        lemma_mod_pos_bound((a * pw) as int, b as int);
        assert((a * pw) / (b as int) < 0x20_0000_0000_0000) by (nonlinear_arith)
            requires
                a * pw == b * ((a * pw) / (b as int)) + (a * pw) % (b as int),
                (a * pw) % (b as int) >= 0,
                a * pw < 0x20_0000_0000_0000 * b,
                b >= 1,
        ;
        assert(in_binade(a as nat, b as nat, p as nat));
        lemma_in_binade_unique(a as nat, b as nat, p as nat, quotient_shift(a as nat, b as nat));
    }
    let m = round_half_even_u128(a * pw, b);
    proof {
        assert(m <= (a * pw) / (b as int) + 1) by {
            lemma_fundamental_div_mod((a * pw) as int, b as int);
        }
    }
    (m, p, pw)
}

/// `bytes as f64 / 1e9 < limit` in binary64 arithmetic.
pub open spec fn gigabytes_below(bytes: nat, limit: nat) -> bool {
    if bytes == 0 {
        0 < limit
    } else {
        let d = u64_as_f64(bytes);
        quotient_significand(d, 1_000_000_000) < limit * pow2(quotient_shift(d, 1_000_000_000))
    }
}

/// Whether `bytes as f64 / 1e9 < limit as f64`.
pub fn gigabytes_below_exec(bytes: u64, limit: u32) -> (b: bool)
    requires
        limit <= 0x10_0000,
    ensures
        b == gigabytes_below(bytes as nat, limit as nat),
{
    if bytes == 0 {
        return 0 < limit;
    }
    let d = u64_to_f64_exact(bytes);
    proof {
        lemma2_to64();
        lemma2_to64_rest();
    }
    let (m, p, pw) = f64_quotient(d, 1_000_000_000);
    proof {
        lemma_pow2_strictly_increases(p as nat, 94);
        lemma_pow2_adds(64, 30);
        lemma2_to64_rest();
        lemma2_to64();
        lemma_mul_inequality(limit as int, 0x10_0000, pw as int);
        lemma_mul_inequality(pw as int, pow2(94) as int, 0x10_0000);
    }
    m < (limit as u128) * pw
}

} // verus!
