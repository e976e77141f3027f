use vstd::prelude::*;
use vstd::arithmetic::power2::{pow2, lemma2_to64, lemma2_to64_rest, lemma_pow2_unfold, lemma_pow2_pos};

verus! {

/// `a / d` rounded to the nearest integer, ties to the even neighbour.
pub open spec fn round_half_even(a: nat, d: nat) -> nat {
    let q = a / d;
    let r = a % d;
    if 2 * r > d || (2 * r == d && q % 2 == 1) {
        q + 1
    } else {
        q
    }
}

/// Number of binary digits of `n` (0 for 0).
pub open spec fn bit_length(n: nat) -> nat
    decreases n,
{
    if n == 0 {
        0
    } else {
        1 + bit_length(n / 2)
    }
}

/// The value of the IEEE-754 double nearest to `n` (ties to even), for `n < 2^64`:
/// a double carries 53 significant bits, so larger values are rounded to a multiple
/// of `2^(bit_length(n) - 53)`.
pub open spec fn nearest_f64(n: nat) -> nat {
    if n < pow2(53) {
        n
    } else {
        let s = (bit_length(n) - 53) as nat;
        round_half_even(n, pow2(s)) * pow2(s)
    }
}

/// The double nearest to `n / d` (with `n >= d > 0` and `n / d < 2^64`), rounded to an
/// integer with ties to even.
///
/// With `e = floor(log2(n / d))`, doubles in `[2^e, 2^(e+1))` are spaced `2^(e - 52)` apart.
pub open spec fn rounded_ratio(n: nat, d: nat) -> nat {
    let e = (bit_length(n / d) - 1) as nat;
    if e <= 52 {
        let sh = (52 - e) as nat;
        round_half_even(round_half_even(n * pow2(sh), d), pow2(sh))
    } else {
        let sh = (e - 52) as nat;
        round_half_even(n, d * pow2(sh)) * pow2(sh)
    }
}

/// `n < 2^k` exactly when `n` has at most `k` binary digits.
pub proof fn lemma_bit_length_bound(n: nat, k: nat)
    ensures
        n < pow2(k) <==> bit_length(n) <= k,
    decreases k,
{
    lemma_pow2_pos(k);
    if k == 0 {
        lemma2_to64();
    } else {
        lemma_pow2_unfold(k);
        lemma_bit_length_bound(n / 2, (k - 1) as nat);
    }
}

/// `2^k` as a machine integer.
pub fn pow2_u64(k: u32) -> (r: u64)
    requires
        k < 64,
    ensures
        r == pow2(k as nat),
{
    proof {
        lemma2_to64();
    }
    let mut r: u64 = 1;
    let mut i: u32 = 0;
    while i < k
        invariant
            i <= k < 64,
            r == pow2(i as nat),
        decreases k - i,
    {
        proof {
            lemma2_to64();
            lemma_pow2_unfold((i + 1) as nat);
            assert(pow2((i + 1) as nat) < pow2(64)) by {
                vstd::arithmetic::power2::lemma_pow2_strictly_increases((i + 1) as nat, 64);
            }
        }
        r = r * 2;
        i = i + 1;
    }
    r
}

/// `a / d` rounded half to even.
pub fn round_half_even_u128(a: u128, d: u128) -> (r: u128)
    requires
        d > 0,
    ensures
        r == round_half_even(a as nat, d as nat),
        a / d <= r <= a / d + 1,
{
    let q = a / d;
    let rem = a % d;
    if rem > d - rem || (rem == d - rem && q % 2 == 1) {
        assert(d >= 2);
        assert(q <= a / 2) by (nonlinear_arith)
            requires
                q == a / d,
                d >= 2,
        ;
        q + 1
    } else {
        q
    }
}

/// Number of binary digits of `n`.
pub fn bit_length_u64(n: u64) -> (r: u32)
    ensures
        r == bit_length(n as nat),
        r <= 64,
{
    let mut m = n;
    let mut len: u32 = 0;
    proof {
        lemma_bit_length_bound(n as nat, 64);
        lemma2_to64();
    }
    while m > 0
        invariant
            bit_length(n as nat) == len + bit_length(m as nat),
            bit_length(n as nat) <= 64,
        decreases m,
    {
        m = m / 2;
        len = len + 1;
    }
    len
}

/// The value of the double nearest to `n`.
pub fn nearest_f64_u64(n: u64) -> (r: u128)
    ensures
        r == nearest_f64(n as nat),
        n <= r + 2048,
        r <= n + 2048,
{
    proof {
        lemma2_to64();
        lemma2_to64_rest();
    }
    if n < 9007199254740992 {
        return n as u128;
    }
    let len = bit_length_u64(n);
    proof {
        lemma_bit_length_bound(n as nat, 53);
        lemma_bit_length_bound(n as nat, 64);
    }
    let s = len - 53;
    let d = pow2_u64(s);
    proof {
        assert(s <= 11);
        if s < 11 {
            vstd::arithmetic::power2::lemma_pow2_strictly_increases(s as nat, 11);
        }
    }
    let q = round_half_even_u128(n as u128, d as u128);
    assert(q * d <= n + d && n <= q * d + d) by (nonlinear_arith)
        requires
            n / d <= q <= n / d + 1,
            d > 0,
    ;
    q * (d as u128)
}

/// The double nearest to `n / d`, rounded to an integer with ties to even.
pub fn rounded_ratio_u128(n: u128, d: u64) -> (r: u64)
    requires
        1000 <= d <= 1_000_000_000,
        d <= n <= 0x1_0000_0000_0000_0800,
    ensures
        r == rounded_ratio(n as nat, d as nat),
{
    proof {
        lemma2_to64();
        lemma2_to64_rest();
    }
    let t = n / (d as u128);
    assert(1 <= t < 0x80_0000_0000_0000 && n < (d as int) * (t + 1)) by (nonlinear_arith)
        requires
            t == n / (d as u128),
            1000 <= d <= 1_000_000_000,
            d <= n <= 0x1_0000_0000_0000_0800,
    ;
    let len = bit_length_u64(t as u64);
    proof {
        lemma_bit_length_bound(t as nat, 0);
        lemma_bit_length_bound(t as nat, 55);
        lemma_bit_length_bound(t as nat, len as nat);
    }
    let e = len - 1;
    if e <= 52 {
        let sh = 52 - e;
        let p = pow2_u64(sh);
        proof {
            vstd::arithmetic::power2::lemma_pow2_adds((e + 1) as nat, sh as nat);
            assert((e + 1) + sh == 53);
            assert(n * p < (d as int) * pow2(53)) by (nonlinear_arith)
                requires
                    n < (d as int) * (t + 1),
                    t + 1 <= pow2((e + 1) as nat),
                    pow2((e + 1) as nat) * p == pow2(53),
                    p > 0,
                    d > 0,
            ;
            assert((d as int) * pow2(53) <= 1_000_000_000 * 0x20_0000_0000_0000) by (nonlinear_arith)
                requires
                    d <= 1_000_000_000,
                    pow2(53) == 0x20_0000_0000_0000,
            ;
        }
        let a = n * (p as u128);
        let m = round_half_even_u128(a, d as u128);
        assert(m <= 0x20_0000_0000_0001) by (nonlinear_arith)
            requires
                m <= a / (d as u128) + 1,
                a < (d as int) * 0x20_0000_0000_0000,
                d > 0,
        ;
        let r = round_half_even_u128(m, p as u128);
        assert(r <= m + 1) by (nonlinear_arith)
            requires
                r <= m / (p as u128) + 1,
                p >= 1,
        ;
        r as u64
    } else {
        let sh = e - 52;
        assert(sh <= 2);
        let p = pow2_u64(sh);
        proof {
            vstd::arithmetic::power2::lemma_pow2_strictly_increases(sh as nat, 3);
        }
        proof {
            lemma_pow2_pos(sh as nat);
        }
        assert(1 <= (d as int) * (p as int) <= 8_000_000_000) by (nonlinear_arith)
            requires
                1 <= d <= 1_000_000_000,
                1 <= p < 8,
        ;
        let dp = (d as u128) * (p as u128);
        let m = round_half_even_u128(n, dp);
        assert(m * p <= t + p) by (nonlinear_arith)
            requires
                m <= n / dp + 1,
                dp == d * p,
                t == n / (d as u128),
                d > 0,
                p > 0,
        ;
        (m * (p as u128)) as u64
    }
}

} // verus!
