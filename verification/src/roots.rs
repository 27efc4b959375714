use vstd::prelude::*;
use vstd::arithmetic::power2::{pow2, lemma_pow2_unfold, lemma_pow2_pos, lemma2_to64, lemma_pow2_strictly_increases};
use vstd::arithmetic::div_mod::{lemma_div_denominator, lemma_fundamental_div_mod, lemma_mod_bound};

verus! {

// ---------------------------------------------------------------------------
// Single-precision rounding of whole numbers

/// How many low bits of a whole number a single-precision number (24 significant bits)
/// cannot hold: the halvings that bring it below 2^24.
pub open spec fn dropped_bits(n: nat) -> nat
    decreases n,
{
    if n < 0x100_0000 {
        0
    } else {
        1 + dropped_bits(n / 2)
    }
}

/// The whole number rounded to single precision, to the nearest value with its dropped
/// bits clear, ties going to the even one.
pub open spec fn f32_round(n: nat) -> nat {
    let u = pow2(dropped_bits(n));
    let a = n / u;
    let rem = n % u;
    if 2 * rem > u || (2 * rem == u && a % 2 == 1) { (a + 1) * u } else { a * u }
}

/// The largest q up to c with q * q <= m.
pub open spec fn root_below(m: nat, c: nat) -> nat
    decreases c,
{
    if c == 0 || c * c <= m {
        c
    } else {
        root_below(m, (c - 1) as nat)
    }
}

/// The integer square root: the largest q with q * q <= m.
pub open spec fn isqrt(m: nat) -> nat {
    root_below(m, m)
}

proof fn lemma_root_below(m: nat, c: nat, q: nat)
    requires
        q * q <= m < (q + 1) * (q + 1),
        q <= c,
    ensures
        root_below(m, c) == q,
    decreases c,
{
    if c > q {
        assert(c * c > m) by (nonlinear_arith)
            requires
                c >= q + 1,
                m < (q + 1) * (q + 1),
        ;
        lemma_root_below(m, (c - 1) as nat, q);
    }
}

/// The integer square root of m is the q with q * q <= m < (q + 1) * (q + 1).
pub proof fn lemma_isqrt(m: nat, q: nat)
    requires
        q * q <= m < (q + 1) * (q + 1),
    ensures
        isqrt(m) == q,
{
    assert(q <= m) by (nonlinear_arith)
        requires
            q * q <= m,
    ;
    lemma_root_below(m, m, q);
}

/// The position of the highest set bit of a positive number.
pub open spec fn log2_of(q: nat) -> nat
    decreases q,
{
    if q <= 1 {
        0
    } else {
        1 + log2_of(q / 2)
    }
}

/// The square root of a whole number rounded to single precision and then down to a
/// whole number. With q the integer square root: from 2^24 on, the root rounds to the
/// nearest multiple of the spacing 2^(dropped bits of q), ties to the even multiple
/// (compared through squares); below, it rounds up to q + 1 exactly where it lies within
/// half a spacing 2^(log2 q - 23) of q + 1, and otherwise down to q.
pub open spec fn f32_root_floor(m: nat) -> nat {
    let q = isqrt(m);
    if q == 0 {
        0
    } else if q >= 0x100_0000 {
        let u = pow2(dropped_bits(q));
        let a = q / u;
        let lhs = 4 * m;
        let rhs = (2 * a + 1) * (2 * a + 1) * u * u;
        if lhs > rhs || (lhs == rhs && a % 2 == 1) { (a + 1) * u } else { a * u }
    } else {
        let w = pow2((24 - log2_of(q)) as nat);
        if w * w * m >= (w * (q + 1) - 1) * (w * (q + 1) - 1) { q + 1 } else { q }
    }
}

/// What `((n as f32).sqrt().floor()) as i32` gives for a whole number n: the rounded
/// root, saturated at `i32::MAX`.
pub open spec fn f32_distance(n: nat) -> int {
    let r = f32_root_floor(f32_round(n));
    if r > i32::MAX { i32::MAX as int } else { r as int }
}

proof fn lemma_dropped_small(n: nat)
    ensures
        n / pow2(dropped_bits(n)) < 0x100_0000,
        pow2(dropped_bits(n)) >= 1,
        dropped_bits(n) > 0 ==> n / pow2(dropped_bits(n)) >= 0x80_0000,
    decreases n,
{
    lemma_pow2_pos(dropped_bits(n));
    if n >= 0x100_0000 {
        lemma_dropped_small(n / 2);
        let e = dropped_bits(n / 2);
        lemma_pow2_unfold(e + 1);
        lemma_pow2_pos(e);
        lemma_div_denominator(n as int, 2, pow2(e) as int);
        assert(pow2(e + 1) == 2 * pow2(e));
        assert(n / pow2(e + 1) == (n / 2) / pow2(e));
        if e == 0 {
            assert(pow2(0) == 1) by {
                lemma2_to64();
            }
            assert((n / 2) / pow2(e) == n / 2);
        }
    }
}

/// Splits a whole number into its single-precision part and the bits it drops: returns
/// n / 2^d, 2^d and n % 2^d, with d the dropped bits.
fn split_dropped(n: u64) -> (r: (u64, u64, u64))
    ensures
        r.1 == pow2(dropped_bits(n as nat)),
        r.0 == n / r.1,
        r.2 == n % r.1,
        r.0 < 0x100_0000,
        r.1 >= 1,
{
    let mut x: u64 = n;
    let mut u: u64 = 1;
    let ghost mut e: nat = 0;
    proof {
        lemma2_to64();
    }
    while x >= 0x100_0000
        invariant
            u == pow2(e),
            u >= 1,
            x == n / u,
            dropped_bits(n as nat) == e + dropped_bits(x as nat),
        decreases x,
    {
        proof {
            lemma_fundamental_div_mod(n as int, u as int);
            lemma_mod_bound(n as int, u as int);
            assert(u as int <= 0x100_0000_0000) by (nonlinear_arith)
                requires
                    n as int == u as int * x + n as int % u as int,
                    0 <= n as int % u as int,
                    x >= 0x100_0000,
                    u >= 1,
                    n <= 0xFFFF_FFFF_FFFF_FFFF,
            ;
            lemma_div_denominator(n as int, u as int, 2);
            lemma_pow2_unfold(e + 1);
        }
        x = x / 2;
        u = u * 2;
        proof {
            e = e + 1;
        }
    }
    (x, u, n % u)
}

proof fn lemma_log2_bounds(q: nat)
    requires
        q >= 1,
    ensures
        pow2(log2_of(q)) <= q < pow2(log2_of(q) + 1),
    decreases q,
{
    if q <= 1 {
        lemma2_to64();
    } else {
        lemma_log2_bounds(q / 2);
        let k = log2_of(q / 2);
        lemma_pow2_unfold(k + 1);
        lemma_pow2_unfold(k + 2);
    }
}

/// The position of the highest set bit of a positive number; see [`log2_of`].
fn log2_floor(q: u64) -> (k: u64)
    requires
        q >= 1,
    ensures
        k == log2_of(q as nat),
        k < 64,
{
    proof {
        lemma_log2_bounds(q as nat);
        lemma2_to64();
        if log2_of(q as nat) >= 64 {
            if log2_of(q as nat) > 64 {
                lemma_pow2_strictly_increases(64, log2_of(q as nat));
            }
        }
    }
    let mut x: u64 = q;
    let mut k: u64 = 0;
    while x > 1
        invariant
            x >= 1,
            log2_of(q as nat) == k + log2_of(x as nat),
            log2_of(q as nat) < 64,
        decreases x,
    {
        x = x / 2;
        k = k + 1;
    }
    k
}

/// The integer square root of a 64-bit number, by bisection.
fn floor_sqrt(m: u64) -> (q: u64)
    ensures
        q as nat * q as nat <= m as nat,
        (m as nat) < (q as nat + 1) * (q as nat + 1),
        q < 0x1_0000_0000,
{
    let mut lo: u64 = 0;
    let mut hi: u64 = 0x1_0000_0000;
    while hi - lo > 1
        invariant
            lo < hi <= 0x1_0000_0000,
            lo as nat * lo as nat <= m as nat,
            (m as nat) < hi as nat * hi as nat,
        decreases hi - lo,
    {
        let mid: u64 = lo + (hi - lo) / 2;
        assert(mid as nat * mid as nat <= 0x1_0000_0000 * 0x1_0000_0000) by (nonlinear_arith)
            requires
                mid <= 0x1_0000_0000,
        ;
        let sq: u128 = mid as u128 * mid as u128;
        if sq <= m as u128 {
            lo = mid;
        } else {
            hi = mid;
        }
    }
    lo
}

/// The power of two, for exponents below 64.
fn pow2_of(k: u64) -> (p: u128)
    requires
        k < 64,
    ensures
        p == pow2(k as nat),
{
    let mut p: u128 = 1;
    let mut i: u64 = 0;
    proof {
        lemma2_to64();
    }
    while i < k
        invariant
            i <= k < 64,
            p == pow2(i as nat),
            pow2(64) == 0x1_0000_0000_0000_0000,
        decreases k - i,
    {
        proof {
            lemma_pow2_unfold((i + 1) as nat);
            if i + 1 < 64 {
                lemma_pow2_strictly_increases((i + 1) as nat, 64);
            }
        }
        p = p * 2;
        i = i + 1;
    }
    p
}

/// Computes `((n as f32).sqrt().floor()) as i32` for a whole number below 2^63 with
/// whole numbers only; see [`f32_distance`].
pub fn f32_distance_of(n: u64) -> (d: i32)
    requires
        n < 0x8000_0000_0000_0000,
    ensures
        d == f32_distance(n as nat),
{
    let (a, u, rem) = split_dropped(n);
    proof {
        lemma_fundamental_div_mod(n as int, u as int);
        lemma_mod_bound(n as int, u as int);
        assert(a as int * u as int <= n) by (nonlinear_arith)
            requires
                n as int == u as int * a as int + n as int % u as int,
                0 <= n as int % u as int,
        ;
        assert((a as int + 1) * u as int <= n as int + u as int) by (nonlinear_arith)
            requires
                a as int * u as int <= n,
        ;
        lemma_dropped_small(n as nat);
        if dropped_bits(n as nat) > 0 {
            assert(u as int <= 0x100_0000_0000) by (nonlinear_arith)
                requires
                    a as int * u as int <= n,
                    a >= 0x80_0000,
                    n < 0x8000_0000_0000_0000,
            ;
        } else {
            lemma2_to64();
        }
    }
    let up = 2 * rem as u128 > u as u128 || (2 * rem as u128 == u as u128 && a % 2 == 1);
    let m: u64 = if up { (a + 1) * u } else { a * u };
    assert(m as nat == f32_round(n as nat));
    let q = floor_sqrt(m);
    proof {
        lemma_isqrt(m as nat, q as nat);
    }
    let fr: u64;
    if q == 0 {
        fr = 0;
    } else if q >= 0x100_0000 {
        let (a2, u2, rem2) = split_dropped(q);
        proof {
            lemma_fundamental_div_mod(q as int, u2 as int);
            lemma_mod_bound(q as int, u2 as int);
            lemma_dropped_small(q as nat);
            assert(dropped_bits(q as nat) > 0);
            assert(u2 as int <= 0x200) by (nonlinear_arith)
                requires
                    q as int == u2 as int * a2 as int + q as int % u2 as int,
                    0 <= q as int % u2 as int,
                    a2 >= 0x80_0000,
                    q < 0x1_0000_0000,
                    u2 >= 1,
            ;
            assert((2 * a2 as int + 1) * (2 * a2 as int + 1) * u2 as int * u2 as int <= 0x2_0000_0000 * 0x2_0000_0000 * 0x200 * 0x200)
                by (nonlinear_arith)
                requires
                    a2 < 0x100_0000,
                    u2 <= 0x200,
            ;
            assert((a2 as int + 1) * u2 as int <= 0x100_0000 * 0x200) by (nonlinear_arith)
                requires
                    a2 < 0x100_0000,
                    u2 <= 0x200,
            ;
        }
        assert(a2 as int * u2 as int <= q) by (nonlinear_arith)
            requires
                q as int == u2 as int * a2 as int + q as int % u2 as int,
                0 <= q as int % u2 as int,
        ;
        let lhs: u128 = 4 * m as u128;
        let b: u128 = 2 * a2 as u128 + 1;
        assert(b * b <= 0x4_0000_0000_0000) by (nonlinear_arith)
            requires
                b <= 0x200_0000,
        ;
        assert(b * b * u2 <= 0x4_0000_0000_0000 * 0x200) by (nonlinear_arith)
            requires
                b * b <= 0x4_0000_0000_0000,
                u2 <= 0x200,
        ;
        assert(b * b * u2 * u2 <= 0x4_0000_0000_0000 * 0x200 * 0x200) by (nonlinear_arith)
            requires
                b * b * u2 <= 0x4_0000_0000_0000 * 0x200,
                u2 <= 0x200,
        ;
        let rhs: u128 = b * b * u2 as u128 * u2 as u128;
        if lhs > rhs || (lhs == rhs && a2 % 2 == 1) {
            fr = (a2 + 1) * u2;
        } else {
            fr = a2 * u2;
        }
    } else {
        let k = log2_floor(q);
        proof {
            lemma_log2_bounds(q as nat);
            if k > 23 {
                lemma2_to64();
                lemma_pow2_strictly_increases(24, k as nat);
            }
        }
        let w = pow2_of(24 - k);
        proof {
            lemma2_to64();
            if 24 - k < 24 {
                lemma_pow2_strictly_increases((24 - k) as nat, 24);
            }
            assert(m as int <= 0x1_0000_0000_0000) by (nonlinear_arith)
                requires
                    (m as nat) < (q as nat + 1) * (q as nat + 1),
                    q < 0x100_0000,
            ;
            assert(w as int * w as int * m as int <= 0x100_0000 * 0x100_0000 * 0x1_0000_0000_0000) by (nonlinear_arith)
                requires
                    w <= 0x100_0000,
                    m as int <= 0x1_0000_0000_0000,
            ;
            assert(w as int * (q as int + 1) <= 0x100_0000 * 0x100_0000) by (nonlinear_arith)
                requires
                    w <= 0x100_0000,
                    q < 0x100_0000,
            ;
            assert(w as int * (q as int + 1) >= 1) by (nonlinear_arith)
                requires
                    w >= 1,
            ;
            assert((w as int * (q as int + 1) - 1) * (w as int * (q as int + 1) - 1) <= 0x1_0000_0000_0000 * 0x1_0000_0000_0000)
                by (nonlinear_arith)
                requires
                    1 <= w as int * (q as int + 1) <= 0x1_0000_0000_0000,
            ;
        }
        assert(w * w <= 0x1_0000_0000_0000) by (nonlinear_arith)
            requires
                w <= 0x100_0000,
        ;
        let lhs: u128 = w * w * m as u128;
        let t: u128 = w * (q as u128 + 1) - 1;
        if lhs >= t * t {
            fr = q + 1;
        } else {
            fr = q;
        }
    }
    assert(fr as nat == f32_root_floor(m as nat));
    if fr > 0x7fff_ffff {
        i32::MAX
    } else {
        fr as i32
    }
}

proof fn lemma_root_below_is_root(m: nat, c: nat)
    requires
        m < (c + 1) * (c + 1),
    ensures
        root_below(m, c) * root_below(m, c) <= m,
        m < (root_below(m, c) + 1) * (root_below(m, c) + 1),
    decreases c,
{
    if c > 0 && c * c > m {
        lemma_root_below_is_root(m, (c - 1) as nat);
    }
}

/// The integer square root of m is its square root rounded down.
pub proof fn lemma_isqrt_is_root(m: nat)
    ensures
        isqrt(m) * isqrt(m) <= m < (isqrt(m) + 1) * (isqrt(m) + 1),
{
    assert(m < (m + 1) * (m + 1)) by (nonlinear_arith);
    lemma_root_below_is_root(m, m);
}

/// Below 2^24 the single-precision root rounded down is the integer square root.
pub proof fn lemma_small_distance(n: nat)
    requires
        n < 0x100_0000,
    ensures
        f32_distance(n) == isqrt(n),
{
    lemma2_to64();
    assert(dropped_bits(n) == 0);
    assert(f32_round(n) == n);
    lemma_isqrt_is_root(n);
    let q = isqrt(n);
    assert(q < 0x1000) by (nonlinear_arith)
        requires
            q * q <= n,
            n < 0x100_0000,
    ;
    if q > 0 {
        lemma_log2_bounds(q);
        let k = log2_of(q);
        if k >= 12 {
            if k > 12 {
                lemma_pow2_strictly_increases(12, k);
            }
        }
        assert(k <= 11);
        let w = pow2((24 - k) as nat);
        if k + 2 < 24 - k {
            lemma_pow2_strictly_increases(k + 2, (24 - k) as nat);
        }
        lemma_pow2_unfold(k + 2);
        assert(2 * (q + 1) <= pow2(k + 2));
        assert(w >= 2 * (q + 1));
        assert(w * w * n < (w * (q + 1) - 1) * (w * (q + 1) - 1)) by (nonlinear_arith)
            requires
                w >= 2 * (q + 1),
                n < (q + 1) * (q + 1),
                q >= 1,
        ;
    }
}

} // verus!
