use vstd::prelude::*;

verus! {

/// From `a <= b / c` conclude `a * c <= b` (for non-negative `a`).
pub proof fn lemma_mul_le_from_div(a: int, b: int, c: int)
    requires
        c > 0,
        0 <= a,
        a <= b / c,
    ensures
        a * c <= b,
{
    assert(a * c <= (b / c) * c) by (nonlinear_arith)
        requires
            c > 0,
            0 <= a <= b / c,
    ;
    assert((b / c) * c <= b) by (nonlinear_arith)
        requires
            c > 0,
    ;
}

/// From `a > b / c` conclude `a * c > b` (for non-negative `b`): the
/// converse direction of `lemma_mul_le_from_div`.
pub proof fn lemma_mul_gt_from_div(a: int, b: int, c: int)
    requires
        c > 0,
        b >= 0,
        a > b / c,
    ensures
        a * c > b,
{
    vstd::arithmetic::div_mod::lemma_fundamental_div_mod(b, c);
    assert(a * c >= (b / c + 1) * c) by (nonlinear_arith)
        requires
            c > 0,
            a >= b / c + 1,
    ;
    assert((b / c + 1) * c == (b / c) * c + c) by (nonlinear_arith);
    assert(0 <= b % c < c) by (nonlinear_arith)
        requires
            c > 0,
            b >= 0,
    ;
}

/// Rounding `a` down to a multiple of `psz` stays at or above any aligned
/// lower bound `lo`, and the result is itself aligned.
pub proof fn lemma_align_floor(psz: int, lo: int, a: int)
    requires
        psz > 0,
        lo % psz == 0,
        0 <= lo <= a,
    ensures
        0 <= a % psz < psz,
        lo <= a - a % psz,
        (a - a % psz) % psz == 0,
{
    assert(0 <= a % psz < psz) by (nonlinear_arith)
        requires
            psz > 0,
            0 <= a,
    ;
    assert(lo <= a - a % psz) by (nonlinear_arith)
        requires
            psz > 0,
            lo % psz == 0,
            0 <= lo <= a,
    ;
    assert((a - a % psz) % psz == 0) by (nonlinear_arith)
        requires
            psz > 0,
            0 <= a,
    ;
}

/// The page containing `a` ends at or before any aligned upper bound `hi`
/// lying strictly above `a`.
pub proof fn lemma_align_ceil(psz: int, hi: int, a: int)
    requires
        psz > 0,
        hi % psz == 0,
        0 <= a < hi,
    ensures
        a - a % psz + psz <= hi,
{
    assert(a - a % psz + psz <= hi) by (nonlinear_arith)
        requires
            psz > 0,
            hi % psz == 0,
            0 <= a < hi,
    ;
}

/// A 512-aligned address sits a whole number of blocks into its page, so
/// one more block still fits in the page.
pub proof fn lemma_block_in_page(psz: int, a: int)
    requires
        psz > 0,
        psz % 512 == 0,
        a % 512 == 0,
        0 <= a,
    ensures
        a % psz + 512 <= psz,
        (a % psz) % 512 == 0,
{
    assert((a % psz) % 512 == 0 && a % psz + 512 <= psz) by (nonlinear_arith)
        requires
            psz > 0,
            psz % 512 == 0,
            a % 512 == 0,
            0 <= a,
    ;
}

/// If `r` indexes a 512-byte block inside a 512-divisible region of `t`
/// bytes, the whole block lies inside the region.
pub proof fn lemma_block_in_region(t: int, r: int)
    requires
        t >= 0,
        t % 512 == 0,
        0 <= r < t / 512,
    ensures
        r * 512 + 512 <= t,
        0 <= r * 512,
{
    assert(r * 512 + 512 <= t && 0 <= r * 512) by (nonlinear_arith)
        requires
            t >= 0,
            t % 512 == 0,
            0 <= r < t / 512,
    ;
}

/// A multiple of a multiple of 512 is a multiple of 512.
pub proof fn lemma_mod_divides_trans(t: int, p: int)
    requires
        p > 0,
        p % 512 == 0,
        t % p == 0,
        t >= 0,
    ensures
        t % 512 == 0,
{
    vstd::arithmetic::div_mod::lemma_fundamental_div_mod(t, p);
    vstd::arithmetic::div_mod::lemma_fundamental_div_mod(p, 512);
    assert(t == ((p / 512) * (t / p)) * 512) by (nonlinear_arith)
        requires
            t == p * (t / p),
            p == 512 * (p / 512),
    ;
    vstd::arithmetic::div_mod::lemma_mod_multiples_basic((p / 512) * (t / p), 512);
}

/// Adding an aligned base does not change the remainder.
pub proof fn lemma_mod_add_multiple(base: int, x: int, m: int)
    requires
        m > 0,
        base % m == 0,
        base >= 0,
        x >= 0,
    ensures
        (base + x) % m == x % m,
{
    vstd::arithmetic::div_mod::lemma_fundamental_div_mod(base, m);
    vstd::arithmetic::div_mod::lemma_mod_multiples_vanish(base / m, x, m);
}

/// Multiples of `m` are closed under subtraction.
pub proof fn lemma_sub_mod(a: int, b: int, m: int)
    requires
        m > 0,
        a % m == 0,
        b % m == 0,
    ensures
        (a - b) % m == 0,
{
    vstd::arithmetic::div_mod::lemma_fundamental_div_mod(a, m);
    vstd::arithmetic::div_mod::lemma_fundamental_div_mod(b, m);
    assert(m * (a / m) - m * (b / m) == (a / m - b / m) * m) by (nonlinear_arith);
    vstd::arithmetic::div_mod::lemma_mod_multiples_basic(a / m - b / m, m);
}

/// Inside the page starting at aligned `p`, the offset of `a` is `a % m`.
pub proof fn lemma_mod_in_page(m: int, p: int, a: int)
    requires
        m > 0,
        0 <= p,
        p % m == 0,
        p <= a < p + m,
    ensures
        a % m == a - p,
{
    assert(a % m == a - p) by (nonlinear_arith)
        requires
            m > 0,
            0 <= p,
            p % m == 0,
            p <= a < p + m,
    ;
}

/// Two distinct aligned page starts are at least a page apart.
pub proof fn lemma_aligned_apart(m: int, p: int, q: int)
    requires
        m > 0,
        0 <= p,
        0 <= q,
        p % m == 0,
        q % m == 0,
        p != q,
    ensures
        p + m <= q || q + m <= p,
{
    if p < q {
        assert(p + m <= q) by (nonlinear_arith)
            requires
                m > 0,
                0 <= p < q,
                p % m == 0,
                q % m == 0,
        ;
    } else {
        assert(q + m <= p) by (nonlinear_arith)
            requires
                m > 0,
                0 <= q < p,
                p % m == 0,
                q % m == 0,
        ;
    }
}

/// Distinct block indices map to disjoint 512-byte ranges.
pub proof fn lemma_blocks_disjoint(i: int, j: int)
    requires
        i != j,
    ensures
        i * 512 + 512 <= j * 512 || j * 512 + 512 <= i * 512,
{
    if i < j {
        assert(i * 512 + 512 <= j * 512) by (nonlinear_arith)
            requires
                i < j,
        ;
    } else {
        assert(j * 512 + 512 <= i * 512) by (nonlinear_arith)
            requires
                j < i,
        ;
    }
}

} // verus!
