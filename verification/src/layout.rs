//! Where the holes of the garden lie.
//!
//! The board is laid out like the classic cabinet: a row of `w` holes, then
//! a row of `w - 1` holes, then again `w`, and so on, where `w` is the least
//! width whose square holds every hole (the rounded-up square root).

use vstd::prelude::*;
use vstd::arithmetic::div_mod::lemma_fundamental_div_mod_converse;
use vstd::arithmetic::div_mod::lemma_fundamental_div_mod;

verus! {

/// `w` is the rounded-up square root of `n`: the least width with `w * w >= n`.
pub open spec fn is_row_width(w: int, n: int) -> bool {
    &&& 0 <= w
    &&& n <= w * w
    &&& (w == 0 || (w - 1) * (w - 1) < n)
}

/// The width of the wide rows of a board of `n` holes.
pub open spec fn row_width(n: nat) -> int {
    choose|w: int| is_row_width(w, n as int)
}

/// The logical `(x, y)` position of hole number `k` on a board whose wide rows
/// hold `w` holes: wide rows (even `y`) hold `w` holes, narrow rows (odd `y`)
/// hold `w - 1`, so a pair of rows holds `2 * w - 1`.
pub open spec fn hole_position(k: int, w: int) -> (int, int) {
    let p = 2 * w - 1;
    let q = k / p;
    let r = k % p;
    if r < w {
        (r, 2 * q)
    } else {
        (r - w, 2 * q + 1)
    }
}

/// The rounded-up square root is unique.
pub proof fn lemma_row_width_unique(a: int, b: int, n: int)
    requires
        is_row_width(a, n),
        is_row_width(b, n),
    ensures
        a == b,
{
    if a < b {
        assert(a * a <= (b - 1) * (b - 1)) by (nonlinear_arith)
            requires
                0 <= a <= b - 1,
        ;
    } else if b < a {
        assert(b * b <= (a - 1) * (a - 1)) by (nonlinear_arith)
            requires
                0 <= b <= a - 1,
        ;
    }
}

/// Naming the width: `row_width(n)` is the rounded-up square root of `n`.
pub proof fn lemma_row_width(w: int, n: nat)
    requires
        is_row_width(w, n as int),
    ensures
        row_width(n) == w,
{
    let c = row_width(n);
    assert(is_row_width(c, n as int));
    lemma_row_width_unique(c, w, n as int);
}

/// The rounded-up square root of `n`, by counting up.
pub fn holes_wide(n: u64) -> (w: u64)
    ensures
        is_row_width(w as int, n as int),
        w == row_width(n as nat),
        w <= 0x1_0000_0000,
{
    let mut w: u64 = 0;
    while (w as u128) * (w as u128) < n as u128
        invariant
            w <= 0x1_0000_0000,
            w == 0 || (w - 1) * (w - 1) < n,
            w * w <= 0x1_0000_0000_0000_0000,
        decreases 0x1_0000_0000 - w,
    {
        assert(w < 0x1_0000_0000) by (nonlinear_arith)
            requires
                w * w < n,
                n <= 0xffff_ffff_ffff_ffff,
        {
            if w >= 0x1_0000_0000 {
                assert(w * w >= 0x1_0000_0000 * 0x1_0000_0000);
            }
        }
        assert((w + 1) * (w + 1) <= 0x1_0000_0000_0000_0000) by (nonlinear_arith)
            requires
                w < 0x1_0000_0000,
        ;
        w = w + 1;
    }
    proof {
        lemma_row_width(w as int, n as nat);
    }
    w
}

/// Moving from hole `k` to hole `k + 1`: along the row, or to the start of the
/// next row once a wide row holds `w` holes or a narrow row `w - 1`.
pub proof fn lemma_position_step(k: int, w: int)
    requires
        w >= 2,
        k >= 0,
    ensures
        ({
            let (x, y) = hole_position(k, w);
            let (x2, y2) = hole_position(k + 1, w);
            if y % 2 == 0 && x == w - 1 {
                x2 == 0 && y2 == y + 1
            } else if y % 2 != 0 && x == w - 2 {
                x2 == 0 && y2 == y + 1
            } else {
                x2 == x + 1 && y2 == y
            }
        }),
{
    let p = 2 * w - 1;
    let q = k / p;
    let r = k % p;
    lemma_fundamental_div_mod(k, p);
    assert(k == q * p + r) by (nonlinear_arith)
        requires
            k == p * q + r,
    ;
    if r + 1 < p {
        lemma_fundamental_div_mod_converse(k + 1, p, q, r + 1);
    } else {
        assert(k + 1 == (q + 1) * p + 0) by (nonlinear_arith)
            requires
                k == q * p + r,
                r + 1 == p,
        ;
        lemma_fundamental_div_mod_converse(k + 1, p, q + 1, 0);
    }
}

/// On a board of `n` holes every position lies within the wide row's width and
/// within about twice that many rows.
pub proof fn lemma_position_bounds(k: int, w: int, n: int)
    requires
        is_row_width(w, n),
        0 <= k < n,
    ensures
        0 <= hole_position(k, w).0 < w,
        0 <= hole_position(k, w).1 <= 2 * w + 1,
{
    let p = 2 * w - 1;
    assert(w >= 1) by (nonlinear_arith)
        requires
            0 <= k < n,
            n <= w * w,
            0 <= w,
    ;
    let q = k / p;
    let r = k % p;
    lemma_fundamental_div_mod(k, p);
    assert(0 <= q <= w) by (nonlinear_arith)
        requires
            k == p * q + r,
            0 <= r < p,
            0 <= k < n,
            n <= w * w,
            w >= 1,
            p == 2 * w - 1,
    {
        if q > w {
            assert(p * q >= p * (w + 1));
            assert(p * (w + 1) >= w * w);
        }
        if q < 0 {
            assert(p * q <= -p);
        }
    }
}

/// Every board size has a rounded-up square root.
pub proof fn lemma_row_width_exists(n: nat)
    ensures
        is_row_width(row_width(n), n as int),
    decreases n,
{
    if n == 0 {
        assert(is_row_width(0, 0));
    } else {
        lemma_row_width_exists((n - 1) as nat);
        let v = row_width((n - 1) as nat);
        if n <= v * v {
            assert(is_row_width(v, n as int));
        } else {
            assert(is_row_width(v + 1, n as int)) by (nonlinear_arith)
                requires
                    n - 1 <= v * v,
                    v * v < n,
                    0 <= v,
            ;
        }
    }
}

/// Two holes of one board never share a position.
pub proof fn lemma_hole_positions_distinct(n: nat, k1: int, k2: int)
    requires
        0 <= k1 < n,
        0 <= k2 < n,
        k1 != k2,
    ensures
        hole_position(k1, row_width(n)) != hole_position(k2, row_width(n)),
{
    let w = row_width(n);
    lemma_row_width_exists(n);
    assert(w >= 1) by (nonlinear_arith)
        requires
            0 <= k1 < n,
            n <= w * w,
            0 <= w,
    ;
    let p = 2 * w - 1;
    lemma_fundamental_div_mod(k1, p);
    lemma_fundamental_div_mod(k2, p);
    let q1 = k1 / p;
    let q2 = k2 / p;
    if hole_position(k1, w) == hole_position(k2, w) {
        assert(q1 == q2 && k1 % p == k2 % p);
        assert(k1 == k2);
    }
}

} // verus!
