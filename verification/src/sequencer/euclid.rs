//! Euclidean rhythms as the sequencer draws them: `e` onsets spread over
//! `len` steps by a Bresenham bucket, then rotated. The facts proved here
//! are that the bucket computes this rhythm and that it has exactly `e`
//! onsets, before and after rotation.

use vstd::prelude::*;
use vstd::arithmetic::div_mod::{
    lemma_fundamental_div_mod, lemma_fundamental_div_mod_converse, lemma_mod_multiples_vanish,
    lemma_small_mod, lemma_add_mod_noop_right, lemma_div_multiples_vanish,
};

verus! {

/// Step `i` of the rhythm is an onset: the bucket, which holds `i * e`
/// modulo `len` before the step, overflows when `e` is added.
pub open spec fn euclid_hit(e: nat, len: nat, i: int) -> bool {
    (i * e) % (len as int) + e >= len
}

/// The trigger value at column `x` of the rhythm rotated by `rot`: 1 at the
/// columns of the onsets, 0 elsewhere (and at and beyond `len`).
pub open spec fn euclid_cell(e: nat, len: nat, rot: nat, x: int) -> u8 {
    if 0 <= x < len && euclid_hit(e, len, (x - rot) % (len as int)) {
        1
    } else {
        0
    }
}

/// The number of `x` in `a..b` for which `f` holds.
pub open spec fn count_in(f: spec_fn(int) -> bool, a: int, b: int) -> nat
    decreases b - a,
{
    if b <= a {
        0
    } else {
        count_in(f, a, b - 1) + if f(b - 1) {
            1nat
        } else {
            0nat
        }
    }
}

/// The onsets of the unrotated rhythm.
pub open spec fn hit_fn(e: nat, len: nat) -> spec_fn(int) -> bool {
    |i: int| euclid_hit(e, len, i)
}

/// The onset columns of the rotated rhythm.
pub open spec fn cell_fn(e: nat, len: nat, rot: nat) -> spec_fn(int) -> bool {
    |x: int| euclid_cell(e, len, rot, x) == 1
}

/// One step of the bucket: adding `e` and taking `len` off on overflow
/// keeps it at `i * e` modulo `len`.
pub proof fn lemma_bucket_step(i: int, e: nat, len: nat)
    requires
        0 <= i,
        0 < len,
        e <= len,
    ensures
        ({
            let b = (i * e) % (len as int);
            (if b + e >= len { b + e - len } else { b + e }) == ((i + 1) * e) % (len as int)
        }),
{
    let m = len as int;
    let b = (i * e) % m;
    assert((i + 1) * e == e + i * e) by (nonlinear_arith);
    lemma_add_mod_noop_right(e as int, i * e, m);
    lemma_fundamental_div_mod(i * e, m);
    assert(0 <= b < m);
    if b + e >= len {
        lemma_fundamental_div_mod_converse(b + e, m, 1, b + e - len);
    } else {
        lemma_fundamental_div_mod_converse(b + e, m, 0, b + e);
    }
}

/// Undoing a rotation: the column `(i + rot) % len` maps back to step `i`.
pub proof fn lemma_rotate_back(i: int, rot: int, len: int)
    requires
        0 <= i < len,
        0 <= rot,
    ensures
        (((i + rot) % len) - rot) % len == i,
        0 <= (i + rot) % len < len,
{
    lemma_fundamental_div_mod(i + rot, len);
    let q = (i + rot) / len;
    assert(((i + rot) % len) - rot == len * (-q) + i) by (nonlinear_arith)
        requires
            i + rot == len * q + (i + rot) % len,
    ;
    lemma_mod_multiples_vanish(-q, i, len);
    lemma_small_mod(i as nat, len as nat);
}

/// The only column in `0..len` that maps back to step `i` is `(i + rot) % len`.
pub proof fn lemma_rotation_unique(x: int, rot: int, len: int, i: int)
    requires
        0 <= x < len,
        0 <= rot,
        (x - rot) % len == i,
    ensures
        x == (i + rot) % len,
{
    lemma_fundamental_div_mod(x - rot, len);
    let q = (x - rot) / len;
    assert(i + rot == len * (-q) + x) by (nonlinear_arith)
        requires
            x - rot == len * q + i,
    ;
    lemma_mod_multiples_vanish(-q, x, len);
    lemma_small_mod(x as nat, len as nat);
}

/// Adding `e` to `a` raises `a / len` by one exactly when the remainder
/// overflows.
proof fn lemma_div_step(a: int, e: nat, len: nat)
    requires
        0 <= a,
        0 < len,
        e <= len,
    ensures
        (a + e) / (len as int) == a / (len as int) + if a % (len as int) + e >= len {
            1int
        } else {
            0int
        },
{
    let m = len as int;
    lemma_fundamental_div_mod(a, m);
    let q = a / m;
    let r = a % m;
    if r + e >= len {
        assert(a + e == (q + 1) * m + (r + e - m)) by (nonlinear_arith)
            requires
                a == m * q + r,
        ;
        lemma_fundamental_div_mod_converse(a + e, m, q + 1, r + e - m);
    } else {
        assert(a + e == q * m + (r + e)) by (nonlinear_arith)
            requires
                a == m * q + r,
        ;
        lemma_fundamental_div_mod_converse(a + e, m, q, r + e);
    }
}

/// The first `n` steps hold `n * e / len` onsets.
pub proof fn lemma_hits_prefix(e: nat, len: nat, n: int)
    requires
        0 < len,
        e <= len,
        0 <= n,
    ensures
        count_in(hit_fn(e, len), 0, n) == (n * e) / (len as int),
    decreases n,
{
    if n == 0 {
        assert(0 * e == 0) by (nonlinear_arith);
    } else {
        lemma_hits_prefix(e, len, n - 1);
        assert(n * e == (n - 1) * e + e) by (nonlinear_arith);
        assert((n - 1) * e >= 0) by (nonlinear_arith)
            requires
                n >= 1,
        ;
        lemma_div_step((n - 1) * e, e, len);
    }
}

/// The rhythm has exactly `e` onsets over its `len` steps.
pub proof fn lemma_hits_total(e: nat, len: nat)
    requires
        0 < len,
        e <= len,
    ensures
        count_in(hit_fn(e, len), 0, len as int) == e,
{
    lemma_hits_prefix(e, len, len as int);
    assert(len * e == e * len) by (nonlinear_arith);
    lemma_div_multiples_vanish(e as int, len as int);
}

/// Counting over `a..c` is counting over `a..b` and `b..c`.
pub proof fn lemma_count_split(f: spec_fn(int) -> bool, a: int, b: int, c: int)
    requires
        a <= b <= c,
    ensures
        count_in(f, a, c) == count_in(f, a, b) + count_in(f, b, c),
    decreases c - b,
{
    if c > b {
        lemma_count_split(f, a, b, c - 1);
    }
}

/// Predicates that agree on `a..b` count alike there.
pub proof fn lemma_count_ext(f: spec_fn(int) -> bool, g: spec_fn(int) -> bool, a: int, b: int)
    requires
        forall|x: int| a <= x < b ==> #[trigger] f(x) == g(x),
    ensures
        count_in(f, a, b) == count_in(g, a, b),
    decreases b - a,
{
    if b > a {
        lemma_count_ext(f, g, a, b - 1);
    }
}

/// Counting `f` shifted by `d` over `a..b` is counting `f` over `a + d..b + d`.
pub proof fn lemma_count_shift(f: spec_fn(int) -> bool, d: int, a: int, b: int)
    ensures
        count_in(|x: int| f(x + d), a, b) == count_in(f, a + d, b + d),
    decreases b - a,
{
    if b > a {
        lemma_count_shift(f, d, a, b - 1);
    }
}

/// Rotation keeps the number of onsets: the rotated row has `e` onset
/// columns in `0..len`.
pub proof fn lemma_rotated_total(e: nat, len: nat, rot: nat)
    requires
        0 < len,
        e <= len,
    ensures
        count_in(cell_fn(e, len, rot), 0, len as int) == e,
{
    let m = len as int;
    let r = (rot as int) % m;
    let h = hit_fn(e, len);
    let c = cell_fn(e, len, rot);
    lemma_fundamental_div_mod(rot as int, m);
    let q = (rot as int) / m;
    assert(0 <= r < m);
    // Columns r..len hold steps 0..len - r.
    assert forall|x: int| r <= x < m implies #[trigger] c(x) == h(x - r) by {
        assert(x - rot == m * (-q) + (x - r)) by (nonlinear_arith)
            requires
                rot == m * q + r,
        ;
        lemma_mod_multiples_vanish(-q, x - r, m);
        lemma_small_mod((x - r) as nat, len);
    }
    // Columns 0..r hold steps len - r..len.
    assert forall|x: int| 0 <= x < r implies #[trigger] c(x) == h(x - r + m) by {
        assert(x - rot == m * (-q - 1) + (x - r + m)) by (nonlinear_arith)
            requires
                rot == m * q + r,
        ;
        lemma_mod_multiples_vanish(-q - 1, x - r + m, m);
        lemma_small_mod((x - r + m) as nat, len);
    }
    lemma_count_split(c, 0, r, m);
    lemma_count_ext(c, |x: int| h(x + (m - r)), 0, r);
    lemma_count_shift(h, m - r, 0, r);
    lemma_count_ext(c, |x: int| h(x + (-r)), r, m);
    lemma_count_shift(h, -r, r, m);
    lemma_count_split(h, 0, m - r, m);
    lemma_hits_total(e, len);
}

} // verus!
