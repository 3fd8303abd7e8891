//! The Rastrigin benchmark function over fixed-point coordinates.
//!
//! Every real-valued quantity of the optimizer is carried as an `i64` count
//! of millionths, so a coordinate of `1_500_000` units stands for the real
//! number 1.5. The cosine that the Rastrigin formula needs is evaluated by
//! quarter-wave folding and a degree-eight Taylor polynomial, entirely in
//! integer arithmetic; `cos_unit` below is the exact mathematical statement
//! of that evaluation, and the executable code is proved to match it.

use vstd::prelude::*;

verus! {

/// One fixed-point unit is one millionth of the real quantity it stands for.
pub const SCALE: i64 = 1_000_000;

/// Largest magnitude a coordinate may have: the real interval [-2000, 2000].
/// Squaring a coordinate must stay inside `i64`, which forces some cap; this
/// one leaves ample room for the search spaces the optimizer is meant for.
pub const POS_LIMIT: i64 = 2_000_000_000;

/// Largest dimensionality a position vector may have, so that the sum of
/// per-dimension terms stays inside `i64`.
pub const DIM_MAX: usize = 100_000;

/// Bound on the magnitude of one Rastrigin term for an in-limit coordinate.
pub const TERM_BOUND: i64 = 5_000_000_000_000;

/// Bound on the magnitude of a whole Rastrigin value for an in-limit vector
/// of admissible dimensionality.
pub const FITNESS_BOUND: i64 = 600_000_000_000_000_000;

/// The cosine Taylor polynomial on a quarter wave, in fixed point: for `v`
/// in `[0, 250_000]` (a fraction of a full turn), this is cos(2*pi*v/SCALE)
/// scaled by `SCALE`, up to the degree-eight truncation and the flooring of
/// each intermediate division. The literal `6_283_185` is 2*pi in fixed
/// point, rounded down.
pub open spec fn quarter_cos(v: int) -> int {
    let t = (v * 6_283_185) / 1_000_000;
    let t2 = (t * t) / 1_000_000;
    let t4 = (t2 * t2) / 1_000_000;
    let t6 = (t4 * t2) / 1_000_000;
    let t8 = (t6 * t2) / 1_000_000;
    1_000_000 - t2 / 2 + t4 / 24 - t6 / 720 + t8 / 40320
}

/// Fixed-point cosine of a full turn fraction: `cos_unit(x)` is
/// cos(2*pi*x/SCALE) scaled by `SCALE`, for any integer `x`. The argument is
/// first reduced modulo one turn, then folded onto a quarter wave by the
/// symmetries of the cosine.
pub open spec fn cos_unit(x: int) -> int {
    let u = x % 1_000_000;
    let v = if 1_000_000 - u < u { 1_000_000 - u } else { u };
    if 4 * v <= 1_000_000 {
        quarter_cos(v)
    } else {
        -quarter_cos(500_000 - v)
    }
}

/// One dimension's contribution to the Rastrigin value of a vector:
/// x^2 - 10*cos(2*pi*x), in fixed point.
pub open spec fn rastrigin_term(x: int) -> int {
    (x * x) / 1_000_000 - 10 * cos_unit(x)
}

/// Sum of the per-dimension Rastrigin terms of a vector.
pub open spec fn rastrigin_sum(s: Seq<int>) -> int
    decreases s.len(),
{
    if s.len() == 0 {
        0
    } else {
        rastrigin_sum(s.drop_last()) + rastrigin_term(s.last())
    }
}

/// The Rastrigin value of a position vector, in fixed point:
/// 10*D + sum over dimensions of (x^2 - 10*cos(2*pi*x)).
pub open spec fn rastrigin_value(s: Seq<int>) -> int {
    10_000_000 * s.len() + rastrigin_sum(s)
}

/// The mathematical coordinates of an executable position vector.
pub open spec fn coords(v: Seq<i64>) -> Seq<int> {
    v.map_values(|x: i64| x as int)
}

/// Whether every coordinate of a vector lies within the representable limit.
pub open spec fn coords_in_limit(s: Seq<int>) -> bool {
    forall|i: int| 0 <= i < s.len() ==> -POS_LIMIT <= #[trigger] s[i] <= POS_LIMIT
}

/// The quarter-wave polynomial stays within [-SCALE, 2*SCALE] on its domain.
pub proof fn lemma_quarter_cos_bounds(v: int)
    requires
        0 <= v <= 250_000,
    ensures
        -1_000_000 <= quarter_cos(v) <= 2_000_000,
{
    let t = (v * 6_283_185) / 1_000_000;
    assert(0 <= t <= 1_570_796);
    let t2 = (t * t) / 1_000_000;
    assert(0 <= t * t <= 1_570_796 * 1_570_796) by (nonlinear_arith)
        requires 0 <= t <= 1_570_796;
    assert(0 <= t2 <= 2_467_401);
    let t4 = (t2 * t2) / 1_000_000;
    assert(0 <= t2 * t2 <= 2_467_401 * 2_467_401) by (nonlinear_arith)
        requires 0 <= t2 <= 2_467_401;
    assert(0 <= t4 <= 6_088_068);
    let t6 = (t4 * t2) / 1_000_000;
    assert(0 <= t4 * t2 <= 6_088_068 * 2_467_401) by (nonlinear_arith)
        requires 0 <= t4 <= 6_088_068 && 0 <= t2 <= 2_467_401;
    assert(0 <= t6 <= 15_021_731);
    let t8 = (t6 * t2) / 1_000_000;
    assert(0 <= t6 * t2 <= 15_021_731 * 2_467_401) by (nonlinear_arith)
        requires 0 <= t6 <= 15_021_731 && 0 <= t2 <= 2_467_401;
    assert(0 <= t8 <= 37_064_634);
}

/// The folded cosine stays within [-2*SCALE, 2*SCALE] everywhere.
pub proof fn lemma_cos_unit_bounds(x: int)
    ensures
        -2_000_000 <= cos_unit(x) <= 2_000_000,
{
    let u = x % 1_000_000;
    let v = if 1_000_000 - u < u { 1_000_000 - u } else { u };
    if 4 * v <= 1_000_000 {
        lemma_quarter_cos_bounds(v);
    } else {
        lemma_quarter_cos_bounds(500_000 - v);
    }
}

/// One Rastrigin term of an in-limit coordinate is bounded by `TERM_BOUND`.
pub proof fn lemma_term_bound(x: int)
    requires
        -POS_LIMIT <= x <= POS_LIMIT,
    ensures
        -TERM_BOUND <= rastrigin_term(x) <= TERM_BOUND,
{
    assert(0 <= x * x <= 2_000_000_000 * 2_000_000_000) by (nonlinear_arith)
        requires -2_000_000_000 <= x <= 2_000_000_000;
    lemma_cos_unit_bounds(x);
}

/// The Rastrigin sum of an in-limit vector is bounded term by term.
pub proof fn lemma_sum_bound(s: Seq<int>)
    requires
        coords_in_limit(s),
    ensures
        -5_000_000_000_000 * s.len() <= rastrigin_sum(s) <= 5_000_000_000_000 * s.len(),
    decreases s.len(),
{
    if s.len() > 0 {
        assert(coords_in_limit(s.drop_last()));
        lemma_sum_bound(s.drop_last());
        lemma_term_bound(s.last());
    }
}

/// The Rastrigin value of an in-limit vector of admissible dimensionality
/// stays within `FITNESS_BOUND`.
pub proof fn lemma_fitness_bound(s: Seq<int>)
    requires
        coords_in_limit(s),
        s.len() <= DIM_MAX,
    ensures
        -FITNESS_BOUND <= rastrigin_value(s) <= FITNESS_BOUND,
{
    lemma_sum_bound(s);
}

/// The global minimum of the Rastrigin function: its value at the origin is
/// exactly zero, in every dimensionality.
pub proof fn lemma_rastrigin_at_origin(s: Seq<int>)
    requires
        forall|i: int| 0 <= i < s.len() ==> #[trigger] s[i] == 0,
    ensures
        rastrigin_value(s) == 0,
    decreases s.len(),
{
    assert((0int * 6_283_185) / 1_000_000 == 0);
    assert(quarter_cos(0) == 1_000_000);
    assert(cos_unit(0) == 1_000_000);
    if s.len() == 0 {
    } else {
        assert(forall|i: int| 0 <= i < s.drop_last().len() ==> #[trigger] s.drop_last()[i] == 0);
        lemma_rastrigin_at_origin(s.drop_last());
        assert(s.last() == 0);
        assert(rastrigin_term(0) == -10_000_000);
    }
}

/// The quarter-wave cosine polynomial, executable.
fn quarter_cos_fixed(v: i64) -> (c: i64)
    requires
        0 <= v <= 250_000,
    ensures
        c == quarter_cos(v as int),
{
    let t: i64 = (v * 6_283_185) / 1_000_000;
    assert(0 <= t <= 1_570_796);
    assert(0 <= t * t <= 1_570_796 * 1_570_796) by (nonlinear_arith)
        requires 0 <= t <= 1_570_796;
    let t2: i64 = (t * t) / 1_000_000;
    assert(0 <= t2 <= 2_467_401);
    assert(0 <= t2 * t2 <= 2_467_401 * 2_467_401) by (nonlinear_arith)
        requires 0 <= t2 <= 2_467_401;
    let t4: i64 = (t2 * t2) / 1_000_000;
    assert(0 <= t4 <= 6_088_068);
    assert(0 <= t4 * t2 <= 6_088_068 * 2_467_401) by (nonlinear_arith)
        requires 0 <= t4 <= 6_088_068 && 0 <= t2 <= 2_467_401;
    let t6: i64 = (t4 * t2) / 1_000_000;
    assert(0 <= t6 <= 15_021_731);
    assert(0 <= t6 * t2 <= 15_021_731 * 2_467_401) by (nonlinear_arith)
        requires 0 <= t6 <= 15_021_731 && 0 <= t2 <= 2_467_401;
    let t8: i64 = (t6 * t2) / 1_000_000;
    1_000_000 - t2 / 2 + t4 / 24 - t6 / 720 + t8 / 40320
}

/// Fixed-point cosine of a full turn fraction, executable; exact with
/// respect to `cos_unit`.
pub fn cos_fixed(x: i64) -> (c: i64)
    ensures
        c == cos_unit(x as int),
        -2_000_000 <= c <= 2_000_000,
{
    proof {
        lemma_cos_unit_bounds(x as int);
    }
    let r: i64 = x % 1_000_000;
    let u: i64 = if r < 0 { r + 1_000_000 } else { r };
    assert(u == (x as int) % 1_000_000) by {
        vstd::arithmetic::div_mod::lemma_fundamental_div_mod(x as int, 1_000_000);
        vstd::arithmetic::div_mod::lemma_fundamental_div_mod(-(x as int), 1_000_000);
    };
    let v: i64 = if 1_000_000 - u < u { 1_000_000 - u } else { u };
    if 4 * v <= 1_000_000 {
        quarter_cos_fixed(v)
    } else {
        let q: i64 = quarter_cos_fixed(500_000 - v);
        proof {
            lemma_quarter_cos_bounds((500_000 - v) as int);
        }
        -q
    }
}

/// The Rastrigin value of a position vector, executable; exact with respect
/// to `rastrigin_value`. Defined for every in-limit vector, in or out of the
/// search bounds: boundary handling is the caller's business, not this
/// function's.
pub fn rastrigin(x: &Vec<i64>) -> (f: i64)
    requires
        x@.len() <= DIM_MAX,
        coords_in_limit(coords(x@)),
    ensures
        f == rastrigin_value(coords(x@)),
        -FITNESS_BOUND <= f <= FITNESS_BOUND,
{
    let ghost s = coords(x@);
    let mut sum: i64 = 0;
    let mut i: usize = 0;
    while i < x.len()
        invariant
            0 <= i <= x@.len(),
            x@.len() <= DIM_MAX,
            coords_in_limit(s),
            s == coords(x@),
            sum == rastrigin_sum(s.take(i as int)),
            -5_000_000_000_000 * (i as int) <= sum <= 5_000_000_000_000 * (i as int),
        decreases x@.len() - i,
    {
        let xi: i64 = x[i];
        assert(s[i as int] == xi);
        let c: i64 = cos_fixed(xi);
        assert(0 <= xi * xi <= 2_000_000_000 * 2_000_000_000) by (nonlinear_arith)
            requires -2_000_000_000 <= xi <= 2_000_000_000;
        let sq: i64 = (xi * xi) / 1_000_000;
        let term: i64 = sq - 10 * c;
        proof {
            assert(term == rastrigin_term(s[i as int]));
            lemma_term_bound(s[i as int]);
            assert(s.take(i + 1).drop_last() =~= s.take(i as int));
            assert(s.take(i + 1).last() == s[i as int]);
        }
        sum = sum + term;
        i = i + 1;
    }
    proof {
        assert(s.take(i as int) =~= s);
        lemma_fitness_bound(s);
    }
    10_000_000 * (x.len() as i64) + sum
}

} // verus!
