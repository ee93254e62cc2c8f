use vstd::prelude::*;

verus! {

/// Division that rounds toward zero, as Rust's `/` on signed integers does.
pub open spec fn trunc_div(a: int, b: int) -> int {
    if a >= 0 {
        a / b
    } else {
        -((-a) / b)
    }
}

/// The minor coordinate of the `ia`-th step of a line that advances `da` along its major
/// axis and `db` along its minor one, rounded to the nearest integer:
/// `(2 * db * ia + da) / da / 2`.
pub open spec fn slope_value(da: int, db: int, ia: int) -> int {
    trunc_div(trunc_div(2 * db * ia + da, da as int), 2)
}

/// What `calc_slope_point` returns.
pub open spec fn slope_point(da: int, db: int, ia: int) -> Option<int> {
    if da < db {
        None
    } else if da == 0 {
        Some(0)
    } else if 0 <= ia <= da {
        Some(slope_value(da, db, ia))
    } else {
        None
    }
}

/// The arithmetic of `calc_slope_point` stays within `i64` (outside it Rust's arithmetic
/// panics).
pub open spec fn slope_fits(da: int, db: int, ia: int) -> bool {
    (db <= da && da != 0 && 0 <= ia <= da) ==> {
        &&& i64::MIN <= 2 * db <= i64::MAX
        &&& i64::MIN <= 2 * db * ia <= i64::MAX
        &&& i64::MIN <= 2 * db * ia + da <= i64::MAX
    }
}

/// The minor-axis offset of point `ia` of a line with major extent `da` and minor extent `db`.
pub fn calc_slope_point(da: i64, db: i64, ia: i64) -> (r: Option<i64>)
    requires
        slope_fits(da as int, db as int, ia as int),
    ensures
        r == (match slope_point(da as int, db as int, ia as int) {
            Some(v) => Some(v as i64),
            None => None,
        }),
        r matches Some(v) ==> slope_point(da as int, db as int, ia as int) == Some(v as int),
{
    if da < db {
        None
    } else if da == 0 {
        Some(0)
    } else if 0 <= ia && ia <= da {
        let twice: i64 = 2 * db;
        let scaled: i64 = twice * ia;
        let q: i64 = (scaled + da) / da;
        proof {
            assert(q == trunc_div(2 * db * ia + da, da as int));
        }
        Some(q / 2)
    } else {
        None
    }
}

/// For a line whose minor extent is at most its major one, every step lies between 0 and
/// `db`, the first is 0 and the last is `db`.
pub proof fn lemma_slope_range(da: int, db: int, ia: int)
    requires
        0 <= db <= da,
        0 < da,
        0 <= ia <= da,
    ensures
        0 <= slope_value(da, db, ia) <= db,
        slope_value(da, db, 0) == 0,
        slope_value(da, db, da) == db,
        slope_value(da, db, ia) == (2 * db * ia + da) / (2 * da),
{
    let n = 2 * db * ia + da;
    assert(n >= 0) by (nonlinear_arith)
        requires
            0 <= db,
            0 <= ia,
            0 < da,
            n == 2 * db * ia + da,
    ;
    let q = n / da;
    assert(q >= 0) by (nonlinear_arith)
        requires
            n >= 0,
            da > 0,
            q == n / da,
    ;
    assert(slope_value(da, db, ia) == q / 2);
    assert(q / 2 == n / (2 * da)) by {
        vstd::arithmetic::div_mod::lemma_div_denominator(n, da, 2);
    }
    assert(n / (2 * da) <= db) by (nonlinear_arith)
        requires
            n == 2 * db * ia + da,
            ia <= da,
            0 <= db,
            0 < da,
    {
        vstd::arithmetic::div_mod::lemma_fundamental_div_mod(n, 2 * da);
        assert(n < (db + 1) * (2 * da));
    }
    assert(slope_value(da, db, 0) == 0) by {
        assert(2 * db * 0 + da == da) by (nonlinear_arith);
        assert(da / da == 1) by (nonlinear_arith) requires da > 0;
    }
    assert(slope_value(da, db, da) == db) by {
        assert(2 * db * da + da == (2 * db + 1) * da) by (nonlinear_arith);
        vstd::arithmetic::div_mod::lemma_div_by_multiple(2 * db + 1, da);
    }
}

/// Consecutive steps of such a line move the minor coordinate by 0 or 1: the line has no gaps.
pub proof fn lemma_slope_step(da: int, db: int, ia: int)
    requires
        0 <= db <= da,
        0 < da,
        0 <= ia < da,
    ensures
        slope_value(da, db, ia) <= slope_value(da, db, ia + 1) <= slope_value(da, db, ia) + 1,
{
    lemma_slope_range(da, db, ia);
    lemma_slope_range(da, db, ia + 1);
    let n = 2 * db * ia + da;
    let m = 2 * db * (ia + 1) + da;
    assert(m == n + 2 * db) by (nonlinear_arith)
        requires
            n == 2 * db * ia + da,
            m == 2 * db * (ia + 1) + da,
    ;
    let d = 2 * da;
    let a = n / d;
    let b = m / d;
    vstd::arithmetic::div_mod::lemma_fundamental_div_mod(n, d);
    vstd::arithmetic::div_mod::lemma_fundamental_div_mod(m, d);
    assert(a <= b <= a + 1) by (nonlinear_arith)
        requires
            d > 0,
            n == d * a + n % d,
            m == d * b + m % d,
            0 <= n % d < d,
            0 <= m % d < d,
            n <= m <= n + d,
    ;
}

} // verus!

verus! {

/// A line as long on its minor axis as on its major one is the diagonal: step `ia` is `ia`.
pub proof fn lemma_slope_diagonal(d: int, ia: int)
    requires
        0 <= ia < d,
    ensures
        slope_value(d, d, ia) == ia,
{
    lemma_slope_range(d, d, ia);
    let n = 2 * d * ia + d;
    let m = 2 * d;
    vstd::arithmetic::div_mod::lemma_fundamental_div_mod(n, m);
    assert(n / m == ia) by (nonlinear_arith)
        requires
            m == 2 * d,
            d > 0,
            n == 2 * d * ia + d,
            n == m * (n / m) + n % m,
            0 <= n % m < m,
    ;
}

} // verus!
