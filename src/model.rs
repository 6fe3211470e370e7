//! The mathematical model: what the MTIE of a sample series is, and the laws
//! that hold of it.
use vstd::prelude::*;

verus! {

/// The absolute value of `x`.
pub open spec fn abs(x: int) -> int {
    if x < 0 {
        -x
    } else {
        x
    }
}

/// The excursion between the samples at positions `i` and `j`.
pub open spec fn excursion(s: Seq<i64>, i: int, j: int) -> int {
    abs(s[j] - s[i])
}

/// Positions `i <= j` of `s` that lie at most `tau` samples apart.
pub open spec fn within(s: Seq<i64>, tau: int, i: int, j: int) -> bool {
    0 <= i <= j < s.len() && j - i <= tau
}

/// `v` is the MTIE of `s` at interval `tau`: the largest excursion between two
/// samples at most `tau` positions apart. Equivalently, the largest
/// peak-to-peak spread (maximum minus minimum) of any `tau + 1` consecutive
/// samples.
pub open spec fn is_mtie(s: Seq<i64>, tau: int, v: int) -> bool {
    &&& forall|i: int, j: int| #[trigger] within(s, tau, i, j) ==> excursion(s, i, j) <= v
    &&& exists|i: int, j: int| #[trigger] within(s, tau, i, j) && excursion(s, i, j) == v
}

/// `2^k`.
pub open spec fn pow2(k: nat) -> nat
    decreases k,
{
    if k == 0 {
        1
    } else {
        2 * pow2((k - 1) as nat)
    }
}

/// `floor(log2(n))`, taken as 0 for `n < 2`.
pub open spec fn log2_floor(n: nat) -> nat
    decreases n,
{
    if n < 2 {
        0
    } else {
        1 + log2_floor(n / 2)
    }
}

/// `r` holds the MTIE of `s` at every interval `1 ..= s.len() - 1`, in order,
/// each paired with its interval.
pub open spec fn is_complete_mtie(s: Seq<i64>, r: Seq<(usize, u64)>) -> bool {
    &&& r.len() == if s.len() == 0 {
        0
    } else {
        s.len() - 1
    }
    &&& forall|k: int|
        #![trigger r[k]]
        0 <= k < r.len() ==> r[k].0 == k + 1 && is_mtie(s, k + 1, r[k].1 as int)
}

/// `r` holds the MTIE of `s` at the intervals `2^k - 1` for
/// `k = 1 ..= floor(log2(s.len()))`, in order, each paired with its interval.
pub open spec fn is_dyadic_mtie(s: Seq<i64>, r: Seq<(usize, u64)>) -> bool {
    &&& r.len() == log2_floor(s.len())
    &&& forall|k: int|
        #![trigger r[k]]
        0 <= k < r.len() ==> r[k].0 == pow2((k + 1) as nat) - 1 && is_mtie(
            s,
            pow2((k + 1) as nat) - 1,
            r[k].1 as int,
        )
}

/// The MTIE values of `r` never decrease from one pair to the next.
pub open spec fn non_decreasing(r: Seq<(usize, u64)>) -> bool {
    forall|k: int| #![trigger r[k]] 0 <= k < r.len() - 1 ==> r[k].1 <= r[k + 1].1
}

/// All samples of `s` are equal.
pub open spec fn is_constant(s: Seq<i64>) -> bool {
    forall|i: int| 0 <= i < s.len() ==> #[trigger] s[i] == s[0]
}

/// The samples of `s` grow by `m` from each position to the next.
pub open spec fn is_arithmetic(s: Seq<i64>, m: int) -> bool {
    forall|i: int| 0 <= i < s.len() ==> #[trigger] s[i] == s[0] + m * i
}

/// A series has one MTIE value at each interval.
pub proof fn mtie_is_unique(s: Seq<i64>, tau: int, v1: int, v2: int)
    requires
        is_mtie(s, tau, v1),
        is_mtie(s, tau, v2),
    ensures
        v1 == v2,
{
    let (i1, j1) = choose|i: int, j: int| #[trigger] within(s, tau, i, j) && excursion(s, i, j) == v1;
    let (i2, j2) = choose|i: int, j: int| #[trigger] within(s, tau, i, j) && excursion(s, i, j) == v2;
    assert(excursion(s, i1, j1) <= v2);
    assert(excursion(s, i2, j2) <= v1);
}

/// Widening the observation interval never lowers the MTIE.
pub proof fn mtie_grows_with_interval(s: Seq<i64>, tau1: int, v1: int, tau2: int, v2: int)
    requires
        tau1 <= tau2,
        is_mtie(s, tau1, v1),
        is_mtie(s, tau2, v2),
    ensures
        v1 <= v2,
{
    let (i, j) = choose|i: int, j: int| #[trigger] within(s, tau1, i, j) && excursion(s, i, j) == v1;
    assert(within(s, tau2, i, j));
}

/// A series whose samples are all equal has MTIE 0 at every interval.
pub proof fn constant_series_has_zero_mtie(s: Seq<i64>, tau: int, v: int)
    requires
        is_constant(s),
        is_mtie(s, tau, v),
    ensures
        v == 0,
{
    let (i, j) = choose|i: int, j: int| #[trigger] within(s, tau, i, j) && excursion(s, i, j) == v;
    assert(s[i] == s[0]);
    assert(s[j] == s[0]);
}

/// A series that grows by `m` per sample has MTIE `|m| * tau` at every
/// interval `tau` shorter than the series.
pub proof fn arithmetic_series_mtie(s: Seq<i64>, m: int, tau: int, v: int)
    requires
        is_arithmetic(s, m),
        0 <= tau < s.len(),
        is_mtie(s, tau, v),
    ensures
        v == abs(m) * tau,
{
    let (i, j) = choose|i: int, j: int| #[trigger] within(s, tau, i, j) && excursion(s, i, j) == v;
    assert(s[i] == s[0] + m * i);
    assert(s[j] == s[0] + m * j);
    let d = j - i;
    assert(s[j] - s[i] == m * d) by (nonlinear_arith)
        requires
            s[i] == s[0] + m * i,
            s[j] == s[0] + m * j,
            d == j - i,
    ;
    assert(abs(m * d) == abs(m) * d) by (nonlinear_arith)
        requires
            d >= 0,
    ;
    assert(abs(m) * d <= abs(m) * tau) by (nonlinear_arith)
        requires
            0 <= d <= tau,
    ;
    assert(within(s, tau, 0, tau));
    assert(s[tau] == s[0] + m * tau);
    assert(abs(m * tau) == abs(m) * tau) by (nonlinear_arith)
        requires
            tau >= 0,
    ;
}

/// `floor(log2(n)) == k` exactly when `2^k <= n < 2^(k+1)`.
pub proof fn log2_floor_between_powers(n: nat, k: nat)
    requires
        pow2(k) <= n < pow2(k + 1),
    ensures
        log2_floor(n) == k,
    decreases k,
{
    reveal_with_fuel(pow2, 2);
    if k > 0 {
        log2_floor_between_powers(n / 2, (k - 1) as nat);
    }
}

/// `2^j <= 2^k` for `j <= k`.
pub proof fn pow2_is_monotonic(j: nat, k: nat)
    requires
        j <= k,
    ensures
        pow2(j) <= pow2(k),
    decreases k,
{
    if j < k {
        pow2_is_monotonic(j, (k - 1) as nat);
    }
}

/// `2^floor(log2(n)) <= n` for `n >= 1`.
pub proof fn pow2_of_log2_floor(n: nat)
    requires
        n >= 1,
    ensures
        pow2(log2_floor(n)) <= n,
    decreases n,
{
    if n >= 2 {
        pow2_of_log2_floor(n / 2);
    }
}

/// The dyadic curve of a series is the part of its complete curve at the
/// intervals `2^k - 1`: the two engines agree wherever both give a value.
pub proof fn dyadic_curve_is_part_of_complete_curve(
    s: Seq<i64>,
    complete: Seq<(usize, u64)>,
    dyadic: Seq<(usize, u64)>,
)
    requires
        is_complete_mtie(s, complete),
        is_dyadic_mtie(s, dyadic),
    ensures
        forall|k: int|
            #![trigger dyadic[k]]
            0 <= k < dyadic.len() ==> dyadic[k] == complete[pow2((k + 1) as nat) - 2],
{
    assert forall|k: int|
        #![trigger dyadic[k]]
        0 <= k < dyadic.len() implies dyadic[k] == complete[pow2((k + 1) as nat) - 2] by {
        let tau = pow2((k + 1) as nat) - 1;
        pow2_of_log2_floor(s.len());
        pow2_is_monotonic((k + 1) as nat, log2_floor(s.len()));
        reveal_with_fuel(pow2, 2);
        assert(pow2((k + 1) as nat) >= 2) by {
            pow2_is_monotonic(1, (k + 1) as nat);
        }
        let c = complete[tau - 1];
        mtie_is_unique(s, tau, dyadic[k].1 as int, c.1 as int);
    }
}

} // verus!
