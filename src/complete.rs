//! The exact engine: the MTIE at every interval, by scanning every pair of
//! samples. Quadratic in the number of samples.
use vstd::prelude::*;

use crate::error::MtieError;
use crate::model::{
    abs, arithmetic_series_mtie, constant_series_has_zero_mtie, excursion, is_arithmetic,
    is_complete_mtie, is_constant, is_mtie, non_decreasing, within,
};

verus! {

/// The largest number of samples that `mtie_complete` takes on.
pub const MAX_COMPLETE_SAMPLES: usize = 100_000;

/// `v` is the largest excursion between two samples exactly `tau` apart.
pub open spec fn is_lag_max(s: Seq<i64>, tau: int, v: int) -> bool {
    &&& forall|i: int| 0 <= i && i + tau < s.len() ==> #[trigger] excursion(s, i, i + tau) <= v
    &&& exists|i: int| 0 <= i && i + tau < s.len() && #[trigger] excursion(s, i, i + tau) == v
}

/// `|b - a|`, which always fits in a `u64`.
pub fn excursion_of(a: i64, b: i64) -> (r: u64)
    ensures
        r == abs(b - a),
{
    if b >= a {
        (b as i128 - a as i128) as u64
    } else {
        (a as i128 - b as i128) as u64
    }
}

/// The largest excursion between two samples exactly `tau` positions apart.
fn lag_max(samples: &[i64], tau: usize) -> (r: u64)
    requires
        1 <= tau < samples@.len(),
    ensures
        is_lag_max(samples@, tau as int, r as int),
{
    let ghost s = samples@;
    let n = samples.len();
    let mut maximum = excursion_of(samples[0], samples[tau]);
    let mut start: usize = 1;
    assert(excursion(s, 0, 0 + tau) == maximum);
    while start < n - tau
        invariant
            s == samples@,
            n == s.len(),
            1 <= tau < n,
            1 <= start <= n - tau,
            forall|i: int| 0 <= i < start ==> #[trigger] excursion(s, i, i + tau) <= maximum,
            exists|i: int| 0 <= i < start && #[trigger] excursion(s, i, i + tau) == maximum,
        decreases n - tau - start,
    {
        let difference = excursion_of(samples[start], samples[start + tau]);
        assert(excursion(s, start as int, start + tau) == difference);
        if difference > maximum {
            maximum = difference;
        }
        start = start + 1;
    }
    maximum
}

/// Extends the MTIE at interval `tau - 1` by the excursions at lag exactly
/// `tau` to the MTIE at interval `tau`.
proof fn mtie_step(s: Seq<i64>, tau: int, prev: int, lag: int)
    requires
        1 <= tau < s.len(),
        is_mtie(s, tau - 1, prev),
        is_lag_max(s, tau, lag),
    ensures
        is_mtie(s, tau, if prev > lag { prev } else { lag }),
{
    let v = if prev > lag {
        prev
    } else {
        lag
    };
    assert forall|i: int, j: int| #[trigger] within(s, tau, i, j) implies excursion(s, i, j) <= v by {
        if j - i < tau {
            assert(within(s, tau - 1, i, j));
        } else {
            assert(excursion(s, i, i + tau) <= lag);
        }
    }
    if prev > lag {
        let (i, j) = choose|i: int, j: int|
            #[trigger] within(s, tau - 1, i, j) && excursion(s, i, j) == prev;
        assert(within(s, tau, i, j));
    } else {
        let i = choose|i: int| 0 <= i && i + tau < s.len() && #[trigger] excursion(s, i, i + tau) == lag;
        assert(within(s, tau, i, i + tau));
    }
}

/// The exact MTIE of `samples` at every interval `1 ..= samples.len() - 1`,
/// each paired with its interval. One sample or none give an empty curve.
/// More than `MAX_COMPLETE_SAMPLES` samples are refused with `SizeExceeded`.
pub fn mtie_complete(samples: &[i64]) -> (r: Result<Vec<(usize, u64)>, MtieError>)
    ensures
        samples@.len() > MAX_COMPLETE_SAMPLES ==> r == Err::<Vec<(usize, u64)>, MtieError>(
            MtieError::SizeExceeded { ceiling: MAX_COMPLETE_SAMPLES, actual: samples.len() },
        ),
        samples@.len() <= MAX_COMPLETE_SAMPLES ==> r is Ok,
        r is Ok ==> is_complete_mtie(samples@, r->Ok_0@),
        r is Ok ==> non_decreasing(r->Ok_0@),
        r is Ok && is_constant(samples@) ==> forall|k: int|
            0 <= k < r->Ok_0@.len() ==> #[trigger] r->Ok_0@[k].1 == 0,
        r is Ok ==> forall|m: int, k: int|
            #![trigger is_arithmetic(samples@, m), r->Ok_0@[k]]
            is_arithmetic(samples@, m) && 0 <= k < r->Ok_0@.len() ==> r->Ok_0@[k].1 == abs(m) * (k
                + 1),
{
    let ghost s = samples@;
    let n = samples.len();
    if n > MAX_COMPLETE_SAMPLES {
        return Err(MtieError::SizeExceeded { ceiling: MAX_COMPLETE_SAMPLES, actual: n });
    }
    let mut mtie: Vec<(usize, u64)> = Vec::new();
    if n == 0 {
        return Ok(mtie);
    }
    let mut prev_maximum: u64 = 0;
    assert(within(s, 0, 0, 0));
    let mut tau: usize = 1;
    while tau < n
        invariant
            s == samples@,
            n == s.len(),
            1 <= tau <= n,
            mtie@.len() == tau - 1,
            is_mtie(s, tau - 1, prev_maximum as int),
            tau >= 2 ==> mtie@[tau - 2].1 == prev_maximum,
            forall|k: int|
                #![trigger mtie@[k]]
                0 <= k < mtie@.len() ==> mtie@[k].0 == k + 1 && is_mtie(
                    s,
                    k + 1,
                    mtie@[k].1 as int,
                ),
            non_decreasing(mtie@),
        decreases n - tau,
    {
        let lag = lag_max(samples, tau);
        let maximum = if prev_maximum > lag {
            prev_maximum
        } else {
            lag
        };
        proof {
            mtie_step(s, tau as int, prev_maximum as int, lag as int);
        }
        mtie.push((tau, maximum));
        prev_maximum = maximum;
        tau = tau + 1;
    }
    proof {
        let r = mtie@;
        if is_constant(s) {
            assert forall|k: int| 0 <= k < r.len() implies #[trigger] r[k].1 == 0 by {
                constant_series_has_zero_mtie(s, k + 1, r[k].1 as int);
            }
        }
        assert forall|m: int, k: int|
            #![trigger is_arithmetic(s, m), r[k]]
            is_arithmetic(s, m) && 0 <= k < r.len() implies r[k].1 == abs(m) * (k + 1) by {
            arithmetic_series_mtie(s, m, k + 1, r[k].1 as int);
        }
    }
    Ok(mtie)
}

} // verus!
