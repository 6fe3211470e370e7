//! The pyramid engine: the MTIE at the intervals `2^k - 1`, from levels of
//! window maxima and minima whose width doubles from one level to the next.
//! Each level is built from the one before it alone, so only the last level
//! is kept.
use vstd::prelude::*;

use crate::complete::excursion_of;
use crate::model::{
    excursion, is_dyadic_mtie, is_mtie, log2_floor, log2_floor_between_powers,
    mtie_grows_with_interval, non_decreasing, pow2, within,
};

verus! {

/// `v` is the largest of the `w` samples of `s` from `start` on.
pub open spec fn is_window_max(s: Seq<i64>, start: int, w: int, v: int) -> bool {
    &&& forall|t: int| start <= t < start + w ==> #[trigger] s[t] <= v
    &&& exists|t: int| start <= t < start + w && #[trigger] s[t] == v
}

/// `v` is the smallest of the `w` samples of `s` from `start` on.
pub open spec fn is_window_min(s: Seq<i64>, start: int, w: int, v: int) -> bool {
    &&& forall|t: int| start <= t < start + w ==> #[trigger] s[t] >= v
    &&& exists|t: int| start <= t < start + w && #[trigger] s[t] == v
}

/// One level of the pyramid: for every start position at which `width`
/// consecutive samples fit, the largest and the smallest of them.
struct PyramidLevel {
    width: usize,
    maxima: Vec<i64>,
    minima: Vec<i64>,
}

impl PyramidLevel {
    /// The level holds the window extremes of `s` at its width.
    spec fn wf(&self, s: Seq<i64>) -> bool {
        &&& 1 <= self.width <= s.len()
        &&& self.maxima@.len() == s.len() - self.width + 1
        &&& self.minima@.len() == s.len() - self.width + 1
        &&& forall|i: int|
            #![trigger self.maxima@[i]]
            0 <= i < self.maxima@.len() ==> is_window_max(
                s,
                i,
                self.width as int,
                self.maxima@[i] as int,
            )
        &&& forall|i: int|
            #![trigger self.minima@[i]]
            0 <= i < self.minima@.len() ==> is_window_min(
                s,
                i,
                self.width as int,
                self.minima@[i] as int,
            )
    }
}

/// The windows of two adjacent samples.
fn first_level(samples: &[i64]) -> (level: PyramidLevel)
    requires
        samples@.len() >= 2,
    ensures
        level.wf(samples@),
        level.width == 2,
{
    let ghost s = samples@;
    let n = samples.len();
    let mut maxima: Vec<i64> = Vec::new();
    let mut minima: Vec<i64> = Vec::new();
    let mut i: usize = 0;
    while i < n - 1
        invariant
            s == samples@,
            n == s.len() >= 2,
            i <= n - 1,
            maxima@.len() == i,
            minima@.len() == i,
            forall|j: int|
                #![trigger maxima@[j]]
                0 <= j < i ==> is_window_max(s, j, 2, maxima@[j] as int),
            forall|j: int|
                #![trigger minima@[j]]
                0 <= j < i ==> is_window_min(s, j, 2, minima@[j] as int),
        decreases n - 1 - i,
    {
        let left = samples[i];
        let right = samples[i + 1];
        let (max, min) = if left > right {
            (left, right)
        } else {
            (right, left)
        };
        assert(s[i as int] == left && s[i + 1] == right);
        maxima.push(max);
        minima.push(min);
        i = i + 1;
    }
    PyramidLevel { width: 2, maxima, minima }
}

/// The level of twice the width, each window joined from the two windows of
/// `prev` that make it up.
fn next_level(prev: &PyramidLevel, Ghost(s): Ghost<Seq<i64>>) -> (level: PyramidLevel)
    requires
        prev.wf(s),
        2 * prev.width <= s.len() <= usize::MAX,
    ensures
        level.wf(s),
        level.width == 2 * prev.width,
{
    let half = prev.width;
    let count = prev.maxima.len() - half;
    let mut maxima: Vec<i64> = Vec::new();
    let mut minima: Vec<i64> = Vec::new();
    let mut i: usize = 0;
    while i < count
        invariant
            prev.wf(s),
            half == prev.width,
            2 * half <= s.len() <= usize::MAX,
            count == s.len() - 2 * half + 1,
            i <= count,
            maxima@.len() == i,
            minima@.len() == i,
            forall|j: int|
                #![trigger maxima@[j]]
                0 <= j < i ==> is_window_max(s, j, 2 * half, maxima@[j] as int),
            forall|j: int|
                #![trigger minima@[j]]
                0 <= j < i ==> is_window_min(s, j, 2 * half, minima@[j] as int),
        decreases count - i,
    {
        let max1 = prev.maxima[i];
        let max2 = prev.maxima[i + half];
        let min1 = prev.minima[i];
        let min2 = prev.minima[i + half];
        let max = if max1 > max2 {
            max1
        } else {
            max2
        };
        let min = if min1 < min2 {
            min1
        } else {
            min2
        };
        proof {
            let w = half as int;
            let a = i as int;
            assert(is_window_max(s, a, w, max1 as int));
            assert(is_window_max(s, a + w, w, max2 as int));
            assert(is_window_min(s, a, w, min1 as int));
            assert(is_window_min(s, a + w, w, min2 as int));
            assert forall|t: int| a <= t < a + 2 * w implies #[trigger] s[t] <= max && s[t]
                >= min by {
                if t < a + w {
                    assert(s[t] <= max1 && s[t] >= min1);
                } else {
                    assert(s[t] <= max2 && s[t] >= min2);
                }
            }
        }
        maxima.push(max);
        minima.push(min);
        i = i + 1;
    }
    PyramidLevel { width: 2 * half, maxima, minima }
}

/// A window's spread bounds every excursion inside it, and its largest and
/// smallest sample make an excursion equal to it.
proof fn level_spread_is_mtie(s: Seq<i64>, level: PyramidLevel, v: int)
    requires
        level.wf(s),
        forall|i: int|
            #![trigger level.maxima@[i]]
            0 <= i < level.maxima@.len() ==> level.maxima@[i] - level.minima@[i] <= v,
        exists|i: int|
            #![trigger level.maxima@[i]]
            0 <= i < level.maxima@.len() && level.maxima@[i] - level.minima@[i] == v,
    ensures
        is_mtie(s, level.width - 1, v),
{
    let w = level.width as int;
    let n = s.len() as int;
    assert forall|i: int, j: int| #[trigger] within(s, w - 1, i, j) implies excursion(s, i, j)
        <= v by {
        let st = if i < n - w {
            i
        } else {
            n - w
        };
        assert(level.maxima@[st] - level.minima@[st] <= v);
        assert(is_window_max(s, st, w, level.maxima@[st] as int));
        assert(is_window_min(s, st, w, level.minima@[st] as int));
        assert(s[i] <= level.maxima@[st] && s[i] >= level.minima@[st]);
        assert(s[j] <= level.maxima@[st] && s[j] >= level.minima@[st]);
    }
    let i = choose|i: int|
        #![trigger level.maxima@[i]]
        0 <= i < level.maxima@.len() && level.maxima@[i] - level.minima@[i] == v;
    assert(is_window_max(s, i, w, level.maxima@[i] as int));
    assert(is_window_min(s, i, w, level.minima@[i] as int));
    let ta = choose|t: int| i <= t < i + w && #[trigger] s[t] == level.maxima@[i];
    let tb = choose|t: int| i <= t < i + w && #[trigger] s[t] == level.minima@[i];
    if ta <= tb {
        assert(within(s, w - 1, ta, tb));
    } else {
        assert(within(s, w - 1, tb, ta));
    }
}

/// The MTIE at interval `width - 1`: the largest spread of a window of the
/// level.
fn level_mtie(level: &PyramidLevel, Ghost(s): Ghost<Seq<i64>>) -> (r: u64)
    requires
        level.wf(s),
    ensures
        is_mtie(s, level.width - 1, r as int),
{
    let count = level.maxima.len();
    let mut maximum = excursion_of(level.minima[0], level.maxima[0]);
    proof {
        assert(is_window_max(s, 0, level.width as int, level.maxima@[0] as int));
        assert(is_window_min(s, 0, level.width as int, level.minima@[0] as int));
        let t = choose|t: int| 0 <= t < level.width && #[trigger] s[t] == level.maxima@[0];
        assert(s[t] >= level.minima@[0]);
    }
    let mut i: usize = 1;
    while i < count
        invariant
            level.wf(s),
            count == level.maxima@.len(),
            1 <= i <= count,
            forall|j: int|
                #![trigger level.maxima@[j]]
                0 <= j < i ==> level.maxima@[j] - level.minima@[j] <= maximum,
            exists|j: int|
                #![trigger level.maxima@[j]]
                0 <= j < i && level.maxima@[j] - level.minima@[j] == maximum,
        decreases count - i,
    {
        proof {
            let w = level.width as int;
            assert(is_window_max(s, i as int, w, level.maxima@[i as int] as int));
            assert(is_window_min(s, i as int, w, level.minima@[i as int] as int));
            let t = choose|t: int| i <= t < i + w && #[trigger] s[t] == level.maxima@[i as int];
            assert(s[t] >= level.minima@[i as int]);
        }
        let spread = excursion_of(level.minima[i], level.maxima[i]);
        if spread > maximum {
            maximum = spread;
        }
        i = i + 1;
    }
    proof {
        level_spread_is_mtie(s, *level, maximum as int);
    }
    maximum
}

/// The MTIE of `samples` at the intervals `2^k - 1` for
/// `k = 1 ..= floor(log2(samples.len()))`, each paired with its interval.
/// Fewer than two samples give an empty curve.
pub fn mtie_fast(samples: &[i64]) -> (r: Vec<(usize, u64)>)
    ensures
        is_dyadic_mtie(samples@, r@),
        r@.len() == log2_floor(samples@.len()),
        non_decreasing(r@),
{
    let ghost s = samples@;
    let n = samples.len();
    let mut mtie: Vec<(usize, u64)> = Vec::new();
    if n < 2 {
        assert(log2_floor(n as nat) == 0);
        return mtie;
    }
    let mut level = first_level(samples);
    let value = level_mtie(&level, Ghost(s));
    mtie.push((level.width - 1, value));
    assert(pow2(1) == 2) by {
        reveal_with_fuel(pow2, 2);
    }
    while level.width <= n / 2
        invariant
            s == samples@,
            n == s.len(),
            level.wf(s),
            1 <= mtie@.len(),
            level.width == pow2(mtie@.len() as nat),
            forall|k: int|
                #![trigger mtie@[k]]
                0 <= k < mtie@.len() ==> mtie@[k].0 == pow2((k + 1) as nat) - 1 && is_mtie(
                    s,
                    pow2((k + 1) as nat) - 1,
                    mtie@[k].1 as int,
                ),
            non_decreasing(mtie@),
        decreases n - level.width,
    {
        let ghost previous = mtie@[mtie@.len() - 1];
        let ghost len = mtie@.len();
        level = next_level(&level, Ghost(s));
        let value = level_mtie(&level, Ghost(s));
        proof {
            assert(pow2((len + 1) as nat) == 2 * pow2(len as nat));
            mtie_grows_with_interval(
                s,
                pow2(len as nat) - 1,
                previous.1 as int,
                level.width - 1,
                value as int,
            );
        }
        mtie.push((level.width - 1, value));
    }
    proof {
        let len = mtie@.len() as nat;
        assert(pow2(len + 1) == 2 * pow2(len));
        log2_floor_between_powers(n as nat, len);
    }
    mtie
}

} // verus!
