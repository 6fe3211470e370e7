//! Choosing an engine by sample count, and the check that guards the curve
//! each engine returns.
use vstd::prelude::*;

use crate::complete::{mtie_complete, MAX_COMPLETE_SAMPLES};
use crate::error::MtieError;
use crate::fast::mtie_fast;
use crate::model::{is_complete_mtie, is_dyadic_mtie, non_decreasing};

verus! {

/// Checks that the MTIE values of `mtie` never fall from one pair to the
/// next. On failure, names the first pair whose successor is smaller.
pub fn check_monotonically_increasing(mtie: &[(usize, u64)]) -> (r: Result<(), MtieError>)
    ensures
        r is Ok <==> non_decreasing(mtie@),
        r is Err ==> ({
            let e = r->Err_0;
            &&& e is NotMonotonic
            &&& e->index < mtie@.len() - 1
            &&& e->earlier == mtie@[e->index as int].1
            &&& e->later == mtie@[e->index + 1].1
            &&& e->later < e->earlier
            &&& forall|k: int| 0 <= k < e->index ==> #[trigger] mtie@[k].1 <= mtie@[k + 1].1
        }),
{
    let mut next: usize = 1;
    while next < mtie.len()
        invariant
            1 <= next,
            next <= mtie@.len() || mtie@.len() == 0,
            forall|k: int| 0 <= k < next - 1 ==> #[trigger] mtie@[k].1 <= mtie@[k + 1].1,
        decreases mtie@.len() - next,
    {
        let earlier = mtie[next - 1].1;
        let later = mtie[next].1;
        if later < earlier {
            return Err(MtieError::NotMonotonic { index: next - 1, earlier, later });
        }
        next = next + 1;
    }
    Ok(())
}

/// The MTIE curve of `samples` from the engine that suits their number: the
/// exact engine, over every interval, up to `MAX_COMPLETE_SAMPLES` samples;
/// the pyramid engine, over the intervals `2^k - 1`, beyond. The curve is
/// checked with `check_monotonically_increasing` before it is returned.
pub fn run(samples: &[i64]) -> (r: Result<Vec<(usize, u64)>, MtieError>)
    ensures
        r is Ok,
        samples@.len() <= MAX_COMPLETE_SAMPLES ==> is_complete_mtie(samples@, r->Ok_0@),
        samples@.len() > MAX_COMPLETE_SAMPLES ==> is_dyadic_mtie(samples@, r->Ok_0@),
        non_decreasing(r->Ok_0@),
{
    let mtie = if samples.len() <= MAX_COMPLETE_SAMPLES {
        match mtie_complete(samples) {
            Ok(mtie) => mtie,
            Err(e) => return Err(e),
        }
    } else {
        mtie_fast(samples)
    };
    match check_monotonically_increasing(mtie.as_slice()) {
        Ok(()) => Ok(mtie),
        Err(e) => Err(e),
    }
}

} // verus!
