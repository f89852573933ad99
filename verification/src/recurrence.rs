//! Single-pole low-pass and high-pass filters over a sequence of samples.
//!
//! Both work in place and take the smoothing factor `alpha` as given: for the
//! low-pass filter `dt / (rc + dt)`, for the high-pass filter `rc / (rc + dt)`,
//! with `dt` the sampling period and `rc` the time constant.

use vstd::prelude::*;
use crate::scalar::{Scalar, one};

verus! {

/// Sample `i` of the low-pass filter of `x`: the first sample is scaled by
/// `alpha`, and each later one moves the output before it towards the input
/// by the fraction `alpha` of their distance.
pub open spec fn lowpass_at<T: Scalar>(x: Seq<T>, alpha: T, i: int) -> T
    decreases i,
{
    if i <= 0 {
        x[0].mul_spec(alpha)
    } else {
        let before = lowpass_at(x, alpha, i - 1);
        before.add_spec(alpha.mul_spec(x[i].sub_spec(before)))
    }
}

/// Sample `i` of the high-pass filter of `x`: the first sample is kept, and
/// each later one is `alpha` times what is left of the sum of the output
/// before it and the input once that output is taken away again.
pub open spec fn highpass_at<T: Scalar>(x: Seq<T>, alpha: T, i: int) -> T
    decreases i,
{
    if i <= 0 {
        x[0].mul_spec(one::<T>())
    } else {
        let before = highpass_at(x, alpha, i - 1);
        alpha.mul_spec(before.add_spec(x[i]).sub_spec(before))
    }
}

/// Filters `data` in place with a single-pole low-pass filter of smoothing
/// factor `alpha`.
pub fn lowpass_filter<T: Scalar>(data: &mut Vec<T>, alpha: T)
    requires
        old(data)@.len() >= 1,
    ensures
        final(data)@.len() == old(data)@.len(),
        forall|i: int|
            0 <= i < old(data)@.len() ==> #[trigger] final(data)@[i] == lowpass_at(
                old(data)@,
                alpha,
                i,
            ),
{
    let ghost x = data@;
    let n = data.len();
    let first = data[0].times(&alpha);
    data.set(0, first);
    let mut i: usize = 1;
    while i < n
        invariant
            1 <= i <= n,
            n == x.len(),
            data@.len() == n,
            forall|k: int| 0 <= k < i ==> #[trigger] data@[k] == lowpass_at(x, alpha, k),
            forall|k: int| i <= k < n ==> #[trigger] data@[k] == x[k],
        decreases n - i,
    {
        let before = data[i - 1];
        let next = before.plus(&alpha.times(&data[i].minus(&before)));
        data.set(i, next);
        i += 1;
    }
}

/// Filters `data` in place with a single-pole high-pass filter of smoothing
/// factor `alpha`.
pub fn highpass_filter<T: Scalar>(data: &mut Vec<T>, alpha: T)
    requires
        old(data)@.len() >= 1,
    ensures
        final(data)@.len() == old(data)@.len(),
        forall|i: int|
            0 <= i < old(data)@.len() ==> #[trigger] final(data)@[i] == highpass_at(
                old(data)@,
                alpha,
                i,
            ),
{
    let ghost x = data@;
    let n = data.len();
    let first = data[0].times(&T::from_int(1));
    data.set(0, first);
    let mut i: usize = 1;
    while i < n
        invariant
            1 <= i <= n,
            n == x.len(),
            data@.len() == n,
            forall|k: int| 0 <= k < i ==> #[trigger] data@[k] == highpass_at(x, alpha, k),
            forall|k: int| i <= k < n ==> #[trigger] data@[k] == x[k],
        decreases n - i,
    {
        let before = data[i - 1];
        let next = alpha.times(&before.plus(&data[i]).minus(&before));
        data.set(i, next);
        i += 1;
    }
}

} // verus!
