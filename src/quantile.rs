//! Parameter checks and order-statistic extraction on a loss sample.
//!
//! Losses are handled as integer keys whose order is the order of the losses
//! (a total-order encoding of each floating-point loss), so sorting and
//! selecting can be stated and proved over integers.
use vstd::prelude::*;

use crate::sort::{lemma_sorted_unique, quicksort, sorted};

verus! {

/// Why a simulation or an estimate was refused.
#[derive(Debug, Clone, Copy, PartialEq, Eq, Structural)]
pub enum VarError {
    /// A trial count or step count of zero, or a confidence level outside `(0, 1)`.
    InvalidArgument,
    /// A draw or a price update produced a value that is not finite.
    NumericAnomaly,
}

/// The rank counted from the largest loss: `raw` clamped to `[0, n - 1]`.
pub open spec fn clamped_rank(n: int, raw: int) -> int {
    if raw < 0 {
        0
    } else if raw >= n {
        n - 1
    } else {
        raw
    }
}

/// The position in the ascending sample of size `n` that the estimate reads,
/// for a raw rank `raw = floor((1 - alpha) * n)`.
pub open spec fn var_position(n: int, raw: int) -> int {
    n - 1 - clamped_rank(n, raw)
}

/// Whether a simulation with `n` trials of `steps` steps may run.
pub open spec fn params_valid(n: int, steps: int) -> bool {
    n > 0 && steps > 0
}

/// Rejects a zero trial count or a zero step count before any simulation.
pub fn check_params(n: usize, steps: usize) -> (r: Result<(), VarError>)
    ensures
        r == (if params_valid(n as int, steps as int) {
            Ok::<(), VarError>(())
        } else {
            Err(VarError::InvalidArgument)
        }),
{
    if n == 0 || steps == 0 {
        Err(VarError::InvalidArgument)
    } else {
        Ok(())
    }
}

/// The position in an ascending sample of `n` losses that the estimate reads
/// for the raw rank `raw`.
pub fn var_index(n: usize, raw: i64) -> (r: usize)
    requires
        n > 0,
    ensures
        r as int == var_position(n as int, raw as int),
        r < n,
{
    let idx: usize = if raw < 0 {
        0
    } else if raw as u64 >= n as u64 {
        n - 1
    } else {
        raw as usize
    };
    n - 1 - idx
}

/// Sorts the loss keys ascending and reads the estimate at the position that
/// the raw rank `raw` gives. An empty sample is refused.
pub fn value_at_risk(losses: &mut Vec<i64>, raw: i64) -> (r: Result<i64, VarError>)
    ensures
        final(losses)@.to_multiset() == old(losses)@.to_multiset(),
        sorted(final(losses)@),
        old(losses).len() == 0 ==> r == Err::<i64, VarError>(VarError::InvalidArgument),
        old(losses).len() > 0 ==> r == Ok::<i64, VarError>(
            final(losses)@[var_position(old(losses).len() as int, raw as int)],
        ),
{
    quicksort(losses);
    let n = losses.len();
    proof {
        broadcast use vstd::seq_lib::group_to_multiset_ensures;

        assert(losses@.to_multiset().len() == old(losses)@.to_multiset().len());
    }
    if n == 0 {
        return Err(VarError::InvalidArgument);
    }
    let i = var_index(n, raw);
    Ok(losses[i])
}

/// Higher confidence never lowers the estimate. Two sorts of one sample,
/// `t1` and `t2` (as `value_at_risk` leaves them), are read at the raw ranks
/// of a higher and a lower confidence level: a smaller raw rank (from a larger
/// `alpha`) reads a loss at least as large.
pub proof fn lemma_var_monotone(
    sample: Seq<i64>,
    t1: Seq<i64>,
    t2: Seq<i64>,
    raw_high_conf: int,
    raw_low_conf: int,
)
    requires
        sample.len() > 0,
        sorted(t1),
        sorted(t2),
        t1.to_multiset() == sample.to_multiset(),
        t2.to_multiset() == sample.to_multiset(),
        raw_high_conf <= raw_low_conf,
    ensures
        t2[var_position(sample.len() as int, raw_low_conf)] <= t1[var_position(
            sample.len() as int,
            raw_high_conf,
        )],
{
    broadcast use vstd::seq_lib::group_to_multiset_ensures;

    lemma_sorted_unique(t1, t2);
    vstd::seq_lib::to_multiset_len(t1);
    vstd::seq_lib::to_multiset_len(sample);
}

/// At the edges of the confidence range the estimate is an extreme loss of
/// the sample. With `t` the sorted sample: a raw rank of at least `n - 1`
/// (`alpha` near 0) reads a loss no larger than any in the sample, and a raw
/// rank of at most 0 (`alpha` near 1) reads the largest loss of the sample.
pub proof fn lemma_var_boundary(sample: Seq<i64>, t: Seq<i64>, raw: int)
    requires
        sample.len() > 0,
        sorted(t),
        t.to_multiset() == sample.to_multiset(),
    ensures
        raw >= sample.len() - 1 ==> forall|k: int|
            0 <= k < sample.len() ==> t[var_position(sample.len() as int, raw)]
                <= #[trigger] sample[k],
        raw <= 0 ==> forall|k: int|
            0 <= k < sample.len() ==> #[trigger] sample[k] <= t[var_position(
                sample.len() as int,
                raw,
            )],
        raw <= 0 ==> sample.contains(t[var_position(sample.len() as int, raw)]),
{
    broadcast use vstd::seq_lib::group_to_multiset_ensures;

    let n = sample.len() as int;
    vstd::seq_lib::to_multiset_len(t);
    vstd::seq_lib::to_multiset_len(sample);
    assert(t.len() == n);
    assert forall|k: int| 0 <= k < n implies #[trigger] t.contains(sample[k]) by {
        assert(sample.contains(sample[k]));
        vstd::seq_lib::to_multiset_contains(sample, sample[k]);
        vstd::seq_lib::to_multiset_contains(t, sample[k]);
    }
    assert forall|k: int| 0 <= k < n implies t[0] <= #[trigger] sample[k] && sample[k] <= t[n
        - 1] by {
        assert(t.contains(sample[k]));
        let j = choose|j: int| 0 <= j < n && t[j] == sample[k];
    }
    assert(t.contains(t[n - 1]));
    vstd::seq_lib::to_multiset_contains(sample, t[n - 1]);
    vstd::seq_lib::to_multiset_contains(t, t[n - 1]);
}

} // verus!
