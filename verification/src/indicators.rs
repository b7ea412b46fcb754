//! Indicators over plain series.

use vstd::prelude::*;
use std::cmp::Ordering;
use vstd::std_specs::cmp::PartialOrdSpec;
use crate::fixed::div_floor;
use crate::fixed::lemma_mean_in_range;
use crate::fixed::seq_sum;
use crate::fixed::sum_range;

verus! {

/// Whether series `a` has just crossed above series `b`: its newest value
/// lies strictly above and the one before strictly below. A tie at either
/// position is no crossing.
pub open spec fn crossed_above<T: PartialOrd>(a: Seq<T>, b: Seq<T>) -> bool {
    &&& a[a.len() - 1].partial_cmp_spec(&b[b.len() - 1]) == Some(Ordering::Greater)
    &&& a[a.len() - 2].partial_cmp_spec(&b[b.len() - 2]) == Some(Ordering::Less)
}

/// On series of amounts, a crossing is the plain comparison of the last
/// two values: the newest of `a` above that of `b`, and the one before
/// below. Equal values at either position make it false.
pub proof fn lemma_crossed_above_amounts(a: Seq<i64>, b: Seq<i64>)
    requires
        a.len() >= 2,
        b.len() >= 2,
    ensures
        i64::obeys_partial_cmp_spec(),
        crossed_above(a, b) <==> a[a.len() - 1] > b[b.len() - 1] && a[a.len() - 2] < b[b.len()
            - 2],
        a[a.len() - 1] == b[b.len() - 1] || a[a.len() - 2] == b[b.len() - 2] ==> !crossed_above(
            a,
            b,
        ),
{
}

/// Tests whether `a` has just crossed above `b`, reading the last two values
/// of each.
pub fn crossover<T: PartialOrd>(a: &Vec<T>, b: &Vec<T>) -> (crossed: bool)
    requires
        a@.len() >= 2,
        b@.len() >= 2,
    ensures
        T::obeys_partial_cmp_spec() ==> crossed == crossed_above(a@, b@),
{
    if a[a.len() - 1] > b[b.len() - 1] && a[a.len() - 2] < b[b.len() - 2] {
        true
    } else {
        false
    }
}

/// The plain moving average under the zero-padding convention. For a window
/// of at least one, the first `window - 1` values are zero, and the value at
/// each later position is the mean of the `window` raw values that end
/// there. A window longer than the series still gives its `window - 1`
/// zeros. A window of zero gives nothing.
pub open spec fn padded_average(data: Seq<i64>, window: int) -> Seq<i64> {
    if window <= 0 {
        Seq::empty()
    } else {
        Seq::new(
            (if data.len() >= window - 1 {
                data.len() as int
            } else {
                window - 1
            }) as nat,
            |i: int|
                if i < window - 1 {
                    0i64
                } else {
                    (seq_sum(data.subrange(i + 1 - window, i + 1)) / window) as i64
                },
        )
    }
}

/// The plain moving average of a series; see [`padded_average`].
pub fn moving_average(data: Vec<i64>, window: usize) -> (res: Vec<i64>)
    ensures
        res@ == padded_average(data@, window as int),
{
    let mut res: Vec<i64> = Vec::new();
    if window >= 1 {
        let mut o: usize = 0;
        while o < window - 1
            invariant
                window >= 1,
                o <= window - 1,
                res@.len() == o,
                forall|k: int| 0 <= k < o ==> res@[k] == 0i64,
            decreases window - 1 - o,
        {
            res.push(0);
            o += 1;
        }
        let mut i: usize = window - 1;
        while i < data.len()
            invariant
                window >= 1,
                window - 1 <= i,
                i <= data@.len() || i == window - 1,
                res@.len() == i,
                forall|k: int| 0 <= k < window - 1 ==> res@[k] == 0i64,
                forall|k: int|
                    window - 1 <= k < i ==> res@[k] == (seq_sum(
                        data@.subrange(k + 1 - window, k + 1),
                    ) / (window as int)) as i64,
            decreases data@.len() - i,
        {
            let total = sum_range(&data, i - (window - 1), i + 1);
            proof {
                lemma_mean_in_range(total as int, window as int);
            }
            res.push(div_floor(total, window as i128) as i64);
            i += 1;
        }
        assert(res@ =~= padded_average(data@, window as int));
    } else {
        assert(res@ =~= padded_average(data@, window as int));
    }
    res
}

} // verus!
