//! Usage percentages of processor and memory.

use vstd::prelude::*;

verus! {

/// `used` out of `total` in hundredths of a percent, rounded down; `0` when
/// `total` is `0`.
pub fn percent_hundredths(used: u64, total: u64) -> (r: u128)
    ensures
        total == 0 ==> r == 0,
        total > 0 ==> r == (used * 10000) / (total as int),
        used <= total ==> r <= 10000,
{
    if total == 0 {
        0
    } else {
        let r = (used as u128 * 10000) / total as u128;
        assert(used <= total ==> r <= 10000) by (nonlinear_arith)
            requires
                total > 0,
                r == (used as int * 10000) / (total as int),
        ;
        r
    }
}

} // verus!
