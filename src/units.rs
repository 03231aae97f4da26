use vstd::prelude::*;

verus! {

/// Minor units (stroops) in one XLM.
pub const ONE_XLM: i128 = 10_000_000;

/// Converts whole XLM into stroops.
pub fn to_stroops(num: u64) -> (r: i128)
    ensures
        r == num * ONE_XLM,
{
    (num as i128) * ONE_XLM
}

} // verus!
