//! Recency of the pots' movement.

use vstd::prelude::*;

verus! {

/// How many cycles ago the most recently moved pot moved: the least of the
/// given counts of the global pots and of each head's pots.
pub fn latest_pot_activity(global: &[u32; 7], heads: &[[u32; 4]; 4]) -> (latest: u32)
    ensures
        forall|i: int| 0 <= i < 7 ==> latest <= #[trigger] global@[i],
        forall|h: int, j: int| 0 <= h < 4 && 0 <= j < 4 ==> latest <= #[trigger] heads@[h]@[j],
        (exists|i: int| 0 <= i < 7 && latest == #[trigger] global@[i]) || (exists|h: int, j: int|
            0 <= h < 4 && 0 <= j < 4 && latest == #[trigger] heads@[h]@[j]),
{
    let mut latest = global[0];
    let mut i: usize = 1;
    while i < 7
        invariant
            1 <= i <= 7,
            forall|k: int| 0 <= k < i ==> latest <= #[trigger] global@[k],
            exists|k: int| 0 <= k < i && latest == #[trigger] global@[k],
        decreases 7 - i,
    {
        if global[i] < latest {
            latest = global[i];
        }
        i = i + 1;
    }
    let mut h: usize = 0;
    while h < 4
        invariant
            h <= 4,
            forall|k: int| 0 <= k < 7 ==> latest <= #[trigger] global@[k],
            forall|g: int, j: int| 0 <= g < h && 0 <= j < 4 ==> latest <= #[trigger] heads@[g]@[j],
            (exists|k: int| 0 <= k < 7 && latest == #[trigger] global@[k]) || (exists|g: int, j: int|
                0 <= g < 4 && 0 <= j < 4 && latest == #[trigger] heads@[g]@[j]),
        decreases 4 - h,
    {
        let mut j: usize = 0;
        while j < 4
            invariant
                h < 4,
                j <= 4,
                forall|k: int| 0 <= k < 7 ==> latest <= #[trigger] global@[k],
                forall|g: int, l: int| 0 <= g < h && 0 <= l < 4 ==> latest <= #[trigger] heads@[g]@[l],
                forall|l: int| 0 <= l < j ==> latest <= #[trigger] heads@[h as int]@[l],
                (exists|k: int| 0 <= k < 7 && latest == #[trigger] global@[k]) || (exists|g: int, l: int|
                    0 <= g < 4 && 0 <= l < 4 && latest == #[trigger] heads@[g]@[l]),
            decreases 4 - j,
        {
            if heads[h][j] < latest {
                latest = heads[h][j];
                assert(latest == heads@[h as int]@[j as int]);
            }
            j = j + 1;
        }
        h = h + 1;
    }
    latest
}

} // verus!
