//! Lists of control inputs, such as those plugged in during the last cycle.

use vstd::prelude::*;

verus! {

/// The number of control inputs of the module.
pub const CONTROLS: usize = 4;

/// What a `heapless::Vec` of control indices holds, in order.
pub uninterp spec fn listed_controls(v: heapless::Vec<usize, 4>) -> Seq<usize>;

/// Calls `heapless::Vec::new`: the new vector holds nothing.
#[verifier::external_body]
pub fn controls_new() -> (v: heapless::Vec<usize, 4>)
    ensures
        listed_controls(v) == Seq::<usize>::empty(),
{
    heapless::Vec::new()
}

/// Calls `heapless::Vec::len`: the number of held items, at most 4.
#[verifier::external_body]
pub fn controls_len(v: &heapless::Vec<usize, 4>) -> (n: usize)
    ensures
        n == listed_controls(*v).len(),
        n <= 4,
{
    v.len()
}

/// Calls `heapless::Vec::push`: when fewer than 4 items are held, the index
/// is appended and `true` is returned; otherwise nothing changes and `false`
/// is returned.
#[verifier::external_body]
pub fn controls_push(v: &mut heapless::Vec<usize, 4>, i: usize) -> (pushed: bool)
    ensures
        pushed == (listed_controls(*old(v)).len() < 4),
        pushed ==> listed_controls(*final(v)) == listed_controls(*old(v)).push(i),
        !pushed ==> listed_controls(*final(v)) == listed_controls(*old(v)),
{
    v.push(i).is_ok()
}

/// Reads the item at `index` through the slice that `heapless::Vec` derefs to.
#[verifier::external_body]
pub fn controls_get(v: &heapless::Vec<usize, 4>, index: usize) -> (i: usize)
    requires
        index < listed_controls(*v).len(),
    ensures
        i == listed_controls(*v)[index as int],
{
    v[index]
}

/// The indices below `n`, in increasing order, whose flag is set.
pub open spec fn indices_where(flags: Seq<bool>, n: int) -> Seq<usize>
    decreases n,
{
    if n <= 0 {
        Seq::empty()
    } else {
        let before = indices_where(flags, n - 1);
        if flags[n - 1] {
            before.push((n - 1) as usize)
        } else {
            before
        }
    }
}

pub proof fn lemma_indices_where(flags: Seq<bool>, n: int)
    requires
        0 <= n <= flags.len(),
        flags.len() <= 4,
    ensures
        indices_where(flags, n).len() <= n,
        forall|k: int|
            0 <= k < indices_where(flags, n).len() ==> #[trigger] indices_where(flags, n)[k] < n,
        forall|i: usize| i < n ==> (indices_where(flags, n).contains(i) <==> flags[i as int]),
    decreases n,
{
    if n > 0 {
        lemma_indices_where(flags, n - 1);
        let before = indices_where(flags, n - 1);
        assert forall|i: usize| i < n implies (indices_where(flags, n).contains(i) <==> flags[i as int]) by {
            vstd::seq_lib::lemma_seq_contains_after_push(before, (n - 1) as usize, i);
            if i == n - 1 && before.contains(i) {
                let k = choose|k: int| 0 <= k < before.len() && before[k] == i;
                assert(before[k] < n - 1);
            }
        }
    }
}

/// Lists the controls whose flag is set, in increasing order.
pub fn controls_where(flags: &[bool; 4]) -> (list: heapless::Vec<usize, 4>)
    ensures
        listed_controls(list) == indices_where(flags@, 4),
{
    let mut list = controls_new();
    let mut i: usize = 0;
    while i < CONTROLS
        invariant
            i <= 4,
            flags@.len() == 4,
            listed_controls(list) == indices_where(flags@, i as int),
        decreases 4 - i,
    {
        proof {
            lemma_indices_where(flags@, i as int);
        }
        if flags[i] {
            let _ = controls_push(&mut list, i);
        }
        i = i + 1;
    }
    list
}

} // verus!
