//! Manage schedule of multiple control actions.
//!
//! This covers mapping and calibration of control inputs. While only one can
//! happen at the time, multiple types for multiple control inputs can be
//! waiting in line.

use heapless::Vec;
use vstd::prelude::*;

verus! {

#[verifier::external_type_specification]
#[verifier::external_body]
#[verifier::reject_recursive_types(T)]
pub struct ExHeaplessVec<T, const N: usize>(heapless::Vec<T, N>);

/// The most actions the queue holds at once.
pub const QUEUE_CAPACITY: usize = 8;

/// A pending operation on a control input.
#[derive(Debug, PartialEq, Eq, Clone, Copy)]
pub enum ControlAction {
    Calibrate(usize),
    Mapping(usize),
}

impl ControlAction {
    /// The control input this action is about.
    pub open spec fn control_of(self) -> usize {
        match self {
            ControlAction::Calibrate(id) => id,
            ControlAction::Mapping(id) => id,
        }
    }
}

/// What a `heapless::Vec` of actions holds, the head of the line first.
pub uninterp spec fn queued_actions(v: heapless::Vec<ControlAction, 8>) -> Seq<ControlAction>;

/// Calls `heapless::Vec::new`: the new vector holds nothing.
#[verifier::external_body]
fn actions_new() -> (v: heapless::Vec<ControlAction, 8>)
    ensures
        queued_actions(v) == Seq::<ControlAction>::empty(),
{
    Vec::new()
}

/// Calls `heapless::Vec::len`: the number of held items, which never exceeds
/// the capacity of 8.
#[verifier::external_body]
fn actions_len(v: &heapless::Vec<ControlAction, 8>) -> (n: usize)
    ensures
        n == queued_actions(*v).len(),
        n <= 8,
{
    v.len()
}

/// Calls `heapless::Vec::push`: when fewer than 8 items are held, the action
/// is appended at the end and `true` is returned; otherwise the vector stays
/// as it was and `false` is returned.
#[verifier::external_body]
fn actions_push(v: &mut heapless::Vec<ControlAction, 8>, action: ControlAction) -> (pushed: bool)
    ensures
        pushed == (queued_actions(*old(v)).len() < 8),
        pushed ==> queued_actions(*final(v)) == queued_actions(*old(v)).push(action),
        !pushed ==> queued_actions(*final(v)) == queued_actions(*old(v)),
{
    v.push(action).is_ok()
}

/// Reads the item at `index` through the slice that `heapless::Vec` derefs to.
#[verifier::external_body]
fn actions_get(v: &heapless::Vec<ControlAction, 8>, index: usize) -> (action: ControlAction)
    requires
        index < queued_actions(*v).len(),
    ensures
        action == queued_actions(*v)[index as int],
{
    v[index]
}

/// Calls `heapless::Vec::remove`: takes out the item at `index`, shifting the
/// later ones down by one.
#[verifier::external_body]
fn actions_remove(v: &mut heapless::Vec<ControlAction, 8>, index: usize) -> (action: ControlAction)
    requires
        index < queued_actions(*old(v)).len(),
    ensures
        action == queued_actions(*old(v))[index as int],
        queued_actions(*final(v)) == queued_actions(*old(v)).remove(index as int),
{
    v.remove(index)
}

/// Whether an action stays in the queue when `control_id` is dropped.
pub open spec fn keeps_action(action: ControlAction, control_id: usize) -> bool {
    action.control_of() != control_id
}

/// The line with `action` appended, unless it is full.
pub open spec fn push_capped(line: Seq<ControlAction>, action: ControlAction) -> Seq<ControlAction> {
    if line.len() < QUEUE_CAPACITY {
        line.push(action)
    } else {
        line
    }
}

/// The line without the actions of `control_id`, the rest in their order.
pub open spec fn without_control(line: Seq<ControlAction>, control_id: usize) -> Seq<ControlAction> {
    line.filter(|a: ControlAction| keeps_action(a, control_id))
}

/// Every action of the line is about one of the first `n` controls.
pub open spec fn controls_below(line: Seq<ControlAction>, n: int) -> bool {
    forall|k: int| 0 <= k < line.len() ==> #[trigger] line[k].control_of() < n
}

/// The line holds no action of control `i`.
pub open spec fn free_of(line: Seq<ControlAction>, i: usize) -> bool {
    forall|k: int| 0 <= k < line.len() ==> #[trigger] line[k].control_of() != i
}

/// A number for each action, distinct for distinct actions.
pub open spec fn action_code(action: ControlAction) -> int {
    match action {
        ControlAction::Calibrate(i) => 2 * i,
        ControlAction::Mapping(i) => 2 * i + 1,
    }
}

/// Distinct actions of the first four controls are at most eight, and at
/// most six when one of those controls has none.
pub proof fn lemma_distinct_actions_bound(line: Seq<ControlAction>, free: usize)
    requires
        controls_below(line, 4),
        line.no_duplicates(),
    ensures
        line.len() <= 8,
        free < 4 && free_of(line, free) ==> line.len() <= 6,
{
    broadcast use vstd::set::group_set_axioms;

    let codes = line.map_values(|a: ControlAction| action_code(a));
    assert forall|i: int, j: int| 0 <= i < codes.len() && 0 <= j < codes.len() && i != j implies codes[i]
        != codes[j] by {
        assert(line[i] != line[j]);
    }
    assert(codes.no_duplicates());
    codes.unique_seq_to_set();
    let allowed = vstd::set_lib::set_int_range(0, 8);
    vstd::set_lib::lemma_int_range(0, 8);
    assert forall|x: int| codes.to_set().contains(x) implies allowed.contains(x) by {
        let k = choose|k: int| 0 <= k < codes.len() && codes[k] == x;
        assert(line[k].control_of() < 4);
    }
    vstd::set_lib::lemma_len_subset(codes.to_set(), allowed);
    if free < 4 && free_of(line, free) {
        let smaller = allowed.remove(2 * free).remove(2 * free + 1);
        assert(allowed.contains(2 * free));
        assert(allowed.remove(2 * free).contains(2 * free + 1));
        assert forall|x: int| codes.to_set().contains(x) implies smaller.contains(x) by {
            let k = choose|k: int| 0 <= k < codes.len() && codes[k] == x;
            assert(line[k].control_of() != free);
            assert(line[k].control_of() < 4);
        }
        vstd::set_lib::lemma_len_subset(codes.to_set(), smaller);
    }
}

/// Dropping actions keeps a line free of duplicates.
pub proof fn lemma_filter_no_duplicates(line: Seq<ControlAction>, pred: spec_fn(ControlAction) -> bool)
    requires
        line.no_duplicates(),
    ensures
        line.filter(pred).no_duplicates(),
    decreases line.len(),
{
    reveal(Seq::filter);
    if line.len() > 0 {
        let rest = line.drop_last();
        assert(rest.no_duplicates()) by {
            assert forall|i: int, j: int| 0 <= i < rest.len() && 0 <= j < rest.len() && i != j implies rest[i]
                != rest[j] by {
                assert(rest[i] == line[i]);
                assert(rest[j] == line[j]);
            }
        }
        lemma_filter_no_duplicates(rest, pred);
        if pred(line.last()) {
            let kept = rest.filter(pred);
            if kept.contains(line.last()) {
                rest.lemma_filter_contains_rev(pred, line.last());
                let k = choose|k: int| 0 <= k < rest.len() && rest[k] == line.last();
                assert(line[k] == line[line.len() - 1]);
            }
            assert forall|i: int, j: int|
                0 <= i < kept.push(line.last()).len() && 0 <= j < kept.push(line.last()).len() && i != j
                    implies kept.push(line.last())[i] != kept.push(line.last())[j] by {
                if i < kept.len() && j < kept.len() {
                } else if i < kept.len() {
                    assert(kept.contains(kept[i]));
                } else if j < kept.len() {
                    assert(kept.contains(kept[j]));
                }
            }
        }
    }
}

/// Dropping the actions of a control keeps the line free of another one, and
/// frees it of the dropped one.
pub proof fn lemma_without_control_free(line: Seq<ControlAction>, dropped: usize, i: usize)
    ensures
        free_of(line, i) || dropped == i ==> free_of(without_control(line, dropped), i),
{
    broadcast use vstd::seq_lib::group_filter_ensures;

    let pred = |a: ControlAction| keeps_action(a, dropped);
    assert forall|k: int| 0 <= k < without_control(line, dropped).len() && (free_of(line, i) || dropped == i)
        implies #[trigger] without_control(line, dropped)[k].control_of() != i by {
        let item = without_control(line, dropped)[k];
        assert(line.filter(pred).contains(item));
        line.lemma_filter_contains_rev(pred, item);
        assert(pred(item));
    }
}

/// Each control has at most one action of each kind in a line without
/// duplicates, so after its earlier actions are dropped there is room for a
/// calibration and a mapping of it: appending them drops nothing, and the
/// line stays free of duplicates.
pub proof fn lemma_room_for_control(line: Seq<ControlAction>, i: usize, calibrate: bool, map: bool)
    requires
        controls_below(line, 4),
        line.no_duplicates(),
        i < 4,
    ensures
        ({
            let rest = without_control(line, i);
            let capped = if calibrate {
                push_capped(rest, ControlAction::Calibrate(i))
            } else {
                rest
            };
            let capped = if map {
                push_capped(capped, ControlAction::Mapping(i))
            } else {
                capped
            };
            let exact = if calibrate {
                rest.push(ControlAction::Calibrate(i))
            } else {
                rest
            };
            let exact = if map {
                exact.push(ControlAction::Mapping(i))
            } else {
                exact
            };
            &&& capped == exact
            &&& exact.no_duplicates()
            &&& controls_below(exact, 4)
        }),
{
    let rest = without_control(line, i);
    lemma_without_control_below(line, i, 4);
    lemma_without_control_free(line, i, i);
    lemma_filter_no_duplicates(line, |a: ControlAction| keeps_action(a, i));
    lemma_distinct_actions_bound(rest, i);
    let first = if calibrate {
        rest.push(ControlAction::Calibrate(i))
    } else {
        rest
    };
    assert(first.no_duplicates()) by {
        if calibrate {
            assert forall|x: int, y: int| 0 <= x < first.len() && 0 <= y < first.len() && x != y implies first[x]
                != first[y] by {
                if x < rest.len() && y < rest.len() {
                } else if x < rest.len() {
                    assert(rest[x].control_of() != i);
                } else {
                    assert(rest[y].control_of() != i);
                }
            }
        }
    }
    assert(controls_below(first, 4)) by {
        assert forall|k: int| 0 <= k < first.len() implies #[trigger] first[k].control_of() < 4 by {
            if k < rest.len() {
                assert(first[k] == rest[k]);
            }
        }
    }
    let second = if map {
        first.push(ControlAction::Mapping(i))
    } else {
        first
    };
    assert(second.no_duplicates()) by {
        if map {
            assert forall|x: int, y: int| 0 <= x < second.len() && 0 <= y < second.len() && x != y implies second[x]
                != second[y] by {
                if x < first.len() && y < first.len() {
                } else if x < first.len() {
                    if x < rest.len() {
                        assert(rest[x].control_of() != i);
                    }
                } else {
                    if y < rest.len() {
                        assert(rest[y].control_of() != i);
                    }
                }
            }
        }
    }
    assert(controls_below(second, 4)) by {
        assert forall|k: int| 0 <= k < second.len() implies #[trigger] second[k].control_of() < 4 by {
            if k < first.len() {
                assert(second[k] == first[k]);
            }
        }
    }
}

/// Dropping the actions of a control keeps the other actions' controls.
pub proof fn lemma_without_control_below(line: Seq<ControlAction>, control_id: usize, n: int)
    requires
        controls_below(line, n),
    ensures
        controls_below(without_control(line, control_id), n),
        without_control(line, control_id).len() <= line.len(),
{
    broadcast use vstd::seq_lib::group_filter_ensures;

    let pred = |a: ControlAction| keeps_action(a, control_id);
    assert forall|k: int| 0 <= k < without_control(line, control_id).len() implies
        #[trigger] without_control(line, control_id)[k].control_of() < n by {
        let item = without_control(line, control_id)[k];
        assert(line.filter(pred).contains(item));
        line.lemma_filter_contains_rev(pred, item);
    }
}

/// Decides whether `action` stays when the actions of `control_id` are dropped.
pub fn is_kept(action: &ControlAction, control_id: usize) -> (kept: bool)
    ensures
        kept == keeps_action(*action, control_id),
{
    match action {
        ControlAction::Mapping(id) | ControlAction::Calibrate(id) => *id != control_id,
    }
}

/// Calls `heapless::Vec::retain` with a predicate keeping the actions that are
/// not about `control_id`: the kept ones stay in their order.
#[verifier::external_body]
fn actions_retain_other_controls(v: &mut heapless::Vec<ControlAction, 8>, control_id: usize)
    ensures
        queued_actions(*final(v)) == queued_actions(*old(v)).filter(
            |a: ControlAction| keeps_action(a, control_id),
        ),
{
    v.retain(|a| is_kept(a, control_id))
}

/// The queue of control inputs waiting for mapping or calibration.
///
/// This queue is used to sequentially process these operations without loosing
/// new requests that may be added meanwhile.
#[derive(Debug)]
pub struct Queue {
    queue: Vec<ControlAction, 8>,
}

impl View for Queue {
    type V = Seq<ControlAction>;

    closed spec fn view(&self) -> Seq<ControlAction> {
        queued_actions(self.queue)
    }
}

impl Queue {
    pub fn new() -> (queue: Self)
        ensures
            queue@ == Seq::<ControlAction>::empty(),
    {
        Queue { queue: actions_new() }
    }

    /// Appends the action at the end of the line. The capacity covers all the
    /// actions that can be pending at once; an action beyond it is dropped.
    pub fn push(&mut self, action: ControlAction)
        ensures
            final(self)@ == push_capped(old(self)@, action),
    {
        let _ = actions_push(&mut self.queue, action);
    }

    /// Takes the action at the head of the line.
    pub fn pop(&mut self) -> (action: Option<ControlAction>)
        ensures
            old(self)@.len() == 0 ==> action.is_none() && final(self)@ == old(self)@,
            old(self)@.len() > 0 ==> action == Some(old(self)@[0]) && final(self)@
                == old(self)@.drop_first(),
    {
        if actions_len(&self.queue) == 0 {
            None
        } else {
            let action = actions_remove(&mut self.queue, 0);
            assert(old(self)@.remove(0) =~= old(self)@.drop_first());
            Some(action)
        }
    }

    /// Drops every pending action of the given control, keeping the order of
    /// the rest.
    pub fn remove_control(&mut self, control_id: usize)
        ensures
            final(self)@ == without_control(old(self)@, control_id),
    {
        actions_retain_other_controls(&mut self.queue, control_id);
    }

    pub fn len(&self) -> (n: usize)
        ensures
            n == self@.len(),
            n <= QUEUE_CAPACITY,
    {
        actions_len(&self.queue)
    }

    pub fn contains(&self, action: &ControlAction) -> (found: bool)
        ensures
            found == self@.contains(*action),
    {
        let n = actions_len(&self.queue);
        let mut i: usize = 0;
        while i < n
            invariant
                n == self@.len(),
                i <= n,
                forall|j: int| 0 <= j < i ==> self@[j] != *action,
            decreases n - i,
        {
            let candidate = actions_get(&self.queue, i);
            if same_action(&candidate, action) {
                return true;
            }
            i = i + 1;
        }
        false
    }
}

impl Default for Queue {
    fn default() -> (queue: Self)
        ensures
            queue@ == Seq::<ControlAction>::empty(),
    {
        Queue::new()
    }
}

/// Compares two actions by their variant and control.
pub fn same_action(a: &ControlAction, b: &ControlAction) -> (same: bool)
    ensures
        same == (*a == *b),
{
    match (a, b) {
        (ControlAction::Calibrate(x), ControlAction::Calibrate(y)) => *x == *y,
        (ControlAction::Mapping(x), ControlAction::Mapping(y)) => *x == *y,
        _ => false,
    }
}

} // verus!
