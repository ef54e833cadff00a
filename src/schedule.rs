//! Month-indexed schedules that hold their last entry forever: a glide path
//! of stock fractions, a table of monthly survival chances.
use vstd::prelude::*;

verus! {

/// Entry `t` of a non-empty schedule, or its last entry past the end.
pub open spec fn clamped<T>(entries: Seq<T>, t: int) -> T {
    if t < entries.len() {
        entries[t]
    } else {
        entries.last()
    }
}

/// The entry that applies at month `t`: entry `t`, or the last one for
/// months past the end.
pub fn value_at<T: Copy>(entries: &[T], t: usize) -> (r: T)
    requires
        entries@.len() >= 1,
    ensures
        r == clamped(entries@, t as int),
{
    if t < entries.len() {
        entries[t]
    } else {
        entries[entries.len() - 1]
    }
}

/// Past its end a schedule keeps its last entry: every month from the
/// schedule's length on reads the same value.
pub proof fn lemma_clamped_past_end<T>(entries: Seq<T>, t: int)
    requires
        entries.len() >= 1,
        t >= entries.len(),
    ensures
        clamped(entries, t) == entries[entries.len() - 1],
        clamped(entries, t) == clamped(entries, entries.len() - 1),
{
}

} // verus!
