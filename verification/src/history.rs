//! Fixed-length sample histories behind the charts.
use vstd::prelude::*;

verus! {

/// `history` with `value` appended, dropping the oldest sample when that
/// makes it longer than `max_len`.
pub open spec fn bounded_push<T>(history: Seq<T>, value: T, max_len: nat) -> Seq<T> {
    let pushed = history.push(value);
    if pushed.len() > max_len {
        pushed.drop_first()
    } else {
        pushed
    }
}

/// Appends a sample to a history, dropping the oldest one when the history
/// would exceed `max_len` samples.
pub fn push_bounded<T>(history: &mut Vec<T>, value: T, max_len: usize)
    ensures
        final(history)@ == bounded_push(old(history)@, value, max_len as nat),
{
    history.push(value);
    if history.len() > max_len {
        history.remove(0);
    }
    assert(history@ =~= bounded_push(old(history)@, value, max_len as nat));
}

/// A history never grows past its limit once within it, the newest sample
/// is always last, and the samples before it are the most recent earlier
/// ones, in order.
pub proof fn law_bounded_push<T>(history: Seq<T>, value: T, max_len: nat)
    requires
        history.len() <= max_len,
    ensures
        bounded_push(history, value, max_len).len() <= max_len || max_len == 0,
        max_len > 0 ==> bounded_push(history, value, max_len).last() == value,
        history.len() < max_len ==> bounded_push(history, value, max_len) == history.push(value),
        history.len() == max_len && max_len > 0 ==> bounded_push(history, value, max_len)
            == history.drop_first().push(value),
{
    if history.len() == max_len && max_len > 0 {
        assert(history.push(value).drop_first() =~= history.drop_first().push(value));
    }
}

} // verus!
