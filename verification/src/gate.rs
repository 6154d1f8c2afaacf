//! The admission check that stands between a window and the indicator.

use vstd::prelude::*;
use crate::window::WINDOW_CAPACITY;

verus! {

/// Whether a window of `window_length` prices holds enough history for an
/// indicator value: the lookback needs fourteen differences, hence fifteen
/// prices.
pub open spec fn enough_history(window_length: nat) -> bool {
    window_length >= WINDOW_CAPACITY
}

/// Decides whether a window of the given length justifies computing and
/// emitting a result.
pub fn should_emit(window_length: usize) -> (emit: bool)
    ensures
        emit == enough_history(window_length as nat),
        emit == (window_length >= 15),
{
    window_length >= WINDOW_CAPACITY
}

} // verus!
