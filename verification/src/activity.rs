//! Idle monitor: turns two consecutive readings of the input counter into
//! an activity signal.

use vstd::prelude::*;

verus! {

/// Reading of the operating system's input-event counter. Only equality
/// with the previous reading is ever interpreted.
pub type ActivityTick = usize;

/// Whether two consecutive readings show user input in between.
pub open spec fn spec_is_active(prev: ActivityTick, curr: ActivityTick) -> bool {
    curr != prev
}

/// The user counts as active exactly when the counter moved since the
/// previous reading, by any amount and in either direction.
#[verifier::when_used_as_spec(spec_is_active)]
pub fn is_active(prev: ActivityTick, curr: ActivityTick) -> (active: bool)
    ensures
        active == spec_is_active(prev, curr),
        active <==> curr != prev,
{
    curr != prev
}

} // verus!
