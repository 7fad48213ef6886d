use vstd::prelude::*;

pub mod range_math;
pub mod scale;
pub mod controls;
pub mod tracking;
pub mod mapping;

verus! {

/// Reports whether this build can raise the process priority.
pub fn set_high_priority() -> (supported: bool)
    ensures
        !supported,
{
    false
}

} // verus!
