//! Unique ids of model elements.
use vstd::prelude::*;

verus! {

/// Unique id of a model element.
pub type UniqueId = u64;

/// The id that no element has.
pub const NONE: u64 = 0;

/// The next unique id after the last one handed out, `last`, which it
/// replaces. Ids start from 1, so none is ever `NONE`.
pub fn next_id(last: &mut UniqueId) -> (id: UniqueId)
    requires
        *old(last) < u64::MAX,
    ensures
        id == *old(last) + 1,
        *final(last) == id,
        id != NONE,
{
    *last = *last + 1;
    *last
}

} // verus!
