//! Delivery counting and the submit gesture: parking the cursor outside
//! the window with enough deliveries banked advances the level.

use vstd::prelude::*;

use crate::level::CurrentLevel;
use crate::level::LoadLevel;

verus! {

/// How many objects have been delivered to counting collectors since the
/// tally was last reset.
#[derive(Clone, Copy, PartialEq, Eq, Structural, Debug)]
pub struct Deliveries(pub i16);

/// Number of banked deliveries that a submit gesture needs.
pub const SUBMIT_THRESHOLD: i16 = 3;

/// The submit gesture, checked once per step: while the cursor is away
/// from the window, three or more banked deliveries advance to the next
/// level and clear the tally; while the cursor is present the tally is
/// held at zero.
pub fn submitting(
    cursor_present: bool,
    deliveries: &mut Deliveries,
    current_level: &CurrentLevel,
) -> (r: Option<LoadLevel>)
    requires
        !cursor_present && old(deliveries).0 >= SUBMIT_THRESHOLD ==> current_level.0 < i16::MAX,
    ensures
        cursor_present ==> final(deliveries).0 == 0 && r is None,
        !cursor_present && old(deliveries).0 >= SUBMIT_THRESHOLD ==> final(deliveries).0 == 0 && r
            == Some(LoadLevel((current_level.0 + 1) as i16)),
        !cursor_present && old(deliveries).0 < SUBMIT_THRESHOLD ==> *final(deliveries) == *old(
            deliveries,
        ) && r is None,
{
    if !cursor_present {
        if deliveries.0 >= SUBMIT_THRESHOLD {
            deliveries.0 = 0;
            Some(LoadLevel(current_level.0 + 1))
        } else {
            None
        }
    } else {
        deliveries.0 = 0;
        None
    }
}

} // verus!
