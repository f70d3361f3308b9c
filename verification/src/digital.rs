//! Digital pin capabilities, in two forms: [`v2`], whose operations may fail with an error of
//! the driver, and the older [`v1`], whose operations cannot fail. What the observer is told is
//! the same in both.
//!
//! A level is told as a byte, 1 for high and 0 for low. A query "is it low?" is told by the
//! level it found, so an answer of `true` is told as 0 and an answer of `false` as 1.
use vstd::prelude::*;
use crate::event::{level, DataWord, Step};

pub mod v1;
pub mod v2;

verus! {

/// The byte by which a level is told.
pub(crate) fn level_byte(high: bool) -> (b: u8)
    ensures
        b == level(high),
{
    if high {
        1
    } else {
        0
    }
}

/// The steps of a query "is it high?" answered by `state`: the driver is called, then the
/// answer is told as a level.
pub open spec fn is_high_steps(state: bool) -> Seq<Step> {
    seq![Step::Called, Step::Told(DataWord::Byte(level(state)))]
}

/// The steps of a query "is it low?" answered by `state`: the driver is called, then the
/// opposite of the answer is told as a level.
pub open spec fn is_low_steps(state: bool) -> Seq<Step> {
    seq![Step::Called, Step::Told(DataWord::Byte(level(!state)))]
}

/// The steps of driving a pin to the level `high`: the level is told, then the driver is
/// called.
pub open spec fn set_steps(high: bool) -> Seq<Step> {
    seq![Step::Told(DataWord::Byte(level(high))), Step::Called]
}

/// The steps of a toggle: a `Toggle` event is told, then the driver is called.
pub open spec fn toggle_steps() -> Seq<Step> {
    seq![Step::Told(DataWord::Toggle), Step::Called]
}

} // verus!
