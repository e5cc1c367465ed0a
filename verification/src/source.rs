//! The simulated source of usage readings.

use vstd::prelude::*;
use rand::Rng;

verus! {

/// One roll in this many marks a spike.
pub const SPIKE_ODDS: u8 = 20;

/// The roll, from zero up to `SPIKE_ODDS`, that marks a spike.
pub const SPIKE_ROLL: u8 = 4;

/// Bounds, both inclusive, between which a reading is drawn: a spike when
/// the roll says so, else a small starter value for the first reading of a
/// meter, else an ordinary value.
pub open spec fn spec_reading_range(roll: u8, first: bool) -> (u8, u8) {
    if roll == SPIKE_ROLL {
        (10u8, 19u8)
    } else if first {
        (2u8, 2u8)
    } else {
        (5u8, 30u8)
    }
}

/// Whether `value` can be drawn for a meter's first reading (`first`) or for
/// a later one.
pub open spec fn plausible_reading(value: u8, first: bool) -> bool {
    exists|roll: u8|
        roll < SPIKE_ODDS && (#[trigger] spec_reading_range(roll, first)).0 <= value
            <= spec_reading_range(roll, first).1
}

/// Bounds, both inclusive, between which a reading is drawn.
pub fn reading_range(roll: u8, first: bool) -> (r: (u8, u8))
    ensures
        r == spec_reading_range(roll, first),
        r.0 <= r.1,
{
    if roll == SPIKE_ROLL {
        (10, 19)
    } else if first {
        (2, 2)
    } else {
        (5, 30)
    }
}

/// A number between `low` and `high`, both inclusive, from
/// `rand::Rng::gen_range` on `rand::thread_rng()`. Trusted: the result lies
/// within the bounds; which number it is depends on chance.
#[verifier::external_body]
fn random_between(low: u8, high: u8) -> (r: u8)
    requires
        low <= high,
    ensures
        low <= r <= high,
{
    rand::thread_rng().gen_range(low..=high)
}

/// Draws the next usage value of a meter.
pub fn draw_reading(first: bool) -> (value: u8)
    ensures
        plausible_reading(value, first),
        first ==> value == 2 || 10 <= value <= 19,
        !first ==> 5 <= value <= 30,
{
    let roll: u8 = random_between(0, SPIKE_ODDS - 1);
    let bounds: (u8, u8) = reading_range(roll, first);
    random_between(bounds.0, bounds.1)
}

} // verus!
