//! The brightness model: how long each of the ten levels keeps a column lit
//! within one row slot.

use vstd::prelude::*;

verus! {

/// The brightest level an image may ask for; the dimmest is 0 (off).
pub const MAX_BRIGHTNESS: u8 = 9;

/// Ticks in one row slot.  At 16 microseconds per tick this is 6 ms, so the
/// three rows together refresh every 18 ms.
pub const CYCLE_TICKS: u16 = 375;

/// How many of a row slot's ticks a column stays lit at a given brightness
/// level.
///
/// Each step is roughly 1.9 times the one before, so perceived brightness
/// (the eye responds roughly logarithmically) grows near-linearly with the
/// level.  Level 9 keeps the column lit for the whole slot; levels above 9
/// are shown as 9.
pub open spec fn level_duration(level: u8) -> u16 {
    if level == 0 {
        0
    } else if level == 1 {
        2
    } else if level == 2 {
        4
    } else if level == 3 {
        8
    } else if level == 4 {
        15
    } else if level == 5 {
        28
    } else if level == 6 {
        53
    } else if level == 7 {
        102
    } else if level == 8 {
        199
    } else {
        375
    }
}

/// Looks up the lit duration, in ticks, for a brightness level.
pub fn duration_of_level(level: u8) -> (d: u16)
    ensures
        d == level_duration(level),
{
    if level == 0 {
        0
    } else if level == 1 {
        2
    } else if level == 2 {
        4
    } else if level == 3 {
        8
    } else if level == 4 {
        15
    } else if level == 5 {
        28
    } else if level == 6 {
        53
    } else if level == 7 {
        102
    } else if level == 8 {
        199
    } else {
        375
    }
}

/// The duration table grows strictly with the level: a brighter level is lit
/// strictly longer.
pub proof fn lemma_duration_monotone(l1: u8, l2: u8)
    requires
        l1 < l2 <= MAX_BRIGHTNESS,
    ensures
        level_duration(l1) < level_duration(l2),
{
}

/// No level above zero is extinguished instantly: every lit level gets at
/// least one tick (in fact at least two).
pub proof fn lemma_duration_positive(level: u8)
    requires
        1 <= level,
    ensures
        2 <= level_duration(level),
{
}

/// The whole table stays within one row slot, and only level 9 (or above,
/// which is shown as 9) fills it completely.
pub proof fn lemma_duration_bounds(level: u8)
    ensures
        level_duration(level) <= CYCLE_TICKS,
        1 <= level <= 8 ==> level_duration(level) < CYCLE_TICKS,
{
}

} // verus!
