//! Times as the database holds them: milliseconds since the epoch.
use vstd::prelude::*;

verus! {

/// The parts of a time that is stored in milliseconds: the whole seconds and
/// the milliseconds beyond them. A time before the epoch has parts only where
/// it is a whole number of seconds.
pub open spec fn time_parts(value: int) -> Option<(int, int)> {
    if value >= 0 {
        Some((value / 1000, value % 1000))
    } else if (-value) % 1000 == 0 {
        Some((-((-value) / 1000), 0))
    } else {
        None
    }
}

/// Splits a time that is stored in milliseconds into seconds and milliseconds.
pub fn decode(value: i64) -> (r: Option<(i64, u16)>)
    ensures
        match time_parts(value as int) {
            Some((seconds, millis)) => r matches Some(parts) && parts.0 == seconds && parts.1
                == millis,
            None => r is None,
        },
{
    if value >= 0 {
        Some((value / 1000, (value % 1000) as u16))
    } else if value == i64::MIN {
        None
    } else {
        let positive: i64 = -value;
        if positive % 1000 == 0 {
            Some((-(positive / 1000), 0))
        } else {
            None
        }
    }
}

} // verus!
