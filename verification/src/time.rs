//! An instant shown in Beijing time (UTC+8).

use vstd::prelude::*;
use crate::timestamp::Timestamp;

verus! {

/// Seconds that UTC+8 is ahead of UTC.
pub const UTC8_OFFSET_SECONDS: i32 = 28800;

/// An instant together with the fixed offset UTC+8 it is shown in.
pub struct UTC8 {
    pub instant: Timestamp,
    /// Seconds to add to UTC to get the local time.
    pub offset_seconds: i32,
}

/// The offset `seconds` east of UTC, as seconds to add to UTC, or `None`
/// when that is not a valid offset.
///
/// Trusted: calls `chrono::FixedOffset::east_opt` and, on success,
/// `local_minus_utc`. chrono's source accepts exactly the offsets strictly
/// between -86400 and 86400 seconds and hands the offset back unchanged.
#[verifier::external_body]
fn fixed_offset_east(seconds: i32) -> (r: Option<i32>)
    ensures
        r is Some <==> -86400 < seconds < 86400,
        r matches Some(o) ==> o == seconds,
{
    match chrono::FixedOffset::east_opt(seconds) {
        Some(offset) => Some(offset.local_minus_utc()),
        None => None,
    }
}

impl UTC8 {
    /// The instant `value` (a UTC instant) shown at UTC+8.
    pub fn from(value: Timestamp) -> (r: UTC8)
        ensures
            r.instant == value,
            r.offset_seconds == UTC8_OFFSET_SECONDS,
    {
        let offset = match fixed_offset_east(8 * 3600) {
            Some(o) => o,
            None => {
                assert(false);
                0
            },
        };
        UTC8 { instant: value, offset_seconds: offset }
    }
}

} // verus!
