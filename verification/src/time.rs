//! RFC 3339 rendering of the envelope timestamps.

use vstd::prelude::*;

verus! {

/// The last second the formatter is asked to render (end of year 9999).
pub const RFC3339_MAX_SECS: u64 = 253402300799;

/// The RFC 3339 rendering of a UTC timestamp in whole seconds.
pub uninterp spec fn rfc3339_of(secs: u64) -> Seq<char>;

/// Relies on chrono's `DateTime::<Utc>::from_timestamp`, which is defined on
/// this whole range, and `DateTime::to_rfc3339`: the rendering is a function
/// of the seconds value alone.
#[verifier::external_body]
pub fn rfc3339_utc(secs: u64) -> (r: String)
    requires
        secs <= RFC3339_MAX_SECS,
    ensures
        r@ == rfc3339_of(secs),
{
    match chrono::DateTime::<chrono::Utc>::from_timestamp(secs as i64, 0) {
        Some(dt) => dt.to_rfc3339(),
        None => String::new(),
    }
}

} // verus!
