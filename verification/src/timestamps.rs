//! Instants as text.
use iso8601_timestamp::Timestamp;
use std::time::{Duration, SystemTime};
use vstd::prelude::*;

verus! {

/// The last instant, in milliseconds of the epoch, whose year has four digits.
pub const LAST_MS: u64 = 253_402_300_799_999;

/// An instant, in milliseconds of the epoch, as text.
pub uninterp spec fn instant_text(ms: u64) -> Seq<char>;

/// `iso8601_timestamp::Timestamp::format`, of an instant in milliseconds of the epoch, as
/// text. The text is given a name.
#[verifier::external_body]
pub(crate) fn format_instant(ms: u64) -> (r: String)
    requires
        ms <= LAST_MS,
    ensures
        r@ == instant_text(ms),
{
    Timestamp::from(SystemTime::UNIX_EPOCH + Duration::from_millis(ms)).format().to_string()
}

} // verus!
