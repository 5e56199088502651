//! Points in time, as the telemetry measures them.

use vstd::prelude::*;

verus! {

/// A point in time: nanoseconds since the Unix epoch, UTC.
#[derive(Clone, Copy, Debug, PartialEq, Eq, Hash, Structural)]
pub struct Timestamp {
    pub nanos: i64,
}

impl View for Timestamp {
    type V = int;

    open spec fn view(&self) -> int {
        self.nanos as int
    }
}

impl DeepView for Timestamp {
    type V = int;

    open spec fn deep_view(&self) -> int {
        self@
    }
}

/// The RFC 3339 text of the point in time that lies the given number of
/// nanoseconds after the Unix epoch, as `chrono` writes it for UTC.
pub uninterp spec fn rfc3339_text(nanos: int) -> Seq<char>;

/// Calls `chrono::DateTime::from_timestamp_nanos` and, on its result,
/// `to_rfc3339`. The first accepts every `i64`; the second writes the date
/// and time with the offset `+00:00` and depends on nothing but the value,
/// so the text is given a name and nothing more is claimed of it.
#[verifier::external_body]
fn format_rfc3339(nanos: i64) -> (text: String)
    ensures
        text@ == rfc3339_text(nanos as int),
{
    chrono::DateTime::from_timestamp_nanos(nanos).to_rfc3339()
}

/// Calls `chrono::Utc::now` and converts the reading with
/// `timestamp_nanos_opt`, which returns `None` for a date outside the
/// years 1677 to 2262. Nothing is claimed of the reading. `Utc::now`
/// itself gives up on a machine whose clock stands before 1970.
#[verifier::external_body]
pub(crate) fn read_utc_clock() -> (nanos: Option<i64>) {
    chrono::Utc::now().timestamp_nanos_opt()
}

impl Timestamp {
    /// The nanoseconds that lie between `earlier` and this point in time,
    /// negative when this one is the earlier; `None` when the count does
    /// not fit an `i64`.
    pub fn nanos_since(&self, earlier: Timestamp) -> (elapsed: Option<i64>)
        ensures
            elapsed == if i64::MIN <= self@ - earlier@ <= i64::MAX {
                Some((self@ - earlier@) as i64)
            } else {
                None
            },
    {
        self.nanos.checked_sub(earlier.nanos)
    }

    /// The timestamp as RFC 3339 text.
    pub fn to_rfc3339(&self) -> (text: String)
        ensures
            text@ == rfc3339_text(self@),
    {
        format_rfc3339(self.nanos)
    }
}

} // verus!
