use vstd::prelude::*;

verus! {

/// A point in time in UTC: whole seconds since the Unix epoch, and nanoseconds
/// past that second.
#[derive(Debug, Clone, Copy, PartialEq, Eq)]
pub struct Timestamp {
    pub seconds: i64,
    pub nanos: u32,
}

/// The seconds and nanoseconds that chrono reads from a text as a UTC date
/// and time; `None` where chrono refuses the text.
pub uninterp spec fn utc_time_of(text: Seq<char>) -> Option<(i64, u32)>;

/// The text that chrono writes for a UTC time given by seconds and
/// nanoseconds; `None` where the time is out of chrono's range.
pub uninterp spec fn utc_text_of(seconds: i64, nanos: u32) -> Option<Seq<char>>;

/// Relies on chrono's `FromStr` for `DateTime<Utc>`, read back through
/// `DateTime::timestamp` and `DateTime::timestamp_subsec_nanos`.
#[verifier::external_body]
pub(crate) fn read_utc(text: &str) -> (r: Option<Timestamp>)
    ensures
        match utc_time_of(text@) {
            Some(p) => r == Some(Timestamp { seconds: p.0, nanos: p.1 }),
            None => r is None,
        },
{
    text.parse::<chrono::DateTime<chrono::Utc>>().ok().map(
        |t| Timestamp { seconds: t.timestamp(), nanos: t.timestamp_subsec_nanos() },
    )
}

/// Relies on chrono's `DateTime::from_timestamp`, written with
/// `DateTime::to_rfc3339_opts` in whole seconds or the fraction needed, with `Z`.
#[verifier::external_body]
pub(crate) fn write_utc(t: Timestamp) -> (r: Option<String>)
    ensures
        r.deep_view() == utc_text_of(t.seconds, t.nanos),
{
    chrono::DateTime::from_timestamp(t.seconds, t.nanos).map(
        |d| d.to_rfc3339_opts(chrono::SecondsFormat::AutoSi, true),
    )
}

impl Timestamp {
    /// Reads a UTC date and time.
    pub fn from_text(text: &str) -> (r: Option<Timestamp>)
        ensures
            match utc_time_of(text@) {
                Some(p) => r == Some(Timestamp { seconds: p.0, nanos: p.1 }),
                None => r is None,
            },
    {
        read_utc(text)
    }

    /// Writes the time as a request parameter.
    pub fn to_text(&self) -> (r: Option<String>)
        ensures
            r.deep_view() == utc_text_of(self.seconds, self.nanos),
    {
        write_utc(*self)
    }
}

} // verus!
