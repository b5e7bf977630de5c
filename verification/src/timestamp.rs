//! Points in time.
use vstd::prelude::*;

verus! {

/// A point in time, in UTC, in the years -262143 to 262142.
#[derive(Clone, Copy, Debug, PartialEq, Eq, Hash, PartialOrd, Ord)]
pub struct Timestamp {
    secs: i64,
    nanos: u32,
}

/// What a [`Timestamp`] stands for.
pub struct TimestampView {
    /// Seconds since 1970-01-01T00:00:00Z, leap seconds not counted.
    pub secs: i64,
    /// Nanoseconds since that second, from 1 000 000 000 on in a leap second behind it.
    pub nanos: u32,
}

impl View for Timestamp {
    type V = TimestampView;

    closed spec fn view(&self) -> TimestampView {
        TimestampView { secs: self.secs, nanos: self.nanos }
    }
}

impl TimestampView {
    /// Whether there is such a time. A leap second only follows the last second of a minute.
    pub open spec fn wf(self) -> bool {
        &&& -8334601228800 <= self.secs <= 8210266876799
        &&& self.nanos < 1_000_000_000 || self.nanos < 2_000_000_000 && self.secs as int % 60 == 59
    }
}

/// The point in time that `chrono` reads from a text, if the text is one.
pub uninterp spec fn timestamp_of(text: Seq<char>) -> Option<TimestampView>;

/// The RFC 3339 text that `chrono` writes for a point in time.
pub uninterp spec fn timestamp_text(time: TimestampView) -> Seq<char>;

/// Reads a date and time in RFC 3339 form, with `FromStr` of `chrono::DateTime<Utc>`.
///
/// Which text reads as what is left to the name [`timestamp_of`]. What is read is the seconds and
/// the nanoseconds of a `chrono::DateTime<Utc>`, which keeps to the range of [`TimestampView::wf`].
#[verifier::external_body]
fn parse_time(text: &str) -> (r: Option<(i64, u32)>)
    ensures
        match r {
            Some((secs, nanos)) => {
                &&& timestamp_of(text@) == Some(TimestampView { secs, nanos })
                &&& (TimestampView { secs, nanos }).wf()
            },
            None => timestamp_of(text@) is None,
        },
{
    let time = text.parse::<chrono::DateTime<chrono::Utc>>().ok()?;
    Some((time.timestamp(), time.timestamp_subsec_nanos()))
}

/// Writes a point in time, with `chrono::DateTime::to_rfc3339_opts`.
///
/// What is written is left to the name [`timestamp_text`]. The time is read back from it: years of
/// more than four digits and those before 0 are written and read with a sign, and a leap second as
/// second 60.
#[verifier::external_body]
fn format_time(secs: i64, nanos: u32) -> (r: String)
    requires
        (TimestampView { secs, nanos }).wf(),
    ensures
        r@ == timestamp_text(TimestampView { secs, nanos }),
        timestamp_of(r@) == Some(TimestampView { secs, nanos }),
{
    let time = chrono::DateTime::<chrono::Utc>::from_timestamp(secs, nanos).unwrap();
    time.to_rfc3339_opts(chrono::SecondsFormat::AutoSi, true)
}

impl Timestamp {
    #[verifier::type_invariant]
    spec fn is_held(self) -> bool {
        self@.wf()
    }

    /// The time at the given number of seconds since 1970-01-01T00:00:00Z and of nanoseconds since
    /// that second, if there is such a time.
    pub fn from_timestamp(secs: i64, nanos: u32) -> (r: Option<Self>)
        ensures
            match r {
                Some(time) => time@ == (TimestampView { secs, nanos }) && time@.wf(),
                None => !(TimestampView { secs, nanos }).wf(),
            },
    {
        if secs < -8334601228800 || secs > 8210266876799 || nanos >= 2_000_000_000 {
            return None;
        }
        if nanos >= 1_000_000_000 && (secs + 8334601228800) % 60 != 59 {
            return None;
        }
        Some(Timestamp { secs, nanos })
    }

    /// Seconds since 1970-01-01T00:00:00Z.
    pub fn timestamp(&self) -> (r: i64)
        ensures
            r == self@.secs,
    {
        self.secs
    }

    /// Nanoseconds since the second that [`Self::timestamp`] gives.
    pub fn timestamp_subsec_nanos(&self) -> (r: u32)
        ensures
            r == self@.nanos,
    {
        self.nanos
    }

    /// Reads a date and time in RFC 3339 form.
    pub fn from_text(text: &str) -> (r: Option<Self>)
        ensures
            match r {
                Some(time) => timestamp_of(text@) == Some(time@),
                None => timestamp_of(text@) is None,
            },
    {
        match parse_time(text) {
            Some((secs, nanos)) => Some(Timestamp { secs, nanos }),
            None => None,
        }
    }

    /// Writes the point in time in RFC 3339 form, from which it is read back.
    pub fn to_text(self) -> (r: String)
        ensures
            r@ == timestamp_text(self@),
            timestamp_of(r@) == Some(self@),
    {
        proof {
            use_type_invariant(self);
        }
        format_time(self.secs, self.nanos)
    }
}

} // verus!
