//! What can be wrong with the headers of an envelope or an item.
use vstd::prelude::*;

verus! {

/// A header field that the envelope format defines.
#[derive(Clone, Copy, Debug, PartialEq, Eq, Structural)]
pub enum Field {
    /// Type of an item.
    Type,
    /// Length of an item's payload.
    Length,
    /// Attachment type of an item.
    AttachmentType,
    /// Content type of an item's payload.
    ContentType,
    /// File name of an item.
    Filename,
    /// Sample rates of an item.
    SampleRates,
    /// Whether metrics have been extracted from an item.
    MetricsExtracted,
    /// Event identifier of an envelope.
    EventId,
    /// DSN that an envelope is sent to.
    Dsn,
    /// Client that sent an envelope.
    Client,
    /// Protocol version of an envelope.
    Version,
    /// Origin of the request with an envelope.
    Origin,
    /// Address that an envelope came from.
    RemoteAddr,
    /// Addresses that an envelope was forwarded for.
    ForwardedFor,
    /// User agent of the request with an envelope.
    UserAgent,
    /// Data retention of an envelope.
    Retention,
    /// Time at which an envelope was sent.
    SentAt,
    /// Trace context of an envelope.
    Trace,
}

impl Field {
    /// The name under which the field stands in a header.
    pub open spec fn spec_name(self) -> Seq<char> {
        match self {
            Field::Type => "type"@,
            Field::Length => "length"@,
            Field::AttachmentType => "attachment_type"@,
            Field::ContentType => "content_type"@,
            Field::Filename => "filename"@,
            Field::SampleRates => "sample_rates"@,
            Field::MetricsExtracted => "metrics_extracted"@,
            Field::EventId => "event_id"@,
            Field::Dsn => "dsn"@,
            Field::Client => "client"@,
            Field::Version => "version"@,
            Field::Origin => "origin"@,
            Field::RemoteAddr => "remote_addr"@,
            Field::ForwardedFor => "forwarded_for"@,
            Field::UserAgent => "user_agent"@,
            Field::Retention => "retention"@,
            Field::SentAt => "sent_at"@,
            Field::Trace => "trace"@,
        }
    }

    /// The name under which the field stands in a header.
    pub fn name(self) -> (r: &'static str)
        ensures
            r@ == self.spec_name(),
    {
        match self {
            Field::Type => "type",
            Field::Length => "length",
            Field::AttachmentType => "attachment_type",
            Field::ContentType => "content_type",
            Field::Filename => "filename",
            Field::SampleRates => "sample_rates",
            Field::MetricsExtracted => "metrics_extracted",
            Field::EventId => "event_id",
            Field::Dsn => "dsn",
            Field::Client => "client",
            Field::Version => "version",
            Field::Origin => "origin",
            Field::RemoteAddr => "remote_addr",
            Field::ForwardedFor => "forwarded_for",
            Field::UserAgent => "user_agent",
            Field::Retention => "retention",
            Field::SentAt => "sent_at",
            Field::Trace => "trace",
        }
    }
}

/// What is wrong with a header.
#[derive(Clone, Copy, Debug, PartialEq, Eq, Structural)]
pub enum HeaderFault {
    /// A name or a value in the header is not JSON.
    Malformed,
    /// The header is JSON, if anything, but no object.
    NotAnObject,
    /// A brace, a colon, a comma, a name or a value is missing.
    Incomplete,
    /// A value in the header is nested too deeply.
    TooDeep,
    /// A field occurs twice.
    Repeated(Field),
    /// A required field does not occur.
    Missing(Field),
    /// The value of a field has the wrong type or is out of range.
    Invalid(Field),
}

/// A header that could not be read.
#[derive(Debug)]
pub struct HeaderError {
    /// What is wrong.
    pub fault: HeaderFault,
    /// What the JSON reader reports, where it was the reader that failed.
    pub source: Option<serde_json::Error>,
}

impl HeaderError {
    /// Whether there is a report of the JSON reader exactly where it was the reader that failed.
    pub open spec fn wf(self) -> bool {
        self.source is Some <==> self.fault == HeaderFault::Malformed
    }

    /// A fault that the JSON reader did not report.
    pub fn new(fault: HeaderFault) -> (r: Self)
        ensures
            r.fault == fault,
            r.source is None,
    {
        HeaderError { fault, source: None }
    }
}

} // verus!
