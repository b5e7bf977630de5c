//! The headers of an envelope.
use crate::dsc::{
    clone_trace, lemma_context_read, trace_of, trace_value, trace_view, DynamicSamplingContext,
    Trace, TraceView,
};
use crate::dsn::{dsn_of, Dsn, DsnView};
use crate::error::{EnvelopeError, Failure};
use crate::event_id::{event_id_of, event_id_text, EventId};
use crate::fault::{Field, HeaderFault};
use crate::fields::{
    count_in, count_of, find_count, find_others, find_text, find_value, others_of, text_of,
    value_of,
};
use crate::header_map::HeaderMap;
use crate::json::{ascending, members_view, MemberView, Value, ValueView};
use crate::layout::{
    distinct, lemma_others_of, lemma_slot_take, lemma_slots_keep, lemma_slots_read, push_field,
    push_others, slot_fields, slot_members, unreserved, Slot,
};
use crate::meta::{copied_to, MetaView, PartialMeta, RequestMeta, RequestMetaView, DEFAULT_VERSION};
use crate::object::{all_keep, keeps, object_text, scans_as, write_object};
use crate::text::same_text;
use crate::timestamp::{timestamp_of, timestamp_text, Timestamp, TimestampView};
use crate::views::{opt_view, same_opt};
use std::time::Instant;
use vstd::prelude::*;

verus! {

/// The headers of an envelope, with information of type `M` on the request.
#[derive(Debug)]
pub struct EnvelopeHeaders<M = RequestMeta> {
    /// Unique identifier of the event associated to this envelope.
    ///
    /// Envelopes without contained events do not contain an event id.  This is for instance
    /// the case for session metrics.
    pub(crate) event_id: Option<EventId>,
    /// Further event information derived from a store request.
    pub(crate) meta: M,
    /// Data retention in days for the items of this envelope.
    pub(crate) retention: Option<u16>,
    /// Timestamp when the event has been sent, according to the SDK.
    pub(crate) sent_at: Option<Timestamp>,
    /// Trace context associated with the request.
    pub(crate) trace: Option<Trace>,
    /// Other attributes for forward compatibility.
    pub(crate) other: HeaderMap,
}

/// What [`EnvelopeHeaders`] stand for.
#[verifier::ext_equal]
pub struct EnvelopeHeadersView<V> {
    /// Identifier of the event.
    pub event_id: Option<EventId>,
    /// Information on the request.
    pub meta: V,
    /// Data retention in days.
    pub retention: Option<u16>,
    /// When the event has been sent.
    pub sent_at: Option<TimestampView>,
    /// Trace context.
    pub trace: TraceView,
    /// Other attributes, by ascending name.
    pub other: Seq<MemberView>,
}

impl<M: View> View for EnvelopeHeaders<M> {
    type V = EnvelopeHeadersView<M::V>;

    open(crate) spec fn view(&self) -> EnvelopeHeadersView<M::V> {
        EnvelopeHeadersView {
            event_id: self.event_id,
            meta: self.meta@,
            retention: self.retention,
            sent_at: opt_view(self.sent_at),
            trace: trace_view(self.trace),
            other: self.other@,
        }
    }
}

impl<V> EnvelopeHeadersView<V> {
    /// The same headers with other information on the request.
    pub open spec fn with_meta<W>(self, meta: W) -> EnvelopeHeadersView<W> {
        EnvelopeHeadersView {
            event_id: self.event_id,
            meta,
            retention: self.retention,
            sent_at: self.sent_at,
            trace: self.trace,
            other: self.other,
        }
    }
}

/// The fields that the headers of an envelope define.
pub open spec fn envelope_fields() -> Seq<Field> {
    seq![
        Field::EventId,
        Field::Dsn,
        Field::Client,
        Field::Version,
        Field::Origin,
        Field::RemoteAddr,
        Field::ForwardedFor,
        Field::UserAgent,
        Field::Retention,
        Field::SentAt,
        Field::Trace,
    ]
}

/// The DSN that `members` state.
pub open spec fn header_dsn_of(members: Seq<MemberView>) -> Result<Option<DsnView>, HeaderFault> {
    match text_of(members, Field::Dsn) {
        Err(fault) => Err(fault),
        Ok(None) => Ok(None),
        Ok(Some(text)) => match dsn_of(text) {
            Some(dsn) => Ok(Some(dsn)),
            None => Err(HeaderFault::Invalid(Field::Dsn)),
        },
    }
}

/// The protocol version that `members` state. `null` is none.
pub open spec fn version_of(members: Seq<MemberView>) -> Result<u16, HeaderFault> {
    match value_of(members, Field::Version) {
        Err(fault) => Err(fault),
        Ok(None) => Ok(DEFAULT_VERSION),
        Ok(Some(value)) => match count_in(value, u16::MAX as u64) {
            Some(version) => Ok(version as u16),
            None => Err(HeaderFault::Invalid(Field::Version)),
        },
    }
}

/// The addresses that `members` state that the request was forwarded for. `null` is none.
pub open spec fn forwarded_for_of(members: Seq<MemberView>) -> Result<Seq<char>, HeaderFault> {
    match value_of(members, Field::ForwardedFor) {
        Err(fault) => Err(fault),
        Ok(None) => Ok(Seq::empty()),
        Ok(Some(ValueView::String(text))) => Ok(text),
        Ok(Some(_)) => Err(HeaderFault::Invalid(Field::ForwardedFor)),
    }
}

/// What `members` state of the request, or what is wrong with it.
pub open spec fn meta_of(members: Seq<MemberView>) -> Result<MetaView, HeaderFault> {
    match (
        header_dsn_of(members),
        text_of(members, Field::Client),
        version_of(members),
        text_of(members, Field::Origin),
        text_of(members, Field::RemoteAddr),
        forwarded_for_of(members),
        text_of(members, Field::UserAgent),
    ) {
        (Err(fault), _, _, _, _, _, _) => Err(fault),
        (_, Err(fault), _, _, _, _, _) => Err(fault),
        (_, _, Err(fault), _, _, _, _) => Err(fault),
        (_, _, _, Err(fault), _, _, _) => Err(fault),
        (_, _, _, _, Err(fault), _, _) => Err(fault),
        (_, _, _, _, _, Err(fault), _) => Err(fault),
        (_, _, _, _, _, _, Err(fault)) => Err(fault),
        (
            Ok(dsn),
            Ok(client),
            Ok(version),
            Ok(origin),
            Ok(remote_addr),
            Ok(forwarded_for),
            Ok(user_agent),
        ) => Ok(
            MetaView { dsn, client, version, origin, remote_addr, forwarded_for, user_agent },
        ),
    }
}

/// The event identifier that `members` state.
pub open spec fn header_event_id_of(members: Seq<MemberView>) -> Result<
    Option<EventId>,
    HeaderFault,
> {
    match text_of(members, Field::EventId) {
        Err(fault) => Err(fault),
        Ok(None) => Ok(None),
        Ok(Some(text)) => match event_id_of(text) {
            Some(id) => Ok(Some(EventId(id))),
            None => Err(HeaderFault::Invalid(Field::EventId)),
        },
    }
}

/// The time of sending that `members` state.
pub open spec fn sent_at_of(members: Seq<MemberView>) -> Result<
    Option<TimestampView>,
    HeaderFault,
> {
    match text_of(members, Field::SentAt) {
        Err(fault) => Err(fault),
        Ok(None) => Ok(None),
        Ok(Some(text)) => match timestamp_of(text) {
            Some(time) => Ok(Some(time)),
            None => Err(HeaderFault::Invalid(Field::SentAt)),
        },
    }
}

/// The envelope headers that `members` state, or what is wrong with them.
///
/// No field is required, and none may occur twice.
pub open spec fn headers_of(members: Seq<MemberView>) -> Result<
    EnvelopeHeadersView<MetaView>,
    HeaderFault,
> {
    match (
        header_event_id_of(members),
        meta_of(members),
        count_of(members, Field::Retention, u16::MAX as u64),
        sent_at_of(members),
        trace_of(members),
    ) {
        (Err(fault), _, _, _, _) => Err(fault),
        (_, Err(fault), _, _, _) => Err(fault),
        (_, _, Err(fault), _, _) => Err(fault),
        (_, _, _, Err(fault), _) => Err(fault),
        (_, _, _, _, Err(fault)) => Err(fault),
        (Ok(event_id), Ok(meta), Ok(retention), Ok(sent_at), Ok(trace)) => Ok(
            EnvelopeHeadersView {
                event_id,
                meta,
                retention: match retention {
                    Some(retention) => Some(retention as u16),
                    None => None,
                },
                sent_at,
                trace,
                other: others_of(members, envelope_fields()),
            },
        ),
    }
}

/// The envelope headers that `members` state, where they must state the DSN.
pub open spec fn full_headers_of(members: Seq<MemberView>) -> Result<
    EnvelopeHeadersView<MetaView>,
    HeaderFault,
> {
    match headers_of(members) {
        Err(fault) => Err(fault),
        Ok(headers) => if headers.meta.dsn is None {
            Err(HeaderFault::Missing(Field::Dsn))
        } else {
            Ok(headers)
        },
    }
}

/// A text as a value, if there is one.
pub open spec fn opt_text(text: Option<Seq<char>>) -> Option<ValueView> {
    match text {
        Some(text) => Some(ValueView::String(text)),
        None => None,
    }
}

/// The fields as they stand in the headers of an envelope, in the order in which they are written.
pub open spec fn envelope_slots(headers: EnvelopeHeadersView<MetaView>) -> Seq<Slot> {
    seq![
        (
            Field::EventId,
            match headers.event_id {
                Some(id) => Some(ValueView::String(event_id_text(id.0))),
                None => None,
            },
        ),
        (
            Field::Dsn,
            match headers.meta.dsn {
                Some(dsn) => Some(ValueView::String(dsn.text)),
                None => None,
            },
        ),
        (Field::Client, opt_text(headers.meta.client)),
        (Field::Version, Some(ValueView::U64(headers.meta.version as u64))),
        (Field::Origin, opt_text(headers.meta.origin)),
        (Field::RemoteAddr, opt_text(headers.meta.remote_addr)),
        (
            Field::ForwardedFor,
            if headers.meta.forwarded_for.len() > 0 {
                Some(ValueView::String(headers.meta.forwarded_for))
            } else {
                None
            },
        ),
        (Field::UserAgent, opt_text(headers.meta.user_agent)),
        (
            Field::Retention,
            match headers.retention {
                Some(retention) => Some(ValueView::U64(retention as u64)),
                None => None,
            },
        ),
        (
            Field::SentAt,
            match headers.sent_at {
                Some(time) => Some(ValueView::String(timestamp_text(time))),
                None => None,
            },
        ),
        (Field::Trace, trace_value(headers.trace)),
    ]
}

/// The members that are written for the headers of an envelope. Fields without a value are left
/// out.
pub open spec fn envelope_members(headers: EnvelopeHeadersView<MetaView>) -> Seq<MemberView> {
    slot_members(envelope_slots(headers)) + headers.other
}

impl EnvelopeHeadersView<MetaView> {
    /// Whether the texts for the event identifier, the DSN and the time of sending are read back,
    /// and names ascend.
    pub open spec fn wf(self) -> bool {
        &&& self.event_id matches Some(id) ==> event_id_of(event_id_text(id.0)) == Some(id.0)
        &&& self.meta.dsn matches Some(dsn) ==> dsn_of(dsn.text) == Some(dsn)
        &&& self.sent_at matches Some(time) ==> timestamp_of(timestamp_text(time)) == Some(time)
        &&& self.trace matches Some(Ok(values)) ==> ascending(values)
        &&& ascending(self.other)
    }

    /// Whether the headers are read back from what is written for them.
    ///
    /// No other attribute has the name of a field, and JSON text gives every value back.
    pub open spec fn survives(self) -> bool {
        &&& self.trace matches Some(Ok(values)) ==> keeps(ValueView::Object(values))
        &&& all_keep(self.other)
        &&& unreserved(self.other, envelope_fields())
    }

    /// The headers as they are read back: without a trace context that could not be read.
    pub open spec fn as_read(self) -> Self {
        EnvelopeHeadersView {
            trace: if self.trace matches Some(Err(_)) {
                None
            } else {
                self.trace
            },
            ..self
        }
    }
}

/// Headers are read back from the members that are written for them.
pub proof fn lemma_headers_read(headers: EnvelopeHeadersView<MetaView>)
    requires
        headers.wf(),
        headers.survives(),
    ensures
        headers_of(envelope_members(headers)) == Ok::<_, HeaderFault>(headers.as_read()),
        all_keep(envelope_members(headers)),
{
    let slots = envelope_slots(headers);
    let members = envelope_members(headers);
    assert(slot_fields(slots) =~= envelope_fields());
    assert(distinct(slots));
    lemma_slots_read(slots, headers.other);
    lemma_slots_keep(slots, headers.other);
    if let Some(Ok(values)) = headers.trace {
        lemma_context_read(values);
    }
    assert(value_of(members, slots[0].0) == Ok::<_, HeaderFault>(slots[0].1));
    assert(value_of(members, slots[1].0) == Ok::<_, HeaderFault>(slots[1].1));
    assert(value_of(members, slots[2].0) == Ok::<_, HeaderFault>(slots[2].1));
    assert(value_of(members, slots[3].0) == Ok::<_, HeaderFault>(slots[3].1));
    assert(value_of(members, slots[4].0) == Ok::<_, HeaderFault>(slots[4].1));
    assert(value_of(members, slots[5].0) == Ok::<_, HeaderFault>(slots[5].1));
    assert(value_of(members, slots[6].0) == Ok::<_, HeaderFault>(slots[6].1));
    assert(value_of(members, slots[7].0) == Ok::<_, HeaderFault>(slots[7].1));
    assert(value_of(members, slots[8].0) == Ok::<_, HeaderFault>(slots[8].1));
    assert(value_of(members, slots[9].0) == Ok::<_, HeaderFault>(slots[9].1));
    assert(value_of(members, slots[10].0) == Ok::<_, HeaderFault>(slots[10].1));
    if headers.meta.forwarded_for.len() == 0 {
        assert(headers.meta.forwarded_for =~= Seq::empty());
    }
}

/// The headers that come of an envelope's own and the information on the request with it, or in
/// what they contradict each other.
///
/// An origin that the envelope states must be that of the request. So must the project id and the
/// public key in a DSN that it states.
pub open spec fn completed(
    headers: EnvelopeHeadersView<MetaView>,
    request: MetaView,
) -> Result<EnvelopeHeadersView<MetaView>, Failure> {
    if headers.meta.origin is Some && headers.meta.origin != request.origin {
        Err(Failure::HeaderMismatch("origin"@))
    } else if headers.meta.dsn is Some && headers.meta.dsn->0.project_id
        != request.dsn->0.project_id {
        Err(Failure::HeaderMismatch("project id"@))
    } else if headers.meta.dsn is Some && headers.meta.dsn->0.public_key
        != request.dsn->0.public_key {
        Err(Failure::HeaderMismatch("public key"@))
    } else {
        Ok(headers.with_meta(copied_to(headers.meta, request)))
    }
}

/// Headers that have been read are read back once more, if JSON text gives their values back,
/// except that a trace context which could not be read is dropped.
pub proof fn lemma_read_headers_survive(
    members: Seq<MemberView>,
    headers: EnvelopeHeadersView<MetaView>,
)
    requires
        headers_of(members) == Ok::<_, HeaderFault>(headers),
        headers.trace matches Some(Ok(values)) ==> keeps(ValueView::Object(values)),
        all_keep(headers.other),
    ensures
        headers.survives(),
        headers.as_read().as_read() == headers.as_read(),
{
    lemma_others_of(members, envelope_fields());
}

/// The information on a request in an envelope's own headers completes these to themselves.
pub proof fn lemma_completed_by_itself(headers: EnvelopeHeadersView<MetaView>)
    ensures
        completed(headers, headers.meta) == Ok::<_, Failure>(headers),
{
    if headers.meta.forwarded_for.len() == 0 {
        assert(headers.meta.forwarded_for =~= Seq::empty());
    }
}

/// An envelope that is not refused gets the DSN and the origin of the request, whatever its own
/// headers say.
pub proof fn lemma_completed_as_requested(
    headers: EnvelopeHeadersView<MetaView>,
    request: MetaView,
)
    requires
        completed(headers, request) is Ok,
    ensures
        completed(headers, request)->Ok_0.meta.dsn == request.dsn,
        completed(headers, request)->Ok_0.meta.origin == request.origin,
{
}

impl EnvelopeHeaders<PartialMeta> {
    /// Reads the headers of an envelope from the members of a JSON object.
    pub fn from_members(members: &Vec<(String, Value)>) -> (r: Result<Self, HeaderFault>)
        ensures
            match r {
                Ok(headers) => headers_of(members_view(members@)) == Ok::<_, HeaderFault>(headers@),
                Err(fault) => {
                    &&& headers_of(members_view(members@)) == Err::<
                        EnvelopeHeadersView<MetaView>,
                        _,
                    >(fault)
                    &&& fault != HeaderFault::Malformed
                },
            },
    {
        let event_id = match find_text(members, Field::EventId) {
            Ok(None) => None,
            Ok(Some(text)) => match EventId::from_text(text.as_str()) {
                Some(id) => Some(id),
                None => return Err(HeaderFault::Invalid(Field::EventId)),
            },
            Err(fault) => return Err(fault),
        };
        let meta = match read_meta(members) {
            Ok(meta) => meta,
            Err(fault) => return Err(fault),
        };
        let retention = match find_count(members, Field::Retention, u16::MAX as u64) {
            Ok(Some(retention)) => Some(retention as u16),
            Ok(None) => None,
            Err(fault) => return Err(fault),
        };
        let sent_at = match find_text(members, Field::SentAt) {
            Ok(None) => None,
            Ok(Some(text)) => match Timestamp::from_text(text.as_str()) {
                Some(time) => Some(time),
                None => return Err(HeaderFault::Invalid(Field::SentAt)),
            },
            Err(fault) => return Err(fault),
        };
        let trace = match find_value(members, Field::Trace) {
            Ok(None) => None,
            Ok(Some(Value::Null)) => None,
            Ok(Some(Value::Object(values))) => {
                proof {
                    crate::json::lemma_object_view(*values);
                }
                Some(Ok(DynamicSamplingContext::from_members(values)))
            },
            Ok(Some(_)) => Some(Err(HeaderFault::Invalid(Field::Trace))),
            Err(fault) => return Err(fault),
        };
        let fields = vec![
            Field::EventId,
            Field::Dsn,
            Field::Client,
            Field::Version,
            Field::Origin,
            Field::RemoteAddr,
            Field::ForwardedFor,
            Field::UserAgent,
            Field::Retention,
            Field::SentAt,
            Field::Trace,
        ];
        assert(fields@ =~= envelope_fields());
        let other = find_others(members, fields.as_slice());
        Ok(EnvelopeHeaders { event_id, meta, retention, sent_at, trace, other })
    }

    /// Turns the headers into those of an envelope whose handling started at `start_time`, if they
    /// state the DSN.
    pub fn into_full(self, start_time: Instant) -> (r: Option<EnvelopeHeaders>)
        ensures
            match r {
                Some(headers) => self@.meta.dsn is Some && headers@ == self@.with_meta(
                    RequestMetaView { fields: self@.meta, start_time },
                ),
                None => self@.meta.dsn is None,
            },
    {
        match self.meta.into_request(start_time) {
            None => None,
            Some(meta) => Some(
                EnvelopeHeaders {
                    event_id: self.event_id,
                    meta,
                    retention: self.retention,
                    sent_at: self.sent_at,
                    trace: self.trace,
                    other: self.other,
                },
            ),
        }
    }

    /// Validate and apply request meta into partial envelope headers.
    ///
    /// If there is a mismatch, `EnvelopeError::HeaderMismatch` is returned.
    ///
    /// This method validates the following headers:
    ///  - DSN project (required)
    ///  - DSN public key (required)
    ///  - Origin (if present)
    pub fn complete(self, request_meta: RequestMeta) -> (r: Result<EnvelopeHeaders, EnvelopeError>)
        ensures
            match r {
                Ok(headers) => {
                    &&& completed(self@, request_meta@.fields) == Ok::<_, Failure>(
                        headers@.with_meta(headers@.meta.fields),
                    )
                    &&& headers@.meta.start_time == request_meta@.start_time
                },
                Err(error) => completed(self@, request_meta@.fields) == Err::<
                    EnvelopeHeadersView<MetaView>,
                    _,
                >(error@),
            },
    {
        if self.meta.origin.is_some() && !same_opt(&self.meta.origin, &request_meta.origin) {
            return Err(EnvelopeError::HeaderMismatch("origin"));
        }
        if let Some(dsn) = &self.meta.dsn {
            if dsn.project_id() != request_meta.dsn().project_id() {
                return Err(EnvelopeError::HeaderMismatch("project id"));
            }
            if !same_text(dsn.public_key(), request_meta.dsn().public_key()) {
                return Err(EnvelopeError::HeaderMismatch("public key"));
            }
        }
        Ok(
            EnvelopeHeaders {
                event_id: self.event_id,
                meta: self.meta.copy_to(request_meta),
                retention: self.retention,
                sent_at: self.sent_at,
                trace: self.trace,
                other: self.other,
            },
        )
    }
}

/// Reads what the members of a JSON object state of the request.
fn read_meta(members: &Vec<(String, Value)>) -> (r: Result<PartialMeta, HeaderFault>)
    ensures
        match r {
            Ok(meta) => meta_of(members_view(members@)) == Ok::<_, HeaderFault>(meta@),
            Err(fault) => meta_of(members_view(members@)) == Err::<MetaView, _>(fault),
        },
{
    let dsn = match find_text(members, Field::Dsn) {
        Ok(None) => None,
        Ok(Some(text)) => match Dsn::parse(text.as_str()) {
            Some(dsn) => Some(dsn),
            None => return Err(HeaderFault::Invalid(Field::Dsn)),
        },
        Err(fault) => return Err(fault),
    };
    let client = match find_text(members, Field::Client) {
        Ok(client) => client,
        Err(fault) => return Err(fault),
    };
    let version = match read_version(members) {
        Ok(version) => version,
        Err(fault) => return Err(fault),
    };
    let origin = match find_text(members, Field::Origin) {
        Ok(origin) => origin,
        Err(fault) => return Err(fault),
    };
    let remote_addr = match find_text(members, Field::RemoteAddr) {
        Ok(remote_addr) => remote_addr,
        Err(fault) => return Err(fault),
    };
    let forwarded_for = match find_value(members, Field::ForwardedFor) {
        Ok(None) => String::new(),
        Ok(Some(Value::String(text))) => text.clone(),
        Ok(Some(_)) => return Err(HeaderFault::Invalid(Field::ForwardedFor)),
        Err(fault) => return Err(fault),
    };
    let user_agent = match find_text(members, Field::UserAgent) {
        Ok(user_agent) => user_agent,
        Err(fault) => return Err(fault),
    };
    Ok(PartialMeta { dsn, client, version, origin, remote_addr, forwarded_for, user_agent })
}

/// Reads the protocol version.
fn read_version(members: &Vec<(String, Value)>) -> (r: Result<u16, HeaderFault>)
    ensures
        r == version_of(members_view(members@)),
{
    match find_value(members, Field::Version) {
        Err(fault) => Err(fault),
        Ok(None) => Ok(DEFAULT_VERSION),
        Ok(Some(Value::U64(n))) => {
            if *n <= u16::MAX as u64 {
                Ok(*n as u16)
            } else {
                Err(HeaderFault::Invalid(Field::Version))
            }
        },
        Ok(Some(Value::I64(n))) => {
            if 0 <= *n && *n <= u16::MAX as i64 {
                Ok(*n as u16)
            } else {
                Err(HeaderFault::Invalid(Field::Version))
            }
        },
        Ok(Some(_)) => Err(HeaderFault::Invalid(Field::Version)),
    }
}

/// A text as a value, if there is one.
fn text_value(text: &Option<String>) -> (r: Option<Value>)
    ensures
        opt_view(r) == opt_text(opt_view(*text)),
{
    match text {
        Some(text) => Some(Value::String(text.clone())),
        None => None,
    }
}

impl EnvelopeHeaders {
    /// The members to write for the headers.
    fn members(&self) -> (r: Vec<(String, Value)>)
        ensures
            members_view(r@) == envelope_members(self@.with_meta(self@.meta.fields)),
            self@.with_meta(self@.meta.fields).wf(),
    {
        let ghost headers = self@.with_meta(self@.meta.fields);
        let ghost slots = envelope_slots(headers);
        let mut members: Vec<(String, Value)> = Vec::new();
        assert(members_view(members@) =~= slot_members(slots.take(0)));
        let event_id = match self.event_id {
            Some(id) => Some(Value::String(id.to_text())),
            None => None,
        };
        push_field(&mut members, Field::EventId, event_id);
        let dsn = Some(Value::String(self.meta.dsn.as_str().to_owned()));
        push_field(&mut members, Field::Dsn, dsn);
        push_field(&mut members, Field::Client, text_value(&self.meta.client));
        push_field(&mut members, Field::Version, Some(Value::U64(self.meta.version as u64)));
        push_field(&mut members, Field::Origin, text_value(&self.meta.origin));
        push_field(&mut members, Field::RemoteAddr, text_value(&self.meta.remote_addr));
        let forwarded_for = if self.meta.forwarded_for.as_str().is_empty() {
            None
        } else {
            Some(Value::String(self.meta.forwarded_for.clone()))
        };
        push_field(&mut members, Field::ForwardedFor, forwarded_for);
        push_field(&mut members, Field::UserAgent, text_value(&self.meta.user_agent));
        let retention = match self.retention {
            Some(retention) => Some(Value::U64(retention as u64)),
            None => None,
        };
        push_field(&mut members, Field::Retention, retention);
        let sent_at = match self.sent_at {
            Some(time) => Some(Value::String(time.to_text())),
            None => None,
        };
        push_field(&mut members, Field::SentAt, sent_at);
        let trace = match &self.trace {
            None => None,
            Some(Err(_)) => Some(Value::Null),
            Some(Ok(dsc)) => Some(dsc.to_value()),
        };
        push_field(&mut members, Field::Trace, trace);
        proof {
            lemma_slot_take(slots, 0);
            lemma_slot_take(slots, 1);
            lemma_slot_take(slots, 2);
            lemma_slot_take(slots, 3);
            lemma_slot_take(slots, 4);
            lemma_slot_take(slots, 5);
            lemma_slot_take(slots, 6);
            lemma_slot_take(slots, 7);
            lemma_slot_take(slots, 8);
            lemma_slot_take(slots, 9);
            lemma_slot_take(slots, 10);
            assert(slots.take(11) =~= slots);
        }
        push_others(&mut members, &self.other);
        members
    }

    /// Writes the headers as a JSON object, without line breaks.
    ///
    /// Reading gives the headers back where they survive it. A trace context that could not be
    /// read is left out then.
    pub fn to_text(&self) -> (r: Vec<u8>)
        ensures
            r@ == object_text(envelope_members(self@.with_meta(self@.meta.fields))),
            !r@.contains(0x0a),
            self@.with_meta(self@.meta.fields).survives() ==> scans_as(
                r@,
                envelope_members(self@.with_meta(self@.meta.fields)),
            ),
            self@.with_meta(self@.meta.fields).survives() ==> full_headers_of(
                envelope_members(self@.with_meta(self@.meta.fields)),
            ) == Ok::<_, HeaderFault>(self@.with_meta(self@.meta.fields).as_read()),
    {
        let members = self.members();
        let text = write_object(&members);
        proof {
            let headers = self@.with_meta(self@.meta.fields);
            if headers.survives() {
                lemma_headers_read(headers);
            }
        }
        text
    }
}

impl<M> EnvelopeHeaders<M> {
    /// The information on the request as it is held.
    pub open(crate) spec fn held_meta(self) -> M {
        self.meta
    }
}

impl<M: Clone + View> Clone for EnvelopeHeaders<M> {
    fn clone(&self) -> (r: Self)
        ensures
            call_ensures(<M as Clone>::clone, (&self.held_meta(),), r.held_meta()),
            self@.meta == self.held_meta()@,
            r@ == self@.with_meta(r.held_meta()@),
    {
        EnvelopeHeaders {
            event_id: self.event_id,
            meta: self.meta.clone(),
            retention: self.retention,
            sent_at: self.sent_at,
            trace: clone_trace(&self.trace),
            other: self.other.clone(),
        }
    }
}

} // verus!
