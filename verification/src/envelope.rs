//! Envelopes: headers and a list of items.
use crate::attachment_type::attachment_type_canonical;
use crate::content_type::content_type_canonical;
use crate::dsc::DynamicSamplingContext;
use crate::error::{EnvelopeError, Failure};
use crate::event_id::{is_random_uuid, EventId};
use crate::fault::{Field, HeaderError, HeaderFault};
use crate::header_map::{find, place, HeaderMap};
use crate::headers::{headers_of, EnvelopeHeaders, EnvelopeHeadersView};
use crate::item::{requires_event_of, Item, ItemView};
use crate::item_headers::ItemHeaders;
use crate::item_type::item_type_canonical;
use crate::items::{item_views, items_seq, ItemIter, ItemIterMut, Items};
use crate::json::Value;
use crate::meta::{MetaView, PartialMeta, RequestMeta, RequestMetaView};
use crate::object::{read_object, scan_object, ObjectScan};
use crate::payload::{as_slice, bytes_of, slice};
use crate::timestamp::Timestamp;
use crate::views::opt_view;
use crate::wire::{
    envelope_text, item_behind, items_as_read, lemma_line_end, lemma_line_end_at, line_end,
    scan_envelope, scan_headers, scan_item, scan_items, scan_request, terminated,
};
use bytes::Bytes;
use std::time::Instant;
use vstd::prelude::*;

verus! {

/// The data retention in days where an envelope states none.
pub const DEFAULT_EVENT_RETENTION: u16 = 90;

/// An envelope: headers and a list of items.
#[derive(Debug)]
pub struct Envelope {
    pub(crate) headers: EnvelopeHeaders,
    pub(crate) items: Items,
}

/// What an [`Envelope`] stands for.
#[verifier::ext_equal]
pub struct EnvelopeView {
    /// The headers.
    pub headers: EnvelopeHeadersView<RequestMetaView>,
    /// The items, in order.
    pub items: Seq<Item>,
}

impl View for Envelope {
    type V = EnvelopeView;

    open(crate) spec fn view(&self) -> EnvelopeView {
        EnvelopeView { headers: self.headers@, items: items_seq(self.items) }
    }
}

impl EnvelopeView {
    /// The headers without what does not stand in them: when handling the request started.
    pub open spec fn fields(self) -> EnvelopeHeadersView<MetaView> {
        self.headers.with_meta(self.headers.meta.fields)
    }

    /// The bytes that are written for the envelope.
    pub open spec fn text(self) -> Seq<u8> {
        envelope_text(self.fields(), item_views(self.items))
    }

    /// Whether the envelope is read back from what is written for it.
    pub open spec fn survives(self) -> bool {
        &&& self.fields().survives()
        &&& forall|i: int| 0 <= i < self.items.len() ==> (#[trigger] self.items[i])@.survives()
    }

    /// The envelope as it is read back.
    pub open spec fn as_read(self) -> (EnvelopeHeadersView<MetaView>, Seq<ItemView>) {
        (self.fields().as_read(), items_as_read(item_views(self.items)))
    }

    /// Whether reading gives the envelope back from what is written for it: on its own, without the
    /// last line break, and with a request that its headers describe.
    pub open spec fn reads_back(self) -> bool {
        &&& scan_envelope(self.text()) == Ok::<_, Failure>(self.as_read())
        &&& scan_envelope(self.text().drop_last()) == Ok::<_, Failure>(self.as_read())
        &&& scan_request(self.text(), self.fields().meta) == Ok::<_, Failure>(self.as_read())
    }

    /// Whether one of the items requires an event.
    pub open spec fn requires_event(self) -> bool {
        exists|i: int|
            0 <= i < self.items.len() && requires_event_of((#[trigger] self.items[i])@.headers.ty)
    }
}

/// An envelope with nothing but the fields that the format defines, no trace context and no sample
/// rates is read back, as long as its types are what their names say.
pub proof fn lemma_plain_envelope_survives(envelope: EnvelopeView)
    requires
        envelope.headers.other.len() == 0,
        envelope.headers.trace is None,
        forall|i: int|
            0 <= i < envelope.items.len() ==> {
                let headers = (#[trigger] envelope.items[i])@.headers;
                &&& headers.other.len() == 0
                &&& headers.sample_rates is None
                &&& item_type_canonical(headers.ty)
                &&& headers.attachment_type matches Some(ty) ==> attachment_type_canonical(ty)
                &&& headers.content_type matches Some(ty) ==> content_type_canonical(ty)
            },
    ensures
        envelope.survives(),
{
}

/// Whether `pred` may judge `items[at]` to be the first that it accepts.
pub open spec fn first_match<F: FnMut(&Item) -> bool>(pred: F, items: Seq<Item>, at: int) -> bool {
    &&& 0 <= at < items.len()
    &&& call_ensures(pred, (&items[at],), true)
    &&& forall|j: int| 0 <= j < at ==> call_ensures(pred, (&#[trigger] items[j],), false)
}

/// Whether `pred` may judge to accept none of `items`.
pub open spec fn no_match<F: FnMut(&Item) -> bool>(pred: F, items: Seq<Item>) -> bool {
    forall|j: int| 0 <= j < items.len() ==> call_ensures(pred, (&#[trigger] items[j],), false)
}

/// Finds the first item that `pred` accepts.
fn position<F>(items: &[Item], mut pred: F) -> (r: Option<usize>) where F: FnMut(&Item) -> bool
    requires
        forall|item: &Item| #[trigger] call_requires(pred, (item,)),
    ensures
        match r {
            Some(at) => first_match(pred, items@, at as int),
            None => no_match(pred, items@),
        },
{
    let ghost given = pred;
    let mut found: Option<usize> = None;
    let mut i: usize = 0;
    while i < items.len() && found.is_none()
        invariant
            i <= items@.len(),
            pred == given,
            forall|item: &Item| #[trigger] call_requires(pred, (item,)),
            match found {
                Some(at) => first_match(given, items@, at as int),
                None => forall|j: int|
                    0 <= j < i ==> call_ensures(given, (&#[trigger] items@[j],), false),
            },
        decreases items@.len() - i,
    {
        if pred(&items[i]) {
            found = Some(i);
        }
        i += 1;
    }
    found
}

impl Envelope {
    /// Creates an envelope from request information.
    pub fn from_request(event_id: Option<EventId>, meta: RequestMeta) -> (r: Box<Self>)
        ensures
            r@ == (EnvelopeView {
                headers: EnvelopeHeadersView {
                    event_id,
                    meta: meta@,
                    retention: None,
                    sent_at: None,
                    trace: None,
                    other: Seq::empty(),
                },
                items: Seq::empty(),
            }),
    {
        Box::new(
            Envelope {
                headers: EnvelopeHeaders {
                    event_id,
                    meta,
                    retention: None,
                    sent_at: None,
                    trace: None,
                    other: HeaderMap::new(),
                },
                items: Items::new(),
            },
        )
    }

    /// Parses an envelope from bytes.
    pub fn parse_bytes(bytes: Bytes) -> (r: Result<Box<Self>, EnvelopeError>)
        ensures
            match r {
                Ok(envelope) => scan_envelope(bytes_of(bytes)) == Ok::<_, Failure>(
                    (envelope@.fields(), item_views(envelope@.items)),
                ),
                Err(error) => {
                    &&& scan_envelope(bytes_of(bytes)) == Err::<
                        (EnvelopeHeadersView<MetaView>, Seq<ItemView>),
                        _,
                    >(error@)
                    &&& error.wf()
                },
            },
    {
        let (headers, offset) = match Self::parse_headers(as_slice(&bytes)) {
            Ok(parsed) => parsed,
            Err(error) => return Err(error),
        };
        match Self::parse_items(&bytes, offset) {
            Ok(items) => Ok(Box::new(Envelope { headers, items })),
            Err(error) => Err(error),
        }
    }

    /// Parses an envelope taking into account a request.
    ///
    /// This method is intended to be used when parsing an envelope that was sent as part of a web
    /// request. It validates that request headers are in line with the envelope's headers.
    ///
    /// If no event id is provided explicitly, one is created on the fly. Which random UUID that is,
    /// is left open.
    pub fn parse_request(bytes: Bytes, request_meta: RequestMeta) -> (r: Result<
        Box<Self>,
        EnvelopeError,
    >)
        ensures
            match r {
                Ok(envelope) => {
                    &&& scan_request(bytes_of(bytes), request_meta@.fields) matches Ok(
                        (headers, items),
                    )
                    &&& item_views(envelope@.items) == items
                    &&& envelope@.fields() == (EnvelopeHeadersView {
                        event_id: envelope@.headers.event_id,
                        ..headers
                    })
                    &&& envelope@.headers.meta.start_time == request_meta@.start_time
                    &&& if headers.event_id is None && envelope@.requires_event() {
                        envelope@.headers.event_id matches Some(id) && is_random_uuid(id.0)
                    } else {
                        envelope@.headers.event_id == headers.event_id
                    }
                },
                Err(error) => {
                    &&& scan_request(bytes_of(bytes), request_meta@.fields) == Err::<
                        (EnvelopeHeadersView<MetaView>, Seq<ItemView>),
                        _,
                    >(error@)
                    &&& error.wf()
                },
            },
    {
        let mut envelope = match Self::parse_with_meta(bytes, request_meta) {
            Ok(envelope) => envelope,
            Err(error) => return Err(error),
        };
        // Event-related envelopes *must* contain an event id.
        if envelope.lacks_event_id() {
            envelope.insert_event_id(EventId::new());
        }
        Ok(envelope)
    }

    /// Parses an envelope taking into account a request, without creating an event id.
    pub fn parse_with_meta(bytes: Bytes, request_meta: RequestMeta) -> (r: Result<
        Box<Self>,
        EnvelopeError,
    >)
        ensures
            match r {
                Ok(envelope) => {
                    &&& scan_request(bytes_of(bytes), request_meta@.fields) == Ok::<_, Failure>(
                        (envelope@.fields(), item_views(envelope@.items)),
                    )
                    &&& envelope@.headers.meta.start_time == request_meta@.start_time
                },
                Err(error) => {
                    &&& scan_request(bytes_of(bytes), request_meta@.fields) == Err::<
                        (EnvelopeHeadersView<MetaView>, Seq<ItemView>),
                        _,
                    >(error@)
                    &&& error.wf()
                },
            },
    {
        let (partial_headers, offset) = match Self::parse_partial_headers(as_slice(&bytes)) {
            Ok(parsed) => parsed,
            Err(error) => return Err(error),
        };
        let headers = match partial_headers.complete(request_meta) {
            Ok(headers) => headers,
            Err(error) => return Err(error),
        };
        match Self::parse_items(&bytes, offset) {
            Ok(items) => Ok(Box::new(Envelope { headers, items })),
            Err(error) => Err(error),
        }
    }

    /// Whether there is no event id, but an item that requires an event.
    pub fn lacks_event_id(&self) -> (r: bool)
        ensures
            r == (self@.headers.event_id is None && self@.requires_event()),
    {
        if self.headers.event_id.is_some() {
            return false;
        }
        let items = self.items.as_slice();
        let mut i: usize = 0;
        while i < items.len()
            invariant
                i <= items@.len(),
                items@ == self@.items,
                self@.headers.event_id is None,
                forall|j: int|
                    0 <= j < i ==> !requires_event_of((#[trigger] items@[j])@.headers.ty),
            decreases items@.len() - i,
        {
            if items[i].requires_event() {
                assert(requires_event_of(self@.items[i as int]@.headers.ty));
                return true;
            }
            i += 1;
        }
        false
    }

    /// Sets the event id if there is none yet.
    pub fn insert_event_id(&mut self, event_id: EventId)
        ensures
            final(self)@ == (if old(self)@.headers.event_id is None {
                EnvelopeView {
                    headers: EnvelopeHeadersView {
                        event_id: Some(event_id),
                        ..old(self)@.headers
                    },
                    ..old(self)@
                }
            } else {
                old(self)@
            }),
    {
        if self.headers.event_id.is_none() {
            self.headers.event_id = Some(event_id);
        }
    }

    /// Move the envelope's items into an envelope with the same headers.
    pub fn take_items(&mut self) -> (r: Envelope)
        ensures
            r@ == old(self)@,
            final(self)@ == (EnvelopeView { items: Seq::empty(), ..old(self)@ }),
    {
        let mut items = Items::new();
        core::mem::swap(&mut self.items, &mut items);
        Envelope { headers: self.headers.clone(), items }
    }

    /// Returns the number of items in this envelope.
    pub fn len(&self) -> (r: usize)
        ensures
            r == self@.items.len(),
    {
        self.items.len()
    }

    /// Returns `true` if this envelope does not contain any items.
    pub fn is_empty(&self) -> (r: bool)
        ensures
            r == (self@.items.len() == 0),
    {
        self.items.is_empty()
    }

    /// Unique identifier of the event associated to this envelope.
    ///
    /// The envelope may directly contain an event which has this id. Alternatively, it can contain
    /// payloads that can be transformed into events (such as security reports). Lastly, there can
    /// be additional information to an event, such as attachments.
    ///
    /// It's permissible for envelopes to not contain event bound information such as session data
    /// in which case this returns None.
    pub fn event_id(&self) -> (r: Option<EventId>)
        ensures
            r == self@.headers.event_id,
    {
        self.headers.event_id
    }

    /// Returns event metadata information.
    pub fn meta(&self) -> (r: &RequestMeta)
        ensures
            r@ == self@.headers.meta,
    {
        &self.headers.meta
    }

    /// Returns a mutable reference to event metadata information.
    pub fn meta_mut(&mut self) -> (r: &mut RequestMeta)
        ensures
            r@ == old(self)@.headers.meta,
            final(self)@ == (EnvelopeView {
                headers: old(self)@.headers.with_meta(final(r)@),
                ..old(self)@
            }),
    {
        &mut self.headers.meta
    }

    /// Returns the data retention in days for items in this envelope.
    pub fn retention(&self) -> (r: u16)
        ensures
            r == (match self@.headers.retention {
                Some(retention) => retention,
                None => DEFAULT_EVENT_RETENTION,
            }),
    {
        match self.headers.retention {
            Some(retention) => retention,
            None => DEFAULT_EVENT_RETENTION,
        }
    }

    /// When the event has been sent, according to the SDK.
    pub fn sent_at(&self) -> (r: Option<Timestamp>)
        ensures
            opt_view(r) == self@.headers.sent_at,
    {
        self.headers.sent_at
    }

    /// Sets the timestamp at which an envelope is sent to the upstream.
    pub fn set_sent_at(&mut self, sent_at: Timestamp)
        ensures
            final(self)@ == (EnvelopeView {
                headers: EnvelopeHeadersView { sent_at: Some(sent_at@), ..old(self)@.headers },
                ..old(self)@
            }),
    {
        self.headers.sent_at = Some(sent_at);
    }

    /// Sets the start time to the provided `Instant`.
    pub fn set_start_time(&mut self, start_time: Instant)
        ensures
            final(self)@ == (EnvelopeView {
                headers: old(self)@.headers.with_meta(
                    RequestMetaView { start_time, ..old(self)@.headers.meta },
                ),
                ..old(self)@
            }),
    {
        self.headers.meta.set_start_time(start_time)
    }

    /// Sets the data retention in days for items in this envelope.
    pub fn set_retention(&mut self, retention: u16)
        ensures
            final(self)@ == (EnvelopeView {
                headers: EnvelopeHeadersView { retention: Some(retention), ..old(self)@.headers },
                ..old(self)@
            }),
    {
        self.headers.retention = Some(retention);
    }

    /// Returns the dynamic sampling context from envelope headers, if present.
    pub fn dsc(&self) -> (r: Option<&DynamicSamplingContext>)
        ensures
            opt_view(r) == (match self@.headers.trace {
                Some(Ok(values)) => Some(values),
                _ => None,
            }),
    {
        match &self.headers.trace {
            None => None,
            Some(Err(_)) => None,
            Some(Ok(dsc)) => Some(dsc),
        }
    }

    /// Overrides the dynamic sampling context in envelope headers.
    pub fn set_dsc(&mut self, dsc: DynamicSamplingContext)
        ensures
            final(self)@ == (EnvelopeView {
                headers: EnvelopeHeadersView { trace: Some(Ok(dsc@)), ..old(self)@.headers },
                ..old(self)@
            }),
    {
        self.headers.trace = Some(Ok(dsc));
    }

    /// Returns the specified header value, if present.
    pub fn get_header(&self, name: &str) -> (r: Option<&Value>)
        ensures
            opt_view(r) == find(self@.headers.other, name@),
    {
        self.headers.other.get(name)
    }

    /// Sets the specified header value, returning the previous one if present.
    pub fn set_header<S, V>(&mut self, name: S, value: V) -> (r: Option<Value>) where
        S: Into<String>,
        V: Into<Value>,

        ensures
            exists|key: String, new: Value|
                {
                    &&& #[trigger] call_ensures(<S as Into<String>>::into, (name,), key)
                    &&& #[trigger] call_ensures(<V as Into<Value>>::into, (value,), new)
                    &&& opt_view(r) == find(old(self)@.headers.other, key@)
                    &&& final(self)@ == (EnvelopeView {
                        headers: EnvelopeHeadersView {
                            other: place(old(self)@.headers.other, key@, new@),
                            ..old(self)@.headers
                        },
                        ..old(self)@
                    })
                },
    {
        self.headers.other.insert(name.into(), value.into())
    }

    /// Returns an iterator over items in this envelope.
    ///
    /// Note that iteration order may change when using `take_item_by`.
    pub fn items(&self) -> (r: ItemIter<'_>)
        ensures
            vstd::std_specs::slice::into_iter_elts(r) == self@.items,
            vstd::std_specs::iter::IteratorSpec::decrease(&r) is Some,
            vstd::std_specs::iter::IteratorSpec::initial_value_relation(&r, &r),
    {
        self.items.as_slice().iter()
    }

    /// Returns the items in this envelope, for changing them in place.
    ///
    /// Note that their order may change when using `take_item_by`.
    pub fn items_mut(&mut self) -> (r: ItemIterMut<'_>)
        ensures
            r@ == old(self)@.items,
            final(r)@.len() == old(self)@.items.len(),
            final(self)@ == (EnvelopeView { items: final(r)@, ..old(self)@ }),
    {
        self.items.as_mut_slice()
    }

    /// Returns an option with a reference to the first item that matches
    /// the predicate, or None if the predicate is not matched by any item.
    pub fn get_item_by<F>(&self, pred: F) -> (r: Option<&Item>) where F: FnMut(&Item) -> bool
        requires
            forall|item: &Item| #[trigger] call_requires(pred, (item,)),
        ensures
            match r {
                Some(item) => exists|at: int| #[trigger]
                    first_match(pred, self@.items, at) && *item == self@.items[at],
                None => no_match(pred, self@.items),
            },
    {
        let items = self.items.as_slice();
        match position(items, pred) {
            Some(at) => {
                assert(first_match(pred, self@.items, at as int));
                Some(&items[at])
            },
            None => None,
        }
    }

    /// Returns an option with a mutable reference to the first item that matches
    /// the predicate, or None if the predicate is not matched by any item.
    pub fn get_item_by_mut<F>(&mut self, pred: F) -> (r: Option<&mut Item>) where
        F: FnMut(&Item) -> bool,

        requires
            forall|item: &Item| #[trigger] call_requires(pred, (item,)),
        ensures
            match r {
                Some(item) => exists|at: int| #[trigger]
                    first_match(pred, old(self)@.items, at) && *item == old(self)@.items[at]
                        && final(self)@ == (EnvelopeView {
                        items: old(self)@.items.update(at, *final(item)),
                        ..old(self)@
                    }),
                None => no_match(pred, old(self)@.items) && final(self)@ == old(self)@,
            },
    {
        match position(self.items.as_slice(), pred) {
            Some(at) => {
                assert(first_match(pred, old(self)@.items, at as int));
                let items = self.items.as_mut_slice();
                Some(&mut items[at])
            },
            None => None,
        }
    }

    /// Removes and returns the first item that matches the given condition. The last item takes its
    /// place.
    pub fn take_item_by<F>(&mut self, cond: F) -> (r: Option<Item>) where F: FnMut(&Item) -> bool
        requires
            forall|item: &Item| #[trigger] call_requires(cond, (item,)),
        ensures
            match r {
                Some(item) => exists|at: int| #[trigger]
                    first_match(cond, old(self)@.items, at) && item == old(self)@.items[at]
                        && final(self)@ == (EnvelopeView {
                        items: old(self)@.items.update(at, old(self)@.items.last()).drop_last(),
                        ..old(self)@
                    }),
                None => no_match(cond, old(self)@.items) && final(self)@ == old(self)@,
            },
    {
        match position(self.items.as_slice(), cond) {
            Some(at) => {
                assert(first_match(cond, old(self)@.items, at as int));
                Some(self.items.swap_remove(at))
            },
            None => None,
        }
    }

    /// Adds a new item to this envelope.
    pub fn add_item(&mut self, item: Item)
        ensures
            final(self)@ == (EnvelopeView { items: old(self)@.items.push(item), ..old(self)@ }),
    {
        self.items.push(item)
    }
}

impl Envelope {
    /// Reads the headers of an envelope, and where they end.
    fn read_headers(slice: &[u8]) -> (r: Result<
        (EnvelopeHeaders<PartialMeta>, usize),
        EnvelopeError,
    >)
        ensures
            match r {
                Ok((headers, end)) => {
                    &&& scan_object(slice@) matches ObjectScan::Read(members, stop)
                    &&& headers_of(members) == Ok::<_, HeaderFault>(headers@)
                    &&& stop == end
                    &&& 0 < end <= slice@.len()
                },
                Err(error) => {
                    &&& scan_headers(slice@, false) matches Err(failure)
                    &&& failure == error@
                    &&& scan_headers(slice@, true) matches Err(failure)
                    &&& failure == error@
                    &&& error.wf()
                },
            },
    {
        match read_object(slice) {
            None => Err(EnvelopeError::MissingHeader),
            Some(Err(error)) => Err(EnvelopeError::InvalidHeader(error)),
            Some(Ok((members, end))) => match EnvelopeHeaders::from_members(&members) {
                Err(fault) => Err(EnvelopeError::InvalidHeader(HeaderError::new(fault))),
                Ok(headers) => Ok((headers, end)),
            },
        }
    }

    /// Parses the headers of an envelope, which need not state the DSN. The second result is where
    /// the first item starts.
    pub fn parse_partial_headers(slice: &[u8]) -> (r: Result<
        (EnvelopeHeaders<PartialMeta>, usize),
        EnvelopeError,
    >)
        requires
            slice@.len() < usize::MAX,
        ensures
            match r {
                Ok((headers, offset)) => scan_headers(slice@, false) == Ok::<_, Failure>(
                    (headers@, offset as int),
                ) && 0 < offset <= slice@.len() + 1,
                Err(error) => {
                    &&& scan_headers(slice@, false) == Err::<
                        (EnvelopeHeadersView<MetaView>, int),
                        _,
                    >(error@)
                    &&& error.wf()
                },
            },
    {
        let (headers, end) = match Self::read_headers(slice) {
            Ok(read) => read,
            Err(error) => return Err(error),
        };
        // Each header is terminated by a UNIX newline.
        match Self::require_termination(slice, end) {
            Ok(()) => Ok((headers, end + 1)),
            Err(error) => Err(error),
        }
    }

    /// Parses the headers of an envelope, which must state the DSN. The second result is where the
    /// first item starts.
    ///
    /// Handling of the envelope starts with this.
    pub fn parse_headers(slice: &[u8]) -> (r: Result<(EnvelopeHeaders, usize), EnvelopeError>)
        requires
            slice@.len() < usize::MAX,
        ensures
            match r {
                Ok((headers, offset)) => scan_headers(slice@, true) == Ok::<_, Failure>(
                    (headers@.with_meta(headers@.meta.fields), offset as int),
                ) && 0 < offset <= slice@.len() + 1,
                Err(error) => {
                    &&& scan_headers(slice@, true) == Err::<
                        (EnvelopeHeadersView<MetaView>, int),
                        _,
                    >(error@)
                    &&& error.wf()
                },
            },
    {
        let (headers, end) = match Self::read_headers(slice) {
            Ok(read) => read,
            Err(error) => return Err(error),
        };
        let headers = match headers.into_full(Instant::now()) {
            Some(headers) => headers,
            None => return Err(
                EnvelopeError::InvalidHeader(HeaderError::new(HeaderFault::Missing(Field::Dsn))),
            ),
        };
        // Each header is terminated by a UNIX newline.
        match Self::require_termination(slice, end) {
            Ok(()) => Ok((headers, end + 1)),
            Err(error) => Err(error),
        }
    }

    /// Parses the items from `offset` on.
    pub fn parse_items(bytes: &Bytes, offset: usize) -> (r: Result<Items, EnvelopeError>)
        ensures
            match r {
                Ok(items) => scan_items(bytes_of(*bytes), offset as int) == Ok::<_, Failure>(
                    item_views(items_seq(items)),
                ),
                Err(error) => {
                    &&& scan_items(bytes_of(*bytes), offset as int) == Err::<
                        Seq<ItemView>,
                        _,
                    >(error@)
                    &&& error.wf()
                },
            },
    {
        let ghost s = bytes_of(*bytes);
        let len = bytes.len();
        let mut at: usize = offset;
        let mut items = Items::new();
        assert(item_views(items_seq(items)) =~= Seq::empty());
        proof {
            lemma_items_behind(Seq::empty(), scan_items(s, at as int));
        }
        while at < len
            invariant
                s == bytes_of(*bytes),
                len == s.len(),
                len <= isize::MAX,
                scan_items(s, offset as int) == items_behind(
                    item_views(items_seq(items)),
                    scan_items(s, at as int),
                ),
            decreases vstd::math::max(len - at, 0),
        {
            let (item, item_size) = match Self::parse_item(slice(bytes, at, len)) {
                Ok(parsed) => parsed,
                Err(error) => {
                    return Err(error);
                },
            };
            let ghost so_far = item_views(items_seq(items));
            proof {
                lemma_items_behind_next(so_far, item@, scan_items(s, at + item_size));
            }
            at += item_size;
            items.push(item);
            assert(item_views(items_seq(items)) =~= so_far.push(item@));
        }
        proof {
            lemma_items_behind_none(item_views(items_seq(items)));
        }
        Ok(items)
    }

    /// Parses the item at the start of `bytes`. The second result is how many bytes it takes, the
    /// line break behind it included.
    pub fn parse_item(bytes: Bytes) -> (r: Result<(Item, usize), EnvelopeError>)
        ensures
            match r {
                Ok((item, size)) => scan_item(bytes_of(bytes)) == Ok::<_, Failure>(
                    (item@, size as int),
                ) && 0 < size <= bytes_of(bytes).len() + 1,
                Err(error) => {
                    &&& scan_item(bytes_of(bytes)) == Err::<(ItemView, int), _>(error@)
                    &&& error.wf()
                },
            },
    {
        match read_object(as_slice(&bytes)) {
            None => Err(EnvelopeError::UnexpectedEof),
            Some(Err(error)) => Err(EnvelopeError::InvalidItemHeader(error)),
            Some(Ok((members, end))) => match ItemHeaders::from_members(&members) {
                Err(fault) => Err(EnvelopeError::InvalidItemHeader(HeaderError::new(fault))),
                Ok(headers) => Self::parse_payload(bytes, headers, end),
            },
        }
    }

    /// Parses the payload of the item whose headers end at `headers_end` in `bytes`. The second
    /// result is how many bytes of `bytes` come up to the end of the item, the line break behind it
    /// included.
    pub fn parse_payload(bytes: Bytes, headers: ItemHeaders, headers_end: usize) -> (r: Result<
        (Item, usize),
        EnvelopeError,
    >)
        requires
            headers_end <= bytes_of(bytes).len(),
            headers@.wf(),
        ensures
            match r {
                Ok((item, size)) => item_behind(
                    bytes_of(bytes),
                    headers@,
                    headers_end as int,
                ) == Ok::<_, Failure>((item@, size as int)) && 0 < size <= bytes_of(bytes).len()
                    + 1,
                Err(error) => {
                    &&& item_behind(bytes_of(bytes), headers@, headers_end as int) == Err::<
                        (ItemView, int),
                        _,
                    >(error@)
                    &&& error.wf()
                },
            },
    {
        let ghost s = bytes_of(bytes);
        let all = as_slice(&bytes);
        let len = bytes.len();
        // Each header is terminated by a UNIX newline.
        match Self::require_termination(all, headers_end) {
            Ok(()) => {},
            Err(error) => return Err(error),
        }
        // The last header does not require a trailing newline, so there may be nothing behind it.
        let payload_start: usize = if headers_end < len {
            headers_end + 1
        } else {
            len
        };
        let payload_end: usize = match headers.length {
            Some(length) => {
                if len - payload_start < length as usize {
                    return Err(EnvelopeError::UnexpectedEof);
                }
                let payload_end = payload_start + length as usize;
                // Each payload is terminated by a UNIX newline.
                match Self::require_termination(all, payload_end) {
                    Ok(()) => {},
                    Err(error) => return Err(error),
                }
                payload_end
            },
            None => Self::find_line_end(all, payload_start),
        };
        let payload = slice(&bytes, payload_start, payload_end);
        proof {
            lemma_line_end(s, payload_start as int);
            if headers@.length is None {
                assert forall|i: int| 0 <= i < bytes_of(payload).len() implies bytes_of(
                    payload,
                )[i] != 0x0a by {
                    assert(bytes_of(payload)[i] == s[payload_start + i]);
                }
            }
        }
        Ok((Item::from_parts(headers, payload), payload_end + 1))
    }

    /// The first position from `from` on with a line break, or else the end of `slice`.
    fn find_line_end(slice: &[u8], from: usize) -> (r: usize)
        requires
            from <= slice@.len(),
        ensures
            r == line_end(slice@, from as int),
            from <= r <= slice@.len(),
    {
        let mut i: usize = from;
        while i < slice.len() && slice[i] != 0x0a
            invariant
                from <= i <= slice@.len(),
                forall|j: int| from <= j < i ==> slice@[j] != 0x0a,
            decreases slice@.len() - i,
        {
            i += 1;
        }
        proof {
            lemma_line_end_at(slice@, from as int, i as int);
        }
        i
    }

    /// Checks that a line break or the end of `slice` is at `offset`.
    pub fn require_termination(slice: &[u8], offset: usize) -> (r: Result<(), EnvelopeError>)
        ensures
            match r {
                Ok(()) => terminated(slice@, offset as int),
                Err(error) => !terminated(slice@, offset as int) && error@
                    == Failure::MissingNewline,
            },
    {
        if offset < slice.len() && slice[offset] != 0x0a {
            Err(EnvelopeError::MissingNewline)
        } else {
            Ok(())
        }
    }
}

/// Items that have been read, and what comes behind them.
spec fn items_behind(
    items: Seq<ItemView>,
    more: Result<Seq<ItemView>, Failure>,
) -> Result<Seq<ItemView>, Failure> {
    match more {
        Ok(more) => Ok(items + more),
        Err(failure) => Err(failure),
    }
}

proof fn lemma_items_behind(items: Seq<ItemView>, more: Result<Seq<ItemView>, Failure>)
    requires
        items.len() == 0,
    ensures
        items_behind(items, more) == more,
{
    if let Ok(rest) = more {
        assert(items + rest =~= rest);
    }
}

proof fn lemma_items_behind_none(items: Seq<ItemView>)
    ensures
        items_behind(items, Ok(Seq::empty())) == Ok::<_, Failure>(items),
{
    assert(items + Seq::empty() =~= items);
}

proof fn lemma_items_behind_next(
    items: Seq<ItemView>,
    item: ItemView,
    more: Result<Seq<ItemView>, Failure>,
)
    ensures
        items_behind(items, items_behind(seq![item], more)) == items_behind(
            items.push(item),
            more,
        ),
{
    if let Ok(rest) = more {
        assert(items + (seq![item] + rest) =~= items.push(item) + rest);
    }
}

} // verus!
