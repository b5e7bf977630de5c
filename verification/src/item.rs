//! Items: a payload with headers that describe it.
use crate::attachment_type::{AttachmentType, AttachmentTypeView};
use crate::content_type::ContentType;
use crate::fault::HeaderFault;
use crate::header_map::{find, place, HeaderMap};
use crate::item_headers::{item_headers_of, item_members, ItemHeaders, ItemHeadersView};
use crate::item_type::{DataCategory, ItemType, ItemTypeView};
use crate::json::{lemma_array_view, Value, ValueView};
use crate::object::{object_text, scans_as};
use crate::payload::{bytes_of, cut_off};
use crate::views::{opt_str, opt_view};
use bytes::Bytes;
use vstd::prelude::*;

verus! {

/// An item of an envelope: a payload with headers that describe it.
#[derive(Debug)]
pub struct Item {
    headers: ItemHeaders,
    payload: Bytes,
}

/// What an [`Item`] stands for.
#[verifier::ext_equal]
pub struct ItemView {
    /// The headers.
    pub headers: ItemHeadersView,
    /// The bytes of the payload.
    pub payload: Seq<u8>,
}

impl View for Item {
    type V = ItemView;

    closed spec fn view(&self) -> ItemView {
        ItemView { headers: self.headers@, payload: bytes_of(self.payload) }
    }
}

/// Whether a reader finds the end of `payload`: by its length where that is stated, and otherwise
/// by the first line break.
pub open spec fn framed(length: Option<u32>, payload: Seq<u8>) -> bool {
    match length {
        Some(length) => length == payload.len(),
        None => !payload.contains(0x0a),
    }
}

impl ItemView {
    /// What holds of every item: the headers are in order, and a reader finds the end of the
    /// payload.
    pub open spec fn wf(self) -> bool {
        self.headers.wf() && framed(self.headers.length, self.payload)
    }

    /// Whether the item is read back from what is written for it.
    pub open spec fn survives(self) -> bool {
        self.headers.survives()
    }

    /// The item as it is read back: without the flag for rate limiting.
    pub open spec fn as_read(self) -> Self {
        ItemView { headers: self.headers.as_read(), ..self }
    }

    /// The bytes that are written for the item: the headers and the payload on a line each.
    pub open spec fn text(self) -> Seq<u8> {
        object_text(item_members(self.headers)) + seq![0x0au8] + self.payload + seq![0x0au8]
    }
}

/// The data category that outcomes for items of a type count towards.
pub open spec fn outcome_category_of(ty: ItemTypeView, indexed: bool) -> Option<DataCategory> {
    match ty {
        ItemTypeView::Event | ItemTypeView::UnrealReport => Some(DataCategory::Error),
        ItemTypeView::Transaction => Some(
            if indexed {
                DataCategory::TransactionIndexed
            } else {
                DataCategory::Transaction
            },
        ),
        ItemTypeView::Security | ItemTypeView::RawSecurity => Some(DataCategory::Security),
        ItemTypeView::Attachment => Some(DataCategory::Attachment),
        ItemTypeView::Profile => Some(
            if indexed {
                DataCategory::ProfileIndexed
            } else {
                DataCategory::Profile
            },
        ),
        ItemTypeView::ReplayEvent | ItemTypeView::ReplayRecording => Some(DataCategory::Replay),
        ItemTypeView::CheckIn => Some(DataCategory::Monitor),
        _ => None,
    }
}

/// Whether items with these headers create an event: direct events, crash reports and attachments
/// that carry parts of an event.
pub open spec fn creates_event_of(headers: ItemHeadersView) -> bool {
    match headers.ty {
        ItemTypeView::Event
        | ItemTypeView::Transaction
        | ItemTypeView::Security
        | ItemTypeView::RawSecurity
        | ItemTypeView::UnrealReport => true,
        ItemTypeView::Attachment => match headers.attachment_type {
            Some(AttachmentTypeView::AppleCrashReport)
            | Some(AttachmentTypeView::Minidump)
            | Some(AttachmentTypeView::EventPayload)
            | Some(AttachmentTypeView::Breadcrumbs) => true,
            _ => false,
        },
        _ => false,
    }
}

/// Whether items of a type require an event with an identifier: all known ones except session
/// health events.
pub open spec fn requires_event_of(ty: ItemTypeView) -> bool {
    match ty {
        ItemTypeView::Session | ItemTypeView::Sessions => false,
        ItemTypeView::Unknown(_) => false,
        _ => true,
    }
}

/// An item that creates an event also requires one.
pub proof fn lemma_created_event_is_required(headers: ItemHeadersView)
    requires
        creates_event_of(headers),
    ensures
        requires_event_of(headers.ty),
{
}

/// Outcomes are generated for every item that creates an event.
pub proof fn lemma_created_event_has_category(headers: ItemHeadersView, indexed: bool)
    requires
        creates_event_of(headers),
    ensures
        outcome_category_of(headers.ty, indexed) is Some,
{
}

impl Item {
    #[verifier::type_invariant]
    spec fn inv(self) -> bool {
        &&& framed(self.headers@.length, bytes_of(self.payload))
        &&& self.headers@.sample_rates != Some(ValueView::Null)
    }

    /// Creates a new item with the given type.
    pub fn new(ty: ItemType) -> (r: Self)
        ensures
            r@ == (ItemView {
                headers: ItemHeadersView {
                    ty: ty@,
                    length: Some(0),
                    attachment_type: None,
                    content_type: None,
                    filename: None,
                    rate_limited: false,
                    sample_rates: None,
                    metrics_extracted: false,
                    other: Seq::empty(),
                },
                payload: Seq::empty(),
            }),
    {
        Item {
            headers: ItemHeaders {
                ty,
                length: Some(0),
                attachment_type: None,
                content_type: None,
                filename: None,
                rate_limited: false,
                sample_rates: None,
                metrics_extracted: false,
                other: HeaderMap::new(),
            },
            payload: Bytes::new(),
        }
    }

    /// Joins headers and the payload that they describe.
    pub(crate) fn from_parts(headers: ItemHeaders, payload: Bytes) -> (r: Self)
        requires
            framed(headers@.length, bytes_of(payload)),
            headers@.wf(),
        ensures
            r@ == (ItemView { headers: headers@, payload: bytes_of(payload) }),
    {
        Item { headers, payload }
    }

    /// Returns the `ItemType` of this item.
    pub fn ty(&self) -> (r: &ItemType)
        ensures
            r@ == self@.headers.ty,
    {
        &self.headers.ty
    }

    /// Returns the length of this item's payload.
    pub fn len(&self) -> (r: usize)
        ensures
            r == self@.payload.len(),
    {
        self.payload.len()
    }

    /// Returns the number used for counting towards rate limits and producing outcomes.
    ///
    /// For attachments, we count the number of bytes. Other items are counted as 1.
    pub fn quantity(&self) -> (r: usize)
        ensures
            r == (if self@.headers.ty is Attachment {
                self@.payload.len()
            } else {
                1
            }),
    {
        match self.ty() {
            ItemType::Attachment => self.len(),
            _ => 1,
        }
    }

    /// Returns the data category used for generating outcomes.
    ///
    /// Returns `None` if outcomes are not generated for this type (e.g. sessions).
    pub fn outcome_category(&self, indexed: bool) -> (r: Option<DataCategory>)
        ensures
            r == outcome_category_of(self@.headers.ty, indexed),
    {
        match self.ty() {
            ItemType::Event => Some(DataCategory::Error),
            ItemType::Transaction => Some(
                if indexed {
                    DataCategory::TransactionIndexed
                } else {
                    DataCategory::Transaction
                },
            ),
            ItemType::Security | ItemType::RawSecurity => Some(DataCategory::Security),
            ItemType::UnrealReport => Some(DataCategory::Error),
            ItemType::Attachment => Some(DataCategory::Attachment),
            ItemType::Session | ItemType::Sessions => None,
            ItemType::Statsd | ItemType::MetricBuckets => None,
            ItemType::FormData => None,
            ItemType::UserReport => None,
            ItemType::Profile => Some(
                if indexed {
                    DataCategory::ProfileIndexed
                } else {
                    DataCategory::Profile
                },
            ),
            ItemType::ReplayEvent | ItemType::ReplayRecording => Some(DataCategory::Replay),
            ItemType::ClientReport => None,
            ItemType::CheckIn => Some(DataCategory::Monitor),
            ItemType::Unknown(_) => None,
            // No outcomes, for now.
            ItemType::Span => None,
        }
    }

    /// Returns `true` if this item's payload is empty.
    pub fn is_empty(&self) -> (r: bool)
        ensures
            r == (self@.payload.len() == 0),
    {
        self.payload.is_empty()
    }

    /// Returns the content type of this item's payload.
    pub fn content_type(&self) -> (r: Option<&ContentType>)
        ensures
            opt_view(r) == self@.headers.content_type,
    {
        match &self.headers.content_type {
            Some(content_type) => Some(content_type),
            None => None,
        }
    }

    /// Returns the attachment type if this item is an attachment.
    pub fn attachment_type(&self) -> (r: Option<&AttachmentType>)
        ensures
            opt_view(r) == self@.headers.attachment_type,
    {
        match &self.headers.attachment_type {
            Some(attachment_type) => Some(attachment_type),
            None => None,
        }
    }

    /// Sets the attachment type of this item.
    pub fn set_attachment_type(&mut self, attachment_type: AttachmentType)
        ensures
            final(self)@ == (ItemView {
                headers: ItemHeadersView {
                    attachment_type: Some(attachment_type@),
                    ..old(self)@.headers
                },
                ..old(self)@
            }),
    {
        proof {
            use_type_invariant(&*self);
        }
        self.headers.attachment_type = Some(attachment_type);
    }

    /// Returns the payload of this item.
    ///
    /// Payloads are ref-counted. The bytes object is a reference to the original data, but cannot
    /// be used to mutate data in this item. In order to change data, use `set_payload`.
    pub fn payload(&self) -> (r: Bytes)
        ensures
            bytes_of(r) == self@.payload,
    {
        self.payload.clone()
    }

    /// Sets the payload and content-type of this item.
    ///
    /// A payload of more than `u32::MAX` bytes is cut off there.
    pub fn set_payload<B>(&mut self, content_type: ContentType, payload: B) where B: Into<Bytes>
        ensures
            exists|bytes: Bytes| #[trigger]
                call_ensures(<B as Into<Bytes>>::into, (payload,), bytes) && final(self)@.payload
                    == (if bytes_of(bytes).len() <= u32::MAX {
                    bytes_of(bytes)
                } else {
                    bytes_of(bytes).take(u32::MAX as int)
                }),
            final(self)@.headers == (ItemHeadersView {
                length: Some(final(self)@.payload.len() as u32),
                content_type: Some(content_type@),
                ..old(self)@.headers
            }),
            final(self)@.headers.length->0 == final(self)@.payload.len(),
    {
        let payload = cut_off(payload.into(), u32::MAX as usize);
        let length = payload.len();
        let (mut headers, _) = self.take_parts();
        headers.length = Some(length as u32);
        headers.content_type = Some(content_type);
        *self = Item { headers, payload };
    }

    /// Takes the headers and the payload out, and leaves an empty item behind.
    fn take_parts(&mut self) -> (r: (ItemHeaders, Bytes))
        ensures
            old(self)@ == (ItemView { headers: r.0@, payload: bytes_of(r.1) }),
            framed(r.0@.length, bytes_of(r.1)),
            r.0@.sample_rates != Some(ValueView::Null),
    {
        let mut item = Item::new(ItemType::Event);
        core::mem::swap(self, &mut item);
        proof {
            use_type_invariant(&item);
        }
        let Item { headers, payload } = item;
        (headers, payload)
    }

    /// Returns the file name of this item, if it is an attachment.
    pub fn filename(&self) -> (r: Option<&str>)
        ensures
            opt_view(r) == self@.headers.filename,
    {
        opt_str(&self.headers.filename)
    }

    /// Sets the file name of this item.
    pub fn set_filename<S>(&mut self, filename: S) where S: Into<String>
        ensures
            exists|text: String| #[trigger]
                call_ensures(<S as Into<String>>::into, (filename,), text) && final(self)@ == (
                ItemView {
                    headers: ItemHeadersView { filename: Some(text@), ..old(self)@.headers },
                    ..old(self)@
                }),
    {
        proof {
            use_type_invariant(&*self);
        }
        let filename: String = filename.into();
        self.headers.filename = Some(filename);
    }

    /// Returns whether this item should be rate limited.
    pub fn rate_limited(&self) -> (r: bool)
        ensures
            r == self@.headers.rate_limited,
    {
        self.headers.rate_limited
    }

    /// Sets whether this item should be rate limited.
    pub fn set_rate_limited(&mut self, rate_limited: bool)
        ensures
            final(self)@ == (ItemView {
                headers: ItemHeadersView { rate_limited, ..old(self)@.headers },
                ..old(self)@
            }),
    {
        proof {
            use_type_invariant(&*self);
        }
        self.headers.rate_limited = rate_limited;
    }

    /// Removes sample rates from the headers, if any.
    pub fn take_sample_rates(&mut self) -> (r: Option<Value>)
        ensures
            opt_view(r) == old(self)@.headers.sample_rates,
            final(self)@ == (ItemView {
                headers: ItemHeadersView { sample_rates: None, ..old(self)@.headers },
                ..old(self)@
            }),
    {
        let (mut headers, payload) = self.take_parts();
        let sample_rates = headers.sample_rates;
        headers.sample_rates = None;
        *self = Item { headers, payload };
        sample_rates
    }

    /// Sets sample rates for this item. Anything but an array with at least one element is
    /// ignored.
    pub fn set_sample_rates(&mut self, sample_rates: Value)
        ensures
            final(self)@ == (if sample_rates@ matches ValueView::Array(rates) && rates.len() > 0 {
                ItemView {
                    headers: ItemHeadersView {
                        sample_rates: Some(sample_rates@),
                        ..old(self)@.headers
                    },
                    ..old(self)@
                }
            } else {
                old(self)@
            }),
    {
        proof {
            use_type_invariant(&*self);
        }
        let set = match &sample_rates {
            Value::Array(rates) => {
                proof {
                    lemma_array_view(*rates);
                }
                rates.len() > 0
            },
            _ => false,
        };
        if set {
            self.headers.sample_rates = Some(sample_rates);
        }
    }

    /// Returns the metrics extracted flag.
    pub fn metrics_extracted(&self) -> (r: bool)
        ensures
            r == self@.headers.metrics_extracted,
    {
        self.headers.metrics_extracted
    }

    /// Sets the metrics extracted flag.
    pub fn set_metrics_extracted(&mut self, metrics_extracted: bool)
        ensures
            final(self)@ == (ItemView {
                headers: ItemHeadersView { metrics_extracted, ..old(self)@.headers },
                ..old(self)@
            }),
    {
        proof {
            use_type_invariant(&*self);
        }
        self.headers.metrics_extracted = metrics_extracted;
    }

    /// Returns the specified header value, if present.
    pub fn get_header(&self, name: &str) -> (r: Option<&Value>)
        ensures
            opt_view(r) == find(self@.headers.other, name@),
    {
        self.headers.other.get(name)
    }

    /// Sets the specified header value, returning the previous one if present.
    pub fn set_header<S, V>(&mut self, name: S, value: V) -> (r: Option<Value>) where
        S: Into<String>,
        V: Into<Value>,

        ensures
            exists|key: String, new: Value|
                {
                    &&& #[trigger] call_ensures(<S as Into<String>>::into, (name,), key)
                    &&& #[trigger] call_ensures(<V as Into<Value>>::into, (value,), new)
                    &&& opt_view(r) == find(old(self)@.headers.other, key@)
                    &&& final(self)@ == (ItemView {
                        headers: ItemHeadersView {
                            other: place(old(self)@.headers.other, key@, new@),
                            ..old(self)@.headers
                        },
                        ..old(self)@
                    })
                },
    {
        let name: String = name.into();
        let value: Value = value.into();
        let (mut headers, payload) = self.take_parts();
        let previous = headers.other.insert(name, value);
        *self = Item { headers, payload };
        previous
    }

    /// Determines whether the given item creates an event.
    ///
    /// This is only true for literal events and crash report attachments.
    pub fn creates_event(&self) -> (r: bool)
        ensures
            r == creates_event_of(self@.headers),
    {
        match self.ty() {
            // These items are direct event types.
            ItemType::Event
            | ItemType::Transaction
            | ItemType::Security
            | ItemType::RawSecurity
            | ItemType::UnrealReport => true,
            // Attachments are only event items if they are crash reports or if they carry partial
            // event payloads. Plain attachments never create event payloads.
            ItemType::Attachment => match self.attachment_type() {
                Some(AttachmentType::AppleCrashReport)
                | Some(AttachmentType::Minidump)
                | Some(AttachmentType::EventPayload)
                | Some(AttachmentType::Breadcrumbs) => true,
                Some(AttachmentType::Attachment)
                | Some(AttachmentType::UnrealContext)
                | Some(AttachmentType::UnrealLogs)
                | Some(AttachmentType::ViewHierarchy) => false,
                // An attachment of unknown type is assumed not to create a new event.
                Some(AttachmentType::Unknown(_)) => false,
                // An attachment is a plain one by default.
                None => false,
            },
            // Form data items may contain partial event payloads, but those are only ever valid if
            // they occur together with an explicit event item, such as a minidump or apple crash
            // report. For this reason, FormData alone does not constitute an event item.
            ItemType::FormData => false,
            // The remaining item types cannot carry event payloads.
            ItemType::UserReport
            | ItemType::Session
            | ItemType::Sessions
            | ItemType::Statsd
            | ItemType::MetricBuckets
            | ItemType::ClientReport
            | ItemType::ReplayEvent
            | ItemType::ReplayRecording
            | ItemType::Profile
            | ItemType::CheckIn
            | ItemType::Span => false,
            // The unknown item type can observe any behavior, most likely there are going to be no
            // item types added that create events.
            ItemType::Unknown(_) => false,
        }
    }

    /// Determines whether the given item requires an event with identifier.
    ///
    /// This is true for all items except session health events. An item of unknown type may or may
    /// not require an event; it is assumed not to.
    pub fn requires_event(&self) -> (r: bool)
        ensures
            r == requires_event_of(self@.headers.ty),
    {
        match self.ty() {
            ItemType::Event => true,
            ItemType::Transaction => true,
            ItemType::Security => true,
            ItemType::Attachment => true,
            ItemType::FormData => true,
            ItemType::RawSecurity => true,
            ItemType::UnrealReport => true,
            ItemType::UserReport => true,
            ItemType::ReplayEvent => true,
            ItemType::Session => false,
            ItemType::Sessions => false,
            ItemType::Statsd => true,
            ItemType::MetricBuckets => true,
            ItemType::ClientReport => true,
            ItemType::ReplayRecording => true,
            ItemType::Profile => true,
            ItemType::CheckIn => true,
            ItemType::Span => true,
            // The semantics of this item are unknown, and so is whether it requires an event.
            // Depending on the strategy, this can cause two wrong actions:
            //  1. return false, but the item requires an event. It is split off and handled
            //     separately. If the event is rate limited or filtered, the item still gets
            //     ingested and needs to be pruned at a later point in the pipeline. This also
            //     happens with standalone attachments.
            //  2. return true, but the item does not require an event. It is kept in the same
            //     envelope and dropped along with the event, even though it should be ingested.
            // Realistically, most new item types should be ingested largely independent of events.
            // This makes returning `false` the safer option.
            ItemType::Unknown(_) => false,
        }
    }

    /// Writes the headers as a JSON object, without line breaks.
    ///
    /// Reading gives the headers back, the flag for rate limiting apart, where they survive it.
    pub fn header_text(&self) -> (r: Vec<u8>)
        ensures
            r@ == object_text(item_members(self@.headers)),
            !r@.contains(0x0a),
            self@.wf(),
            self@.survives() ==> scans_as(r@, item_members(self@.headers)),
            self@.survives() ==> item_headers_of(item_members(self@.headers)) == Ok::<
                _,
                HeaderFault,
            >(self@.headers.as_read()),
    {
        proof {
            use_type_invariant(self);
        }
        self.headers.to_text()
    }
}

impl Clone for Item {
    fn clone(&self) -> (r: Self)
        ensures
            r@ == self@,
    {
        proof {
            use_type_invariant(self);
        }
        Item { headers: self.headers.clone(), payload: self.payload.clone() }
    }
}

} // verus!
