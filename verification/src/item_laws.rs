//! Laws of items: what decides about them, and what changing one thing of an item leaves as it is.
use crate::attachment_type::AttachmentType;
use crate::content_type::ContentType;
use crate::header_map::{find, lemma_find_placed};
use crate::item::{Item, ItemView};
use crate::item_type::{DataCategory, ItemType};
use crate::json::Value;
use crate::payload::{bytes_of, cut_off};
use crate::views::opt_view;
use bytes::Bytes;
use vstd::prelude::*;

verus! {

/// Events, transactions, security reports and crash reports create an event, whatever else an item
/// holds. An attachment does so exactly where it is a crash report or a part of an event. Nothing
/// else does.
pub proof fn law_creates_event(item: Item, out: bool)
    requires
        call_ensures(Item::creates_event, (&item,), out),
    ensures
        item@.headers.ty is Event ==> out,
        item@.headers.ty is Transaction ==> out,
        item@.headers.ty is Security ==> out,
        item@.headers.ty is RawSecurity ==> out,
        item@.headers.ty is UnrealReport ==> out,
        item@.headers.ty is Attachment ==> (out <==> (item@.headers.attachment_type matches Some(ty)
            && (ty is Minidump || ty is AppleCrashReport || ty is EventPayload
            || ty is Breadcrumbs))),
        out ==> item@.headers.ty is Event || item@.headers.ty is Transaction
            || item@.headers.ty is Security || item@.headers.ty is RawSecurity
            || item@.headers.ty is UnrealReport || item@.headers.ty is Attachment,
{
}

/// Whether an item creates an event depends on nothing but its type and its attachment type.
pub proof fn law_creates_event_alike(a: Item, b: Item, x: bool, y: bool)
    requires
        call_ensures(Item::creates_event, (&a,), x),
        call_ensures(Item::creates_event, (&b,), y),
        a@.headers.ty == b@.headers.ty,
        a@.headers.attachment_type == b@.headers.attachment_type,
    ensures
        x == y,
{
}

/// Every item of a known type requires an event, except session health events. No other one does.
pub proof fn law_requires_event(item: Item, out: bool)
    requires
        call_ensures(Item::requires_event, (&item,), out),
    ensures
        !out <==> item@.headers.ty is Session || item@.headers.ty is Sessions
            || item@.headers.ty is Unknown,
{
}

/// The data category of an item depends on nothing but its type, and for all but transactions and
/// profiles not on whether it is indexed either.
pub proof fn law_category_alike(
    a: Item,
    b: Item,
    i: bool,
    j: bool,
    x: Option<DataCategory>,
    y: Option<DataCategory>,
)
    requires
        call_ensures(Item::outcome_category, (&a, i), x),
        call_ensures(Item::outcome_category, (&b, j), y),
        a@.headers.ty == b@.headers.ty,
        i == j || !(a@.headers.ty is Transaction) && !(a@.headers.ty is Profile),
    ensures
        x == y,
{
}

/// Which data category outcomes count towards: errors and crash reports, transactions, security
/// reports, attachments, profiles, replays and check-ins each have one, and no other items do.
pub proof fn law_category(item: Item, indexed: bool, out: Option<DataCategory>)
    requires
        call_ensures(Item::outcome_category, (&item, indexed), out),
    ensures
        out == Some(DataCategory::Error) <==> item@.headers.ty is Event
            || item@.headers.ty is UnrealReport,
        out == Some(DataCategory::Transaction) <==> item@.headers.ty is Transaction && !indexed,
        out == Some(DataCategory::TransactionIndexed) <==> item@.headers.ty is Transaction
            && indexed,
        out == Some(DataCategory::Security) <==> item@.headers.ty is Security
            || item@.headers.ty is RawSecurity,
        out == Some(DataCategory::Attachment) <==> item@.headers.ty is Attachment,
        out == Some(DataCategory::Profile) <==> item@.headers.ty is Profile && !indexed,
        out == Some(DataCategory::ProfileIndexed) <==> item@.headers.ty is Profile && indexed,
        out == Some(DataCategory::Replay) <==> item@.headers.ty is ReplayEvent
            || item@.headers.ty is ReplayRecording,
        out == Some(DataCategory::Monitor) <==> item@.headers.ty is CheckIn,
        item@.headers.ty is Unknown ==> out is None,
{
}

/// Attachments count their bytes: two payloads put together count as much as both, and one byte
/// counts 1. Other items count the same whatever their payload.
pub proof fn law_quantity(a: Item, b: Item, both: Item, x: usize, y: usize, z: usize)
    requires
        call_ensures(Item::quantity, (&a,), x),
        call_ensures(Item::quantity, (&b,), y),
        call_ensures(Item::quantity, (&both,), z),
        a@.headers.ty == b@.headers.ty,
        a@.headers.ty == both@.headers.ty,
        both@.payload == a@.payload + b@.payload,
    ensures
        a@.headers.ty is Attachment ==> z == x + y,
        a@.headers.ty is Attachment && a@.payload.len() == 1 ==> x == 1,
        !(a@.headers.ty is Attachment) ==> x == 1 && x == y && y == z,
{
}

/// Whether an item is empty, how long it is and what its payload is agree.
pub proof fn law_payload_getters(item: Item, len: usize, empty: bool, payload: Bytes)
    requires
        call_ensures(Item::len, (&item,), len),
        call_ensures(Item::is_empty, (&item,), empty),
        call_ensures(Item::payload, (&item,), payload),
    ensures
        bytes_of(payload) == item@.payload,
        bytes_of(payload).len() == len,
        empty <==> len == 0,
{
}

/// The parts of an item.
pub enum Part {
    /// The type.
    Type,
    /// The stated length.
    Length,
    /// The attachment type.
    AttachmentType,
    /// The content type.
    ContentType,
    /// The file name.
    Filename,
    /// The flag for rate limiting.
    RateLimited,
    /// The sample rates.
    SampleRates,
    /// Whether metrics have been extracted.
    MetricsExtracted,
    /// Other attributes.
    Other,
    /// The payload.
    Payload,
}

/// Whether two items agree in all parts but some.
pub open spec fn alike_but(a: ItemView, b: ItemView, parts: Seq<Part>) -> bool {
    &&& parts.contains(Part::Type) || a.headers.ty == b.headers.ty
    &&& parts.contains(Part::Length) || a.headers.length == b.headers.length
    &&& parts.contains(Part::AttachmentType) || a.headers.attachment_type
        == b.headers.attachment_type
    &&& parts.contains(Part::ContentType) || a.headers.content_type == b.headers.content_type
    &&& parts.contains(Part::Filename) || a.headers.filename == b.headers.filename
    &&& parts.contains(Part::RateLimited) || a.headers.rate_limited == b.headers.rate_limited
    &&& parts.contains(Part::SampleRates) || a.headers.sample_rates == b.headers.sample_rates
    &&& parts.contains(Part::MetricsExtracted) || a.headers.metrics_extracted
        == b.headers.metrics_extracted
    &&& parts.contains(Part::Other) || a.headers.other == b.headers.other
    &&& parts.contains(Part::Payload) || a.payload == b.payload
}

/// A payload that is set is what the item then holds, with its length and content type, as far as a
/// length can be stated. Nothing else changes.
pub proof fn law_set_payload(content_type: ContentType, payload: Bytes)
    ensures
        forall|item: &mut Item| #[trigger]
            call_ensures(Item::set_payload::<Bytes>, (item, content_type, payload), ()) ==> {
                &&& bytes_of(payload).len() <= 0xffff_ffff ==> final(item)@.payload == bytes_of(
                    payload,
                )
                &&& final(item)@.payload == bytes_of(payload).take(
                    final(item)@.payload.len() as int,
                )
                &&& bytes_of(payload).len() > 0xffff_ffff ==> final(item)@.payload.len()
                    == 0xffff_ffff
                &&& final(item)@.headers.length is Some
                &&& final(item)@.headers.length->0 == final(item)@.payload.len()
                &&& final(item)@.headers.content_type == Some(content_type@)
                &&& alike_but(
                    item@,
                    final(item)@,
                    seq![Part::Length, Part::ContentType, Part::Payload],
                )
            },
{
    assert forall|item: &mut Item| #[trigger]
        call_ensures(Item::set_payload::<Bytes>, (item, content_type, payload), ()) implies {
        &&& bytes_of(payload).len() <= 0xffff_ffff ==> final(item)@.payload == bytes_of(payload)
        &&& final(item)@.payload == bytes_of(payload).take(final(item)@.payload.len() as int)
        &&& bytes_of(payload).len() > 0xffff_ffff ==> final(item)@.payload.len() == 0xffff_ffff
        &&& final(item)@.headers.length is Some
        &&& final(item)@.headers.length->0 == final(item)@.payload.len()
        &&& final(item)@.headers.content_type == Some(content_type@)
        &&& alike_but(
            item@,
            final(item)@,
            seq![Part::Length, Part::ContentType, Part::Payload],
        )
    } by {
        let parts = seq![Part::Length, Part::ContentType, Part::Payload];
        assert(parts[0] == Part::Length && parts[1] == Part::ContentType && parts[2]
            == Part::Payload);
        assert(bytes_of(payload).take(bytes_of(payload).len() as int) =~= bytes_of(payload));
    }
}

/// Cutting a payload off keeps its start, all of it if it is no longer than the limit.
pub proof fn law_cut_off(payload: Bytes, limit: usize, out: Bytes)
    requires
        call_ensures(cut_off, (payload, limit), out),
    ensures
        bytes_of(out).len() <= limit,
        bytes_of(out).len() <= bytes_of(payload).len(),
        bytes_of(out).len() == limit || bytes_of(out).len() == bytes_of(payload).len(),
        forall|i: int| 0 <= i < bytes_of(out).len() ==> bytes_of(out)[i] == bytes_of(payload)[i],
{
}

/// An attachment type that is set is the one the item then has. Nothing else changes.
pub proof fn law_set_attachment_type(ty: AttachmentType)
    ensures
        forall|item: &mut Item| #[trigger]
            call_ensures(Item::set_attachment_type, (item, ty), ()) ==> {
                &&& final(item)@.headers.attachment_type == Some(ty@)
                &&& alike_but(item@, final(item)@, seq![Part::AttachmentType])
                &&& forall|out: Option<&AttachmentType>| #[trigger]
                    call_ensures(Item::attachment_type, (final(item),), out) ==> opt_view(out)
                        == Some(ty@)
            },
{
    let parts = seq![Part::AttachmentType];
    assert(parts[0] == Part::AttachmentType);
}

/// A file name that is set is the one the item then has, for any text. Nothing else changes.
pub proof fn law_set_filename(name: String)
    ensures
        forall|item: &mut Item| #[trigger]
            call_ensures(Item::set_filename::<String>, (item, name), ()) ==> {
                &&& final(item)@.headers.filename == Some(name@)
                &&& alike_but(item@, final(item)@, seq![Part::Filename])
                &&& forall|out: Option<&str>| #[trigger]
                    call_ensures(Item::filename, (final(item),), out) ==> opt_view(out) == Some(
                        name@,
                    )
            },
{
    let parts = seq![Part::Filename];
    assert(parts[0] == Part::Filename);
}

/// The flags of an item are what they are set to, and setting one leaves the other.
pub proof fn law_set_flags(flag: bool)
    ensures
        forall|item: &mut Item| #[trigger]
            call_ensures(Item::set_rate_limited, (item, flag), ()) ==> {
                &&& alike_but(item@, final(item)@, seq![Part::RateLimited])
                &&& forall|out: bool| #[trigger]
                    call_ensures(Item::rate_limited, (final(item),), out) ==> out == flag
            },
        forall|item: &mut Item| #[trigger]
            call_ensures(Item::set_metrics_extracted, (item, flag), ()) ==> {
                &&& alike_but(item@, final(item)@, seq![Part::MetricsExtracted])
                &&& forall|out: bool| #[trigger]
                    call_ensures(Item::metrics_extracted, (final(item),), out) ==> out == flag
            },
{
    let a = seq![Part::RateLimited];
    let b = seq![Part::MetricsExtracted];
    assert(a[0] == Part::RateLimited && b[0] == Part::MetricsExtracted);
}

/// Sample rates are set by an array with at least one element, and taken out whole. Anything else
/// leaves the item as it is.
pub proof fn law_sample_rates(rates: Value)
    ensures
        forall|item: &mut Item| #[trigger]
            call_ensures(Item::set_sample_rates, (item, rates), ()) ==> {
                &&& alike_but(item@, final(item)@, seq![Part::SampleRates])
                &&& rates@ is Array && rates@->Array_0.len() > 0
                    ==> final(item)@.headers.sample_rates == Some(rates@)
                &&& !(rates@ is Array) || rates@->Array_0.len() == 0
                    ==> final(item)@.headers.sample_rates == item@.headers.sample_rates
            },
        forall|item: &mut Item, out: Option<Value>| #[trigger]
            call_ensures(Item::take_sample_rates, (item,), out) ==> {
                &&& alike_but(item@, final(item)@, seq![Part::SampleRates])
                &&& opt_view(out) == item@.headers.sample_rates
                &&& final(item)@.headers.sample_rates is None
            },
{
    let parts = seq![Part::SampleRates];
    assert(parts[0] == Part::SampleRates);
}

/// An attribute that is set is found under its name, what was there before is given back, and under
/// every other name the same is found as before. Nothing else changes.
pub proof fn law_set_header(name: String, value: Value, other: &str)
    ensures
        forall|item: &mut Item, previous: Option<Value>, out: Option<&Value>|
            #[trigger] call_ensures(
                Item::set_header::<String, Value>,
                (item, name, value),
                previous,
            ) && #[trigger] call_ensures(Item::get_header, (final(item), other), out) ==> {
                &&& alike_but(item@, final(item)@, seq![Part::Other])
                &&& opt_view(previous) == find(item@.headers.other, name@)
                &&& other@ == name@ ==> opt_view(out) == Some(value@)
                &&& other@ != name@ ==> opt_view(out) == find(item@.headers.other, other@)
            },
{
    let parts = seq![Part::Other];
    assert(parts[0] == Part::Other);
    assert forall|item: &mut Item, previous: Option<Value>, out: Option<&Value>|
        #[trigger] call_ensures(
            Item::set_header::<String, Value>,
            (item, name, value),
            previous,
        ) && #[trigger] call_ensures(Item::get_header, (final(item), other), out) implies {
        &&& alike_but(item@, final(item)@, seq![Part::Other])
        &&& opt_view(previous) == find(item@.headers.other, name@)
        &&& other@ == name@ ==> opt_view(out) == Some(value@)
        &&& other@ != name@ ==> opt_view(out) == find(item@.headers.other, other@)
    } by {
        lemma_find_placed(item@.headers.other, name@, value@, other@);
    }
}

/// A new item has its type, no payload, and nothing else set.
pub proof fn law_new(ty: ItemType, item: Item)
    requires
        call_ensures(Item::new, (ty,), item),
    ensures
        item@.headers.ty == ty@,
        item@.payload.len() == 0,
        item@.headers.length == Some(0u32),
        item@.headers.attachment_type is None,
        item@.headers.content_type is None,
        item@.headers.filename is None,
        item@.headers.sample_rates is None,
        !item@.headers.rate_limited,
        !item@.headers.metrics_extracted,
        forall|name: Seq<char>| #[trigger] find(item@.headers.other, name) is None,
{
}

/// Reading headers back loses nothing but the flag for rate limiting.
pub proof fn law_item_as_read(item: ItemView)
    ensures
        alike_but(item, item.as_read(), seq![Part::RateLimited]),
        !item.as_read().headers.rate_limited,
{
    let parts = seq![Part::RateLimited];
    assert(parts[0] == Part::RateLimited);
}

/// A clone of an item is the same item.
pub proof fn law_item_clone(item: Item, copy: Item)
    requires
        call_ensures(<Item as Clone>::clone, (&item,), copy),
    ensures
        alike_but(item@, copy@, Seq::empty()),
{
}

/// A new item gives the type it was made with, and a content type that comes with a payload is
/// given back.
pub proof fn law_item_getters(
    ty: ItemType,
    item: Item,
    given: &ItemType,
    content_type: ContentType,
    payload: Bytes,
)
    requires
        call_ensures(Item::new, (ty,), item),
        call_ensures(Item::ty, (&item,), given),
    ensures
        given@ == ty@,
        forall|changed: &mut Item, out: Option<&ContentType>|
            #[trigger] call_ensures(
                Item::set_payload::<Bytes>,
                (changed, content_type, payload),
                (),
            ) && #[trigger] call_ensures(Item::content_type, (final(changed),), out) ==> opt_view(
                out,
            ) == Some(content_type@),
{
}

/// Headers are written without line breaks, whatever they hold.
pub proof fn law_header_line(item: Item, text: Vec<u8>)
    requires
        call_ensures(Item::header_text, (&item,), text),
    ensures
        forall|i: int| 0 <= i < text@.len() ==> text@[i] != 10,
{
    assert forall|i: int| 0 <= i < text@.len() implies text@[i] != 10 by {
        assert(text@.contains(text@[i]));
    }
}

} // verus!
