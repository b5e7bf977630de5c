//! Laws of writing headers: every field that is set and every other attribute is written, also
//! where reading would not give it back.
use crate::attachment_type::attachment_type_name;
use crate::content_type::content_type_text;
use crate::event_id::event_id_text;
use crate::fault::{Field, HeaderFault};
use crate::fields::value_of;
use crate::header_map::find;
use crate::headers::{envelope_fields, envelope_members, envelope_slots, EnvelopeHeadersView};
use crate::item_headers::{item_fields, item_members, item_slots, ItemHeadersView};
use crate::item_type::item_type_name;
use crate::json::{json_text, MemberView, ValueView};
use crate::layout::{distinct, lemma_slots_read, slot_fields, slot_members, Slot};
use crate::meta::MetaView;
use crate::object::{more_members_text, object_text};
use crate::timestamp::timestamp_text;
use vstd::prelude::*;

verus! {

/// The members that are written before the last `count` ones.
pub open spec fn all_but(members: Seq<MemberView>, count: nat) -> Seq<MemberView> {
    members.take(members.len() - count)
}

/// A text as a value, if there is one.
pub open spec fn as_text(text: Option<Seq<char>>) -> Option<ValueView> {
    match text {
        Some(text) => Some(ValueView::String(text)),
        None => None,
    }
}

proof fn lemma_known(slots: Seq<Slot>, other: Seq<MemberView>)
    requires
        distinct(slots),
    ensures
        all_but(slot_members(slots) + other, other.len()) == slot_members(slots),
        (slot_members(slots) + other).skip(slot_members(slots).len() as int) == other,
        forall|i: int|
            0 <= i < slots.len() ==> find(slot_members(slots), (#[trigger] slots[i]).0.spec_name())
                == slots[i].1,
{
    let known = slot_members(slots);
    let none = Seq::<MemberView>::empty();
    assert((known + other).take(known.len() as int) =~= known);
    assert((known + other).skip(known.len() as int) =~= other);
    lemma_slots_read(slots, none);
    assert(known + none =~= known);
    assert forall|i: int| 0 <= i < slots.len() implies find(
        known,
        (#[trigger] slots[i]).0.spec_name(),
    ) == slots[i].1 by {
        assert(value_of(known, slots[i].0) == Ok::<_, HeaderFault>(slots[i].1));
    }
}

/// What is written for the headers of an item: first what is set of the fields, each with what it
/// was set to, and then all other attributes as they are.
pub proof fn law_item_written(headers: ItemHeadersView)
    ensures
        ({
            let members = item_members(headers);
            let fields = all_but(members, headers.other.len());
            &&& members.len() >= headers.other.len()
            &&& members.skip(members.len() - headers.other.len()) == headers.other
            &&& find(fields, "type"@) == Some(ValueView::String(item_type_name(headers.ty)))
            &&& headers.length is None ==> find(fields, "length"@) is None
            &&& headers.length matches Some(n) ==> find(fields, "length"@) == Some(
                ValueView::U64(n as u64),
            )
            &&& headers.attachment_type is None ==> find(fields, "attachment_type"@) is None
            &&& headers.attachment_type matches Some(ty) ==> find(fields, "attachment_type"@)
                == Some(ValueView::String(attachment_type_name(ty)))
            &&& headers.content_type is None ==> find(fields, "content_type"@) is None
            &&& headers.content_type matches Some(ty) ==> find(fields, "content_type"@) == Some(
                ValueView::String(content_type_text(ty)),
            )
            &&& find(fields, "filename"@) == as_text(headers.filename)
            &&& find(fields, "sample_rates"@) == headers.sample_rates
            &&& headers.metrics_extracted ==> find(fields, "metrics_extracted"@) == Some(
                ValueView::Bool(true),
            )
            &&& !headers.metrics_extracted ==> find(fields, "metrics_extracted"@) is None
        }),
{
    let slots = item_slots(headers);
    assert(slot_fields(slots) =~= item_fields());
    lemma_known(slots, headers.other);
    assert(slots[0].0 == Field::Type);
    assert(slots[1].0 == Field::Length);
    assert(slots[2].0 == Field::AttachmentType);
    assert(slots[3].0 == Field::ContentType);
    assert(slots[4].0 == Field::Filename);
    assert(slots[5].0 == Field::SampleRates);
    assert(slots[6].0 == Field::MetricsExtracted);
}

/// What is written for the headers of an envelope: first what is set of the fields, each with what
/// it was set to, and then all other attributes as they are. A trace context that could not be read
/// is written as `null`.
pub proof fn law_headers_written(headers: EnvelopeHeadersView<MetaView>)
    ensures
        ({
            let members = envelope_members(headers);
            let fields = all_but(members, headers.other.len());
            &&& members.len() >= headers.other.len()
            &&& members.skip(members.len() - headers.other.len()) == headers.other
            &&& headers.event_id is None ==> find(fields, "event_id"@) is None
            &&& headers.event_id matches Some(id) ==> find(fields, "event_id"@) == Some(
                ValueView::String(event_id_text(id.0)),
            )
            &&& headers.meta.dsn is None ==> find(fields, "dsn"@) is None
            &&& headers.meta.dsn matches Some(dsn) ==> find(fields, "dsn"@) == Some(
                ValueView::String(dsn.text),
            )
            &&& find(fields, "client"@) == as_text(headers.meta.client)
            &&& find(fields, "version"@) == Some(ValueView::U64(headers.meta.version as u64))
            &&& find(fields, "origin"@) == as_text(headers.meta.origin)
            &&& find(fields, "remote_addr"@) == as_text(headers.meta.remote_addr)
            &&& headers.meta.forwarded_for.len() == 0 ==> find(fields, "forwarded_for"@) is None
            &&& headers.meta.forwarded_for.len() > 0 ==> find(fields, "forwarded_for"@) == Some(
                ValueView::String(headers.meta.forwarded_for),
            )
            &&& find(fields, "user_agent"@) == as_text(headers.meta.user_agent)
            &&& headers.retention is None ==> find(fields, "retention"@) is None
            &&& headers.retention matches Some(days) ==> find(fields, "retention"@) == Some(
                ValueView::U64(days as u64),
            )
            &&& headers.sent_at is None ==> find(fields, "sent_at"@) is None
            &&& headers.sent_at matches Some(time) ==> find(fields, "sent_at"@) == Some(
                ValueView::String(timestamp_text(time)),
            )
            &&& headers.trace is None ==> find(fields, "trace"@) is None
            &&& headers.trace matches Some(Err(_)) ==> find(fields, "trace"@) == Some(
                ValueView::Null,
            )
            &&& headers.trace matches Some(Ok(values)) ==> find(fields, "trace"@) == Some(
                ValueView::Object(values),
            )
        }),
{
    let slots = envelope_slots(headers);
    assert(slot_fields(slots) =~= envelope_fields());
    lemma_known(slots, headers.other);
    assert(slots[0].0 == Field::EventId);
    assert(slots[1].0 == Field::Dsn);
    assert(slots[2].0 == Field::Client);
    assert(slots[3].0 == Field::Version);
    assert(slots[4].0 == Field::Origin);
    assert(slots[5].0 == Field::RemoteAddr);
    assert(slots[6].0 == Field::ForwardedFor);
    assert(slots[7].0 == Field::UserAgent);
    assert(slots[8].0 == Field::Retention);
    assert(slots[9].0 == Field::SentAt);
    assert(slots[10].0 == Field::Trace);
}

proof fn lemma_more_members(members: Seq<MemberView>, member: MemberView)
    ensures
        more_members_text(members.push(member)) == more_members_text(members) + seq![44u8]
            + json_text(ValueView::String(member.0)) + seq![58u8] + json_text(member.1),
    decreases members.len(),
{
    let longer = members.push(member);
    if members.len() == 0 {
        assert(longer.drop_first() =~= Seq::<MemberView>::empty());
        assert(more_members_text(longer.drop_first()) =~= Seq::empty());
        assert(more_members_text(longer) =~= more_members_text(members) + seq![44u8] + json_text(
            ValueView::String(member.0),
        ) + seq![58u8] + json_text(member.1));
    } else {
        let rest = members.drop_first();
        lemma_more_members(rest, member);
        assert(longer.drop_first() =~= rest.push(member));
        assert(more_members_text(longer) =~= more_members_text(members) + seq![44u8] + json_text(
            ValueView::String(member.0),
        ) + seq![58u8] + json_text(member.1));
    }
}

/// The text of an object: braces around its members, each with its name, a colon and its value, and
/// commas between them. One member more adds just its own text.
pub proof fn law_object_text(members: Seq<MemberView>, member: MemberView)
    ensures
        object_text(Seq::empty()) == seq![123u8, 125u8],
        object_text(members.push(member)) == object_text(members).drop_last() + (if members.len()
            == 0 {
            Seq::empty()
        } else {
            seq![44u8]
        }) + json_text(ValueView::String(member.0)) + seq![58u8] + json_text(member.1) + seq![
            125u8,
        ],
{
    let longer = members.push(member);
    assert(object_text(Seq::empty()) =~= seq![123u8, 125u8]);
    if members.len() == 0 {
        assert(longer.drop_first() =~= Seq::<MemberView>::empty());
        assert(more_members_text(longer.drop_first()) =~= Seq::empty());
    } else {
        lemma_more_members(members.drop_first(), member);
        assert(longer.drop_first() =~= members.drop_first().push(member));
    }
    assert(object_text(longer) =~= object_text(members).drop_last() + (if members.len() == 0 {
        Seq::empty()
    } else {
        seq![44u8]
    }) + json_text(ValueView::String(member.0)) + seq![58u8] + json_text(member.1) + seq![125u8]);
}

} // verus!
