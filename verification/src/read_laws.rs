//! Laws of reading headers: each field is read as it is stated, wherever it stands, and every other
//! attribute is kept.
use crate::attachment_type::{attachment_type_name, attachment_type_of};
use crate::content_type::content_type_of;
use crate::dsn::dsn_of;
use crate::event_id::event_id_of;
use crate::fault::{Field, HeaderFault};
use crate::fields::{names, value_of};
use crate::header_map::find;
use crate::headers::{envelope_fields, full_headers_of, headers_of, EnvelopeHeadersView};
use crate::item_headers::{item_fields, item_headers_of, ItemHeadersView};
use crate::item_type::{item_type_name, item_type_of};
use crate::json::{MemberView, ValueView};
use crate::meta::MetaView;
use crate::stated::{
    absent, last, lemma_left_over, lemma_value_absent, lemma_value_once, lemma_value_read,
    lemma_value_twice, once, twice,
};
use crate::timestamp::timestamp_of;
use vstd::prelude::*;

verus! {

/// Whether members state a name at most once, and if so with an acceptable value.
pub open spec fn at_most_once(
    members: Seq<MemberView>,
    name: Seq<char>,
    acceptable: spec_fn(ValueView) -> bool,
) -> bool {
    absent(members, name) || exists|at: int|
        #[trigger] once(members, name, at) && acceptable(members[at].1)
}

/// Whether a value is an integer from zero to `max`.
pub open spec fn whole(value: ValueView, max: int) -> bool {
    match value {
        ValueView::U64(n) => n <= max,
        ValueView::I64(n) => 0 <= n <= max,
        _ => false,
    }
}

/// The integer that a value is.
pub open spec fn integer(value: ValueView) -> int {
    match value {
        ValueView::U64(n) => n as int,
        ValueView::I64(n) => n as int,
        _ => 0,
    }
}

/// A field is stated at most once, and acceptably, exactly where it is not refused and what it
/// holds is acceptable.
proof fn lemma_at_most_once(
    members: Seq<MemberView>,
    field: Field,
    acceptable: spec_fn(ValueView) -> bool,
)
    ensures
        at_most_once(members, field.spec_name(), acceptable) <==> (value_of(
            members,
            field,
        ) matches Ok(value) && (value matches Some(v) ==> acceptable(v))),
{
    let name = field.spec_name();
    if at_most_once(members, name, acceptable) {
        if absent(members, name) {
            lemma_value_absent(members, field);
        } else {
            let at = choose|at: int|
                #[trigger] once(members, name, at) && acceptable(members[at].1);
            lemma_value_once(members, field, at);
        }
    } else if value_of(members, field) is Ok {
        let at = lemma_value_read(members, field);
        if once(members, name, at) {
            lemma_value_once(members, field, at);
        }
    }
}

/// Whether a name is that of a field in the headers of an item.
pub open spec fn is_item_field(name: Seq<char>) -> bool {
    ||| name == "type"@
    ||| name == "length"@
    ||| name == "attachment_type"@
    ||| name == "content_type"@
    ||| name == "filename"@
    ||| name == "sample_rates"@
    ||| name == "metrics_extracted"@
}

/// Whether a name is that of a field in the headers of an envelope.
pub open spec fn is_envelope_field(name: Seq<char>) -> bool {
    ||| name == "event_id"@
    ||| name == "dsn"@
    ||| name == "client"@
    ||| name == "version"@
    ||| name == "origin"@
    ||| name == "remote_addr"@
    ||| name == "forwarded_for"@
    ||| name == "user_agent"@
    ||| name == "retention"@
    ||| name == "sent_at"@
    ||| name == "trace"@
}

/// The fields are those with these names.
pub proof fn lemma_item_field(name: Seq<char>)
    ensures
        names(item_fields(), name) <==> is_item_field(name),
{
    let fields = item_fields();
    assert(fields[0].spec_name() == Field::Type.spec_name());
    assert(fields[1].spec_name() == Field::Length.spec_name());
    assert(fields[2].spec_name() == Field::AttachmentType.spec_name());
    assert(fields[3].spec_name() == Field::ContentType.spec_name());
    assert(fields[4].spec_name() == Field::Filename.spec_name());
    assert(fields[5].spec_name() == Field::SampleRates.spec_name());
    assert(fields[6].spec_name() == Field::MetricsExtracted.spec_name());
    if names(fields, name) {
        let i = choose|i: int| 0 <= i < fields.len() && (#[trigger] fields[i]).spec_name() == name;
        assert(fields[i].spec_name() == name);
    }
}

/// The fields are those with these names.
pub proof fn lemma_envelope_field(name: Seq<char>)
    ensures
        names(envelope_fields(), name) <==> is_envelope_field(name),
{
    let fields = envelope_fields();
    assert(fields[0].spec_name() == Field::EventId.spec_name());
    assert(fields[1].spec_name() == Field::Dsn.spec_name());
    assert(fields[2].spec_name() == Field::Client.spec_name());
    assert(fields[3].spec_name() == Field::Version.spec_name());
    assert(fields[4].spec_name() == Field::Origin.spec_name());
    assert(fields[5].spec_name() == Field::RemoteAddr.spec_name());
    assert(fields[6].spec_name() == Field::ForwardedFor.spec_name());
    assert(fields[7].spec_name() == Field::UserAgent.spec_name());
    assert(fields[8].spec_name() == Field::Retention.spec_name());
    assert(fields[9].spec_name() == Field::SentAt.spec_name());
    assert(fields[10].spec_name() == Field::Trace.spec_name());
    if names(fields, name) {
        let i = choose|i: int| 0 <= i < fields.len() && (#[trigger] fields[i]).spec_name() == name;
        assert(fields[i].spec_name() == name);
    }
}

/// Every attribute in the headers of an item that is no field is kept, with the value that is
/// stated last, wherever it stands. Nothing else is.
pub proof fn law_item_attributes(
    members: Seq<MemberView>,
    headers: ItemHeadersView,
    name: Seq<char>,
    at: int,
)
    requires
        item_headers_of(members) == Ok::<_, HeaderFault>(headers),
    ensures
        !is_item_field(name) && last(members, name, at) ==> find(headers.other, name) == Some(
            members[at].1,
        ),
        absent(members, name) || is_item_field(name) ==> find(headers.other, name) is None,
{
    lemma_left_over(members, item_fields(), name, at);
    lemma_item_field(name);
}

/// Every attribute in the headers of an envelope that is no field is kept, with the value that is
/// stated last, wherever it stands. Nothing else is.
pub proof fn law_envelope_attributes(
    members: Seq<MemberView>,
    headers: EnvelopeHeadersView<MetaView>,
    name: Seq<char>,
    at: int,
)
    requires
        headers_of(members) == Ok::<_, HeaderFault>(headers),
    ensures
        !is_envelope_field(name) && last(members, name, at) ==> find(headers.other, name) == Some(
            members[at].1,
        ),
        absent(members, name) || is_envelope_field(name) ==> find(headers.other, name) is None,
{
    lemma_left_over(members, envelope_fields(), name, at);
    lemma_envelope_field(name);
}

/// An item has the type that is stated, and one must be stated.
pub proof fn law_item_type(members: Seq<MemberView>, headers: ItemHeadersView, at: int)
    requires
        item_headers_of(members) == Ok::<_, HeaderFault>(headers),
    ensures
        once(members, "type"@, at) ==> members[at].1 == ValueView::String(
            item_type_name(headers.ty),
        ) && headers.ty == item_type_of(item_type_name(headers.ty)) && !headers.rate_limited,
        !absent(members, "type"@),
{
    if once(members, "type"@, at) {
        lemma_value_once(members, Field::Type, at);
    }
    if absent(members, "type"@) {
        lemma_value_absent(members, Field::Type);
    }
}

/// The length is the integer that is stated.
pub proof fn law_item_length(members: Seq<MemberView>, headers: ItemHeadersView, at: int)
    requires
        item_headers_of(members) == Ok::<_, HeaderFault>(headers),
    ensures
        once(members, "length"@, at) ==> (match members[at].1 {
            ValueView::Null => headers.length is None,
            value => whole(value, 0xffff_ffff) && headers.length is Some && headers.length->0
                == integer(value),
        }),
        absent(members, "length"@) ==> headers.length is None,
{
    if once(members, "length"@, at) {
        lemma_value_once(members, Field::Length, at);
    }
    if absent(members, "length"@) {
        lemma_value_absent(members, Field::Length);
    }
}

/// The attachment type is the one whose name is stated.
pub proof fn law_item_attachment_type(members: Seq<MemberView>, headers: ItemHeadersView, at: int)
    requires
        item_headers_of(members) == Ok::<_, HeaderFault>(headers),
    ensures
        once(members, "attachment_type"@, at) ==> (match members[at].1 {
            ValueView::Null => headers.attachment_type is None,
            ValueView::String(text) => headers.attachment_type is Some && attachment_type_name(
                headers.attachment_type->0,
            ) == text && headers.attachment_type->0 == attachment_type_of(text),
            _ => false,
        }),
        absent(members, "attachment_type"@) ==> headers.attachment_type is None,
{
    if once(members, "attachment_type"@, at) {
        lemma_value_once(members, Field::AttachmentType, at);
    }
    if absent(members, "attachment_type"@) {
        lemma_value_absent(members, Field::AttachmentType);
    }
}

/// The content type is the one that is stated.
pub proof fn law_item_content_type(members: Seq<MemberView>, headers: ItemHeadersView, at: int)
    requires
        item_headers_of(members) == Ok::<_, HeaderFault>(headers),
    ensures
        once(members, "content_type"@, at) ==> (match members[at].1 {
            ValueView::Null => headers.content_type is None,
            ValueView::String(text) => headers.content_type == Some(content_type_of(text)),
            _ => false,
        }),
        absent(members, "content_type"@) ==> headers.content_type is None,
{
    if once(members, "content_type"@, at) {
        lemma_value_once(members, Field::ContentType, at);
    }
    if absent(members, "content_type"@) {
        lemma_value_absent(members, Field::ContentType);
    }
}

/// The file name is the text that is stated.
pub proof fn law_item_filename(members: Seq<MemberView>, headers: ItemHeadersView, at: int)
    requires
        item_headers_of(members) == Ok::<_, HeaderFault>(headers),
    ensures
        once(members, "filename"@, at) ==> (match members[at].1 {
            ValueView::Null => headers.filename is None,
            ValueView::String(text) => headers.filename == Some(text),
            _ => false,
        }),
        absent(members, "filename"@) ==> headers.filename is None,
{
    if once(members, "filename"@, at) {
        lemma_value_once(members, Field::Filename, at);
    }
    if absent(members, "filename"@) {
        lemma_value_absent(members, Field::Filename);
    }
}

/// The sample rates are the value that is stated, whatever it is.
pub proof fn law_item_sample_rates(members: Seq<MemberView>, headers: ItemHeadersView, at: int)
    requires
        item_headers_of(members) == Ok::<_, HeaderFault>(headers),
    ensures
        once(members, "sample_rates"@, at) ==> headers.sample_rates == (if members[at].1 is Null {
            None
        } else {
            Some(members[at].1)
        }),
        absent(members, "sample_rates"@) ==> headers.sample_rates is None,
{
    if once(members, "sample_rates"@, at) {
        lemma_value_once(members, Field::SampleRates, at);
    }
    if absent(members, "sample_rates"@) {
        lemma_value_absent(members, Field::SampleRates);
    }
}

/// Whether metrics have been extracted is the boolean that is stated, `false` as well as `true`.
pub proof fn law_item_metrics_extracted(members: Seq<MemberView>, headers: ItemHeadersView, at: int)
    requires
        item_headers_of(members) == Ok::<_, HeaderFault>(headers),
    ensures
        once(members, "metrics_extracted"@, at) ==> members[at].1 == ValueView::Bool(
            headers.metrics_extracted,
        ),
        absent(members, "metrics_extracted"@) ==> !headers.metrics_extracted,
{
    if once(members, "metrics_extracted"@, at) {
        lemma_value_once(members, Field::MetricsExtracted, at);
    }
    if absent(members, "metrics_extracted"@) {
        lemma_value_absent(members, Field::MetricsExtracted);
    }
}

/// The event identifier is the one whose text is stated.
pub proof fn law_envelope_event_id(
    members: Seq<MemberView>,
    headers: EnvelopeHeadersView<MetaView>,
    at: int,
)
    requires
        headers_of(members) == Ok::<_, HeaderFault>(headers),
    ensures
        once(members, "event_id"@, at) ==> (match members[at].1 {
            ValueView::Null => headers.event_id is None,
            ValueView::String(text) => headers.event_id matches Some(id) && event_id_of(text)
                == Some(id.0),
            _ => false,
        }),
        absent(members, "event_id"@) ==> headers.event_id is None,
{
    if once(members, "event_id"@, at) {
        lemma_value_once(members, Field::EventId, at);
    }
    if absent(members, "event_id"@) {
        lemma_value_absent(members, Field::EventId);
    }
}

/// The DSN is the one whose text is stated.
pub proof fn law_envelope_dsn(
    members: Seq<MemberView>,
    headers: EnvelopeHeadersView<MetaView>,
    at: int,
)
    requires
        headers_of(members) == Ok::<_, HeaderFault>(headers),
    ensures
        once(members, "dsn"@, at) ==> (match members[at].1 {
            ValueView::Null => headers.meta.dsn is None,
            ValueView::String(text) => headers.meta.dsn is Some && dsn_of(text) == headers.meta.dsn,
            _ => false,
        }),
        absent(members, "dsn"@) ==> headers.meta.dsn is None,
{
    if once(members, "dsn"@, at) {
        lemma_value_once(members, Field::Dsn, at);
    }
    if absent(members, "dsn"@) {
        lemma_value_absent(members, Field::Dsn);
    }
}

/// The client is the text that is stated.
pub proof fn law_envelope_client(
    members: Seq<MemberView>,
    headers: EnvelopeHeadersView<MetaView>,
    at: int,
)
    requires
        headers_of(members) == Ok::<_, HeaderFault>(headers),
    ensures
        once(members, "client"@, at) ==> (match members[at].1 {
            ValueView::Null => headers.meta.client is None,
            ValueView::String(text) => headers.meta.client == Some(text),
            _ => false,
        }),
        absent(members, "client"@) ==> headers.meta.client is None,
{
    if once(members, "client"@, at) {
        lemma_value_once(members, Field::Client, at);
    }
    if absent(members, "client"@) {
        lemma_value_absent(members, Field::Client);
    }
}

/// The protocol version is the integer that is stated, and 7 where none is.
pub proof fn law_envelope_version(
    members: Seq<MemberView>,
    headers: EnvelopeHeadersView<MetaView>,
    at: int,
)
    requires
        headers_of(members) == Ok::<_, HeaderFault>(headers),
    ensures
        once(members, "version"@, at) ==> whole(members[at].1, 0xffff) && headers.meta.version
            == integer(members[at].1),
        absent(members, "version"@) ==> headers.meta.version == 7,
{
    if once(members, "version"@, at) {
        lemma_value_once(members, Field::Version, at);
    }
    if absent(members, "version"@) {
        lemma_value_absent(members, Field::Version);
    }
}

/// The origin is the text that is stated.
pub proof fn law_envelope_origin(
    members: Seq<MemberView>,
    headers: EnvelopeHeadersView<MetaView>,
    at: int,
)
    requires
        headers_of(members) == Ok::<_, HeaderFault>(headers),
    ensures
        once(members, "origin"@, at) ==> (match members[at].1 {
            ValueView::Null => headers.meta.origin is None,
            ValueView::String(text) => headers.meta.origin == Some(text),
            _ => false,
        }),
        absent(members, "origin"@) ==> headers.meta.origin is None,
{
    if once(members, "origin"@, at) {
        lemma_value_once(members, Field::Origin, at);
    }
    if absent(members, "origin"@) {
        lemma_value_absent(members, Field::Origin);
    }
}

/// The remote address is the text that is stated.
pub proof fn law_envelope_remote_addr(
    members: Seq<MemberView>,
    headers: EnvelopeHeadersView<MetaView>,
    at: int,
)
    requires
        headers_of(members) == Ok::<_, HeaderFault>(headers),
    ensures
        once(members, "remote_addr"@, at) ==> (match members[at].1 {
            ValueView::Null => headers.meta.remote_addr is None,
            ValueView::String(text) => headers.meta.remote_addr == Some(text),
            _ => false,
        }),
        absent(members, "remote_addr"@) ==> headers.meta.remote_addr is None,
{
    if once(members, "remote_addr"@, at) {
        lemma_value_once(members, Field::RemoteAddr, at);
    }
    if absent(members, "remote_addr"@) {
        lemma_value_absent(members, Field::RemoteAddr);
    }
}

/// The addresses that were forwarded for are the text that is stated.
pub proof fn law_envelope_forwarded_for(
    members: Seq<MemberView>,
    headers: EnvelopeHeadersView<MetaView>,
    at: int,
)
    requires
        headers_of(members) == Ok::<_, HeaderFault>(headers),
    ensures
        once(members, "forwarded_for"@, at) ==> members[at].1 == ValueView::String(
            headers.meta.forwarded_for,
        ),
        absent(members, "forwarded_for"@) ==> headers.meta.forwarded_for.len() == 0,
{
    if once(members, "forwarded_for"@, at) {
        lemma_value_once(members, Field::ForwardedFor, at);
    }
    if absent(members, "forwarded_for"@) {
        lemma_value_absent(members, Field::ForwardedFor);
    }
}

/// The user agent is the text that is stated.
pub proof fn law_envelope_user_agent(
    members: Seq<MemberView>,
    headers: EnvelopeHeadersView<MetaView>,
    at: int,
)
    requires
        headers_of(members) == Ok::<_, HeaderFault>(headers),
    ensures
        once(members, "user_agent"@, at) ==> (match members[at].1 {
            ValueView::Null => headers.meta.user_agent is None,
            ValueView::String(text) => headers.meta.user_agent == Some(text),
            _ => false,
        }),
        absent(members, "user_agent"@) ==> headers.meta.user_agent is None,
{
    if once(members, "user_agent"@, at) {
        lemma_value_once(members, Field::UserAgent, at);
    }
    if absent(members, "user_agent"@) {
        lemma_value_absent(members, Field::UserAgent);
    }
}

/// The data retention is the integer that is stated.
pub proof fn law_envelope_retention(
    members: Seq<MemberView>,
    headers: EnvelopeHeadersView<MetaView>,
    at: int,
)
    requires
        headers_of(members) == Ok::<_, HeaderFault>(headers),
    ensures
        once(members, "retention"@, at) ==> (match members[at].1 {
            ValueView::Null => headers.retention is None,
            value => whole(value, 0xffff) && headers.retention is Some && headers.retention->0
                == integer(value),
        }),
        absent(members, "retention"@) ==> headers.retention is None,
{
    if once(members, "retention"@, at) {
        lemma_value_once(members, Field::Retention, at);
    }
    if absent(members, "retention"@) {
        lemma_value_absent(members, Field::Retention);
    }
}

/// The time of sending is the one whose text is stated.
pub proof fn law_envelope_sent_at(
    members: Seq<MemberView>,
    headers: EnvelopeHeadersView<MetaView>,
    at: int,
)
    requires
        headers_of(members) == Ok::<_, HeaderFault>(headers),
    ensures
        once(members, "sent_at"@, at) ==> (match members[at].1 {
            ValueView::Null => headers.sent_at is None,
            ValueView::String(text) => headers.sent_at is Some && timestamp_of(text)
                == headers.sent_at,
            _ => false,
        }),
        absent(members, "sent_at"@) ==> headers.sent_at is None,
{
    if once(members, "sent_at"@, at) {
        lemma_value_once(members, Field::SentAt, at);
    }
    if absent(members, "sent_at"@) {
        lemma_value_absent(members, Field::SentAt);
    }
}

/// A trace context is read where an object is stated. Anything else makes it unreadable, and not
/// the headers.
pub proof fn law_envelope_trace(
    members: Seq<MemberView>,
    headers: EnvelopeHeadersView<MetaView>,
    at: int,
)
    requires
        headers_of(members) == Ok::<_, HeaderFault>(headers),
    ensures
        once(members, "trace"@, at) ==> (match members[at].1 {
            ValueView::Null => headers.trace is None,
            ValueView::Object(_) => headers.trace matches Some(Ok(_)),
            _ => headers.trace matches Some(Err(_)),
        }),
        absent(members, "trace"@) ==> headers.trace is None,
{
    if once(members, "trace"@, at) {
        lemma_value_once(members, Field::Trace, at);
    }
    if absent(members, "trace"@) {
        lemma_value_absent(members, Field::Trace);
    }
}

/// A trace context keeps every value that is stated, under its name. Where two have one name, it
/// keeps the last.
pub proof fn law_trace_values(
    members: Seq<MemberView>,
    headers: EnvelopeHeadersView<MetaView>,
    at: int,
    name: Seq<char>,
    inner: int,
)
    requires
        headers_of(members) == Ok::<_, HeaderFault>(headers),
        once(members, "trace"@, at),
        members[at].1 is Object,
    ensures
        headers.trace matches Some(Ok(values)) && {
            &&& last(members[at].1->Object_0, name, inner) ==> find(values, name) == Some(
                members[at].1->Object_0[inner].1,
            )
            &&& absent(members[at].1->Object_0, name) ==> find(values, name) is None
        },
{
    lemma_value_once(members, Field::Trace, at);
    lemma_left_over(members[at].1->Object_0, Seq::empty(), name, inner);
}

/// Headers in which a field stands twice are refused.
pub proof fn law_repeated_field(members: Seq<MemberView>, name: Seq<char>, i: int, j: int)
    requires
        twice(members, name, i, j),
    ensures
        is_item_field(name) ==> item_headers_of(members) is Err,
        is_envelope_field(name) ==> headers_of(members) is Err,
{
    if name == Field::Type.spec_name() {
        lemma_value_twice(members, Field::Type, i, j);
    }
    if name == Field::Length.spec_name() {
        lemma_value_twice(members, Field::Length, i, j);
    }
    if name == Field::AttachmentType.spec_name() {
        lemma_value_twice(members, Field::AttachmentType, i, j);
    }
    if name == Field::ContentType.spec_name() {
        lemma_value_twice(members, Field::ContentType, i, j);
    }
    if name == Field::Filename.spec_name() {
        lemma_value_twice(members, Field::Filename, i, j);
    }
    if name == Field::SampleRates.spec_name() {
        lemma_value_twice(members, Field::SampleRates, i, j);
    }
    if name == Field::MetricsExtracted.spec_name() {
        lemma_value_twice(members, Field::MetricsExtracted, i, j);
    }
    if name == Field::EventId.spec_name() {
        lemma_value_twice(members, Field::EventId, i, j);
    }
    if name == Field::Dsn.spec_name() {
        lemma_value_twice(members, Field::Dsn, i, j);
    }
    if name == Field::Client.spec_name() {
        lemma_value_twice(members, Field::Client, i, j);
    }
    if name == Field::Version.spec_name() {
        lemma_value_twice(members, Field::Version, i, j);
    }
    if name == Field::Origin.spec_name() {
        lemma_value_twice(members, Field::Origin, i, j);
    }
    if name == Field::RemoteAddr.spec_name() {
        lemma_value_twice(members, Field::RemoteAddr, i, j);
    }
    if name == Field::ForwardedFor.spec_name() {
        lemma_value_twice(members, Field::ForwardedFor, i, j);
    }
    if name == Field::UserAgent.spec_name() {
        lemma_value_twice(members, Field::UserAgent, i, j);
    }
    if name == Field::Retention.spec_name() {
        lemma_value_twice(members, Field::Retention, i, j);
    }
    if name == Field::SentAt.spec_name() {
        lemma_value_twice(members, Field::SentAt, i, j);
    }
    if name == Field::Trace.spec_name() {
        lemma_value_twice(members, Field::Trace, i, j);
    }
}

/// The headers of an item are read exactly where the type is stated once as a text, and every other
/// field at most once with a value of its kind. Other attributes do not matter.
pub proof fn law_item_headers_accepted(members: Seq<MemberView>)
    ensures
        item_headers_of(members) is Ok <==> {
            &&& exists|at: int|
                #[trigger] once(members, "type"@, at) && members[at].1 is String
            &&& at_most_once(
                members,
                "length"@,
                |v: ValueView| v is Null || whole(v, 0xffff_ffff),
            )
            &&& at_most_once(members, "attachment_type"@, |v: ValueView| v is Null || v is String)
            &&& at_most_once(members, "content_type"@, |v: ValueView| v is Null || v is String)
            &&& at_most_once(members, "filename"@, |v: ValueView| v is Null || v is String)
            &&& at_most_once(members, "sample_rates"@, |v: ValueView| true)
            &&& at_most_once(members, "metrics_extracted"@, |v: ValueView| v is Bool)
        },
{
    let text = |v: ValueView| v is Null || v is String;
    lemma_at_most_once(members, Field::Length, |v: ValueView| v is Null || whole(v, 0xffff_ffff));
    lemma_at_most_once(members, Field::AttachmentType, text);
    lemma_at_most_once(members, Field::ContentType, text);
    lemma_at_most_once(members, Field::Filename, text);
    lemma_at_most_once(members, Field::SampleRates, |v: ValueView| true);
    lemma_at_most_once(members, Field::MetricsExtracted, |v: ValueView| v is Bool);
    lemma_at_most_once(members, Field::Type, |v: ValueView| v is String);
    if exists|at: int| #[trigger] once(members, "type"@, at) && members[at].1 is String {
        let at = choose|at: int| #[trigger] once(members, "type"@, at) && members[at].1 is String;
        lemma_value_once(members, Field::Type, at);
    } else if absent(members, "type"@) {
        lemma_value_absent(members, Field::Type);
    }
}

/// The headers of an envelope are read exactly where every field is stated at most once with a
/// value of its kind. Other attributes do not matter, nor does what a trace context holds.
pub proof fn law_envelope_headers_accepted(members: Seq<MemberView>)
    ensures
        headers_of(members) is Ok <==> {
            &&& at_most_once(
                members,
                "event_id"@,
                |v: ValueView|
                    v is Null || (v matches ValueView::String(t) && event_id_of(t) is Some),
            )
            &&& at_most_once(
                members,
                "dsn"@,
                |v: ValueView| v is Null || (v matches ValueView::String(t) && dsn_of(t) is Some),
            )
            &&& at_most_once(members, "client"@, |v: ValueView| v is Null || v is String)
            &&& at_most_once(members, "version"@, |v: ValueView| whole(v, 0xffff))
            &&& at_most_once(members, "origin"@, |v: ValueView| v is Null || v is String)
            &&& at_most_once(members, "remote_addr"@, |v: ValueView| v is Null || v is String)
            &&& at_most_once(members, "forwarded_for"@, |v: ValueView| v is String)
            &&& at_most_once(members, "user_agent"@, |v: ValueView| v is Null || v is String)
            &&& at_most_once(members, "retention"@, |v: ValueView| v is Null || whole(v, 0xffff))
            &&& at_most_once(
                members,
                "sent_at"@,
                |v: ValueView|
                    v is Null || (v matches ValueView::String(t) && timestamp_of(t) is Some),
            )
            &&& at_most_once(members, "trace"@, |v: ValueView| true)
        },
{
    let text = |v: ValueView| v is Null || v is String;
    lemma_at_most_once(
        members,
        Field::EventId,
        |v: ValueView| v is Null || (v matches ValueView::String(t) && event_id_of(t) is Some),
    );
    lemma_at_most_once(
        members,
        Field::Dsn,
        |v: ValueView| v is Null || (v matches ValueView::String(t) && dsn_of(t) is Some),
    );
    lemma_at_most_once(members, Field::Client, text);
    lemma_at_most_once(members, Field::Version, |v: ValueView| whole(v, 0xffff));
    lemma_at_most_once(members, Field::Origin, text);
    lemma_at_most_once(members, Field::RemoteAddr, text);
    lemma_at_most_once(members, Field::ForwardedFor, |v: ValueView| v is String);
    lemma_at_most_once(members, Field::UserAgent, text);
    lemma_at_most_once(members, Field::Retention, |v: ValueView| v is Null || whole(v, 0xffff));
    lemma_at_most_once(
        members,
        Field::SentAt,
        |v: ValueView| v is Null || (v matches ValueView::String(t) && timestamp_of(t) is Some),
    );
    lemma_at_most_once(members, Field::Trace, |v: ValueView| true);
}

/// Without a request, the same headers are read, but only where the DSN is stated.
pub proof fn law_full_headers(members: Seq<MemberView>, headers: EnvelopeHeadersView<MetaView>)
    ensures
        full_headers_of(members) == Ok::<_, HeaderFault>(headers) <==> headers_of(members) == Ok::<
            _,
            HeaderFault,
        >(headers) && headers.meta.dsn is Some,
{
}

} // verus!
