//! Laws of the layout in bytes: how payloads are framed, and how an envelope is put together from
//! its headers and its items.
use crate::dsc::DynamicSamplingContext;
use crate::envelope::Envelope;
use crate::error::{EnvelopeError, Failure};
use crate::fault::{HeaderError, HeaderFault};
use crate::header_map::find;
use crate::headers::{
    completed, full_headers_of, headers_of, EnvelopeHeaders, EnvelopeHeadersView,
};
use crate::item::{Item, ItemView};
use crate::item_headers::{item_headers_of, ItemHeaders, ItemHeadersView};
use crate::items::{item_views, items_seq, Items};
use crate::json::{
    json_prefix, members_view, within, JsonPrefix, MemberView, Value, ValueView,
};
use crate::meta::{MetaView, PartialMeta, RequestMeta};
use crate::object::{
    lemma_skip_space, read_object, scan_member, scan_members, scan_object, skip_space, tail,
    ObjectScan,
};
use crate::payload::bytes_of;
use crate::stated::last;
use crate::wire::{
    item_behind, lemma_item_takes_bytes, lemma_line_end_at, scan_envelope, scan_headers, scan_item,
    scan_items, scan_request,
};
use bytes::Bytes;
use vstd::prelude::*;

verus! {

/// Whether a payload can be told from what follows it: it is as long as stated, or no length is
/// stated and it has no line break.
pub open spec fn told_apart(length: Option<u32>, payload: Seq<u8>) -> bool {
    match length {
        Some(length) => length == payload.len(),
        None => forall|i: int| 0 <= i < payload.len() ==> payload[i] != 0x0a,
    }
}

/// A payload between the line break behind its headers and another line break is read as it is,
/// whatever follows.
pub proof fn law_payload(
    head: Seq<u8>,
    headers: ItemHeadersView,
    payload: Seq<u8>,
    rest: Seq<u8>,
)
    requires
        told_apart(headers.length, payload),
    ensures
        item_behind(
            head + seq![0x0au8] + payload + seq![0x0au8] + rest,
            headers,
            head.len() as int,
        ) == Ok::<_, Failure>(
            (ItemView { headers, payload }, head.len() as int + payload.len() as int + 2),
        ),
{
    let s = head + seq![0x0au8] + payload + seq![0x0au8] + rest;
    let start = head.len() as int + 1;
    let stop = start + payload.len() as int;
    assert(s[head.len() as int] == 0x0a);
    assert(s[stop] == 0x0a);
    assert(s.subrange(start, stop) =~= payload);
    if headers.length is None {
        assert forall|i: int| start <= i < stop implies s[i] != 0x0a by {
            assert(s[i] == payload[i - start]);
        }
        lemma_line_end_at(s, start, stop);
    }
}

/// A payload at the end is read as it is, without a line break behind it.
pub proof fn law_last_payload(head: Seq<u8>, headers: ItemHeadersView, payload: Seq<u8>)
    requires
        told_apart(headers.length, payload),
    ensures
        item_behind(head + seq![0x0au8] + payload, headers, head.len() as int) == Ok::<_, Failure>(
            (ItemView { headers, payload }, head.len() as int + payload.len() as int + 2),
        ),
        payload.len() == 0 ==> item_behind(head, headers, head.len() as int) == Ok::<_, Failure>(
            (ItemView { headers, payload }, head.len() as int + 1),
        ),
{
    let s = head + seq![0x0au8] + payload;
    let start = head.len() as int + 1;
    assert(s[head.len() as int] == 0x0a);
    assert(s.subrange(start, s.len() as int) =~= payload);
    if headers.length is None {
        assert forall|i: int| start <= i < s.len() implies s[i] != 0x0a by {
            assert(s[i] == payload[i - start]);
        }
        lemma_line_end_at(s, start, s.len() as int);
    }
    if payload.len() == 0 {
        assert(head.subrange(head.len() as int, head.len() as int) =~= payload);
    }
}

/// A payload of which not all is there ends the input too early.
pub proof fn law_payload_too_short(
    head: Seq<u8>,
    headers: ItemHeadersView,
    length: u32,
    body: Seq<u8>,
)
    requires
        headers.length == Some(length),
        body.len() < length,
    ensures
        item_behind(head + seq![0x0au8] + body, headers, head.len() as int) == Err::<
            (ItemView, int),
            _,
        >(Failure::UnexpectedEof),
        item_behind(head, headers, head.len() as int) == Err::<(ItemView, int), _>(
            Failure::UnexpectedEof,
        ),
{
    assert((head + seq![0x0au8] + body)[head.len() as int] == 0x0a);
}

/// Anything but a line break behind the headers, or behind a payload of stated length, is refused.
pub proof fn law_missing_line_break(
    head: Seq<u8>,
    headers: ItemHeadersView,
    payload: Seq<u8>,
    byte: u8,
    rest: Seq<u8>,
)
    requires
        byte != 0x0a,
    ensures
        item_behind(head + seq![byte] + rest, headers, head.len() as int) == Err::<
            (ItemView, int),
            _,
        >(Failure::MissingNewline),
        headers.length is Some && headers.length->0 == payload.len() ==> item_behind(
            head + seq![0x0au8] + payload + seq![byte] + rest,
            headers,
            head.len() as int,
        ) == Err::<(ItemView, int), _>(Failure::MissingNewline),
{
    assert((head + seq![byte] + rest)[head.len() as int] == byte);
    let s = head + seq![0x0au8] + payload + seq![byte] + rest;
    assert(s[head.len() as int] == 0x0a);
    assert(s[head.len() as int + 1 + payload.len() as int] == byte);
}

/// What a call that reads a payload returns for any headers and payload.
pub proof fn law_payload_call(
    bytes: Bytes,
    headers: ItemHeaders,
    headers_end: usize,
    out: Result<(Item, usize), EnvelopeError>,
    payload: Seq<u8>,
    rest: Seq<u8>,
)
    requires
        call_ensures(Envelope::parse_payload, (bytes, headers, headers_end), out),
        headers@.wf(),
        headers_end < bytes_of(bytes).len(),
        bytes_of(bytes) == bytes_of(bytes).take(headers_end as int) + seq![0x0au8] + payload
            + seq![0x0au8] + rest,
        told_apart(headers@.length, payload),
    ensures
        out matches Ok((item, size)) && item@.headers == headers@ && item@.payload == payload
            && size == headers_end + payload.len() + 2,
{
    law_payload(bytes_of(bytes).take(headers_end as int), headers@, payload, rest);
}

/// An item is read from a header object, a line break, its payload and another line break, whatever
/// follows. Where the object is none that headers can be, the item is refused for that.
pub proof fn law_item(
    head: Seq<u8>,
    members: Seq<MemberView>,
    payload: Seq<u8>,
    rest: Seq<u8>,
    headers: ItemHeadersView,
    fault: HeaderFault,
)
    ensures
        ({
            let s = head + seq![0x0au8] + payload + seq![0x0au8] + rest;
            scan_object(s) == ObjectScan::Read(members, head.len() as int) ==> {
                &&& item_headers_of(members) == Ok::<_, HeaderFault>(headers) && told_apart(
                    headers.length,
                    payload,
                ) ==> scan_item(s) == Ok::<_, Failure>(
                    (ItemView { headers, payload }, head.len() as int + payload.len() as int + 2),
                )
                &&& item_headers_of(members) == Err::<ItemHeadersView, _>(fault) ==> scan_item(s)
                    == Err::<(ItemView, int), _>(Failure::InvalidItemHeader(fault))
            }
        }),
        scan_object(head) == ObjectScan::Missing ==> scan_item(head) == Err::<(ItemView, int), _>(
            Failure::UnexpectedEof,
        ),
        scan_object(head) == ObjectScan::Faulty(fault) ==> scan_item(head) == Err::<
            (ItemView, int),
            _,
        >(Failure::InvalidItemHeader(fault)),
{
    if told_apart(headers.length, payload) {
        law_payload(head, headers, payload, rest);
    }
}

/// Items are read one after another, all of them, in their order, and the first one that is refused
/// decides.
pub proof fn law_items_in_order(
    s: Seq<u8>,
    offset: int,
    item: ItemView,
    size: int,
    failure: Failure,
)
    ensures
        offset >= s.len() ==> scan_items(s, offset) == Ok::<_, Failure>(Seq::<ItemView>::empty()),
        offset < s.len() && scan_item(tail(s, offset)) == Err::<(ItemView, int), _>(failure)
            ==> scan_items(s, offset) == Err::<Seq<ItemView>, _>(failure),
        offset < s.len() && scan_item(tail(s, offset)) == Ok::<_, Failure>((item, size)) ==> {
            &&& size > 0
            &&& scan_items(s, offset) is Ok <==> scan_items(s, offset + size) is Ok
            &&& scan_items(s, offset) matches Err(failure) ==> scan_items(s, offset + size)
                == Err::<Seq<ItemView>, _>(failure)
            &&& scan_items(s, offset) matches Ok(items) ==> items.len() > 0 && items[0] == item
                && scan_items(s, offset + size) == Ok::<_, Failure>(items.drop_first())
        },
{
    if offset < s.len() {
        lemma_item_takes_bytes(tail(s, offset));
        if let Ok(more) = scan_items(s, offset + size) {
            assert((seq![item] + more).drop_first() =~= more);
        }
    }
}

/// Reading items and reading the first of them agree.
pub proof fn law_items_calls(
    bytes: Bytes,
    first: Bytes,
    offset: usize,
    items: Result<Items, EnvelopeError>,
    one: Result<(Item, usize), EnvelopeError>,
)
    requires
        call_ensures(Envelope::parse_items, (&bytes, offset), items),
        call_ensures(Envelope::parse_item, (first,), one),
        offset < bytes_of(bytes).len(),
        bytes_of(first) == tail(bytes_of(bytes), offset as int),
    ensures
        one matches Err(error) ==> (items matches Err(other) && other@ == error@),
        items matches Ok(all) ==> {
            &&& one matches Ok((item, size))
            &&& items_seq(all).len() > 0
            &&& items_seq(all)[0]@ == item@
            &&& forall|next: usize, more: Result<Items, EnvelopeError>|
                next == offset + size && #[trigger] call_ensures(
                    Envelope::parse_items,
                    (&bytes, next),
                    more,
                ) ==> (more matches Ok(rest) && item_views(items_seq(rest)) == item_views(
                    items_seq(all),
                ).drop_first())
        },
{
    let s = bytes_of(bytes);
    if let Ok((item, size)) = one {
        law_items_in_order(s, offset as int, item@, size as int, Failure::UnexpectedEof);
        if let Ok(all) = items {
            assert(item_views(items_seq(all))[0] == items_seq(all)[0]@);
        }
    }
    if let Err(error) = one {
        law_items_in_order(s, offset as int, arbitrary(), 0, error@);
    }
    if items is Ok {
        let failure = Failure::UnexpectedEof;
        law_items_in_order(s, offset as int, arbitrary(), 0, failure);
    }
}

/// The headers of an envelope are those that its first object states, and its items start behind
/// the line break that follows. Without a request, they must state the DSN.
pub proof fn law_headers(
    head: Seq<u8>,
    members: Seq<MemberView>,
    rest: Seq<u8>,
    headers: EnvelopeHeadersView<MetaView>,
    fault: HeaderFault,
)
    requires
        scan_object(head + seq![0x0au8] + rest) == ObjectScan::Read(members, head.len() as int),
    ensures
        headers_of(members) == Ok::<_, HeaderFault>(headers) ==> scan_headers(
            head + seq![0x0au8] + rest,
            false,
        ) == Ok::<_, Failure>((headers, head.len() as int + 1)),
        headers_of(members) == Ok::<_, HeaderFault>(headers) && headers.meta.dsn is Some
            ==> scan_headers(head + seq![0x0au8] + rest, true) == Ok::<_, Failure>(
            (headers, head.len() as int + 1),
        ),
        headers_of(members) == Ok::<_, HeaderFault>(headers) && headers.meta.dsn is None
            ==> scan_headers(head + seq![0x0au8] + rest, true) is Err,
        headers_of(members) == Err::<EnvelopeHeadersView<MetaView>, _>(fault) ==> scan_headers(
            head + seq![0x0au8] + rest,
            false,
        ) == Err::<(EnvelopeHeadersView<MetaView>, int), _>(Failure::InvalidHeader(fault))
            && scan_headers(head + seq![0x0au8] + rest, true) == Err::<
            (EnvelopeHeadersView<MetaView>, int),
            _,
        >(Failure::InvalidHeader(fault)),
{
    assert((head + seq![0x0au8] + rest)[head.len() as int] == 0x0a);
}

/// Headers behind which something else than a line break stands are refused. So is input without an
/// object at its start.
pub proof fn law_headers_refused(
    head: Seq<u8>,
    members: Seq<MemberView>,
    byte: u8,
    rest: Seq<u8>,
    fault: HeaderFault,
    full: bool,
)
    ensures
        byte != 0x0a && scan_object(head + seq![byte] + rest) == ObjectScan::Read(
            members,
            head.len() as int,
        ) ==> scan_headers(head + seq![byte] + rest, full) is Err,
        byte != 0x0a && scan_object(head + seq![byte] + rest) == ObjectScan::Read(
            members,
            head.len() as int,
        ) && full_headers_of(members) is Ok ==> scan_headers(head + seq![byte] + rest, full)
            == Err::<(EnvelopeHeadersView<MetaView>, int), _>(Failure::MissingNewline),
        scan_object(head) == ObjectScan::Missing ==> scan_headers(head, full) == Err::<
            (EnvelopeHeadersView<MetaView>, int),
            _,
        >(Failure::MissingHeader),
        scan_object(head) == ObjectScan::Faulty(fault) ==> scan_headers(head, full) == Err::<
            (EnvelopeHeadersView<MetaView>, int),
            _,
        >(Failure::InvalidHeader(fault)),
{
    assert((head + seq![byte] + rest)[head.len() as int] == byte);
}

/// An envelope is read exactly where its headers and all items behind them are, and then it is
/// these.
pub proof fn law_envelope(
    s: Seq<u8>,
    headers: EnvelopeHeadersView<MetaView>,
    items: Seq<ItemView>,
)
    ensures
        scan_envelope(s) == Ok::<_, Failure>((headers, items)) <==> exists|offset: int|
            {
                &&& scan_headers(s, true) == Ok::<_, Failure>((headers, offset))
                &&& #[trigger] scan_items(s, offset) == Ok::<_, Failure>(items)
            },
        scan_headers(s, true) matches Err(failure) ==> scan_envelope(s) == Err::<
            (EnvelopeHeadersView<MetaView>, Seq<ItemView>),
            _,
        >(failure),
{
    if let Ok((_, offset)) = scan_headers(s, true) {
        if scan_items(s, offset) is Ok {
        }
    }
}

/// An envelope with a request is read exactly where its headers are, the request completes them,
/// and all items are read. Headers are refused before a mismatch is, and that before items are.
pub proof fn law_request(
    s: Seq<u8>,
    request: MetaView,
    done: EnvelopeHeadersView<MetaView>,
    items: Seq<ItemView>,
)
    ensures
        scan_request(s, request) == Ok::<_, Failure>((done, items)) <==> exists|
            headers: EnvelopeHeadersView<MetaView>,
            offset: int,
        |
            {
                &&& scan_headers(s, false) == Ok::<_, Failure>((headers, offset))
                &&& #[trigger] completed(headers, request) == Ok::<_, Failure>(done)
                &&& #[trigger] scan_items(s, offset) == Ok::<_, Failure>(items)
            },
        scan_headers(s, false) matches Err(failure) ==> scan_request(s, request) == Err::<
            (EnvelopeHeadersView<MetaView>, Seq<ItemView>),
            _,
        >(failure),
        scan_headers(s, false) matches Ok((headers, _)) ==> (completed(
            headers,
            request,
        ) matches Err(failure) ==> scan_request(s, request) == Err::<
            (EnvelopeHeadersView<MetaView>, Seq<ItemView>),
            _,
        >(failure)),
{
    if let Ok((headers, offset)) = scan_headers(s, false) {
        if completed(headers, request) is Ok && scan_items(s, offset) is Ok {
        }
    }
}

/// Parsing an envelope agrees with parsing its headers and then its items.
pub proof fn law_parse_calls(
    bytes: Bytes,
    slice: &[u8],
    envelope: Result<Box<Envelope>, EnvelopeError>,
    headers: Result<(EnvelopeHeaders, usize), EnvelopeError>,
)
    requires
        call_ensures(Envelope::parse_bytes, (bytes,), envelope),
        call_ensures(Envelope::parse_headers, (slice,), headers),
        slice@ == bytes_of(bytes),
        slice@.len() < usize::MAX,
    ensures
        headers matches Err(error) ==> (envelope matches Err(other) && other@ == error@),
        headers matches Ok((read, offset)) ==> forall|items: Result<Items, EnvelopeError>|
            #[trigger] call_ensures(Envelope::parse_items, (&bytes, offset), items) ==> {
                &&& items matches Err(error) ==> (envelope matches Err(other) && other@ == error@)
                &&& items matches Ok(all) ==> {
                    &&& envelope matches Ok(e)
                    &&& item_views(e@.items) == item_views(items_seq(all))
                    &&& e@.headers.event_id == read@.event_id
                    &&& e@.headers.meta.fields == read@.meta.fields
                    &&& e@.headers.retention == read@.retention
                    &&& e@.headers.sent_at == read@.sent_at
                    &&& e@.headers.trace == read@.trace
                    &&& e@.headers.other == read@.other
                }
            },
{
}

/// Parsing an envelope with a request agrees with parsing its headers, completing them and then
/// parsing its items.
pub proof fn law_parse_with_meta_calls(
    bytes: Bytes,
    slice: &[u8],
    request: RequestMeta,
    envelope: Result<Box<Envelope>, EnvelopeError>,
    headers: Result<(EnvelopeHeaders<PartialMeta>, usize), EnvelopeError>,
)
    requires
        call_ensures(Envelope::parse_with_meta, (bytes, request), envelope),
        call_ensures(Envelope::parse_partial_headers, (slice,), headers),
        slice@ == bytes_of(bytes),
        slice@.len() < usize::MAX,
    ensures
        headers matches Err(error) ==> (envelope matches Err(other) && other@ == error@),
        headers matches Ok((read, offset)) ==> forall|
            done: Result<EnvelopeHeaders, EnvelopeError>,
            items: Result<Items, EnvelopeError>,
        |
            #[trigger] call_ensures(EnvelopeHeaders::<PartialMeta>::complete, (read, request), done)
                && #[trigger] call_ensures(Envelope::parse_items, (&bytes, offset), items) ==> {
                &&& done matches Err(error) ==> (envelope matches Err(other) && other@ == error@)
                &&& done matches Ok(full) ==> {
                    &&& items matches Err(error) ==> (envelope matches Err(other) && other@
                        == error@)
                    &&& items matches Ok(all) ==> {
                        &&& envelope matches Ok(e)
                        &&& item_views(e@.items) == item_views(items_seq(all))
                        &&& e@.headers == full@
                    }
                }
            },
{
}

/// Parsing a request gives what parsing it without a fresh event id gives, but for an event id
/// where there is none and an item of a known type other than session health requires one.
pub proof fn law_parse_request_calls(
    bytes: Bytes,
    request: RequestMeta,
    a: Result<Box<Envelope>, EnvelopeError>,
    b: Result<Box<Envelope>, EnvelopeError>,
)
    requires
        call_ensures(Envelope::parse_request, (bytes, request), a),
        call_ensures(Envelope::parse_with_meta, (bytes, request), b),
    ensures
        a is Ok <==> b is Ok,
        a matches Err(error) ==> (b matches Err(other) && error@ == other@),
        a matches Ok(x) ==> {
            &&& b matches Ok(y)
            &&& item_views(x@.items) == item_views(y@.items)
            &&& x@.headers.meta == y@.headers.meta
            &&& x@.headers.retention == y@.headers.retention
            &&& x@.headers.sent_at == y@.headers.sent_at
            &&& x@.headers.trace == y@.headers.trace
            &&& x@.headers.other == y@.headers.other
            &&& y@.headers.event_id is Some ==> x@.headers.event_id == y@.headers.event_id
            &&& y@.headers.event_id is None ==> (x@.headers.event_id is Some <==> exists|i: int|
                {
                    &&& 0 <= i < x@.items.len()
                    &&& !((#[trigger] x@.items[i])@.headers.ty is Session)
                    &&& !(x@.items[i]@.headers.ty is Sessions)
                    &&& !(x@.items[i]@.headers.ty is Unknown)
                })
        },
{
    if let Ok(x) = a {
        if x@.requires_event() {
            let i = choose|i: int|
                0 <= i < x@.items.len() && crate::item::requires_event_of(
                    (#[trigger] x@.items[i])@.headers.ty,
                );
            assert(!(x@.items[i]@.headers.ty is Session));
        } else {
            assert forall|i: int| 0 <= i < x@.items.len() implies {
                ||| (#[trigger] x@.items[i])@.headers.ty is Session
                ||| x@.items[i]@.headers.ty is Sessions
                ||| x@.items[i]@.headers.ty is Unknown
            } by {
                assert(!crate::item::requires_event_of(x@.items[i]@.headers.ty));
            }
        }
    }
}

/// Whether a byte is a space, a tab, a line feed or a carriage return.
pub open spec fn is_blank(byte: u8) -> bool {
    byte == 32 || byte == 9 || byte == 10 || byte == 13
}

/// Bytes with some number of others before them.
pub open spec fn shifted(scan: ObjectScan, by: int) -> ObjectScan {
    match scan {
        ObjectScan::Read(members, end) => ObjectScan::Read(members, end + by),
        other => other,
    }
}

proof fn lemma_skip_shifted(space: Seq<u8>, s: Seq<u8>, pos: int)
    requires
        0 <= pos,
    ensures
        skip_space(space + s, pos + space.len()) == skip_space(s, pos) + space.len(),
    decreases s.len() - pos,
{
    if pos < s.len() {
        assert((space + s)[pos + space.len()] == s[pos]);
        if crate::object::is_space(s[pos]) {
            lemma_skip_shifted(space, s, pos + 1);
        }
    }
}

proof fn lemma_skip_blank(space: Seq<u8>, s: Seq<u8>, pos: int)
    requires
        0 <= pos <= space.len(),
        forall|i: int| 0 <= i < space.len() ==> is_blank(#[trigger] space[i]),
    ensures
        skip_space(space + s, pos) == skip_space(space + s, space.len() as int),
    decreases space.len() - pos,
{
    if pos < space.len() {
        assert(is_blank(space[pos]));
        assert((space + s)[pos] == space[pos]);
        lemma_skip_blank(space, s, pos + 1);
    }
}

proof fn lemma_tail_shifted(space: Seq<u8>, s: Seq<u8>, pos: int)
    requires
        0 <= pos <= s.len(),
    ensures
        tail(space + s, pos + space.len()) == tail(s, pos),
{
    assert(tail(space + s, pos + space.len()) =~= tail(s, pos));
}

proof fn lemma_member_shifted(space: Seq<u8>, s: Seq<u8>, pos: int)
    requires
        0 <= pos,
    ensures
        scan_member(space + s, pos + space.len()) == (match scan_member(s, pos) {
            Ok((member, end)) => Ok::<_, HeaderFault>((member, end + space.len())),
            Err(fault) => Err(fault),
        }),
{
    let t = space + s;
    let k = space.len() as int;
    let start = skip_space(s, pos);
    lemma_skip_space(s, pos);
    lemma_skip_shifted(space, s, pos);
    if start < s.len() {
        assert(t[start + k] == s[start]);
        lemma_tail_shifted(space, s, start);
        if s[start] == 0x22 {
            if let JsonPrefix::Parsed(_, len) = json_prefix(tail(s, start)) {
                lemma_skip_shifted(space, s, start + len);
                lemma_skip_space(s, start + len);
                let colon = skip_space(s, start + len);
                if colon < s.len() {
                    assert(t[colon + k] == s[colon]);
                    lemma_tail_shifted(space, s, colon + 1);
                }
            }
        }
    }
}

proof fn lemma_members_shifted(space: Seq<u8>, s: Seq<u8>, pos: int, seen: Seq<MemberView>)
    requires
        0 <= pos,
    ensures
        scan_members(space + s, pos + space.len(), seen) == shifted(
            scan_members(s, pos, seen),
            space.len() as int,
        ),
    decreases s.len() - pos,
{
    lemma_member_shifted(space, s, pos);
    if let Ok((member, end)) = scan_member(s, pos) {
        crate::object::lemma_scan_member_ends(s, pos);
        lemma_skip_shifted(space, s, end);
        lemma_skip_space(s, end);
        let next = skip_space(s, end);
        if next < s.len() {
            assert((space + s)[next + space.len()] == s[next]);
            if s[next] == 0x2c {
                lemma_members_shifted(space, s, next + 1, seen.push(member));
            }
        }
    }
}

/// Blanks in front of an object do not matter.
pub proof fn law_leading_blanks(space: Seq<u8>, s: Seq<u8>)
    requires
        forall|i: int| 0 <= i < space.len() ==> is_blank(#[trigger] space[i]),
    ensures
        scan_object(space + s) == shifted(scan_object(s), space.len() as int),
{
    let t = space + s;
    let k = space.len() as int;
    lemma_skip_blank(space, s, 0);
    lemma_skip_shifted(space, s, 0);
    lemma_skip_space(s, 0);
    let open = skip_space(s, 0);
    if open < s.len() {
        assert(t[open + k] == s[open]);
        lemma_skip_shifted(space, s, open + 1);
        lemma_skip_space(s, open + 1);
        let first = skip_space(s, open + 1);
        if first < s.len() {
            assert(t[first + k] == s[first]);
        }
        lemma_members_shifted(space, s, open + 1, Seq::empty());
    }
}

proof fn lemma_all_skipped(s: Seq<u8>, pos: int, i: int)
    requires
        0 <= pos <= i < skip_space(s, pos),
        pos <= s.len(),
    ensures
        i < s.len(),
        is_blank(s[i]),
    decreases s.len() - pos,
{
    if pos < s.len() && crate::object::is_space(s[pos]) {
        if i > pos {
            lemma_all_skipped(s, pos + 1, i);
        }
    }
}

/// There is no object exactly where there are nothing but blanks. Where the first byte that is no
/// blank is no opening brace, there is something else. An object that is read starts with an
/// opening brace and ends with a closing one.
pub proof fn law_object_braces(s: Seq<u8>)
    ensures
        scan_object(s) == ObjectScan::Missing <==> forall|i: int|
            0 <= i < s.len() ==> is_blank(#[trigger] s[i]),
        forall|first: int|
            0 <= first < s.len() && !is_blank(#[trigger] s[first]) && s[first] != 0x7b && (forall|
                i: int,
            |
                0 <= i < first ==> is_blank(#[trigger] s[i])) ==> scan_object(s)
                == ObjectScan::Faulty(HeaderFault::NotAnObject),
        scan_object(s) matches ObjectScan::Read(_, end) ==> 0 < end <= s.len() && s[end - 1] == 0x7d
            && exists|first: int|
            {
                &&& 0 <= first < end
                &&& #[trigger] s[first] == 0x7b
                &&& forall|i: int| 0 <= i < first ==> is_blank(#[trigger] s[i])
            },
{
    let open = skip_space(s, 0);
    lemma_skip_space(s, 0);
    assert forall|i: int| 0 <= i < open implies is_blank(#[trigger] s[i]) by {
        lemma_all_skipped(s, 0, i);
    }
    if open < s.len() {
        assert(!is_blank(s[open]));
        lemma_skip_space(s, open + 1);
        lemma_members_end_in_brace(s, open + 1, Seq::empty());
        if scan_object(s) is Read {
            assert(s[open] == 0x7b);
        }
    }
}

proof fn lemma_members_end_in_brace(s: Seq<u8>, pos: int, seen: Seq<MemberView>)
    requires
        0 <= pos,
    ensures
        !(scan_members(s, pos, seen) is Missing),
        scan_members(s, pos, seen) matches ObjectScan::Read(_, end) ==> pos < end <= s.len()
            && s[end - 1] == 0x7d,
    decreases s.len() - pos,
{
    crate::object::lemma_scan_member_ends(s, pos);
    if let Ok((member, end)) = scan_member(s, pos) {
        lemma_skip_space(s, end);
        let next = skip_space(s, end);
        if next < s.len() && s[next] == 0x2c {
            lemma_members_end_in_brace(s, next + 1, seen.push(member));
        }
    }
}

/// A value in some number of arrays and objects around it, from the outside in: `true` stands for
/// an object with the given name, `false` for an array.
pub open spec fn wrapped(value: ValueView, around: Seq<bool>, name: Seq<char>) -> ValueView
    decreases around.len(),
{
    if around.len() == 0 {
        value
    } else {
        let inner = wrapped(value, around.drop_first(), name);
        if around[0] {
            ValueView::Object(seq![(name, inner)])
        } else {
            ValueView::Array(seq![inner])
        }
    }
}

/// Nesting counts arrays as well as objects: a value without parts in `n` of them is nested `n`
/// deep.
pub proof fn law_nesting(value: ValueView, around: Seq<bool>, name: Seq<char>, limit: nat)
    requires
        !(value is Array),
        !(value is Object),
    ensures
        within(wrapped(value, around, name), limit) <==> around.len() <= limit,
    decreases around.len(),
{
    if around.len() > 0 {
        let inner = wrapped(value, around.drop_first(), name);
        let outer = wrapped(value, around, name);
        if limit > 0 {
            law_nesting(value, around.drop_first(), name, (limit - 1) as nat);
            if around[0] {
                assert(outer->Object_0[0].1 == inner);
                if within(inner, (limit - 1) as nat) {
                    assert forall|i: int| 0 <= i < outer->Object_0.len() implies within(
                        (#[trigger] outer->Object_0[i]).1,
                        (limit - 1) as nat,
                    ) by {}
                }
            } else {
                assert(outer->Array_0[0] == inner);
                if within(inner, (limit - 1) as nat) {
                    assert forall|i: int| 0 <= i < outer->Array_0.len() implies within(
                        #[trigger] outer->Array_0[i],
                        (limit - 1) as nat,
                    ) by {}
                }
            }
        }
    }
}

/// An item is what stands behind the headers that its object states.
pub proof fn law_item_behind(
    s: Seq<u8>,
    members: Seq<MemberView>,
    end: int,
    headers: ItemHeadersView,
)
    requires
        scan_object(s) == ObjectScan::Read(members, end),
        item_headers_of(members) == Ok::<_, HeaderFault>(headers),
    ensures
        scan_item(s) == item_behind(s, headers, end),
        scan_item(s) matches Ok((item, _)) ==> item.headers == headers,
{
}

/// Headers at the end need no line break behind them.
pub proof fn law_last_headers(
    head: Seq<u8>,
    members: Seq<MemberView>,
    headers: EnvelopeHeadersView<MetaView>,
)
    requires
        scan_object(head) == ObjectScan::Read(members, head.len() as int),
        headers_of(members) == Ok::<_, HeaderFault>(headers),
        headers.meta.dsn is Some,
    ensures
        scan_headers(head, false) == Ok::<_, Failure>((headers, head.len() as int + 1)),
        scan_envelope(head) == Ok::<_, Failure>((headers, Seq::<ItemView>::empty())),
{
}

/// A position is terminated exactly where a line break stands there, or nothing does.
pub proof fn law_termination_call(slice: &[u8], offset: usize, out: Result<(), EnvelopeError>)
    requires
        call_ensures(Envelope::require_termination, (slice, offset), out),
    ensures
        out is Ok <==> offset >= slice@.len() || slice@[offset as int] == 10,
        out matches Err(error) ==> error is MissingNewline,
{
}

/// A part of a value is nested one less deep than the value, wherever it stands, and a value of
/// parts is nested no deeper than that.
pub proof fn law_nesting_of_parts(
    before: Seq<ValueView>,
    part: ValueView,
    behind: Seq<ValueView>,
    first: Seq<MemberView>,
    name: Seq<char>,
    last: Seq<MemberView>,
    limit: nat,
)
    ensures
        within(ValueView::Array(before + seq![part] + behind), limit + 1) ==> within(part, limit),
        within(ValueView::Object(first + seq![(name, part)] + last), limit + 1) ==> within(
            part,
            limit,
        ),
        within(part, limit) && within(ValueView::Array(before + behind), limit + 1) ==> within(
            ValueView::Array(before + seq![part] + behind),
            limit + 1,
        ),
        within(part, limit) && within(ValueView::Object(first + last), limit + 1) ==> within(
            ValueView::Object(first + seq![(name, part)] + last),
            limit + 1,
        ),
        within(ValueView::Array(Seq::empty()), 1),
        within(ValueView::Object(Seq::empty()), 1),
{
    let array = ValueView::Array(before + seq![part] + behind);
    let object = ValueView::Object(first + seq![(name, part)] + last);
    let fewer = ValueView::Array(before + behind);
    let less = ValueView::Object(first + last);
    assert(array->Array_0[before.len() as int] == part);
    assert(object->Object_0[first.len() as int].1 == part);
    if within(part, limit) && within(fewer, limit + 1) {
        assert forall|i: int| 0 <= i < array->Array_0.len() implies within(
            #[trigger] array->Array_0[i],
            limit,
        ) by {
            if i < before.len() {
                assert(array->Array_0[i] == fewer->Array_0[i]);
            } else if i > before.len() {
                assert(array->Array_0[i] == fewer->Array_0[i - 1]);
            }
        }
    }
    if within(part, limit) && within(less, limit + 1) {
        assert forall|i: int| 0 <= i < object->Object_0.len() implies within(
            (#[trigger] object->Object_0[i]).1,
            limit,
        ) by {
            if i < first.len() {
                assert(object->Object_0[i] == less->Object_0[i]);
            } else if i > first.len() {
                assert(object->Object_0[i] == less->Object_0[i - 1]);
            }
        }
    }
}

/// Parsing an item agrees with reading its object, its headers from that, and then its payload.
pub proof fn law_item_calls(
    bytes: Bytes,
    slice: &[u8],
    object: Option<Result<(Vec<(String, Value)>, usize), HeaderError>>,
    headers: Result<ItemHeaders, HeaderFault>,
    payload: Result<(Item, usize), EnvelopeError>,
    item: Result<(Item, usize), EnvelopeError>,
)
    requires
        slice@ == bytes_of(bytes),
        call_ensures(read_object, (slice,), object),
        call_ensures(Envelope::parse_item, (bytes,), item),
        object matches Some(Ok((members, end))) ==> call_ensures(
            ItemHeaders::from_members,
            (&members,),
            headers,
        ) && (headers matches Ok(read) ==> call_ensures(
            Envelope::parse_payload,
            (bytes, read, end),
            payload,
        )),
    ensures
        object is None ==> (item matches Err(error) && error is UnexpectedEof),
        object matches Some(Err(fault)) ==> (item matches Err(EnvelopeError::InvalidItemHeader(e))
            && e.fault == fault.fault && (e.source is Some <==> fault.source is Some)),
        object matches Some(Ok(_)) ==> {
            &&& headers matches Err(fault) ==> (item matches Err(
                EnvelopeError::InvalidItemHeader(e),
            ) && e.fault == fault && e.source is None)
            &&& headers matches Ok(_) ==> {
                &&& payload matches Ok((p, size)) ==> (item matches Ok((i, n)) && i@ == p@ && n
                    == size)
                &&& payload matches Err(p) ==> (item matches Err(i) && i@ == p@)
            }
        },
{
}

/// Parsing the headers of an envelope agrees with reading its object and the headers from that.
pub proof fn law_headers_calls(
    slice: &[u8],
    object: Option<Result<(Vec<(String, Value)>, usize), HeaderError>>,
    read: Result<EnvelopeHeaders<PartialMeta>, HeaderFault>,
    headers: Result<(EnvelopeHeaders<PartialMeta>, usize), EnvelopeError>,
)
    requires
        slice@.len() < usize::MAX,
        call_ensures(read_object, (slice,), object),
        call_ensures(Envelope::parse_partial_headers, (slice,), headers),
        object matches Some(Ok((members, _))) ==> call_ensures(
            EnvelopeHeaders::<PartialMeta>::from_members,
            (&members,),
            read,
        ),
    ensures
        object is None ==> (headers matches Err(error) && error is MissingHeader),
        object matches Some(Err(fault)) ==> (headers matches Err(EnvelopeError::InvalidHeader(e))
            && e.fault == fault.fault && (e.source is Some <==> fault.source is Some)),
        object matches Some(Ok((_, end))) ==> {
            &&& read matches Err(fault) ==> (headers matches Err(EnvelopeError::InvalidHeader(e))
                && e.fault == fault && e.source is None)
            &&& read matches Ok(h) ==> {
                &&& end >= slice@.len() || slice@[end as int] == 10 ==> (headers matches Ok((g, n))
                    && g@ == h@ && n == end + 1)
                &&& end < slice@.len() && slice@[end as int] != 10 ==> (headers matches Err(error)
                    && error is MissingNewline)
            }
        },
{
}

/// Reading headers from members gives what the members state.
pub proof fn law_from_members_calls(
    members: Vec<(String, Value)>,
    item: Result<ItemHeaders, HeaderFault>,
    envelope: Result<EnvelopeHeaders<PartialMeta>, HeaderFault>,
    context: DynamicSamplingContext,
)
    requires
        call_ensures(ItemHeaders::from_members, (&members,), item),
        call_ensures(EnvelopeHeaders::<PartialMeta>::from_members, (&members,), envelope),
        call_ensures(DynamicSamplingContext::from_members, (&members,), context),
    ensures
        item matches Ok(headers) ==> item_headers_of(members_view(members@)) == Ok::<
            _,
            HeaderFault,
        >(headers@),
        item is Err <==> item_headers_of(members_view(members@)) is Err,
        envelope matches Ok(headers) ==> headers_of(members_view(members@)) == Ok::<_, HeaderFault>(
            headers@,
        ),
        envelope is Err <==> headers_of(members_view(members@)) is Err,
        forall|name: Seq<char>, at: int| #[trigger]
            last(members_view(members@), name, at) ==> find(context@, name) == Some(
                members@[at].1@,
            ),
{
    assert forall|name: Seq<char>, at: int| #[trigger]
        last(members_view(members@), name, at) implies find(context@, name) == Some(
        members@[at].1@,
    ) by {
        crate::stated::lemma_left_over(members_view(members@), Seq::empty(), name, at);
    }
}

/// Whether there are nothing but blanks from `from` up to `to`.
pub open spec fn blanks(s: Seq<u8>, from: int, to: int) -> bool {
    0 <= from <= to <= s.len() && forall|i: int| from <= i < to ==> is_blank(#[trigger] s[i])
}

proof fn lemma_skip_to(s: Seq<u8>, from: int, to: int)
    requires
        blanks(s, from, to),
        to < s.len() ==> !is_blank(s[to]),
    ensures
        skip_space(s, from) == to,
    decreases to - from,
{
    if from < to {
        assert(is_blank(s[from]));
        lemma_skip_to(s, from + 1, to);
    }
}

/// A member is a name in quotes, a colon and a value, with blanks before the name and before the
/// colon. It ends where the value does.
pub proof fn law_member(
    s: Seq<u8>,
    pos: int,
    start: int,
    name: Seq<char>,
    name_len: nat,
    colon: int,
    value: ValueView,
    value_len: nat,
)
    requires
        blanks(s, pos, start),
        start < s.len(),
        s[start] == 34,
        json_prefix(tail(s, start)) == JsonPrefix::Parsed(ValueView::String(name), name_len),
        blanks(s, start + name_len, colon),
        colon < s.len(),
        !is_blank(s[colon]),
    ensures
        s[colon] == 58 && json_prefix(tail(s, colon + 1)) == JsonPrefix::Parsed(value, value_len)
            && within(value, 126) ==> scan_member(s, pos) == Ok::<_, HeaderFault>(
            ((name, value), colon + 1 + value_len),
        ),
        s[colon] == 58 && json_prefix(tail(s, colon + 1)) == JsonPrefix::Parsed(value, value_len)
            && !within(value, 126) ==> scan_member(s, pos) is Err,
        s[colon] == 58 && !(json_prefix(tail(s, colon + 1)) is Parsed) ==> scan_member(s, pos)
            is Err,
        s[colon] != 58 ==> scan_member(s, pos) is Err,
{
    lemma_skip_to(s, pos, start);
    lemma_skip_to(s, start + name_len, colon);
}

/// What does not start with a name in quotes is no member.
pub proof fn law_no_member(s: Seq<u8>, pos: int, start: int)
    requires
        blanks(s, pos, start),
        start < s.len() ==> !is_blank(s[start]),
        start < s.len() && s[start] == 34 ==> !(json_prefix(
            tail(s, start),
        ) matches JsonPrefix::Parsed(ValueView::String(_), _)),
    ensures
        scan_member(s, pos) is Err,
{
    lemma_skip_to(s, pos, start);
}

/// Behind a member, blanks apart, stands the closing brace, or a comma and further members. Members
/// are kept in their order.
pub proof fn law_members(
    s: Seq<u8>,
    pos: int,
    seen: Seq<MemberView>,
    member: MemberView,
    end: int,
    next: int,
)
    requires
        scan_member(s, pos) == Ok::<_, HeaderFault>((member, end)),
        blanks(s, end, next),
        next < s.len() ==> !is_blank(s[next]),
    ensures
        next < s.len() && s[next] == 125 ==> scan_members(s, pos, seen) == ObjectScan::Read(
            seen.push(member),
            next + 1,
        ),
        next < s.len() && s[next] == 44 ==> scan_members(s, pos, seen) == scan_members(
            s,
            next + 1,
            seen.push(member),
        ),
        next == s.len() || s[next] != 125 && s[next] != 44 ==> scan_members(s, pos, seen) is Faulty,
{
    lemma_skip_to(s, end, next);
}

/// An object is an opening brace, with blanks before it, and behind it a closing brace, blanks
/// apart, or members.
pub proof fn law_object(s: Seq<u8>, open: int, first: int)
    requires
        blanks(s, 0, open),
        open < s.len(),
        s[open] == 123,
        blanks(s, open + 1, first),
        first < s.len() ==> !is_blank(s[first]),
    ensures
        first < s.len() && s[first] == 125 ==> scan_object(s) == ObjectScan::Read(
            Seq::empty(),
            first + 1,
        ),
        first == s.len() || s[first] != 125 ==> scan_object(s) == scan_members(
            s,
            open + 1,
            Seq::empty(),
        ),
{
    lemma_skip_to(s, 0, open);
    lemma_skip_to(s, open + 1, first);
}

} // verus!
