//! How an envelope is laid out in bytes.
//!
//! The headers of the envelope stand on the first line. Of each item follow its headers, on a line
//! of their own, and its payload, behind which there is a line break. The last line break can be
//! left out.
use crate::error::Failure;
use crate::fault::HeaderFault;
use crate::headers::{
    completed, envelope_members, full_headers_of, headers_of, lemma_completed_by_itself,
    lemma_read_headers_survive, EnvelopeHeadersView,
};
use crate::item::ItemView;
use crate::item_headers::{
    item_headers_of, item_members, lemma_read_item_headers_survive, ItemHeadersView,
};
use crate::json::ValueView;
use crate::meta::MetaView;
use crate::object::{
    all_keep, keeps, lemma_scan_object_ends, object_text, scan_object, scans_as, tail, ObjectScan,
};
use vstd::prelude::*;

verus! {

/// Whether a line break or the end of `s` is at `pos`.
pub open spec fn terminated(s: Seq<u8>, pos: int) -> bool {
    pos >= s.len() || s[pos] == 0x0a
}

/// The first position from `from` on with a line break, or else the end of `s`.
pub open spec fn line_end(s: Seq<u8>, from: int) -> int
    decreases s.len() - from,
{
    if from >= s.len() {
        s.len() as int
    } else if s[from] == 0x0a {
        from
    } else {
        line_end(s, from + 1)
    }
}

/// Where the payload that starts at `start` ends.
///
/// If its length is stated, all of it must be there, and a line break must follow unless it is the
/// last thing in `s`. Otherwise it extends to the end of the line.
pub open spec fn payload_end(s: Seq<u8>, start: int, length: Option<u32>) -> Result<int, Failure> {
    match length {
        Some(length) => if s.len() < start + length {
            Err(Failure::UnexpectedEof)
        } else if !terminated(s, start + length) {
            Err(Failure::MissingNewline)
        } else {
            Ok(start + length)
        },
        None => Ok(line_end(s, start)),
    }
}

/// The item whose headers end at `end` in `s`, and how many bytes it takes, the line break behind
/// it included.
pub open spec fn item_behind(s: Seq<u8>, headers: ItemHeadersView, end: int) -> Result<
    (ItemView, int),
    Failure,
> {
    if !terminated(s, end) {
        Err(Failure::MissingNewline)
    } else {
        let start = if end < s.len() {
            end + 1
        } else {
            s.len() as int
        };
        match payload_end(s, start, headers.length) {
            Err(failure) => Err(failure),
            Ok(stop) => Ok((ItemView { headers, payload: s.subrange(start, stop) }, stop + 1)),
        }
    }
}

/// The item at the start of `s`, and how many bytes it takes, the line break behind it included.
pub open spec fn scan_item(s: Seq<u8>) -> Result<(ItemView, int), Failure> {
    match scan_object(s) {
        ObjectScan::Missing => Err(Failure::UnexpectedEof),
        ObjectScan::Faulty(fault) => Err(Failure::InvalidItemHeader(fault)),
        ObjectScan::Read(members, end) => match item_headers_of(members) {
            Err(fault) => Err(Failure::InvalidItemHeader(fault)),
            Ok(headers) => item_behind(s, headers, end),
        },
    }
}

/// The items in `s` from `offset` on.
pub open spec fn scan_items(s: Seq<u8>, offset: int) -> Result<Seq<ItemView>, Failure>
    decreases vstd::math::max(s.len() - offset, 0),
{
    if offset >= s.len() {
        Ok(Seq::empty())
    } else {
        match scan_item(tail(s, offset)) {
            Err(failure) => Err(failure),
            Ok((item, size)) => {
                proof {
                    lemma_item_takes_bytes(tail(s, offset));
                }
                match scan_items(s, offset + size) {
                    Err(failure) => Err(failure),
                    Ok(items) => Ok(seq![item] + items),
                }
            },
        }
    }
}

/// Headers that have been read up to `end` in `s`, and where the first item starts.
pub open spec fn headers_behind(
    s: Seq<u8>,
    read: Result<EnvelopeHeadersView<MetaView>, HeaderFault>,
    end: int,
) -> Result<(EnvelopeHeadersView<MetaView>, int), Failure> {
    match read {
        Err(fault) => Err(Failure::InvalidHeader(fault)),
        Ok(headers) => if !terminated(s, end) {
            Err(Failure::MissingNewline)
        } else {
            Ok((headers, end + 1))
        },
    }
}

/// The headers of the envelope in `s`, and where its first item starts. With `full`, the headers
/// must state the DSN.
pub open spec fn scan_headers(s: Seq<u8>, full: bool) -> Result<
    (EnvelopeHeadersView<MetaView>, int),
    Failure,
> {
    match scan_object(s) {
        ObjectScan::Missing => Err(Failure::MissingHeader),
        ObjectScan::Faulty(fault) => Err(Failure::InvalidHeader(fault)),
        ObjectScan::Read(members, end) => headers_behind(
            s,
            if full {
                full_headers_of(members)
            } else {
                headers_of(members)
            },
            end,
        ),
    }
}

/// The envelope in `s`: its headers, which must state the DSN, and its items.
pub open spec fn scan_envelope(s: Seq<u8>) -> Result<
    (EnvelopeHeadersView<MetaView>, Seq<ItemView>),
    Failure,
> {
    match scan_headers(s, true) {
        Err(failure) => Err(failure),
        Ok((headers, offset)) => match scan_items(s, offset) {
            Err(failure) => Err(failure),
            Ok(items) => Ok((headers, items)),
        },
    }
}

/// The envelope in `s` that came with a request: its headers, completed by those of the request,
/// and its items.
pub open spec fn scan_request(s: Seq<u8>, request: MetaView) -> Result<
    (EnvelopeHeadersView<MetaView>, Seq<ItemView>),
    Failure,
> {
    match scan_headers(s, false) {
        Err(failure) => Err(failure),
        Ok((headers, offset)) => match completed(headers, request) {
            Err(failure) => Err(failure),
            Ok(headers) => match scan_items(s, offset) {
                Err(failure) => Err(failure),
                Ok(items) => Ok((headers, items)),
            },
        },
    }
}

/// The bytes that are written for an envelope.
pub open spec fn envelope_text(
    headers: EnvelopeHeadersView<MetaView>,
    items: Seq<ItemView>,
) -> Seq<u8>
    decreases items.len(),
{
    if items.len() == 0 {
        object_text(envelope_members(headers)) + seq![0x0au8]
    } else {
        envelope_text(headers, items.drop_last()) + items.last().text()
    }
}

/// Items as they are read back.
pub open spec fn items_as_read(items: Seq<ItemView>) -> Seq<ItemView> {
    Seq::new(items.len(), |i: int| items[i].as_read())
}

/// Whether reading gives back the headers of an item from what is written for them.
pub open spec fn header_reads(item: ItemView) -> bool {
    &&& scans_as(object_text(item_members(item.headers)), item_members(item.headers))
    &&& item_headers_of(item_members(item.headers)) == Ok::<_, HeaderFault>(item.headers.as_read())
}

/// The end of a line is no earlier than where one starts to look for it.
pub proof fn lemma_line_end(s: Seq<u8>, from: int)
    requires
        0 <= from <= s.len(),
    ensures
        from <= line_end(s, from) <= s.len(),
        terminated(s, line_end(s, from)),
        forall|i: int| from <= i < line_end(s, from) ==> s[i] != 0x0a,
    decreases s.len() - from,
{
    if from < s.len() && s[from] != 0x0a {
        lemma_line_end(s, from + 1);
    }
}

/// The end of a line is the first line break.
pub proof fn lemma_line_end_at(s: Seq<u8>, from: int, stop: int)
    requires
        0 <= from <= stop <= s.len(),
        terminated(s, stop),
        forall|i: int| from <= i < stop ==> s[i] != 0x0a,
    ensures
        line_end(s, from) == stop,
    decreases stop - from,
{
    if from < stop {
        assert(s[from] != 0x0a);
        lemma_line_end_at(s, from + 1, stop);
    }
}

/// An item takes at least one byte.
pub proof fn lemma_item_takes_bytes(s: Seq<u8>)
    ensures
        scan_item(s) matches Ok((_, size)) ==> size > 0,
{
    if let ObjectScan::Read(members, end) = scan_object(s) {
        lemma_scan_object_ends(s);
        if let Ok(headers) = item_headers_of(members) {
            let start = if end < s.len() {
                end + 1
            } else {
                s.len() as int
            };
            lemma_line_end(s, start);
        }
    }
}

/// An item is read back from what is written for it, whatever follows.
pub proof fn lemma_item_read(item: ItemView, rest: Seq<u8>)
    requires
        item.wf(),
        header_reads(item),
    ensures
        scan_item(item.text() + rest) == Ok::<_, Failure>(
            (item.as_read(), item.text().len() as int),
        ),
{
    let head = object_text(item_members(item.headers));
    let s = item.text() + rest;
    let more = seq![0x0au8] + item.payload + seq![0x0au8] + rest;
    assert(s =~= head + more);
    assert(scan_object(head + more) == ObjectScan::Read(
        item_members(item.headers),
        head.len() as int,
    ));
    let start = head.len() as int + 1;
    let stop = start + item.payload.len() as int;
    assert(s[head.len() as int] == 0x0a);
    assert(s[stop] == 0x0a);
    assert(s.subrange(start, stop) =~= item.payload);
    if item.headers.length is None {
        assert forall|i: int| start <= i < stop implies s[i] != 0x0a by {
            assert(s[i] == item.payload[i - start]);
        }
        lemma_line_end_at(s, start, stop);
    }
}

/// What is written for the first items of an envelope comes first in what is written for all.
pub proof fn lemma_text_of_first(
    headers: EnvelopeHeadersView<MetaView>,
    items: Seq<ItemView>,
    count: int,
)
    requires
        0 <= count <= items.len(),
    ensures
        envelope_text(headers, items.take(count)).len() <= envelope_text(headers, items).len(),
        envelope_text(headers, items).subrange(
            0,
            envelope_text(headers, items.take(count)).len() as int,
        ) == envelope_text(headers, items.take(count)),
    decreases items.len(),
{
    let all = envelope_text(headers, items);
    let first = envelope_text(headers, items.take(count));
    if count == items.len() {
        assert(items.take(count) =~= items);
        assert(all.subrange(0, first.len() as int) =~= first);
    } else {
        let earlier = items.drop_last();
        lemma_text_of_first(headers, earlier, count);
        assert(earlier.take(count) =~= items.take(count));
        assert(all.subrange(0, first.len() as int) =~= envelope_text(headers, earlier).subrange(
            0,
            first.len() as int,
        ));
    }
}

/// What is written for an item stands behind what is written for the items before it.
proof fn lemma_text_of_item(
    headers: EnvelopeHeadersView<MetaView>,
    items: Seq<ItemView>,
    at: int,
)
    requires
        0 <= at < items.len(),
    ensures
        ({
            let s = envelope_text(headers, items);
            let offset = envelope_text(headers, items.take(at)).len();
            let end = envelope_text(headers, items.take(at + 1)).len();
            &&& end == offset + items[at].text().len()
            &&& end <= s.len()
            &&& s.subrange(offset as int, end as int) == items[at].text()
        }),
{
    let s = envelope_text(headers, items);
    let next = items.take(at + 1);
    assert(next.drop_last() =~= items.take(at));
    assert(next.last() == items[at]);
    lemma_text_of_first(headers, items, at + 1);
    let offset = envelope_text(headers, items.take(at)).len() as int;
    let end = envelope_text(headers, next).len() as int;
    assert(s.subrange(0, end).subrange(offset, end) =~= items[at].text());
    assert(s.subrange(offset, end) =~= s.subrange(0, end).subrange(offset, end));
}

/// What stands from `offset` on is what stands up to `end` and what stands from there on.
proof fn lemma_tail_split(s: Seq<u8>, offset: int, end: int)
    requires
        0 <= offset <= end <= s.len(),
    ensures
        tail(s, offset) == s.subrange(offset, end) + tail(s, end),
{
    assert(tail(s, offset) =~= s.subrange(offset, end) + tail(s, end));
}

/// What stands from `offset` on without the last byte.
proof fn lemma_tail_cut(s: Seq<u8>, offset: int)
    requires
        0 <= offset < s.len(),
    ensures
        tail(s.drop_last(), offset) == tail(s, offset).drop_last(),
{
    assert(tail(s.drop_last(), offset) =~= tail(s, offset).drop_last());
}

/// Items from `count` on as they are read back: the first one and the others.
proof fn lemma_as_read_step(items: Seq<ItemView>, count: int)
    requires
        0 <= count < items.len(),
    ensures
        items_as_read(items).skip(count) == seq![items[count].as_read()] + items_as_read(
            items,
        ).skip(count + 1),
{
    assert(items_as_read(items).skip(count) =~= seq![items[count].as_read()] + items_as_read(
        items,
    ).skip(count + 1));
}

/// The first item from `offset` on, and what is read behind it.
proof fn lemma_items_step(
    s: Seq<u8>,
    offset: int,
    item: ItemView,
    size: int,
    more: Seq<ItemView>,
)
    requires
        offset < s.len(),
        scan_item(tail(s, offset)) == Ok::<_, Failure>((item, size)),
        scan_items(s, offset + size) == Ok::<_, Failure>(more),
    ensures
        scan_items(s, offset) == Ok::<_, Failure>(seq![item] + more),
{
}

/// All items behind the first `count` are read back from what is written for an envelope.
#[verifier::spinoff_prover]
proof fn lemma_items_read(
    headers: EnvelopeHeadersView<MetaView>,
    items: Seq<ItemView>,
    count: int,
)
    requires
        0 <= count <= items.len(),
        forall|i: int|
            0 <= i < items.len() ==> (#[trigger] items[i]).wf() && header_reads(items[i]),
    ensures
        scan_items(
            envelope_text(headers, items),
            envelope_text(headers, items.take(count)).len() as int,
        ) == Ok::<_, Failure>(items_as_read(items).skip(count)),
    decreases items.len() - count,
{
    let s = envelope_text(headers, items);
    let offset = envelope_text(headers, items.take(count)).len() as int;
    if count == items.len() {
        assert(items.take(count) =~= items);
        assert(items_as_read(items).skip(count) =~= Seq::empty());
    } else {
        let item = items[count];
        lemma_text_of_item(headers, items, count);
        let end = envelope_text(headers, items.take(count + 1)).len() as int;
        lemma_tail_split(s, offset, end);
        lemma_item_read(item, tail(s, end));
        lemma_items_read(headers, items, count + 1);
        lemma_as_read_step(items, count);
        let more = items_as_read(items).skip(count + 1);
        lemma_items_step(s, offset, item.as_read(), item.text().len() as int, more);
    }
}

/// An envelope is read back from what is written for it, if its headers and those of its items
/// are.
pub proof fn lemma_envelope_read(
    headers: EnvelopeHeadersView<MetaView>,
    items: Seq<ItemView>,
)
    requires
        scans_as(object_text(envelope_members(headers)), envelope_members(headers)),
        full_headers_of(envelope_members(headers)) == Ok::<_, HeaderFault>(headers.as_read()),
        forall|i: int|
            0 <= i < items.len() ==> (#[trigger] items[i]).wf() && header_reads(items[i]),
    ensures
        scan_envelope(envelope_text(headers, items)) == Ok::<_, Failure>(
            (headers.as_read(), items_as_read(items)),
        ),
{
    let s = envelope_text(headers, items);
    let head = object_text(envelope_members(headers));
    let none = items.take(0);
    assert(none.len() == 0);
    lemma_text_of_first(headers, items, 0);
    let offset = envelope_text(headers, none).len() as int;
    assert(offset == head.len() + 1);
    let rest = tail(s, head.len() as int);
    assert(s =~= head + rest) by {
        assert(s.subrange(0, offset) =~= head + seq![0x0au8]);
        assert(s.subrange(0, head.len() as int) =~= s.subrange(0, offset).subrange(
            0,
            head.len() as int,
        ));
        assert((head + seq![0x0au8]).subrange(0, head.len() as int) =~= head);
    }
    assert(scan_object(head + rest) == ObjectScan::Read(
        envelope_members(headers),
        head.len() as int,
    ));
    assert(s[head.len() as int] == s.subrange(0, offset)[head.len() as int]);
    lemma_items_read(headers, items, 0);
    assert(items_as_read(items).skip(0) =~= items_as_read(items));
}

/// An item is read back from what is written for it also where the last line break is missing.
proof fn lemma_last_item_read(item: ItemView)
    requires
        item.wf(),
        header_reads(item),
    ensures
        scan_item(item.text().drop_last()) == Ok::<_, Failure>(
            (item.as_read(), item.text().len() as int),
        ),
{
    let head = object_text(item_members(item.headers));
    let s = item.text().drop_last();
    let more = seq![0x0au8] + item.payload;
    assert(s =~= head + more);
    assert(scan_object(head + more) == ObjectScan::Read(
        item_members(item.headers),
        head.len() as int,
    ));
    let start = head.len() as int + 1;
    let stop = start + item.payload.len() as int;
    assert(s[head.len() as int] == 0x0a);
    assert(s.len() == stop);
    assert(s.subrange(start, stop) =~= item.payload);
    if item.headers.length is None {
        assert forall|i: int| start <= i < stop implies s[i] != 0x0a by {
            assert(s[i] == item.payload[i - start]);
        }
        lemma_line_end_at(s, start, stop);
    }
}

/// All items behind the first `count` are read back from what is written for an envelope, without
/// the last line break.
#[verifier::spinoff_prover]
proof fn lemma_cut_items_read(
    headers: EnvelopeHeadersView<MetaView>,
    items: Seq<ItemView>,
    count: int,
)
    requires
        0 <= count <= items.len(),
        forall|i: int|
            0 <= i < items.len() ==> (#[trigger] items[i]).wf() && header_reads(items[i]),
    ensures
        scan_items(
            envelope_text(headers, items).drop_last(),
            envelope_text(headers, items.take(count)).len() as int,
        ) == Ok::<_, Failure>(items_as_read(items).skip(count)),
    decreases items.len() - count,
{
    let s = envelope_text(headers, items);
    let cut = s.drop_last();
    let offset = envelope_text(headers, items.take(count)).len() as int;
    if count == items.len() {
        assert(items.take(count) =~= items);
        assert(items_as_read(items).skip(count) =~= Seq::empty());
    } else {
        let item = items[count];
        lemma_text_of_item(headers, items, count);
        lemma_cut_item_read(headers, items, count);
        lemma_cut_items_read(headers, items, count + 1);
        lemma_as_read_step(items, count);
        let more = items_as_read(items).skip(count + 1);
        lemma_items_step(cut, offset, item.as_read(), item.text().len() as int, more);
    }
}

/// One item is read back from what is written for an envelope, without the last line break.
#[verifier::spinoff_prover]
proof fn lemma_cut_item_read(
    headers: EnvelopeHeadersView<MetaView>,
    items: Seq<ItemView>,
    at: int,
)
    requires
        0 <= at < items.len(),
        items[at].wf(),
        header_reads(items[at]),
    ensures
        envelope_text(headers, items.take(at)).len() < envelope_text(
            headers,
            items,
        ).drop_last().len(),
        scan_item(
            tail(
                envelope_text(headers, items).drop_last(),
                envelope_text(headers, items.take(at)).len() as int,
            ),
        ) == Ok::<_, Failure>((items[at].as_read(), items[at].text().len() as int)),
{
    let s = envelope_text(headers, items);
    let cut = s.drop_last();
    let item = items[at];
    let offset = envelope_text(headers, items.take(at)).len() as int;
    let end = envelope_text(headers, items.take(at + 1)).len() as int;
    lemma_text_of_item(headers, items, at);
    assert(item.text().len() >= 2);
    if at == items.len() - 1 {
        assert(items.take(at + 1) =~= items);
        lemma_tail_cut(s, offset);
        lemma_last_item_read(item);
    } else {
        lemma_text_grows(headers, items, at + 1);
        lemma_tail_split(cut, offset, end);
        assert(cut.subrange(offset, end) =~= s.subrange(offset, end));
        lemma_item_read(item, tail(cut, end));
    }
}

/// What is written for fewer items is shorter.
proof fn lemma_text_grows(
    headers: EnvelopeHeadersView<MetaView>,
    items: Seq<ItemView>,
    count: int,
)
    requires
        0 <= count < items.len(),
    ensures
        envelope_text(headers, items.take(count)).len() < envelope_text(headers, items).len(),
{
    let earlier = items.drop_last();
    lemma_text_of_first(headers, earlier, count);
    assert(earlier.take(count) =~= items.take(count));
}

/// An envelope is read back from what is written for it also where the last line break is missing,
/// if its headers and those of its items are.
pub proof fn lemma_cut_envelope_read(
    headers: EnvelopeHeadersView<MetaView>,
    items: Seq<ItemView>,
)
    requires
        scans_as(object_text(envelope_members(headers)), envelope_members(headers)),
        full_headers_of(envelope_members(headers)) == Ok::<_, HeaderFault>(headers.as_read()),
        forall|i: int|
            0 <= i < items.len() ==> (#[trigger] items[i]).wf() && header_reads(items[i]),
    ensures
        scan_envelope(envelope_text(headers, items).drop_last()) == Ok::<_, Failure>(
            (headers.as_read(), items_as_read(items)),
        ),
{
    let s = envelope_text(headers, items);
    let cut = s.drop_last();
    let head = object_text(envelope_members(headers));
    let none = items.take(0);
    assert(none.len() == 0);
    lemma_text_of_first(headers, items, 0);
    let offset = envelope_text(headers, none).len() as int;
    assert(offset == head.len() + 1);
    if items.len() == 0 {
        assert(cut =~= head + Seq::empty());
        assert(scan_object(head + Seq::empty()) == ObjectScan::Read(
            envelope_members(headers),
            head.len() as int,
        ));
    } else {
        lemma_text_grows(headers, items, 0);
        let rest = tail(cut, head.len() as int);
        assert(cut =~= head + rest) by {
            assert(s.subrange(0, offset) =~= head + seq![0x0au8]);
            assert forall|i: int| 0 <= i < head.len() implies cut[i] == head[i] by {
                assert(cut[i] == s.subrange(0, offset)[i]);
            }
        }
        assert(scan_object(head + rest) == ObjectScan::Read(
            envelope_members(headers),
            head.len() as int,
        ));
        assert(cut[head.len() as int] == s.subrange(0, offset)[head.len() as int]);
    }
    lemma_cut_items_read(headers, items, 0);
    assert(items_as_read(items).skip(0) =~= items_as_read(items));
}

/// Whether JSON text gives the values in the headers of an item back.
pub open spec fn item_values_keep(headers: ItemHeadersView) -> bool {
    &&& headers.sample_rates matches Some(value) ==> keeps(value)
    &&& all_keep(headers.other)
}

/// Items that have been read are read back once more from what is written for them, if JSON text
/// gives the values in their headers back.
pub proof fn lemma_scanned_items_survive(s: Seq<u8>, offset: int, items: Seq<ItemView>)
    requires
        scan_items(s, offset) == Ok::<_, Failure>(items),
        forall|i: int| 0 <= i < items.len() ==> item_values_keep((#[trigger] items[i]).headers),
    ensures
        forall|i: int| 0 <= i < items.len() ==> (#[trigger] items[i]).survives(),
        items_as_read(items) == items,
    decreases vstd::math::max(s.len() - offset, 0),
{
    if offset >= s.len() {
        assert(items_as_read(items) =~= items);
    } else {
        let (item, size) = scan_item(tail(s, offset))->Ok_0;
        lemma_item_takes_bytes(tail(s, offset));
        let rest = scan_items(s, offset + size)->Ok_0;
        assert(items =~= seq![item] + rest);
        assert forall|i: int| 0 <= i < rest.len() implies item_values_keep(
            (#[trigger] rest[i]).headers,
        ) by {
            assert(rest[i] == items[i + 1]);
        }
        lemma_scanned_items_survive(s, offset + size, rest);
        assert(items[0] == item);
        let members = scan_object(tail(s, offset))->Read_0;
        lemma_read_item_headers_survive(members, item.headers);
        assert forall|i: int| 0 <= i < items.len() implies (#[trigger] items[i]).survives()
            && items[i].as_read() == items[i] by {
            if i > 0 {
                assert(items[i] == rest[i - 1]);
                assert(items_as_read(rest)[i - 1] == rest[i - 1]);
            }
        }
        assert(items_as_read(items) =~= items);
    }
}

/// An envelope that has been read is read back once more from what is written for it, if the values
/// in its headers are. Only a trace context that could not be read is dropped.
pub proof fn lemma_scanned_envelope_survives(
    s: Seq<u8>,
    headers: EnvelopeHeadersView<MetaView>,
    items: Seq<ItemView>,
)
    requires
        scan_envelope(s) == Ok::<_, Failure>((headers, items)),
        headers.trace matches Some(Ok(values)) ==> keeps(ValueView::Object(values)),
        all_keep(headers.other),
        forall|i: int| 0 <= i < items.len() ==> item_values_keep((#[trigger] items[i]).headers),
    ensures
        headers.survives(),
        headers.as_read() == (EnvelopeHeadersView { trace: headers.as_read().trace, ..headers }),
        forall|i: int| 0 <= i < items.len() ==> (#[trigger] items[i]).survives(),
        items_as_read(items) == items,
{
    let members = scan_object(s)->Read_0;
    lemma_read_headers_survive(members, headers);
    let offset = scan_headers(s, true)->Ok_0.1;
    lemma_scanned_items_survive(s, offset, items);
}

/// An envelope that is read on its own is read the same way where it comes with a request that its
/// own headers describe.
pub proof fn lemma_own_request(
    s: Seq<u8>,
    headers: EnvelopeHeadersView<MetaView>,
    items: Seq<ItemView>,
)
    requires
        scan_envelope(s) == Ok::<_, Failure>((headers, items)),
    ensures
        scan_request(s, headers.meta) == Ok::<_, Failure>((headers, items)),
{
    lemma_completed_by_itself(headers);
}

} // verus!
