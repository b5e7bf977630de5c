//! Writing an envelope.
use crate::envelope::Envelope;
use crate::error::EnvelopeError;
use crate::headers::{envelope_members, EnvelopeHeadersView};
use crate::item::ItemView;
use crate::item_headers::item_members;
use crate::items::item_views;
use crate::meta::MetaView;
use crate::object::{append, object_text};
use crate::payload::{as_slice, bytes_of};
use crate::wire::{
    envelope_text, header_reads, lemma_cut_envelope_read, lemma_envelope_read, lemma_own_request,
};
use bytes::Bytes;
use vstd::prelude::*;

verus! {

/// A piece of what is written for an envelope.
#[derive(Debug)]
pub enum Segment {
    /// The headers of the envelope or of an item.
    Header(Vec<u8>),
    /// The payload of an item.
    Payload(Bytes),
    /// The line break behind headers or a payload.
    LineBreak,
}

/// What a [`Segment`] stands for.
pub enum SegmentView {
    /// See [`Segment::Header`].
    Header(Seq<u8>),
    /// See [`Segment::Payload`].
    Payload(Seq<u8>),
    /// See [`Segment::LineBreak`].
    LineBreak,
}

impl View for Segment {
    type V = SegmentView;

    open spec fn view(&self) -> SegmentView {
        match self {
            Segment::Header(text) => SegmentView::Header(text@),
            Segment::Payload(payload) => SegmentView::Payload(bytes_of(*payload)),
            Segment::LineBreak => SegmentView::LineBreak,
        }
    }
}

impl SegmentView {
    /// The bytes of the piece.
    pub open spec fn text(self) -> Seq<u8> {
        match self {
            SegmentView::Header(text) => text,
            SegmentView::Payload(payload) => payload,
            SegmentView::LineBreak => seq![0x0au8],
        }
    }
}

/// What pieces stand for.
pub open spec fn segment_views(segments: Seq<Segment>) -> Seq<SegmentView> {
    Seq::new(segments.len(), |i: int| segments[i]@)
}

/// The bytes of all pieces.
pub open spec fn segments_text(segments: Seq<SegmentView>) -> Seq<u8>
    decreases segments.len(),
{
    if segments.len() == 0 {
        Seq::empty()
    } else {
        segments_text(segments.drop_last()) + segments.last().text()
    }
}

/// The pieces of what is written for an envelope.
pub open spec fn envelope_segments(
    headers: EnvelopeHeadersView<MetaView>,
    items: Seq<ItemView>,
) -> Seq<SegmentView>
    decreases items.len(),
{
    if items.len() == 0 {
        seq![
            SegmentView::Header(object_text(envelope_members(headers))),
            SegmentView::LineBreak,
        ]
    } else {
        envelope_segments(headers, items.drop_last()) + seq![
            SegmentView::Header(object_text(item_members(items.last().headers))),
            SegmentView::LineBreak,
            SegmentView::Payload(items.last().payload),
            SegmentView::LineBreak,
        ]
    }
}

proof fn lemma_segments_push(segments: Seq<SegmentView>, segment: SegmentView)
    ensures
        segments_text(segments.push(segment)) == segments_text(segments) + segment.text(),
{
    assert(segments.push(segment).drop_last() =~= segments);
}

/// The pieces of what is written for an envelope are all of it.
pub proof fn lemma_segments_are_text(
    headers: EnvelopeHeadersView<MetaView>,
    items: Seq<ItemView>,
)
    ensures
        segments_text(envelope_segments(headers, items)) == envelope_text(headers, items),
    decreases items.len(),
{
    let all = envelope_segments(headers, items);
    if items.len() == 0 {
        let header = SegmentView::Header(object_text(envelope_members(headers)));
        let none = Seq::<SegmentView>::empty();
        lemma_segments_push(none, header);
        lemma_segments_push(none.push(header), SegmentView::LineBreak);
        assert(all =~= none.push(header).push(SegmentView::LineBreak));
        assert(segments_text(all) =~= envelope_text(headers, items));
    } else {
        let earlier = envelope_segments(headers, items.drop_last());
        lemma_segments_are_text(headers, items.drop_last());
        let item = items.last();
        let header = SegmentView::Header(object_text(item_members(item.headers)));
        let payload = SegmentView::Payload(item.payload);
        let line = SegmentView::LineBreak;
        lemma_segments_push(earlier, header);
        lemma_segments_push(earlier.push(header), line);
        lemma_segments_push(earlier.push(header).push(line), payload);
        lemma_segments_push(earlier.push(header).push(line).push(payload), line);
        assert(all =~= earlier.push(header).push(line).push(payload).push(line));
        assert(segments_text(all) =~= envelope_text(headers, items));
    }
}

impl Envelope {
    /// Serializes this envelope into pieces, to be written one after the other.
    pub fn segments(&self) -> (r: Vec<Segment>)
        ensures
            segment_views(r@) == envelope_segments(self@.fields(), item_views(self@.items)),
    {
        let items = self.items.as_slice();
        let ghost views = item_views(items@);
        let mut segments: Vec<Segment> = Vec::new();
        segments.push(Segment::Header(self.headers.to_text()));
        segments.push(Segment::LineBreak);
        let mut i: usize = 0;
        assert(views.take(0) =~= Seq::<ItemView>::empty());
        assert(segment_views(segments@) =~= envelope_segments(self@.fields(), views.take(0)));
        while i < items.len()
            invariant
                i <= items@.len(),
                views == item_views(items@),
                segment_views(segments@) == envelope_segments(
                    self@.fields(),
                    views.take(i as int),
                ),
            decreases items@.len() - i,
        {
            let ghost so_far = segment_views(segments@);
            segments.push(Segment::Header(items[i].header_text()));
            segments.push(Segment::LineBreak);
            segments.push(Segment::Payload(items[i].payload()));
            segments.push(Segment::LineBreak);
            proof {
                let next = views.take(i + 1);
                assert(next.drop_last() =~= views.take(i as int));
                assert(next.last() == items@[i as int]@);
                assert(segment_views(segments@) =~= envelope_segments(self@.fields(), next));
            }
            i += 1;
        }
        assert(views.take(views.len() as int) =~= views);
        segments
    }

    /// Serializes this envelope into the given buffer, behind what is there.
    ///
    /// Parsing the bytes gives the envelope back where it survives that. What is not written then
    /// differs: whether items are rate limited, when handling started, and a trace context that
    /// could not be read.
    pub fn serialize(&self, out: &mut Vec<u8>) -> (r: Result<(), EnvelopeError>)
        ensures
            r is Ok,
            final(out)@ == old(out)@ + self@.text(),
            self@.survives() ==> self@.reads_back(),
    {
        let items = self.items.as_slice();
        let ghost views = item_views(items@);
        let ghost fields = self@.fields();
        let ghost before = out@;
        let header = self.headers.to_text();
        append(out, header.as_slice());
        out.push(0x0a);
        let mut i: usize = 0;
        assert(views.take(0) =~= Seq::<ItemView>::empty());
        assert(out@ =~= before + envelope_text(fields, views.take(0)));
        while i < items.len()
            invariant
                i <= items@.len(),
                views == item_views(items@),
                items@ == self@.items,
                fields == self@.fields(),
                out@ == before + envelope_text(fields, views.take(i as int)),
                forall|j: int|
                    0 <= j < i ==> (#[trigger] views[j]).wf() && (views[j].survives()
                        ==> header_reads(views[j])),
            decreases items@.len() - i,
        {
            let header = items[i].header_text();
            append(out, header.as_slice());
            out.push(0x0a);
            let payload = items[i].payload();
            append(out, as_slice(&payload));
            out.push(0x0a);
            proof {
                let next = views.take(i + 1);
                assert(next.drop_last() =~= views.take(i as int));
                assert(next.last() == items@[i as int]@);
                assert(out@ =~= before + envelope_text(fields, next));
            }
            i += 1;
        }
        proof {
            assert(views.take(views.len() as int) =~= views);
            if self@.survives() {
                assert forall|j: int| 0 <= j < views.len() implies (#[trigger] views[j]).wf()
                    && header_reads(views[j]) by {
                    assert(self@.items[j]@.survives());
                }
                lemma_envelope_read(fields, views);
                lemma_cut_envelope_read(fields, views);
                lemma_own_request(self@.text(), self@.as_read().0, self@.as_read().1);
            }
        }
        Ok(())
    }

    /// Serializes this envelope into a buffer.
    ///
    /// Parsing the bytes gives the envelope back where it survives that. What is not written then
    /// differs: whether items are rate limited, when handling started, and a trace context that
    /// could not be read.
    pub fn to_vec(&self) -> (r: Result<Vec<u8>, EnvelopeError>)
        ensures
            r matches Ok(text) && text@ == self@.text(),
            self@.survives() ==> self@.reads_back(),
    {
        let mut out: Vec<u8> = Vec::new();
        match self.serialize(&mut out) {
            Ok(()) => {
                assert(out@ =~= self@.text());
                Ok(out)
            },
            Err(error) => Err(error),
        }
    }
}

impl Clone for Envelope {
    fn clone(&self) -> (r: Self)
        ensures
            r@.headers == self@.headers,
            item_views(r@.items) == item_views(self@.items),
    {
        Envelope { headers: self.headers.clone(), items: self.items.clone() }
    }
}

} // verus!
