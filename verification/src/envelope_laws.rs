//! Laws of envelopes: what setting, adding, taking and splitting do, and that writing and reading
//! undo each other.
use crate::attachment_type::{attachment_type_name, attachment_type_of};
use crate::content_type::{content_type_of, content_type_text};
use crate::dsc::DynamicSamplingContext;
use crate::envelope::{Envelope, EnvelopeView};
use crate::error::{failure_message, EnvelopeError, Failure};
use crate::event_id::EventId;
use crate::fields::names;
use crate::header_map::{find, lemma_find_placed, HeaderMap};
use crate::headers::{envelope_fields, EnvelopeHeaders, EnvelopeHeadersView};
use crate::item::{Item, ItemView};
use crate::item_headers::item_fields;
use crate::item_laws::{alike_but, Part};
use crate::item_type::{item_type_name, item_type_of};
use crate::items::{is_index, item_views, judged, lemma_taken_out, selected, ItemIter};
use crate::json::{settled, within, MemberView, Value, ValueView};
use crate::meta::{MetaView, PartialMeta, RequestMeta};
use crate::payload::bytes_of;
use crate::read_laws::{
    is_envelope_field, is_item_field, lemma_envelope_field, lemma_item_field,
};
use crate::split::{all_are, lemma_judged_filter};
use crate::text::before;
use crate::timestamp::Timestamp;
use crate::views::opt_view;
use crate::write::{envelope_segments, segment_views, segments_text, Segment, SegmentView};
use bytes::Bytes;
use std::time::Instant;
use vstd::prelude::*;
use vstd::std_specs::convert::FromSpec;
use vstd::std_specs::slice::into_iter_elts;

verus! {

/// The parts of an envelope.
pub enum Piece {
    /// The event identifier.
    EventId,
    /// What headers say of the request.
    Meta,
    /// When handling started.
    StartTime,
    /// The data retention.
    Retention,
    /// The time of sending.
    SentAt,
    /// The trace context.
    Trace,
    /// Other attributes.
    Other,
    /// The items.
    Items,
}

/// Whether two envelopes agree in all parts but one.
pub open spec fn same_but(a: EnvelopeView, b: EnvelopeView, piece: Piece) -> bool {
    &&& piece == Piece::EventId || a.headers.event_id == b.headers.event_id
    &&& piece == Piece::Meta || a.headers.meta.fields == b.headers.meta.fields
    &&& piece == Piece::StartTime || a.headers.meta.start_time == b.headers.meta.start_time
    &&& piece == Piece::Retention || a.headers.retention == b.headers.retention
    &&& piece == Piece::SentAt || a.headers.sent_at == b.headers.sent_at
    &&& piece == Piece::Trace || a.headers.trace == b.headers.trace
    &&& piece == Piece::Other || a.headers.other == b.headers.other
    &&& piece == Piece::Items || a.items == b.items
}

/// A new envelope has the given identifier and request information, and nothing else.
pub proof fn law_from_request(
    event_id: Option<EventId>,
    meta: RequestMeta,
    envelope: Box<Envelope>,
    retention: u16,
)
    requires
        call_ensures(Envelope::from_request, (event_id, meta), envelope),
        call_ensures(Envelope::retention, (&*envelope,), retention),
    ensures
        envelope@.headers.event_id == event_id,
        envelope@.headers.meta == meta@,
        envelope@.headers.retention is None,
        retention == 90,
        envelope@.headers.sent_at is None,
        envelope@.headers.trace is None,
        forall|name: Seq<char>| #[trigger] find(envelope@.headers.other, name) is None,
        envelope@.items.len() == 0,
{
}

/// A data retention that is set is the one the envelope then has, for every number of days.
pub proof fn law_set_retention(retention: u16)
    ensures
        forall|e: &mut Envelope, out: u16|
            #[trigger] call_ensures(Envelope::set_retention, (e, retention), ())
                && #[trigger] call_ensures(Envelope::retention, (final(e),), out) ==> out
                == retention && same_but(e@, final(e)@, Piece::Retention),
{
}

/// A time of sending that is set is the one the envelope then has.
pub proof fn law_set_sent_at(time: Timestamp)
    ensures
        forall|e: &mut Envelope, out: Option<Timestamp>|
            #[trigger] call_ensures(Envelope::set_sent_at, (e, time), ()) && #[trigger]
                call_ensures(Envelope::sent_at, (final(e),), out) ==> opt_view(out) == Some(time@)
                && same_but(e@, final(e)@, Piece::SentAt),
{
}

/// A start time that is set is the one the request information then has.
pub proof fn law_set_start_time(time: Instant)
    ensures
        forall|e: &mut Envelope, meta: &RequestMeta, out: Instant|
            #[trigger] call_ensures(Envelope::set_start_time, (e, time), ()) && #[trigger]
                call_ensures(Envelope::meta, (final(e),), meta) && #[trigger] call_ensures(
                RequestMeta::start_time,
                (meta,),
                out,
            ) ==> out == time && same_but(e@, final(e)@, Piece::StartTime),
{
}

/// A sampling context that is set is the one the envelope then has, also where the one before could
/// not be read.
pub proof fn law_set_dsc(dsc: DynamicSamplingContext)
    ensures
        forall|e: &mut Envelope, out: Option<&DynamicSamplingContext>|
            #[trigger] call_ensures(Envelope::set_dsc, (e, dsc), ()) && #[trigger] call_ensures(
                Envelope::dsc,
                (final(e),),
                out,
            ) ==> opt_view(out) == Some(dsc@) && same_but(e@, final(e)@, Piece::Trace),
{
}

/// A sampling context that could not be read is none.
pub proof fn law_unreadable_dsc(e: Envelope, out: Option<&DynamicSamplingContext>)
    requires
        call_ensures(Envelope::dsc, (&e,), out),
    ensures
        out is Some <==> e@.headers.trace matches Some(Ok(_)),
{
}

/// An attribute that is set is found under its name, what was there before is given back, and under
/// every other name the same is found as before.
pub proof fn law_set_header(name: String, value: Value, other: &str)
    ensures
        forall|e: &mut Envelope, previous: Option<Value>, out: Option<&Value>|
            #[trigger] call_ensures(
                Envelope::set_header::<String, Value>,
                (e, name, value),
                previous,
            ) && #[trigger] call_ensures(Envelope::get_header, (final(e), other), out) ==> {
                &&& same_but(e@, final(e)@, Piece::Other)
                &&& opt_view(previous) == find(e@.headers.other, name@)
                &&& other@ == name@ ==> opt_view(out) == Some(value@)
                &&& other@ != name@ ==> opt_view(out) == find(e@.headers.other, other@)
            },
{
    assert forall|e: &mut Envelope, previous: Option<Value>, out: Option<&Value>|
        #[trigger] call_ensures(
            Envelope::set_header::<String, Value>,
            (e, name, value),
            previous,
        ) && #[trigger] call_ensures(Envelope::get_header, (final(e), other), out) implies {
        &&& same_but(e@, final(e)@, Piece::Other)
        &&& opt_view(previous) == find(e@.headers.other, name@)
        &&& other@ == name@ ==> opt_view(out) == Some(value@)
        &&& other@ != name@ ==> opt_view(out) == find(e@.headers.other, other@)
    } by {
        lemma_find_placed(e@.headers.other, name@, value@, other@);
    }
}

/// The same holds of a map of attributes and of a sampling context by themselves.
pub proof fn law_insert(name: String, value: Value, other: &str)
    ensures
        forall|map: &mut HeaderMap, previous: Option<Value>, out: Option<&Value>|
            #[trigger] call_ensures(HeaderMap::insert, (map, name, value), previous) && #[trigger]
                call_ensures(HeaderMap::get, (final(map), other), out) ==> {
                &&& opt_view(previous) == find(map@, name@)
                &&& other@ == name@ ==> opt_view(out) == Some(value@)
                &&& other@ != name@ ==> opt_view(out) == find(map@, other@)
            },
        forall|dsc: &mut DynamicSamplingContext, previous: Option<Value>, out: Option<&Value>|
            #[trigger] call_ensures(DynamicSamplingContext::insert, (dsc, name, value), previous)
                && #[trigger] call_ensures(
                DynamicSamplingContext::get,
                (final(dsc), other),
                out,
            ) ==> {
                &&& opt_view(previous) == find(dsc@, name@)
                &&& other@ == name@ ==> opt_view(out) == Some(value@)
                &&& other@ != name@ ==> opt_view(out) == find(dsc@, other@)
            },
{
    assert forall|map: &mut HeaderMap, previous: Option<Value>, out: Option<&Value>|
        #[trigger] call_ensures(HeaderMap::insert, (map, name, value), previous) && #[trigger]
            call_ensures(HeaderMap::get, (final(map), other), out) implies {
        &&& opt_view(previous) == find(map@, name@)
        &&& other@ == name@ ==> opt_view(out) == Some(value@)
        &&& other@ != name@ ==> opt_view(out) == find(map@, other@)
    } by {
        lemma_find_placed(map@, name@, value@, other@);
    }
    assert forall|dsc: &mut DynamicSamplingContext, previous: Option<Value>, out: Option<&Value>|
        #[trigger] call_ensures(DynamicSamplingContext::insert, (dsc, name, value), previous)
            && #[trigger] call_ensures(
            DynamicSamplingContext::get,
            (final(dsc), other),
            out,
        ) implies {
        &&& opt_view(previous) == find(dsc@, name@)
        &&& other@ == name@ ==> opt_view(out) == Some(value@)
        &&& other@ != name@ ==> opt_view(out) == find(dsc@, other@)
    } by {
        lemma_find_placed(dsc@, name@, value@, other@);
    }
}

/// An event identifier is put in only where there is none, and then it is the given one.
pub proof fn law_insert_event_id(id: EventId)
    ensures
        forall|e: &mut Envelope, before: Option<EventId>, after: Option<EventId>|
            #[trigger] call_ensures(Envelope::insert_event_id, (e, id), ()) && #[trigger]
                call_ensures(Envelope::event_id, (&*e,), before) && #[trigger] call_ensures(
                Envelope::event_id,
                (final(e),),
                after,
            ) ==> {
                &&& same_but(e@, final(e)@, Piece::EventId)
                &&& before is Some ==> after == before
                &&& before is None ==> after == Some(id)
            },
{
}

/// An item that is added comes last, and the others stay where they are.
pub proof fn law_add_item(item: Item)
    ensures
        forall|e: &mut Envelope, before: usize, after: usize|
            #[trigger] call_ensures(Envelope::add_item, (e, item), ()) && #[trigger] call_ensures(
                Envelope::len,
                (&*e,),
                before,
            ) && #[trigger] call_ensures(Envelope::len, (final(e),), after) ==> {
                &&& same_but(e@, final(e)@, Piece::Items)
                &&& after == before + 1
                &&& final(e)@.items.last() == item
                &&& final(e)@.items.drop_last() == e@.items
            },
{
    assert forall|e: &mut Envelope, before: usize, after: usize|
        #[trigger] call_ensures(Envelope::add_item, (e, item), ()) && #[trigger] call_ensures(
            Envelope::len,
            (&*e,),
            before,
        ) && #[trigger] call_ensures(Envelope::len, (final(e),), after) implies {
        &&& same_but(e@, final(e)@, Piece::Items)
        &&& after == before + 1
        &&& final(e)@.items.last() == item
        &&& final(e)@.items.drop_last() == e@.items
    } by {
        assert(e@.items.push(item).drop_last() =~= e@.items);
    }
}

/// An envelope is empty exactly where it has no items to count.
pub proof fn law_len(e: Envelope, len: usize, empty: bool)
    requires
        call_ensures(Envelope::len, (&e,), len),
        call_ensures(Envelope::is_empty, (&e,), empty),
    ensures
        len == e@.items.len(),
        empty <==> len == 0,
{
}

/// Taking the items moves them all, in their order, into an envelope with the same headers. The
/// headers stay, without items.
pub proof fn law_take_items()
    ensures
        forall|e: &mut Envelope, out: Envelope| #[trigger]
            call_ensures(Envelope::take_items, (e,), out) ==> {
                &&& out@.items == e@.items
                &&& same_but(e@, out@, Piece::Items)
                &&& same_but(e@, final(e)@, Piece::Items)
                &&& final(e)@.items.len() == 0
            },
{
}

/// Whether a predicate accepts exactly the items that meet a condition.
pub open spec fn decides<F: FnMut(&Item) -> bool>(
    pred: F,
    condition: spec_fn(Item) -> bool,
) -> bool {
    forall|item: Item, outcome: bool| #[trigger]
        call_ensures(pred, (&item,), outcome) ==> outcome == condition(item)
}

/// Whether the item at `at` is the first one to meet a condition.
pub open spec fn is_first(items: Seq<Item>, condition: spec_fn(Item) -> bool, at: int) -> bool {
    &&& 0 <= at < items.len()
    &&& condition(items[at])
    &&& forall|j: int| 0 <= j < at ==> !condition(#[trigger] items[j])
}

/// Looking for an item gives the first one that meets the condition, and none only where none does.
pub proof fn law_get_item_by<F: FnMut(&Item) -> bool>(
    e: Envelope,
    pred: F,
    condition: spec_fn(Item) -> bool,
    out: Option<&Item>,
)
    requires
        call_ensures(Envelope::get_item_by::<F>, (&e, pred), out),
        decides(pred, condition),
    ensures
        out matches Some(item) ==> exists|at: int| #[trigger]
            is_first(e@.items, condition, at) && *item == e@.items[at],
        out is None <==> forall|i: int|
            0 <= i < e@.items.len() ==> !condition(#[trigger] e@.items[i]),
{
    if out is Some {
        let at = choose|at: int| #[trigger]
            crate::envelope::first_match(pred, e@.items, at) && *out->0 == e@.items[at];
        assert(is_first(e@.items, condition, at));
        assert(condition(e@.items[at]));
    }
}

/// Taking an item out gives the first one that meets the condition. All others stay, and so do the
/// headers. Where none meets it, nothing changes.
pub proof fn law_take_item_by<F: FnMut(&Item) -> bool>(pred: F, condition: spec_fn(Item) -> bool)
    requires
        decides(pred, condition),
    ensures
        forall|e: &mut Envelope, out: Option<Item>| #[trigger]
            call_ensures(Envelope::take_item_by::<F>, (e, pred), out) ==> {
                &&& same_but(e@, final(e)@, Piece::Items)
                &&& out is None ==> final(e)@.items == e@.items && forall|i: int|
                    0 <= i < e@.items.len() ==> !condition(#[trigger] e@.items[i])
                &&& out matches Some(item) ==> {
                    &&& exists|at: int| #[trigger]
                        is_first(e@.items, condition, at) && item == e@.items[at]
                    &&& final(e)@.items.to_multiset() == e@.items.to_multiset().remove(item)
                }
            },
{
    assert forall|e: &mut Envelope, out: Option<Item>| #[trigger]
        call_ensures(Envelope::take_item_by::<F>, (e, pred), out) implies {
        &&& same_but(e@, final(e)@, Piece::Items)
        &&& out is None ==> final(e)@.items == e@.items && forall|i: int|
            0 <= i < e@.items.len() ==> !condition(#[trigger] e@.items[i])
        &&& out matches Some(item) ==> {
            &&& exists|at: int| #[trigger]
                is_first(e@.items, condition, at) && item == e@.items[at]
            &&& final(e)@.items.to_multiset() == e@.items.to_multiset().remove(item)
        }
    } by {
        if let Some(item) = out {
            let at = choose|at: int| #[trigger]
                crate::envelope::first_match(pred, e@.items, at) && item == e@.items[at]
                    && final(e)@ == (EnvelopeView {
                    items: e@.items.update(at, e@.items.last()).drop_last(),
                    ..e@
                });
            assert(is_first(e@.items, condition, at));
            lemma_taken_out(e@.items, at);
        }
    }
}

/// Looking for an item to change gives the first one that meets the condition, and changes to it
/// are all that changes.
pub proof fn law_get_item_by_mut<F: FnMut(&Item) -> bool>(
    pred: F,
    condition: spec_fn(Item) -> bool,
)
    requires
        decides(pred, condition),
    ensures
        forall|e: &mut Envelope, out: Option<&mut Item>| #[trigger]
            call_ensures(Envelope::get_item_by_mut::<F>, (e, pred), out) ==> {
                &&& same_but(e@, final(e)@, Piece::Items)
                &&& final(e)@.items.len() == e@.items.len()
                &&& out is None ==> final(e)@.items == e@.items && forall|i: int|
                    0 <= i < e@.items.len() ==> !condition(#[trigger] e@.items[i])
                &&& out matches Some(item) ==> exists|at: int|
                    {
                        &&& #[trigger] is_first(e@.items, condition, at)
                        &&& *item == e@.items[at]
                        &&& final(e)@.items[at] == *final(item)
                        &&& forall|i: int|
                            0 <= i < e@.items.len() && i != at ==> #[trigger] final(e)@.items[i]
                                == e@.items[i]
                    }
            },
{
    assert forall|e: &mut Envelope, out: Option<&mut Item>| #[trigger]
        call_ensures(Envelope::get_item_by_mut::<F>, (e, pred), out) implies {
        &&& same_but(e@, final(e)@, Piece::Items)
        &&& final(e)@.items.len() == e@.items.len()
        &&& out is None ==> final(e)@.items == e@.items && forall|i: int|
            0 <= i < e@.items.len() ==> !condition(#[trigger] e@.items[i])
        &&& out matches Some(item) ==> exists|at: int|
            {
                &&& #[trigger] is_first(e@.items, condition, at)
                &&& *item == e@.items[at]
                &&& final(e)@.items[at] == *final(item)
                &&& forall|i: int|
                    0 <= i < e@.items.len() && i != at ==> #[trigger] final(e)@.items[i]
                        == e@.items[i]
            }
    } by {
        if let Some(item) = out {
            let at = choose|at: int| #[trigger]
                crate::envelope::first_match(pred, e@.items, at) && *item == e@.items[at]
                    && final(e)@ == (EnvelopeView {
                    items: e@.items.update(at, *final(item)),
                    ..e@
                });
            assert(is_first(e@.items, condition, at));
        }
    }
}

/// Retaining by a predicate that looks at items without changing them keeps those that meet the
/// condition, in their order.
pub proof fn law_retain_items<F: FnMut(&mut Item) -> bool>(
    pred: F,
    condition: spec_fn(Item) -> bool,
)
    requires
        forall|item: &mut Item, outcome: bool| #[trigger]
            call_ensures(pred, (item,), outcome) ==> *final(item) == *item && outcome == condition(
                *item,
            ),
    ensures
        forall|e: &mut Envelope| #[trigger]
            call_ensures(Envelope::retain_items::<F>, (e, pred), ()) ==> {
                &&& same_but(e@, final(e)@, Piece::Items)
                &&& final(e)@.items == e@.items.filter(condition)
            },
{
    assert forall|e: &mut Envelope| #[trigger]
        call_ensures(Envelope::retain_items::<F>, (e, pred), ()) implies {
        &&& same_but(e@, final(e)@, Piece::Items)
        &&& final(e)@.items == e@.items.filter(condition)
    } by {
        let items = e@.items;
        let outcomes = choose|outcomes: Seq<(Item, bool)>|
            {
                &&& outcomes.len() == items.len()
                &&& forall|i: int| #[trigger]
                    is_index(outcomes, i) ==> exists|item: &mut Item|
                        {
                            &&& *item == items[i]
                            &&& *final(item) == outcomes[i].0
                            &&& #[trigger] call_ensures(pred, (item,), outcomes[i].1)
                        }
                &&& final(e)@.items == #[trigger] selected(outcomes, true)
            };
        assert forall|i: int| 0 <= i < outcomes.len() implies (#[trigger] outcomes[i]).0 == items[i]
            && outcomes[i].1 == condition(items[i]) by {
            assert(is_index(outcomes, i));
        }
        lemma_selected_by(outcomes, items, condition);
    }
}

proof fn lemma_selected_by(
    outcomes: Seq<(Item, bool)>,
    items: Seq<Item>,
    condition: spec_fn(Item) -> bool,
)
    requires
        outcomes.len() == items.len(),
        forall|i: int|
            0 <= i < outcomes.len() ==> (#[trigger] outcomes[i]).0 == items[i] && outcomes[i].1
                == condition(items[i]),
    ensures
        selected(outcomes, true) == items.filter(condition),
    decreases items.len(),
{
    reveal(Seq::filter);
    if items.len() > 0 {
        let earlier = outcomes.drop_last();
        let first = items.drop_last();
        assert forall|i: int| 0 <= i < earlier.len() implies (#[trigger] earlier[i]).0 == first[i]
            && earlier[i].1 == condition(first[i]) by {
            assert(earlier[i] == outcomes[i]);
        }
        lemma_selected_by(earlier, first, condition);
        assert(outcomes[outcomes.len() - 1].0 == items.last());
    }
}

/// Retaining never adds an item, and leaves the headers as they are.
pub proof fn law_retain_count<F: FnMut(&mut Item) -> bool>(pred: F)
    ensures
        forall|e: &mut Envelope| #[trigger]
            call_ensures(Envelope::retain_items::<F>, (e, pred), ()) ==> same_but(
                e@,
                final(e)@,
                Piece::Items,
            ) && final(e)@.items.len() <= e@.items.len(),
{
    assert forall|e: &mut Envelope| #[trigger]
        call_ensures(Envelope::retain_items::<F>, (e, pred), ()) implies same_but(
        e@,
        final(e)@,
        Piece::Items,
    ) && final(e)@.items.len() <= e@.items.len() by {
        let outcomes = choose|outcomes: Seq<(Item, bool)>|
            {
                &&& outcomes.len() == e@.items.len()
                &&& final(e)@.items == #[trigger] selected(outcomes, true)
            };
        crate::split::lemma_selected_all(outcomes, true);
    }
}

/// Splitting parts the items that meet the condition from the others, both in their order, and both
/// envelopes have the same headers. Nothing is split off where all items meet it, or none does.
pub proof fn law_split_by<F: FnMut(&Item) -> bool>(pred: F, condition: spec_fn(Item) -> bool)
    requires
        decides(pred, condition),
    ensures
        forall|e: &mut Envelope, out: Option<Box<Envelope>>| #[trigger]
            call_ensures(Envelope::split_by::<F>, (e, pred), out) ==> {
                &&& same_but(e@, final(e)@, Piece::Items)
                &&& out is None ==> final(e)@.items == e@.items
                &&& out is None <==> (forall|i: int|
                    0 <= i < e@.items.len() ==> condition(#[trigger] e@.items[i])) || (forall|
                    i: int,
                |
                    0 <= i < e@.items.len() ==> !condition(#[trigger] e@.items[i]))
                &&& out matches Some(split) ==> {
                    &&& same_but(e@, split@, Piece::Items)
                    &&& split@.items == e@.items.filter(condition)
                    &&& final(e)@.items == e@.items.filter(|item: Item| !condition(item))
                }
            },
{
    assert forall|e: &mut Envelope, out: Option<Box<Envelope>>| #[trigger]
        call_ensures(Envelope::split_by::<F>, (e, pred), out) implies {
        &&& same_but(e@, final(e)@, Piece::Items)
        &&& out is None ==> final(e)@.items == e@.items
        &&& out is None <==> (forall|i: int|
            0 <= i < e@.items.len() ==> condition(#[trigger] e@.items[i])) || (forall|i: int|
            0 <= i < e@.items.len() ==> !condition(#[trigger] e@.items[i]))
        &&& out matches Some(split) ==> {
            &&& same_but(e@, split@, Piece::Items)
            &&& split@.items == e@.items.filter(condition)
            &&& final(e)@.items == e@.items.filter(|item: Item| !condition(item))
        }
    } by {
        let items = e@.items;
        if let Some(split) = out {
            let second = choose|second: Seq<(Item, bool)>|
                {
                    &&& #[trigger] judged(pred, items, second)
                    &&& split@ == (EnvelopeView { items: selected(second, true), ..e@ })
                    &&& final(e)@ == (EnvelopeView { items: selected(second, false), ..e@ })
                };
            lemma_judged_filter(pred, items, second, condition);
            let first = choose|first: Seq<(Item, bool)>| #[trigger]
                judged(pred, items, first) && !all_are(first, true) && !all_are(first, false);
            let i = choose|i: int| 0 <= i < first.len() && (#[trigger] first[i]).1 != true;
            let j = choose|j: int| 0 <= j < first.len() && (#[trigger] first[j]).1 != false;
            assert(!condition(items[i]));
            assert(condition(items[j]));
        } else {
            let first = choose|first: Seq<(Item, bool)>| #[trigger]
                judged(pred, items, first) && (all_are(first, true) || all_are(first, false));
            assert forall|i: int| 0 <= i < items.len() implies first[i].1 == condition(
                #[trigger] items[i],
            ) by {
                assert(first[i].0 == items[i]);
            }
            if all_are(first, true) {
                assert forall|i: int| 0 <= i < items.len() implies condition(
                    #[trigger] items[i],
                ) by {
                    assert(first[i].1);
                }
            } else {
                assert forall|i: int| 0 <= i < items.len() implies !condition(
                    #[trigger] items[i],
                ) by {
                    assert(!first[i].1);
                }
            }
        }
    }
}

/// What is written for an envelope, and what parsing it gives: an envelope with the same parts, up
/// to when handling started, the flag for rate limiting, and a trace context that could not be
/// read.
pub proof fn law_written_and_parsed(
    e: Envelope,
    text: Vec<u8>,
    bytes: Bytes,
    out: Result<Box<Envelope>, EnvelopeError>,
)
    requires
        call_ensures(Envelope::to_vec, (&e,), Ok(text)),
        call_ensures(Envelope::parse_bytes, (bytes,), out),
        e@.survives(),
        bytes_of(bytes) == text@ || bytes_of(bytes) == text@.drop_last(),
    ensures
        out matches Ok(read) && {
            &&& read@.headers.event_id == e@.headers.event_id
            &&& read@.headers.meta.fields == e@.headers.meta.fields
            &&& read@.headers.retention == e@.headers.retention
            &&& read@.headers.sent_at == e@.headers.sent_at
            &&& read@.headers.other == e@.headers.other
            &&& !(e@.headers.trace matches Some(Err(_))) ==> read@.headers.trace == e@.headers.trace
            &&& e@.headers.trace matches Some(Err(_)) ==> read@.headers.trace is None
            &&& read@.items.len() == e@.items.len()
            &&& forall|i: int|
                0 <= i < e@.items.len() ==> alike_but(
                    (#[trigger] read@.items[i])@,
                    e@.items[i]@,
                    seq![Part::RateLimited],
                )
        },
{
    let parts = seq![Part::RateLimited];
    assert(parts[0] == Part::RateLimited);
    if let Ok(read) = out {
        assert(item_views(read@.items).len() == item_views(e@.items).len());
        assert forall|i: int| 0 <= i < e@.items.len() implies alike_but(
            (#[trigger] read@.items[i])@,
            e@.items[i]@,
            parts,
        ) by {
            assert(item_views(read@.items)[i] == item_views(e@.items)[i].as_read());
        }
    }
}

/// Parsing what is written for an envelope with a request that the envelope itself describes gives
/// the same headers and items.
pub proof fn law_written_and_requested(
    e: Envelope,
    text: Vec<u8>,
    bytes: Bytes,
    request: RequestMeta,
    out: Result<Box<Envelope>, EnvelopeError>,
)
    requires
        call_ensures(Envelope::to_vec, (&e,), Ok(text)),
        call_ensures(Envelope::parse_with_meta, (bytes, request), out),
        e@.survives(),
        bytes_of(bytes) == text@,
        request@.fields == e@.headers.meta.fields,
    ensures
        out matches Ok(read) && {
            &&& read@.headers.event_id == e@.headers.event_id
            &&& read@.headers.meta == request@
            &&& read@.headers.retention == e@.headers.retention
            &&& read@.headers.sent_at == e@.headers.sent_at
            &&& read@.headers.other == e@.headers.other
            &&& read@.items.len() == e@.items.len()
        },
{
    if let Ok(read) = out {
        assert(item_views(read@.items).len() == item_views(e@.items).len());
    }
}

/// Writing behind other bytes adds what writing by itself gives, and the pieces put together are
/// the same.
pub proof fn law_written_alike(e: Envelope, text: Vec<u8>, pieces: Vec<Segment>)
    requires
        call_ensures(Envelope::to_vec, (&e,), Ok(text)),
        call_ensures(Envelope::segments, (&e,), pieces),
    ensures
        segments_text(segment_views(pieces@)) == text@,
        forall|buffer: &mut Vec<u8>, out: Result<(), EnvelopeError>| #[trigger]
            call_ensures(Envelope::serialize, (&e, buffer), out) ==> out is Ok && final(buffer)@
                == buffer@ + text@,
{
    crate::write::lemma_segments_are_text(e@.fields(), item_views(e@.items));
}

/// Writing never fails.
pub proof fn law_written(e: Envelope, out: Result<Vec<u8>, EnvelopeError>)
    requires
        call_ensures(Envelope::to_vec, (&e,), out),
    ensures
        out is Ok,
{
}

/// Reading headers back loses nothing but a trace context that could not be read.
pub proof fn law_headers_as_read(headers: EnvelopeHeadersView<MetaView>)
    ensures
        headers.as_read().event_id == headers.event_id,
        headers.as_read().meta == headers.meta,
        headers.as_read().retention == headers.retention,
        headers.as_read().sent_at == headers.sent_at,
        headers.as_read().other == headers.other,
        !(headers.trace matches Some(Err(_))) ==> headers.as_read().trace == headers.trace,
        headers.trace matches Some(Err(_)) ==> headers.as_read().trace is None,
{
}

/// The message for a mismatch starts with what mismatches, and goes on the same way whatever that
/// is.
pub proof fn law_mismatch_message(a: Seq<char>, b: Seq<char>)
    ensures
        failure_message(Failure::HeaderMismatch(a)).take(a.len() as int) == a,
        failure_message(Failure::HeaderMismatch(a)).skip(a.len() as int) == failure_message(
            Failure::HeaderMismatch(b),
        ).skip(b.len() as int),
{
    let end = " header mismatch between envelope and request"@;
    assert((a + end).take(a.len() as int) =~= a);
    assert((a + end).skip(a.len() as int) =~= end);
    assert((b + end).skip(b.len() as int) =~= end);
}

/// An identifier is read back from its text. So is a time, and it is given by its seconds and
/// nanoseconds.
pub proof fn law_texts(
    id: EventId,
    id_text: String,
    id_read: Option<EventId>,
    time: Timestamp,
    time_text: String,
    time_read: Option<Timestamp>,
    secs: i64,
    nanos: u32,
    again: Option<Timestamp>,
    a: &str,
    b: &str,
)
    requires
        call_ensures(EventId::to_text, (id,), id_text),
        a@ == id_text@,
        call_ensures(EventId::from_text, (a,), id_read),
        call_ensures(Timestamp::to_text, (time,), time_text),
        b@ == time_text@,
        call_ensures(Timestamp::from_text, (b,), time_read),
        call_ensures(Timestamp::timestamp, (&time,), secs),
        call_ensures(Timestamp::timestamp_subsec_nanos, (&time,), nanos),
        call_ensures(Timestamp::from_timestamp, (secs, nanos), again),
    ensures
        id_read == Some(id),
        id_text@.len() == 32,
        opt_view(time_read) == Some(time@),
        again matches Some(t) ==> t@ == time@,
{
}

/// The accessors of request information give its parts.
pub proof fn law_meta_getters(
    meta: RequestMeta,
    key: &str,
    id: Option<u64>,
    client: Option<&str>,
    version: u16,
    origin: Option<&str>,
    addr: Option<&str>,
    forwarded: &str,
    agent: Option<&str>,
)
    requires
        call_ensures(RequestMeta::public_key, (&meta,), key),
        call_ensures(RequestMeta::project_id, (&meta,), id),
        call_ensures(RequestMeta::client, (&meta,), client),
        call_ensures(RequestMeta::version, (&meta,), version),
        call_ensures(RequestMeta::origin, (&meta,), origin),
        call_ensures(RequestMeta::remote_addr, (&meta,), addr),
        call_ensures(RequestMeta::forwarded_for, (&meta,), forwarded),
        call_ensures(RequestMeta::user_agent, (&meta,), agent),
    ensures
        key@ == meta.dsn@.public_key,
        id == meta.dsn@.project_id,
        opt_view(client) == opt_view(meta.client),
        version == meta.version,
        opt_view(origin) == opt_view(meta.origin),
        opt_view(addr) == opt_view(meta.remote_addr),
        forwarded@ == meta.forwarded_for@,
        opt_view(agent) == opt_view(meta.user_agent),
{
}

/// Headers that state the DSN become those of an envelope with the same parts.
pub proof fn law_into_full(
    headers: EnvelopeHeaders<PartialMeta>,
    start: Instant,
    out: Option<EnvelopeHeaders>,
)
    requires
        call_ensures(EnvelopeHeaders::<PartialMeta>::into_full, (headers, start), out),
    ensures
        out is Some <==> headers@.meta.dsn is Some,
        out matches Some(full) ==> {
            &&& full@.event_id == headers@.event_id
            &&& full@.meta.fields == headers@.meta
            &&& full@.meta.start_time == start
            &&& full@.retention == headers@.retention
            &&& full@.sent_at == headers@.sent_at
            &&& full@.trace == headers@.trace
            &&& full@.other == headers@.other
        },
{
}

/// The items of an envelope are given one after another, all of them.
pub proof fn law_items(e: Envelope, out: ItemIter<'_>, len: usize)
    requires
        call_ensures(Envelope::items, (&e,), out),
        call_ensures(Envelope::len, (&e,), len),
    ensures
        into_iter_elts(out).len() == len,
        forall|i: int| 0 <= i < len ==> into_iter_elts(out)[i] == e@.items[i],
{
}

/// Items that are changed in place are the only thing that changes.
pub proof fn law_items_mut()
    ensures
        forall|e: &mut Envelope, out: &mut [Item]| #[trigger]
            call_ensures(Envelope::items_mut, (e,), out) ==> {
                &&& out@ == e@.items
                &&& final(e)@.items == final(out)@
                &&& same_but(e@, final(e)@, Piece::Items)
            },
{
}

/// Request information that is changed in place is the only thing that changes.
pub proof fn law_meta_mut()
    ensures
        forall|e: &mut Envelope, out: &mut RequestMeta| #[trigger]
            call_ensures(Envelope::meta_mut, (e,), out) ==> {
                &&& out@ == e@.headers.meta
                &&& final(e)@.headers.meta == final(out)@
                &&& final(e)@.headers.event_id == e@.headers.event_id
                &&& final(e)@.headers.retention == e@.headers.retention
                &&& final(e)@.headers.sent_at == e@.headers.sent_at
                &&& final(e)@.headers.trace == e@.headers.trace
                &&& final(e)@.headers.other == e@.headers.other
                &&& final(e)@.items == e@.items
            },
{
}

/// An event identifier is lacking exactly where there is none and an item of a known type other
/// than session health is there.
pub proof fn law_lacks_event_id(e: Envelope, out: bool, id: Option<EventId>)
    requires
        call_ensures(Envelope::lacks_event_id, (&e,), out),
        call_ensures(Envelope::event_id, (&e,), id),
    ensures
        out <==> id is None && exists|i: int|
            {
                &&& 0 <= i < e@.items.len()
                &&& !((#[trigger] e@.items[i])@.headers.ty is Session)
                &&& !(e@.items[i]@.headers.ty is Sessions)
                &&& !(e@.items[i]@.headers.ty is Unknown)
            },
{
    if out {
        let i = choose|i: int|
            0 <= i < e@.items.len() && crate::item::requires_event_of(
                (#[trigger] e@.items[i])@.headers.ty,
            );
        assert(!(e@.items[i]@.headers.ty is Session));
    } else if id is None {
        assert forall|i: int| 0 <= i < e@.items.len() implies {
            ||| (#[trigger] e@.items[i])@.headers.ty is Session
            ||| e@.items[i]@.headers.ty is Sessions
            ||| e@.items[i]@.headers.ty is Unknown
        } by {
            assert(!crate::item::requires_event_of(e@.items[i]@.headers.ty));
        }
    }
}

/// Values that JSON text gives back in headers: texts, booleans, `null`, integers, and arrays and
/// objects of such values, where the names in an object ascend.
pub proof fn law_settled(
    text: Seq<char>,
    flag: bool,
    count: u64,
    negative: i64,
    items: Seq<ValueView>,
    members: Seq<MemberView>,
)
    ensures
        settled(ValueView::Null),
        settled(ValueView::Bool(flag)),
        settled(ValueView::String(text)),
        settled(ValueView::U64(count)),
        negative < 0 ==> settled(ValueView::I64(negative)),
        (forall|i: int| 0 <= i < items.len() ==> settled(#[trigger] items[i])) ==> settled(
            ValueView::Array(items),
        ),
        (forall|i: int| 0 <= i < members.len() ==> settled((#[trigger] members[i]).1)) && (forall|
            i: int,
            j: int,
        |
            0 <= i < j < members.len() ==> before(
                (#[trigger] members[i]).0,
                (#[trigger] members[j]).0,
            )) ==> settled(ValueView::Object(members)),
{
}

/// Which envelopes are read back: those whose other attributes have names of their own and values
/// that JSON gives back, not nested more than 126 deep, and whose types are what their names say.
/// File names, payloads, request information, times and identifiers do not matter.
pub proof fn law_survives(e: EnvelopeView)
    requires
        forall|i: int|
            0 <= i < e.headers.other.len() ==> {
                &&& !is_envelope_field((#[trigger] e.headers.other[i]).0)
                &&& settled(e.headers.other[i].1)
                &&& within(e.headers.other[i].1, 126)
            },
        e.headers.trace matches Some(Ok(values)) ==> settled(ValueView::Object(values)) && within(
            ValueView::Object(values),
            126,
        ),
        forall|i: int| 0 <= i < e.items.len() ==> readable_item((#[trigger] e.items[i])@),
    ensures
        e.survives(),
{
    let headers = e.fields();
    assert forall|i: int| 0 <= i < headers.other.len() implies !names(
        envelope_fields(),
        (#[trigger] headers.other[i]).0,
    ) by {
        lemma_envelope_field(e.headers.other[i].0);
    }
    assert forall|i: int| 0 <= i < e.items.len() implies (#[trigger] e.items[i])@.survives() by {
        let item = e.items[i]@;
        assert(readable_item(item));
        assert forall|j: int| 0 <= j < item.headers.other.len() implies !names(
            item_fields(),
            (#[trigger] item.headers.other[j]).0,
        ) by {
            lemma_item_field(item.headers.other[j].0);
        }
    }
}

/// Whether nothing keeps an item from being read back.
pub open spec fn readable_item(item: ItemView) -> bool {
    &&& item_type_of(item_type_name(item.headers.ty)) == item.headers.ty
    &&& item.headers.attachment_type matches Some(ty) ==> attachment_type_of(
        attachment_type_name(ty),
    ) == ty
    &&& item.headers.content_type matches Some(ty) ==> content_type_of(content_type_text(ty)) == ty
    &&& item.headers.sample_rates matches Some(rates) ==> settled(rates) && within(rates, 126)
    &&& forall|i: int|
        0 <= i < item.headers.other.len() ==> {
            &&& !is_item_field((#[trigger] item.headers.other[i]).0)
            &&& settled(item.headers.other[i].1)
            &&& within(item.headers.other[i].1, 126)
        }
}

/// The pieces of what is written: the headers and a line break, and of each item its headers, a
/// line break, its payload as it is and another line break.
pub proof fn law_pieces(e: Envelope, pieces: Vec<Segment>)
    requires
        call_ensures(Envelope::segments, (&e,), pieces),
    ensures
        pieces@.len() == 2 + 4 * e@.items.len(),
        pieces@[0] is Header,
        pieces@[1] is LineBreak,
        forall|i: int|
            0 <= i < e@.items.len() ==> {
                &&& pieces@[2 + 4 * i] is Header
                &&& pieces@[3 + 4 * i] is LineBreak
                &&& pieces@[4 + 4 * i] matches Segment::Payload(payload) && bytes_of(payload)
                    == (#[trigger] e@.items[i])@.payload
                &&& pieces@[5 + 4 * i] is LineBreak
            },
{
    let items = item_views(e@.items);
    let views = segment_views(pieces@);
    lemma_pieces(e@.fields(), items);
    assert(views.len() == pieces@.len());
    assert(views[0] == pieces@[0]@ && views[1] == pieces@[1]@);
    assert forall|i: int| 0 <= i < e@.items.len() implies {
        &&& pieces@[2 + 4 * i] is Header
        &&& pieces@[3 + 4 * i] is LineBreak
        &&& pieces@[4 + 4 * i] matches Segment::Payload(payload) && bytes_of(payload) == (
        #[trigger] e@.items[i])@.payload
        &&& pieces@[5 + 4 * i] is LineBreak
    } by {
        assert(items[i] == e@.items[i]@);
        assert(views[2 + 4 * i] == pieces@[2 + 4 * i]@);
        assert(views[3 + 4 * i] == pieces@[3 + 4 * i]@);
        assert(views[4 + 4 * i] == pieces@[4 + 4 * i]@);
        assert(views[5 + 4 * i] == pieces@[5 + 4 * i]@);
    }
}

proof fn lemma_pieces(headers: EnvelopeHeadersView<MetaView>, items: Seq<ItemView>)
    ensures
        envelope_segments(headers, items).len() == 2 + 4 * items.len(),
        envelope_segments(headers, items)[0] is Header,
        envelope_segments(headers, items)[1] is LineBreak,
        forall|i: int|
            0 <= i < items.len() ==> {
                &&& envelope_segments(headers, items)[2 + 4 * i] is Header
                &&& envelope_segments(headers, items)[3 + 4 * i] is LineBreak
                &&& envelope_segments(headers, items)[4 + 4 * i] == SegmentView::Payload(
                    (#[trigger] items[i]).payload,
                )
                &&& envelope_segments(headers, items)[5 + 4 * i] is LineBreak
            },
    decreases items.len(),
{
    if items.len() > 0 {
        let first = items.drop_last();
        let all = envelope_segments(headers, items);
        let some = envelope_segments(headers, first);
        lemma_pieces(headers, first);
        assert(all[0] == some[0] && all[1] == some[1]);
        assert forall|i: int| 0 <= i < items.len() implies {
            &&& all[2 + 4 * i] is Header
            &&& all[3 + 4 * i] is LineBreak
            &&& all[4 + 4 * i] == SegmentView::Payload((#[trigger] items[i]).payload)
            &&& all[5 + 4 * i] is LineBreak
        } by {
            if i < first.len() {
                assert(first[i] == items[i]);
                assert(all[2 + 4 * i] == some[2 + 4 * i]);
                assert(all[3 + 4 * i] == some[3 + 4 * i]);
                assert(all[4 + 4 * i] == some[4 + 4 * i]);
                assert(all[5 + 4 * i] == some[5 + 4 * i]);
            }
        }
    }
}

/// An item more adds its headers and its payload, as it is, each on a line of their own, behind
/// what is written for the others.
pub proof fn law_text_of_added(
    e: EnvelopeView,
    item: Item,
    more: EnvelopeView,
    header: Vec<u8>,
)
    requires
        more == (EnvelopeView { items: e.items.push(item), ..e }),
        call_ensures(Item::header_text, (&item,), header),
    ensures
        more.text() == e.text() + header@ + seq![10u8] + item@.payload + seq![10u8],
{
    let all = item_views(more.items);
    assert(all.drop_last() =~= item_views(e.items));
    assert(all.last() == item@);
    assert(more.text() =~= e.text() + header@ + seq![10u8] + item@.payload + seq![10u8]);
}

/// Which numbers of seconds and nanoseconds are a time: seconds in the years -262143 to 262142,
/// and fewer than 1 000 000 000 nanoseconds, or fewer than twice that behind the last second of a
/// minute.
pub proof fn law_time_range(secs: i64, nanos: u32, out: Option<Timestamp>)
    requires
        call_ensures(Timestamp::from_timestamp, (secs, nanos), out),
    ensures
        out is Some <==> -8334601228800 <= secs <= 8210266876799 && (nanos < 1_000_000_000 || nanos
            < 2_000_000_000 && secs as int % 60 == 59),
        out matches Some(time) ==> time@.secs == secs && time@.nanos == nanos,
{
}

/// Clones are the same.
pub proof fn law_clones(
    e: Envelope,
    e2: Envelope,
    meta: RequestMeta,
    meta2: RequestMeta,
    dsc: DynamicSamplingContext,
    dsc2: DynamicSamplingContext,
    value: Value,
    value2: Value,
)
    requires
        call_ensures(<Envelope as Clone>::clone, (&e,), e2),
        call_ensures(<RequestMeta as Clone>::clone, (&meta,), meta2),
        call_ensures(<DynamicSamplingContext as Clone>::clone, (&dsc,), dsc2),
        call_ensures(<Value as Clone>::clone, (&value,), value2),
    ensures
        same_but(e@, e2@, Piece::Items),
        e2@.items.len() == e@.items.len(),
        forall|i: int| 0 <= i < e@.items.len() ==> (#[trigger] e2@.items[i])@ == e@.items[i]@,
        meta2@ == meta@,
        dsc2@ == dsc@,
        value2@ == value@,
{
    assert(item_views(e2@.items).len() == item_views(e@.items).len());
    assert forall|i: int| 0 <= i < e@.items.len() implies (#[trigger] e2@.items[i])@
        == e@.items[i]@ by {
        assert(item_views(e2@.items)[i] == item_views(e@.items)[i]);
    }
}

/// Plain values become the JSON values that they are.
pub proof fn law_values(count: u64, number: i64, flag: bool, text: String)
    ensures
        <Value as FromSpec<u64>>::from_spec(count)@ == ValueView::U64(count),
        <Value as FromSpec<i64>>::from_spec(number)@ == ValueView::I64(number),
        <Value as FromSpec<bool>>::from_spec(flag)@ == ValueView::Bool(flag),
        <Value as FromSpec<String>>::from_spec(text)@ == ValueView::String(text@),
{
}

} // verus!
