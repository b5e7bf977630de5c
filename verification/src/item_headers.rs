//! The headers of an item.
use crate::attachment_type::{
    attachment_type_canonical, attachment_type_name, attachment_type_of,
    lemma_attachment_type_name_of, lemma_attachment_type_of_name, AttachmentType,
    AttachmentTypeView,
};
use crate::content_type::{
    content_type_canonical, content_type_of, content_type_text, lemma_content_type_is_named,
    lemma_content_type_of_text, ContentType, ContentTypeView,
};
use crate::fault::{Field, HeaderFault};
use crate::fields::{
    count_of, find_count, find_flag, find_name, find_others, find_text, find_value, flag_of,
    name_of, others_of, text_of, value_of,
};
use crate::header_map::HeaderMap;
use crate::item_type::{
    item_type_canonical, item_type_name, item_type_of, lemma_item_type_name_of,
    lemma_item_type_of_name, ItemType, ItemTypeView,
};
use crate::json::{ascending, members_view, MemberView, Value, ValueView};
use crate::layout::{
    distinct, lemma_others_of, lemma_slot_take, lemma_slots_keep, lemma_slots_read, push_field,
    push_others, slot_fields, slot_members, unreserved, Slot,
};
use crate::object::{all_keep, keeps, object_text, scans_as, write_object};
use crate::views::opt_view;
use vstd::prelude::*;

verus! {

/// The headers of an item.
#[derive(Debug)]
pub struct ItemHeaders {
    /// The type of the item.
    pub(crate) ty: ItemType,
    /// Content length of the item.
    ///
    /// Can be omitted if the item does not contain new lines. In this case, the item payload is
    /// parsed until the first newline is encountered.
    pub(crate) length: Option<u32>,
    /// If this is an attachment item, this may contain the attachment type.
    pub(crate) attachment_type: Option<AttachmentType>,
    /// Content type of the payload.
    pub(crate) content_type: Option<ContentType>,
    /// If this is an attachment item, this may contain the original file name.
    pub(crate) filename: Option<String>,
    /// Indicates that this item is being rate limited. This is not written into an envelope.
    pub(crate) rate_limited: bool,
    /// A list of cumulative sample rates applied to this event.
    pub(crate) sample_rates: Option<Value>,
    /// Flag indicating if metrics have already been extracted from the item.
    pub(crate) metrics_extracted: bool,
    /// Other attributes for forward compatibility.
    pub(crate) other: HeaderMap,
}

/// What [`ItemHeaders`] stand for.
#[verifier::ext_equal]
pub struct ItemHeadersView {
    /// The type of the item.
    pub ty: ItemTypeView,
    /// Content length of the item.
    pub length: Option<u32>,
    /// The attachment type.
    pub attachment_type: Option<AttachmentTypeView>,
    /// Content type of the payload.
    pub content_type: Option<ContentTypeView>,
    /// The file name.
    pub filename: Option<Seq<char>>,
    /// Whether the item is being rate limited.
    pub rate_limited: bool,
    /// The sample rates.
    pub sample_rates: Option<ValueView>,
    /// Whether metrics have already been extracted.
    pub metrics_extracted: bool,
    /// Other attributes, by ascending name.
    pub other: Seq<MemberView>,
}

impl View for ItemHeaders {
    type V = ItemHeadersView;

    open(crate) spec fn view(&self) -> ItemHeadersView {
        ItemHeadersView {
            ty: self.ty@,
            length: self.length,
            attachment_type: opt_view(self.attachment_type),
            content_type: opt_view(self.content_type),
            filename: opt_view(self.filename),
            rate_limited: self.rate_limited,
            sample_rates: opt_view(self.sample_rates),
            metrics_extracted: self.metrics_extracted,
            other: self.other@,
        }
    }
}

/// The fields that the headers of an item define.
pub open spec fn item_fields() -> Seq<Field> {
    seq![
        Field::Type,
        Field::Length,
        Field::AttachmentType,
        Field::ContentType,
        Field::Filename,
        Field::SampleRates,
        Field::MetricsExtracted,
    ]
}

/// The sample rates that `members` state. `null` counts as absent.
pub open spec fn sample_rates_of(members: Seq<MemberView>) -> Result<
    Option<ValueView>,
    HeaderFault,
> {
    match value_of(members, Field::SampleRates) {
        Err(fault) => Err(fault),
        Ok(None) => Ok(None),
        Ok(Some(ValueView::Null)) => Ok(None),
        Ok(Some(value)) => Ok(Some(value)),
    }
}

/// The item headers that `members` state, or what is wrong with them.
///
/// The type is required. No field may occur twice.
pub open spec fn item_headers_of(members: Seq<MemberView>) -> Result<
    ItemHeadersView,
    HeaderFault,
> {
    match (
        name_of(members, Field::Type),
        count_of(members, Field::Length, u32::MAX as u64),
        text_of(members, Field::AttachmentType),
        text_of(members, Field::ContentType),
        text_of(members, Field::Filename),
        sample_rates_of(members),
        flag_of(members, Field::MetricsExtracted),
    ) {
        (Err(fault), _, _, _, _, _, _) => Err(fault),
        (_, Err(fault), _, _, _, _, _) => Err(fault),
        (_, _, Err(fault), _, _, _, _) => Err(fault),
        (_, _, _, Err(fault), _, _, _) => Err(fault),
        (_, _, _, _, Err(fault), _, _) => Err(fault),
        (_, _, _, _, _, Err(fault), _) => Err(fault),
        (_, _, _, _, _, _, Err(fault)) => Err(fault),
        (
            Ok(ty),
            Ok(length),
            Ok(attachment_type),
            Ok(content_type),
            Ok(filename),
            Ok(sample_rates),
            Ok(metrics_extracted),
        ) => Ok(
            ItemHeadersView {
                ty: item_type_of(ty),
                length: match length {
                    Some(length) => Some(length as u32),
                    None => None,
                },
                attachment_type: match attachment_type {
                    Some(name) => Some(attachment_type_of(name)),
                    None => None,
                },
                content_type: match content_type {
                    Some(text) => Some(content_type_of(text)),
                    None => None,
                },
                filename,
                rate_limited: false,
                sample_rates,
                metrics_extracted,
                other: others_of(members, item_fields()),
            },
        ),
    }
}

/// The fields as they stand in the headers of an item, in the order in which they are written.
pub open spec fn item_slots(headers: ItemHeadersView) -> Seq<Slot> {
    seq![
        (Field::Type, Some(ValueView::String(item_type_name(headers.ty)))),
        (
            Field::Length,
            match headers.length {
                Some(length) => Some(ValueView::U64(length as u64)),
                None => None,
            },
        ),
        (
            Field::AttachmentType,
            match headers.attachment_type {
                Some(ty) => Some(ValueView::String(attachment_type_name(ty))),
                None => None,
            },
        ),
        (
            Field::ContentType,
            match headers.content_type {
                Some(ty) => Some(ValueView::String(content_type_text(ty))),
                None => None,
            },
        ),
        (
            Field::Filename,
            match headers.filename {
                Some(filename) => Some(ValueView::String(filename)),
                None => None,
            },
        ),
        (Field::SampleRates, headers.sample_rates),
        (
            Field::MetricsExtracted,
            if headers.metrics_extracted {
                Some(ValueView::Bool(true))
            } else {
                None
            },
        ),
    ]
}

/// The members that are written for the headers of an item.
///
/// Fields without a value are left out, and so is the flag for rate limiting.
pub open spec fn item_members(headers: ItemHeadersView) -> Seq<MemberView> {
    slot_members(item_slots(headers)) + headers.other
}

impl ItemHeadersView {
    /// What the headers of an item never hold: sample rates of `null`, and other attributes out of
    /// order.
    pub open spec fn wf(self) -> bool {
        self.sample_rates != Some(ValueView::Null) && ascending(self.other)
    }

    /// Whether the headers are read back from what is written for them.
    ///
    /// The types are canonical, no other attribute has the name of a field, and JSON text gives
    /// every value back.
    pub open spec fn survives(self) -> bool {
        &&& item_type_canonical(self.ty)
        &&& self.attachment_type matches Some(ty) ==> attachment_type_canonical(ty)
        &&& self.content_type matches Some(ty) ==> content_type_canonical(ty)
        &&& self.sample_rates matches Some(value) ==> keeps(value)
        &&& all_keep(self.other)
        &&& unreserved(self.other, item_fields())
    }

    /// The headers as they are read back: without the flag for rate limiting.
    pub open spec fn as_read(self) -> Self {
        ItemHeadersView { rate_limited: false, ..self }
    }
}

/// Headers are read back from the members that are written for them.
pub proof fn lemma_item_headers_read(headers: ItemHeadersView)
    requires
        headers.wf(),
        headers.survives(),
    ensures
        item_headers_of(item_members(headers)) == Ok::<_, HeaderFault>(headers.as_read()),
        all_keep(item_members(headers)),
{
    let slots = item_slots(headers);
    let members = item_members(headers);
    assert(slot_fields(slots) =~= item_fields());
    assert(distinct(slots));
    lemma_slots_read(slots, headers.other);
    lemma_slots_keep(slots, headers.other);
    lemma_item_type_of_name(headers.ty);
    if let Some(ty) = headers.attachment_type {
        lemma_attachment_type_of_name(ty);
    }
    if let Some(ty) = headers.content_type {
        lemma_content_type_of_text(ty);
    }
    assert(value_of(members, slots[0].0) == Ok::<_, HeaderFault>(slots[0].1));
    assert(value_of(members, slots[1].0) == Ok::<_, HeaderFault>(slots[1].1));
    assert(value_of(members, slots[2].0) == Ok::<_, HeaderFault>(slots[2].1));
    assert(value_of(members, slots[3].0) == Ok::<_, HeaderFault>(slots[3].1));
    assert(value_of(members, slots[4].0) == Ok::<_, HeaderFault>(slots[4].1));
    assert(value_of(members, slots[5].0) == Ok::<_, HeaderFault>(slots[5].1));
    assert(value_of(members, slots[6].0) == Ok::<_, HeaderFault>(slots[6].1));
}

/// Headers that have been read are read back once more, if JSON text gives their values back.
pub proof fn lemma_read_item_headers_survive(members: Seq<MemberView>, headers: ItemHeadersView)
    requires
        item_headers_of(members) == Ok::<_, HeaderFault>(headers),
        headers.sample_rates matches Some(value) ==> keeps(value),
        all_keep(headers.other),
    ensures
        headers.wf(),
        headers.survives(),
        headers.as_read() == headers,
{
    lemma_others_of(members, item_fields());
    if let Ok(name) = name_of(members, Field::Type) {
        lemma_item_type_name_of(name);
    }
    if let Ok(Some(name)) = text_of(members, Field::AttachmentType) {
        lemma_attachment_type_name_of(name);
    }
    if let Ok(Some(text)) = text_of(members, Field::ContentType) {
        lemma_content_type_is_named(text);
    }
}

impl ItemHeaders {
    /// Reads the headers of an item from the members of a JSON object.
    pub fn from_members(members: &Vec<(String, Value)>) -> (r: Result<Self, HeaderFault>)
        ensures
            match r {
                Ok(headers) => item_headers_of(members_view(members@)) == Ok::<_, HeaderFault>(
                    headers@,
                ) && headers@.wf(),
                Err(fault) => {
                    &&& item_headers_of(members_view(members@)) == Err::<ItemHeadersView, _>(fault)
                    &&& fault != HeaderFault::Malformed
                },
            },
    {
        let ty = match find_name(members, Field::Type) {
            Ok(name) => ItemType::from_name(name.as_str()),
            Err(fault) => return Err(fault),
        };
        let length = match find_count(members, Field::Length, u32::MAX as u64) {
            Ok(Some(length)) => Some(length as u32),
            Ok(None) => None,
            Err(fault) => return Err(fault),
        };
        let attachment_type = match find_text(members, Field::AttachmentType) {
            Ok(Some(name)) => Some(AttachmentType::from_name(name.as_str())),
            Ok(None) => None,
            Err(fault) => return Err(fault),
        };
        let content_type = match find_text(members, Field::ContentType) {
            Ok(Some(text)) => Some(ContentType::from_text(text.as_str())),
            Ok(None) => None,
            Err(fault) => return Err(fault),
        };
        let filename = match find_text(members, Field::Filename) {
            Ok(filename) => filename,
            Err(fault) => return Err(fault),
        };
        let sample_rates = match find_value(members, Field::SampleRates) {
            Ok(None) => None,
            Ok(Some(Value::Null)) => None,
            Ok(Some(value)) => Some(value.clone()),
            Err(fault) => return Err(fault),
        };
        let metrics_extracted = match find_flag(members, Field::MetricsExtracted) {
            Ok(flag) => flag,
            Err(fault) => return Err(fault),
        };
        let fields = vec![
            Field::Type,
            Field::Length,
            Field::AttachmentType,
            Field::ContentType,
            Field::Filename,
            Field::SampleRates,
            Field::MetricsExtracted,
        ];
        assert(fields@ =~= item_fields());
        let other = find_others(members, fields.as_slice());
        let _ = other.entries();
        Ok(
            ItemHeaders {
                ty,
                length,
                attachment_type,
                content_type,
                filename,
                rate_limited: false,
                sample_rates,
                metrics_extracted,
                other,
            },
        )
    }

    /// The members to write for the headers.
    fn members(&self) -> (r: Vec<(String, Value)>)
        ensures
            members_view(r@) == item_members(self@),
            ascending(self@.other),
    {
        let mut members: Vec<(String, Value)> = Vec::new();
        let ghost slots = item_slots(self@);
        assert(members_view(members@) =~= slot_members(slots.take(0)));
        push_field(&mut members, Field::Type, Some(Value::String(self.ty.as_str().to_owned())));
        proof {
            lemma_slot_take(slots, 0);
        }
        let length = match self.length {
            Some(length) => Some(Value::U64(length as u64)),
            None => None,
        };
        push_field(&mut members, Field::Length, length);
        proof {
            lemma_slot_take(slots, 1);
        }
        let attachment_type = match &self.attachment_type {
            Some(ty) => Some(Value::String(ty.as_str().to_owned())),
            None => None,
        };
        push_field(&mut members, Field::AttachmentType, attachment_type);
        proof {
            lemma_slot_take(slots, 2);
        }
        let content_type = match &self.content_type {
            Some(ty) => Some(Value::String(ty.as_str().to_owned())),
            None => None,
        };
        push_field(&mut members, Field::ContentType, content_type);
        proof {
            lemma_slot_take(slots, 3);
        }
        let filename = match &self.filename {
            Some(filename) => Some(Value::String(filename.clone())),
            None => None,
        };
        push_field(&mut members, Field::Filename, filename);
        proof {
            lemma_slot_take(slots, 4);
        }
        let sample_rates = match &self.sample_rates {
            Some(value) => Some(value.clone()),
            None => None,
        };
        push_field(&mut members, Field::SampleRates, sample_rates);
        proof {
            lemma_slot_take(slots, 5);
        }
        let metrics_extracted = if is_false(&self.metrics_extracted) {
            None
        } else {
            Some(Value::Bool(true))
        };
        push_field(&mut members, Field::MetricsExtracted, metrics_extracted);
        proof {
            lemma_slot_take(slots, 6);
        }
        assert(slots.take(7) =~= slots);
        push_others(&mut members, &self.other);
        members
    }

    /// Writes the headers as a JSON object, without line breaks.
    ///
    /// Reading gives the headers back, the flag for rate limiting apart, where they survive it.
    pub fn to_text(&self) -> (r: Vec<u8>)
        requires
            self@.sample_rates != Some(ValueView::Null),
        ensures
            r@ == object_text(item_members(self@)),
            !r@.contains(0x0a),
            self@.wf(),
            self@.survives() ==> scans_as(r@, item_members(self@)),
            self@.survives() ==> item_headers_of(item_members(self@)) == Ok::<_, HeaderFault>(
                self@.as_read(),
            ),
    {
        let members = self.members();
        let text = write_object(&members);
        proof {
            if self@.survives() {
                lemma_item_headers_read(self@);
            }
        }
        text
    }
}

/// Whether a flag is not set. Such a flag is not written.
pub fn is_false(val: &bool) -> (r: bool)
    ensures
        r == !*val,
{
    !*val
}

impl Clone for ItemHeaders {
    fn clone(&self) -> (r: Self)
        ensures
            r@ == self@,
    {
        ItemHeaders {
            ty: self.ty.clone(),
            length: self.length,
            attachment_type: match &self.attachment_type {
                Some(ty) => Some(ty.clone()),
                None => None,
            },
            content_type: match &self.content_type {
                Some(ty) => Some(ty.clone()),
                None => None,
            },
            filename: self.filename.clone(),
            rate_limited: self.rate_limited,
            sample_rates: match &self.sample_rates {
                Some(value) => Some(value.clone()),
                None => None,
            },
            metrics_extracted: self.metrics_extracted,
            other: self.other.clone(),
        }
    }
}

} // verus!
