//! The members of a header: the fields that the envelope format defines, then all others.
use crate::fault::{Field, HeaderFault};
use crate::fields::{lemma_others_split, names, others_of, repeated, value_of};
use crate::header_map::{
    lemma_find_at, lemma_find_none, lemma_place_ascending, lemma_rank, place, rank, HeaderMap,
};
use crate::json::{ascending, members_view, MemberView, Value, ValueView};
use crate::object::{all_keep, keeps};
use crate::views::opt_view;
use vstd::prelude::*;

verus! {

/// A field and the value that it stands with in a header, if it stands there.
pub type Slot = (Field, Option<ValueView>);

/// Members with that for `slot` behind them, if it holds a value.
pub open spec fn with_slot(members: Seq<MemberView>, slot: Slot) -> Seq<MemberView> {
    match slot.1 {
        Some(value) => members.push((slot.0.spec_name(), value)),
        None => members,
    }
}

/// The members for those of `slots` that hold a value, in their order.
pub open spec fn slot_members(slots: Seq<Slot>) -> Seq<MemberView>
    decreases slots.len(),
{
    if slots.len() == 0 {
        Seq::empty()
    } else {
        with_slot(slot_members(slots.drop_last()), slots.last())
    }
}

/// Whether no field has two of `slots`.
pub open spec fn distinct(slots: Seq<Slot>) -> bool {
    forall|i: int, j: int|
        0 <= i < j < slots.len() ==> (#[trigger] slots[i]).0 != (#[trigger] slots[j]).0
}

/// The fields of `slots`.
pub open spec fn slot_fields(slots: Seq<Slot>) -> Seq<Field> {
    Seq::new(slots.len(), |i: int| slots[i].0)
}

/// Whether no member has the name of one of `fields`.
pub open spec fn unreserved(members: Seq<MemberView>, fields: Seq<Field>) -> bool {
    forall|i: int| 0 <= i < members.len() ==> !names(fields, (#[trigger] members[i]).0)
}

/// No two fields have the same name.
pub proof fn lemma_field_names(a: Field, b: Field)
    requires
        a.spec_name() == b.spec_name(),
    ensures
        a == b,
{
    reveal_strlit("type");
    reveal_strlit("length");
    reveal_strlit("attachment_type");
    reveal_strlit("content_type");
    reveal_strlit("filename");
    reveal_strlit("sample_rates");
    reveal_strlit("metrics_extracted");
    reveal_strlit("event_id");
    reveal_strlit("dsn");
    reveal_strlit("client");
    reveal_strlit("version");
    reveal_strlit("origin");
    reveal_strlit("remote_addr");
    reveal_strlit("forwarded_for");
    reveal_strlit("user_agent");
    reveal_strlit("retention");
    reveal_strlit("sent_at");
    reveal_strlit("trace");
    assert("type"@.len() == 4 && "type"@[0] == 't');
    assert("length"@.len() == 6 && "length"@[0] == 'l');
    assert("attachment_type"@.len() == 15 && "attachment_type"@[0] == 'a');
    assert("content_type"@.len() == 12 && "content_type"@[0] == 'c');
    assert("filename"@.len() == 8 && "filename"@[0] == 'f');
    assert("sample_rates"@.len() == 12 && "sample_rates"@[0] == 's');
    assert("metrics_extracted"@.len() == 17 && "metrics_extracted"@[0] == 'm');
    assert("event_id"@.len() == 8 && "event_id"@[0] == 'e');
    assert("dsn"@.len() == 3 && "dsn"@[0] == 'd');
    assert("client"@.len() == 6 && "client"@[0] == 'c');
    assert("version"@.len() == 7 && "version"@[0] == 'v');
    assert("origin"@.len() == 6 && "origin"@[0] == 'o');
    assert("remote_addr"@.len() == 11 && "remote_addr"@[0] == 'r');
    assert("forwarded_for"@.len() == 13 && "forwarded_for"@[0] == 'f');
    assert("user_agent"@.len() == 10 && "user_agent"@[0] == 'u');
    assert("retention"@.len() == 9 && "retention"@[0] == 'r');
    assert("sent_at"@.len() == 7 && "sent_at"@[0] == 's');
    assert("trace"@.len() == 5 && "trace"@[0] == 't');
    assert(a.spec_name().len() == b.spec_name().len());
    assert(a.spec_name()[0] == b.spec_name()[0]);
}

/// Each of the members for `slots` stands for one of them.
proof fn lemma_slot_of(slots: Seq<Slot>, k: int) -> (i: int)
    requires
        0 <= k < slot_members(slots).len(),
    ensures
        0 <= i < slots.len(),
        slot_members(slots)[k].0 == slots[i].0.spec_name(),
        slots[i].1 == Some(slot_members(slots)[k].1),
    decreases slots.len(),
{
    let earlier = slots.drop_last();
    if k < slot_members(earlier).len() {
        let i = lemma_slot_of(earlier, k);
        assert(earlier[i] == slots[i]);
        i
    } else {
        slots.len() - 1
    }
}

/// The slot of a field with a value has a member, and no earlier slot has one of that name.
proof fn lemma_slot_at(slots: Seq<Slot>, i: int) -> (k: int)
    requires
        distinct(slots),
        0 <= i < slots.len(),
        slots[i].1 is Some,
    ensures
        0 <= k < slot_members(slots).len(),
        slot_members(slots)[k] == (slots[i].0.spec_name(), slots[i].1->0),
        forall|j: int|
            0 <= j < slot_members(slots).len() && j != k ==> (#[trigger] slot_members(slots)[j]).0
                != slots[i].0.spec_name(),
    decreases slots.len(),
{
    let earlier = slots.drop_last();
    let all = slot_members(slots);
    let name = slots[i].0.spec_name();
    if i == slots.len() - 1 {
        let k = all.len() - 1;
        assert forall|j: int| 0 <= j < all.len() && j != k implies (#[trigger] all[j]).0
            != name by {
            assert(all[j] == slot_members(earlier)[j]);
            let other = lemma_slot_of(earlier, j);
            assert(earlier[other] == slots[other]);
            if all[j].0 == name {
                lemma_field_names(slots[other].0, slots[i].0);
            }
        }
        k
    } else {
        assert(earlier[i] == slots[i]);
        assert forall|a: int, b: int| 0 <= a < b < earlier.len() implies (#[trigger] earlier[a]).0
            != (#[trigger] earlier[b]).0 by {
            assert(earlier[a] == slots[a] && earlier[b] == slots[b]);
        }
        let k = lemma_slot_at(earlier, i);
        assert forall|j: int| 0 <= j < all.len() && j != k implies (#[trigger] all[j]).0
            != name by {
            if j < slot_members(earlier).len() {
                assert(all[j] == slot_members(earlier)[j]);
            } else if all[j].0 == name {
                lemma_field_names(slots.last().0, slots[i].0);
                assert(slots[i].0 != slots[slots.len() - 1].0);
            }
        }
        k
    }
}

/// Of the members for `slots` and others behind them, each field has the value of its slot, and
/// the others are what is left over.
pub proof fn lemma_slots_read(slots: Seq<Slot>, other: Seq<MemberView>)
    requires
        distinct(slots),
        ascending(other),
        unreserved(other, slot_fields(slots)),
    ensures
        forall|i: int|
            0 <= i < slots.len() ==> value_of(
                slot_members(slots) + other,
                (#[trigger] slots[i]).0,
            ) == Ok::<_, HeaderFault>(slots[i].1),
        others_of(slot_members(slots) + other, slot_fields(slots)) == other,
{
    let known = slot_members(slots);
    let all = known + other;
    let fields = slot_fields(slots);
    assert forall|k: int| 0 <= k < known.len() implies names(fields, (#[trigger] known[k]).0) by {
        let i = lemma_slot_of(slots, k);
        assert(fields[i].spec_name() == known[k].0);
    }
    lemma_others_split(known, other, fields);
    assert forall|i: int| 0 <= i < slots.len() implies value_of(all, (#[trigger] slots[i]).0)
        == Ok::<_, HeaderFault>(slots[i].1) by {
        let name = slots[i].0.spec_name();
        assert(fields[i].spec_name() == name);
        assert forall|j: int| known.len() <= j < all.len() implies (#[trigger] all[j]).0
            != name by {
            assert(all[j] == other[j - known.len()]);
        }
        if slots[i].1 is Some {
            let k = lemma_slot_at(slots, i);
            assert(all[k] == known[k]);
            assert forall|j: int| 0 <= j < all.len() && j != k implies (#[trigger] all[j]).0
                != name by {
                if j < known.len() {
                    assert(all[j] == known[j]);
                }
            }
            assert(!repeated(all, name));
            lemma_find_at(all, name, k);
        } else {
            assert forall|j: int| 0 <= j < all.len() implies (#[trigger] all[j]).0 != name by {
                if j < known.len() {
                    assert(all[j] == known[j]);
                    let at = lemma_slot_of(slots, j);
                    if all[j].0 == name {
                        lemma_field_names(slots[at].0, slots[i].0);
                        assert(at == i);
                    }
                }
            }
            assert(!repeated(all, name));
            lemma_find_none(all, name);
        }
    }
}

/// JSON text gives all members back if it does so for the value of each slot and each other
/// member.
pub proof fn lemma_slots_keep(slots: Seq<Slot>, other: Seq<MemberView>)
    requires
        forall|i: int|
            0 <= i < slots.len() ==> ((#[trigger] slots[i]).1 matches Some(v) ==> keeps(v)),
        all_keep(other),
    ensures
        all_keep(slot_members(slots) + other),
{
    let known = slot_members(slots);
    let all = known + other;
    assert forall|k: int| 0 <= k < all.len() implies keeps((#[trigger] all[k]).1) by {
        if k < known.len() {
            let i = lemma_slot_of(slots, k);
            assert(slots[i].1 == Some(known[k].1));
        } else {
            assert(all[k] == other[k - known.len()]);
        }
    }
}

/// One more slot gives one more member, if it holds a value.
pub proof fn lemma_slot_take(slots: Seq<Slot>, i: int)
    requires
        0 <= i < slots.len(),
    ensures
        slot_members(slots.take(i + 1)) == with_slot(slot_members(slots.take(i)), slots[i]),
{
    assert(slots.take(i + 1).drop_last() =~= slots.take(i));
}

/// Adds a field to the members of a header, if there is a value for it.
pub fn push_field(members: &mut Vec<(String, Value)>, field: Field, value: Option<Value>)
    ensures
        members_view(final(members)@) == with_slot(
            members_view(old(members)@),
            (field, opt_view(value)),
        ),
{
    let ghost so_far = members_view(members@);
    if let Some(value) = value {
        members.push((String::from(field.name()), value));
        assert(members_view(members@) =~= so_far.push((field.spec_name(), value@)));
    }
}

/// Adds all other members of a header behind its fields.
pub fn push_others(members: &mut Vec<(String, Value)>, others: &HeaderMap)
    ensures
        members_view(final(members)@) == members_view(old(members)@) + others@,
        ascending(others@),
{
    let entries = others.entries();
    let ghost before = members_view(members@);
    let mut i: usize = 0;
    assert(members_view(members@) =~= before + others@.take(0));
    while i < entries.len()
        invariant
            i <= entries@.len(),
            members_view(entries@) == others@,
            members_view(members@) == before + others@.take(i as int),
        decreases entries@.len() - i,
    {
        let ghost so_far = members_view(members@);
        members.push((entries[i].0.clone(), entries[i].1.clone()));
        assert(others@[i as int] == members_view(entries@)[i as int]);
        assert(members_view(members@) =~= so_far.push(others@[i as int]));
        i += 1;
        assert(members_view(members@) =~= before + others@.take(i as int));
    }
    assert(others@.take(others@.len() as int) =~= others@);
}

/// What is left over of members ascends by name, and none of it is among the fields.
pub proof fn lemma_others_of(members: Seq<MemberView>, fields: Seq<Field>)
    ensures
        ascending(others_of(members, fields)),
        unreserved(others_of(members, fields), fields),
    decreases members.len(),
{
    if members.len() > 0 {
        let earlier = others_of(members.drop_last(), fields);
        let (name, value) = members.last();
        lemma_others_of(members.drop_last(), fields);
        if !names(fields, name) {
            let placed = place(earlier, name, value);
            lemma_place_ascending(earlier, name, value);
            lemma_rank(earlier, name);
            let at = rank(earlier, name);
            assert forall|i: int| 0 <= i < placed.len() implies !names(
                fields,
                (#[trigger] placed[i]).0,
            ) by {
                if i < at || at < earlier.len() && earlier[at].0 == name && i != at {
                    assert(placed[i] == earlier[i]);
                } else if i > at {
                    assert(placed[i] == earlier[i - 1]);
                }
            }
        }
    }
}

} // verus!
